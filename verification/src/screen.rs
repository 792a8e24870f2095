use vstd::prelude::*;
use crate::text::{decimal, owned, push_decimal, string_push};

verus! {

/// Errors of the screen capture and encoding layer.
#[derive(Debug)]
pub enum PlatformError {
    APIError(i32),
    TypeError,
    PrepareError,
    ExistError,
}

/// One monitor as the desktop sees it: its place and size in desktop coordinates.
#[derive(Debug)]
pub struct Screen {
    pub id: String,
    pub name: String,
    pub width: u32,
    pub height: u32,
    pub x: i32,
    pub y: i32,
    pub primary: bool,
}

impl Clone for Screen {
    fn clone(&self) -> (r: Self)
        ensures
            r == *self,
    {
        Screen {
            id: self.id.clone(),
            name: self.name.clone(),
            width: self.width,
            height: self.height,
            x: self.x,
            y: self.y,
            primary: self.primary,
        }
    }
}

impl Screen {
    /// The right edge `x + width` and bottom edge `y + height` fit in an `i32`.
    pub open spec fn edges_fit(&self) -> bool {
        &&& i32::MIN <= self.x + (self.width as i32) <= i32::MAX
        &&& i32::MIN <= self.y + (self.height as i32) <= i32::MAX
    }

    /// The screen's corners `(left, top, right, bottom)`.
    pub fn get_base_point(&self) -> (r: (i32, i32, i32, i32))
        requires
            self.edges_fit(),
        ensures
            r.0 == self.x,
            r.1 == self.y,
            r.2 == self.x + (self.width as i32),
            r.3 == self.y + (self.height as i32),
    {
        (self.x, self.y, self.x + self.width as i32, self.y + self.height as i32)
    }
}


/// How the capture backend of each platform addresses a monitor.
#[derive(Debug)]
pub enum NativeScreen {
    Windows { adapter_idx: u32, output_idx: u32 },
    Mac { display_id: u32 },
    Linux { internal_id: String },
}

impl Clone for NativeScreen {
    fn clone(&self) -> (r: Self)
        ensures
            r == *self,
    {
        match self {
            NativeScreen::Windows { adapter_idx, output_idx } => NativeScreen::Windows {
                adapter_idx: *adapter_idx,
                output_idx: *output_idx,
            },
            NativeScreen::Mac { display_id } => NativeScreen::Mac { display_id: *display_id },
            NativeScreen::Linux { internal_id } => NativeScreen::Linux { internal_id: internal_id.clone() },
        }
    }
}

/// The native screen that a list of `(id, native)` pairs gives `id`: as in a map
/// filled in list order, the last pair with that id counts.
pub open spec fn native_lookup(pairs: Seq<(String, NativeScreen)>, id: Seq<char>) -> Option<NativeScreen>
    decreases pairs.len(),
{
    if pairs.len() == 0 {
        None
    } else if pairs.last().0@ == id {
        Some(pairs.last().1)
    } else {
        native_lookup(pairs.drop_last(), id)
    }
}

/// The screen a session starts on: the first primary screen, else the first screen.
pub open spec fn chosen_screen(found: Seq<(Screen, NativeScreen)>) -> Option<Screen>
    decreases found.len(),
{
    if found.len() == 0 {
        None
    } else if found[0].0.primary {
        Some(found[0].0)
    } else {
        match chosen_screen(found.drop_first()) {
            Some(s) if s.primary => Some(s),
            _ => Some(found[0].0),
        }
    }
}

/// The screen a session starts on is one of the found screens: the first primary one
/// when there is a primary screen, else the first screen.
pub proof fn law_chosen_screen(found: Seq<(Screen, NativeScreen)>)
    requires
        found.len() > 0,
    ensures
        chosen_screen(found) is Some,
        (exists|i: int| 0 <= i < found.len() && (#[trigger] found[i]).0.primary) ==> exists|i: int|
            0 <= i < found.len() && chosen_screen(found) == Some(found[i].0) && found[i].0.primary
                && forall|j: int| 0 <= j < i ==> !(#[trigger] found[j]).0.primary,
        (forall|i: int| 0 <= i < found.len() ==> !(#[trigger] found[i]).0.primary) ==> chosen_screen(found) == Some(found[0].0),
    decreases found.len(),
{
    if found.len() > 1 && !found[0].0.primary {
        let rest = found.drop_first();
        law_chosen_screen(rest);
        if exists|i: int| 0 <= i < found.len() && (#[trigger] found[i]).0.primary {
            let i = choose|i: int| 0 <= i < found.len() && (#[trigger] found[i]).0.primary;
            assert(rest[i - 1] == found[i]);
            let k = choose|k: int| 0 <= k < rest.len() && chosen_screen(rest) == Some(rest[k].0) && rest[k].0.primary
                && forall|j: int| 0 <= j < k ==> !(#[trigger] rest[j]).0.primary;
            assert(found[k + 1] == rest[k]);
            assert forall|j: int| 0 <= j < k + 1 implies !(#[trigger] found[j]).0.primary by {
                if j > 0 {
                    assert(found[j] == rest[j - 1]);
                }
            }
        } else {
            assert forall|i: int| 0 <= i < rest.len() implies !(#[trigger] rest[i]).0.primary by {
                assert(rest[i] == found[i + 1]);
            }
            assert(!rest[0].0.primary);
            assert(chosen_screen(found) == Some(found[0].0));
        }
    } else if found.len() == 1 && !found[0].0.primary {
        assert(chosen_screen(found.drop_first()) is None);
    }
}

/// The message of a capture start with no screen to show.
pub open spec fn no_screens_message() -> Seq<char> {
    "No screens found"@
}

/// The screens the capture backend found, the one being shown, and how each screen
/// id is addressed natively.
pub struct ScreenManager {
    pub screens: Vec<Screen>,
    pub now_screen: Screen,
    /// `(screen id, native screen)` pairs; a later pair overrides an earlier one
    /// with the same id.
    pub native_map: Vec<(String, NativeScreen)>,
}

impl ScreenManager {
    /// Builds the manager from what the capture backend enumerated: the screens in
    /// order, the first primary one (else the first one) as the shown screen, and
    /// each id mapped to its native screen. Fails when nothing was found.
    pub fn from_screens(found: Vec<(Screen, NativeScreen)>) -> (r: Result<ScreenManager, String>)
        ensures
            found@.len() == 0 <==> r is Err,
            r matches Err(e) ==> e@ == no_screens_message(),
            r matches Ok(m) ==> {
                &&& m.screens@ == found@.map_values(|p: (Screen, NativeScreen)| p.0)
                &&& Some(m.now_screen) == chosen_screen(found@)
                &&& m.native_map@ == found@.map_values(|p: (Screen, NativeScreen)| (p.0.id, p.1))
            },
    {
        let mut screens: Vec<Screen> = Vec::new();
        let mut native_map: Vec<(String, NativeScreen)> = Vec::new();
        let mut now: Option<Screen> = None;
        let n = found.len();
        let mut i: usize = n;
        // Walk backwards so that the last primary screen met is the first in order.
        while i > 0
            invariant
                i <= n == found@.len(),
                now == chosen_screen(found@.skip(i as int)),
            decreases i,
        {
            i = i - 1;
            proof {
                assert(found@.skip(i as int).drop_first() =~= found@.skip(i + 1));
            }
            let s = &found[i].0;
            let take = match &now {
                None => true,
                Some(cur) => s.primary || !cur.primary,
            };
            if take {
                now = Some(s.clone());
            }
        }
        assert(found@.skip(0) =~= found@);
        let mut j: usize = 0;
        while j < n
            invariant
                j <= n == found@.len(),
                screens@ == found@.take(j as int).map_values(|p: (Screen, NativeScreen)| p.0),
                native_map@ == found@.take(j as int).map_values(|p: (Screen, NativeScreen)| (p.0.id, p.1)),
            decreases n - j,
        {
            let s = found[j].0.clone();
            let ns = found[j].1.clone();
            let id = s.id.clone();
            screens.push(s);
            native_map.push((id, ns));
            proof {
                assert(found@.take(j + 1).drop_last() =~= found@.take(j as int));
            }
            j = j + 1;
            proof {
                assert(screens@ =~= found@.take(j as int).map_values(|p: (Screen, NativeScreen)| p.0));
                assert(native_map@ =~= found@.take(j as int).map_values(|p: (Screen, NativeScreen)| (p.0.id, p.1)));
            }
        }
        assert(found@.take(n as int) =~= found@);
        match now {
            None => Err(owned("No screens found")),
            Some(now_screen) => Ok(ScreenManager { screens, now_screen, native_map }),
        }
    }

    /// The native screen recorded for `id`.
    pub fn native_for(&self, id: &String) -> (r: Option<NativeScreen>)
        ensures
            r == native_lookup(self.native_map@, id@),
    {
        let mut i: usize = self.native_map.len();
        assert(self.native_map@.take(i as int) =~= self.native_map@);
        while i > 0
            invariant
                i <= self.native_map@.len(),
                native_lookup(self.native_map@, id@) == native_lookup(self.native_map@.take(i as int), id@),
            decreases i,
        {
            proof {
                assert(self.native_map@.take(i as int).drop_last() =~= self.native_map@.take(i - 1));
            }
            if self.native_map[i - 1].0 == *id {
                return Some(self.native_map[i - 1].1.clone());
            }
            i = i - 1;
        }
        None
    }

    /// The native screen of the screen being shown.
    pub fn now_native(&self) -> (r: Option<NativeScreen>)
        ensures
            r == native_lookup(self.native_map@, self.now_screen.id@),
    {
        self.native_for(&self.now_screen.id)
    }
}


/// The id under which a Windows output is known: `win:<adapter>:<output>`.
pub open spec fn windows_screen_id(adapter_idx: u32, output_idx: u32) -> Seq<char> {
    "win:"@ + decimal(adapter_idx as nat) + ":"@ + decimal(output_idx as nat)
}

/// The screen that one enumerated Windows output describes, from its adapter and
/// output indices, its device name and its desktop rectangle. An output placed at
/// the desktop origin is the primary one.
pub fn screen_of_output(
    adapter_idx: u32,
    output_idx: u32,
    name: String,
    left: i32,
    top: i32,
    right: i32,
    bottom: i32,
) -> (r: (Screen, NativeScreen))
    requires
        i32::MIN <= right - left <= i32::MAX,
        i32::MIN <= bottom - top <= i32::MAX,
    ensures
        r.0.id@ == windows_screen_id(adapter_idx, output_idx),
        r.0.name == name,
        r.0.width == (right - left) as u32,
        r.0.height == (bottom - top) as u32,
        r.0.x == left,
        r.0.y == top,
        r.0.primary == (left == 0 && top == 0),
        r.1 == (NativeScreen::Windows { adapter_idx, output_idx }),
{
    let mut id = owned("win:");
    push_decimal(&mut id, adapter_idx);
    string_push(&mut id, ':');
    push_decimal(&mut id, output_idx);
    proof {
        reveal_strlit("win:");
        reveal_strlit(":");
        assert(id@ =~= windows_screen_id(adapter_idx, output_idx));
    }
    let width = (right - left) as u32;
    let height = (bottom - top) as u32;
    let screen = Screen { id, name, width, height, x: left, y: top, primary: left == 0 && top == 0 };
    (screen, NativeScreen::Windows { adapter_idx, output_idx })
}

/// Copies the visible part of a mapped texture whose rows are `stride` bytes apart
/// into a tightly packed BGRA image of `width` x `height` pixels.
pub fn strip_row_padding(mapped: &[u8], stride: usize, width: usize, height: usize) -> (out: Vec<u8>)
    requires
        4 * width <= stride,
        height > 0 ==> (height - 1) * stride + 4 * width <= mapped@.len(),
    ensures
        out@.len() == 4 * width * height,
        forall|row: int, col: int|
            0 <= row < height && 0 <= col < 4 * width ==> #[trigger] out@[row * (4 * width) + col] == mapped@[row * stride + col],
{
    let n = mapped.len();
    let row_len = 4 * width;
    let mut out: Vec<u8> = Vec::new();
    let mut row: usize = 0;
    while row < height
        invariant
            n == mapped@.len(),
            row_len == 4 * width <= stride,
            height > 0 ==> (height - 1) * stride + 4 * width <= mapped@.len(),
            row <= height,
            out@.len() == row * row_len,
            forall|r: int, c: int|
                0 <= r < row && 0 <= c < row_len ==> #[trigger] out@[r * row_len + c] == mapped@[r * stride + c],
        decreases height - row,
    {
        assert(row * stride + row_len <= n) by (nonlinear_arith)
            requires
                row < height,
                (height - 1) * stride + row_len <= n;
        let base = row * stride;
        let ghost prev = out@;
        let mut col: usize = 0;
        while col < row_len
            invariant
                n == mapped@.len(),
                row_len == 4 * width <= stride,
                base == row * stride,
                base + row_len <= n,
                col <= row_len,
                prev.len() == row * row_len,
                out@.len() == row * row_len + col,
                forall|k: int| 0 <= k < row * row_len ==> #[trigger] out@[k] == prev[k],
                forall|k: int| row * row_len <= k < row * row_len + col ==> #[trigger] out@[k] == mapped@[base + (k - row * row_len)],
            decreases row_len - col,
        {
            out.push(mapped[base + col]);
            col = col + 1;
        }
        proof {
            assert forall|r: int, c: int| 0 <= r < row + 1 && 0 <= c < row_len implies #[trigger] out@[r * row_len + c] == mapped@[r * stride + c] by {
                if r == row {
                    assert(out@[r * row_len + c] == mapped@[base + c]);
                } else {
                    assert(r * row_len + c < row * row_len) by (nonlinear_arith)
                        requires
                            r < row,
                            c < row_len;
                    assert(out@[r * row_len + c] == prev[r * row_len + c]);
                }
            }
            assert((row + 1) * row_len == row * row_len + row_len) by (nonlinear_arith);
        }
        row = row + 1;
    }
    assert(row * row_len == 4 * width * height) by (nonlinear_arith)
        requires
            row == height,
            row_len == 4 * width;
    out
}


/// A frame in I420 layout: a full-resolution luma plane and two chroma planes at half
/// the resolution in each direction.
pub struct I420Frame {
    pub width: u32,
    pub height: u32,
    pub y: Vec<u8>,
    pub u: Vec<u8>,
    pub v: Vec<u8>,
}

impl I420Frame {
    /// Width and height in pixels.
    pub fn dimensions(&self) -> (r: (usize, usize))
        ensures
            r.0 == self.width,
            r.1 == self.height,
    {
        (self.width as usize, self.height as usize)
    }

    /// Bytes per row of the luma plane and of each chroma plane; the planes are
    /// tightly packed.
    pub fn strides(&self) -> (r: (usize, usize, usize))
        ensures
            r.0 == self.width,
            r.1 == self.width / 2,
            r.2 == self.width / 2,
    {
        let y_stride = self.width as usize;
        let uv_stride = (self.width / 2) as usize;
        (y_stride, uv_stride, uv_stride)
    }
}

/// `v` limited to `0..=255`.
pub open spec fn clamp_u8(v: int) -> u8 {
    if v < 0 {
        0
    } else if v > 255 {
        255
    } else {
        v as u8
    }
}

/// BT.601 luma of a pixel, in integer arithmetic (the shift by 8 rounds down).
pub open spec fn luma(b: int, g: int, r: int) -> u8 {
    clamp_u8((66 * r + 129 * g + 25 * b + 128) / 256 + 16)
}

/// BT.601 blue-difference chroma of a pixel.
pub open spec fn chroma_u(b: int, g: int, r: int) -> u8 {
    clamp_u8((-38 * r - 74 * g + 112 * b + 128) / 256 + 128)
}

/// BT.601 red-difference chroma of a pixel.
pub open spec fn chroma_v(b: int, g: int, r: int) -> u8 {
    clamp_u8((112 * r - 94 * g - 18 * b + 128) / 256 + 128)
}

/// The luma of pixel `p` of a BGRA image (4 bytes per pixel, blue first).
pub open spec fn luma_at(bgra: Seq<u8>, p: int) -> u8 {
    luma(bgra[4 * p] as int, bgra[4 * p + 1] as int, bgra[4 * p + 2] as int)
}

/// The pixel whose colour the chroma sample `k` of a plane `uv_w` samples wide takes:
/// the top-left pixel of its 2x2 block.
pub open spec fn chroma_source(w: int, uv_w: int, k: int) -> int {
    (k / uv_w) * 2 * w + (k % uv_w) * 2
}

pub open spec fn chroma_u_at(bgra: Seq<u8>, w: int, uv_w: int, k: int) -> u8 {
    let p = chroma_source(w, uv_w, k);
    chroma_u(bgra[4 * p] as int, bgra[4 * p + 1] as int, bgra[4 * p + 2] as int)
}

pub open spec fn chroma_v_at(bgra: Seq<u8>, w: int, uv_w: int, k: int) -> u8 {
    let p = chroma_source(w, uv_w, k);
    chroma_v(bgra[4 * p] as int, bgra[4 * p + 1] as int, bgra[4 * p + 2] as int)
}

/// Chroma sample `k` of a plane `uv_w` samples wide takes the top-left pixel of its
/// 2x2 block: the sample at row `r` and column `c` of the plane comes from pixel row
/// `2 r` and pixel column `2 c` of an image `w` pixels wide.
pub proof fn law_chroma_block_corner(w: int, uv_w: int, r: int, c: int)
    requires
        0 < uv_w,
        0 <= r,
        0 <= c < uv_w,
    ensures
        chroma_source(w, uv_w, r * uv_w + c) == (2 * r) * w + 2 * c,
{
    vstd::arithmetic::div_mod::lemma_fundamental_div_mod_converse(r * uv_w + c, uv_w, r, c);
    assert(r * 2 * w == (2 * r) * w) by (nonlinear_arith);
}

/// The chroma of an I420 frame of an image `w` pixels wide samples the top-left pixel
/// of each 2x2 block: the sample at row `r` and column `c` of either chroma plane is
/// the chroma of the pixel at row `2 r` and column `2 c`, whose blue, green and red
/// bytes start at `4 (2 r w + 2 c)`.
pub proof fn law_chroma_sampling(bgra: Seq<u8>, w: int, r: int, c: int)
    requires
        w >= 2,
        0 <= r,
        0 <= c < w / 2,
    ensures
        ({
            let p = (2 * r) * w + 2 * c;
            &&& chroma_u_at(bgra, w, w / 2, r * (w / 2) + c) == chroma_u(bgra[4 * p] as int, bgra[4 * p + 1] as int, bgra[4 * p + 2] as int)
            &&& chroma_v_at(bgra, w, w / 2, r * (w / 2) + c) == chroma_v(bgra[4 * p] as int, bgra[4 * p + 1] as int, bgra[4 * p + 2] as int)
        }),
{
    law_chroma_block_corner(w, w / 2, r, c);
}

fn clamp_i32(v: i32) -> (r: u8)
    ensures
        r == clamp_u8(v as int),
{
    if v < 0 {
        0
    } else if v > 255 {
        255
    } else {
        v as u8
    }
}

fn pixel_luma(b: u8, g: u8, r: u8) -> (y: u8)
    ensures
        y == luma(b as int, g as int, r as int),
{
    let b = b as i32;
    let g = g as i32;
    let r = r as i32;
    clamp_i32((66 * r + 129 * g + 25 * b + 128) / 256 + 16)
}

proof fn lemma_floor_shift(x: int)
    requires
        x + 32768 >= 0,
    ensures
        (x + 32768) / 256 == x / 256 + 128,
{
    vstd::arithmetic::div_mod::lemma_fundamental_div_mod(x, 256);
    vstd::arithmetic::div_mod::lemma_fundamental_div_mod_converse(x + 32768, 256, x / 256 + 128, x % 256);
}

fn pixel_chroma(b: u8, g: u8, r: u8) -> (uv: (u8, u8))
    ensures
        uv.0 == chroma_u(b as int, g as int, r as int),
        uv.1 == chroma_v(b as int, g as int, r as int),
{
    let b = b as i32;
    let g = g as i32;
    let r = r as i32;
    let xu = 112 * b + 128 - 38 * r - 74 * g;
    let xv = 112 * r + 128 - 94 * g - 18 * b;
    proof {
        lemma_floor_shift(xu as int);
        lemma_floor_shift(xv as int);
    }
    // Adding 128 * 256 before dividing makes the dividend non-negative, so the division
    // rounds down as the arithmetic shift does.
    (clamp_i32((xu + 32768) / 256), clamp_i32((xv + 32768) / 256))
}

/// Converts a BGRA image of `width` x `height` pixels to I420 (BT.601 coefficients).
pub fn bgra_to_i420(bgra: &[u8], width: u32, height: u32) -> (r: Result<I420Frame, PlatformError>)
    requires
        width >= 2,
        bgra@.len() + 1 >= 4 * width * height,
    ensures
        r matches Ok(f) && {
            let (w, h) = (width as int, height as int);
            let (uv_w, uv_h) = (w / 2, h / 2);
            &&& f.width == width && f.height == height
            &&& f.y@ == Seq::new((w * h) as nat, |p: int| luma_at(bgra@, p))
            &&& f.u@ == Seq::new((uv_w * uv_h) as nat, |k: int| chroma_u_at(bgra@, w, uv_w, k))
            &&& f.v@ == Seq::new((uv_w * uv_h) as nat, |k: int| chroma_v_at(bgra@, w, uv_w, k))
        },
{
    let w = width as usize;
    let h = height as usize;
    let uv_w = w / 2;
    let uv_h = h / 2;
    let len = bgra.len();
    assert(4 * (w * h) <= len + 1 && w * h <= len) by (nonlinear_arith)
        requires
            len + 1 >= 4 * w * h,
            w >= 2;
    let n = w * h;
    let ghost bytes = bgra@;

    let mut y_plane: Vec<u8> = Vec::with_capacity(n);
    let mut p: usize = 0;
    while p < n
        invariant
            bytes == bgra@,
            n == w * h,
            bgra@.len() + 1 >= 4 * n,
            bgra@.len() <= usize::MAX,
            0 <= p <= n,
            y_plane@.len() == p,
            forall|q: int| 0 <= q < p ==> y_plane@[q] == luma_at(bytes, q),
        decreases n - p,
    {
        let idx = 4 * p;
        let y = pixel_luma(bgra[idx], bgra[idx + 1], bgra[idx + 2]);
        y_plane.push(y);
        p = p + 1;
    }
    assert(y_plane@ =~= Seq::new((w * h) as nat, |q: int| luma_at(bytes, q)));

    assert(uv_w * uv_h <= w * h) by (nonlinear_arith)
        requires
            uv_w == w / 2,
            uv_h == h / 2;
    let mut u_plane: Vec<u8> = Vec::with_capacity(uv_w * uv_h);
    let mut v_plane: Vec<u8> = Vec::with_capacity(uv_w * uv_h);
    let mut row: usize = 0;
    while row < uv_h
        invariant
            bytes == bgra@,
            w >= 2,
            uv_w == w / 2,
            uv_h == h / 2,
            bgra@.len() + 1 >= 4 * w * h,
            w * h <= bgra@.len(),
            bgra@.len() <= usize::MAX,
            0 <= row <= uv_h,
            u_plane@.len() == row * uv_w,
            v_plane@.len() == row * uv_w,
            forall|k: int| 0 <= k < row * uv_w ==> u_plane@[k] == chroma_u_at(bytes, w as int, uv_w as int, k),
            forall|k: int| 0 <= k < row * uv_w ==> v_plane@[k] == chroma_v_at(bytes, w as int, uv_w as int, k),
        decreases uv_h - row,
    {
        let mut col: usize = 0;
        while col < uv_w
            invariant
                bytes == bgra@,
                w >= 2,
                uv_w == w / 2,
                uv_h == h / 2,
                bgra@.len() + 1 >= 4 * w * h,
                w * h <= bgra@.len(),
                bgra@.len() <= usize::MAX,
                row < uv_h,
                0 <= col <= uv_w,
                u_plane@.len() == row * uv_w + col,
                v_plane@.len() == row * uv_w + col,
                forall|k: int| 0 <= k < row * uv_w + col ==> u_plane@[k] == chroma_u_at(bytes, w as int, uv_w as int, k),
                forall|k: int| 0 <= k < row * uv_w + col ==> v_plane@[k] == chroma_v_at(bytes, w as int, uv_w as int, k),
            decreases uv_w - col,
        {
            let ghost k = row * uv_w + col;
            proof {
                vstd::arithmetic::div_mod::lemma_fundamental_div_mod_converse(k, uv_w as int, row as int, col as int);
                assert(2 * row * w + 2 * col + 1 < w * h) by (nonlinear_arith)
                    requires
                        row < h / 2,
                        col < w / 2,
                        w >= 2;
                assert(4 * (2 * row * w + 2 * col) + 2 < bgra@.len()) by (nonlinear_arith)
                    requires
                        2 * row * w + 2 * col + 1 < w * h,
                        bgra@.len() + 1 >= 4 * w * h;
                assert(chroma_source(w as int, uv_w as int, k) == 2 * row * w + 2 * col) by (nonlinear_arith)
                    requires
                        k / (uv_w as int) == row,
                        k % (uv_w as int) == col;
            }
            let src = 2 * row * w + 2 * col;
            let idx = 4 * src;
            let (u, v) = pixel_chroma(bgra[idx], bgra[idx + 1], bgra[idx + 2]);
            u_plane.push(u);
            v_plane.push(v);
            col = col + 1;
        }
        proof {
            assert((row + 1) * uv_w == row * uv_w + uv_w) by (nonlinear_arith);
        }
        row = row + 1;
    }
    assert(row * uv_w == uv_w * uv_h) by (nonlinear_arith)
        requires
            row == uv_h;
    assert(u_plane@ =~= Seq::new((uv_w * uv_h) as nat, |k: int| chroma_u_at(bytes, w as int, uv_w as int, k)));
    assert(v_plane@ =~= Seq::new((uv_w * uv_h) as nat, |k: int| chroma_v_at(bytes, w as int, uv_w as int, k)));
    Ok(I420Frame { width, height, y: y_plane, u: u_plane, v: v_plane })
}

} // verus!
