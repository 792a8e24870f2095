use vstd::prelude::*;

use crate::screen::Screen;
use crate::text::{lemma_split_append_piece, lemma_split_no_space, no_spaces, owned, parse_u32, parsed_u32, split_spaces, split_spaces_exec, lemma_split_spaces_nonempty};

verus! {

/// Errors of input injection.
#[derive(Debug, PartialEq, Eq, Structural)]
pub enum PlatformError {
    APIError(i32),
    TypeError,
    PrepareError,
    ExistError,
}

/// A key as Windows injects it: a scan code, and whether it is an extended key.
#[derive(Clone, Copy, Debug, PartialEq, Eq, Structural)]
pub struct WindowsKey {
    pub scancode: u16,
    pub extended: bool,
}

/// A key on Linux, by key code.
#[derive(Clone, Copy, Debug, PartialEq, Eq, Structural)]
pub struct LinuxKey {
    pub keycode: u32,
}

/// A key on macOS, by key code.
#[derive(Clone, Copy, Debug, PartialEq, Eq, Structural)]
pub struct MacKey {
    pub keycode: u32,
}

/// A key of the keymap, in the form of one platform.
#[derive(Clone, Copy, Debug, PartialEq, Eq, Structural)]
pub enum LogicalKey {
    WindowsKey(WindowsKey),
    LinuxKey(LinuxKey),
    MacKey(MacKey),
}

/// What input decoding works against: the screen being shown and the keymap from key
/// names to keys.
pub struct InputStat {
    pub screen: Screen,
    pub keymap: Vec<(String, LogicalKey)>,
}

/// A mouse button.
#[derive(Clone, Copy, Debug, PartialEq, Eq, Structural)]
pub enum MouseButton {
    Left,
    Right,
    Middle,
}

/// One key event to inject.
#[derive(Clone, Copy, Debug, PartialEq, Eq, Structural)]
pub struct KeyStroke {
    pub scancode: u16,
    pub extended: bool,
    pub key_up: bool,
}

/// One input event to inject, decoded from a controller's command.
#[derive(Debug)]
pub enum InputAction {
    Key(KeyStroke),
    Click { button: MouseButton, down: bool },
    /// Move the pointer to the fraction (`x`, `y`) of the screen whose place and size
    /// `(x, y, w, h)` is `base`;
    /// the fractions are the command's decimal texts.
    MoveAbsolute { x: String, y: String, base: (i32, i32, i32, i32) },
    /// Scroll by the command's decimal texts.
    Wheel { delta_x: String, delta_y: String },
}

/// The mathematical content of an input action.
pub enum ActionView {
    Key(KeyStroke),
    Click { button: MouseButton, down: bool },
    MoveAbsolute { x: Seq<char>, y: Seq<char>, base: (i32, i32, i32, i32) },
    Wheel { delta_x: Seq<char>, delta_y: Seq<char> },
}

impl View for InputAction {
    type V = ActionView;

    open spec fn view(&self) -> ActionView {
        match self {
            InputAction::Key(k) => ActionView::Key(*k),
            InputAction::Click { button, down } => ActionView::Click { button: *button, down: *down },
            InputAction::MoveAbsolute { x, y, base } => ActionView::MoveAbsolute { x: x@, y: y@, base: *base },
            InputAction::Wheel { delta_x, delta_y } => ActionView::Wheel { delta_x: delta_x@, delta_y: delta_y@ },
        }
    }
}

pub open spec fn action_result(r: Result<InputAction, PlatformError>) -> Result<ActionView, PlatformError> {
    match r {
        Ok(a) => Ok(a@),
        Err(e) => Err(e),
    }
}

/// The key the keymap gives for `name`: its first entry with that name.
pub open spec fn keymap_lookup(km: Seq<(String, LogicalKey)>, name: Seq<char>) -> Option<LogicalKey>
    decreases km.len(),
{
    if km.len() == 0 {
        None
    } else if km[0].0@ == name {
        Some(km[0].1)
    } else {
        keymap_lookup(km.drop_first(), name)
    }
}

/// A key press or release: only Windows keys can be injected here.
pub open spec fn key_stroke(key: Option<LogicalKey>, up: bool) -> Result<KeyStroke, PlatformError> {
    match key {
        Some(LogicalKey::WindowsKey(k)) => Ok(KeyStroke { scancode: k.scancode, extended: k.extended, key_up: up }),
        _ => Err(PlatformError::TypeError),
    }
}

/// Button numbers 0, 1, 2 are left, right and middle.
pub open spec fn mouse_button(b: u32) -> Result<MouseButton, PlatformError> {
    if b == 0 {
        Ok(MouseButton::Left)
    } else if b == 1 {
        Ok(MouseButton::Right)
    } else if b == 2 {
        Ok(MouseButton::Middle)
    } else {
        Err(PlatformError::APIError(0))
    }
}

/// The screen's place and size `(x, y, w, h)`, which a pointer move is relative to.
pub open spec fn screen_rect(s: Screen) -> (i32, i32, i32, i32) {
    (s.x, s.y, s.width as i32, s.height as i32)
}

pub open spec fn key_action(km: Seq<(String, LogicalKey)>, parts: Seq<Seq<char>>, up: bool) -> Result<ActionView, PlatformError> {
    if parts.len() != 2 {
        Err(PlatformError::TypeError)
    } else {
        match keymap_lookup(km, parts[1]) {
            None => Err(PlatformError::TypeError),
            Some(k) => match key_stroke(Some(k), up) {
                Ok(ks) => Ok(ActionView::Key(ks)),
                Err(e) => Err(e),
            },
        }
    }
}

pub open spec fn click_action(parts: Seq<Seq<char>>, down: bool) -> Result<ActionView, PlatformError> {
    if parts.len() != 2 {
        Err(PlatformError::TypeError)
    } else {
        match parsed_u32(parts[1]) {
            None => Err(PlatformError::TypeError),
            Some(b) => match mouse_button(b) {
                Ok(button) => Ok(ActionView::Click { button, down }),
                Err(e) => Err(e),
            },
        }
    }
}

/// How a controller's command decodes. Commands are words separated by single spaces:
/// `KEY_DOWN name`, `KEY_UP name`, `MOUSE_CLICK_DOWN n`, `MOUSE_CLICK_UP n`, `MOUSE_MOVE x y`
/// and `MOUSE_WHEEL dx dy`; anything else is a type error.
pub open spec fn decode_input(stat: InputStat, s: Seq<char>) -> Result<ActionView, PlatformError> {
    let parts = split_spaces(s);
    let cmd = parts[0];
    if cmd == "KEY_DOWN"@ {
        key_action(stat.keymap@, parts, false)
    } else if cmd == "KEY_UP"@ {
        key_action(stat.keymap@, parts, true)
    } else if cmd == "MOUSE_CLICK_DOWN"@ {
        click_action(parts, true)
    } else if cmd == "MOUSE_CLICK_UP"@ {
        click_action(parts, false)
    } else if cmd == "MOUSE_MOVE"@ {
        if parts.len() != 3 {
            Err(PlatformError::TypeError)
        } else {
            Ok(ActionView::MoveAbsolute { x: parts[1], y: parts[2], base: screen_rect(stat.screen) })
        }
    } else if cmd == "MOUSE_WHEEL"@ {
        if parts.len() != 3 {
            Err(PlatformError::TypeError)
        } else {
            Ok(ActionView::Wheel { delta_x: parts[1], delta_y: parts[2] })
        }
    } else {
        Err(PlatformError::TypeError)
    }
}

/// What a key command gives for the key the keymap holds under its name: the press or
/// release of that key, or a type error when the keymap has no such name.
pub open spec fn key_command_result(key: Option<LogicalKey>, up: bool) -> Result<ActionView, PlatformError> {
    match key {
        None => Err(PlatformError::TypeError),
        Some(k) => match key_stroke(Some(k), up) {
            Ok(ks) => Ok(ActionView::Key(ks)),
            Err(e) => Err(e),
        },
    }
}

/// `KEY_DOWN k` and `KEY_UP k` decode to the press and the release (as `key_down` and
/// `key_up` make them) of the key the keymap holds under `k`, and to a type error when
/// it holds none; `MOUSE_WHEEL a b` hands the two texts on as the scroll deltas.
pub proof fn law_key_and_wheel_commands(stat: InputStat, k: Seq<char>, a: Seq<char>, b: Seq<char>)
    requires
        no_spaces(k),
        no_spaces(a),
        no_spaces(b),
    ensures
        decode_input(stat, "KEY_DOWN"@ + seq![' '] + k) == key_command_result(keymap_lookup(stat.keymap@, k), false),
        decode_input(stat, "KEY_UP"@ + seq![' '] + k) == key_command_result(keymap_lookup(stat.keymap@, k), true),
        decode_input(stat, "MOUSE_WHEEL"@ + seq![' '] + a + seq![' '] + b) == Ok::<ActionView, PlatformError>(ActionView::Wheel { delta_x: a, delta_y: b }),
{
    reveal_strlit("KEY_DOWN");
    reveal_strlit("KEY_UP");
    reveal_strlit("MOUSE_CLICK_DOWN");
    reveal_strlit("MOUSE_CLICK_UP");
    reveal_strlit("MOUSE_MOVE");
    reveal_strlit("MOUSE_WHEEL");
    lemma_split_no_space("KEY_DOWN"@);
    lemma_split_append_piece("KEY_DOWN"@, k);
    assert(split_spaces("KEY_DOWN"@ + seq![' '] + k) =~= seq!["KEY_DOWN"@, k]);
    lemma_split_no_space("KEY_UP"@);
    lemma_split_append_piece("KEY_UP"@, k);
    assert(split_spaces("KEY_UP"@ + seq![' '] + k) =~= seq!["KEY_UP"@, k]);
    assert("KEY_UP"@[4] != "KEY_DOWN"@[4]);
    lemma_split_no_space("MOUSE_WHEEL"@);
    lemma_split_append_piece("MOUSE_WHEEL"@, a);
    lemma_split_append_piece("MOUSE_WHEEL"@ + seq![' '] + a, b);
    assert(split_spaces("MOUSE_WHEEL"@ + seq![' '] + a + seq![' '] + b) =~= seq!["MOUSE_WHEEL"@, a, b]);
    assert("MOUSE_WHEEL"@.len() != "KEY_DOWN"@.len());
    assert("MOUSE_WHEEL"@.len() != "KEY_UP"@.len());
    assert("MOUSE_WHEEL"@.len() != "MOUSE_CLICK_DOWN"@.len());
    assert("MOUSE_WHEEL"@.len() != "MOUSE_CLICK_UP"@.len());
    assert("MOUSE_WHEEL"@.len() != "MOUSE_MOVE"@.len());
}

/// `MOUSE_CLICK_DOWN n` presses and `MOUSE_CLICK_UP n` releases the button that `n`
/// numbers: 0 the left, 1 the right, 2 the middle one; a larger number is an API error
/// and text that is not a number a type error, for both commands.
pub proof fn law_click_commands(stat: InputStat, t: Seq<char>)
    requires
        no_spaces(t),
    ensures
        parsed_u32(t) == Some(0u32) ==> decode_input(stat, "MOUSE_CLICK_DOWN"@ + seq![' '] + t)
            == Ok::<ActionView, PlatformError>(ActionView::Click { button: MouseButton::Left, down: true })
            && decode_input(stat, "MOUSE_CLICK_UP"@ + seq![' '] + t)
            == Ok::<ActionView, PlatformError>(ActionView::Click { button: MouseButton::Left, down: false }),
        parsed_u32(t) == Some(1u32) ==> decode_input(stat, "MOUSE_CLICK_DOWN"@ + seq![' '] + t)
            == Ok::<ActionView, PlatformError>(ActionView::Click { button: MouseButton::Right, down: true })
            && decode_input(stat, "MOUSE_CLICK_UP"@ + seq![' '] + t)
            == Ok::<ActionView, PlatformError>(ActionView::Click { button: MouseButton::Right, down: false }),
        parsed_u32(t) == Some(2u32) ==> decode_input(stat, "MOUSE_CLICK_DOWN"@ + seq![' '] + t)
            == Ok::<ActionView, PlatformError>(ActionView::Click { button: MouseButton::Middle, down: true })
            && decode_input(stat, "MOUSE_CLICK_UP"@ + seq![' '] + t)
            == Ok::<ActionView, PlatformError>(ActionView::Click { button: MouseButton::Middle, down: false }),
        (parsed_u32(t) matches Some(n) && n > 2) ==> decode_input(stat, "MOUSE_CLICK_DOWN"@ + seq![' '] + t)
            == Err::<ActionView, PlatformError>(PlatformError::APIError(0))
            && decode_input(stat, "MOUSE_CLICK_UP"@ + seq![' '] + t) == Err::<ActionView, PlatformError>(PlatformError::APIError(0)),
        parsed_u32(t) is None ==> decode_input(stat, "MOUSE_CLICK_DOWN"@ + seq![' '] + t)
            == Err::<ActionView, PlatformError>(PlatformError::TypeError)
            && decode_input(stat, "MOUSE_CLICK_UP"@ + seq![' '] + t) == Err::<ActionView, PlatformError>(PlatformError::TypeError),
{
    reveal_strlit("KEY_DOWN");
    reveal_strlit("KEY_UP");
    reveal_strlit("MOUSE_CLICK_DOWN");
    reveal_strlit("MOUSE_CLICK_UP");
    lemma_split_no_space("MOUSE_CLICK_DOWN"@);
    lemma_split_append_piece("MOUSE_CLICK_DOWN"@, t);
    assert(split_spaces("MOUSE_CLICK_DOWN"@ + seq![' '] + t) =~= seq!["MOUSE_CLICK_DOWN"@, t]);
    lemma_split_no_space("MOUSE_CLICK_UP"@);
    lemma_split_append_piece("MOUSE_CLICK_UP"@, t);
    assert(split_spaces("MOUSE_CLICK_UP"@ + seq![' '] + t) =~= seq!["MOUSE_CLICK_UP"@, t]);
    assert("MOUSE_CLICK_DOWN"@.len() != "KEY_DOWN"@.len());
    assert("MOUSE_CLICK_DOWN"@.len() != "KEY_UP"@.len());
    assert("MOUSE_CLICK_UP"@.len() != "KEY_DOWN"@.len());
    assert("MOUSE_CLICK_UP"@.len() != "KEY_UP"@.len());
    assert("MOUSE_CLICK_UP"@.len() != "MOUSE_CLICK_DOWN"@.len());
}

/// No key name occurs twice in the keymap.
pub open spec fn keymap_distinct(km: Seq<(String, LogicalKey)>) -> bool {
    forall|a: int, b: int| 0 <= a < km.len() && 0 <= b < km.len() && a != b ==> (#[trigger] km[a]).0@ != (#[trigger] km[b]).0@
}

/// For a keymap with distinct names, `KEY_DOWN` and `KEY_UP` of an entry's name (without
/// spaces) decode to the press and the release of exactly that entry's key, and of a
/// name that no entry has, to a type error.
pub proof fn law_key_commands_of_entries(stat: InputStat, i: int, absent: Seq<char>)
    requires
        keymap_distinct(stat.keymap@),
        0 <= i < stat.keymap@.len(),
        no_spaces(stat.keymap@[i].0@),
        no_spaces(absent),
        forall|j: int| 0 <= j < stat.keymap@.len() ==> (#[trigger] stat.keymap@[j]).0@ != absent,
    ensures
        decode_input(stat, "KEY_DOWN"@ + seq![' '] + stat.keymap@[i].0@) == key_command_result(Some(stat.keymap@[i].1), false),
        decode_input(stat, "KEY_UP"@ + seq![' '] + stat.keymap@[i].0@) == key_command_result(Some(stat.keymap@[i].1), true),
        decode_input(stat, "KEY_DOWN"@ + seq![' '] + absent) == Err::<ActionView, PlatformError>(PlatformError::TypeError),
        decode_input(stat, "KEY_UP"@ + seq![' '] + absent) == Err::<ActionView, PlatformError>(PlatformError::TypeError),
{
    let k = stat.keymap@[i].0@;
    law_keymap_entry(stat.keymap@, i, absent);
    law_key_and_wheel_commands(stat, k, k, k);
    law_key_and_wheel_commands(stat, absent, k, k);
}

/// The key `keymap_lookup` finds after one more entry: the earlier find, else the new
/// entry when it has the name.
proof fn lemma_keymap_lookup_push(km: Seq<(String, LogicalKey)>, e: (String, LogicalKey), name: Seq<char>)
    ensures
        keymap_lookup(km.push(e), name) == match keymap_lookup(km, name) {
            Some(k) => Some(k),
            None => if e.0@ == name { Some(e.1) } else { None },
        },
    decreases km.len(),
{
    if km.len() > 0 {
        assert(km.push(e).drop_first() =~= km.drop_first().push(e));
        assert(km.push(e)[0] == km[0]);
        lemma_keymap_lookup_push(km.drop_first(), e, name);
    } else {
        assert(km.push(e).drop_first() =~= Seq::<(String, LogicalKey)>::empty());
        assert(km.push(e)[0] == e);
        assert(keymap_lookup(km.push(e).drop_first(), name) is None);
    }
}

impl InputStat {
    /// The decoding state for `screen` and a keymap: the first key given under a name is
    /// the one kept, so the kept keymap finds the same key for every name, and no name
    /// occurs twice in it.
    pub fn new(screen: Screen, keymap: Vec<(String, LogicalKey)>) -> (r: InputStat)
        ensures
            r.screen == screen,
            keymap_distinct(r.keymap@),
            forall|name: Seq<char>| #[trigger] keymap_lookup(r.keymap@, name) == keymap_lookup(keymap@, name),
    {
        let mut kept: Vec<(String, LogicalKey)> = Vec::new();
        let n = keymap.len();
        let mut i: usize = 0;
        while i < n
            invariant
                n == keymap@.len(),
                i <= n,
                keymap_distinct(kept@),
                forall|name: Seq<char>| #[trigger] keymap_lookup(kept@, name) == keymap_lookup(keymap@.take(i as int), name),
            decreases n - i,
        {
            let name = &keymap[i].0;
            let found = lookup_key(&kept, name);
            proof {
                assert(keymap@.take(i + 1) =~= keymap@.take(i as int).push(keymap@[i as int]));
                assert forall|nm: Seq<char>| #[trigger] keymap_lookup(keymap@.take(i + 1), nm) == match keymap_lookup(keymap@.take(i as int), nm) {
                    Some(k) => Some(k),
                    None => if keymap@[i as int].0@ == nm { Some(keymap@[i as int].1) } else { None },
                } by {
                    lemma_keymap_lookup_push(keymap@.take(i as int), keymap@[i as int], nm);
                }
            }
            if found.is_none() {
                let ghost before = kept@;
                kept.push((keymap[i].0.clone(), keymap[i].1));
                proof {
                    assert forall|nm: Seq<char>| #[trigger] keymap_lookup(kept@, nm) == keymap_lookup(keymap@.take(i + 1), nm) by {
                        lemma_keymap_lookup_push(before, kept@.last(), nm);
                        assert(kept@ == before.push(kept@.last()));
                    }
                    assert forall|a: int, b: int| 0 <= a < kept@.len() && 0 <= b < kept@.len() && a != b implies (#[trigger] kept@[a]).0@ != (#[trigger] kept@[b]).0@ by {
                        if a < before.len() && b < before.len() {
                            assert(kept@[a] == before[a] && kept@[b] == before[b]);
                        } else if a < before.len() {
                            assert(kept@[a] == before[a]);
                            lemma_keymap_absent(before, name@);
                            lemma_keymap_found_some(before, a);
                        } else {
                            assert(kept@[b] == before[b]);
                            lemma_keymap_absent(before, name@);
                            lemma_keymap_found_some(before, b);
                        }
                    }
                }
            } else {
                proof {
                    assert forall|nm: Seq<char>| #[trigger] keymap_lookup(kept@, nm) == keymap_lookup(keymap@.take(i + 1), nm) by {
                        if nm == name@ {
                        }
                    }
                }
            }
            i = i + 1;
        }
        proof {
            assert(keymap@.take(n as int) =~= keymap@);
        }
        InputStat { screen, keymap: kept }
    }
}

/// An entry's name is found in the keymap.
proof fn lemma_keymap_found_some(km: Seq<(String, LogicalKey)>, a: int)
    requires
        0 <= a < km.len(),
    ensures
        keymap_lookup(km, km[a].0@) is Some,
    decreases km.len(),
{
    if a > 0 && km[0].0@ != km[a].0@ {
        assert(km.drop_first()[a - 1] == km[a]);
        lemma_keymap_found_some(km.drop_first(), a - 1);
    }
}

/// In a keymap whose names are distinct, the key found under an entry's name is that
/// entry's key, and a name no entry has finds nothing.
pub proof fn law_keymap_entry(km: Seq<(String, LogicalKey)>, i: int, name: Seq<char>)
    requires
        0 <= i < km.len(),
        keymap_distinct(km),
    ensures
        keymap_lookup(km, km[i].0@) == Some(km[i].1),
        (forall|j: int| 0 <= j < km.len() ==> (#[trigger] km[j]).0@ != name) ==> keymap_lookup(km, name) is None,
    decreases km.len(),
{
    let rest = km.drop_first();
    if i > 0 {
        assert forall|a: int, b: int| 0 <= a < rest.len() && 0 <= b < rest.len() && a != b implies (#[trigger] rest[a]).0@ != (#[trigger] rest[b]).0@ by {
            assert(rest[a] == km[a + 1] && rest[b] == km[b + 1]);
        }
        assert(km[0].0@ != km[i].0@);
        assert(rest[i - 1] == km[i]);
        law_keymap_entry(rest, i - 1, name);
        if forall|j: int| 0 <= j < km.len() ==> (#[trigger] km[j]).0@ != name {
            assert forall|j: int| 0 <= j < rest.len() implies (#[trigger] rest[j]).0@ != name by {
                assert(rest[j] == km[j + 1]);
            }
            assert(km[0].0@ != name);
        }
    } else {
        lemma_keymap_absent(km, name);
    }
}

proof fn lemma_keymap_absent(km: Seq<(String, LogicalKey)>, name: Seq<char>)
    ensures
        (forall|j: int| 0 <= j < km.len() ==> (#[trigger] km[j]).0@ != name) ==> keymap_lookup(km, name) is None,
    decreases km.len(),
{
    if km.len() > 0 {
        let rest = km.drop_first();
        lemma_keymap_absent(rest, name);
        if forall|j: int| 0 <= j < km.len() ==> (#[trigger] km[j]).0@ != name {
            assert forall|j: int| 0 <= j < rest.len() implies (#[trigger] rest[j]).0@ != name by {
                assert(rest[j] == km[j + 1]);
            }
            assert(km[0].0@ != name);
        }
    }
}

/// Keyboard injection: turns a key of the keymap into the key event to inject.
pub trait KeyboardBackend {
    fn key_down(&self, key: &Option<&LogicalKey>) -> Result<KeyStroke, PlatformError>;

    fn key_up(&self, key: &Option<&LogicalKey>) -> Result<KeyStroke, PlatformError>;
}

/// Decoding of controller commands.
pub trait InputInjectorGeneral {
    fn handle_input(&self, stat: &InputStat, string: String) -> Result<InputAction, PlatformError>;

    fn new() -> Self where Self: Sized;
}

/// An input injector.
pub trait InputInjector: KeyboardBackend + InputInjectorGeneral {
}

/// The Windows input injector.
#[derive(Debug, Clone, Copy)]
pub struct WindowsInputInjector;

pub open spec fn opt_key(key: Option<&LogicalKey>) -> Option<LogicalKey> {
    match key {
        Some(k) => Some(*k),
        None => None,
    }
}

impl KeyboardBackend for WindowsInputInjector {
    /// The press of `key`; refused unless it is a Windows key.
    fn key_down(&self, key: &Option<&LogicalKey>) -> (r: Result<KeyStroke, PlatformError>)
        ensures
            r == key_stroke(opt_key(*key), false),
    {
        match *key {
            Some(LogicalKey::WindowsKey(k)) => Ok(KeyStroke { scancode: k.scancode, extended: k.extended, key_up: false }),
            _ => Err(PlatformError::TypeError),
        }
    }

    /// The release of `key`; refused unless it is a Windows key.
    fn key_up(&self, key: &Option<&LogicalKey>) -> (r: Result<KeyStroke, PlatformError>)
        ensures
            r == key_stroke(opt_key(*key), true),
    {
        match *key {
            Some(LogicalKey::WindowsKey(k)) => Ok(KeyStroke { scancode: k.scancode, extended: k.extended, key_up: true }),
            _ => Err(PlatformError::TypeError),
        }
    }
}

fn lookup_key(km: &Vec<(String, LogicalKey)>, name: &String) -> (r: Option<LogicalKey>)
    ensures
        r == keymap_lookup(km@, name@),
{
    let mut i: usize = 0;
    assert(km@.skip(0) =~= km@);
    while i < km.len()
        invariant
            0 <= i <= km@.len(),
            keymap_lookup(km@, name@) == keymap_lookup(km@.skip(i as int), name@),
        decreases km@.len() - i,
    {
        proof {
            assert(km@.skip(i as int).drop_first() =~= km@.skip(i + 1));
            assert(km@.skip(i as int)[0] == km@[i as int]);
        }
        if km[i].0 == *name {
            return Some(km[i].1);
        }
        i = i + 1;
    }
    None
}

impl WindowsInputInjector {
    /// The button that a click names; numbers other than 0, 1, 2 are refused.
    pub fn button(&self, button: u32) -> (r: Result<MouseButton, PlatformError>)
        ensures
            r == mouse_button(button),
    {
        if button == 0 {
            Ok(MouseButton::Left)
        } else if button == 1 {
            Ok(MouseButton::Right)
        } else if button == 2 {
            Ok(MouseButton::Middle)
        } else {
            Err(PlatformError::APIError(0))
        }
    }

    /// Pressing a mouse button.
    pub fn clickdown(&self, button: u32) -> (r: Result<InputAction, PlatformError>)
        ensures
            action_result(r) == match mouse_button(button) {
                Ok(b) => Ok(ActionView::Click { button: b, down: true }),
                Err(e) => Err(e),
            },
    {
        let b = self.button(button)?;
        Ok(InputAction::Click { button: b, down: true })
    }

    /// Releasing a mouse button.
    pub fn clickup(&self, button: u32) -> (r: Result<InputAction, PlatformError>)
        ensures
            action_result(r) == match mouse_button(button) {
                Ok(b) => Ok(ActionView::Click { button: b, down: false }),
                Err(e) => Err(e),
            },
    {
        let b = self.button(button)?;
        Ok(InputAction::Click { button: b, down: false })
    }

    fn key_command(&self, stat: &InputStat, parts: &Vec<&str>, up: bool) -> (r: Result<InputAction, PlatformError>)
        ensures
            action_result(r) == key_action(stat.keymap@, parts@.map_values(|p: &str| p@), up),
    {
        if parts.len() != 2 {
            return Err(PlatformError::TypeError);
        }
        let name = owned(parts[1]);
        match lookup_key(&stat.keymap, &name) {
            None => Err(PlatformError::TypeError),
            Some(key) => {
                let stroke = if up { self.key_up(&Some(&key)) } else { self.key_down(&Some(&key)) };
                match stroke {
                    Ok(ks) => Ok(InputAction::Key(ks)),
                    Err(e) => Err(e),
                }
            },
        }
    }

    fn click_command(&self, parts: &Vec<&str>, down: bool) -> (r: Result<InputAction, PlatformError>)
        ensures
            action_result(r) == click_action(parts@.map_values(|p: &str| p@), down),
    {
        if parts.len() != 2 {
            return Err(PlatformError::TypeError);
        }
        match parse_u32(parts[1]) {
            None => Err(PlatformError::TypeError),
            Some(b) => if down { self.clickdown(b) } else { self.clickup(b) },
        }
    }
}

impl InputInjectorGeneral for WindowsInputInjector {
    /// Decodes one controller command into the input event to inject.
    fn handle_input(&self, stat: &InputStat, string: String) -> (r: Result<InputAction, PlatformError>)
        ensures
            action_result(r) == decode_input(*stat, string@),
    {
        let parts = split_spaces_exec(string.as_str());
        let ghost views = parts@.map_values(|p: &str| p@);
        proof {
            lemma_split_spaces_nonempty(string@);
            assert(views =~= split_spaces(string@));
        }
        let cmd = owned(parts[0]);
        if cmd == owned("KEY_DOWN") {
            self.key_command(stat, &parts, false)
        } else if cmd == owned("KEY_UP") {
            self.key_command(stat, &parts, true)
        } else if cmd == owned("MOUSE_CLICK_DOWN") {
            self.click_command(&parts, true)
        } else if cmd == owned("MOUSE_CLICK_UP") {
            self.click_command(&parts, false)
        } else if cmd == owned("MOUSE_MOVE") {
            if parts.len() != 3 {
                return Err(PlatformError::TypeError);
            }
            let base = (stat.screen.x, stat.screen.y, stat.screen.width as i32, stat.screen.height as i32);
            Ok(InputAction::MoveAbsolute { x: owned(parts[1]), y: owned(parts[2]), base })
        } else if cmd == owned("MOUSE_WHEEL") {
            if parts.len() != 3 {
                return Err(PlatformError::TypeError);
            }
            Ok(InputAction::Wheel { delta_x: owned(parts[1]), delta_y: owned(parts[2]) })
        } else {
            Err(PlatformError::TypeError)
        }
    }

    /// The injector.
    fn new() -> (r: Self) {
        WindowsInputInjector
    }
}

impl InputInjector for WindowsInputInjector {
}

/// The input injector of this platform.
pub fn create_injector() -> (r: WindowsInputInjector) {
    WindowsInputInjector
}

/// One scroll event: vertical or horizontal, by a number of wheel units.
#[derive(Clone, Copy, Debug, PartialEq, Eq, Structural)]
pub enum WheelEvent {
    Vertical(i32),
    Horizontal(i32),
}

/// The scroll events for whole-unit deltas: the vertical one first, and only those
/// that move.
pub open spec fn wheel_events_of(dx: i32, dy: i32) -> Seq<WheelEvent> {
    (if dy != 0 { seq![WheelEvent::Vertical(dy)] } else { Seq::empty() })
        + (if dx != 0 { seq![WheelEvent::Horizontal(dx)] } else { Seq::empty() })
}

/// The scroll events to inject for whole-unit deltas `dx`, `dy`.
pub fn wheel_events(dx: i32, dy: i32) -> (ev: Vec<WheelEvent>)
    ensures
        ev@ == wheel_events_of(dx, dy),
{
    let mut ev: Vec<WheelEvent> = Vec::new();
    if dy != 0 {
        ev.push(WheelEvent::Vertical(dy));
    }
    if dx != 0 {
        ev.push(WheelEvent::Horizontal(dx));
    }
    assert(ev@ =~= wheel_events_of(dx, dy));
    ev
}

/// The outcome of handing `expected` events to the system, which reports `sent` of
/// them injected: success only when all were, else an API error carrying the count.
pub fn sent_result(sent: u32, expected: usize) -> (r: Result<(), PlatformError>)
    ensures
        r is Ok <==> sent as int == expected as int,
        r is Err ==> r == Err::<(), PlatformError>(PlatformError::APIError(sent as i32)),
{
    if sent as usize == expected {
        Ok(())
    } else {
        Err(PlatformError::APIError(sent as i32))
    }
}

/// A Windows key is pressed and released with its own scan code and extended flag,
/// `key_up` telling the release from the press; a key of another platform is refused.
pub proof fn law_key_strokes(k: WindowsKey, other: LogicalKey, up: bool)
    ensures
        key_stroke(Some(LogicalKey::WindowsKey(k)), up)
            == Ok::<KeyStroke, PlatformError>(KeyStroke { scancode: k.scancode, extended: k.extended, key_up: up }),
        !(other is WindowsKey) ==> key_stroke(Some(other), up) == Err::<KeyStroke, PlatformError>(PlatformError::TypeError),
        key_stroke(None, up) == Err::<KeyStroke, PlatformError>(PlatformError::TypeError),
{
}

/// Scrolling injects one event per axis that moves, the vertical one first: none for
/// no movement, and both, vertical then horizontal, when both deltas are non-zero.
pub proof fn law_wheel_events(dx: i32, dy: i32)
    ensures
        wheel_events_of(dx, dy).len() == (if dx != 0 { 1int } else { 0 }) + (if dy != 0 { 1int } else { 0 }),
        dy != 0 ==> wheel_events_of(dx, dy)[0] == WheelEvent::Vertical(dy),
        dx != 0 ==> wheel_events_of(dx, dy).last() == WheelEvent::Horizontal(dx),
        forall|i: int| 0 <= i < wheel_events_of(dx, dy).len() ==> match #[trigger] wheel_events_of(dx, dy)[i] {
            WheelEvent::Vertical(d) => d == dy && d != 0,
            WheelEvent::Horizontal(d) => d == dx && d != 0,
        },
{
}

} // verus!
