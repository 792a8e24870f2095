use vstd::prelude::*;
use std::sync::Arc;
use std::sync::atomic::AtomicBool;
use std::sync::atomic::Ordering;
use crate::screen::{I420Frame, NativeScreen, PlatformError, Screen};
use crate::text::owned;

verus! {

/// A source of screens: enumerates the monitors with their native addresses.
pub trait CaptureWayGeneral: Send + Sync {
    fn get_screens(&self) -> Result<Vec<(Screen, NativeScreen)>, PlatformError>;
}

/// Turns I420 frames into an encoded video stream.
pub trait VideoEncoder: Send {
    fn encode(&mut self, frame: &I420Frame) -> Result<Vec<u8>, PlatformError>;
}

/// The decision of a screen capture start on the flag's value `running`: a target of
/// another platform is refused with `TypeError`, a running capture with `ExistError`,
/// else the adapter and output indices of the target are claimed.
pub open spec fn claim_result(running: bool, target: NativeScreen) -> Result<(u32, u32), PlatformError> {
    match target {
        NativeScreen::Windows { adapter_idx, output_idx } => if running {
            Err(PlatformError::ExistError)
        } else {
            Ok((adapter_idx, output_idx))
        },
        _ => Err(PlatformError::TypeError),
    }
}

/// Decides a screen capture start from the value the shared flag held.
pub fn claim(running: bool, target: &NativeScreen) -> (r: Result<(u32, u32), PlatformError>)
    ensures
        r == claim_result(running, *target),
{
    match target {
        NativeScreen::Windows { adapter_idx, output_idx } => if running {
            Err(PlatformError::ExistError)
        } else {
            Ok((*adapter_idx, *output_idx))
        },
        _ => Err(PlatformError::TypeError),
    }
}

/// A result with the device id as text.
pub open spec fn result_view(r: Result<String, PlatformError>) -> Result<Seq<char>, PlatformError> {
    match r {
        Ok(s) => Ok(s@),
        Err(e) => Err(e),
    }
}

/// The decision of an audio capture start on the flag's value `running`: a device of
/// another platform is refused with `TypeError`, a running capture with `ExistError`,
/// else the device id is claimed.
pub open spec fn audio_claim_result(running: bool, target: NativeAudioDevice) -> Result<Seq<char>, PlatformError> {
    match target {
        NativeAudioDevice::Windows { device_id } => if running {
            Err(PlatformError::ExistError)
        } else {
            Ok(device_id@)
        },
        _ => Err(PlatformError::TypeError),
    }
}

/// Decides an audio capture start from the value the shared flag held.
pub fn claim_audio(running: bool, target: &NativeAudioDevice) -> (r: Result<String, PlatformError>)
    ensures
        result_view(r) == audio_claim_result(running, *target),
        *target matches NativeAudioDevice::Windows { device_id } ==> (r matches Ok(id) ==> id == device_id),
{
    match target {
        NativeAudioDevice::Windows { device_id } => if running {
            Err(PlatformError::ExistError)
        } else {
            Ok(device_id.clone())
        },
        _ => Err(PlatformError::TypeError),
    }
}

/// Calls `Arc::clone`, which makes another pointer to the same allocation; in the
/// model of `Arc` as the value it holds, the result equals the argument.
#[verifier::external_body]
fn share_flag(flag: &Arc<AtomicBool>) -> (r: Arc<AtomicBool>)
    ensures
        r == *flag,
{
    Arc::clone(flag)
}

/// The Windows screen capture: a flag shared with the capture thread, set while it
/// runs. The thread clears it when it ends, so its value is not known here.
pub struct WindowsCaptureLoop {
    running: Arc<AtomicBool>,
}

impl WindowsCaptureLoop {
    /// A capture that is not running.
    pub fn new() -> (r: Self) {
        WindowsCaptureLoop { running: Arc::new(AtomicBool::new(false)) }
    }

    /// Claims the capture for `target`. A target of another platform is refused
    /// with `TypeError`; a capture that is already running with `ExistError`;
    /// otherwise the flag is set and the adapter and output indices to capture
    /// are returned.
    pub fn begin(&mut self, target: &NativeScreen) -> (r: Result<(u32, u32), PlatformError>)
        ensures
            exists|running: bool| r == #[trigger] claim_result(running, *target),
            *target matches NativeScreen::Windows { adapter_idx, output_idx } ==> (r matches Ok(p) && p == (adapter_idx, output_idx)) || r matches Err(PlatformError::ExistError),
            !(target is Windows) ==> r matches Err(PlatformError::TypeError),
            final(self).flag() == old(self).flag(),
    {
        if !matches!(target, NativeScreen::Windows { .. }) {
            return Err(PlatformError::TypeError);
        }
        let running = self.running.load(Ordering::SeqCst);
        let r = claim(running, target);
        if r.is_ok() {
            self.running.store(true, Ordering::SeqCst);
        }
        r
    }

    /// The shared flag this capture holds.
    pub closed spec fn flag(&self) -> Arc<AtomicBool> {
        self.running
    }

    /// The flag that the capture thread polls and clears when it ends: the very flag
    /// this capture holds, shared.
    pub fn running_flag(&self) -> (r: Arc<AtomicBool>)
        ensures
            r == self.flag(),
    {
        share_flag(&self.running)
    }

    /// Asks the capture thread to end, through the flag the capture keeps.
    pub fn stop(&mut self)
        ensures
            final(self).flag() == old(self).flag(),
    {
        self.running.store(false, Ordering::SeqCst);
    }
}

/// How the audio backend of each platform addresses a capture device.
#[derive(Debug)]
pub enum NativeAudioDevice {
    Windows { device_id: String },
    Mac { device_id: String },
    Linux { device_id: String },
}

/// The Windows audio capture; like the screen capture it keeps a flag shared with
/// its thread.
pub struct WindowsAudioCaptureLoop {
    running: Arc<AtomicBool>,
}

impl WindowsAudioCaptureLoop {
    /// An audio capture that is not running.
    pub fn new() -> (r: Self) {
        WindowsAudioCaptureLoop { running: Arc::new(AtomicBool::new(false)) }
    }

    /// Claims the capture for `target`: `TypeError` for a device of another
    /// platform, `ExistError` while a capture runs, else the flag is set and the
    /// device id to open is returned.
    pub fn begin(&mut self, target: &NativeAudioDevice) -> (r: Result<String, PlatformError>)
        ensures
            exists|running: bool| #[trigger] audio_claim_result(running, *target) == result_view(r),
            *target matches NativeAudioDevice::Windows { device_id } ==> (r matches Ok(id) && id == device_id) || r matches Err(PlatformError::ExistError),
            !(target is Windows) ==> r matches Err(PlatformError::TypeError),
            final(self).flag() == old(self).flag(),
    {
        if !matches!(target, NativeAudioDevice::Windows { .. }) {
            return Err(PlatformError::TypeError);
        }
        let running = self.running.load(Ordering::SeqCst);
        let r = claim_audio(running, target);
        if r.is_ok() {
            self.running.store(true, Ordering::SeqCst);
        }
        r
    }

    /// The shared flag this capture holds.
    pub closed spec fn flag(&self) -> Arc<AtomicBool> {
        self.running
    }

    /// The flag that the capture thread polls and clears when it ends: the very flag
    /// this capture holds, shared.
    pub fn running_flag(&self) -> (r: Arc<AtomicBool>)
        ensures
            r == self.flag(),
    {
        share_flag(&self.running)
    }

    /// Asks the capture thread to end, through the flag the capture keeps.
    pub fn stop(&mut self)
        ensures
            final(self).flag() == old(self).flag(),
    {
        self.running.store(false, Ordering::SeqCst);
    }
}

/// The audio capture of this host.
pub fn create_audio_capture_loop() -> (r: WindowsAudioCaptureLoop) {
    WindowsAudioCaptureLoop::new()
}

/// Whether the device id names the loopback of the default output (the sound the
/// host plays) rather than a recording device.
pub fn is_loopback_device(device_id: &str) -> (b: bool)
    ensures
        b == (device_id@ == "loopback"@),
{
    owned(device_id) == owned("loopback")
}

/// The stream flags of a shared-mode capture that lets the audio engine convert
/// the format (`0x8000_0000`) with the better resampler (`0x0800_0000`), plus the
/// loopback flag (`0x0002_0000`) when capturing what the host plays.
pub fn capture_stream_flags(loopback: bool) -> (f: u32)
    ensures
        f == if loopback { 0x8802_0000u32 } else { 0x8800_0000u32 },
{
    let base: u32 = 0x8000_0000 | 0x0800_0000;
    let f = if loopback { base | 0x0002_0000 } else { base };
    assert(0x8000_0000u32 | 0x0800_0000u32 == 0x8800_0000u32) by (bit_vector);
    assert(0x8800_0000u32 | 0x0002_0000u32 == 0x8802_0000u32) by (bit_vector);
    f
}

/// Cuts the whole frames of `frame_len` samples off the front of `buf`, in order,
/// leaving the incomplete tail in `buf`.
pub fn drain_frames<T: Copy>(buf: &mut Vec<T>, frame_len: usize) -> (frames: Vec<Vec<T>>)
    requires
        frame_len > 0,
    ensures
        frames@.len() == old(buf)@.len() / (frame_len as nat),
        forall|i: int| 0 <= i < frames@.len() ==> (#[trigger] frames@[i])@ == old(buf)@.subrange(i * frame_len, (i + 1) * frame_len),
        final(buf)@ == old(buf)@.skip(frames@.len() * frame_len),
        final(buf)@.len() < frame_len,
{
    let n = buf.len();
    let mut frames: Vec<Vec<T>> = Vec::new();
    let mut start: usize = 0;
    assert(frames@.len() * frame_len == 0) by (nonlinear_arith)
        requires
            frames@.len() == 0;
    while n - start >= frame_len
        invariant
            n == buf@.len(),
            frame_len > 0,
            start <= n,
            start == frames@.len() * frame_len,
            forall|i: int| 0 <= i < frames@.len() ==> (#[trigger] frames@[i])@ == buf@.subrange(i * frame_len, (i + 1) * frame_len),
        decreases n - start,
    {
        let mut frame: Vec<T> = Vec::new();
        let mut k: usize = 0;
        while k < frame_len
            invariant
                n == buf@.len(),
                start + frame_len <= n,
                k <= frame_len,
                frame@ == buf@.subrange(start as int, start + k),
            decreases frame_len - k,
        {
            frame.push(buf[start + k]);
            k = k + 1;
            assert(frame@ =~= buf@.subrange(start as int, start + k));
        }
        proof {
            assert((frames@.len() + 1) * frame_len == frames@.len() * frame_len + frame_len) by (nonlinear_arith);
        }
        frames.push(frame);
        start = start + frame_len;
    }
    let mut rest: Vec<T> = Vec::new();
    let mut j: usize = start;
    while j < n
        invariant
            n == buf@.len(),
            start <= j <= n,
            rest@ == buf@.subrange(start as int, j as int),
        decreases n - j,
    {
        rest.push(buf[j]);
        j = j + 1;
        assert(rest@ =~= buf@.subrange(start as int, j as int));
    }
    proof {
        let q = frames@.len() as int;
        let fl = frame_len as int;
        assert(n == q * fl + (n - start));
        vstd::arithmetic::div_mod::lemma_fundamental_div_mod_converse(n as int, fl, q, n - start);
    }
    assert(rest@ =~= buf@.skip(start as int));
    *buf = rest;
    frames
}

} // verus!
