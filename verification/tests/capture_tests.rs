use netover::capture::{
    capture_stream_flags, claim, claim_audio, create_audio_capture_loop, drain_frames, is_loopback_device, NativeAudioDevice,
    WindowsAudioCaptureLoop, WindowsCaptureLoop,
};
use netover::screen::{NativeScreen, PlatformError};
use std::sync::atomic::Ordering;

#[test]
fn screen_capture_starts_once() {
    let mut c = WindowsCaptureLoop::new();
    let target = NativeScreen::Windows { adapter_idx: 1, output_idx: 2 };
    assert!(matches!(c.begin(&target), Ok((1, 2))));
    assert!(c.running_flag().load(Ordering::SeqCst));
    assert!(matches!(c.begin(&target), Err(PlatformError::ExistError)));
    c.stop();
    assert!(!c.running_flag().load(Ordering::SeqCst));
    assert!(matches!(c.begin(&target), Ok((1, 2))));
}

#[test]
fn screen_capture_refuses_other_platforms() {
    let mut c = WindowsCaptureLoop::new();
    assert!(matches!(c.begin(&NativeScreen::Mac { display_id: 1 }), Err(PlatformError::TypeError)));
    assert!(matches!(
        c.begin(&NativeScreen::Linux { internal_id: "x".to_string() }),
        Err(PlatformError::TypeError)
    ));
    assert!(!c.running_flag().load(Ordering::SeqCst));
}

#[test]
fn capture_thread_end_frees_the_capture() {
    let mut c = WindowsCaptureLoop::new();
    let target = NativeScreen::Windows { adapter_idx: 0, output_idx: 0 };
    assert!(c.begin(&target).is_ok());
    // the capture thread clears the flag when it ends
    c.running_flag().store(false, Ordering::SeqCst);
    assert!(c.begin(&target).is_ok());
}

#[test]
fn audio_capture_starts_once() {
    let mut a: WindowsAudioCaptureLoop = create_audio_capture_loop();
    let dev = NativeAudioDevice::Windows { device_id: "loopback".to_string() };
    assert!(matches!(a.begin(&dev), Ok(ref id) if id == "loopback"));
    assert!(matches!(a.begin(&dev), Err(PlatformError::ExistError)));
    a.stop();
    assert!(a.begin(&dev).is_ok());
    let mut b = WindowsAudioCaptureLoop::new();
    assert!(matches!(
        b.begin(&NativeAudioDevice::Linux { device_id: "hw:0".to_string() }),
        Err(PlatformError::TypeError)
    ));
    assert!(!b.running_flag().load(Ordering::SeqCst));
}

#[test]
fn loopback_selection_and_flags() {
    assert!(is_loopback_device("loopback"));
    assert!(!is_loopback_device("Loopback"));
    assert!(!is_loopback_device("{0.0.1.00000000}.{abc}"));
    assert_eq!(capture_stream_flags(false), 0x8800_0000);
    assert_eq!(capture_stream_flags(true), 0x8802_0000);
}

#[test]
fn frames_are_cut_in_order() {
    let mut buf: Vec<u32> = (0..10).collect();
    let frames = drain_frames(&mut buf, 4);
    assert_eq!(frames, vec![vec![0, 1, 2, 3], vec![4, 5, 6, 7]]);
    assert_eq!(buf, vec![8, 9]);
    buf.extend_from_slice(&[10, 11]);
    let frames = drain_frames(&mut buf, 4);
    assert_eq!(frames, vec![vec![8, 9, 10, 11]]);
    assert!(buf.is_empty());
    let mut short = vec![1.5f32, 2.5];
    assert!(drain_frames(&mut short, 1920).is_empty());
    assert_eq!(short, vec![1.5, 2.5]);
}

#[test]
fn start_decisions_on_the_flag() {
    let w = NativeScreen::Windows { adapter_idx: 3, output_idx: 4 };
    assert!(matches!(claim(false, &w), Ok((3, 4))));
    assert!(matches!(claim(true, &w), Err(PlatformError::ExistError)));
    assert!(matches!(claim(false, &NativeScreen::Mac { display_id: 1 }), Err(PlatformError::TypeError)));
    assert!(matches!(claim(true, &NativeScreen::Mac { display_id: 1 }), Err(PlatformError::TypeError)));
    let d = NativeAudioDevice::Windows { device_id: "mic".to_string() };
    assert!(matches!(claim_audio(false, &d), Ok(ref id) if id == "mic"));
    assert!(matches!(claim_audio(true, &d), Err(PlatformError::ExistError)));
    assert!(matches!(
        claim_audio(false, &NativeAudioDevice::Mac { device_id: "x".to_string() }),
        Err(PlatformError::TypeError)
    ));
}
