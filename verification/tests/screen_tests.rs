use netover::screen::{bgra_to_i420, screen_of_output, strip_row_padding, I420Frame, NativeScreen, Screen, ScreenManager};

fn screen(id: &str, primary: bool) -> Screen {
    Screen { id: id.to_string(), name: format!("screen {}", id), width: 800, height: 600, x: 0, y: 0, primary }
}

fn windows(a: u32, o: u32) -> NativeScreen {
    NativeScreen::Windows { adapter_idx: a, output_idx: o }
}

#[test]
fn base_point_is_the_corners() {
    let s = Screen { id: "s".to_string(), name: "n".to_string(), width: 1280, height: 720, x: 100, y: -50, primary: true };
    assert_eq!(s.get_base_point(), (100, -50, 1380, 670));
}

#[test]
fn i420_of_a_small_image() {
    // 4 x 2 pixels, BGRA
    let px: [(u8, u8, u8); 8] = [
        (0, 0, 0),
        (255, 255, 255),
        (0, 0, 255),
        (0, 255, 0),
        (255, 0, 0),
        (10, 20, 30),
        (200, 100, 50),
        (1, 2, 3),
    ];
    let mut bgra = Vec::new();
    for (b, g, r) in px {
        bgra.extend_from_slice(&[b, g, r, 255]);
    }
    let f = bgra_to_i420(&bgra, 4, 2).ok().unwrap();
    assert_eq!((f.width, f.height), (4, 2));
    assert_eq!(f.y, vec![16, 235, 82, 144, 41, 35, 99, 18]);
    assert_eq!(f.u, vec![128, 90]);
    assert_eq!(f.v, vec![128, 240]);
    assert_eq!(f.dimensions(), (4, 2));
    assert_eq!(f.strides(), (4, 2, 2));
}

#[test]
fn i420_needs_no_alpha_of_the_last_pixel() {
    let bgra = vec![255u8, 255, 255, 0, 255, 255, 255];
    let f = bgra_to_i420(&bgra, 2, 1).ok().unwrap();
    assert_eq!(f.y, vec![235, 235]);
    assert!(f.u.is_empty());
    assert!(f.v.is_empty());
}

#[test]
fn manager_picks_the_primary_screen() {
    let m = ScreenManager::from_screens(vec![
        (screen("a", false), windows(0, 0)),
        (screen("b", true), windows(0, 1)),
        (screen("c", true), windows(1, 0)),
    ])
    .unwrap();
    assert_eq!(m.now_screen.id, "b");
    assert_eq!(m.screens.len(), 3);
    assert!(matches!(m.now_native(), Some(NativeScreen::Windows { adapter_idx: 0, output_idx: 1 })));
    assert!(matches!(m.native_for(&"c".to_string()), Some(NativeScreen::Windows { adapter_idx: 1, output_idx: 0 })));
    assert!(m.native_for(&"zz".to_string()).is_none());
}

#[test]
fn manager_falls_back_to_the_first_screen() {
    let m = ScreenManager::from_screens(vec![(screen("a", false), windows(0, 0)), (screen("b", false), windows(0, 1))]).unwrap();
    assert_eq!(m.now_screen.id, "a");
}

#[test]
fn manager_keeps_the_last_native_screen_of_an_id() {
    let m = ScreenManager::from_screens(vec![
        (screen("a", false), windows(0, 0)),
        (screen("a", false), NativeScreen::Linux { internal_id: "x".to_string() }),
    ])
    .unwrap();
    assert!(matches!(m.now_native(), Some(NativeScreen::Linux { ref internal_id }) if internal_id == "x"));
}

#[test]
fn manager_needs_a_screen() {
    assert!(matches!(ScreenManager::from_screens(vec![]), Err(ref e) if e == "No screens found"));
}

#[test]
fn windows_output_becomes_a_screen() {
    let (s, n) = screen_of_output(1, 12, "\\\\.\\DISPLAY2".to_string(), -1920, 0, 0, 1080);
    assert_eq!(s.id, "win:1:12");
    assert_eq!(s.name, "\\\\.\\DISPLAY2");
    assert_eq!((s.width, s.height, s.x, s.y), (1920, 1080, -1920, 0));
    assert!(!s.primary);
    assert!(matches!(n, NativeScreen::Windows { adapter_idx: 1, output_idx: 12 }));
    let (p, _) = screen_of_output(0, 0, String::new(), 0, 0, 2560, 1440);
    assert!(p.primary);
    assert_eq!(p.id, "win:0:0");
}

#[test]
fn padding_is_stripped_from_rows() {
    // 2 x 2 pixels, rows 12 bytes apart (4 bytes of padding)
    let mapped: Vec<u8> = (0u8..24).collect();
    let out = strip_row_padding(&mapped, 12, 2, 2);
    assert_eq!(out, vec![0, 1, 2, 3, 4, 5, 6, 7, 12, 13, 14, 15, 16, 17, 18, 19]);
    // the last row needs no padding after it
    let out = strip_row_padding(&mapped[..20], 12, 2, 2);
    assert_eq!(out.len(), 16);
    assert!(strip_row_padding(&[], 4, 1, 0).is_empty());
}

#[test]
fn clones_are_equal() {
    let s = screen("a", true);
    let c = s.clone();
    assert_eq!((c.id, c.name, c.primary), (s.id, s.name, s.primary));
    let n = NativeScreen::Linux { internal_id: "q".to_string() };
    assert!(matches!(n.clone(), NativeScreen::Linux { ref internal_id } if internal_id == "q"));
    let _unused: Option<I420Frame> = None;
}
