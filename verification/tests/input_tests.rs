use netover::input::{
    create_injector, sent_result, wheel_events, WheelEvent, InputAction, InputInjectorGeneral, InputStat, KeyStroke, KeyboardBackend, LinuxKey, LogicalKey,
    MouseButton, PlatformError, WindowsInputInjector, WindowsKey,
};
use netover::screen::Screen;

fn stat() -> InputStat {
    InputStat {
        screen: Screen {
            id: "win:0:0".to_string(),
            name: "\\\\.\\DISPLAY1".to_string(),
            width: 1920,
            height: 1080,
            x: -1920,
            y: 0,
            primary: false,
        },
        keymap: vec![
            ("A".to_string(), LogicalKey::WindowsKey(WindowsKey { scancode: 0x1e, extended: false })),
            ("RIGHT".to_string(), LogicalKey::WindowsKey(WindowsKey { scancode: 0x4d, extended: true })),
            ("L".to_string(), LogicalKey::LinuxKey(LinuxKey { keycode: 38 })),
            ("A".to_string(), LogicalKey::WindowsKey(WindowsKey { scancode: 0x99, extended: false })),
        ],
    }
}

fn decode(cmd: &str) -> Result<InputAction, PlatformError> {
    create_injector().handle_input(&stat(), cmd.to_string())
}

#[test]
fn key_commands() {
    assert!(matches!(
        decode("KEY_DOWN A"),
        Ok(InputAction::Key(KeyStroke { scancode: 0x1e, extended: false, key_up: false }))
    ));
    assert!(matches!(
        decode("KEY_UP RIGHT"),
        Ok(InputAction::Key(KeyStroke { scancode: 0x4d, extended: true, key_up: true }))
    ));
    assert!(matches!(decode("KEY_DOWN L"), Err(PlatformError::TypeError)));
    assert!(matches!(decode("KEY_DOWN NOPE"), Err(PlatformError::TypeError)));
    assert!(matches!(decode("KEY_DOWN"), Err(PlatformError::TypeError)));
    assert!(matches!(decode("KEY_DOWN A B"), Err(PlatformError::TypeError)));
}

#[test]
fn click_commands() {
    assert!(matches!(decode("MOUSE_CLICK_DOWN 0"), Ok(InputAction::Click { button: MouseButton::Left, down: true })));
    assert!(matches!(decode("MOUSE_CLICK_UP 1"), Ok(InputAction::Click { button: MouseButton::Right, down: false })));
    assert!(matches!(decode("MOUSE_CLICK_UP +2"), Ok(InputAction::Click { button: MouseButton::Middle, down: false })));
    assert!(matches!(decode("MOUSE_CLICK_DOWN 3"), Err(PlatformError::APIError(0))));
    assert!(matches!(decode("MOUSE_CLICK_DOWN x"), Err(PlatformError::TypeError)));
    assert!(matches!(decode("MOUSE_CLICK_DOWN"), Err(PlatformError::TypeError)));
}

#[test]
fn move_and_wheel_commands() {
    match decode("MOUSE_MOVE 0.5 0.25") {
        Ok(InputAction::MoveAbsolute { x, y, base }) => {
            assert_eq!(x, "0.5");
            assert_eq!(y, "0.25");
            assert_eq!(base, (-1920, 0, 1920, 1080));
        }
        _ => panic!("expected a move"),
    }
    match decode("MOUSE_WHEEL 0 -120") {
        Ok(InputAction::Wheel { delta_x, delta_y }) => {
            assert_eq!(delta_x, "0");
            assert_eq!(delta_y, "-120");
        }
        _ => panic!("expected a wheel"),
    }
    assert!(matches!(decode("MOUSE_MOVE 0.5"), Err(PlatformError::TypeError)));
    assert!(matches!(decode("MOUSE_WHEEL 1 2 3"), Err(PlatformError::TypeError)));
}

#[test]
fn unknown_and_badly_spaced_commands() {
    assert!(matches!(decode(""), Err(PlatformError::TypeError)));
    assert!(matches!(decode("JUMP"), Err(PlatformError::TypeError)));
    assert!(matches!(decode("KEY_DOWN  A"), Err(PlatformError::TypeError)));
    assert!(matches!(decode("key_down A"), Err(PlatformError::TypeError)));
}

#[test]
fn keyboard_backend_and_buttons() {
    let inj = WindowsInputInjector::new();
    let k = LogicalKey::WindowsKey(WindowsKey { scancode: 5, extended: true });
    assert_eq!(inj.key_down(&Some(&k)), Ok(KeyStroke { scancode: 5, extended: true, key_up: false }));
    assert_eq!(inj.key_up(&Some(&k)), Ok(KeyStroke { scancode: 5, extended: true, key_up: true }));
    assert_eq!(inj.key_up(&None), Err(PlatformError::TypeError));
    assert!(matches!(inj.clickdown(2), Ok(InputAction::Click { button: MouseButton::Middle, down: true })));
    assert!(matches!(inj.clickup(9), Err(PlatformError::APIError(0))));
    assert_eq!(inj.button(1), Ok(MouseButton::Right));
}

#[test]
fn wheel_events_vertical_first_and_only_moving() {
    assert_eq!(wheel_events(0, 0), vec![]);
    assert_eq!(wheel_events(0, -120), vec![WheelEvent::Vertical(-120)]);
    assert_eq!(wheel_events(30, 0), vec![WheelEvent::Horizontal(30)]);
    assert_eq!(wheel_events(5, 7), vec![WheelEvent::Vertical(7), WheelEvent::Horizontal(5)]);
}

#[test]
fn injection_outcome() {
    assert_eq!(sent_result(2, 2), Ok(()));
    assert_eq!(sent_result(1, 2), Err(PlatformError::APIError(1)));
    assert_eq!(sent_result(0, 1), Err(PlatformError::APIError(0)));
    assert_eq!(sent_result(u32::MAX, 1), Err(PlatformError::APIError(-1)));
}

#[test]
fn move_is_relative_to_the_screen_size() {
    let mut s = stat();
    s.screen.x = 1920;
    s.screen.width = u32::MAX;
    // no edge is computed, so even a screen whose right edge overflows decodes
    match create_injector().handle_input(&s, "MOUSE_MOVE 1 1".to_string()) {
        Ok(InputAction::MoveAbsolute { base, .. }) => assert_eq!(base, (1920, 0, -1, 1080)),
        _ => panic!("expected a move"),
    }
    assert!(matches!(
        create_injector().handle_input(&s, "KEY_UP A".to_string()),
        Ok(InputAction::Key(KeyStroke { scancode: 0x1e, extended: false, key_up: true }))
    ));
}

#[test]
fn input_state_keeps_the_first_key_of_a_name() {
    let s = stat();
    let built = InputStat::new(s.screen, s.keymap);
    assert_eq!(built.keymap.len(), 3);
    assert_eq!(built.keymap[0].0, "A");
    assert!(matches!(built.keymap[0].1, LogicalKey::WindowsKey(WindowsKey { scancode: 0x1e, extended: false })));
    assert!(matches!(
        create_injector().handle_input(&built, "KEY_DOWN A".to_string()),
        Ok(InputAction::Key(KeyStroke { scancode: 0x1e, extended: false, key_up: false }))
    ));
}
