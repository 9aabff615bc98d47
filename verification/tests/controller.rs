use taste_app::controller::{
    button, is_gamepad, ControllerButton, Pad, PadEvent, Pads, Press, ABS_HAT0Y, ABS_X, BTN_DPAD_DOWN,
    BTN_DPAD_UP, BTN_EAST, BTN_MODE, BTN_NORTH, BTN_SOUTH, BTN_START, BTN_TL, BTN_TR, BTN_WEST,
};

/// The codes are the kernel's.
#[test]
fn the_codes_are_the_kernels() {
    for (ours, kernels) in [
        (BTN_SOUTH, evdev::KeyCode::BTN_SOUTH),
        (BTN_EAST, evdev::KeyCode::BTN_EAST),
        (BTN_NORTH, evdev::KeyCode::BTN_NORTH),
        (BTN_WEST, evdev::KeyCode::BTN_WEST),
        (BTN_TL, evdev::KeyCode::BTN_TL),
        (BTN_TR, evdev::KeyCode::BTN_TR),
        (BTN_START, evdev::KeyCode::BTN_START),
        (BTN_MODE, evdev::KeyCode::BTN_MODE),
        (BTN_DPAD_UP, evdev::KeyCode::BTN_DPAD_UP),
        (BTN_DPAD_DOWN, evdev::KeyCode::BTN_DPAD_DOWN),
    ] {
        assert_eq!(ours, kernels.0);
    }
    assert_eq!(ABS_X, evdev::AbsoluteAxisCode::ABS_X.0);
    assert_eq!(ABS_HAT0Y, evdev::AbsoluteAxisCode::ABS_HAT0Y.0);
}

#[test]
fn a_pad_has_face_buttons_and_a_stick() {
    let face = vec![BTN_SOUTH, BTN_EAST];
    let stick = vec![ABS_HAT0Y, ABS_X];
    assert!(is_gamepad(Some(&face), Some(&stick)));
    assert!(!is_gamepad(Some(&face), None), "no stick at all");
    assert!(!is_gamepad(None, Some(&stick)));
    assert!(!is_gamepad(Some(&vec![BTN_SOUTH]), Some(&stick)));
    assert!(!is_gamepad(Some(&face), Some(&vec![ABS_HAT0Y])));
}

#[test]
fn the_buttons_follow_the_xbox_layout() {
    assert_eq!(button(BTN_SOUTH), Some(ControllerButton::A));
    assert_eq!(button(BTN_EAST), Some(ControllerButton::B));
    assert_eq!(button(BTN_NORTH), Some(ControllerButton::X));
    assert_eq!(button(BTN_WEST), Some(ControllerButton::Y));
    assert_eq!(button(BTN_TL), Some(ControllerButton::LeftShoulder));
    assert_eq!(button(BTN_TR), Some(ControllerButton::RightShoulder));
    assert_eq!(button(BTN_START), Some(ControllerButton::Start));
    assert_eq!(button(BTN_MODE), Some(ControllerButton::Guide));
    assert_eq!(button(BTN_DPAD_UP), Some(ControllerButton::Up));
    assert_eq!(button(BTN_DPAD_DOWN), Some(ControllerButton::Down));
    assert_eq!(button(evdev::KeyCode::KEY_A.0), None);
}

fn press(button: ControllerButton, pressed: bool) -> Press {
    Press { button, pressed }
}

#[test]
fn a_held_button_is_pressed_once() {
    let mut pad = Pad::new();
    let key = |value| PadEvent::Key {
        code: BTN_SOUTH,
        value,
    };
    assert_eq!(pad.read(key(1)), vec![press(ControllerButton::A, true)]);
    assert_eq!(pad.read(key(2)), vec![], "the kernel's repeat");
    assert_eq!(pad.read(key(0)), vec![press(ControllerButton::A, false)]);
    assert_eq!(pad.read(PadEvent::Other), vec![]);
    assert_eq!(
        pad.read(PadEvent::Key { code: 30, value: 1 }),
        vec![],
        "not ours"
    );
}

/// The axis is seen as two buttons of which one is down at a time.
#[test]
fn the_axis_lets_go_before_it_presses() {
    let mut pad = Pad::new();
    let hat = |value| PadEvent::Axis {
        code: ABS_HAT0Y,
        value,
    };
    assert_eq!(pad.read(hat(0)), vec![]);
    assert_eq!(pad.read(hat(-1)), vec![press(ControllerButton::Up, true)]);
    assert_eq!(pad.read(hat(-1)), vec![]);
    assert_eq!(
        pad.read(hat(1)),
        vec![
            press(ControllerButton::Up, false),
            press(ControllerButton::Down, true)
        ]
    );
    assert_eq!(pad.read(hat(0)), vec![press(ControllerButton::Down, false)]);
    assert_eq!(
        pad.read(PadEvent::Axis {
            code: ABS_X,
            value: 1
        }),
        vec![]
    );
}

#[test]
fn a_pad_is_opened_once_until_it_goes_away() {
    let mut pads = Pads::new();
    assert!(!pads.seen("/dev/input/event0", false), "a keyboard");
    assert!(pads.seen("/dev/input/event1", true));
    assert!(!pads.seen("/dev/input/event1", true), "already being read");
    assert!(pads.seen("/dev/input/event2", true));
    pads.closed("/dev/input/event1");
    assert_eq!(pads.open, vec!["/dev/input/event2"]);
    assert!(pads.seen("/dev/input/event1", true), "plugged in again");
    assert!(!pads.scanned(true));
    assert!(pads.scanned(false), "said once");
    assert!(!pads.scanned(false));
}
