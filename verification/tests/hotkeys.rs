use fedorawin::windows::hotkeys::{is_activities_hotkey, registration_result, Msg, Point, ACTIVITIES_HOTKEY_ID, WM_HOTKEY};

#[test]
fn matches_only_our_activities_hotkey() {
    let message = Msg {
        hwnd: 0,
        message: WM_HOTKEY,
        wparam: ACTIVITIES_HOTKEY_ID as usize,
        lparam: 0,
        time: 0,
        point: Point { x: 0, y: 0 },
        private: 0,
    };
    assert!(is_activities_hotkey(&message));

    let other = Msg {
        wparam: 123,
        ..message
    };
    assert!(!is_activities_hotkey(&other));
}

#[test]
fn other_messages_are_not_the_hotkey() {
    let message = Msg {
        hwnd: 0,
        message: 0x0202,
        wparam: ACTIVITIES_HOTKEY_ID as usize,
        lparam: 0,
        time: 0,
        point: Point { x: 0, y: 0 },
        private: 0,
    };
    assert!(!is_activities_hotkey(&message));
}

#[test]
fn hotkey_registration_outcomes() {
    assert!(registration_result(Some(true)).is_ok());
    assert_eq!(
        registration_result(Some(false)).unwrap_err(),
        "Alt+F1 is already reserved by another application"
    );
    assert_eq!(registration_result(None).unwrap_err(), "hotkey thread did not initialize");
}
