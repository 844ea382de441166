use fedorawin::windows::input::{chord, keyboard_input, INPUT_KEYBOARD, KEYEVENTF_KEYUP, VK_LWIN, VK_S, VK_SHIFT};
use fedorawin::windows::screenshot::{check_sent, overlay_inputs};

#[test]
fn screenshot_key_release_sets_keyup_flag() {
    let press = keyboard_input(VK_S, false);
    let release = keyboard_input(VK_S, true);
    let press_keyboard = press.keyboard;
    let release_keyboard = release.keyboard;
    assert_eq!(press_keyboard.flags, 0);
    assert_eq!(release_keyboard.flags, KEYEVENTF_KEYUP);
}

#[test]
fn screenshot_chord_presses_then_releases_in_reverse() {
    let inputs = overlay_inputs();
    let keys: Vec<(u16, u32)> = inputs.iter().map(|i| (i.keyboard.virtual_key, i.keyboard.flags)).collect();
    assert_eq!(
        keys,
        vec![
            (VK_LWIN, 0),
            (VK_SHIFT, 0),
            (VK_S, 0),
            (VK_S, KEYEVENTF_KEYUP),
            (VK_SHIFT, KEYEVENTF_KEYUP),
            (VK_LWIN, KEYEVENTF_KEYUP),
        ]
    );
    assert!(inputs.iter().all(|i| i.kind == INPUT_KEYBOARD));
    assert!(chord(&[]).is_empty());
}

#[test]
fn screenshot_input_must_all_be_accepted() {
    assert!(check_sent(6, 6).is_ok());
    assert_eq!(
        check_sent(5, 6).unwrap_err(),
        "Windows did not accept the screenshot shortcut input"
    );
}
