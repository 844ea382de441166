use fedorawin::windows::frame::{colorref, AttrWrite};
use fedorawin::windows::frame_recovery::{
    creation_time, filetime, may_recover, recovery_plan, shell_stopped, CurrentAttributes,
    Snapshot,
};

fn snapshot() -> Snapshot {
    Snapshot {
        hwnd: 500,
        pid: 12,
        created: 0x0000_0001_0000_0002,
        dark: Some(0),
        corner: Some(0),
        border: Some(0x00ff_00ff),
        caption: Some(colorref(10, 20, 30)),
        text: None,
    }
}

#[test]
fn watchdog_restores_only_our_own_values() {
    let current = CurrentAttributes {
        dark: Some(1),
        corner: Some(2),
        border: Some(0x00ff_00ff),
        caption: Some(colorref(99, 99, 99)),
        text: Some(colorref(255, 255, 255)),
    };
    assert_eq!(
        recovery_plan(&snapshot(), &current),
        vec![AttrWrite::Dark(0), AttrWrite::Corner(0)]
    );
    let ours = CurrentAttributes {
        dark: None,
        corner: None,
        border: Some(0xFFFF_FFFE),
        caption: Some(colorref(46, 46, 50)),
        text: Some(colorref(32, 32, 34)),
    };
    assert_eq!(
        recovery_plan(&snapshot(), &ours),
        vec![AttrWrite::Border(0x00ff_00ff), AttrWrite::Caption(colorref(10, 20, 30))]
    );
}

#[test]
fn watchdog_checks_process_identity() {
    let s = snapshot();
    assert!(may_recover(&s, true, 12, Some(0x0000_0001_0000_0002)));
    assert!(!may_recover(&s, true, 12, Some(3)));
    assert!(!may_recover(&s, true, 13, Some(0x0000_0001_0000_0002)));
    assert!(!may_recover(&s, false, 12, Some(0x0000_0001_0000_0002)));
    assert!(!may_recover(&s, true, 12, None));
}

#[test]
fn filetimes_combine_high_and_low_words() {
    assert_eq!(filetime(1, 2), 0x0000_0001_0000_0002);
    assert_eq!(filetime(0xffff_ffff, 0xffff_ffff), u64::MAX);
    assert_eq!(creation_time(0, true, true, 1, 2), None);
    assert_eq!(creation_time(4, false, true, 1, 2), None);
    assert_eq!(creation_time(4, true, false, 1, 2), None);
    assert_eq!(creation_time(4, true, true, 1, 2), Some(0x0000_0001_0000_0002));
    assert!(shell_stopped(false, 0x102));
    assert!(shell_stopped(true, 0));
    assert!(!shell_stopped(true, 0x102));
}
