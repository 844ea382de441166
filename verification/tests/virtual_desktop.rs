use fedorawin::windows::input::{KEYEVENTF_KEYUP, VK_CONTROL, VK_LEFT, VK_LWIN, VK_RIGHT};
use fedorawin::windows::virtual_desktop::{
    check_sent, com_initialized, manager_created, move_result, navigate, parse_handle,
    window_info, Guid, WorkspaceMoveJournal,
};

#[test]
fn virtual_desktop_guid_round_trips() {
    let value = "01234567-89ab-cdef-0123-456789abcdef";
    let guid = Guid::parse(value).unwrap();
    assert_eq!(guid.as_string(), value);
}

#[test]
fn malformed_desktop_guid_is_rejected() {
    assert!(Guid::parse("not-a-guid").is_err());
}

#[test]
fn guid_parsing_accepts_braces_and_case() {
    let g = Guid::parse("  {AA509086-5CA9-4C25-8F95-589D3C07B48A} ").unwrap();
    assert_eq!(g.data1, 0xaa50_9086);
    assert_eq!(g.data4, [0x8f, 0x95, 0x58, 0x9d, 0x3c, 0x07, 0xb4, 0x8a]);
    assert_eq!(g.as_string(), "aa509086-5ca9-4c25-8f95-589d3c07b48a");
    assert_eq!(
        Guid::parse("01234567-89ab-cdef-0123-456789abcdeg").unwrap_err(),
        "invalid virtual desktop id"
    );
    assert!(Guid::parse("01234567-89ab-cdef-01234-56789abcdef").is_err());
    assert!(Guid::parse("").is_err());
}

#[test]
fn guid_text_is_zero_padded() {
    let g = Guid { data1: 1, data2: 2, data3: 3, data4: [0, 1, 2, 3, 4, 5, 6, 255] };
    assert_eq!(g.as_string(), "00000001-0002-0003-0001-0203040506ff");
}

#[test]
fn navigation_sends_win_ctrl_arrow() {
    let left = navigate(-3).unwrap();
    let keys: Vec<(u16, u32)> = left.iter().map(|i| (i.keyboard.virtual_key, i.keyboard.flags)).collect();
    assert_eq!(
        keys,
        vec![
            (VK_LWIN, 0),
            (VK_CONTROL, 0),
            (VK_LEFT, 0),
            (VK_LEFT, KEYEVENTF_KEYUP),
            (VK_CONTROL, KEYEVENTF_KEYUP),
            (VK_LWIN, KEYEVENTF_KEYUP),
        ]
    );
    assert_eq!(navigate(1).unwrap()[2].keyboard.virtual_key, VK_RIGHT);
    assert_eq!(navigate(0).unwrap_err(), "workspace direction must be -1 or 1");
    assert_eq!(
        check_sent(3, 6).unwrap_err(),
        "Windows did not accept the workspace navigation input"
    );
}

#[test]
fn desktop_manager_answers() {
    let g = Guid::parse("01234567-89ab-cdef-0123-456789abcdef").unwrap();
    let info = window_info(0, g, 0, 1).unwrap();
    assert_eq!(info.desktop_id, "01234567-89ab-cdef-0123-456789abcdef");
    assert!(info.on_current_workspace);
    assert_eq!(
        window_info(-2147024809, g, 0, 1).unwrap_err(),
        "GetWindowDesktopId failed: 0x80070057"
    );
    assert_eq!(
        window_info(0, g, -1, 1).unwrap_err(),
        "IsWindowOnCurrentVirtualDesktop failed: 0xffffffff"
    );
    assert_eq!(move_result(-2147467259).unwrap_err(), "MoveWindowToDesktop failed: 0x80004005");
    assert!(move_result(0).is_ok());
    assert_eq!(com_initialized(1), Ok(true));
    assert_eq!(com_initialized(-2147417850), Ok(false));
    assert_eq!(com_initialized(-2147024882).unwrap_err(), "CoInitializeEx failed: 0x8007000e");
    assert_eq!(
        manager_created(0, true).unwrap_err(),
        "VirtualDesktopManager is unavailable: 0x00000000"
    );
}

#[test]
fn window_handles_are_decimal() {
    assert_eq!(parse_handle("132074"), Ok(132074));
    assert_eq!(parse_handle("-5"), Ok(-5));
    assert_eq!(parse_handle("0x10").unwrap_err(), "invalid window handle");
    assert_eq!(parse_handle(" 5").unwrap_err(), "invalid window handle");
}

#[test]
fn workspace_moves_are_undone_most_recent_first() {
    let mut journal = WorkspaceMoveJournal::new();
    assert!(!journal.record_move("100", "DESK-A", "desk-a"));
    assert_eq!(journal.pending_count(), 0);
    assert!(journal.record_move("100", "desk-a", "desk-b"));
    assert!(journal.record_move("200", "desk-a", "desk-c"));
    assert!(journal.record_move("100", "desk-b", "desk-c"));
    assert_eq!(journal.pending_count(), 2);
    assert_eq!(journal.undo_last(), Some(("200".to_string(), "desk-a".to_string())));
    assert_eq!(journal.undo_last(), Some(("100".to_string(), "desk-a".to_string())));
    assert_eq!(journal.undo_last(), None);
}
