use fedorawin::windows::virtual_desktop::WindowWorkspaceInfo;
use fedorawin::windows::windows_list::{
    activate_result, attach_workspace, close_result, eligible, list_result, window_entry,
    ListWindowFacts,
};

#[test]
fn listed_windows_are_application_windows() {
    let base = ListWindowFacts {
        hwnd: 42,
        visible: true,
        owner: 0,
        ex_style: 0,
        pid: 900,
        own_pid: 901,
        cloaked: Some(0),
        title_length: 5,
    };
    assert!(eligible(&base));
    assert!(eligible(&ListWindowFacts { cloaked: Some(2), ..base }));
    assert!(!eligible(&ListWindowFacts { cloaked: Some(1), ..base }));
    assert!(!eligible(&ListWindowFacts { owner: 7, ..base }));
    assert!(!eligible(&ListWindowFacts { ex_style: 0x80, ..base }));
    assert!(!eligible(&ListWindowFacts { pid: 901, ..base }));
    assert!(!eligible(&ListWindowFacts { title_length: 0, ..base }));
}

#[test]
fn window_entries_carry_trimmed_titles() {
    let title: Vec<u16> = "  Notes — draft ".encode_utf16().collect();
    let entry = window_entry(65552, &title, true).unwrap();
    assert_eq!(entry.handle, "65552");
    assert_eq!(entry.title, "Notes — draft");
    assert!(entry.minimized);
    assert_eq!(entry.desktop_id, None);
    assert!(entry.on_current_workspace);
    let blank: Vec<u16> = "   ".encode_utf16().collect();
    assert!(window_entry(1, &blank, false).is_none());
}

#[test]
fn workspace_info_is_attached() {
    let title: Vec<u16> = "Editor".encode_utf16().collect();
    let mut entry = window_entry(7, &title, false).unwrap();
    attach_workspace(&mut entry, None);
    assert!(entry.on_current_workspace);
    attach_workspace(
        &mut entry,
        Some(WindowWorkspaceInfo { desktop_id: "d-1".to_string(), on_current_workspace: false }),
    );
    assert_eq!(entry.desktop_id.as_deref(), Some("d-1"));
    assert!(!entry.on_current_workspace);
}

#[test]
fn window_actions_report_their_failures() {
    assert_eq!(list_result(false, vec![]).unwrap_err(), "EnumWindows failed");
    assert!(list_result(true, vec![]).unwrap().is_empty());
    assert_eq!(activate_result(0, true, true).unwrap_err(), "window is no longer available");
    assert_eq!(
        activate_result(5, true, false).unwrap_err(),
        "Windows refused to foreground the requested window"
    );
    assert!(activate_result(5, true, true).is_ok());
    assert_eq!(close_result(5, true, false, true).unwrap_err(), "window is no longer available");
    assert_eq!(
        close_result(5, true, true, false).unwrap_err(),
        "Windows refused to close the requested window"
    );
    assert!(close_result(5, true, true, true).is_ok());
}
