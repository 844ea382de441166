use fedorawin::windows::desktop_presentation::{
    handles_argument, is_taskbar_class, keeps_windows_taskbar, parse_handles, should_restore,
    taskbar_list,
};

#[test]
fn only_explorer_taskbar_classes() {
    assert!(is_taskbar_class("Shell_TrayWnd"));
    assert!(is_taskbar_class("Shell_SecondaryTrayWnd"));
    assert!(!is_taskbar_class("Progman"));
    assert!(!is_taskbar_class("CabinetWClass"));
}

#[test]
fn malformed_watchdog_arguments_cannot_restore_arbitrary_handles() {
    assert_eq!(parse_handles("10,bad,0,-4,20"), vec![10, 20]);
}

#[test]
fn watchdog_reads_back_the_hidden_taskbars() {
    let hidden = vec![65552, 131090, 7];
    let argument = handles_argument(&hidden);
    assert_eq!(argument, "65552,131090,7");
    assert_eq!(parse_handles(&argument), hidden);
    assert_eq!(handles_argument(&vec![]), "");
    assert_eq!(parse_handles(""), Vec::<isize>::new());
    assert_eq!(handles_argument(&vec![-3, 4]), "-3,4");
}

#[test]
fn taskbars_are_listed_once_in_discovery_order() {
    assert_eq!(taskbar_list(&vec![5, 9, 5, 3, 9]), vec![5, 9, 3]);
}

#[test]
fn watchdog_waits_for_the_shell_to_end() {
    assert!(should_restore(false, 258));
    assert!(should_restore(true, 0));
    assert!(!should_restore(true, 0xffff_ffff));
}

#[test]
fn taskbar_can_be_kept_on_request() {
    assert!(keeps_windows_taskbar(Some("1")));
    assert!(!keeps_windows_taskbar(Some("0")));
    assert!(!keeps_windows_taskbar(None));
}
