use fedorawin::portable::{appbar, apps, audio, display, frame, panel, virtual_desktop, wifi, windows_list};
use fedorawin::shell::AppearanceState;

#[test]
fn portable_bridges_report_windows_only_features() {
    assert_eq!(audio::get_master_volume().unwrap_err(), "audio control is Windows-only");
    assert_eq!(audio::set_master_volume(10).unwrap_err(), "audio control is Windows-only");
    assert!(appbar::reserve_top(5).is_ok());
    appbar::release(5);
    assert!(apps::list().unwrap().is_empty());
    assert_eq!(apps::launch("x").unwrap_err(), "application launching is Windows-only");
    assert!(display::enumerate().unwrap().is_empty());
    assert_eq!(display::primary().unwrap_err(), "display enumeration is Windows-only");
    assert_eq!(frame::apply_to_top_level_windows(&AppearanceState::default()).unwrap(), 0);
    frame::reset_top_level_windows();
    frame::start_frame_watcher(std::sync::Arc::new(0u8));
    assert_eq!(panel::hwnd(), None);
    assert_eq!(wifi::set_enabled(true).unwrap_err(), "Wi-Fi control is Windows-only");
    assert!(windows_list::list().unwrap().is_empty());
    assert_eq!(windows_list::activate("1").unwrap_err(), "window activation is Windows-only");
    assert_eq!(windows_list::close("1").unwrap_err(), "window closing is Windows-only");
}

#[test]
fn portable_virtual_desktops_are_absent() {
    assert_eq!(virtual_desktop::window_info(1).unwrap_err(), "virtual desktops are Windows-only");
    assert_eq!(virtual_desktop::navigate(1).unwrap_err(), "virtual desktops are Windows-only");
    let journal = virtual_desktop::WorkspaceMoveJournal::default();
    assert_eq!(journal.move_window("1", "d").unwrap_err(), "virtual desktops are Windows-only");
    assert_eq!(journal.undo_last(), Ok(None));
    assert_eq!(journal.pending_count(), 0);
}

#[test]
fn portable_rectangles_measure_like_windows_ones() {
    let r = display::RectInfo { left: -10, top: 5, right: 30, bottom: 45 };
    assert_eq!(r.width(), 40);
    assert_eq!(r.height(), 40);
}
