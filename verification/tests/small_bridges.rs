use fedorawin::windows::appbar::{check_panel, panel_height, requested_band, settled_band, setpos_result};
use fedorawin::windows::audio::volume_request;
use fedorawin::windows::display::Rect;
use fedorawin::windows::window_events::{should_refresh, EVENT_OBJECT_CREATE, EVENT_SYSTEM_MINIMIZESTART, OBJID_WINDOW};

#[test]
fn volume_must_be_a_percentage() {
    assert_eq!(volume_request(100), Ok(100));
    assert_eq!(volume_request(0), Ok(0));
    assert_eq!(volume_request(101).unwrap_err(), "volume must be between 0 and 100");
}

#[test]
fn appbar_reserves_the_panel_band_on_its_monitor() {
    assert_eq!(check_panel(0).unwrap_err(), "invalid panel HWND");
    assert!(check_panel(9).is_ok());
    let panel = Rect { left: -1920, top: -300, right: 0, bottom: -252 };
    assert_eq!(panel_height(panel), 48);
    assert_eq!(panel_height(Rect { left: 0, top: 10, right: 0, bottom: 10 }), 1);
    let monitor = Rect { left: -1920, top: -300, right: 0, bottom: 780 };
    let band = requested_band(monitor, 48);
    assert_eq!((band.left, band.top, band.right, band.bottom), (-1920, -300, 0, -252));
    let moved = Rect { left: -1920, top: -280, right: 0, bottom: 0 };
    let settled = settled_band(moved, 48);
    assert_eq!((settled.top, settled.bottom), (-280, -232));
    assert_eq!(setpos_result(0).unwrap_err(), "SHAppBarMessage(ABM_SETPOS) failed");
    assert!(setpos_result(1).is_ok());
}

#[test]
fn only_window_events_refresh_the_list() {
    assert!(should_refresh(5, EVENT_SYSTEM_MINIMIZESTART, 3));
    assert!(should_refresh(5, EVENT_OBJECT_CREATE, OBJID_WINDOW));
    assert!(!should_refresh(5, EVENT_OBJECT_CREATE, -4));
    assert!(!should_refresh(0, EVENT_SYSTEM_MINIMIZESTART, 0));
}
