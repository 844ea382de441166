use fedorawin::shell::ThemeMode;
use fedorawin::windows::display::Rect;
use fedorawin::windows::frame_overlay::{
    caption_command, control_colors, control_layout, eligible, is_dark, overlay_rect,
    x_from_lparam, OverlayWindowFacts, SC_CLOSE, SC_MAXIMIZE, SC_MINIMIZE, SC_RESTORE,
};
use fedorawin::windows::frame::colorref;

#[test]
fn extracts_signed_caption_click_coordinate() {
    assert_eq!(x_from_lparam(24), 24);
    assert_eq!(x_from_lparam(0x0000_fffc), -4);
}

#[test]
fn caption_clicks_map_to_system_commands() {
    assert_eq!(caption_command(138, 10, false), SC_MINIMIZE);
    assert_eq!(caption_command(138, 60, false), SC_MAXIMIZE);
    assert_eq!(caption_command(138, 60, true), SC_RESTORE);
    assert_eq!(caption_command(138, 120, false), SC_CLOSE);
    assert_eq!(caption_command(138, -5, false), SC_MINIMIZE);
    assert_eq!(caption_command(138, 500, false), SC_CLOSE);
    assert_eq!(caption_command(0, 1, false), SC_MAXIMIZE);
}

#[test]
fn control_discs_fill_three_segments() {
    let l = control_layout(138, 32);
    assert_eq!(l.segment, 46);
    assert_eq!(l.radius, 11);
    assert_eq!(l.center_y, 16);
    assert_eq!((l.first_x, l.second_x, l.third_x), (23, 69, 115));
    assert_eq!(control_layout(1, 100).radius, 13);
}

#[test]
fn controls_follow_the_theme() {
    assert!(is_dark(ThemeMode::Dark));
    assert!(is_dark(ThemeMode::System));
    assert!(!is_dark(ThemeMode::Light));
    assert_eq!(control_colors(true).background, colorref(46, 46, 50));
    assert_eq!(control_colors(false).foreground, colorref(32, 32, 34));
}

#[test]
fn controls_sit_over_the_caption_buttons() {
    let frame = Rect { left: 100, top: 50, right: 900, bottom: 650 };
    let buttons = Rect { left: 660, top: 0, right: 800, bottom: 30 };
    let r = overlay_rect(frame, buttons).unwrap();
    assert_eq!((r.left, r.top, r.right, r.bottom), (760, 50, 900, 80));
    assert!(overlay_rect(frame, Rect { left: 5, top: 0, right: 5, bottom: 30 }).is_none());
}

#[test]
fn only_windows_with_caption_buttons_get_controls() {
    let base = OverlayWindowFacts {
        hwnd: 9,
        visible: true,
        iconic: false,
        owner: 0,
        ex_style: 0,
        pid: 3,
        own_pid: 4,
        cloaked: None,
        buttons: Some(Rect { left: 0, top: 0, right: 10, bottom: 10 }),
    };
    assert!(eligible(&base));
    assert!(!eligible(&OverlayWindowFacts { buttons: None, ..base }));
    assert!(!eligible(&OverlayWindowFacts { ex_style: 0x0800_0000, ..base }));
    assert!(!eligible(&OverlayWindowFacts { iconic: true, ..base }));
}
