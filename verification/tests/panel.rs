use fedorawin::windows::panel::{
    clock_label, hwnd, panel_action, panel_layout, position_failure, reservation_failure,
    rollback_result, scale_to_panel, status_icons, x_from_lparam, ClockTime, PanelAction,
};

#[test]
fn extracts_signed_mouse_x_coordinate() {
    assert_eq!(x_from_lparam(42), 42);
    assert_eq!(x_from_lparam(0x0000_fffe), -2);
}

#[test]
fn logical_panel_geometry_scales_with_dpi_height() {
    assert_eq!(scale_to_panel(12, 32), 12);
    assert_eq!(scale_to_panel(12, 48), 18);
}

#[test]
fn scaling_rounds_halves_away_from_zero() {
    // 5 * 40 / 32 = 6.25, 3 * 48 / 32 = 4.5, -3 * 48 / 32 = -4.5
    assert_eq!(scale_to_panel(5, 40), 6);
    assert_eq!(scale_to_panel(3, 48), 5);
    assert_eq!(scale_to_panel(-3, 48), -5);
    assert_eq!(scale_to_panel(12, 0), 0);
    assert_eq!(x_from_lparam(0x1234_0010), 16);
}

#[test]
fn panel_clicks_open_their_surfaces() {
    assert_eq!(panel_action(10, 1920, 32), Some(PanelAction::Activities));
    assert_eq!(panel_action(58, 1920, 32), Some(PanelAction::Activities));
    assert_eq!(panel_action(960, 1920, 32), Some(PanelAction::DateMenu));
    assert_eq!(panel_action(1800, 1920, 32), Some(PanelAction::QuickSettings));
    assert_eq!(panel_action(400, 1920, 32), None);
    assert_eq!(panel_action(80, 1920, 48), Some(PanelAction::Activities));
}

#[test]
fn panel_layout_at_double_density() {
    let l = panel_layout(2000, 64);
    assert_eq!((l.clock.left, l.clock.right, l.clock.bottom), (760, 1240, 64));
    assert_eq!((l.status.left, l.status.right), (1700, 1976));
    assert_eq!((l.pill.left, l.pill.top, l.pill.right, l.pill.bottom), (24, 24, 60, 40));
    assert_eq!(l.pill_radius, 16);
    assert_eq!((l.dot.left, l.dot.top, l.dot.right, l.dot.bottom), (72, 28, 82, 38));
}

#[test]
fn clock_shows_month_day_and_padded_time() {
    let t = ClockTime { month: 3, day: 7, hour: 9, minute: 5 };
    assert_eq!(clock_label(t), "Mar 7  09:05");
    let t = ClockTime { month: 13, day: 31, hour: 23, minute: 59 };
    assert_eq!(clock_label(t), "Dec 31  23:59");
}

#[test]
fn status_icons_append_the_battery() {
    assert_eq!(status_icons(""), "\u{E701}  \u{E767}");
    assert_eq!(status_icons("\u{E850}"), "\u{E701}  \u{E767}  \u{E850}");
}

#[test]
fn panel_handle_zero_means_none() {
    assert_eq!(hwnd(0), None);
    assert_eq!(hwnd(77), Some(77));
}

#[test]
fn relayout_failure_messages() {
    assert!(rollback_result(true, &Ok(())).is_ok());
    assert_eq!(
        rollback_result(false, &Ok(())).unwrap_err(),
        "failed to restore native panel geometry after relayout failure; AppBar was re-reserved"
    );
    assert_eq!(
        rollback_result(true, &Err("x".to_string())).unwrap_err(),
        "native panel geometry was restored but AppBar recovery failed: x"
    );
    assert_eq!(
        rollback_result(false, &Err("x".to_string())).unwrap_err(),
        "native panel geometry and AppBar recovery both failed: x"
    );
    assert_eq!(
        position_failure(&Ok(())),
        "SetWindowPos failed for native panel; previous layout was restored"
    );
    assert_eq!(
        position_failure(&Err("y".to_string())),
        "SetWindowPos failed for native panel; rollback failed: y"
    );
    assert_eq!(
        reservation_failure("e", &Ok(())),
        "native panel AppBar reservation failed; previous layout was restored: e"
    );
    assert_eq!(
        reservation_failure("e", &Err("r".to_string())),
        "native panel AppBar reservation failed: e; rollback failed: r"
    );
}
