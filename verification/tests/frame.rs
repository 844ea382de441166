use fedorawin::shell::{Accent, AppearanceState, ThemeMode};
use fedorawin::windows::frame::{
    apply_result, colorref, eligible, is_self_drawn_class, palette, restore_frame, style_window, AttrWrite,
    FrameJournal, FrameWindowFacts, OriginalFrame, DWMWA_COLOR_NONE, DWMWCP_DONOTROUND, DWMWCP_ROUND, WS_CAPTION,
};

fn appearance(theme: ThemeMode) -> AppearanceState {
    AppearanceState {
        theme,
        accent: Accent::Blue,
    }
}

#[test]
fn system_theme_does_not_force_non_client_colors() {
    let palette = palette(&appearance(ThemeMode::System));
    assert_eq!(palette.dark, None);
    assert_eq!(palette.caption, None);
    assert_eq!(palette.text, None);
}

#[test]
fn explicit_themes_still_drive_native_frames() {
    let dark = palette(&appearance(ThemeMode::Dark));
    let light = palette(&appearance(ThemeMode::Light));
    assert_eq!(dark.dark, Some(1));
    assert_eq!(light.dark, Some(0));
    assert!(dark.caption.is_some());
    assert!(light.caption.is_some());
}

#[test]
fn colorref_packs_red_green_blue() {
    assert_eq!(colorref(46, 46, 50), 0x0032_2E2E);
    assert_eq!(colorref(255, 0, 0), 0xFF);
}

fn observed_frame() -> OriginalFrame {
    OriginalFrame {
        pid: 7,
        dark: Some(0),
        corner: Some(0),
        border: Some(5),
        caption: None,
        text: Some(9),
        changed_dark: false,
        changed_corner: false,
        changed_border: false,
        changed_caption: false,
        changed_text: false,
    }
}

#[test]
fn styling_writes_only_observed_attributes() {
    let plan = style_window(&palette(&appearance(ThemeMode::Dark)), &observed_frame());
    assert!(plan.restore.is_empty());
    assert_eq!(
        plan.style,
        vec![
            AttrWrite::Dark(1),
            AttrWrite::Corner(DWMWCP_ROUND),
            AttrWrite::Text(colorref(255, 255, 255)),
            AttrWrite::Border(DWMWA_COLOR_NONE),
        ]
    );
}

#[test]
fn restore_puts_back_only_what_changed() {
    let mut o = observed_frame();
    o.changed_dark = true;
    o.changed_border = true;
    assert_eq!(restore_frame(&o), vec![AttrWrite::Dark(0), AttrWrite::Border(5)]);
}

#[test]
fn journal_keeps_one_entry_per_window_until_shutdown() {
    let mut journal = FrameJournal::new();
    assert!(journal.is_enabled());
    journal.insert(10, observed_frame());
    journal.insert(10, observed_frame());
    journal.insert(11, observed_frame());
    assert_eq!(journal.len(), 2);
    assert!(!journal.needs_snapshot(10, 7));
    assert!(journal.needs_snapshot(10, 8));
    assert!(journal.needs_snapshot(12, 7));
    assert!(journal.remove(11).is_some());
    let entries = journal.shutdown();
    assert_eq!(entries.len(), 1);
    assert!(!journal.is_enabled());
    assert_eq!(journal.len(), 0);
    assert_eq!(apply_result(false, true, 3).unwrap_err(), "frame styling has been shut down");
    assert_eq!(apply_result(true, false, 3).unwrap_err(), "EnumWindows failed");
    assert_eq!(apply_result(true, true, 3).unwrap(), 3);
}

#[test]
fn only_native_caption_windows_are_styled() {
    let base = FrameWindowFacts {
        hwnd: 5,
        visible: true,
        iconic: false,
        owner: 0,
        ex_style: 0,
        style: WS_CAPTION,
        pid: 40,
        own_pid: 41,
        cloaked: Some(0),
        class_name: "Notepad".to_string(),
        corner: Some(0),
    };
    assert!(eligible(&base));
    assert!(!eligible(&FrameWindowFacts { style: 0x0080_0000, ..base.clone() }));
    assert!(!eligible(&FrameWindowFacts { pid: 41, ..base.clone() }));
    assert!(!eligible(&FrameWindowFacts { cloaked: Some(2), ..base.clone() }));
    assert!(!eligible(&FrameWindowFacts { ex_style: 0x0008_0000, ..base.clone() }));
    assert!(eligible(&FrameWindowFacts { cloaked: None, ..base.clone() }));
    assert!(!eligible(&FrameWindowFacts { class_name: "Chrome_WidgetWin_1".to_string(), ..base.clone() }));
    assert!(!eligible(&FrameWindowFacts { corner: Some(DWMWCP_DONOTROUND), ..base.clone() }));
    assert!(eligible(&FrameWindowFacts { corner: None, ..base }));
}

#[test]
fn self_drawn_toolkit_classes_are_recognised() {
    for class in [
        "Chrome_WidgetWin_0",
        "Chrome_WidgetWin_1",
        "MozillaWindowClass",
        "gdkWindowToplevel",
        "gdkSurfaceToplevel",
        "SDL_app",
        "GLFW30",
        "Qt5152QWindowIcon",
        "Qt663QWindowIcon",
    ] {
        assert!(is_self_drawn_class(class), "{class}");
    }
    for class in ["Notepad", "CabinetWClass", "Qt", "QWindowIcon", "XQtQWindowIcon", "chrome_widgetwin_1", ""] {
        assert!(!is_self_drawn_class(class), "{class}");
    }
}
