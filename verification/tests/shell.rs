use fedorawin::shell::{capture_ready_title, surface_kind, surface_title, surface_url, SurfaceKind};
use fedorawin::shell::{check_surface, other_popover, Accent, AppearanceState, ShellState, ThemeMode};

#[test]
fn appearance_parses_ui_values() {
    let a = AppearanceState::parse("light", "green").unwrap();
    assert_eq!(a, AppearanceState { theme: ThemeMode::Light, accent: Accent::Green });
    assert_eq!(AppearanceState::parse("sepia", "green").unwrap_err(), "unsupported theme: sepia");
    assert_eq!(AppearanceState::parse("dark", "magenta").unwrap_err(), "unsupported accent: magenta");
    assert_eq!(AppearanceState::parse("sepia", "magenta").unwrap_err(), "unsupported theme: sepia");
}

#[test]
fn shell_state_reads_back_what_was_set() {
    let mut state = ShellState::default();
    let start = state.snapshot();
    assert_eq!(start.appearance, AppearanceState { theme: ThemeMode::Dark, accent: Accent::Blue });
    assert!(!start.activities_open);
    let wanted = AppearanceState { theme: ThemeMode::System, accent: Accent::Purple };
    assert!(state.set_appearance(wanted).is_ok());
    state.set_activities_open(true);
    let now = state.snapshot();
    assert_eq!(now.appearance, wanted);
    assert!(now.activities_open);
}

#[test]
fn only_popovers_toggle() {
    assert!(check_surface("date-menu").is_ok());
    assert!(check_surface("quick-settings").is_ok());
    assert_eq!(check_surface("activities").unwrap_err(), "unsupported shell surface");
    assert_eq!(other_popover("date-menu"), "quick-settings");
    assert_eq!(other_popover("quick-settings"), "date-menu");
}

#[test]
fn surface_labels_titles_and_urls() {
    assert_eq!(surface_kind("date-menu").unwrap(), SurfaceKind::DateMenu);
    assert_eq!(surface_kind("panel").unwrap_err(), "unsupported shell surface: panel");
    assert_eq!(capture_ready_title("activities").unwrap(), "FedoraWin — activities — ready");
    assert_eq!(capture_ready_title("osd").unwrap_err(), "unsupported capture surface");
    assert_eq!(surface_url("panel", None), "index.html?view=panel");
    assert_eq!(surface_url("panel", Some("light")), "index.html?view=panel&capture=light");
    assert_eq!(surface_title("quick-settings"), "FedoraWin — quick-settings");
}
