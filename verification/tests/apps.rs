use fedorawin::windows::apps::{
    aliases_for, catalog, launch_target, start_apps_failure, start_apps_timeout,
};

#[test]
fn terminal_alias_resolves_windows_terminal() {
    let aliases = aliases_for(
        "Windows Terminal",
        "Microsoft.WindowsTerminal_8wekyb3d8bbwe!App",
    );
    assert!(aliases.iter().any(|alias| alias == "terminal"));
    assert!(aliases.iter().any(|alias| alias == "command line"));
}

#[test]
fn gnome_style_names_resolve_windows_equivalents() {
    let files = aliases_for("File Explorer", "explorer.exe");
    let monitor = aliases_for("Task Manager", "TaskManager");
    let capture = aliases_for("Snipping Tool", "Microsoft.ScreenSketch_8wekyb3d8bbwe!App");

    assert!(files.iter().any(|alias| alias == "files"));
    assert!(monitor.iter().any(|alias| alias == "system monitor"));
    assert!(capture.iter().any(|alias| alias == "screenshot"));
}

#[test]
fn aliases_are_sorted_and_unique() {
    let aliases = aliases_for("Windows PowerShell", "powershell.exe");
    let mut expected = aliases.clone();
    expected.sort();
    expected.dedup();
    assert_eq!(aliases, expected);
    assert_eq!(
        aliases,
        vec!["cli", "command line", "powershell", "pwsh", "shell", "terminal"]
    );
    assert!(aliases_for("Some Game", "Game!App").is_empty());
}

fn row(name: Option<&str>, id: Option<&str>) -> (Option<String>, Option<String>) {
    (name.map(str::to_string), id.map(str::to_string))
}

#[test]
fn catalog_sorts_by_name_and_drops_repeated_ids() {
    let rows = vec![
        row(Some(" zebra "), Some("Z!App")),
        row(Some("Calculator"), Some("calc!App")),
        row(None, Some("nameless!App")),
        row(Some("   "), Some("blank!App")),
        row(Some("calculator"), Some("CALC!app")),
        row(Some("Alpha"), Some("a!App")),
    ];
    let apps = catalog(&rows);
    let names: Vec<&str> = apps.iter().map(|app| app.name.as_str()).collect();
    assert_eq!(names, vec!["Alpha", "Calculator", "zebra"]);
    assert_eq!(apps[2].app_id, "Z!App");
    assert!(apps[1].aliases.iter().any(|alias| alias == "calc"));
}

#[test]
fn launch_target_is_the_apps_folder_entry() {
    assert_eq!(
        launch_target("  Microsoft.WindowsCalculator_8wekyb3d8bbwe!App ").unwrap(),
        r"shell:AppsFolder\Microsoft.WindowsCalculator_8wekyb3d8bbwe!App"
    );
    assert_eq!(launch_target("   ").unwrap_err(), "invalid application id");
    assert_eq!(launch_target("a\"b").unwrap_err(), "invalid application id");
    assert_eq!(launch_target("a\nb").unwrap_err(), "invalid application id");
}

#[test]
fn start_apps_messages() {
    assert_eq!(start_apps_failure(b"  Access denied \n"), "Get-StartApps failed: Access denied");
    assert_eq!(start_apps_timeout(12000), "Get-StartApps timed out after 12000 ms");
}

#[test]
fn start_apps_failure_replaces_invalid_utf8() {
    assert_eq!(start_apps_failure(b"bad \xff byte"), "Get-StartApps failed: bad \u{FFFD} byte");
    assert_eq!(start_apps_failure(b""), "Get-StartApps failed: ");
}
