use fedorawin::windows::radio_pause::{
    compose, disable_report, restore_report, wifi_report, RadioAction, RadioKind,
    RadioPauseManager, RadioReport, SavedRadios, SwitchOutcome,
};
use fedorawin::windows::wifi::WifiStatus;

fn report(enabled: Option<bool>) -> RadioReport {
    RadioReport {
        supported: enabled.is_some(),
        enabled,
        error: None,
    }
}

#[test]
fn never_calls_unmanaged_radios_system_airplane_mode() {
    let result = compose(false, report(Some(false)), report(Some(false)));
    assert!(!result.paused);
    assert!(!result.managed);
}

#[test]
fn managed_pause_needs_confirmed_supported_radios_off() {
    assert!(compose(true, report(Some(false)), report(None)).paused);
    assert!(compose(true, report(Some(true)), report(Some(false))).partial);
    assert!(!compose(true, report(None), report(None)).paused);
}

#[test]
fn query_error_makes_managed_result_partial() {
    let mut failed = report(None);
    failed.error = Some("Access denied".into());
    let result = compose(true, report(Some(false)), failed);
    assert!(result.partial);
    assert!(!result.paused);
}

#[test]
fn restoration_journal_keeps_initial_off_state() {
    let mut saved = SavedRadios {
        wifi: Some(true),
        bluetooth: Some(false),
    };
    assert!(!saved.is_empty());
    saved.bluetooth = None;
    assert_eq!(saved.wifi, Some(true));
}

#[test]
fn pause_then_resume_restores_only_what_was_on() {
    let mut manager = RadioPauseManager::new();
    let wifi = report(Some(true));
    let bluetooth = report(Some(false));
    let plan = manager.plan(true, &wifi, &bluetooth);
    assert_eq!(plan.wifi, RadioAction::Disable);
    assert_eq!(plan.bluetooth, RadioAction::Keep);
    let paused = manager.set_paused(
        true,
        wifi,
        Some(SwitchOutcome::Confirmed { supported: true, enabled: false }),
        bluetooth,
        None,
    );
    assert!(paused.managed);
    assert!(paused.paused);
    assert_eq!(paused.wifi.enabled, Some(false));

    let wifi = report(Some(false));
    let bluetooth = report(Some(false));
    let plan = manager.plan(false, &wifi, &bluetooth);
    assert_eq!(plan.wifi, RadioAction::Enable);
    assert_eq!(plan.bluetooth, RadioAction::Keep);
    let resumed = manager.set_paused(
        false,
        wifi,
        Some(SwitchOutcome::Confirmed { supported: true, enabled: true }),
        bluetooth,
        None,
    );
    assert!(!resumed.managed);
    assert_eq!(resumed.wifi.enabled, Some(true));
    assert_eq!(resumed.bluetooth.enabled, Some(false));
}

#[test]
fn resume_without_a_pause_touches_nothing() {
    let manager = RadioPauseManager::new();
    let plan = manager.plan(false, &report(Some(false)), &report(Some(false)));
    assert_eq!(plan.wifi, RadioAction::Keep);
    assert_eq!(plan.bluetooth, RadioAction::Keep);
}

#[test]
fn unconfirmed_switches_are_reported() {
    let r = disable_report(RadioKind::Wifi, SwitchOutcome::Confirmed { supported: true, enabled: true });
    assert_eq!(r.error.as_deref(), Some("Windows did not confirm Wi-Fi was disabled"));
    let r = restore_report(RadioKind::Bluetooth, SwitchOutcome::Confirmed { supported: true, enabled: false });
    assert_eq!(r.error.as_deref(), Some("Windows did not confirm Bluetooth was restored"));
    let r = restore_report(
        RadioKind::Wifi,
        SwitchOutcome::Failed { error: "denied".to_string(), requery: report(Some(false)) },
    );
    assert_eq!(r.error.as_deref(), Some("denied"));
    assert_eq!(r.enabled, Some(false));
}

#[test]
fn wifi_report_of_a_status() {
    let r = wifi_report(Ok(WifiStatus {
        supported: false,
        enabled: true,
        connected: false,
        network_name: None,
        interface_name: None,
    }));
    assert_eq!(r.enabled, None);
    let e = wifi_report(Err("no WLAN".to_string()));
    assert_eq!(e.error.as_deref(), Some("no WLAN"));
    assert!(!e.supported);
}
