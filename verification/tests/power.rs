use fedorawin::windows::power::{
    battery_glyph, configured_mode_result, guid_best_efficiency, guid_best_performance, guid_zero,
    panel_label, set_mode_result, PowerMode, PowerStatus, BATTERY_FLAG_CHARGING,
    BATTERY_FLAG_NO_BATTERY,
};
use fedorawin::windows::virtual_desktop::Guid;

#[test]
fn battery_flags_match_win32_values() {
    assert_eq!(BATTERY_FLAG_CHARGING, 0x08);
    assert_eq!(BATTERY_FLAG_NO_BATTERY, 0x80);
}

#[test]
fn battery_glyph_tracks_charge_level_and_charging_state() {
    assert_eq!(battery_glyph(0, false), '\u{e850}');
    assert_eq!(battery_glyph(100, false), '\u{e83f}');
    assert_eq!(battery_glyph(100, true), '\u{e83e}');
}

#[test]
fn power_modes_match_windows_11_guids() {
    assert_eq!(
        guid_zero(),
        Guid { data1: 0, data2: 0, data3: 0, data4: [0; 8] }
    );
    assert_eq!(PowerMode::BestEfficiency.guid(), guid_best_efficiency());
    assert_eq!(PowerMode::BestPerformance.guid(), guid_best_performance());
}

#[test]
fn power_mode_parser_accepts_ui_values() {
    assert_eq!(PowerMode::parse("bestEfficiency").unwrap(), PowerMode::BestEfficiency);
    assert_eq!(PowerMode::parse("balanced").unwrap(), PowerMode::Balanced);
    assert_eq!(
        PowerMode::parse("bestPerformance").unwrap(),
        PowerMode::BestPerformance
    );
    assert!(PowerMode::parse("turbo").is_err());
}

#[test]
fn power_mode_parser_trims_and_names_the_bad_value() {
    assert_eq!(PowerMode::parse("  Best-Performance ").unwrap(), PowerMode::BestPerformance);
    assert_eq!(PowerMode::parse("EFFICIENCY").unwrap(), PowerMode::BestEfficiency);
    assert_eq!(PowerMode::parse("turbo").unwrap_err(), "unsupported power mode: turbo");
}

#[test]
fn power_mode_guids_read_back() {
    for mode in [PowerMode::BestEfficiency, PowerMode::Balanced, PowerMode::BestPerformance] {
        assert_eq!(PowerMode::from_guid(mode.guid()).unwrap(), mode);
    }
    let other = Guid { data1: 1, data2: 0, data3: 0, data4: [0; 8] };
    assert_eq!(
        PowerMode::from_guid(other).unwrap_err(),
        "Windows returned an unsupported user-configured power mode"
    );
}

#[test]
fn battery_glyph_buckets() {
    assert_eq!(battery_glyph(44, false), '\u{e854}');
    assert_eq!(battery_glyph(45, false), '\u{e855}');
    assert_eq!(battery_glyph(85, true), '\u{e83e}');
    assert_eq!(battery_glyph(84, true), '\u{e862}');
    assert_eq!(battery_glyph(250, false), '\u{e83f}');
}

#[test]
fn power_status_from_raw_fields() {
    let s = PowerStatus::from_raw(1, BATTERY_FLAG_CHARGING, 120);
    assert!(s.battery_present);
    assert_eq!(s.battery_percent, Some(100));
    assert!(s.charging);
    assert!(s.ac_online);
    let none = PowerStatus::from_raw(0, BATTERY_FLAG_NO_BATTERY, 50);
    assert!(!none.battery_present);
    assert_eq!(none.battery_percent, None);
    assert!(!none.charging);
    assert!(!PowerStatus::from_raw(1, 0xff, 50).battery_present);
    assert!(!PowerStatus::from_raw(1, 0, 0xff).battery_present);
}

#[test]
fn panel_label_shows_the_battery_glyph() {
    assert_eq!(panel_label(None), "");
    assert_eq!(panel_label(Some(PowerStatus::from_raw(1, 0x80, 50))), "");
    assert_eq!(panel_label(Some(PowerStatus::from_raw(0, 0, 50))), "\u{e855}");
}

#[test]
fn power_call_errors_name_the_call() {
    assert_eq!(
        configured_mode_result(true, 5, guid_zero()).unwrap_err(),
        "PowerGetUserConfiguredACPowerMode failed with Win32 error 5"
    );
    assert_eq!(configured_mode_result(false, 0, guid_zero()).unwrap(), PowerMode::Balanced);
    assert_eq!(
        set_mode_result(false, 87).unwrap_err(),
        "PowerSetUserConfiguredDCPowerMode failed with Win32 error 87"
    );
    assert!(set_mode_result(true, 0).is_ok());
}
