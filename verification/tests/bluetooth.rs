use fedorawin::windows::bluetooth::target_state;
use fedorawin::windows::bluetooth::{radio_state_name, status, windows_error, BluetoothRadio, RadioState};

#[test]
fn maps_bluetooth_radio_states() {
    assert_eq!(radio_state_name(RadioState::On), "on");
    assert_eq!(radio_state_name(RadioState::Off), "off");
    assert_eq!(radio_state_name(RadioState::Disabled), "disabled");
    assert_eq!(radio_state_name(RadioState::Unknown), "unknown");
}

#[test]
fn bluetooth_status_without_a_radio_is_unavailable() {
    let s = status(&None);
    assert!(!s.supported);
    assert!(!s.enabled);
    assert_eq!(s.state, "unavailable");
}

#[test]
fn bluetooth_status_reports_the_radio() {
    let s = status(&Some(BluetoothRadio { state: RadioState::On, name: Some("  Intel BT ".to_string()) }));
    assert!(s.supported);
    assert!(s.enabled);
    assert_eq!(s.state, "on");
    let off = status(&Some(BluetoothRadio { state: RadioState::Off, name: None }));
    assert!(off.supported);
    assert!(!off.enabled);
    assert_eq!(off.state, "off");
}

#[test]
fn windows_errors_carry_their_context() {
    assert_eq!(windows_error("Radio access", "denied"), "Radio access: denied");
}

#[test]
fn bluetooth_switch_targets() {
    assert_eq!(target_state(true), RadioState::On);
    assert_eq!(target_state(false), RadioState::Off);
}
