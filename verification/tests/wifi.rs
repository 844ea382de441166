use fedorawin::windows::wifi::wlan_error;
use fedorawin::windows::wifi::{
    check_radio_change, interface_name, phy_radio_on, radio_request, ssid_name, status,
    Dot11Ssid, InterfaceReading, WlanPhyRadioState, DOT11_RADIO_STATE_OFF, DOT11_RADIO_STATE_ON,
};

fn connection(ssid: &[u8]) -> Dot11Ssid {
    let mut bytes = [0u8; 32];
    let len = ssid.len().min(bytes.len());
    bytes[..len].copy_from_slice(&ssid[..len]);
    Dot11Ssid {
        length: len as u32,
        bytes,
    }
}

#[test]
fn decodes_connected_ssid() {
    assert_eq!(ssid_name(&connection(b"FedoraNet")), Some("FedoraNet".into()));
}

#[test]
fn empty_ssid_is_not_displayed() {
    assert_eq!(ssid_name(&connection(b"")), None);
}

#[test]
fn ssid_with_invalid_utf8_is_decoded_lossily() {
    assert_eq!(ssid_name(&connection(b"Caf\xe9")), Some("Caf\u{FFFD}".into()));
}

#[test]
fn ssid_is_stripped_of_nuls_and_spaces() {
    assert_eq!(ssid_name(&connection(b"\0 Cafe \0")), Some("Cafe".into()));
    assert_eq!(ssid_name(&connection(b"  ")), None);
    let mut overlong = connection(b"abc");
    overlong.length = 99;
    assert_eq!(ssid_name(&overlong), Some("abc".into()));
}

#[test]
fn interface_name_stops_at_nul() {
    let mut units: Vec<u16> = " Intel Wi-Fi 6 ".encode_utf16().collect();
    units.push(0);
    units.extend("junk".encode_utf16());
    assert_eq!(interface_name(&units), Some("Intel Wi-Fi 6".into()));
    assert_eq!(interface_name(&[0, 65]), None);
}

fn reading(name: Option<&str>, radio_on: Option<bool>, connected: bool, network: Option<&str>) -> InterfaceReading {
    InterfaceReading {
        name: name.map(str::to_string),
        radio_on,
        connected,
        network_name: network.map(str::to_string),
    }
}

#[test]
fn wifi_status_combines_interfaces() {
    let none = status(&vec![]).unwrap();
    assert!(!none.supported);
    let err = status(&vec![reading(Some("A"), None, false, None)]).unwrap_err();
    assert_eq!(err, "Windows did not report a Wi-Fi radio state");
    let s = status(&vec![
        reading(Some("A"), Some(false), false, None),
        reading(Some("B"), Some(true), true, Some("Home")),
    ])
    .unwrap();
    assert!(s.supported);
    assert!(s.enabled);
    assert!(s.connected);
    assert_eq!(s.network_name.as_deref(), Some("Home"));
    assert_eq!(s.interface_name.as_deref(), Some("B"));
}

#[test]
fn radio_state_request_and_reading() {
    let on = radio_request(true);
    assert_eq!(on.software_state, DOT11_RADIO_STATE_ON);
    assert_eq!(on.hardware_state, DOT11_RADIO_STATE_ON);
    assert_eq!(on.phy_index, u32::MAX);
    assert_eq!(radio_request(false).software_state, DOT11_RADIO_STATE_OFF);
    assert!(phy_radio_on(&WlanPhyRadioState { phy_index: 0, software_state: 1, hardware_state: 1 }));
    assert!(!phy_radio_on(&WlanPhyRadioState { phy_index: 0, software_state: 1, hardware_state: 2 }));
    assert!(check_radio_change(1).is_ok());
    assert_eq!(
        check_radio_change(0).unwrap_err(),
        "no Wi-Fi interface accepted the radio-state change"
    );
}

#[test]
fn wlan_errors_carry_the_code() {
    assert_eq!(wlan_error("WlanOpenHandle", 1062), "WlanOpenHandle failed with 1062");
}
