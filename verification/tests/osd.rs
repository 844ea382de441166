use fedorawin::osd::{OsdPayload, OsdState};

#[test]
fn rejects_unknown_osd_kinds() {
    assert!(OsdPayload::new("unknown", None, None).is_err());
}

#[test]
fn clamps_osd_levels() {
    let payload = OsdPayload::new("volume", Some(180), None).unwrap();
    assert_eq!(payload.value, Some(100));
}

#[test]
fn initial_url_keeps_controlled_values_compact() {
    let payload = OsdPayload::new("power", None, Some("balanced")).unwrap();
    assert_eq!(
        payload.initial_url(),
        "osd.html?kind=power&value=&detail=balanced"
    );
}

#[test]
fn unknown_osd_kind_error_names_the_kind() {
    let error = OsdPayload::new("toast", Some(3), None).unwrap_err();
    assert_eq!(error, "unsupported OSD kind: toast");
}

#[test]
fn every_known_osd_kind_is_accepted() {
    for kind in ["volume", "brightness", "power", "media"] {
        let payload = OsdPayload::new(kind, Some(42), None).unwrap();
        assert_eq!(payload.kind, kind);
        assert_eq!(payload.value, Some(42));
        assert_eq!(payload.detail, None);
    }
}

#[test]
fn initial_url_writes_the_level_in_decimal() {
    let payload = OsdPayload::new("brightness", Some(7), Some("panel")).unwrap();
    assert_eq!(payload.initial_url(), "osd.html?kind=brightness&value=7&detail=panel");
    let full = OsdPayload::new("volume", Some(255), None).unwrap();
    assert_eq!(full.initial_url(), "osd.html?kind=volume&value=100&detail=");
}

#[test]
fn newer_osd_request_supersedes_the_older_one() {
    let mut state = OsdState::new();
    let first = state.begin();
    assert!(state.is_current(first));
    let second = state.begin();
    assert_eq!(second, first + 1);
    assert!(!state.is_current(first));
    assert!(state.is_current(second));
}
