use fedorawin::windows::brightness::{
    choose_method, nearest_level, plan_target, provider_result, reported_level, status,
    BrightnessMethodRow, BrightnessRow, BrightnessStatus,
};

#[test]
fn picks_nearest_supported_brightness_level() {
    assert_eq!(nearest_level(&[0, 10, 20, 40, 60, 80, 100], 53), 60);
    assert_eq!(nearest_level(&[10, 30, 50], 42), 50);
}

#[test]
fn keeps_requested_level_when_provider_has_no_step_table() {
    assert_eq!(nearest_level(&[], 67), 67);
}

#[test]
fn nearest_level_prefers_the_first_of_equally_near_levels() {
    assert_eq!(nearest_level(&[40, 60], 50), 40);
    assert_eq!(nearest_level(&[60, 40], 50), 60);
}

fn row(name: &str, active: bool, current: u8, levels: &[u8]) -> BrightnessRow {
    BrightnessRow {
        instance_name: name.to_string(),
        active,
        current_brightness: current,
        level: levels.to_vec(),
    }
}

#[test]
fn status_reads_the_active_monitor() {
    let rows = vec![row("A", false, 10, &[]), row("B", true, 150, &[])];
    assert_eq!(status(&Ok(rows)), BrightnessStatus { supported: true, value: Some(100) });
    let first = vec![row("A", false, 30, &[])];
    assert_eq!(status(&Ok(first)), BrightnessStatus { supported: true, value: Some(30) });
    assert_eq!(status(&Ok(vec![])), BrightnessStatus { supported: false, value: None });
    assert_eq!(status(&Err("no WMI".to_string())), BrightnessStatus { supported: false, value: None });
}

#[test]
fn brightness_request_lands_on_a_supported_level() {
    let rows = vec![row("A", false, 10, &[0, 50]), row("B", true, 10, &[0, 25, 50, 75, 100])];
    assert_eq!(plan_target(&rows, 60).unwrap(), (1, 50));
    assert_eq!(plan_target(&rows, 200).unwrap(), (1, 100));
    assert_eq!(
        plan_target(&vec![], 60).unwrap_err(),
        "Windows reported no brightness-controllable internal display"
    );
}

fn method(path: &str, name: &str, active: bool) -> BrightnessMethodRow {
    BrightnessMethodRow { object_path: path.to_string(), instance_name: name.to_string(), active }
}

#[test]
fn brightness_method_follows_the_monitor() {
    let methods = vec![method("p0", "X", false), method("p1", "Y", true), method("p2", "B", false)];
    assert_eq!(choose_method(&methods, "B").unwrap(), 2);
    assert_eq!(choose_method(&methods, "Q").unwrap(), 1);
    let inactive = vec![method("p0", "X", false), method("p1", "Y", false)];
    assert_eq!(choose_method(&inactive, "Q").unwrap(), 0);
    assert_eq!(
        choose_method(&vec![], "Q").unwrap_err(),
        "Windows brightness control method is unavailable"
    );
}

#[test]
fn brightness_provider_errors() {
    assert!(provider_result(0).is_ok());
    assert_eq!(provider_result(5).unwrap_err(), "Windows brightness provider returned error 5");
    assert_eq!(reported_level(&BrightnessStatus { supported: true, value: Some(40) }).unwrap(), 40);
    assert_eq!(
        reported_level(&BrightnessStatus { supported: true, value: None }).unwrap_err(),
        "brightness changed but Windows did not report the new level"
    );
}
