use fedorawin::windows::display::{
    effective_dpi, enumerate_result, monitor_record, primary, same_topology, sort_for_layout,
    topology_signature, DisplaySignature, MonitorRecord, Rect, RectInfo,
};

fn record(id: &str, bounds: RectInfo, dpi: u32, primary: bool) -> MonitorRecord {
    MonitorRecord {
        id: id.to_string(),
        bounds,
        work_area: bounds,
        dpi_x: dpi,
        dpi_y: dpi,
        primary,
    }
}

#[test]
fn keeps_negative_desktop_coordinates() {
    let bounds = RectInfo {
        left: -3440,
        top: -120,
        right: 0,
        bottom: 1320,
    };
    assert_eq!(bounds.width(), 3440);
    assert_eq!(bounds.height(), 1440);
    assert_eq!(bounds.left, -3440);
    assert_eq!(bounds.top, -120);
}

#[test]
fn topology_signature_ignores_our_appbar_work_area() {
    let mut first = record(
        r"\\.\DISPLAY_TEST",
        RectInfo {
            left: 0,
            top: 0,
            right: 1920,
            bottom: 1080,
        },
        96,
        true,
    );
    let mut second = first.clone();
    first.work_area.top = 32;
    second.work_area.top = 64;

    let a = topology_signature(&vec![first]);
    let b = topology_signature(&vec![second]);
    assert!(same_topology(&a, &b));
}

#[test]
fn topology_change_is_noticed() {
    let bounds = RectInfo { left: 0, top: 0, right: 1920, bottom: 1080 };
    let a = topology_signature(&vec![record("A", bounds, 96, true)]);
    let b = topology_signature(&vec![record("A", bounds, 144, true)]);
    assert!(!same_topology(&a, &b));
    assert!(!same_topology(&a, &vec![]));
    let sig = DisplaySignature::from_record(&record("A", bounds, 96, true));
    assert_eq!(sig.id, "A");
}

#[test]
fn monitors_are_laid_out_primary_first_then_by_position() {
    let r = |left: i32, top: i32| RectInfo { left, top, right: left + 100, bottom: top + 100 };
    let displays = vec![
        record("right", r(1920, 0), 96, false),
        record("below", r(0, 1080), 96, false),
        record("main", r(0, 0), 96, true),
        record("left", r(-1920, 0), 96, false),
        record("twin", r(1920, 0), 120, false),
    ];
    let sorted = sort_for_layout(displays);
    let ids: Vec<&str> = sorted.iter().map(|d| d.id.as_str()).collect();
    assert_eq!(ids, vec!["main", "left", "right", "twin", "below"]);
}

#[test]
fn enumeration_errors() {
    assert_eq!(enumerate_result(false, vec![]).unwrap_err(), "EnumDisplayMonitors failed");
    assert_eq!(enumerate_result(true, vec![]).unwrap_err(), "Windows reported no active displays");
    assert_eq!(primary(&vec![]).unwrap_err(), "primary display is unavailable");
}

#[test]
fn primary_display_is_the_flagged_one() {
    let b = RectInfo { left: 0, top: 0, right: 10, bottom: 10 };
    assert_eq!(primary(&vec![record("a", b, 96, false), record("b", b, 96, true)]).unwrap(), 1);
    assert_eq!(primary(&vec![record("a", b, 96, false), record("c", b, 96, false)]).unwrap(), 0);
}

#[test]
fn monitor_record_reads_win32_fields() {
    let mut device = [0u16; 32];
    for (i, unit) in r"\\.\DISPLAY1".encode_utf16().enumerate() {
        device[i] = unit;
    }
    let monitor = Rect { left: -1280, top: 0, right: 0, bottom: 1024 };
    let work = Rect { left: -1280, top: 32, right: 0, bottom: 1024 };
    let m = monitor_record(&device, monitor, work, 1, 0, 144, 144);
    assert_eq!(m.id, r"\\.\DISPLAY1");
    assert_eq!(m.bounds, RectInfo { left: -1280, top: 0, right: 0, bottom: 1024 });
    assert_eq!(m.work_area.top, 32);
    assert_eq!((m.dpi_x, m.dpi_y), (144, 144));
    assert!(m.primary);
    assert_eq!(effective_dpi(1, 144, 144), (96, 96));
    assert_eq!(effective_dpi(0, 0, 144), (96, 96));
}
