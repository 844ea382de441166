use fedorawin::shell::ThemeMode;
use fedorawin::windows::app_icons::{IconCache, IconLookup};
use fedorawin::windows::bluetooth::{
    access_result, change_result, confirmed, require_radio, BluetoothRadio, RadioState,
};
use fedorawin::windows::desktop_presentation::guardian_request as taskbar_guardian_request;
use fedorawin::windows::frame::{
    observed, restore_plan, AttrWrite, FrameJournal, FramePalette, FrameStep, FrameWindowFacts, WS_CAPTION,
};
use fedorawin::windows::frame_recovery::{guardian_request as frame_guardian_request, snapshot_of};
use fedorawin::windows::panel::panel_layout;
use fedorawin::windows::thumbnails::{PlacementStep, ThumbnailManager};
use fedorawin::windows::virtual_desktop::Guid;

fn facts(hwnd: isize, pid: u32) -> FrameWindowFacts {
    FrameWindowFacts {
        hwnd,
        visible: true,
        iconic: false,
        owner: 0,
        ex_style: 0,
        style: WS_CAPTION,
        pid,
        own_pid: 1,
        cloaked: None,
        class_name: "Notepad".to_string(),
        corner: Some(0),
    }
}

fn dark() -> FramePalette {
    fedorawin::windows::frame::palette(&fedorawin::shell::AppearanceState {
        theme: ThemeMode::Dark,
        accent: fedorawin::shell::Accent::Blue,
    })
}

#[test]
fn uncommitted_windows_are_never_styled() {
    let mut journal = FrameJournal::new();
    let f = facts(10, 7);
    assert!(matches!(journal.apply_step(&f, &dark()), FrameStep::Snapshot));
    let entry = observed(7, Some(0), Some(0), Some(5), Some(3), Some(4));
    assert!(!journal.take_snapshot(10, entry, false));
    assert!(matches!(journal.apply_step(&f, &dark()), FrameStep::Snapshot));
    assert!(journal.take_snapshot(10, entry, true));
    match journal.apply_step(&f, &dark()) {
        FrameStep::Style(plan) => {
            assert!(plan.restore.is_empty());
            assert_eq!(plan.style.len(), 5);
            let ok = vec![true, false, true, true, true];
            journal.record(10, &plan.style, &ok);
        }
        _ => panic!("a committed window is styled"),
    }
    let kept = journal.get(10).unwrap();
    assert!(kept.changed_dark && !kept.changed_corner && kept.changed_caption);
}

#[test]
fn ineligible_windows_leave_the_journal() {
    let mut journal = FrameJournal::new();
    let entry = observed(7, Some(0), None, None, None, None);
    assert!(journal.take_snapshot(10, entry, true));
    let mut hidden = facts(10, 7);
    hidden.visible = false;
    match journal.apply_step(&hidden, &dark()) {
        FrameStep::Release(Some(e)) => assert_eq!(e, entry),
        _ => panic!("an ineligible window is released"),
    }
    assert_eq!(journal.get(10), None);
}

#[test]
fn shut_down_journal_stops_every_pass() {
    let mut journal = FrameJournal::new();
    let entry = observed(7, Some(0), None, None, None, None);
    assert!(journal.take_snapshot(10, entry, true));
    assert_eq!(journal.shutdown().len(), 1);
    assert!(matches!(journal.apply_step(&facts(10, 7), &dark()), FrameStep::Stop));
    assert!(!journal.take_snapshot(10, entry, true));
    assert_eq!(journal.len(), 0);
}

#[test]
fn reset_restores_only_windows_of_the_same_process() {
    let mut entry = observed(7, Some(0), Some(0), None, None, None);
    entry.changed_dark = true;
    assert_eq!(restore_plan(&entry, true, 7), vec![AttrWrite::Dark(0)]);
    assert!(restore_plan(&entry, true, 8).is_empty());
    assert!(restore_plan(&entry, false, 7).is_empty());
    let snap = snapshot_of(10, &entry, 99);
    assert_eq!((snap.hwnd, snap.pid, snap.created, snap.dark), (10, 7, 99, Some(0)));
}

#[test]
fn guardian_arguments() {
    assert_eq!(frame_guardian_request(Some("--other"), Some("5")), None);
    assert_eq!(frame_guardian_request(None, None), None);
    assert_eq!(frame_guardian_request(Some("--restore-frames-after"), Some("42")), Some(Some(42)));
    assert_eq!(frame_guardian_request(Some("--restore-frames-after"), Some("x")), Some(None));
    assert_eq!(taskbar_guardian_request(Some("--restore-taskbar-after"), Some("+9"), Some("10,bad,20")), Some((Some(9), vec![10, 20])));
    assert_eq!(taskbar_guardian_request(Some("--restore-taskbar-after"), None, None), Some((None, vec![])));
    assert_eq!(taskbar_guardian_request(Some("--restore-frames-after"), Some("9"), Some("10")), None);
}

#[test]
fn decorated_desktop_ids_read_back() {
    let plain = Guid::parse("01234567-89ab-cdef-0123-456789abcdef").unwrap();
    let decorated = Guid::parse("  {01234567-89AB-CDEF-0123-456789ABCDEF}  ").unwrap();
    assert_eq!(plain.as_string(), decorated.as_string());
}

#[test]
fn icon_lookups_reject_cache_and_remember() {
    let mut cache = IconCache::new();
    assert!(matches!(cache.lookup("bad\nid"), IconLookup::Rejected));
    assert!(matches!(cache.lookup("App!Id"), IconLookup::Extract));
    assert_eq!(cache.remember("App!Id", None), None);
    assert!(matches!(cache.lookup("App!Id"), IconLookup::Cached(None)));
    let mut pixels = vec![0u8; 64 * 64 * 4];
    pixels[3] = 255;
    let uri = cache.remember("Other!App", Some(&pixels)).unwrap();
    assert!(uri.starts_with("data:image/png;base64,iVBORw0KGgo"));
    match cache.lookup("Other!App") {
        IconLookup::Cached(Some(kept)) => assert_eq!(kept, uri),
        _ => panic!("the icon is kept"),
    }
}

#[test]
fn bluetooth_change_checks() {
    assert_eq!(require_radio(Some(3)).unwrap(), 3);
    assert_eq!(require_radio::<u8>(None).unwrap_err(), "Windows reported no Bluetooth radio");
    assert!(access_result(1).is_ok());
    assert_eq!(access_result(2).unwrap_err(), "Windows denied Bluetooth radio control: RadioAccessStatus(2)");
    assert_eq!(change_result(-1).unwrap_err(), "Windows rejected Bluetooth state change: RadioAccessStatus(-1)");
    let on = BluetoothRadio { state: RadioState::On, name: None };
    assert!(confirmed(&on, true));
    assert!(!confirmed(&on, false));
}

#[test]
fn thumbnail_sync_steps() {
    let mut manager = ThumbnailManager::new();
    assert!(matches!(manager.placement_step(0, true), PlacementStep::Skip));
    assert!(matches!(manager.placement_step(5, false), PlacementStep::Skip));
    assert!(matches!(manager.placement_step(5, true), PlacementStep::Register));
    assert_eq!(manager.register(5, 1, 77), None);
    assert_eq!(manager.register(5, 0, 0), None);
    assert_eq!(manager.register(5, 0, 77), Some(77));
    assert_eq!(manager.register(6, 0, 88), Some(88));
    assert!(matches!(manager.placement_step(5, true), PlacementStep::Show(77)));
    let dropped = manager.prune(&vec![5, 6], &vec![true, false]);
    assert_eq!(dropped, vec![88]);
    assert_eq!(manager.thumbnails.get(5), Some(77));
    assert_eq!(manager.thumbnails.get(6), None);
}

#[test]
fn tall_panels_still_lay_out() {
    let l = panel_layout(1920, 0x0300_0000);
    assert_eq!(l.clock.bottom, 0x0300_0000);
    assert_eq!(l.pill.left, 0x0300_0000 * 12 / 32);
}

#[test]
fn reset_plans_restores_and_shuts_the_journal() {
    let mut journal = FrameJournal::new();
    let mut first = observed(7, Some(0), Some(0), None, None, None);
    first.changed_dark = true;
    first.changed_corner = true;
    let mut second = observed(8, Some(1), None, None, None, None);
    second.changed_dark = true;
    assert!(journal.take_snapshot(10, first, true));
    assert!(journal.take_snapshot(20, second, true));
    let plan = journal.reset_top_level_windows(&vec![(true, 7), (true, 9)]);
    assert_eq!(plan, vec![(10, vec![AttrWrite::Dark(0), AttrWrite::Corner(0)]), (20, vec![])]);
    assert!(!journal.is_enabled());
    assert_eq!(journal.len(), 0);
    assert!(matches!(journal.apply_step(&facts(10, 7), &dark()), FrameStep::Stop));
}
