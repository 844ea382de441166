use fedorawin::windows::handle_map::HandleMap;
use fedorawin::windows::thumbnails::{is_requested, placement_source, requested_sources, ThumbnailManager};

#[test]
fn requested_sources_skip_unreadable_handles() {
    let handles = vec!["10".to_string(), "x".to_string(), "-3".to_string()];
    assert_eq!(requested_sources(&handles), vec![10, -3]);
    assert!(is_requested(&vec![10, -3], -3));
    assert!(!is_requested(&vec![10, -3], 3));
    assert_eq!(placement_source("77"), Ok(77));
    assert_eq!(
        placement_source("seven").unwrap_err(),
        "invalid window handle in thumbnail placement"
    );
}

#[test]
fn handle_map_keeps_and_drops_registrations() {
    let mut map = HandleMap::new();
    map.insert(1, 100);
    map.insert(2, 200);
    map.insert(3, 300);
    assert_eq!(map.len(), 3);
    assert_eq!(map.get(2), Some(200));
    assert_eq!(map.get(4), None);
    let dropped = map.retain(&vec![true, false, true]);
    assert_eq!(dropped, vec![200]);
    assert_eq!(map.get(2), None);
    assert_eq!(map.pairs(), vec![(1, 100), (3, 300)]);
    assert_eq!(map.drain(), vec![100, 300]);
    assert_eq!(map.len(), 0);
}

#[test]
fn clearing_thumbnails_hands_back_every_registration() {
    let mut manager = ThumbnailManager::new();
    manager.thumbnails.insert(5, 55);
    manager.thumbnails.insert(6, 66);
    assert_eq!(manager.clear(), vec![55, 66]);
    assert_eq!(manager.thumbnails.len(), 0);
}
