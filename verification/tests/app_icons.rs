use fedorawin::windows::app_icons::{
    bgra_to_rgba, icon_from_pixels, is_fully_transparent, valid_app_id, IconCache, ICON_SIZE,
    MAX_CACHE_ENTRIES,
};

#[test]
fn validates_shell_id_not_path_injection() {
    assert!(valid_app_id("Microsoft.WindowsTerminal_8wekyb3d8bbwe!App"));
    assert!(!valid_app_id("app\0id"));
    assert!(!valid_app_id(""));
    assert!(!valid_app_id(&"a".repeat(321)));
}

#[test]
fn bounds_icon_memory() {
    assert_eq!(ICON_SIZE, 64);
    assert_eq!(MAX_CACHE_ENTRIES, 256);
}

#[test]
fn app_id_length_counts_utf8_bytes() {
    assert!(valid_app_id(&"a".repeat(320)));
    // 160 two-byte characters are 320 bytes; one more is too many.
    assert!(valid_app_id(&"é".repeat(160)));
    assert!(!valid_app_id(&"é".repeat(161)));
    assert!(!valid_app_id("line\nbreak"));
    assert!(!valid_app_id("carriage\rreturn"));
}

#[test]
fn icon_cache_keeps_looked_up_icons() {
    let mut cache = IconCache::new();
    assert_eq!(cache.get("a"), None);
    cache.insert("a", Some("data:x".to_string()));
    cache.insert("b", None);
    assert_eq!(cache.get("a"), Some(Some("data:x".to_string())));
    assert_eq!(cache.get("b"), Some(None));
    cache.insert("a", Some("data:y".to_string()));
    assert_eq!(cache.get("a"), Some(Some("data:y".to_string())));
    assert_eq!(cache.len(), 2);
}

#[test]
fn full_icon_cache_starts_over() {
    let mut cache = IconCache::new();
    for i in 0..MAX_CACHE_ENTRIES {
        cache.insert(&format!("app{i}"), None);
    }
    assert_eq!(cache.len(), MAX_CACHE_ENTRIES);
    cache.insert("newcomer", Some("icon".to_string()));
    assert_eq!(cache.len(), 1);
    assert_eq!(cache.get("app0"), None);
    assert_eq!(cache.get("newcomer"), Some(Some("icon".to_string())));
}

#[test]
fn bgra_pixels_become_rgba() {
    assert_eq!(bgra_to_rgba(&[1, 2, 3, 4, 5, 6, 7, 8, 9]), vec![3, 2, 1, 4, 7, 6, 5, 8]);
    assert!(is_fully_transparent(&[9, 9, 9, 0, 1, 1, 1, 0]));
    assert!(!is_fully_transparent(&[9, 9, 9, 0, 1, 1, 1, 1]));
}

#[test]
fn invisible_icon_gives_no_uri() {
    let pixels = vec![0u8; 64 * 64 * 4];
    assert_eq!(icon_from_pixels(&pixels), None);
}

#[test]
fn visible_icon_becomes_png_data_uri() {
    let mut pixels = vec![0u8; 64 * 64 * 4];
    pixels[0] = 255; // blue
    pixels[3] = 255; // opaque
    let uri = icon_from_pixels(&pixels).unwrap();
    // "iVBORw0KGgo" is the base64 text of the PNG signature.
    assert!(uri.starts_with("data:image/png;base64,iVBORw0KGgo"));
}
