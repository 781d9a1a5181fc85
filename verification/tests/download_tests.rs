use blitz_l10n::download::{cache_action, download_etag, download_total, etag_from_header, CacheAction};

#[test]
fn cache_choices() {
    assert!(matches!(cache_action(true, "abc", " abc\n", None), CacheAction::ExtractCached));
    assert!(matches!(cache_action(true, "", "", None), CacheAction::Download));
    assert!(matches!(cache_action(false, "abc", "abc", Some("abc")), CacheAction::KeepInstalled { extract_cached: false }));
    assert!(matches!(cache_action(true, "abc", "old", Some("abc")), CacheAction::KeepInstalled { extract_cached: true }));
    assert!(matches!(cache_action(true, "abc", "old", Some("")), CacheAction::Download));
    assert!(matches!(cache_action(false, "abc", "abc", Some("xyz")), CacheAction::Download));
    assert!(matches!(cache_action(false, "abc", "abc", None), CacheAction::Download));
}

#[test]
fn etags_and_totals() {
    assert_eq!(etag_from_header(Some("\"5d41\"")), "5d41");
    assert_eq!(etag_from_header(Some("W/\"5d41\"")), "W/\"5d41");
    assert_eq!(etag_from_header(Some("\"\"")), "");
    assert_eq!(etag_from_header(None), "");
    assert_eq!(download_etag("head", Some("\"get\"")), "head");
    assert_eq!(download_etag("", Some("\"get\"")), "get");
    assert_eq!(download_etag("", None), "");
    assert_eq!(download_total(10, Some(20)), 10);
    assert_eq!(download_total(0, Some(20)), 20);
    assert_eq!(download_total(0, None), 0);
}
