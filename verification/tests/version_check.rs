use mdreader::version_check::{
    accept_latest_version, background_check_due, is_fresh, is_newer, upgrade_notice, VersionCheckCache, CACHE_STALE_SECS,
};

const NOW: u64 = 1_700_000_000;

#[test]
fn version_comparison_detects_newer() {
    assert!(is_newer("1.34.50", "1.34.33"));
    assert!(is_newer("2.0.0", "1.99.9"));
    assert!(!is_newer("1.34.33", "1.34.33"));
    assert!(!is_newer("1.0.0", "1.34.33"));
}

#[test]
fn version_comparison_handles_malformed_input() {
    assert!(!is_newer("not-a-version", "1.0.0"));
    assert!(!is_newer("1.0.0", "not-a-version"));
    assert!(!is_newer("", "1.0.0"));
}

#[test]
fn print_skipped_when_cache_missing() {
    assert!(is_newer("99.99.99", "1.0.0"), "is_newer should return true for obviously newer version");
    assert!(upgrade_notice("1.0.0", true, None, NOW).is_none());
}

#[test]
fn print_skipped_when_check_disabled() {
    let cache = VersionCheckCache { checked_at: NOW, latest_version: "99.99.99".into() };
    assert!(upgrade_notice("1.0.0", false, Some(&cache), NOW).is_none());
}

#[test]
fn print_skipped_when_versions_equal() {
    assert!(!is_newer("1.34.33", "1.34.33"));
    let cache = VersionCheckCache { checked_at: NOW, latest_version: "1.34.33".into() };
    assert!(upgrade_notice("1.34.33", true, Some(&cache), NOW).is_none());
}

#[test]
fn print_skipped_when_cached_is_older() {
    assert!(!is_newer("1.0.0", "1.34.33"));
}

#[test]
fn print_skipped_when_cache_stale() {
    let stale_ts = NOW.saturating_sub(CACHE_STALE_SECS + 3600);
    let cache = VersionCheckCache { checked_at: stale_ts, latest_version: "99.99.99".into() };
    assert!(!is_fresh(NOW, cache.checked_at), "test cache should be considered stale");
    assert!(is_newer(&cache.latest_version, "1.0.0"));
    assert!(upgrade_notice("1.0.0", true, Some(&cache), NOW).is_none());
}

#[test]
fn print_message_when_cached_is_newer() {
    let fresh_cache = VersionCheckCache { checked_at: NOW, latest_version: "99.99.99".into() };
    assert!(is_fresh(NOW, fresh_cache.checked_at), "fresh cache should not be stale");
    assert!(is_newer(&fresh_cache.latest_version, "1.34.33"));
    let notice = upgrade_notice("1.34.33", true, Some(&fresh_cache), NOW).expect("banner");
    let bar = "\u{2500}".repeat(55);
    assert_eq!(
        notice,
        format!(
            "\n{bar}\n markdown-tui-explorer 1.34.33 \u{2192} 99.99.99 available\n\n Upgrade with:\n   cargo install markdown-tui-explorer\n Or download a pre-built binary:\n   https://github.com/leboiko/markdown-reader/releases/latest\n{bar}"
        )
    );
}

#[test]
fn background_check_due_only_without_fresh_cache() {
    let fresh = VersionCheckCache { checked_at: NOW - 10, latest_version: "1.0.0".into() };
    let stale = VersionCheckCache { checked_at: NOW - CACHE_STALE_SECS, latest_version: "1.0.0".into() };
    assert!(!background_check_due(false, None, NOW));
    assert!(background_check_due(true, None, NOW));
    assert!(!background_check_due(true, Some(&fresh), NOW));
    assert!(background_check_due(true, Some(&stale), NOW));
    // A clock that went backwards counts as no time passed.
    let future = VersionCheckCache { checked_at: NOW + 100, latest_version: "1.0.0".into() };
    assert!(!background_check_due(true, Some(&future), NOW));
}

#[test]
fn empty_registry_version_is_rejected() {
    assert_eq!(accept_latest_version(String::new()), None);
    assert_eq!(accept_latest_version("1.2.3".to_string()), Some("1.2.3".to_string()));
}

#[test]
fn prerelease_orders_below_release() {
    assert!(is_newer("1.0.0", "1.0.0-alpha"));
    assert!(!is_newer("1.0.0-alpha", "1.0.0"));
}
