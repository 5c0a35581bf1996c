use shortlink::cache::ResolutionCache;
use shortlink::schemas::TargetBundle;

fn bundle(tag: &str) -> TargetBundle {
    TargetBundle {
        ios_deep_link: format!("app://{tag}"),
        ios_fallback_url: format!("https://ios.example.com/{tag}"),
        android_deep_link: format!("intent://{tag}"),
        android_fallback_url: format!("https://android.example.com/{tag}"),
        default_fallback_url: format!("https://example.com/{tag}"),
        webhook_url: String::new(),
        head_html: String::new(),
    }
}

#[test]
fn read_strictly_before_expiry_returns_the_stored_bundle() {
    let mut cache = ResolutionCache::new();
    cache.put("abbcd".to_string(), bundle("one"), 1000, 3_600_000);
    let entry = cache.get("abbcd", 3_600_999).expect("fresh entry must be served");
    assert_eq!(entry.data.default_fallback_url, "https://example.com/one");
    assert_eq!(entry.expiry, 3_601_000);
}

#[test]
fn read_at_or_past_expiry_is_treated_as_absent() {
    let mut cache = ResolutionCache::new();
    cache.put("abbcd".to_string(), bundle("one"), 1000, 3_600_000);
    assert!(cache.get("abbcd", 3_601_000).is_none());
    assert!(cache.get("abbcd", 9_999_999).is_none());
}

#[test]
fn missing_key_reads_as_absent() {
    let cache = ResolutionCache::new();
    assert!(cache.get("nothing", 0).is_none());
}

#[test]
fn put_overwrites_the_previous_entry_for_the_key() {
    let mut cache = ResolutionCache::new();
    cache.put("abbcd".to_string(), bundle("one"), 0, 1000);
    cache.put("abbcd".to_string(), bundle("two"), 500, 1000);
    let entry = cache.get("abbcd", 1200).expect("overwritten entry must be fresh again");
    assert_eq!(entry.data.default_fallback_url, "https://example.com/two");
    assert_eq!(entry.expiry, 1500);
}

#[test]
fn entries_for_different_keys_are_independent() {
    let mut cache = ResolutionCache::new();
    cache.put("aaaa".to_string(), bundle("one"), 0, 100);
    cache.put("bbbb".to_string(), bundle("two"), 0, 200);
    assert_eq!(cache.get("aaaa", 50).unwrap().data.ios_deep_link, "app://one");
    assert_eq!(cache.get("bbbb", 150).unwrap().data.ios_deep_link, "app://two");
    assert!(cache.get("aaaa", 150).is_none());
}
