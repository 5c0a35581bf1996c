use shortlink::store::LinkRecord;
use shortlink::store::LinkStore;

fn record(hash: &str, guard: &str, email: &str) -> LinkRecord {
    LinkRecord {
        id: 0,
        guard: guard.to_string(),
        email: email.to_string(),
        ios_deep_link: "app://x".to_string(),
        ios_fallback_url: "https://ios.example.com".to_string(),
        android_deep_link: "intent://x".to_string(),
        android_fallback_url: "https://android.example.com".to_string(),
        default_fallback_url: "https://example.com".to_string(),
        content_hash: hash.to_string(),
        webhook_url: String::new(),
        head_html: String::new(),
        verified: false,
        deleted: false,
    }
}

#[test]
fn insert_assigns_increasing_ids_from_one() {
    let mut store = LinkStore::new();
    assert_eq!(store.insert(record("h1", "aaaa", "a@x")), 1);
    assert_eq!(store.insert(record("h2", "bbbb", "b@x")), 2);
    assert_eq!(store.insert(record("h3", "cccc", "c@x")), 3);
}

#[test]
fn find_by_hash_returns_the_first_live_match() {
    let mut store = LinkStore::new();
    store.insert(record("h1", "aaaa", "first@x"));
    store.insert(record("h2", "bbbb", "other@x"));
    store.insert(record("h1", "cccc", "second@x"));
    let found = store.find_by_hash("h1").expect("a live record with the hash exists");
    assert_eq!(found.id, 1);
    assert_eq!(found.email, "first@x");
    assert!(store.find_by_hash("missing").is_none());
}

#[test]
fn unverified_or_unknown_records_do_not_resolve() {
    let mut store = LinkStore::new();
    let id = store.insert(record("h1", "aaaa", "a@x"));
    assert!(store.find_resolvable(id).is_none());
    assert!(store.find_resolvable(0).is_none());
    assert!(store.find_resolvable(99).is_none());
    assert!(store.find_resolvable(-1).is_none());
}

#[test]
fn set_verified_needs_the_exact_stored_guard() {
    let mut store = LinkStore::new();
    let id = store.insert(record("h1", "aaaa", "a@x"));
    assert!(!store.set_verified(id, "zzzz"));
    assert!(store.find_resolvable(id).is_none());
    assert!(store.set_verified(id, "aaaa"));
    let rec = store.find_resolvable(id).expect("verified record must resolve");
    assert_eq!(rec.guard, "aaaa");
    assert!(rec.verified);
}
