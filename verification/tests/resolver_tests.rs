use shortlink::generator::generate_random_string;
use shortlink::codec::key_to_id;
use shortlink::resolver::content_hash;
use shortlink::resolver::CoreError;
use shortlink::resolver::Resolver;
use shortlink::schemas::CreateUrlRequest;

fn request() -> CreateUrlRequest {
    CreateUrlRequest {
        email: "lee@lou2.kr".to_string(),
        ios_deep_link: "app://event/42".to_string(),
        ios_fallback_url: "https://ios.example.com/get".to_string(),
        android_deep_link: "intent://event/42".to_string(),
        android_fallback_url: "https://android.example.com/get".to_string(),
        default_fallback_url: "https://example.com/event/42".to_string(),
        webhook_url: String::new(),
        head_html: "<title>42</title>".to_string(),
    }
}

#[test]
fn create_verify_resolve_round_trip() {
    let mut core = Resolver::new();
    let outcome = core
        .create(&request(), "abcd".to_string(), "code0001".to_string(), 0)
        .expect("a valid request is admitted");
    assert!(outcome.is_created);
    assert_eq!(outcome.short_key, "abbcd");
    assert_eq!(outcome.email, "lee@lou2.kr");
    assert_eq!(outcome.code, "code0001");
    assert!(!outcome.fetch_metadata);

    let verified = core.verify("code0001", 200_000).expect("code consumed in time");
    assert_eq!(verified, "abbcd");

    let resolved = core.resolve("abbcd", 300_000).expect("verified key resolves");
    assert!(!resolved.from_cache);
    assert!(!resolved.notify);
    assert_eq!(resolved.bundle.ios_deep_link, "app://event/42");
    assert_eq!(resolved.bundle.ios_fallback_url, "https://ios.example.com/get");
    assert_eq!(resolved.bundle.android_deep_link, "intent://event/42");
    assert_eq!(resolved.bundle.android_fallback_url, "https://android.example.com/get");
    assert_eq!(resolved.bundle.default_fallback_url, "https://example.com/event/42");
    assert_eq!(resolved.bundle.head_html, "<title>42</title>");
}

#[test]
fn a_tampered_guard_reads_like_a_missing_record() {
    let mut core = Resolver::new();
    core.create(&request(), "abcd".to_string(), "code0001".to_string(), 0).unwrap();
    core.verify("code0001", 1).unwrap();
    assert!(core.resolve("abbcd", 2).is_ok());
    assert!(matches!(core.resolve("zbbcd", 2), Err(CoreError::NotFound)));
    assert!(matches!(core.resolve("abbcz", 2), Err(CoreError::NotFound)));
    assert!(matches!(core.resolve("abZcd", 2), Err(CoreError::NotFound)));
    assert!(matches!(core.resolve("xyz", 2), Err(CoreError::NotFound)));
}

#[test]
fn an_unverified_record_does_not_resolve() {
    let mut core = Resolver::new();
    let outcome = core
        .create(&request(), "abcd".to_string(), "code0001".to_string(), 0)
        .unwrap();
    assert!(matches!(core.resolve(&outcome.short_key, 1), Err(CoreError::NotFound)));
}

#[test]
fn cache_serves_before_ttl_and_refreshes_after() {
    let mut core = Resolver::new();
    core.create(&request(), "abcd".to_string(), "code0001".to_string(), 0).unwrap();
    core.verify("code0001", 1).unwrap();

    let miss = core.resolve("abbcd", 10).unwrap();
    assert!(!miss.from_cache);
    let hit = core.resolve("abbcd", 10 + 3_599_999).unwrap();
    assert!(hit.from_cache);
    assert_eq!(hit.bundle.default_fallback_url, miss.bundle.default_fallback_url);

    let refreshed = core.resolve("abbcd", 10 + 3_600_000).unwrap();
    assert!(!refreshed.from_cache);
    assert_eq!(refreshed.bundle.default_fallback_url, miss.bundle.default_fallback_url);
    let hit_again = core.resolve("abbcd", 10 + 3_600_001).unwrap();
    assert!(hit_again.from_cache);
}

#[test]
fn duplicate_targets_reuse_the_short_key_until_verified() {
    let mut core = Resolver::new();
    let first = core
        .create(&request(), "abcd".to_string(), "code0001".to_string(), 0)
        .unwrap();
    assert!(first.is_created);

    let mut other_requester = request();
    other_requester.email = "someone@else.example".to_string();
    other_requester.webhook_url = "https://hooks.example.com/x".to_string();
    let second = core
        .create(&other_requester, "wxyz".to_string(), "code0002".to_string(), 50)
        .unwrap();
    assert!(!second.is_created);
    assert_eq!(second.short_key, first.short_key);
    assert_eq!(second.email, "lee@lou2.kr");
    assert_eq!(second.code, "code0002");
    assert!(!second.fetch_metadata);

    let verified = core.verify("code0002", 60).expect("the fresh code verifies");
    assert_eq!(verified, first.short_key);

    let third = core.create(&request(), "mnop".to_string(), "code0003".to_string(), 70);
    assert!(matches!(third, Err(CoreError::Conflict)));
}

#[test]
fn an_expired_code_leaves_the_record_unverified() {
    let mut core = Resolver::new();
    let outcome = core
        .create(&request(), "abcd".to_string(), "code0001".to_string(), 1000)
        .unwrap();
    assert!(matches!(core.verify("code0001", 1000 + 300_000), Err(CoreError::NotFound)));
    assert!(matches!(core.resolve(&outcome.short_key, 1_000_000), Err(CoreError::NotFound)));
}

#[test]
fn verifying_an_unknown_code_is_refused() {
    let mut core = Resolver::new();
    core.create(&request(), "abcd".to_string(), "code0001".to_string(), 0).unwrap();
    assert!(matches!(core.verify("code9999", 1), Err(CoreError::NotFound)));
}

#[test]
fn a_webhook_url_asks_for_a_notification() {
    let mut core = Resolver::new();
    let mut req = request();
    req.webhook_url = "https://hooks.example.com/ping".to_string();
    let outcome = core.create(&req, "abcd".to_string(), "code0001".to_string(), 0).unwrap();
    core.verify("code0001", 1).unwrap();
    let resolved = core.resolve(&outcome.short_key, 2).unwrap();
    assert!(resolved.notify);
    assert_eq!(resolved.bundle.webhook_url, "https://hooks.example.com/ping");
    let cached = core.resolve(&outcome.short_key, 3).unwrap();
    assert!(cached.from_cache);
    assert!(cached.notify);
}

#[test]
fn metadata_fetch_is_asked_only_without_head_markup() {
    let mut core = Resolver::new();
    let mut req = request();
    req.head_html = String::new();
    let outcome = core.create(&req, "abcd".to_string(), "code0001".to_string(), 0).unwrap();
    assert!(outcome.fetch_metadata);

    let with_markup = core
        .create(&request(), "wxyz".to_string(), "code0002".to_string(), 0)
        .unwrap();
    assert!(!with_markup.fetch_metadata);
}

#[test]
fn fetched_head_markup_lands_on_the_record() {
    let mut core = Resolver::new();
    let mut req = request();
    req.head_html = String::new();
    let outcome = core.create(&req, "abcd".to_string(), "code0001".to_string(), 0).unwrap();
    assert!(outcome.fetch_metadata);
    assert!(core.set_head_markup(outcome.id, "<meta name=\"x\">".to_string()));
    assert!(!core.set_head_markup(99, "ignored".to_string()));
    core.verify("code0001", 1).unwrap();
    let resolved = core.resolve(&outcome.short_key, 2).unwrap();
    assert_eq!(resolved.bundle.head_html, "<meta name=\"x\">");
}

#[test]
fn invalid_fields_are_refused_with_their_message() {
    let mut core = Resolver::new();
    let mut req = request();
    req.email = String::new();
    match core.create(&req, "abcd".to_string(), "code0001".to_string(), 0) {
        Err(CoreError::Validation(m)) => assert_eq!(m, "이메일이 없습니다."),
        _ => panic!("a missing email must be refused"),
    }
    let mut req = request();
    req.default_fallback_url = "not a url".to_string();
    match core.create(&req, "abcd".to_string(), "code0001".to_string(), 0) {
        Err(CoreError::Validation(m)) => assert_eq!(m, "URL 형태가 올바르지 않습니다."),
        _ => panic!("a malformed URL must be refused"),
    }
}

#[test]
fn content_hash_is_the_digest_of_the_five_targets() {
    let mut req = request();
    req.ios_deep_link = "abc".to_string();
    req.ios_fallback_url = String::new();
    req.android_deep_link = String::new();
    req.android_fallback_url = String::new();
    req.default_fallback_url = String::new();
    assert_eq!(
        content_hash(&req),
        "ba7816bf8f01cfea414140de5dae2223b00361a396177a9cb410ff61f20015ad"
    );
}

#[test]
fn content_hash_ignores_email_webhook_and_markup() {
    let mut a = request();
    let mut b = request();
    b.email = "other@x".to_string();
    b.webhook_url = "https://hooks.example.com".to_string();
    b.head_html = String::new();
    assert_eq!(content_hash(&a), content_hash(&b));
    a.ios_deep_link = "app://different".to_string();
    assert_ne!(content_hash(&a), content_hash(&b));
}

#[test]
fn random_strings_stay_on_the_alphabet() {
    for len in [0usize, 4, 8, 32] {
        let s = generate_random_string(len);
        assert_eq!(s.chars().count(), len);
        assert!(s.chars().all(|c| c.is_ascii_alphanumeric()));
    }
    // Short draws stay decodable as ids.
    assert!(key_to_id(&generate_random_string(4)).is_ok());
    assert!(key_to_id(&generate_random_string(8)).is_ok());
}
