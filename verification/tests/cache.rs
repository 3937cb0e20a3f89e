use std::collections::hash_map::DefaultHasher;
use std::hash::{Hash, Hasher};

use tachikoma_acl::cache::{TtlLru, CAPACITY, TTL};
use tachikoma_acl::types::VerifyResponse;

const MILLIS: u128 = 1_000_000;

fn answer(user: &str) -> VerifyResponse {
    VerifyResponse {
        valid: true,
        user_id: Some(user.to_string()),
        expires_at: None,
        permissions: vec![],
        read_only: false,
        reason: None,
    }
}

fn user_of(r: Option<VerifyResponse>) -> Option<String> {
    r.and_then(|resp| resp.user_id)
}

#[test]
fn cache_miss_after_ttl_issues_new_call() {
    let mut cache = TtlLru::with_params(8, 30 * MILLIS);
    let key = TtlLru::key("t", Some("c"), Some("s"), "attach");
    let resp = answer("u");
    cache.insert(key, resp.clone(), 0);
    assert!(cache.get(key, 0).is_some(), "fresh entry must hit");

    assert!(
        cache.get(key, 60 * MILLIS).is_none(),
        "entry must be evicted after TTL expiry"
    );
    assert_eq!(cache.len(), 0, "expired entry must be removed from map");
}

#[test]
fn cache_key_discriminates_on_each_field() {
    let base = TtlLru::key("t", Some("c"), Some("s"), "attach");
    assert_ne!(base, TtlLru::key("t2", Some("c"), Some("s"), "attach"));
    assert_ne!(base, TtlLru::key("t", Some("c2"), Some("s"), "attach"));
    assert_ne!(base, TtlLru::key("t", Some("c"), Some("s2"), "attach"));
    assert_ne!(base, TtlLru::key("t", Some("c"), Some("s"), "write"));
    // Same arguments must hash the same way (deterministic).
    assert_eq!(base, TtlLru::key("t", Some("c"), Some("s"), "attach"));
}

#[test]
fn key_tells_missing_from_empty_and_moved_text() {
    assert_ne!(
        TtlLru::key("t", None, Some("s"), "a"),
        TtlLru::key("t", Some(""), Some("s"), "a")
    );
    assert_ne!(
        TtlLru::key("t", Some("x"), None, "a"),
        TtlLru::key("t", None, Some("x"), "a")
    );
    assert_ne!(
        TtlLru::key("ab", None, None, "c"),
        TtlLru::key("a", None, None, "bc")
    );
}

#[test]
fn key_is_the_standard_hash_of_the_fields() {
    if std::mem::size_of::<usize>() != 8 || 1u16.to_ne_bytes()[0] != 1 {
        return;
    }
    let samples: Vec<(&str, Option<&str>, Option<&str>, &str)> = vec![
        ("t", Some("c"), Some("s"), "attach"),
        ("", None, None, ""),
        ("tökén", None, Some("ß"), "still_attached"),
    ];
    for (token, context_path, session_name, action) in samples {
        let mut h = DefaultHasher::new();
        token.hash(&mut h);
        context_path.hash(&mut h);
        session_name.hash(&mut h);
        action.hash(&mut h);
        assert_eq!(
            TtlLru::key(token, context_path, session_name, action),
            h.finish()
        );
    }
}

#[test]
fn entry_lives_through_the_last_moment_of_its_ttl() {
    let mut cache = TtlLru::with_params(2, 10);
    cache.insert(1, answer("a"), 100);
    assert_eq!(user_of(cache.get(1, 110)), Some("a".to_string()));
    assert!(cache.get(1, 111).is_none());
    assert_eq!(cache.len(), 0);
}

#[test]
fn clock_that_steps_back_does_not_expire_an_entry() {
    let mut cache = TtlLru::with_params(2, 10);
    cache.insert(1, answer("a"), 100);
    assert_eq!(user_of(cache.get(1, 50)), Some("a".to_string()));
}

#[test]
fn reading_does_not_renew_the_ttl() {
    let mut cache = TtlLru::with_params(2, 10);
    cache.insert(1, answer("a"), 0);
    assert!(cache.get(1, 9).is_some());
    assert!(cache.get(1, 11).is_none());
}

#[test]
fn storing_again_renews_answer_and_ttl() {
    let mut cache = TtlLru::with_params(2, 10);
    cache.insert(1, answer("a"), 0);
    cache.insert(1, answer("b"), 8);
    assert_eq!(cache.len(), 1);
    assert_eq!(user_of(cache.get(1, 18)), Some("b".to_string()));
}

#[test]
fn full_cache_drops_the_key_used_longest_ago() {
    let mut cache = TtlLru::with_params(2, 1000);
    cache.insert(1, answer("a"), 0);
    cache.insert(2, answer("b"), 1);
    // Reading 1 makes 2 the oldest.
    assert!(cache.get(1, 2).is_some());
    cache.insert(3, answer("c"), 3);
    assert_eq!(cache.len(), 2);
    assert!(cache.get(2, 4).is_none());
    assert_eq!(user_of(cache.get(1, 4)), Some("a".to_string()));
    assert_eq!(user_of(cache.get(3, 4)), Some("c".to_string()));
}

#[test]
fn storing_a_known_key_in_a_full_cache_drops_nothing() {
    let mut cache = TtlLru::with_params(2, 1000);
    cache.insert(1, answer("a"), 0);
    cache.insert(2, answer("b"), 1);
    cache.insert(1, answer("c"), 2);
    assert_eq!(cache.len(), 2);
    assert_eq!(user_of(cache.get(1, 3)), Some("c".to_string()));
    assert_eq!(user_of(cache.get(2, 3)), Some("b".to_string()));
}

#[test]
fn recent_entry_outlasts_fewer_uses_than_the_capacity() {
    let mut cache = TtlLru::with_params(4, 1000);
    for key in 10..20u64 {
        cache.insert(key, answer("old"), 0);
    }
    cache.insert(1, answer("a"), 1);
    cache.insert(2, answer("b"), 2);
    cache.insert(3, answer("c"), 3);
    cache.insert(4, answer("d"), 4);
    assert_eq!(user_of(cache.get(1, 5)), Some("a".to_string()));
}

#[test]
fn capacity_zero_keeps_the_last_answer() {
    let mut cache = TtlLru::with_params(0, 1000);
    cache.insert(1, answer("a"), 0);
    assert_eq!(cache.len(), 1);
    cache.insert(2, answer("b"), 1);
    assert_eq!(cache.len(), 1);
    assert!(cache.get(1, 2).is_none());
    assert_eq!(user_of(cache.get(2, 2)), Some("b".to_string()));
}

#[test]
fn standard_cache_holds_1024_answers_for_three_seconds() {
    assert_eq!(CAPACITY, 1024);
    assert_eq!(TTL, 3_000 * MILLIS);
    let mut cache = TtlLru::default();
    for key in 0..1030u64 {
        cache.insert(key, answer("x"), 0);
    }
    assert_eq!(cache.len(), 1024);
    assert!(cache.get(5, 0).is_none());
    assert!(cache.get(6, TTL).is_some());
    assert!(cache.get(7, TTL + 1).is_none());
}

#[test]
fn clear_forgets_everything() {
    let mut cache = TtlLru::new();
    cache.insert(1, answer("a"), 0);
    cache.clear();
    assert_eq!(cache.len(), 0);
    assert!(cache.get(1, 0).is_none());
}
