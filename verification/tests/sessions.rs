use tachikoma_acl::acl_revalidator::{AclRevalidator, Verdict};
use tachikoma_acl::acl_session_store::{AclSessionInfo, AclSessionStore};
use tachikoma_acl::types::{AclError, VerifyResponse};

const SEC: u128 = 1_000_000_000;

fn info(user_token: &str, last_verified_at: u128) -> AclSessionInfo {
    AclSessionInfo {
        user_token: user_token.to_string(),
        context_path: Some("monorepo".to_string()),
        session_name: None,
        user_id: Some("ubuntu".to_string()),
        last_verified_at,
        revoked: false,
        revoke_reason: None,
    }
}

fn answer(valid: bool, reason: Option<&str>) -> Result<VerifyResponse, AclError> {
    Ok(VerifyResponse {
        valid,
        user_id: None,
        expires_at: None,
        permissions: vec![],
        read_only: false,
        reason: reason.map(|r| r.to_string()),
    })
}

fn entry(store: &AclSessionStore, hash: &str) -> Option<AclSessionInfo> {
    store
        .snapshot()
        .into_iter()
        .find(|(h, _)| h == hash)
        .map(|(_, i)| i)
}

#[test]
fn placeholder() {
    // ensures the module compiles in test mode
}

#[test]
fn untracked_session_is_not_revoked() {
    let store = AclSessionStore::new();
    assert!(!store.is_revoked("nobody"));
    assert!(store.snapshot().is_empty());
}

#[test]
fn revoked_session_stays_on_record() {
    let mut store = AclSessionStore::new();
    store.register("h1".to_string(), info("t1", 5));
    store.register("h2".to_string(), info("t2", 6));
    assert!(!store.is_revoked("h1"));
    let event = store.mark_revoked("h1", "gone".to_string());
    assert_eq!(event.session_token_hash, "h1");
    assert_eq!(event.reason, "gone");
    assert!(store.is_revoked("h1"));
    assert!(!store.is_revoked("h2"));
    let kept = entry(&store, "h1").expect("still tracked");
    assert_eq!(kept.revoke_reason.as_deref(), Some("gone"));
    assert_eq!(kept.user_token, "t1");
    assert_eq!(kept.last_verified_at, 5);
}

#[test]
fn revoking_an_untracked_session_still_announces_it() {
    let mut store = AclSessionStore::new();
    let event = store.mark_revoked("ghost", "why".to_string());
    assert_eq!(event.session_token_hash, "ghost");
    assert_eq!(event.clone().reason, "why");
    assert!(!store.is_revoked("ghost"));
    assert!(store.snapshot().is_empty());
}

#[test]
fn touching_renews_the_moment_only() {
    let mut store = AclSessionStore::new();
    store.register("h".to_string(), info("t", 1));
    store.mark_revoked("h", "r".to_string());
    store.touch("h", 9);
    store.touch("other", 9);
    let i = entry(&store, "h").unwrap();
    assert_eq!(i.last_verified_at, 9);
    assert!(i.revoked);
    assert_eq!(store.snapshot().len(), 1);
}

#[test]
fn registering_again_replaces() {
    let mut store = AclSessionStore::new();
    store.register("h".to_string(), info("old", 1));
    store.mark_revoked("h", "r".to_string());
    store.register("h".to_string(), info("new", 2));
    assert!(!store.is_revoked("h"));
    assert_eq!(store.snapshot().len(), 1);
    assert_eq!(entry(&store, "h").unwrap().user_token, "new");
}

#[test]
fn removed_session_is_forgotten() {
    let mut store = AclSessionStore::new();
    store.register("a".to_string(), info("ta", 1));
    store.register("b".to_string(), info("tb", 1));
    store.register("c".to_string(), info("tc", 1));
    store.mark_revoked("b", "r".to_string());
    store.remove("b");
    store.remove("nobody");
    assert!(!store.is_revoked("b"));
    assert!(entry(&store, "b").is_none());
    assert!(entry(&store, "a").is_some() && entry(&store, "c").is_some());
}

#[test]
fn intervals_are_one_second_at_least() {
    let r = AclRevalidator::new(0, 0);
    assert_eq!((r.poll_interval_secs(), r.grace_secs()), (1, 1));
    let r = AclRevalidator::new(10, 30);
    assert_eq!((r.poll_interval_secs(), r.grace_secs()), (10, 30));
}

#[test]
fn revoked_sessions_are_not_polled() {
    let mut store = AclSessionStore::new();
    store.register("a".to_string(), info("ta", 1));
    store.register("b".to_string(), info("tb", 1));
    store.register("c".to_string(), info("tc", 1));
    store.mark_revoked("b", "r".to_string());
    let pending = AclRevalidator::new(10, 30).pending(&store);
    let hashes: Vec<&str> = pending.iter().map(|(h, _)| h.as_str()).collect();
    assert_eq!(hashes.len(), 2);
    assert!(hashes.contains(&"a") && hashes.contains(&"c"));
}

#[test]
fn question_asks_for_a_running_session() {
    let i = info("tok", 0);
    let q = AclRevalidator::new(10, 30).question(&i);
    assert_eq!(q.token, "tok");
    assert_eq!(q.context_path, Some("monorepo"));
    assert_eq!(q.session_name, None);
    assert_eq!(q.action, "still_attached");
    assert!(!q.force_non_admin);
}

#[test]
fn valid_answer_renews() {
    let mut store = AclSessionStore::new();
    store.register("h".to_string(), info("t", 0));
    let i = info("t", 0);
    let r = AclRevalidator::new(10, 30);
    let event = r.settle(&mut store, "h", &i, &answer(true, None), 77 * SEC);
    assert!(event.is_none());
    assert_eq!(entry(&store, "h").unwrap().last_verified_at, 77 * SEC);
    assert!(!store.is_revoked("h"));
}

#[test]
fn denied_answer_revokes_with_its_reason() {
    let mut store = AclSessionStore::new();
    store.register("h".to_string(), info("t", 0));
    store.register("k".to_string(), info("u", 0));
    let r = AclRevalidator::new(10, 30);
    let i = info("t", 0);
    let event = r
        .settle(&mut store, "h", &i, &answer(false, Some("banned")), 0)
        .expect("a revocation is announced");
    assert_eq!(event.session_token_hash, "h");
    assert_eq!(event.reason, "banned");
    let event = r
        .settle(&mut store, "k", &i, &answer(false, None), 0)
        .expect("a revocation is announced");
    assert_eq!(event.reason, "acl_denied");
    assert!(store.is_revoked("h") && store.is_revoked("k"));
}

#[test]
fn outage_revokes_only_past_the_grace_period() {
    let mut store = AclSessionStore::new();
    store.register("h".to_string(), info("t", 100 * SEC));
    let r = AclRevalidator::new(10, 30);
    let i = info("t", 100 * SEC);
    let down: Result<VerifyResponse, AclError> = Err(AclError::Server(502));
    assert!(r.settle(&mut store, "h", &i, &down, 130 * SEC).is_none());
    assert!(r.settle(&mut store, "h", &i, &down, 0).is_none());
    assert!(!store.is_revoked("h"));
    let event = r
        .settle(&mut store, "h", &i, &down, 130 * SEC + 1)
        .expect("past grace");
    assert_eq!(
        event.reason,
        "tachikoma_unreachable: server returned status 502"
    );
    assert!(store.is_revoked("h"));
}

#[test]
fn longest_grace_period_does_not_overflow() {
    let r = AclRevalidator::new(1, u64::MAX);
    let i = info("t", 0);
    let down: Result<VerifyResponse, AclError> = Err(AclError::Network("x".to_string()));
    assert!(matches!(
        r.verdict(&i, &down, u64::MAX as u128 * SEC),
        Verdict::Keep
    ));
    assert!(matches!(
        r.verdict(&i, &down, u64::MAX as u128 * SEC + 1),
        Verdict::Revoke(_)
    ));
}

#[test]
fn tick_settles_each_session_by_itself() {
    let mut store = AclSessionStore::new();
    store.register("a".to_string(), info("ta", 0));
    store.register("b".to_string(), info("tb", 0));
    store.register("c".to_string(), info("tc", 0));
    let r = AclRevalidator::new(10, 30);
    let mut events = Vec::new();
    for (hash, i) in r.pending(&store) {
        let outcome = match hash.as_str() {
            "a" => answer(true, None),
            "b" => answer(false, None),
            _ => Err(AclError::Decode("junk".to_string())),
        };
        if let Some(e) = r.settle(&mut store, &hash, &i, &outcome, 5 * SEC) {
            events.push(e.session_token_hash);
        }
    }
    assert_eq!(events, vec!["b".to_string()]);
    assert_eq!(entry(&store, "a").unwrap().last_verified_at, 5 * SEC);
    assert!(store.is_revoked("b"));
    assert_eq!(entry(&store, "c").unwrap().last_verified_at, 0);
    assert_eq!(r.pending(&store).len(), 2);
}
