use tachikoma_acl::login::{
    cookie_header, has_session_cookie, login_handler, login_session_created, login_verified, LoginOutcome, LoginPolicy,
    LoginRequest, LoginStep, NewSession,
};
use tachikoma_acl::types::{AclError, VerifyResponse};

fn policy(acl_required: bool, has_acl_client: bool) -> LoginPolicy {
    LoginPolicy {
        acl_required,
        has_acl_client,
        has_session_store: true,
        is_https: true,
    }
}

fn request(user_token: Option<&str>) -> LoginRequest {
    LoginRequest {
        auth_token: "auth".to_string(),
        remember_me: None,
        user_token: user_token.map(|t| t.to_string()),
        context_path: Some("ctx".to_string()),
        session_name: Some("dev".to_string()),
        admin_as_user: true,
    }
}

fn response(valid: bool, reason: Option<&str>) -> VerifyResponse {
    VerifyResponse {
        valid,
        user_id: Some("ubuntu".to_string()),
        expires_at: None,
        permissions: vec![],
        read_only: false,
        reason: reason.map(|r| r.to_string()),
    }
}

/// A whole login, with the given answers of the outside. `session` tells whether
/// the auth token is accepted; a verified user without one always gets a session.
fn login(
    policy: LoginPolicy,
    req: &LoginRequest,
    outcome: Result<VerifyResponse, AclError>,
    session: bool,
) -> LoginOutcome {
    let step = match login_handler(policy, req) {
        LoginStep::Verify(_) => login_verified(policy, req, outcome),
        other => other,
    };
    match step {
        LoginStep::Reply(reply) => LoginOutcome {
            reply,
            register: None,
        },
        LoginStep::CreateVerifiedSession { user, .. } => {
            let issued = NewSession {
                session_token: "v3r1f13d".to_string(),
                session_token_hash: "ef01".to_string(),
            };
            login_session_created(policy, req, Some(user), Some(issued), 42)
        }
        LoginStep::CreateSession { user, .. } => {
            let issued = if session {
                Some(NewSession {
                    session_token: "s3cr3t".to_string(),
                    session_token_hash: "abcd".to_string(),
                })
            } else {
                None
            };
            login_session_created(policy, req, user, issued, 42)
        }
        LoginStep::Verify(_) => panic!("a token is verified once"),
    }
}

#[test]
fn enforced_login_without_user_token_is_refused_first() {
    let end = login(
        policy(true, true),
        &request(None),
        Ok(response(true, None)),
        true,
    );
    assert_eq!(end.reply.status, 401);
    assert!(!end.reply.body.success);
    assert_eq!(
        end.reply.body.message,
        "user_token required when ACL is enforced"
    );
    assert!(end.reply.set_cookie.is_none() && end.register.is_none());
}

#[test]
fn user_token_is_verified_for_attach() {
    let req = request(Some("ut"));
    match login_handler(policy(false, true), &req) {
        LoginStep::Verify(q) => {
            assert_eq!(q.token, "ut");
            assert_eq!(q.context_path, Some("ctx"));
            assert_eq!(q.session_name, Some("dev"));
            assert_eq!(q.action, "attach");
            assert!(q.force_non_admin);
        }
        other => panic!("expected a verification, got {other:?}"),
    }
}

#[test]
fn verified_login_is_tracked() {
    let end = login(
        policy(true, true),
        &request(Some("ut")),
        Ok(response(true, None)),
        true,
    );
    assert_eq!(end.reply.status, 200);
    assert!(end.reply.body.success);
    assert_eq!(end.reply.body.message, "Login successful");
    let (hash, info) = end.register.expect("a verified session is tracked");
    assert_eq!(hash, "abcd");
    assert_eq!(info.user_token, "ut");
    assert_eq!(info.context_path.as_deref(), Some("ctx"));
    assert_eq!(info.session_name.as_deref(), Some("dev"));
    assert_eq!(info.user_id.as_deref(), Some("ubuntu"));
    assert_eq!(info.last_verified_at, 42);
    assert!(!info.revoked && info.revoke_reason.is_none());
}

#[test]
fn verified_login_without_store_is_not_tracked() {
    let mut p = policy(true, true);
    p.has_session_store = false;
    let end = login(p, &request(Some("ut")), Ok(response(true, None)), true);
    assert!(end.reply.body.success);
    assert!(end.register.is_none());
}

#[test]
fn denied_login_is_forbidden() {
    for required in [true, false] {
        let end = login(
            policy(required, true),
            &request(Some("ut")),
            Ok(response(false, Some("expired"))),
            true,
        );
        assert_eq!(end.reply.status, 403);
        assert_eq!(end.reply.body.message, "acl_denied: expired");
        assert!(end.register.is_none() && end.reply.set_cookie.is_none());
    }
    let end = login(
        policy(true, true),
        &request(Some("ut")),
        Ok(response(false, None)),
        true,
    );
    assert_eq!(end.reply.body.message, "acl_denied: unknown");
}

#[test]
fn outage_refuses_where_enforced_and_falls_back_otherwise() {
    let end = login(
        policy(true, true),
        &request(Some("ut")),
        Err(AclError::Server(500)),
        true,
    );
    assert_eq!(end.reply.status, 503);
    assert_eq!(end.reply.body.message, "tachikoma_unreachable");
    let end = login(
        policy(false, true),
        &request(Some("ut")),
        Err(AclError::Server(500)),
        true,
    );
    assert_eq!(end.reply.status, 200);
    assert!(end.register.is_none());
}

#[test]
fn dormant_rules_leave_the_auth_token_check() {
    for (p, req) in [
        (policy(false, true), request(None)),
        (policy(false, false), request(Some("ut"))),
        (policy(true, false), request(Some("ut"))),
    ] {
        match login_handler(p, &req) {
            LoginStep::CreateSession {
                auth_token,
                remember_me,
                user,
            } => {
                assert_eq!(auth_token, "auth");
                assert!(!remember_me);
                assert!(user.is_none());
            }
            other => panic!("expected a session, got {other:?}"),
        }
    }
}

#[test]
fn wrong_auth_token_is_unauthorized() {
    let end = login(
        policy(false, true),
        &request(None),
        Ok(response(true, None)),
        false,
    );
    assert_eq!(end.reply.status, 401);
    assert_eq!(end.reply.body.message, "Invalid authentication token");
    assert!(end.reply.set_cookie.is_none() && end.register.is_none());
}

#[test]
fn verified_user_needs_no_auth_token() {
    let mut req = request(Some("ut"));
    req.auth_token = String::new();
    for required in [true, false] {
        let end = login(policy(required, true), &req, Ok(response(true, None)), false);
        assert_eq!(end.reply.status, 200);
        assert!(end.reply.body.success);
        assert_eq!(
            end.reply.set_cookie.as_deref(),
            Some("session_token=v3r1f13d; HttpOnly; SameSite=Strict; Secure; Path=/")
        );
        let (hash, info) = end.register.expect("a verified session is tracked");
        assert_eq!(hash, "ef01");
        assert_eq!(info.user_token, "ut");
    }
    req.remember_me = Some(true);
    match login_verified(policy(true, true), &req, Ok(response(true, None))) {
        LoginStep::CreateVerifiedSession { remember_me, user } => {
            assert!(remember_me);
            assert_eq!(user.user_id.as_deref(), Some("ubuntu"));
        }
        other => panic!("expected a session without a check, got {other:?}"),
    }
}

#[test]
fn empty_auth_token_is_checked_without_a_verified_user() {
    for (p, user_token, outcome) in [
        (policy(false, true), None, Ok(response(true, None))),
        (policy(false, false), Some("ut"), Ok(response(true, None))),
        (policy(false, true), Some("ut"), Err(AclError::Server(500))),
    ] {
        let mut req = request(user_token);
        req.auth_token = String::new();
        let end = login(p, &req, outcome, false);
        assert_eq!(end.reply.status, 401);
    }
    let end = login(
        policy(false, true),
        &request(Some("ut")),
        Ok(response(true, None)),
        false,
    );
    assert_eq!(end.reply.status, 401, "a given auth token is checked");
}

#[test]
fn session_cookie_is_known_by_its_name() {
    let names = |list: &[&str]| list.iter().map(|n| n.to_string()).collect::<Vec<String>>();
    assert!(has_session_cookie(&names(&["theme", "session_token"])));
    assert!(!has_session_cookie(&names(&["theme", "session_token2", "Session_Token"])));
    assert!(!has_session_cookie(&names(&[])));
}

#[test]
fn session_cookie_ends_with_the_browser() {
    assert_eq!(
        cookie_header("abc", true, false).as_deref(),
        Some("session_token=abc; HttpOnly; SameSite=Strict; Secure; Path=/")
    );
    assert_eq!(
        cookie_header("abc", false, false).as_deref(),
        Some("session_token=abc; HttpOnly; SameSite=Strict; Path=/")
    );
}

#[test]
fn remembered_cookie_lives_four_weeks() {
    assert_eq!(
        cookie_header("abc", true, true).as_deref(),
        Some("session_token=abc; HttpOnly; SameSite=Strict; Secure; Path=/; Max-Age=2419200")
    );
    let mut req = request(None);
    req.remember_me = Some(true);
    let end = login(policy(false, true), &req, Ok(response(true, None)), true);
    assert_eq!(
        end.reply.set_cookie.as_deref(),
        Some("session_token=s3cr3t; HttpOnly; SameSite=Strict; Secure; Path=/; Max-Age=2419200")
    );
    req.remember_me = Some(false);
    assert!(!req.remembered());
}

#[test]
fn cookie_that_no_header_can_carry_is_left_out() {
    assert!(cookie_header("a\nb", true, false).is_none());
    assert!(cookie_header("a\u{7f}b", true, false).is_none());
    assert!(cookie_header("a\tb", true, false).is_some());
    assert!(cookie_header("a\u{80}é", true, false).is_some());
}
