use tachikoma_acl::client::{
    read_reply, HttpReply, TachikomaAclClient, VerifyStep, BRIDGE_AUTH_HEADER,
    REQUEST_TIMEOUT_SECS, VERIFY_PATH,
};
use tachikoma_acl::types::{AclError, VerifyResponse};

const BASE: &str = "http://127.0.0.1:8000";

fn ok_body() -> VerifyResponse {
    VerifyResponse {
        valid: true,
        user_id: Some("ubuntu".to_string()),
        expires_at: Some(1_700_000_000.0f64.to_bits()),
        permissions: vec!["read".to_string(), "write".to_string()],
        read_only: false,
        reason: None,
    }
}

fn ok_reply() -> HttpReply {
    HttpReply::Response {
        status: 200,
        body: Ok(ok_body()),
    }
}

/// One verification against a server that gives `reply`; the second value tells
/// whether the server was asked.
fn verify(
    client: &mut TachikomaAclClient,
    args: (&str, Option<&str>, Option<&str>, &str),
    reply: HttpReply,
    now: u128,
) -> (Result<VerifyResponse, AclError>, bool) {
    match client.verify_token(args.0, args.1, args.2, args.3, now) {
        VerifyStep::Cached(resp) => (Ok(resp), false),
        VerifyStep::Call { key, .. } => (client.finish_verify(key, reply, now), true),
    }
}

#[test]
fn valid_response_is_parsed() {
    let mut client = TachikomaAclClient::new(BASE.to_string(), None);
    let (resp, asked) = verify(
        &mut client,
        ("token-xyz", Some("monorepo"), Some("dev"), "attach"),
        ok_reply(),
        0,
    );
    let resp = resp.expect("verify_token should succeed");
    assert!(asked);
    assert!(resp.valid);
    assert_eq!(resp.user_id.as_deref(), Some("ubuntu"));
    assert_eq!(resp.permissions, vec!["read", "write"]);
    assert!(!resp.read_only);
    assert!(resp.reason.is_none());
    assert_eq!(resp.expires_at.map(f64::from_bits), Some(1_700_000_000.0));
}

#[test]
fn cache_hit_avoids_second_http_call() {
    let mut client = TachikomaAclClient::new(BASE.to_string(), None);
    let args = ("tok", Some("ctx"), Some("sess"), "attach");
    let (r1, asked1) = verify(&mut client, args, ok_reply(), 0);
    let (r2, asked2) = verify(
        &mut client,
        args,
        HttpReply::TransportError("must not be asked".to_string()),
        1_000,
    );
    let (r1, r2) = (r1.unwrap(), r2.unwrap());
    assert!(asked1 && !asked2);
    assert!(r1.valid && r2.valid);
    assert_eq!(r1.user_id, r2.user_id);
}

#[test]
fn answer_is_asked_again_after_three_seconds() {
    let mut client = TachikomaAclClient::new(BASE.to_string(), None);
    let args = ("tok", None, None, "attach");
    assert!(verify(&mut client, args, ok_reply(), 0).1);
    assert!(!verify(&mut client, args, ok_reply(), 3_000_000_000).1);
    assert!(verify(&mut client, args, ok_reply(), 3_000_000_001).1);
}

#[test]
fn unauthorized_returns_server_error() {
    let mut client = TachikomaAclClient::new(BASE.to_string(), None);
    let reply = HttpReply::Response {
        status: 401,
        body: Err(String::new()),
    };
    let err = verify(&mut client, ("bad-token", None, None, "attach"), reply, 0)
        .0
        .expect_err("401 should be reported as AclError::Server");
    match err {
        AclError::Server(401) => {}
        other => panic!("expected Server(401), got {other:?}"),
    }
}

#[test]
fn network_error_returns_network_variant() {
    let mut client = TachikomaAclClient::new(BASE.to_string(), None);
    let reply = HttpReply::TransportError("connection refused".to_string());
    let err = verify(&mut client, ("tok", None, None, "attach"), reply, 0)
        .0
        .expect_err("connection-refused must surface as Network error");
    assert!(
        matches!(err, AclError::Network(_)),
        "expected Network variant, got {err:?}"
    );
    assert_eq!(err.message(), "network error: connection refused");
}

#[test]
fn malformed_json_returns_decode_error() {
    let mut client = TachikomaAclClient::new(BASE.to_string(), None);
    let reply = HttpReply::Response {
        status: 200,
        body: Err("expected value at line 1 column 1".to_string()),
    };
    let err = verify(&mut client, ("tok", None, None, "attach"), reply, 0)
        .0
        .expect_err("garbage body must surface as Decode error");
    assert!(
        matches!(err, AclError::Decode(_)),
        "expected Decode variant, got {err:?}"
    );
    assert_eq!(
        err.message(),
        "response decode: expected value at line 1 column 1"
    );
}

#[test]
fn bridge_auth_header_is_sent_when_configured() {
    let mut client = TachikomaAclClient::new(BASE.to_string(), Some("super-secret".to_string()));
    match client.verify_token("tok", None, None, "attach", 0) {
        VerifyStep::Call { call, key } => {
            let header = call.header.expect("the secret is sent");
            assert_eq!(header.name, "X-Tsp-Bridge-Auth");
            assert_eq!(header.value, "super-secret");
            let resp = client
                .finish_verify(key, ok_reply(), 0)
                .expect("authorised call should succeed");
            assert!(resp.valid);
        }
        VerifyStep::Cached(_) => panic!("nothing is cached yet"),
    }
    assert_eq!(BRIDGE_AUTH_HEADER, "X-Tsp-Bridge-Auth");
}

#[test]
fn request_names_endpoint_and_fields() {
    let client = TachikomaAclClient::new(format!("{BASE}//"), None);
    let call = client.verify_token_uncached("tok", Some("ctx"), None, "attach");
    assert_eq!(call.url, "http://127.0.0.1:8000/api/auth/verify-acl-token");
    assert_eq!(VERIFY_PATH, "/api/auth/verify-acl-token");
    assert!(call.header.is_none());
    assert_eq!(call.body.token, "tok");
    assert_eq!(call.body.context_path, Some("ctx"));
    assert_eq!(call.body.session_name, None);
    assert_eq!(call.body.action, "attach");
    assert!(!call.body.force_non_admin);
    assert_eq!(REQUEST_TIMEOUT_SECS, 5);
}

#[test]
fn refusal_is_an_answer_and_is_cached() {
    let mut client = TachikomaAclClient::new(BASE.to_string(), None);
    let mut denied = ok_body();
    denied.valid = false;
    denied.reason = Some("expired".to_string());
    let reply = HttpReply::Response {
        status: 299,
        body: Ok(denied),
    };
    let args = ("tok", None, None, "attach");
    let resp = verify(&mut client, args, reply, 0).0.unwrap();
    assert!(!resp.valid);
    let (again, asked) = verify(&mut client, args, ok_reply(), 1);
    assert!(!asked);
    assert_eq!(again.unwrap().reason.as_deref(), Some("expired"));
}

#[test]
fn statuses_outside_the_two_hundreds_are_errors() {
    for status in [100u16, 199, 300, 301, 404, 500] {
        let reply = HttpReply::Response {
            status,
            body: Ok(ok_body()),
        };
        let err = read_reply(reply).unwrap_err();
        assert!(matches!(err, AclError::Server(s) if s == status));
        assert_eq!(err.message(), format!("server returned status {status}"));
    }
    for status in [200u16, 204, 299] {
        let reply = HttpReply::Response {
            status,
            body: Ok(ok_body()),
        };
        assert!(read_reply(reply).is_ok());
    }
}

#[test]
fn errors_leave_the_cache_alone() {
    let mut client = TachikomaAclClient::new(BASE.to_string(), None);
    let args = ("tok", None, None, "attach");
    let failed = HttpReply::TransportError("down".to_string());
    assert!(verify(&mut client, args, failed, 0).0.is_err());
    assert!(verify(&mut client, args, ok_reply(), 1).1);
}

#[test]
fn forced_requests_neither_use_nor_fill_the_cache() {
    let mut client = TachikomaAclClient::new(BASE.to_string(), None);
    let args = ("tok", None, None, "attach");
    assert!(verify(&mut client, args, ok_reply(), 0).1);
    match client.verify_token_with("tok", None, None, "attach", true, 1) {
        VerifyStep::Call { call, key } => {
            assert!(call.body.force_non_admin);
            assert!(key.is_none());
            let mut denied = ok_body();
            denied.valid = false;
            let reply = HttpReply::Response {
                status: 200,
                body: Ok(denied),
            };
            assert!(!client.finish_verify(key, reply, 1).unwrap().valid);
        }
        VerifyStep::Cached(_) => panic!("a forced request is always sent"),
    }
    let (resp, asked) = verify(&mut client, args, ok_reply(), 2);
    assert!(!asked);
    assert!(resp.unwrap().valid);
}

#[test]
fn invalidated_cache_is_asked_again() {
    let mut client = TachikomaAclClient::new(BASE.to_string(), None);
    let args = ("tok", None, None, "attach");
    assert!(verify(&mut client, args, ok_reply(), 0).1);
    client.invalidate_cache();
    assert!(verify(&mut client, args, ok_reply(), 1).1);
}
