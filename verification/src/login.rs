//! The login decision.
//!
//! A login runs in up to three steps. [`login_handler`] looks at the request
//! alone; [`login_verified`] takes in what the verification endpoint said of the
//! user token; [`login_session_created`] takes in whether a session token was
//! issued, and gives the reply together with the session to track.
//!
//! A session token is issued against the auth token of the request. A user whose
//! user token was found valid needs none: where it is empty, the session token is
//! issued without that check.

use vstd::prelude::*;
use vstd::string::*;

use crate::acl_session_store::{AclSessionInfo, SessionView};
use crate::foreign;
use crate::foreign::SameSite;
use crate::http_handlers;
use crate::text;
use crate::types;
use crate::types::{
    AclError, AclErrorView, VerifyRequest, VerifyRequestView, VerifyResponse, VerifyResponseView,
};

verus! {

/// The action that a login is verified for.
pub const ATTACH: &'static str = "attach";

/// Name of the session cookie.
pub const SESSION_COOKIE: &'static str = "session_token";

/// How long a remembered session cookie lives, in weeks.
pub const REMEMBER_WEEKS: u32 = 4;

/// How the server is set up, as far as a login depends on it.
#[derive(Debug, Clone, Copy)]
pub struct LoginPolicy {
    /// A login needs a user token, and, where there is a client, a valid answer
    /// about it.
    pub acl_required: bool,
    /// There is a verification client.
    pub has_acl_client: bool,
    /// Verified sessions are tracked.
    pub has_session_store: bool,
    /// The server is reached over HTTPS.
    pub is_https: bool,
}

/// Body of a login request.
#[derive(Debug)]
pub struct LoginRequest {
    pub auth_token: String,
    pub remember_me: Option<bool>,
    pub user_token: Option<String>,
    pub context_path: Option<String>,
    pub session_name: Option<String>,
    pub admin_as_user: bool,
}

/// What a [`LoginRequest`] says.
pub struct LoginRequestView {
    pub auth_token: Seq<char>,
    pub remember_me: Option<bool>,
    pub user_token: Option<Seq<char>>,
    pub context_path: Option<Seq<char>>,
    pub session_name: Option<Seq<char>>,
    pub admin_as_user: bool,
}

impl View for LoginRequest {
    type V = LoginRequestView;

    open spec fn view(&self) -> LoginRequestView {
        LoginRequestView {
            auth_token: self.auth_token@,
            remember_me: self.remember_me,
            user_token: text::opt_text(self.user_token),
            context_path: text::opt_text(self.context_path),
            session_name: text::opt_text(self.session_name),
            admin_as_user: self.admin_as_user,
        }
    }
}

impl LoginRequestView {
    /// Whether the session is to outlive the browser.
    pub open spec fn remembered(self) -> bool {
        self.remember_me == Some(true)
    }
}

impl LoginRequest {
    /// Whether the session is to outlive the browser.
    pub fn remembered(&self) -> (r: bool)
        ensures
            r == self@.remembered(),
    {
        match self.remember_me {
            Some(remember) => remember,
            None => false,
        }
    }
}

/// Body of a login reply.
#[derive(Debug)]
pub struct LoginResponse {
    pub success: bool,
    pub message: String,
}

/// A login reply: its status, its body, and its `set-cookie` header.
#[derive(Debug)]
pub struct LoginReply {
    pub status: u16,
    pub body: LoginResponse,
    pub set_cookie: Option<String>,
}

/// What a [`LoginReply`] says.
pub struct LoginReplyView {
    pub status: u16,
    pub success: bool,
    pub message: Seq<char>,
    pub set_cookie: Option<Seq<char>>,
}

impl View for LoginReply {
    type V = LoginReplyView;

    open spec fn view(&self) -> LoginReplyView {
        LoginReplyView {
            status: self.status,
            success: self.body.success,
            message: self.body.message@,
            set_cookie: text::opt_text(self.set_cookie),
        }
    }
}

/// The reply that refuses a login.
pub open spec fn refusal(status: u16, message: Seq<char>) -> LoginReplyView {
    LoginReplyView { status, success: false, message, set_cookie: None }
}

fn refuse(status: u16, message: String) -> (r: LoginReply)
    ensures
        r@ == refusal(status, message@),
{
    LoginReply { status, body: LoginResponse { success: false, message }, set_cookie: None }
}

/// A user whose token was found valid.
#[derive(Debug)]
pub struct VerifiedUser {
    pub user_token: String,
    pub user_id: Option<String>,
}

/// What a [`VerifiedUser`] says.
pub struct VerifiedUserView {
    pub user_token: Seq<char>,
    pub user_id: Option<Seq<char>>,
}

impl View for VerifiedUser {
    type V = VerifiedUserView;

    open spec fn view(&self) -> VerifiedUserView {
        VerifiedUserView { user_token: self.user_token@, user_id: text::opt_text(self.user_id) }
    }
}

/// The user of a login, if one was verified.
pub open spec fn opt_user(user: Option<VerifiedUser>) -> Option<VerifiedUserView> {
    match user {
        Some(u) => Some(u@),
        None => None,
    }
}

/// The next step of a login.
#[derive(Debug)]
pub enum LoginStep<'a> {
    /// Answer; nothing else happens.
    Reply(LoginReply),
    /// Put this question to the verification client, then go on with
    /// [`login_verified`].
    Verify(VerifyRequest<'a>),
    /// Issue a session token against `auth_token`, to be remembered or not, then
    /// go on with [`login_session_created`].
    CreateSession { auth_token: &'a str, remember_me: bool, user: Option<VerifiedUser> },
    /// Issue a session token for a verified user without an auth token, to be
    /// remembered or not, then go on with [`login_session_created`].
    CreateVerifiedSession { remember_me: bool, user: VerifiedUser },
}

/// What a [`LoginStep`] says.
pub enum LoginStepView {
    Reply(LoginReplyView),
    Verify(VerifyRequestView),
    CreateSession { auth_token: Seq<char>, remember_me: bool, user: Option<VerifiedUserView> },
    CreateVerifiedSession { remember_me: bool, user: VerifiedUserView },
}

impl<'a> View for LoginStep<'a> {
    type V = LoginStepView;

    open spec fn view(&self) -> LoginStepView {
        match self {
            LoginStep::Reply(reply) => LoginStepView::Reply(reply@),
            LoginStep::Verify(question) => LoginStepView::Verify(question@),
            LoginStep::CreateSession { auth_token, remember_me, user } => {
                LoginStepView::CreateSession {
                    auth_token: auth_token@,
                    remember_me: *remember_me,
                    user: opt_user(*user),
                }
            },
            LoginStep::CreateVerifiedSession { remember_me, user } => {
                LoginStepView::CreateVerifiedSession { remember_me: *remember_me, user: user@ }
            },
        }
    }
}

/// The step that issues a session token for a request.
pub open spec fn issue(req: LoginRequestView, user: Option<VerifiedUserView>) -> LoginStepView {
    LoginStepView::CreateSession {
        auth_token: req.auth_token,
        remember_me: req.remembered(),
        user,
    }
}

/// The step that issues a session token for a verified user: without a check of
/// the auth token where the request has none.
pub open spec fn issue_verified(req: LoginRequestView, user: VerifiedUserView) -> LoginStepView {
    if req.auth_token.len() == 0 {
        LoginStepView::CreateVerifiedSession { remember_me: req.remembered(), user }
    } else {
        issue(req, Some(user))
    }
}

/// The first step of a login.
pub open spec fn first_step(policy: LoginPolicy, req: LoginRequestView) -> LoginStepView {
    match req.user_token {
        None => if policy.acl_required {
            LoginStepView::Reply(
                refusal(
                    http_handlers::STATUS_UNAUTHORIZED,
                    "user_token required when ACL is enforced"@,
                ),
            )
        } else {
            issue(req, None)
        },
        Some(token) => if policy.has_acl_client {
            LoginStepView::Verify(
                VerifyRequestView {
                    token,
                    context_path: req.context_path,
                    session_name: req.session_name,
                    action: ATTACH@,
                    force_non_admin: req.admin_as_user,
                },
            )
        } else {
            issue(req, None)
        },
    }
}

/// The step after the verification of the user token of the request.
pub open spec fn step_after_verification(
    policy: LoginPolicy,
    req: LoginRequestView,
    outcome: Result<VerifyResponseView, AclErrorView>,
) -> LoginStepView
    recommends
        req.user_token is Some,
{
    match outcome {
        Ok(resp) => if resp.valid {
            issue_verified(
                req,
                VerifiedUserView { user_token: req.user_token->Some_0, user_id: resp.user_id },
            )
        } else {
            LoginStepView::Reply(
                refusal(
                    http_handlers::STATUS_FORBIDDEN,
                    "acl_denied: "@ + match resp.reason {
                        Some(reason) => reason,
                        None => "unknown"@,
                    },
                ),
            )
        },
        Err(_) => if policy.acl_required {
            LoginStepView::Reply(
                refusal(http_handlers::STATUS_SERVICE_UNAVAILABLE, "tachikoma_unreachable"@),
            )
        } else {
            issue(req, None)
        },
    }
}

fn issue_session<'a>(req: &'a LoginRequest, user: Option<VerifiedUser>) -> (r: LoginStep<'a>)
    ensures
        r@ == issue(req@, opt_user(user)),
{
    LoginStep::CreateSession {
        auth_token: req.auth_token.as_str(),
        remember_me: req.remembered(),
        user,
    }
}

fn issue_verified_session<'a>(req: &'a LoginRequest, user: VerifiedUser) -> (r: LoginStep<'a>)
    ensures
        r@ == issue_verified(req@, user@),
{
    if req.auth_token.as_str().is_empty() {
        LoginStep::CreateVerifiedSession { remember_me: req.remembered(), user }
    } else {
        issue_session(req, Some(user))
    }
}

/// Decide the first step of a login. Where the access rules are enforced, a
/// request without a user token is refused before anything else happens; where
/// there is a token and a client, the token is verified; otherwise the access
/// rules are dormant.
pub fn login_handler<'a>(policy: LoginPolicy, req: &'a LoginRequest) -> (r: LoginStep<'a>)
    ensures
        r@ == first_step(policy, req@),
{
    if policy.acl_required && req.user_token.is_none() {
        return LoginStep::Reply(
            refuse(
                http_handlers::STATUS_UNAUTHORIZED,
                "user_token required when ACL is enforced".to_owned(),
            ),
        );
    }
    match &req.user_token {
        Some(token) => {
            if policy.has_acl_client {
                LoginStep::Verify(
                    VerifyRequest {
                        token: token.as_str(),
                        context_path: text::opt_as_str(&req.context_path),
                        session_name: text::opt_as_str(&req.session_name),
                        action: ATTACH,
                        force_non_admin: req.admin_as_user,
                    },
                )
            } else {
                issue_session(req, None)
            }
        },
        None => issue_session(req, None),
    }
}

/// Decide the step after the verification of the user token: a valid answer goes
/// on, without a check of the auth token where that is empty; one that is not
/// valid is refused with the reason given; and without an answer the login is
/// refused where the access rules are enforced and falls back to the auth token
/// alone where they are not.
pub fn login_verified<'a>(
    policy: LoginPolicy,
    req: &'a LoginRequest,
    outcome: Result<VerifyResponse, AclError>,
) -> (r: LoginStep<'a>)
    requires
        req@.user_token is Some,
    ensures
        r@ == step_after_verification(policy, req@, types::outcome_view(outcome)),
{
    match outcome {
        Ok(resp) => {
            if resp.valid {
                match &req.user_token {
                    Some(token) => issue_verified_session(
                        req,
                        VerifiedUser { user_token: token.clone(), user_id: resp.user_id },
                    ),
                    None => issue_session(req, None),
                }
            } else {
                let reason = match resp.reason {
                    Some(reason) => reason,
                    None => "unknown".to_owned(),
                };
                LoginStep::Reply(
                    refuse(
                        http_handlers::STATUS_FORBIDDEN,
                        "acl_denied: ".to_owned().concat(reason.as_str()),
                    ),
                )
            }
        },
        Err(_) => {
            if policy.acl_required {
                LoginStep::Reply(
                    refuse(
                        http_handlers::STATUS_SERVICE_UNAVAILABLE,
                        "tachikoma_unreachable".to_owned(),
                    ),
                )
            } else {
                issue_session(req, None)
            }
        },
    }
}

/// A session token that was issued, and the SHA-256 hex of it.
#[derive(Debug)]
pub struct NewSession {
    pub session_token: String,
    pub session_token_hash: String,
}

/// What a [`NewSession`] says.
pub struct NewSessionView {
    pub session_token: Seq<char>,
    pub session_token_hash: Seq<char>,
}

impl View for NewSession {
    type V = NewSessionView;

    open spec fn view(&self) -> NewSessionView {
        NewSessionView {
            session_token: self.session_token@,
            session_token_hash: self.session_token_hash@,
        }
    }
}

/// The session of a login, if one was issued.
pub open spec fn opt_session(session: Option<NewSession>) -> Option<NewSessionView> {
    match session {
        Some(s) => Some(s@),
        None => None,
    }
}

/// How a login ends: the reply, and the session to track under its hash, if any.
#[derive(Debug)]
pub struct LoginOutcome {
    pub reply: LoginReply,
    pub register: Option<(String, AclSessionInfo)>,
}

/// What a [`LoginOutcome`] says.
pub struct LoginOutcomeView {
    pub reply: LoginReplyView,
    pub register: Option<(Seq<char>, SessionView)>,
}

impl View for LoginOutcome {
    type V = LoginOutcomeView;

    open spec fn view(&self) -> LoginOutcomeView {
        LoginOutcomeView {
            reply: self.reply@,
            register: match self.register {
                Some((hash, info)) => Some((hash@, info@)),
                None => None,
            },
        }
    }
}

/// The text of the session cookie. It goes to this site only, never to scripts,
/// only over HTTPS where the server has it, and lives four weeks or until the
/// browser closes.
pub open spec fn session_cookie(
    session_token: Seq<char>,
    is_https: bool,
    remembered: bool,
) -> Seq<char> {
    foreign::cookie_text(
        SESSION_COOKIE@,
        session_token,
        true,
        SameSite::Strict,
        is_https,
        "/"@,
        if remembered {
            Some(REMEMBER_WEEKS)
        } else {
            None
        },
    )
}

/// Whether `s` can be sent as a header value.
pub open spec fn sendable(s: Seq<char>) -> bool {
    forall|i: int| 0 <= i < s.len() ==> foreign::header_char(#[trigger] s[i])
}

/// The reply to a login whose session token was issued. A cookie that cannot be
/// sent as a header is left out.
pub open spec fn welcome(cookie: Seq<char>) -> LoginReplyView {
    LoginReplyView {
        status: http_handlers::STATUS_OK,
        success: true,
        message: "Login successful"@,
        set_cookie: if sendable(cookie) {
            Some(cookie)
        } else {
            None
        },
    }
}

/// The session to track after a login.
pub open spec fn tracked_session(
    req: LoginRequestView,
    user: VerifiedUserView,
    now: nat,
) -> SessionView {
    SessionView {
        user_token: user.user_token,
        context_path: req.context_path,
        session_name: req.session_name,
        user_id: user.user_id,
        last_verified_at: now,
        revoked: false,
        revoke_reason: None,
    }
}

/// How a login ends once a session token was issued, or was not.
pub open spec fn outcome_after_session(
    policy: LoginPolicy,
    req: LoginRequestView,
    user: Option<VerifiedUserView>,
    session: Option<NewSessionView>,
    now: nat,
) -> LoginOutcomeView {
    match session {
        None => LoginOutcomeView {
            reply: refusal(
                http_handlers::STATUS_UNAUTHORIZED,
                "Invalid authentication token"@,
            ),
            register: None,
        },
        Some(s) => LoginOutcomeView {
            reply: welcome(session_cookie(s.session_token, policy.is_https, req.remembered())),
            register: match user {
                Some(u) => if policy.has_session_store {
                    Some((s.session_token_hash, tracked_session(req, u, now)))
                } else {
                    None
                },
                None => None,
            },
        },
    }
}

/// What the attempts to issue a session token would give.
pub struct IssueView {
    /// Against the auth token of the request.
    pub checked: Option<NewSessionView>,
    /// For a verified user, without an auth token.
    pub unchecked: Option<NewSessionView>,
}

/// How a whole login ends: `outcome` is what a verification would give, and
/// `issued` what the attempts to issue a session token would. A user token is
/// verified once, so the last case never comes up.
pub open spec fn whole_login(
    policy: LoginPolicy,
    req: LoginRequestView,
    outcome: Result<VerifyResponseView, AclErrorView>,
    issued: IssueView,
    now: nat,
) -> LoginOutcomeView {
    let first = first_step(policy, req);
    let step = if first is Verify {
        step_after_verification(policy, req, outcome)
    } else {
        first
    };
    match step {
        LoginStepView::Reply(reply) => LoginOutcomeView { reply, register: None },
        LoginStepView::CreateSession { user, .. } => outcome_after_session(
            policy,
            req,
            user,
            issued.checked,
            now,
        ),
        LoginStepView::CreateVerifiedSession { user, .. } => outcome_after_session(
            policy,
            req,
            Some(user),
            issued.unchecked,
            now,
        ),
        LoginStepView::Verify(_) => LoginOutcomeView {
            reply: refusal(http_handlers::STATUS_SERVICE_UNAVAILABLE, Seq::empty()),
            register: None,
        },
    }
}

/// The `set-cookie` header for a new session, where it can be sent.
pub fn cookie_header(session_token: &str, is_https: bool, remembered: bool) -> (r: Option<String>)
    ensures
        ({
            let cookie = session_cookie(session_token@, is_https, remembered);
            text::opt_text(r) == (if sendable(cookie) {
                Some(cookie)
            } else {
                None
            })
        }),
{
    let weeks: Option<u32> = if remembered {
        Some(REMEMBER_WEEKS)
    } else {
        None
    };
    let cookie = foreign::format_cookie(
        SESSION_COOKIE,
        session_token,
        true,
        SameSite::Strict,
        is_https,
        "/",
        weeks,
    );
    if foreign::is_header_value(cookie.as_str()) {
        Some(cookie)
    } else {
        None
    }
}

/// Whether a session cookie is among the cookies of a request.
pub open spec fn names_session_cookie(cookie_names: Seq<Seq<char>>) -> bool {
    cookie_names.contains(SESSION_COOKIE@)
}

/// Whether a visitor whose request has cookies of these names counts as
/// authenticated on the client page.
pub fn has_session_cookie(cookie_names: &Vec<String>) -> (r: bool)
    ensures
        r == names_session_cookie(text::texts(cookie_names@)),
{
    let mut i: usize = 0;
    while i < cookie_names.len()
        invariant
            i <= cookie_names@.len(),
            forall|j: int| 0 <= j < i ==> text::texts(cookie_names@)[j] != SESSION_COOKIE@,
        decreases cookie_names@.len() - i,
    {
        if text::text_eq(cookie_names[i].as_str(), SESSION_COOKIE) {
            assert(text::texts(cookie_names@)[i as int] == SESSION_COOKIE@);
            return true;
        }
        i = i + 1;
    }
    false
}

/// Finish a login once a session token was issued, or was not. A session is
/// tracked where its user was verified and there is a store to track it in.
pub fn login_session_created(
    policy: LoginPolicy,
    req: &LoginRequest,
    user: Option<VerifiedUser>,
    session: Option<NewSession>,
    now: u128,
) -> (r: LoginOutcome)
    ensures
        r@ == outcome_after_session(policy, req@, opt_user(user), opt_session(session), now as nat),
{
    let s = match session {
        Some(s) => s,
        None => {
            return LoginOutcome {
                reply: refuse(
                    http_handlers::STATUS_UNAUTHORIZED,
                    "Invalid authentication token".to_owned(),
                ),
                register: None,
            };
        },
    };
    let set_cookie = cookie_header(s.session_token.as_str(), policy.is_https, req.remembered());
    let register = match user {
        Some(u) => {
            if policy.has_session_store {
                let info = AclSessionInfo {
                    user_token: u.user_token,
                    context_path: text::opt_clone(&req.context_path),
                    session_name: text::opt_clone(&req.session_name),
                    user_id: u.user_id,
                    last_verified_at: now,
                    revoked: false,
                    revoke_reason: None,
                };
                Some((s.session_token_hash, info))
            } else {
                None
            }
        },
        None => None,
    };
    LoginOutcome {
        reply: LoginReply {
            status: http_handlers::STATUS_OK,
            body: LoginResponse { success: true, message: "Login successful".to_owned() },
            set_cookie,
        },
        register,
    }
}

/// The session token of a login whose user token is verified with this outcome:
/// one issued without an auth token exactly where the answer is valid and the
/// request has none.
pub open spec fn issue_for(
    req: LoginRequestView,
    outcome: Result<VerifyResponseView, AclErrorView>,
    issued: IssueView,
) -> Option<NewSessionView> {
    if req.auth_token.len() == 0 && outcome is Ok && outcome->Ok_0.valid {
        issued.unchecked
    } else {
        issued.checked
    }
}

/// Where the access rules are enforced and there is a client to check them, a
/// login succeeds only with a user token that was found valid.
pub proof fn law_enforced_login_needs_a_valid_token(
    policy: LoginPolicy,
    req: LoginRequestView,
    outcome: Result<VerifyResponseView, AclErrorView>,
    issued: IssueView,
    now: nat,
)
    requires
        policy.acl_required,
        policy.has_acl_client,
        whole_login(policy, req, outcome, issued, now).reply.success,
    ensures
        req.user_token is Some,
        outcome is Ok && outcome->Ok_0.valid,
        issue_for(req, outcome, issued) is Some,
{
}

/// Where the access rules are enforced, a login without a user token is
/// answered at once, whatever else holds.
pub proof fn law_missing_token_is_refused_first(
    policy: LoginPolicy,
    req: LoginRequestView,
    outcome: Result<VerifyResponseView, AclErrorView>,
    issued: IssueView,
    now: nat,
)
    requires
        policy.acl_required,
        req.user_token is None,
    ensures
        first_step(policy, req) is Reply,
        whole_login(policy, req, outcome, issued, now) == (LoginOutcomeView {
            reply: refusal(
                http_handlers::STATUS_UNAUTHORIZED,
                "user_token required when ACL is enforced"@,
            ),
            register: None,
        }),
{
}

/// A valid user token alone suffices: with an empty auth token the login depends
/// on nothing but the session token issued to the verified user, whatever a check
/// of the auth token would say.
pub proof fn law_verified_user_needs_no_auth_token(
    policy: LoginPolicy,
    req: LoginRequestView,
    resp: VerifyResponseView,
    issued: IssueView,
    now: nat,
)
    requires
        policy.has_acl_client,
        req.user_token is Some,
        req.auth_token.len() == 0,
        resp.valid,
    ensures
        step_after_verification(policy, req, Ok(resp)) is CreateVerifiedSession,
        ({
            let end = whole_login(policy, req, Ok(resp), issued, now);
            match issued.unchecked {
                Some(s) => end.reply == welcome(
                    session_cookie(s.session_token, policy.is_https, req.remembered()),
                ),
                None => !end.reply.success,
            }
        }),
{
}

/// The auth token is checked in every other login: one with an auth token, or
/// whose user was not verified, succeeds only if the check issues a session
/// token.
pub proof fn law_auth_token_is_checked_otherwise(
    policy: LoginPolicy,
    req: LoginRequestView,
    outcome: Result<VerifyResponseView, AclErrorView>,
    issued: IssueView,
    now: nat,
)
    requires
        req.auth_token.len() > 0 || req.user_token is None || !policy.has_acl_client
            || outcome is Err || !outcome->Ok_0.valid,
    ensures
        whole_login(policy, req, outcome, issued, now).reply.success ==> issued.checked is Some,
{
}

/// A user whom the server refuses is refused with the reason it gave, whether or
/// not the access rules are enforced.
pub proof fn law_denied_login_is_forbidden(
    policy: LoginPolicy,
    req: LoginRequestView,
    resp: VerifyResponseView,
    issued: IssueView,
    now: nat,
)
    requires
        policy.has_acl_client,
        req.user_token is Some,
        !resp.valid,
    ensures
        whole_login(policy, req, Ok(resp), issued, now).reply == refusal(
            http_handlers::STATUS_FORBIDDEN,
            "acl_denied: "@ + match resp.reason {
                Some(reason) => reason,
                None => "unknown"@,
            },
        ),
{
}

/// While the server gives no answer, a login with a user token is refused where
/// the access rules are enforced, and depends on its auth token alone where they
/// are not.
pub proof fn law_outage_refuses_or_falls_back(
    policy: LoginPolicy,
    req: LoginRequestView,
    error: AclErrorView,
    issued: IssueView,
    now: nat,
)
    requires
        policy.has_acl_client,
        req.user_token is Some,
    ensures
        policy.acl_required ==> whole_login(policy, req, Err(error), issued, now).reply == refusal(
            http_handlers::STATUS_SERVICE_UNAVAILABLE,
            "tachikoma_unreachable"@,
        ),
        !policy.acl_required ==> whole_login(policy, req, Err(error), issued, now)
            == outcome_after_session(policy, req, None, issued.checked, now),
{
}

/// Where the access rules are dormant, for want of a client or of a user token,
/// a login depends on its auth token alone, and no session is tracked.
pub proof fn law_dormant_rules_do_nothing(
    policy: LoginPolicy,
    req: LoginRequestView,
    outcome: Result<VerifyResponseView, AclErrorView>,
    issued: IssueView,
    now: nat,
)
    requires
        !policy.acl_required && req.user_token is None || req.user_token is Some
            && !policy.has_acl_client,
    ensures
        first_step(policy, req) is CreateSession,
        whole_login(policy, req, outcome, issued, now).reply.success == issued.checked
            is Some,
        whole_login(policy, req, outcome, issued, now).register is None,
{
}

/// A session is tracked only after a valid answer about the user token of its
/// login, with that token, as not revoked, and only if the login succeeds.
pub proof fn law_only_verified_sessions_are_tracked(
    policy: LoginPolicy,
    req: LoginRequestView,
    outcome: Result<VerifyResponseView, AclErrorView>,
    issued: IssueView,
    now: nat,
)
    requires
        whole_login(policy, req, outcome, issued, now).register is Some,
    ensures
        whole_login(policy, req, outcome, issued, now).reply.success,
        outcome is Ok && outcome->Ok_0.valid,
        ({
            let (hash, info) = whole_login(policy, req, outcome, issued, now).register->Some_0;
            &&& req.user_token == Some(info.user_token)
            &&& info.user_id == outcome->Ok_0.user_id
            &&& !info.revoked
            &&& issue_for(req, outcome, issued) matches Some(session) && hash
                == session.session_token_hash
        }),
{
}

/// A login that fails neither sets a cookie nor leaves a tracked session.
pub proof fn law_failed_login_leaves_nothing(
    policy: LoginPolicy,
    req: LoginRequestView,
    outcome: Result<VerifyResponseView, AclErrorView>,
    issued: IssueView,
    now: nat,
)
    ensures
        ({
            let end = whole_login(policy, req, outcome, issued, now);
            &&& end.reply.success <==> end.reply.status == http_handlers::STATUS_OK
            &&& !end.reply.success ==> end.reply.set_cookie is None && end.register is None
        }),
{
}

proof fn lemma_sendable_concat(a: Seq<char>, b: Seq<char>)
    requires
        sendable(a),
        sendable(b),
    ensures
        sendable(a + b),
{
    assert forall|i: int| 0 <= i < (a + b).len() implies foreign::header_char(
        #[trigger] (a + b)[i],
    ) by {
        if i < a.len() {
            assert((a + b)[i] == a[i]);
        } else {
            assert((a + b)[i] == b[i - a.len()]);
        }
    }
}

proof fn lemma_decimal_is_sendable(n: nat)
    ensures
        sendable(text::decimal(n)),
    decreases n,
{
    if n >= 10 {
        lemma_decimal_is_sendable(n / 10);
    }
}

/// A session token that can be sent in a header is set as a cookie.
pub proof fn law_sendable_token_sets_the_cookie(
    session_token: Seq<char>,
    is_https: bool,
    remembered: bool,
)
    requires
        sendable(session_token),
    ensures
        sendable(session_cookie(session_token, is_https, remembered)),
        welcome(session_cookie(session_token, is_https, remembered)).set_cookie == Some(
            session_cookie(session_token, is_https, remembered),
        ),
{
    reveal_strlit("session_token");
    reveal_strlit("=");
    reveal_strlit("; ");
    reveal_strlit("HttpOnly");
    reveal_strlit("; SameSite=");
    reveal_strlit("Strict");
    reveal_strlit("Secure");
    reveal_strlit("; Path=");
    reveal_strlit("/");
    reveal_strlit("; Max-Age=");
    let age = if remembered {
        "; Max-Age="@ + text::decimal((REMEMBER_WEEKS * 604800) as nat)
    } else {
        Seq::empty()
    };
    lemma_decimal_is_sendable((REMEMBER_WEEKS * 604800) as nat);
    lemma_sendable_concat("; Max-Age="@, text::decimal((REMEMBER_WEEKS * 604800) as nat));
    let secure = foreign::flag_text(is_https, "Secure"@);
    lemma_sendable_concat("; "@, "Secure"@);
    let http_only = foreign::flag_text(true, "HttpOnly"@);
    lemma_sendable_concat("; "@, "HttpOnly"@);
    let c1 = SESSION_COOKIE@ + "="@;
    lemma_sendable_concat(SESSION_COOKIE@, "="@);
    let c2 = c1 + session_token;
    lemma_sendable_concat(c1, session_token);
    let c3 = c2 + http_only;
    lemma_sendable_concat(c2, http_only);
    let c4 = c3 + "; SameSite="@;
    lemma_sendable_concat(c3, "; SameSite="@);
    let c5 = c4 + "Strict"@;
    lemma_sendable_concat(c4, "Strict"@);
    let c6 = c5 + secure;
    lemma_sendable_concat(c5, secure);
    let c7 = c6 + "; Path="@;
    lemma_sendable_concat(c6, "; Path="@);
    let c8 = c7 + "/"@;
    lemma_sendable_concat(c7, "/"@);
    lemma_sendable_concat(c8, age);
}

/// A login request says what its fields hold, and is remembered exactly where it
/// says so.
pub proof fn law_login_request_fields(req: LoginRequest)
    ensures
        req@.auth_token == req.auth_token@,
        req@.remember_me == req.remember_me,
        req@.remembered() <==> req.remember_me is Some && req.remember_me->Some_0,
        req@.user_token is Some <==> req.user_token is Some,
        req.user_token is Some ==> req@.user_token->Some_0 == req.user_token->Some_0@,
        req@.context_path is Some <==> req.context_path is Some,
        req.context_path is Some ==> req@.context_path->Some_0 == req.context_path->Some_0@,
        req@.session_name is Some <==> req.session_name is Some,
        req.session_name is Some ==> req@.session_name->Some_0 == req.session_name->Some_0@,
        req@.admin_as_user == req.admin_as_user,
{
}

/// A reply, a user, a session and an outcome say what their fields hold.
pub proof fn law_login_result_fields(
    reply: LoginReply,
    user: Option<VerifiedUser>,
    session: Option<NewSession>,
    end: LoginOutcome,
)
    ensures
        reply@.status == reply.status,
        reply@.success == reply.body.success,
        reply@.message == reply.body.message@,
        reply@.set_cookie is Some <==> reply.set_cookie is Some,
        reply.set_cookie is Some ==> reply@.set_cookie->Some_0 == reply.set_cookie->Some_0@,
        opt_user(user) is Some <==> user is Some,
        user is Some ==> {
            let u = user->Some_0;
            &&& opt_user(user)->Some_0 == u@
            &&& u@.user_token == u.user_token@
            &&& u@.user_id is Some <==> u.user_id is Some
            &&& u.user_id is Some ==> u@.user_id->Some_0 == u.user_id->Some_0@
        },
        opt_session(session) is Some <==> session is Some,
        session is Some ==> {
            let s = session->Some_0;
            &&& opt_session(session)->Some_0 == s@
            &&& s@.session_token == s.session_token@
            &&& s@.session_token_hash == s.session_token_hash@
        },
        end@.reply == end.reply@,
        end@.register is Some <==> end.register is Some,
        end.register is Some ==> end@.register->Some_0.0 == end.register->Some_0.0@
            && end@.register->Some_0.1 == end.register->Some_0.1@,
{
}

/// A step is the one it was made as, with what it holds.
pub proof fn law_login_step_fields(step: LoginStep<'_>)
    ensures
        match (step, step@) {
            (LoginStep::Reply(reply), LoginStepView::Reply(view)) => view == reply@,
            (LoginStep::Verify(question), LoginStepView::Verify(view)) => view == question@,
            (
                LoginStep::CreateSession { auth_token, remember_me, user },
                LoginStepView::CreateSession { auth_token: t, remember_me: r, user: u },
            ) => t == auth_token@ && r == remember_me && (u is Some <==> user is Some) && (user
                is Some ==> u->Some_0 == user->Some_0@),
            (
                LoginStep::CreateVerifiedSession { remember_me, user },
                LoginStepView::CreateVerifiedSession { remember_me: r, user: u },
            ) => r == remember_me && u == user@,
            _ => false,
        },
{
}

/// A login puts a question exactly where it has a user token and there is a
/// client. The question is about the request's own token, context path and session
/// name, for attaching, and suppresses the admin bypass exactly where the request
/// asks for that.
pub proof fn law_question_is_the_request(policy: LoginPolicy, req: LoginRequestView)
    ensures
        first_step(policy, req) is Verify <==> req.user_token is Some && policy.has_acl_client,
        first_step(policy, req) is Verify ==> {
            let question = first_step(policy, req)->Verify_0;
            &&& req.user_token == Some(question.token)
            &&& question.context_path == req.context_path
            &&& question.session_name == req.session_name
            &&& question.action == "attach"@
            &&& question.force_non_admin <==> req.admin_as_user
        },
{
}

/// The admin flag of a request changes what is asked and nothing else; whether the
/// rules are enforced changes nothing where there is a user token.
pub proof fn law_first_step_depends_on_little(
    policy: LoginPolicy,
    other: LoginPolicy,
    req: LoginRequestView,
    admin_as_user: bool,
)
    requires
        policy.has_acl_client == other.has_acl_client,
    ensures
        req.user_token is Some ==> first_step(policy, req) == first_step(other, req),
        !(first_step(policy, req) is Verify) ==> first_step(
            policy,
            LoginRequestView { admin_as_user, ..req },
        ) == first_step(policy, req),
{
}

/// The session token is issued against the auth token of the request, to be
/// remembered exactly where the request says so, and the user of the session is
/// the one whose token was found valid, with the id that the server gave.
pub proof fn law_session_is_issued_for_the_request(
    policy: LoginPolicy,
    req: LoginRequestView,
    outcome: Result<VerifyResponseView, AclErrorView>,
)
    ensures
        match first_step(policy, req) {
            LoginStepView::CreateSession { auth_token, remember_me, user } => {
                &&& auth_token == req.auth_token
                &&& remember_me <==> req.remember_me == Some(true)
                &&& user is None
            },
            LoginStepView::CreateVerifiedSession { .. } => false,
            _ => true,
        },
        req.user_token is Some ==> match step_after_verification(policy, req, outcome) {
            LoginStepView::CreateSession { auth_token, remember_me, user } => {
                &&& auth_token == req.auth_token
                &&& remember_me <==> req.remember_me == Some(true)
                &&& user is Some <==> outcome is Ok
                &&& user is Some ==> outcome->Ok_0.valid && auth_token.len() > 0
                    && req.user_token == Some(user->Some_0.user_token) && user->Some_0.user_id
                    == outcome->Ok_0.user_id
                &&& user is None ==> outcome is Err && !policy.acl_required
            },
            LoginStepView::CreateVerifiedSession { remember_me, user } => {
                &&& req.auth_token.len() == 0
                &&& remember_me <==> req.remember_me == Some(true)
                &&& outcome is Ok && outcome->Ok_0.valid
                &&& req.user_token == Some(user.user_token)
                &&& user.user_id == outcome->Ok_0.user_id
            },
            LoginStepView::Reply(_) => outcome is Err && policy.acl_required || outcome is Ok
                && !outcome->Ok_0.valid,
            LoginStepView::Verify(_) => false,
        },
{
}

/// A refusal is answered with 401, 403 or 503, no success and no cookie.
pub proof fn law_refusals(
    policy: LoginPolicy,
    req: LoginRequestView,
    outcome: Result<VerifyResponseView, AclErrorView>,
)
    ensures
        first_step(policy, req) is Reply <==> policy.acl_required && req.user_token is None,
        first_step(policy, req) is Reply ==> {
            let reply = first_step(policy, req)->Reply_0;
            &&& reply.status == 401 && !reply.success && reply.set_cookie is None
            &&& reply.message == "user_token required when ACL is enforced"@
        },
        step_after_verification(policy, req, outcome) is Reply ==> {
            let reply = step_after_verification(policy, req, outcome)->Reply_0;
            let denied = "acl_denied: "@;
            &&& !reply.success && reply.set_cookie is None
            &&& outcome is Err ==> reply.status == 503 && reply.message == "tachikoma_unreachable"@
            &&& outcome is Ok ==> {
                &&& reply.status == 403
                &&& denied.is_prefix_of(reply.message)
                &&& reply.message.skip(denied.len() as int) == (if outcome->Ok_0.reason is Some {
                    outcome->Ok_0.reason->Some_0
                } else {
                    "unknown"@
                })
            }
        },
{
    let denied = "acl_denied: "@;
    if step_after_verification(policy, req, outcome) is Reply && outcome is Ok {
        let message = step_after_verification(policy, req, outcome)->Reply_0.message;
        let reason = if outcome->Ok_0.reason is Some {
            outcome->Ok_0.reason->Some_0
        } else {
            "unknown"@
        };
        assert(message.skip(denied.len() as int) =~= reason);
        assert(denied =~= message.subrange(0, denied.len() as int));
    }
}

/// A login succeeds exactly where a session token was issued. It is then tracked
/// exactly where its user was verified and there is a store: under the hash of
/// that token, with the user's token and id, the request's context path and
/// session name, as verified now and not revoked.
pub proof fn law_issued_session_succeeds_and_is_tracked(
    policy: LoginPolicy,
    req: LoginRequestView,
    user: Option<VerifiedUserView>,
    session: Option<NewSessionView>,
    now: nat,
)
    ensures
        ({
            let end = outcome_after_session(policy, req, user, session, now);
            &&& end.reply.success <==> session is Some
            &&& session is Some ==> end.reply.status == 200 && end.reply.message
                == "Login successful"@
            &&& session is None ==> end.reply.status == 401 && end.reply.message
                == "Invalid authentication token"@ && end.reply.set_cookie is None
            &&& end.register is Some <==> session is Some && user is Some
                && policy.has_session_store
            &&& end.register is Some ==> {
                let (hash, info) = end.register->Some_0;
                &&& hash == session->Some_0.session_token_hash
                &&& info.user_token == user->Some_0.user_token
                &&& info.user_id == user->Some_0.user_id
                &&& info.context_path == req.context_path
                &&& info.session_name == req.session_name
                &&& info.last_verified_at == now
                &&& !info.revoked
                &&& info.revoke_reason is None
            }
        }),
{
}

/// The cookie holds the session token and nothing else of the login, and is set
/// exactly where a header can carry it: where the token has no control character
/// but tabs.
pub proof fn law_cookie_of_a_login(
    policy: LoginPolicy,
    req: LoginRequestView,
    user: Option<VerifiedUserView>,
    session: NewSessionView,
    now: nat,
)
    ensures
        ({
            let set = outcome_after_session(policy, req, user, Some(session), now).reply.set_cookie;
            &&& set is Some <==> forall|i: int|
                0 <= i < session.session_token.len() ==> (#[trigger] session.session_token[i]
                    == '\t' || session.session_token[i] >= ' ') && session.session_token[i]
                    != '\u{7f}'
            &&& set is Some ==> set->Some_0 == session_cookie(
                session.session_token,
                policy.is_https,
                req.remember_me == Some(true),
            )
        }),
{
    let token = session.session_token;
    let cookie = session_cookie(token, policy.is_https, req.remembered());
    if sendable(token) {
        law_sendable_token_sets_the_cookie(token, policy.is_https, req.remembered());
    }
    law_session_cookie_text(token, policy.is_https, req.remembered());
    let name = "session_token="@;
    assert forall|i: int| 0 <= i < token.len() implies token[i] == #[trigger] cookie[i
        + name.len()] by {}
    if sendable(cookie) {
        assert forall|i: int| 0 <= i < token.len() implies foreign::header_char(
            #[trigger] token[i],
        ) by {
            assert(foreign::header_char(cookie[i + name.len()]));
        }
    }
    if forall|i: int|
        0 <= i < token.len() ==> (#[trigger] token[i] == '\t' || token[i] >= ' ') && token[i]
            != '\u{7f}' {
        assert(sendable(token));
    }
}

/// The session cookie, letter by letter: its name and the token, hidden from
/// scripts, for this site only, over HTTPS only where the server has it, for every
/// path, and for four weeks where it is remembered.
pub proof fn law_session_cookie_text(session_token: Seq<char>, is_https: bool, remembered: bool)
    ensures
        session_cookie(session_token, is_https, remembered) == "session_token="@ + session_token
            + "; HttpOnly; SameSite=Strict"@ + (if is_https {
            "; Secure"@
        } else {
            Seq::empty()
        }) + "; Path=/"@ + (if remembered {
            "; Max-Age=2419200"@
        } else {
            Seq::empty()
        }),
{
    reveal_strlit("session_token");
    reveal_strlit("session_token=");
    reveal_strlit("=");
    reveal_strlit("; ");
    reveal_strlit("HttpOnly");
    reveal_strlit("; SameSite=");
    reveal_strlit("Strict");
    reveal_strlit("; HttpOnly; SameSite=Strict");
    reveal_strlit("Secure");
    reveal_strlit("; Secure");
    reveal_strlit("; Path=");
    reveal_strlit("/");
    reveal_strlit("; Path=/");
    reveal_strlit("; Max-Age=");
    reveal_strlit("; Max-Age=2419200");
    reveal_with_fuel(text::decimal, 8);
    assert(text::decimal(2419200) =~= seq!['2', '4', '1', '9', '2', '0', '0']);
    assert("; Max-Age=2419200"@ =~= "; Max-Age="@ + text::decimal(2419200));
    assert("session_token="@ =~= "session_token"@ + "="@);
    assert("; Secure"@ =~= "; "@ + "Secure"@);
    assert("; HttpOnly; SameSite=Strict"@ =~= "; "@ + "HttpOnly"@ + "; SameSite="@ + "Strict"@);
    assert("; Path=/"@ =~= "; Path="@ + "/"@);
    let left = session_cookie(session_token, is_https, remembered);
    let secure = if is_https {
        "; Secure"@
    } else {
        Seq::empty()
    };
    let age = if remembered {
        "; Max-Age=2419200"@
    } else {
        Seq::empty()
    };
    assert(left =~= "session_token="@ + session_token + "; HttpOnly; SameSite=Strict"@ + secure
        + "; Path=/"@ + age);
}

/// A visitor counts as authenticated exactly where one of the cookies is named
/// `session_token`.
pub proof fn law_session_cookie_is_known_by_name(names: Seq<Seq<char>>)
    ensures
        names_session_cookie(names) <==> exists|i: int|
            0 <= i < names.len() && #[trigger] names[i] == "session_token"@,
{
}

} // verus!
