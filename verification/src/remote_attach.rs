//! Attaching to a remote session over HTTP(S).
//!
//! The flow: [`attach_to_remote_session`] reads the URL and the options and
//! plans the attach; a saved session token is tried first where the plan says
//! so, and [`after_saved_token`] decides what its result means; [`AuthRetry`]
//! then drives the authentication with its limited number of attempts.

use vstd::prelude::*;
use vstd::string::*;

use crate::foreign;
use crate::text;

verus! {

/// How often a user may try to authenticate: once, and two retries.
pub const MAX_AUTH_ATTEMPTS: u32 = 3;

/// Why an attach failed.
#[derive(Debug)]
pub enum RemoteClientError {
    /// The server refused the authentication token.
    InvalidAuthToken,
    /// The saved session token is no longer valid.
    SessionTokenExpired,
    /// The URL cannot be parsed.
    UrlParseError(String),
    /// The connection could not be made.
    ConnectionFailed(String),
    /// The terminal could not be read.
    IoError(String),
    /// Anything else.
    Other(String),
}

/// What a [`RemoteClientError`] says.
pub enum RemoteErrorView {
    InvalidAuthToken,
    SessionTokenExpired,
    UrlParseError(Seq<char>),
    ConnectionFailed(Seq<char>),
    IoError(Seq<char>),
    Other(Seq<char>),
}

impl View for RemoteClientError {
    type V = RemoteErrorView;

    open spec fn view(&self) -> RemoteErrorView {
        match self {
            RemoteClientError::InvalidAuthToken => RemoteErrorView::InvalidAuthToken,
            RemoteClientError::SessionTokenExpired => RemoteErrorView::SessionTokenExpired,
            RemoteClientError::UrlParseError(e) => RemoteErrorView::UrlParseError(e@),
            RemoteClientError::ConnectionFailed(e) => RemoteErrorView::ConnectionFailed(e@),
            RemoteClientError::IoError(e) => RemoteErrorView::IoError(e@),
            RemoteClientError::Other(e) => RemoteErrorView::Other(e@),
        }
    }
}

/// The last value given to `name` that is not empty.
pub open spec fn last_value(pairs: Seq<(Seq<char>, Seq<char>)>, name: Seq<char>) -> Option<
    Seq<char>,
>
    decreases pairs.len(),
{
    if pairs.len() == 0 {
        None
    } else if pairs.last().0 == name && pairs.last().1.len() > 0 {
        Some(pairs.last().1)
    } else {
        last_value(pairs.drop_last(), name)
    }
}

/// Whether `value` switches a flag on.
pub open spec fn is_yes(value: Seq<char>) -> bool {
    value == "true"@ || value == "1"@ || value == "yes"@
}

/// Whether the last value given to `name` switches it on.
pub open spec fn last_flag(pairs: Seq<(Seq<char>, Seq<char>)>, name: Seq<char>) -> bool
    decreases pairs.len(),
{
    if pairs.len() == 0 {
        false
    } else if pairs.last().0 == name {
        is_yes(pairs.last().1)
    } else {
        last_flag(pairs.drop_last(), name)
    }
}

/// The access-control fields of a URL.
pub struct AclParams {
    pub user_token: Option<Seq<char>>,
    pub context_path: Option<Seq<char>>,
    pub session_name: Option<Seq<char>>,
    pub admin_as_user: bool,
}

/// The access-control fields among the pairs of a query.
pub open spec fn acl_params(pairs: Seq<(Seq<char>, Seq<char>)>) -> AclParams {
    AclParams {
        user_token: last_value(pairs, "user_token"@),
        context_path: last_value(pairs, "context_path"@),
        session_name: last_value(pairs, "session_name"@),
        admin_as_user: last_flag(pairs, "admin_as_user"@),
    }
}

/// The access-control fields of a URL; none where it cannot be parsed.
pub open spec fn url_acl_params(url: Seq<char>) -> AclParams {
    if foreign::url_parse_error(url) is Some {
        acl_params(Seq::empty())
    } else {
        acl_params(foreign::url_query_pairs(url))
    }
}

/// What a tuple of access-control fields says.
pub open spec fn params_view(r: (Option<String>, Option<String>, Option<String>, bool)) -> AclParams {
    AclParams {
        user_token: text::opt_text(r.0),
        context_path: text::opt_text(r.1),
        session_name: text::opt_text(r.2),
        admin_as_user: r.3,
    }
}

/// The access-control fields among the pairs of a query, as (user token, context
/// path, session name, admin as user).
pub fn acl_params_of(pairs: &Vec<(String, String)>) -> (r: (
    Option<String>,
    Option<String>,
    Option<String>,
    bool,
))
    ensures
        params_view(r) == acl_params(foreign::pair_texts(pairs@)),
{
    let mut user_token: Option<String> = None;
    let mut context_path: Option<String> = None;
    let mut session_name: Option<String> = None;
    let mut admin_as_user: bool = false;
    let mut i: usize = 0;
    let ghost all = foreign::pair_texts(pairs@);
    proof {
        reveal_strlit("user_token");
        reveal_strlit("context_path");
        reveal_strlit("session_name");
        reveal_strlit("admin_as_user");
        assert("user_token"@.len() == 10 && "context_path"@.len() == 12 && "session_name"@.len()
            == 12 && "admin_as_user"@.len() == 13);
        assert("context_path"@[0] != "session_name"@[0]);
    }
    while i < pairs.len()
        invariant
            i <= pairs@.len(),
            all == foreign::pair_texts(pairs@),
            "user_token"@ != "context_path"@,
            "user_token"@ != "session_name"@,
            "user_token"@ != "admin_as_user"@,
            "context_path"@ != "session_name"@,
            "context_path"@ != "admin_as_user"@,
            "session_name"@ != "admin_as_user"@,
            text::opt_text(user_token) == last_value(all.take(i as int), "user_token"@),
            text::opt_text(context_path) == last_value(all.take(i as int), "context_path"@),
            text::opt_text(session_name) == last_value(all.take(i as int), "session_name"@),
            admin_as_user == last_flag(all.take(i as int), "admin_as_user"@),
        decreases pairs@.len() - i,
    {
        let name = pairs[i].0.as_str();
        let value = pairs[i].1.as_str();
        proof {
            assert(all.take(i + 1).drop_last() =~= all.take(i as int));
            assert(all.take(i + 1).last() == (name@, value@));
        }
        if text::text_eq(name, "user_token") {
            if !value.is_empty() {
                user_token = Some(value.to_owned());
            }
        } else if text::text_eq(name, "context_path") {
            if !value.is_empty() {
                context_path = Some(value.to_owned());
            }
        } else if text::text_eq(name, "session_name") {
            if !value.is_empty() {
                session_name = Some(value.to_owned());
            }
        } else if text::text_eq(name, "admin_as_user") {
            admin_as_user = text::text_eq(value, "true") || text::text_eq(value, "1")
                || text::text_eq(value, "yes");
        }
        i = i + 1;
    }
    assert(all.take(i as int) =~= all);
    (user_token, context_path, session_name, admin_as_user)
}

/// The access-control fields in the query of a URL:
/// `?user_token=…&context_path=…&session_name=…&admin_as_user=true`. A field that
/// is missing, or a URL that cannot be parsed, gives `None` or `false`.
pub fn extract_url_acl_params(full_url: &str) -> (r: (
    Option<String>,
    Option<String>,
    Option<String>,
    bool,
))
    ensures
        params_view(r) == url_acl_params(full_url@),
{
    match foreign::query_pairs(full_url) {
        Ok(pairs) => acl_params_of(&pairs),
        Err(_) => (None, None, None, false),
    }
}

/// The URL of the server alone: the URL without path, query and fragment, and
/// without slashes at its end.
pub open spec fn server_url(url: Seq<char>) -> Seq<char> {
    text::trimmed_end(foreign::url_before_path(url), '/')
}

/// The URL of the server alone: what a saved session token is stored under. For
/// an `http` or `https` URL, taking it again changes nothing.
pub fn extract_server_url(full_url: &str) -> (r: Result<String, RemoteClientError>)
    ensures
        match r {
            Ok(s) => {
                &&& foreign::url_parse_error(full_url@) is None
                &&& s@ == server_url(full_url@)
                &&& foreign::is_web(s@) ==> foreign::url_parse_error(s@) is None && server_url(s@)
                    == s@
            },
            Err(e) => foreign::url_parse_error(full_url@) is Some && e@
                == RemoteErrorView::UrlParseError(foreign::url_parse_error(full_url@)->Some_0),
        },
{
    match foreign::before_path(full_url) {
        Ok(base) => {
            let server = text::trim_end(base.as_str(), '/');
            proof {
                if foreign::is_web(server@) {
                    lemma_trimmed_web_url(base@, server@);
                }
            }
            Ok(server)
        },
        Err(e) => Err(RemoteClientError::UrlParseError(e)),
    }
}

/// A text whose trimmed form is an `http` or `https` URL is one itself.
proof fn lemma_trimmed_web_url(whole: Seq<char>, trimmed: Seq<char>)
    requires
        trimmed == text::trimmed_end(whole, '/'),
        foreign::is_web(trimmed),
    ensures
        foreign::is_web(whole),
{
    text::law_trimmed_end(whole, '/');
    if "http://"@.is_prefix_of(trimmed) {
        assert("http://"@ =~= whole.subrange(0, "http://"@.len() as int));
    } else {
        assert("https://"@ =~= whole.subrange(0, "https://"@.len() as int));
    }
}

/// The server URL does not depend on path, query and fragment.
pub proof fn law_server_url_ignores_the_location(url: Seq<char>, other: Seq<char>)
    requires
        foreign::differ_in_location(url, other),
    ensures
        server_url(url) == server_url(other),
{
}

/// The session that a path names: everything after its first slash, without the
/// slashes at its end. The empty name stands for no session.
pub open spec fn session_of_path(path: Seq<char>) -> Seq<char> {
    if path.len() > 1 && path[0] == '/' {
        text::trimmed_end(path.skip(1), '/')
    } else {
        Seq::empty()
    }
}

/// The session that a path names.
pub fn session_name_of(path: &str) -> (r: String)
    ensures
        r@ == session_of_path(path@),
{
    let chars = text::to_chars(path);
    if chars.len() > 1 && chars[0] == '/' {
        let rest = text::from_chars(&chars, 1, chars.len());
        assert(rest@ =~= path@.skip(1));
        text::trim_end(rest.as_str(), '/')
    } else {
        String::new()
    }
}

/// The session that a URL names.
pub fn extract_session_name(server_url: &str) -> (r: Result<String, RemoteClientError>)
    ensures
        match r {
            Ok(s) => foreign::url_parse_error(server_url@) is None && s@ == session_of_path(
                foreign::url_path(server_url@),
            ),
            Err(e) => foreign::url_parse_error(server_url@) is Some && e@
                == RemoteErrorView::UrlParseError(foreign::url_parse_error(server_url@)->Some_0),
        },
{
    match foreign::path(server_url) {
        Ok(path) => Ok(session_name_of(path.as_str())),
        Err(e) => Err(RemoteClientError::UrlParseError(e)),
    }
}

/// The server and the session that a URL leads to.
#[derive(Debug)]
pub struct AttachTarget {
    pub server_base_url: String,
    pub session_name: String,
}

/// The server and the session that a URL leads to, for either way to attach.
pub fn attach_target(url: &str) -> (r: Result<AttachTarget, RemoteClientError>)
    ensures
        match r {
            Ok(t) => {
                &&& foreign::url_parse_error(url@) is None
                &&& t.server_base_url@ == server_url(url@)
                &&& t.session_name@ == session_of_path(foreign::url_path(url@))
            },
            Err(e) => foreign::url_parse_error(url@) is Some && e@
                == RemoteErrorView::UrlParseError(foreign::url_parse_error(url@)->Some_0),
        },
{
    let server_base_url = match extract_server_url(url) {
        Ok(s) => s,
        Err(e) => {
            return Err(e);
        },
    };
    let session_name = match extract_session_name(url) {
        Ok(s) => s,
        Err(e) => {
            return Err(e);
        },
    };
    Ok(AttachTarget { server_base_url, session_name })
}

/// What became of the connections: a failure is reported as such.
pub fn connected<C>(connections: Result<C, String>) -> (r: Result<C, RemoteClientError>)
    ensures
        match (connections, r) {
            (Ok(c), Ok(d)) => c == d,
            (Err(e), Err(f)) => f@ == RemoteErrorView::ConnectionFailed(e@),
            _ => false,
        },
{
    match connections {
        Ok(c) => Ok(c),
        Err(e) => Err(RemoteClientError::ConnectionFailed(e)),
    }
}

/// The options of an attach.
#[derive(Debug)]
pub struct AttachOptions {
    /// The authentication token, where one was given.
    pub token: Option<String>,
    /// Save the session token.
    pub remember: bool,
    /// Delete the saved session token.
    pub forget: bool,
    pub user_token: Option<String>,
    pub user_context: Option<String>,
    pub user_session: Option<String>,
    pub admin_as_user: bool,
}

/// What to do to attach.
#[derive(Debug)]
pub struct AttachPlan {
    pub server_url: String,
    /// Delete the session token saved for the server first.
    pub delete_saved_token: bool,
    /// Try the saved session token before asking for credentials.
    pub try_saved_token: bool,
    pub token: Option<String>,
    pub remember: bool,
    pub user_token: Option<String>,
    pub user_context: Option<String>,
    pub user_session: Option<String>,
    pub admin_as_user: bool,
}

/// `first`, or `second` where it is missing.
pub open spec fn or(first: Option<Seq<char>>, second: Option<Seq<char>>) -> Option<Seq<char>> {
    match first {
        Some(s) => Some(s),
        None => second,
    }
}

fn or_else(first: Option<String>, second: Option<String>) -> (r: Option<String>)
    ensures
        text::opt_text(r) == or(text::opt_text(first), text::opt_text(second)),
{
    match first {
        Some(s) => Some(s),
        None => second,
    }
}

/// Whether `plan` is what the options and the fields of the URL ask for. An
/// option that was given wins over the field of the URL.
pub open spec fn plans(plan: AttachPlan, options: AttachOptions, params: AclParams) -> bool {
    &&& plan.delete_saved_token == (options.forget || options.token is Some)
    &&& plan.try_saved_token == options.token is None
    &&& text::opt_text(plan.token) == text::opt_text(options.token)
    &&& plan.remember == options.remember
    &&& text::opt_text(plan.user_token) == or(
        text::opt_text(options.user_token),
        params.user_token,
    )
    &&& text::opt_text(plan.user_context) == or(
        text::opt_text(options.user_context),
        params.context_path,
    )
    &&& text::opt_text(plan.user_session) == or(
        text::opt_text(options.user_session),
        params.session_name,
    )
    &&& plan.admin_as_user == (options.admin_as_user || params.admin_as_user)
}

/// Plan an attach to the session behind a URL. It fails only where the URL
/// cannot be parsed.
pub fn attach_to_remote_session(
    remote_session_url: &str,
    options: AttachOptions,
) -> (r: Result<AttachPlan, RemoteClientError>)
    ensures
        match r {
            Ok(plan) => {
                &&& foreign::url_parse_error(remote_session_url@) is None
                &&& plan.server_url@ == server_url(remote_session_url@)
                &&& plans(plan, options, url_acl_params(remote_session_url@))
            },
            Err(e) => foreign::url_parse_error(remote_session_url@) is Some && e@
                == RemoteErrorView::UrlParseError(
                foreign::url_parse_error(remote_session_url@)->Some_0,
            ),
        },
{
    let params = extract_url_acl_params(remote_session_url);
    match extract_server_url(remote_session_url) {
        Ok(server_url) => Ok(plan_attach(server_url, options, params)),
        Err(e) => Err(e),
    }
}

/// Plan an attach from the options and the fields of the URL, given as (user
/// token, context path, session name, admin as user).
pub fn plan_attach(
    server_url: String,
    options: AttachOptions,
    params: (Option<String>, Option<String>, Option<String>, bool),
) -> (plan: AttachPlan)
    ensures
        plan.server_url == server_url,
        plans(plan, options, params_view(params)),
{
    let (url_user_token, url_user_context, url_user_session, url_admin_as_user) = params;
    let has_token = options.token.is_some();
    AttachPlan {
        server_url,
        delete_saved_token: options.forget || has_token,
        try_saved_token: !has_token,
        token: options.token,
        remember: options.remember,
        user_token: or_else(options.user_token, url_user_token),
        user_context: or_else(options.user_context, url_user_context),
        user_session: or_else(options.user_session, url_user_session),
        admin_as_user: options.admin_as_user || url_admin_as_user,
    }
}

/// The saved session token to try. One that cannot be read is as good as none.
pub fn saved_token_to_try(lookup: Result<Option<String>, String>) -> (r: Option<String>)
    ensures
        r == (match lookup {
            Ok(saved) => saved,
            Err(_) => None,
        }),
{
    match lookup {
        Ok(saved) => saved,
        Err(_) => None,
    }
}

/// What the attempt with a saved session token leads to.
#[derive(Debug)]
pub enum SavedTokenStep<C> {
    /// Attached.
    Connected(C),
    /// The session has expired: delete the saved token and authenticate.
    Reauthenticate,
    /// Give up.
    Fail(RemoteClientError),
}

/// Decide what the attempt with a saved session token leads to.
pub fn after_saved_token<C>(result: Result<C, RemoteClientError>) -> (r: SavedTokenStep<C>)
    ensures
        match result {
            Ok(c) => r == SavedTokenStep::Connected(c),
            Err(e) => if e is SessionTokenExpired {
                r is Reauthenticate
            } else {
                r == SavedTokenStep::<C>::Fail(e)
            },
        },
{
    match result {
        Ok(c) => SavedTokenStep::Connected(c),
        Err(e) => match e {
            RemoteClientError::SessionTokenExpired => SavedTokenStep::Reauthenticate,
            other => SavedTokenStep::Fail(other),
        },
    }
}

/// Where the token of an attempt comes from.
#[derive(Debug)]
pub enum Credential {
    /// This token.
    Token(String),
    /// The user is asked for one.
    Prompt,
}

/// What a [`Credential`] says.
pub enum CredentialView {
    Token(Seq<char>),
    Prompt,
}

impl View for Credential {
    type V = CredentialView;

    open spec fn view(&self) -> CredentialView {
        match self {
            Credential::Token(t) => CredentialView::Token(t@),
            Credential::Prompt => CredentialView::Prompt,
        }
    }
}

/// The token that the user gave when asked for one. Where the terminal could not
/// be read, the authentication ends without an attempt.
pub fn prompted(answer: Result<String, String>) -> (r: Result<String, RemoteClientError>)
    ensures
        match answer {
            Ok(token) => r is Ok && r->Ok_0@ == token@,
            Err(e) => r is Err && r->Err_0@ == RemoteErrorView::IoError(e@),
        },
{
    match answer {
        Ok(token) => Ok(token),
        Err(e) => Err(RemoteClientError::IoError(e)),
    }
}

/// What an attempt leads to.
#[derive(Debug)]
pub enum AttemptStep<C> {
    /// Attached; save this session token for the server, where there is one.
    Done { connections: C, save: Option<String> },
    /// The token was refused: ask the user whether to try again.
    AskRetry,
    /// Give up.
    Fail(RemoteClientError),
}

/// The state of an authentication.
pub struct RetryView {
    /// The attempts made so far.
    pub attempt: nat,
    /// The token for the next attempt, where one was given.
    pub token: Option<Seq<char>>,
    /// The user has a user token, which needs no authentication token.
    pub has_user_token: bool,
}

impl RetryView {
    /// Where the token of the next attempt comes from. With a user token the
    /// authentication token is left empty, without asking.
    pub open spec fn credential(self) -> CredentialView {
        match self.token {
            Some(t) => CredentialView::Token(t),
            None => if self.has_user_token {
                CredentialView::Token(Seq::empty())
            } else {
                CredentialView::Prompt
            },
        }
    }

    /// The state with one more attempt made.
    pub open spec fn attempted(self) -> RetryView {
        RetryView { attempt: self.attempt + 1, ..self }
    }

    /// Whether a refused token can be followed by another attempt.
    pub open spec fn may_retry(self) -> bool {
        self.attempt < MAX_AUTH_ATTEMPTS
    }

    /// The state after the user chose to try again: the refused token is not
    /// used again.
    pub open spec fn retrying(self) -> RetryView {
        RetryView { token: None, ..self }
    }
}

/// An authentication with its limited number of attempts.
#[derive(Debug)]
pub struct AuthRetry {
    attempt: u32,
    current_token: Option<String>,
    has_user_token: bool,
}

impl View for AuthRetry {
    type V = RetryView;

    closed spec fn view(&self) -> RetryView {
        RetryView {
            attempt: self.attempt as nat,
            token: text::opt_text(self.current_token),
            has_user_token: self.has_user_token,
        }
    }
}

impl AuthRetry {
    /// An authentication that begins with `initial_token`, where there is one.
    pub fn new(initial_token: Option<String>, has_user_token: bool) -> (r: Self)
        ensures
            r@ == (RetryView {
                attempt: 0,
                token: text::opt_text(initial_token),
                has_user_token,
            }),
    {
        AuthRetry { attempt: 0, current_token: initial_token, has_user_token }
    }

    /// Whether another attempt is allowed.
    pub fn may_retry(&self) -> (r: bool)
        ensures
            r == self@.may_retry(),
    {
        self.attempt < MAX_AUTH_ATTEMPTS
    }

    /// Begin the next attempt: where its token comes from.
    pub fn next_credential(&mut self) -> (r: Credential)
        requires
            old(self)@.may_retry(),
        ensures
            r@ == old(self)@.credential(),
            final(self)@ == old(self)@.attempted(),
    {
        self.attempt = self.attempt + 1;
        match &self.current_token {
            Some(t) => Credential::Token(t.clone()),
            None => {
                if self.has_user_token {
                    Credential::Token(String::new())
                } else {
                    Credential::Prompt
                }
            },
        }
    }

    /// Decide what the result of an attempt leads to. A result is the
    /// connections and the session token that the server issued, if any.
    pub fn after_attempt<C>(
        &self,
        result: Result<(C, Option<String>), RemoteClientError>,
    ) -> (r: AttemptStep<C>)
        ensures
            match result {
                Ok((c, session_token)) => r == (AttemptStep::Done {
                    connections: c,
                    save: session_token,
                }),
                Err(e) => if e is InvalidAuthToken && self@.may_retry() {
                    r is AskRetry
                } else {
                    r == AttemptStep::<C>::Fail(e)
                },
            },
    {
        match result {
            Ok((connections, save)) => AttemptStep::Done { connections, save },
            Err(e) => match e {
                RemoteClientError::InvalidAuthToken => {
                    if self.attempt >= MAX_AUTH_ATTEMPTS {
                        AttemptStep::Fail(RemoteClientError::InvalidAuthToken)
                    } else {
                        AttemptStep::AskRetry
                    }
                },
                other => AttemptStep::Fail(other),
            },
        }
    }

    /// Take in whether the user wants to try again. `Err` ends the
    /// authentication.
    pub fn after_confirm(&mut self, again: Result<bool, String>) -> (r: Result<
        (),
        RemoteClientError,
    >)
        ensures
            match again {
                Ok(true) => r is Ok && final(self)@ == old(self)@.retrying(),
                Ok(false) => r is Err && r->Err_0@ == RemoteErrorView::InvalidAuthToken
                    && final(self)@ == old(self)@,
                Err(e) => r is Err && r->Err_0@ == RemoteErrorView::IoError(e@) && final(self)@
                    == old(self)@,
            },
    {
        match again {
            Ok(true) => {
                self.current_token = None;
                Ok(())
            },
            Ok(false) => Err(RemoteClientError::InvalidAuthToken),
            Err(e) => Err(RemoteClientError::IoError(e)),
        }
    }
}

/// How one round of an authentication goes.
pub enum Round {
    /// The server accepted the token.
    Accepted,
    /// The server refused the token, and the user does, or does not, want to try
    /// again.
    Refused { again: bool },
    /// The attempt failed otherwise.
    Failed,
    /// The user was to be asked for a token, and the terminal could not be read.
    NoAnswer,
}

impl RetryView {
    /// Where the token of each attempt comes from, over an authentication whose
    /// rounds go like `rounds`.
    pub open spec fn attempts(self, rounds: Seq<Round>) -> Seq<CredentialView>
        decreases rounds.len(),
    {
        if rounds.len() == 0 || !self.may_retry() {
            Seq::empty()
        } else if rounds[0] is NoAnswer && self.credential() is Prompt {
            Seq::empty()
        } else {
            let tried = self.attempted();
            let goes_on = rounds[0] == (Round::Refused { again: true }) && tried.may_retry();
            seq![self.credential()] + if goes_on {
                tried.retrying().attempts(rounds.skip(1))
            } else {
                Seq::empty()
            }
        }
    }
}

/// An authentication makes no more attempts than are allowed.
pub proof fn law_attempts_are_limited(v: RetryView, rounds: Seq<Round>)
    requires
        v.attempt <= MAX_AUTH_ATTEMPTS,
    ensures
        v.attempts(rounds).len() <= MAX_AUTH_ATTEMPTS - v.attempt,
        v.attempts(rounds).len() <= rounds.len(),
    decreases rounds.len(),
{
    if rounds.len() > 0 && v.may_retry() && v.attempted().may_retry() {
        law_attempts_are_limited(v.attempted().retrying(), rounds.skip(1));
    }
}

/// A user who keeps trying gets every attempt that is allowed.
pub proof fn law_persistence_gets_every_attempt(v: RetryView, rounds: Seq<Round>)
    requires
        v.attempt <= MAX_AUTH_ATTEMPTS,
        rounds.len() >= MAX_AUTH_ATTEMPTS - v.attempt,
        forall|i: int| 0 <= i < rounds.len() ==> #[trigger] rounds[i] == (Round::Refused {
            again: true,
        }),
    ensures
        v.attempts(rounds).len() == MAX_AUTH_ATTEMPTS - v.attempt,
    decreases rounds.len(),
{
    if v.may_retry() {
        assert(rounds[0] == (Round::Refused { again: true }));
        if v.attempted().may_retry() {
            let rest = rounds.skip(1);
            assert forall|i: int| 0 <= i < rest.len() implies #[trigger] rest[i] == (
            Round::Refused { again: true }) by {
                assert(rest[i] == rounds[i + 1]);
            }
            law_persistence_gets_every_attempt(v.attempted().retrying(), rest);
        }
    }
}

/// A given token is used for the first attempt only. With a user token nobody is
/// ever asked for an authentication token; without one, every later attempt
/// asks.
pub proof fn law_given_token_is_used_once(v: RetryView, rounds: Seq<Round>, i: int)
    requires
        0 <= i < v.attempts(rounds).len(),
    ensures
        i == 0 ==> v.attempts(rounds)[i] == v.credential(),
        i > 0 ==> v.attempts(rounds)[i] == v.retrying().credential(),
        v.has_user_token ==> v.attempts(rounds)[i] !is Prompt,
    decreases rounds.len(),
{
    let tried = v.attempted();
    if i > 0 {
        law_given_token_is_used_once(tried.retrying(), rounds.skip(1), i - 1);
        assert(v.attempts(rounds)[i] == tried.retrying().attempts(rounds.skip(1))[i - 1]);
    }
}

/// A prompt that fails ends the authentication, and the round makes no attempt:
/// those before it are all there are.
pub proof fn law_failed_prompt_makes_no_attempt(v: RetryView, rounds: Seq<Round>, i: int)
    requires
        0 <= i < rounds.len(),
        rounds[i] is NoAnswer,
        i == 0 ==> v.credential() is Prompt,
        i > 0 ==> v.retrying().credential() is Prompt,
    ensures
        v.attempts(rounds).len() <= i,
        v.attempts(rounds) == v.attempts(rounds.take(i)),
    decreases rounds.len(),
{
    let before = rounds.take(i);
    if i > 0 && v.may_retry() {
        assert(before[0] == rounds[0]);
        assert(before.skip(1) =~= rounds.skip(1).take(i - 1));
        assert(rounds.skip(1)[i - 1] == rounds[i]);
        let next = v.attempted().retrying();
        law_failed_prompt_makes_no_attempt(next, rounds.skip(1), i - 1);
    }
}

/// An option that was given is never overridden by the URL, and the flag can be
/// set from either.
pub proof fn law_given_options_win(plan: AttachPlan, options: AttachOptions, params: AclParams)
    requires
        plans(plan, options, params),
    ensures
        options.user_token is Some ==> text::opt_text(plan.user_token) == text::opt_text(
            options.user_token,
        ),
        options.user_context is Some ==> text::opt_text(plan.user_context) == text::opt_text(
            options.user_context,
        ),
        options.user_session is Some ==> text::opt_text(plan.user_session) == text::opt_text(
            options.user_session,
        ),
        options.admin_as_user ==> plan.admin_as_user,
        plan.try_saved_token ==> plan.token is None,
        plan.token is Some ==> plan.delete_saved_token,
{
}

/// A URL that cannot be parsed gives no access-control fields.
pub proof fn law_malformed_url_gives_defaults(url: Seq<char>)
    requires
        foreign::url_parse_error(url) is Some,
    ensures
        url_acl_params(url) == (AclParams {
            user_token: None,
            context_path: None,
            session_name: None,
            admin_as_user: false,
        }),
{
}

/// An empty value counts as missing.
pub proof fn law_empty_values_are_missing(
    pairs: Seq<(Seq<char>, Seq<char>)>,
    name: Seq<char>,
)
    ensures
        last_value(pairs, name) is Some ==> last_value(pairs, name)->Some_0.len() > 0,
        last_value(pairs.push((name, Seq::empty())), name) == last_value(pairs, name),
    decreases pairs.len(),
{
    assert(pairs.push((name, Seq::empty())).drop_last() =~= pairs);
    if pairs.len() > 0 {
        law_empty_values_are_missing(pairs.drop_last(), name);
    }
}

/// Of several values the last one counts; for a flag, even an empty one.
pub proof fn law_last_value_counts(
    pairs: Seq<(Seq<char>, Seq<char>)>,
    name: Seq<char>,
    value: Seq<char>,
)
    ensures
        value.len() > 0 ==> last_value(pairs.push((name, value)), name) == Some(value),
        last_flag(pairs.push((name, value)), name) == is_yes(value),
{
}

/// A pair of another name changes neither a value nor a flag.
pub proof fn law_other_names_do_not_matter(
    pairs: Seq<(Seq<char>, Seq<char>)>,
    name: Seq<char>,
    other: Seq<char>,
    value: Seq<char>,
)
    requires
        other != name,
    ensures
        last_value(pairs.push((other, value)), name) == last_value(pairs, name),
        last_flag(pairs.push((other, value)), name) == last_flag(pairs, name),
{
    assert(pairs.push((other, value)).drop_last() =~= pairs);
}

/// Neither the server URL nor the session name ends with a slash.
pub proof fn law_extracted_parts_end_without_slash(url: Seq<char>)
    ensures
        server_url(url).len() > 0 ==> server_url(url).last() != '/',
        ({
            let name = session_of_path(foreign::url_path(url));
            name.len() > 0 ==> name.last() != '/'
        }),
{
    text::law_trimmed_end(foreign::url_before_path(url), '/');
    text::law_trimmed_end(foreign::url_path(url).skip(1), '/');
}

/// An error is of the kind it was made as, with its text.
pub proof fn law_remote_error_fields(e: RemoteClientError)
    ensures
        match (e, e@) {
            (RemoteClientError::InvalidAuthToken, RemoteErrorView::InvalidAuthToken) => true,
            (RemoteClientError::SessionTokenExpired, RemoteErrorView::SessionTokenExpired) => true,
            (RemoteClientError::UrlParseError(t), RemoteErrorView::UrlParseError(v)) => v == t@,
            (RemoteClientError::ConnectionFailed(t), RemoteErrorView::ConnectionFailed(v)) => v
                == t@,
            (RemoteClientError::IoError(t), RemoteErrorView::IoError(v)) => v == t@,
            (RemoteClientError::Other(t), RemoteErrorView::Other(v)) => v == t@,
            _ => false,
        },
{
}

/// A credential is the one it was made as, with its token.
pub proof fn law_credential_fields(credential: Credential)
    ensures
        credential@ is Prompt <==> credential is Prompt,
        credential is Token ==> credential@ == CredentialView::Token(credential->Token_0@),
{
}

/// A token that was given is the one that is used, user token or not. Only where
/// none is left is the credential the empty token, with a user token, or a prompt,
/// without one.
pub proof fn law_given_token_comes_first(v: RetryView)
    ensures
        v.token is Some ==> v.credential() == CredentialView::Token(v.token->Some_0),
        v.token is None && v.has_user_token ==> v.credential() is Token
            && v.credential()->Token_0.len() == 0,
        v.credential() is Prompt <==> v.token is None && !v.has_user_token,
{
}

/// An authentication begins with the token that was given: its first attempt uses
/// exactly that, whatever the rounds bring, and whether or not there is a user
/// token.
pub proof fn law_first_attempt_uses_the_given_token(
    token: Seq<char>,
    has_user_token: bool,
    rounds: Seq<Round>,
)
    requires
        rounds.len() > 0,
    ensures
        ({
            let v = RetryView { attempt: 0, token: Some(token), has_user_token };
            &&& v.attempts(rounds).len() > 0
            &&& v.attempts(rounds)[0] == CredentialView::Token(token)
        }),
{
}

/// An attempt counts one and changes nothing else; trying again drops the token
/// and changes nothing else; and there are three attempts.
pub proof fn law_attempts_are_counted(v: RetryView)
    ensures
        v.attempted().attempt == v.attempt + 1,
        v.attempted().token == v.token,
        v.attempted().has_user_token == v.has_user_token,
        v.retrying().attempt == v.attempt,
        v.retrying().token is None,
        v.retrying().has_user_token == v.has_user_token,
        v.may_retry() <==> v.attempt <= 2,
{
}

/// A value switches a flag on exactly where it is one of `true`, `1` and `yes`,
/// letter by letter.
pub proof fn law_flag_words(value: Seq<char>)
    ensures
        is_yes(value) <==> value == seq!['t', 'r', 'u', 'e'] || value == seq!['1'] || value
            == seq!['y', 'e', 's'],
{
    reveal_strlit("true");
    reveal_strlit("1");
    reveal_strlit("yes");
    assert("true"@ =~= seq!['t', 'r', 'u', 'e']);
    assert("1"@ =~= seq!['1']);
    assert("yes"@ =~= seq!['y', 'e', 's']);
}

/// Without a query there are no fields, and each further pair sets the one field
/// that it names, where its value counts, and no other.
pub proof fn law_each_pair_sets_its_own_field(
    pairs: Seq<(Seq<char>, Seq<char>)>,
    name: Seq<char>,
    value: Seq<char>,
)
    ensures
        acl_params(Seq::empty()) == (AclParams {
            user_token: None,
            context_path: None,
            session_name: None,
            admin_as_user: false,
        }),
        ({
            let before = acl_params(pairs);
            let after = acl_params(pairs.push((name, value)));
            &&& after.user_token == (if name == "user_token"@ && value.len() > 0 {
                Some(value)
            } else {
                before.user_token
            })
            &&& after.context_path == (if name == "context_path"@ && value.len() > 0 {
                Some(value)
            } else {
                before.context_path
            })
            &&& after.session_name == (if name == "session_name"@ && value.len() > 0 {
                Some(value)
            } else {
                before.session_name
            })
            &&& after.admin_as_user == (if name == "admin_as_user"@ {
                is_yes(value)
            } else {
                before.admin_as_user
            })
        }),
{
    assert(pairs.push((name, value)).drop_last() =~= pairs);
}

/// The fields of a URL that parses are those of its query.
pub proof fn law_url_fields_are_those_of_the_query(url: Seq<char>)
    requires
        foreign::url_parse_error(url) is None,
    ensures
        url_acl_params(url) == acl_params(foreign::url_query_pairs(url)),
{
}

/// A tuple of fields says what it holds, each in its own place.
pub proof fn law_field_tuple(r: (Option<String>, Option<String>, Option<String>, bool))
    ensures
        params_view(r).user_token is Some <==> r.0 is Some,
        r.0 is Some ==> params_view(r).user_token->Some_0 == r.0->Some_0@,
        params_view(r).context_path is Some <==> r.1 is Some,
        r.1 is Some ==> params_view(r).context_path->Some_0 == r.1->Some_0@,
        params_view(r).session_name is Some <==> r.2 is Some,
        r.2 is Some ==> params_view(r).session_name->Some_0 == r.2->Some_0@,
        params_view(r).admin_as_user == r.3,
{
}

/// The server URL is the URL up to its path, but for slashes at the end.
pub proof fn law_server_url_is_the_part_before_the_path(url: Seq<char>)
    ensures
        server_url(url).is_prefix_of(foreign::url_before_path(url)),
        forall|i: int|
            server_url(url).len() <= i < foreign::url_before_path(url).len() ==> #[trigger]
            foreign::url_before_path(url)[i] == '/',
{
    text::law_trimmed_end(foreign::url_before_path(url), '/');
}

/// A path that is a slash, a name and slashes names that session; any other path,
/// that begins otherwise or is a slash alone, names none.
pub proof fn law_session_is_the_path_after_its_slash(path: Seq<char>)
    ensures
        path.len() == 0 || path[0] != '/' || path.len() == 1 ==> session_of_path(path).len() == 0,
        path.len() > 0 && path[0] == '/' ==> {
            let name = session_of_path(path);
            &&& name.len() + 1 <= path.len()
            &&& name == path.subrange(1, name.len() as int + 1)
            &&& forall|i: int| 1 + name.len() <= i < path.len() ==> path[i] == '/'
            &&& name.len() > 0 ==> name.last() != '/'
        },
{
    if path.len() > 1 && path[0] == '/' {
        let rest = path.skip(1);
        text::law_trimmed_end(rest, '/');
        let name = session_of_path(path);
        assert(name =~= path.subrange(1, name.len() as int + 1));
        assert forall|i: int| 1 + name.len() <= i < path.len() implies path[i] == '/' by {
            assert(rest[i - 1] == path[i]);
        }
    } else if path.len() == 1 {
        assert(session_of_path(path) =~= path.subrange(1, 1));
    }
}

/// An option that was not given comes from the URL; the flag is set exactly where
/// one of the two sets it. The saved token is deleted exactly where that was asked
/// for or a token was given, and tried exactly where none was given. The token and
/// whether to save the session token are handed on.
pub proof fn law_plan_fields(plan: AttachPlan, options: AttachOptions, params: AclParams)
    requires
        plans(plan, options, params),
    ensures
        options.user_token is None ==> text::opt_text(plan.user_token) == params.user_token,
        options.user_context is None ==> text::opt_text(plan.user_context) == params.context_path,
        options.user_session is None ==> text::opt_text(plan.user_session) == params.session_name,
        plan.admin_as_user <==> options.admin_as_user || params.admin_as_user,
        plan.delete_saved_token <==> options.forget || options.token is Some,
        plan.try_saved_token <==> options.token is None,
        plan.token is Some <==> options.token is Some,
        options.token is Some ==> plan.token->Some_0@ == options.token->Some_0@,
        plan.remember == options.remember,
{
}

} // verus!
