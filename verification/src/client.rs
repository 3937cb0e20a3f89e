//! Client of the Tachikoma verification endpoint.
//!
//! The client wraps `POST {base_url}/api/auth/verify-acl-token` with a small
//! cache, so that polling does not hammer the server. It decides what to send
//! and what a reply means; the caller carries the exchange out in between.

use std::collections::hash_map::DefaultHasher;

use vstd::prelude::*;
use vstd::std_specs::hash::*;
use vstd::string::*;

use crate::cache;
use crate::cache::{CacheUse, CacheView, TtlLru};
use crate::text;
use crate::types;
use crate::types::{
    AclError, AclErrorView, VerifyRequest, VerifyRequestView, VerifyResponse, VerifyResponseView,
};

verus! {

/// Time limit of a single exchange, in seconds. Kept short: a slow check
/// stalls a login.
pub const REQUEST_TIMEOUT_SECS: u64 = 5;

/// Path of the verification endpoint, relative to the base URL.
pub const VERIFY_PATH: &'static str = "/api/auth/verify-acl-token";

/// Name of the header by which the server authenticates callers that are not
/// local to it.
pub const BRIDGE_AUTH_HEADER: &'static str = "X-Tsp-Bridge-Auth";

/// A header of a request.
#[derive(Debug)]
pub struct Header {
    pub name: String,
    pub value: String,
}

/// What a [`Header`] says.
pub struct HeaderView {
    pub name: Seq<char>,
    pub value: Seq<char>,
}

impl View for Header {
    type V = HeaderView;

    open spec fn view(&self) -> HeaderView {
        HeaderView { name: self.name@, value: self.value@ }
    }
}

/// A `POST` to carry out: the body goes as JSON, within
/// [`REQUEST_TIMEOUT_SECS`].
#[derive(Debug)]
pub struct HttpCall<'a> {
    pub url: String,
    pub body: VerifyRequest<'a>,
    pub header: Option<Header>,
}

/// What an [`HttpCall`] says.
pub struct HttpCallView {
    pub url: Seq<char>,
    pub body: VerifyRequestView,
    pub header: Option<HeaderView>,
}

impl<'a> View for HttpCall<'a> {
    type V = HttpCallView;

    open spec fn view(&self) -> HttpCallView {
        HttpCallView {
            url: self.url@,
            body: self.body@,
            header: match self.header {
                Some(h) => Some(h@),
                None => None,
            },
        }
    }
}

/// How an exchange ended.
#[derive(Debug)]
pub enum HttpReply {
    /// No response arrived; the text says why.
    TransportError(String),
    /// A response arrived. `body` is its decoded body, or why it could not be
    /// decoded; it counts only where the status is a success.
    Response { status: u16, body: Result<VerifyResponse, String> },
}

/// Whether an HTTP status reports success.
pub open spec fn is_success(status: u16) -> bool {
    200 <= status < 300
}

/// What a reply means.
pub open spec fn reply_outcome(reply: HttpReply) -> Result<VerifyResponseView, AclErrorView> {
    match reply {
        HttpReply::TransportError(e) => Err(AclErrorView::Network(e@)),
        HttpReply::Response { status, body } => if !is_success(status) {
            Err(AclErrorView::Server(status))
        } else {
            match body {
                Ok(resp) => Ok(resp@),
                Err(e) => Err(AclErrorView::Decode(e@)),
            }
        },
    }
}

/// Whether an HTTP status reports success.
pub fn status_is_success(status: u16) -> (r: bool)
    ensures
        r == is_success(status),
{
    200 <= status && status < 300
}

/// What a reply means: an answer for every decoded success, whether or not it
/// says `valid`, and an error otherwise.
pub fn read_reply(reply: HttpReply) -> (r: Result<VerifyResponse, AclError>)
    ensures
        types::outcome_view(r) == reply_outcome(reply),
{
    match reply {
        HttpReply::TransportError(e) => Err(AclError::Network(e)),
        HttpReply::Response { status, body } => {
            if !status_is_success(status) {
                return Err(AclError::Server(status));
            }
            match body {
                Ok(resp) => Ok(resp),
                Err(e) => Err(AclError::Decode(e)),
            }
        },
    }
}

/// The next step of a verification.
#[derive(Debug)]
pub enum VerifyStep<'a> {
    /// The cache had the answer.
    Cached(VerifyResponse),
    /// Carry out `call`, then hand its reply to
    /// [`TachikomaAclClient::finish_verify`] together with `key`.
    Call { call: HttpCall<'a>, key: Option<u64> },
}

/// What a [`VerifyStep`] says.
pub enum VerifyStepView {
    Cached(VerifyResponseView),
    Call { call: HttpCallView, key: Option<u64> },
}

impl<'a> View for VerifyStep<'a> {
    type V = VerifyStepView;

    open spec fn view(&self) -> VerifyStepView {
        match self {
            VerifyStep::Cached(resp) => VerifyStepView::Cached(resp@),
            VerifyStep::Call { call, key } => VerifyStepView::Call { call: call@, key: *key },
        }
    }
}

/// The state of a client.
#[verifier::ext_equal]
pub struct ClientView {
    pub base_url: Seq<char>,
    pub bridge_auth: Option<Seq<char>>,
    pub cache: CacheView,
}

/// The cache key of a request. It does not depend on `force_non_admin`.
pub open spec fn key_of(req: VerifyRequestView) -> u64 {
    cache::request_key(req.token, req.context_path, req.session_name, req.action)
}

impl ClientView {
    /// The exchange that asks the server about `req`.
    pub open spec fn call_for(self, req: VerifyRequestView) -> HttpCallView {
        HttpCallView {
            url: self.base_url + VERIFY_PATH@,
            body: req,
            header: match self.bridge_auth {
                Some(secret) => Some(HeaderView { name: BRIDGE_AUTH_HEADER@, value: secret }),
                None => None,
            },
        }
    }

    /// The first step of a verification. A request that suppresses the admin
    /// bypass is always sent: the cache does not tell it from one that does not.
    pub open spec fn step(self, req: VerifyRequestView, now: nat) -> VerifyStepView {
        if req.force_non_admin {
            VerifyStepView::Call { call: self.call_for(req), key: None }
        } else {
            match self.cache.lookup(key_of(req), now) {
                Some(resp) => VerifyStepView::Cached(resp),
                None => VerifyStepView::Call {
                    call: self.call_for(req),
                    key: Some(key_of(req)),
                },
            }
        }
    }

    /// The client after the first step of a verification.
    pub open spec fn after_step(self, req: VerifyRequestView, now: nat) -> ClientView {
        if req.force_non_admin {
            self
        } else {
            ClientView { cache: self.cache.after_get(key_of(req), now), ..self }
        }
    }

    /// The client after the outcome of an exchange came in: an answer to a
    /// request with a key is stored, nothing else is.
    pub open spec fn after_finish(
        self,
        key: Option<u64>,
        outcome: Result<VerifyResponseView, AclErrorView>,
        now: nat,
    ) -> ClientView {
        match (key, outcome) {
            (Some(k), Ok(resp)) => ClientView {
                cache: self.cache.after_insert(k, resp, now),
                ..self
            },
            _ => self,
        }
    }
}

/// Client of the endpoint `POST /api/auth/verify-acl-token`.
pub struct TachikomaAclClient {
    base_url: String,
    bridge_auth: Option<String>,
    cache: TtlLru,
}

impl View for TachikomaAclClient {
    type V = ClientView;

    closed spec fn view(&self) -> ClientView {
        ClientView {
            base_url: self.base_url@,
            bridge_auth: text::opt_text(self.bridge_auth),
            cache: self.cache@,
        }
    }
}

impl TachikomaAclClient {
    /// A client of the server at `base_url`, whose trailing slashes are
    /// dropped, with an empty cache.
    pub fn new(base_url: String, bridge_auth: Option<String>) -> (r: Self)
        ensures
            r@.cache.wf(),
            r@ == (ClientView {
                base_url: text::trimmed_end(base_url@, '/'),
                bridge_auth: text::opt_text(bridge_auth),
                cache: CacheView {
                    entries: Map::empty(),
                    order: Seq::empty(),
                    ttl: cache::TTL as nat,
                    capacity: cache::CAPACITY as nat,
                },
            }),
    {
        TachikomaAclClient {
            base_url: text::trim_end(base_url.as_str(), '/'),
            bridge_auth,
            cache: TtlLru::new(),
        }
    }

    fn call_for<'a>(&self, body: VerifyRequest<'a>) -> (r: HttpCall<'a>)
        ensures
            r@ == self@.call_for(body@),
    {
        let header = match &self.bridge_auth {
            Some(secret) => Some(
                Header { name: BRIDGE_AUTH_HEADER.to_owned(), value: secret.clone() },
            ),
            None => None,
        };
        HttpCall { url: self.base_url.clone().concat(VERIFY_PATH), body, header }
    }

    /// Verify a user token. An answer is cached for [`cache::TTL`]: the same
    /// request within that time needs no exchange.
    pub fn verify_token<'a>(
        &mut self,
        token: &'a str,
        context_path: Option<&'a str>,
        session_name: Option<&'a str>,
        action: &'a str,
        now: u128,
    ) -> (r: VerifyStep<'a>)
        requires
            old(self)@.cache.wf(),
        ensures
            final(self)@.cache.wf(),
            ({
                let req = VerifyRequestView {
                    token: token@,
                    context_path: text::opt_str_text(context_path),
                    session_name: text::opt_str_text(session_name),
                    action: action@,
                    force_non_admin: false,
                };
                &&& r@ == old(self)@.step(req, now as nat)
                &&& final(self)@ == old(self)@.after_step(req, now as nat)
            }),
    {
        self.verify_token_with(token, context_path, session_name, action, false, now)
    }

    /// Verify a user token, suppressing the admin bypass where
    /// `force_non_admin` holds.
    pub fn verify_token_with<'a>(
        &mut self,
        token: &'a str,
        context_path: Option<&'a str>,
        session_name: Option<&'a str>,
        action: &'a str,
        force_non_admin: bool,
        now: u128,
    ) -> (r: VerifyStep<'a>)
        requires
            old(self)@.cache.wf(),
        ensures
            final(self)@.cache.wf(),
            ({
                let req = VerifyRequestView {
                    token: token@,
                    context_path: text::opt_str_text(context_path),
                    session_name: text::opt_str_text(session_name),
                    action: action@,
                    force_non_admin,
                };
                &&& r@ == old(self)@.step(req, now as nat)
                &&& final(self)@ == old(self)@.after_step(req, now as nat)
            }),
    {
        let req = VerifyRequest { token, context_path, session_name, action, force_non_admin };
        if force_non_admin {
            return VerifyStep::Call { call: self.call_for(req), key: None };
        }
        let key: u64 = TtlLru::key(token, context_path, session_name, action);
        match self.cache.get(key, now) {
            Some(cached) => VerifyStep::Cached(cached),
            None => VerifyStep::Call { call: self.call_for(req), key: Some(key) },
        }
    }

    /// The exchange that verifies a user token without the cache, for callers
    /// that need an authoritative answer. [`read_reply`] reads its reply.
    pub fn verify_token_uncached<'a>(
        &self,
        token: &'a str,
        context_path: Option<&'a str>,
        session_name: Option<&'a str>,
        action: &'a str,
    ) -> (r: HttpCall<'a>)
        ensures
            r@ == self@.call_for(
                VerifyRequestView {
                    token: token@,
                    context_path: text::opt_str_text(context_path),
                    session_name: text::opt_str_text(session_name),
                    action: action@,
                    force_non_admin: false,
                },
            ),
    {
        self.call_for(
            VerifyRequest { token, context_path, session_name, action, force_non_admin: false },
        )
    }

    /// Take in the reply of an exchange, and cache its answer under `key`.
    pub fn finish_verify(
        &mut self,
        key: Option<u64>,
        reply: HttpReply,
        now: u128,
    ) -> (r: Result<VerifyResponse, AclError>)
        requires
            old(self)@.cache.wf(),
        ensures
            final(self)@.cache.wf(),
            types::outcome_view(r) == reply_outcome(reply),
            final(self)@ == old(self)@.after_finish(key, reply_outcome(reply), now as nat),
    {
        let resp = match read_reply(reply) {
            Ok(resp) => resp,
            Err(e) => {
                return Err(e);
            },
        };
        if let Some(k) = key {
            self.cache.insert(k, resp.clone(), now);
        }
        Ok(resp)
    }

    /// Drop every cached answer.
    pub fn invalidate_cache(&mut self)
        ensures
            final(self)@.cache.wf(),
            final(self)@ == (ClientView { cache: old(self)@.cache.emptied(), ..old(self)@ }),
    {
        self.cache.clear();
    }
}

/// An answer that came in is given again, without an exchange, to the same
/// request within the time to live, whatever other uses of the cache lie in
/// between, as long as they are fewer than its capacity and store no newer
/// answer under the key of this request.
pub proof fn law_cached_answer_needs_no_exchange(
    v: ClientView,
    req: VerifyRequestView,
    resp: VerifyResponseView,
    stored_at: nat,
    uses: Seq<CacheUse>,
    now: nat,
)
    requires
        v.cache.wf(),
        !req.force_non_admin,
        now - stored_at <= v.cache.ttl,
        uses.len() < v.cache.limit(),
        forall|i: int|
            0 <= i < uses.len() ==> cache::spares(
                #[trigger] uses[i],
                key_of(req),
                stored_at,
                v.cache.ttl,
            ),
    ensures
        ({
            let stored = v.after_finish(Some(key_of(req)), Ok(resp), stored_at);
            let later = ClientView { cache: stored.cache.after_uses(uses), ..stored };
            later.step(req, now) == VerifyStepView::Cached(resp)
        }),
{
    cache::law_recent_outlasts_other_uses(v.cache, key_of(req), resp, stored_at, uses, now);
}

/// Once the time to live has passed, the same request is sent again.
pub proof fn law_expired_answer_is_asked_again(
    v: ClientView,
    req: VerifyRequestView,
    resp: VerifyResponseView,
    stored_at: nat,
    now: nat,
)
    requires
        now - stored_at > v.cache.ttl,
        !req.force_non_admin,
    ensures
        v.after_finish(Some(key_of(req)), Ok(resp), stored_at).step(req, now)
            == (VerifyStepView::Call { call: v.call_for(req), key: Some(key_of(req)) }),
{
    cache::law_insert_then_lookup(v.cache, key_of(req), resp, stored_at, now);
}

/// A failed exchange leaves no trace: the next verification behaves as if it
/// had not been tried.
pub proof fn law_errors_are_not_cached(
    v: ClientView,
    key: Option<u64>,
    error: AclErrorView,
    at: nat,
    req: VerifyRequestView,
    now: nat,
)
    ensures
        v.after_finish(key, Err(error), at) == v,
        v.after_finish(key, Err(error), at).step(req, now) == v.step(req, now),
{
}

/// A request that suppresses the admin bypass is always sent, and its answer is
/// never given to a request that does not.
pub proof fn law_forced_requests_bypass_the_cache(
    v: ClientView,
    req: VerifyRequestView,
    outcome: Result<VerifyResponseView, AclErrorView>,
    now: nat,
)
    requires
        req.force_non_admin,
    ensures
        v.step(req, now) == (VerifyStepView::Call { call: v.call_for(req), key: None }),
        v.after_step(req, now) == v,
        v.after_finish(None, outcome, now) == v,
{
}

/// After the cache was invalidated, every verification is sent.
pub proof fn law_invalidated_cache_is_not_used(v: ClientView, req: VerifyRequestView, now: nat)
    ensures
        (ClientView { cache: v.cache.emptied(), ..v }).step(req, now) is Call,
{
    cache::law_clear_forgets(v.cache, key_of(req), now);
}

/// A status reports success exactly where its first of three digits is a two.
pub proof fn law_success_is_the_two_hundreds(status: u16)
    ensures
        is_success(status) <==> status / 100 == 2,
{
}

/// A reply is an answer exactly where a response arrived, with a status in the two
/// hundreds and a body that decoded; the answer is that body. Otherwise the error
/// says at which of the three it failed, and gives the text or the status.
pub proof fn law_reply_is_answer_or_its_failure(
    text: String,
    status: u16,
    body: Result<VerifyResponse, String>,
)
    ensures
        reply_outcome(HttpReply::TransportError(text)) == Err::<VerifyResponseView, AclErrorView>(
            AclErrorView::Network(text@),
        ),
        ({
            let outcome = reply_outcome(HttpReply::Response { status, body });
            &&& outcome is Ok <==> 200 <= status <= 299 && body is Ok
            &&& outcome is Ok ==> outcome->Ok_0 == body->Ok_0@
            &&& outcome is Err && body is Ok ==> outcome->Err_0 == AclErrorView::Server(status)
            &&& outcome is Err && 200 <= status <= 299 ==> body is Err && outcome->Err_0
                == AclErrorView::Decode(body->Err_0@)
            &&& !(200 <= status <= 299) ==> outcome is Err && outcome->Err_0
                == AclErrorView::Server(status)
        }),
{
}

/// Every request goes to the same endpoint of the server, carries its own fields
/// as its body, and carries the secret exactly where there is one.
pub proof fn law_call_carries_the_request(v: ClientView, req: VerifyRequestView)
    ensures
        ({
            let call = v.call_for(req);
            &&& v.base_url.is_prefix_of(call.url)
            &&& call.url.skip(v.base_url.len() as int) == "/api/auth/verify-acl-token"@
            &&& call.body == req
            &&& call.header is Some <==> v.bridge_auth is Some
            &&& call.header is Some ==> call.header->Some_0.name == "X-Tsp-Bridge-Auth"@
                && call.header->Some_0.value == v.bridge_auth->Some_0
        }),
{
    let call = v.call_for(req);
    assert(call.url.skip(v.base_url.len() as int) =~= VERIFY_PATH@);
    assert(v.base_url =~= call.url.subrange(0, v.base_url.len() as int));
}

/// A call says what its fields hold, and so does a header.
pub proof fn law_call_fields(call: HttpCall<'_>, header: Header)
    ensures
        call@.url == call.url@,
        call@.body == call.body@,
        call@.header is Some <==> call.header is Some,
        call.header is Some ==> call@.header->Some_0 == call.header->Some_0@,
        header@.name == header.name@,
        header@.value == header.value@,
{
}

/// A step is the one it was made as.
pub proof fn law_step_fields(step: VerifyStep<'_>)
    ensures
        step@ is Cached <==> step is Cached,
        step is Cached ==> step@->Cached_0 == step->Cached_0@,
        step is Call ==> step@->call == step->call@ && step@->key == step->key,
{
}

/// What a verification asks, where it asks: this very request. It is not asked
/// exactly where the cache has a fresh entry under the hash of all four fields
/// and the admin bypass is not suppressed, and then that entry is the answer.
pub proof fn law_step_asks_or_answers(v: ClientView, req: VerifyRequestView, now: nat)
    ensures
        ({
            let key = DefaultHasher::spec_finish(
                seq![
                    cache::request_bytes(
                        req.token,
                        req.context_path,
                        req.session_name,
                        req.action,
                    ),
                ],
            );
            let step = v.step(req, now);
            &&& step is Cached <==> !req.force_non_admin && v.cache.entries.contains_key(key) && now
                <= v.cache.entries[key].inserted_at + v.cache.ttl
            &&& step is Cached ==> step->Cached_0 == v.cache.entries[key].response
            &&& step is Call ==> step->call == v.call_for(req) && step->call.body == req
            &&& step is Call ==> step->key == (if req.force_non_admin {
                None
            } else {
                Some(key)
            })
        }),
{
}

/// Whether two requests ask the same: token, context path, session name and
/// action agree.
pub open spec fn same_request(a: VerifyRequestView, b: VerifyRequestView) -> bool {
    a.token == b.token && a.context_path == b.context_path && a.session_name == b.session_name
        && a.action == b.action
}

/// The client after `req` was looked up at `asked`, sent, and answered with `resp`
/// at `answered`.
pub open spec fn after_exchange(
    v: ClientView,
    req: VerifyRequestView,
    asked: nat,
    resp: VerifyResponseView,
    answered: nat,
) -> ClientView {
    v.after_step(req, asked).after_finish(v.step(req, asked)->key, Ok(resp), answered)
}

/// The answer to one request is never given to another. A request that had to be
/// sent before an exchange about a request with another token, context path,
/// session name or action has to be sent after it too, with its own fields; hash
/// collisions aside. A request that asks the same is given the answer within the
/// time to live.
pub proof fn law_answer_is_for_its_request_only(
    v: ClientView,
    req: VerifyRequestView,
    asked: nat,
    resp: VerifyResponseView,
    answered: nat,
    other: VerifyRequestView,
    now: nat,
)
    requires
        v.step(req, asked) is Call,
        !req.force_non_admin,
        cache::no_collision(
            cache::request_bytes(req.token, req.context_path, req.session_name, req.action),
            cache::request_bytes(other.token, other.context_path, other.session_name, other.action),
        ),
    ensures
        !same_request(req, other) && v.step(other, now) is Call ==> {
            let later = after_exchange(v, req, asked, resp, answered).step(other, now);
            later is Call && later->call.body == other
        },
        same_request(req, other) && !other.force_non_admin && now - answered <= v.cache.ttl
            ==> after_exchange(v, req, asked, resp, answered).step(other, now)
            == VerifyStepView::Cached(resp),
{
    cache::law_key_discriminates(
        req.token,
        req.context_path,
        req.session_name,
        req.action,
        other.token,
        other.context_path,
        other.session_name,
        other.action,
    );
    let looked = v.after_step(req, asked);
    cache::law_get_adds_nothing(v.cache, key_of(req), asked, key_of(other), now);
    if key_of(req) != key_of(other) {
        cache::law_insert_answers_its_own_key_only(
            looked.cache,
            key_of(req),
            resp,
            answered,
            key_of(other),
            now,
        );
    } else {
        cache::law_insert_then_lookup(looked.cache, key_of(req), resp, answered, now);
    }
}

/// Neither a verification nor its outcome changes the server that is asked, the
/// secret, or the limits of the cache.
pub proof fn law_client_settings_are_fixed(
    v: ClientView,
    req: VerifyRequestView,
    key: Option<u64>,
    outcome: Result<VerifyResponseView, AclErrorView>,
    now: nat,
)
    ensures
        ({
            let a = v.after_step(req, now);
            let b = v.after_finish(key, outcome, now);
            &&& a.base_url == v.base_url && b.base_url == v.base_url
            &&& a.bridge_auth == v.bridge_auth && b.bridge_auth == v.bridge_auth
            &&& a.cache.ttl == v.cache.ttl && b.cache.ttl == v.cache.ttl
            &&& a.cache.capacity == v.cache.capacity && b.cache.capacity == v.cache.capacity
        }),
{
}

/// Only the answer to a request with a key changes the cache, and it is stored
/// under that key, with the moment it came in.
pub proof fn law_only_keyed_answers_are_stored(
    v: ClientView,
    key: Option<u64>,
    outcome: Result<VerifyResponseView, AclErrorView>,
    now: nat,
)
    ensures
        key is None || outcome is Err ==> v.after_finish(key, outcome, now) == v,
        key is Some && outcome is Ok ==> {
            let entries = v.after_finish(key, outcome, now).cache.entries;
            &&& entries.contains_key(key->Some_0)
            &&& entries[key->Some_0].response == outcome->Ok_0
            &&& entries[key->Some_0].inserted_at == now
            &&& v.after_finish(key, outcome, now).cache.order.last() == key->Some_0
        },
{
}

/// A verification uses the cache as a lookup of its key does, and a stored answer
/// as an insert under its key does; a request that suppresses the admin bypass
/// leaves the cache alone.
pub proof fn law_client_uses_the_cache(
    v: ClientView,
    req: VerifyRequestView,
    resp: VerifyResponseView,
    now: nat,
)
    ensures
        ({
            let key = cache::request_key(
                req.token,
                req.context_path,
                req.session_name,
                req.action,
            );
            &&& v.after_step(req, now).cache == (if req.force_non_admin {
                v.cache
            } else {
                v.cache.after_get(key, now)
            })
            &&& v.after_finish(Some(key), Ok(resp), now).cache == v.cache.after_insert(
                key,
                resp,
                now,
            )
        }),
{
}

} // verus!
