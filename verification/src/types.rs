//! Request, response and error types of the Tachikoma verification endpoint
//! (`POST /api/auth/verify-acl-token`).

use vstd::prelude::*;
use vstd::string::*;

use crate::text;

verus! {

/// Body of a `verify-acl-token` request.
///
/// The strings are borrowed: a request is serialised once per exchange and is
/// never stored. In the JSON form an absent `context_path` or `session_name`
/// is left out, and so is a `force_non_admin` that is `false`.
#[derive(Debug, Clone, Copy)]
pub struct VerifyRequest<'a> {
    pub token: &'a str,
    pub context_path: Option<&'a str>,
    pub session_name: Option<&'a str>,
    pub action: &'a str,
    /// When `true`, the server treats an admin user as a regular one, so that
    /// the access rules can be exercised from a privileged account.
    pub force_non_admin: bool,
}

/// What a [`VerifyRequest`] says.
pub struct VerifyRequestView {
    pub token: Seq<char>,
    pub context_path: Option<Seq<char>>,
    pub session_name: Option<Seq<char>>,
    pub action: Seq<char>,
    pub force_non_admin: bool,
}

impl<'a> View for VerifyRequest<'a> {
    type V = VerifyRequestView;

    open spec fn view(&self) -> VerifyRequestView {
        VerifyRequestView {
            token: self.token@,
            context_path: text::opt_str_text(self.context_path),
            session_name: text::opt_str_text(self.session_name),
            action: self.action@,
            force_non_admin: self.force_non_admin,
        }
    }
}

/// Parsed answer of the verification endpoint.
///
/// An answer with `valid == false` is not an error: it is the server saying
/// that this user may not do that.
#[derive(Debug)]
pub struct VerifyResponse {
    pub valid: bool,
    pub user_id: Option<String>,
    /// Expiry time in seconds, as the bit pattern of a 64-bit IEEE 754 number.
    pub expires_at: Option<u64>,
    pub permissions: Vec<String>,
    pub read_only: bool,
    pub reason: Option<String>,
}

/// What a [`VerifyResponse`] says.
pub struct VerifyResponseView {
    pub valid: bool,
    pub user_id: Option<Seq<char>>,
    pub expires_at: Option<u64>,
    pub permissions: Seq<Seq<char>>,
    pub read_only: bool,
    pub reason: Option<Seq<char>>,
}

impl View for VerifyResponse {
    type V = VerifyResponseView;

    open spec fn view(&self) -> VerifyResponseView {
        VerifyResponseView {
            valid: self.valid,
            user_id: text::opt_text(self.user_id),
            expires_at: self.expires_at,
            permissions: text::texts(self.permissions@),
            read_only: self.read_only,
            reason: text::opt_text(self.reason),
        }
    }
}

impl Clone for VerifyResponse {
    fn clone(&self) -> (r: Self)
        ensures
            r@ == self@,
    {
        VerifyResponse {
            valid: self.valid,
            user_id: text::opt_clone(&self.user_id),
            expires_at: self.expires_at,
            permissions: text::clone_texts(&self.permissions),
            read_only: self.read_only,
            reason: text::opt_clone(&self.reason),
        }
    }
}

/// Why a verification produced no answer.
#[derive(Debug)]
pub enum AclError {
    /// The exchange failed in transport; the text says how.
    Network(String),
    /// The server answered with a status outside 200 to 299.
    Server(u16),
    /// The body of a successful answer could not be decoded.
    Decode(String),
}

/// What an [`AclError`] says.
pub enum AclErrorView {
    Network(Seq<char>),
    Server(u16),
    Decode(Seq<char>),
}

impl View for AclError {
    type V = AclErrorView;

    open spec fn view(&self) -> AclErrorView {
        match self {
            AclError::Network(e) => AclErrorView::Network(e@),
            AclError::Server(status) => AclErrorView::Server(*status),
            AclError::Decode(e) => AclErrorView::Decode(e@),
        }
    }
}

impl AclErrorView {
    /// The sentence that describes the error.
    pub open spec fn message(self) -> Seq<char> {
        match self {
            AclErrorView::Network(e) => "network error: "@ + e,
            AclErrorView::Server(status) => "server returned status "@ + text::decimal(
                status as nat,
            ),
            AclErrorView::Decode(e) => "response decode: "@ + e,
        }
    }
}

impl AclError {
    /// The sentence that describes the error.
    pub fn message(&self) -> (r: String)
        ensures
            r@ == self@.message(),
    {
        match self {
            AclError::Network(e) => "network error: ".to_owned().concat(e.as_str()),
            AclError::Server(status) => "server returned status ".to_owned().concat(
                text::decimal_string(*status as u64).as_str(),
            ),
            AclError::Decode(e) => "response decode: ".to_owned().concat(e.as_str()),
        }
    }
}

/// The result of a verification, in terms of what it says.
pub open spec fn outcome_view(r: Result<VerifyResponse, AclError>) -> Result<
    VerifyResponseView,
    AclErrorView,
> {
    match r {
        Ok(resp) => Ok(resp@),
        Err(e) => Err(e@),
    }
}

/// A request says what its fields hold.
pub proof fn law_request_fields(r: VerifyRequest<'_>)
    ensures
        r@.token == r.token@,
        r@.context_path is Some <==> r.context_path is Some,
        r.context_path is Some ==> r@.context_path->Some_0 == r.context_path->Some_0@,
        r@.session_name is Some <==> r.session_name is Some,
        r.session_name is Some ==> r@.session_name->Some_0 == r.session_name->Some_0@,
        r@.action == r.action@,
        r@.force_non_admin == r.force_non_admin,
{
}

/// An answer says what its fields hold.
pub proof fn law_response_fields(r: VerifyResponse, i: int)
    ensures
        r@.valid == r.valid,
        r@.user_id is Some <==> r.user_id is Some,
        r.user_id is Some ==> r@.user_id->Some_0 == r.user_id->Some_0@,
        r@.expires_at == r.expires_at,
        r@.permissions.len() == r.permissions@.len(),
        0 <= i < r.permissions@.len() ==> r@.permissions[i] == r.permissions@[i]@,
        r@.read_only == r.read_only,
        r@.reason is Some <==> r.reason is Some,
        r.reason is Some ==> r@.reason->Some_0 == r.reason->Some_0@,
{
    text::law_texts_of_a_list(r.permissions@, i);
}

/// An error is of the kind it was made as, with its text or its status, and a
/// result is an answer exactly where it is `Ok`.
pub proof fn law_outcome_fields(r: Result<VerifyResponse, AclError>)
    ensures
        outcome_view(r) is Ok <==> r is Ok,
        r is Ok ==> outcome_view(r)->Ok_0 == r->Ok_0@,
        r is Err ==> outcome_view(r)->Err_0 == (match r->Err_0 {
            AclError::Network(e) => AclErrorView::Network(e@),
            AclError::Server(status) => AclErrorView::Server(status),
            AclError::Decode(e) => AclErrorView::Decode(e@),
        }),
{
}

/// The sentence about an error names its kind first and then gives its text or,
/// as a decimal number, its status.
pub proof fn law_error_message(e: AclErrorView)
    ensures
        ({
            let kind = match e {
                AclErrorView::Network(_) => "network error: "@,
                AclErrorView::Server(_) => "server returned status "@,
                AclErrorView::Decode(_) => "response decode: "@,
            };
            let rest = e.message().skip(kind.len() as int);
            &&& kind.is_prefix_of(e.message())
            &&& match e {
                AclErrorView::Network(text) => rest == text,
                AclErrorView::Server(status) => text::decimal_value(rest) == status && rest.len()
                    > 0 && (status > 0 ==> rest[0] != '0'),
                AclErrorView::Decode(text) => rest == text,
            }
        }),
{
    match e {
        AclErrorView::Network(t) => {
            assert(e.message().skip("network error: "@.len() as int) =~= t);
            assert("network error: "@ =~= e.message().subrange(0, "network error: "@.len() as int));
        },
        AclErrorView::Server(status) => {
            text::law_decimal_reads_back(status as nat);
            let k = "server returned status "@;
            assert(e.message().skip(k.len() as int) =~= text::decimal(status as nat));
            assert(k =~= e.message().subrange(0, k.len() as int));
        },
        AclErrorView::Decode(t) => {
            let k = "response decode: "@;
            assert(e.message().skip(k.len() as int) =~= t);
            assert(k =~= e.message().subrange(0, k.len() as int));
        },
    }
}

} // verus!
