//! The functions of other crates that the library calls.
//!
//! Nothing in this file is proved: each contract states what the source of the
//! crate shows, and the rest of the library is proved from it.

use vstd::prelude::*;
use vstd::string::*;

use crate::text;

verus! {

/// Why `url::Url::parse` refuses a text, as the text of its `ParseError`; `None`
/// where it accepts the text.
pub uninterp spec fn url_parse_error(url: Seq<char>) -> Option<Seq<char>>;

/// The decoded pairs of the query of a URL, in order: what
/// `url::Url::query_pairs` gives for a text that `url::Url::parse` accepts.
pub uninterp spec fn url_query_pairs(url: Seq<char>) -> Seq<(Seq<char>, Seq<char>)>;

/// The path of a URL: what `url::Url::path` gives for a text that
/// `url::Url::parse` accepts.
pub uninterp spec fn url_path(url: Seq<char>) -> Seq<char>;

/// The serialisation of a URL up to its path: what slicing with
/// `url::Position::BeforePath` gives for a text that `url::Url::parse` accepts.
pub uninterp spec fn url_before_path(url: Seq<char>) -> Seq<char>;

/// Whether two texts are URLs that differ at most in path, query and fragment.
pub open spec fn differ_in_location(url: Seq<char>, other: Seq<char>) -> bool {
    &&& url_parse_error(url) is None
    &&& url_parse_error(other) is None
    &&& url_before_path(url) == url_before_path(other)
}

/// Whether a serialised URL has the scheme `http` or `https`.
pub open spec fn is_web(url: Seq<char>) -> bool {
    "http://"@.is_prefix_of(url) || "https://"@.is_prefix_of(url)
}

/// The characters of each pair of strings.
pub open spec fn pair_texts(pairs: Seq<(String, String)>) -> Seq<(Seq<char>, Seq<char>)> {
    pairs.map_values(|p: (String, String)| (p.0@, p.1@))
}

/// `url::Url::parse` and `url::Url::query_pairs`: the pairs of the query, or the
/// text of the parse error. Which pairs a text has, and which texts are
/// refused, is left to the two names.
#[verifier::external_body]
pub(crate) fn query_pairs(url: &str) -> (r: Result<Vec<(String, String)>, String>)
    ensures
        match r {
            Ok(pairs) => url_parse_error(url@) is None && pair_texts(pairs@) == url_query_pairs(
                url@,
            ),
            Err(e) => url_parse_error(url@) == Some(e@),
        },
{
    match url::Url::parse(url) {
        Ok(parsed) => Ok(parsed.query_pairs().into_owned().collect()),
        Err(e) => Err(e.to_string()),
    }
}

/// `url::Url::parse` and `url::Url::path`: the path, or the text of the parse
/// error.
#[verifier::external_body]
pub(crate) fn path(url: &str) -> (r: Result<String, String>)
    ensures
        match r {
            Ok(p) => url_parse_error(url@) is None && p@ == url_path(url@),
            Err(e) => url_parse_error(url@) == Some(e@),
        },
{
    match url::Url::parse(url) {
        Ok(parsed) => Ok(parsed.path().to_string()),
        Err(e) => Err(e.to_string()),
    }
}

/// `url::Url::parse`, then a slice of the `url::Url` up to
/// `url::Position::BeforePath`: the scheme, the credentials, the host and the
/// port, or the text of the parse error.
///
/// Of a URL with the scheme `http` or `https` it is claimed besides that this part
/// ends with the host or the port, not with a slash, and that it parses, to a URL
/// with the same part before its path. (That a URL parses from its own
/// serialisation is among what `url::Url::check_invariants` demands of every URL,
/// and such a URL without a path gets the path `/`.) Of other schemes nothing
/// more is said.
#[verifier::external_body]
pub(crate) fn before_path(url: &str) -> (r: Result<String, String>)
    ensures
        match r {
            Ok(s) => {
                &&& url_parse_error(url@) is None
                &&& s@ == url_before_path(url@)
                &&& is_web(s@) ==> s@.last() != '/' && url_parse_error(s@) is None
                    && url_before_path(s@) == s@
            },
            Err(e) => url_parse_error(url@) == Some(e@),
        },
{
    match url::Url::parse(url) {
        Ok(parsed) => Ok(parsed[..url::Position::BeforePath].to_string()),
        Err(e) => Err(e.to_string()),
    }
}

/// Which requests from other sites a cookie goes with.
#[derive(Debug, Clone, Copy)]
pub enum SameSite {
    Strict,
    Lax,
    /// Every request.
    Unrestricted,
}

/// The text of a cookie attribute that is written as a bare word.
pub open spec fn flag_text(set: bool, word: Seq<char>) -> Seq<char> {
    if set {
        "; "@ + word
    } else {
        Seq::empty()
    }
}

/// The word for a same-site rule.
pub open spec fn same_site_text(rule: SameSite) -> Seq<char> {
    match rule {
        SameSite::Strict => "Strict"@,
        SameSite::Lax => "Lax"@,
        SameSite::Unrestricted => "None"@,
    }
}

/// The text of a `Set-Cookie` header.
pub open spec fn cookie_text(
    name: Seq<char>,
    value: Seq<char>,
    http_only: bool,
    same_site: SameSite,
    secure: bool,
    path: Seq<char>,
    max_age_weeks: Option<u32>,
) -> Seq<char> {
    name + "="@ + value + flag_text(http_only, "HttpOnly"@) + "; SameSite="@ + same_site_text(
        same_site,
    ) + flag_text(secure, "Secure"@) + "; Path="@ + path + match max_age_weeks {
        Some(weeks) => "; Max-Age="@ + text::decimal((weeks * 604800) as nat),
        None => Seq::empty(),
    }
}

/// `axum_extra::extract::cookie::Cookie`: builds a cookie and writes it with its
/// `Display`, which puts the attributes in the order of [`cookie_text`] and
/// encodes nothing. `time::Duration::weeks` counts seven days of 86400 seconds.
#[verifier::external_body]
pub(crate) fn format_cookie(
    name: &str,
    value: &str,
    http_only: bool,
    same_site: SameSite,
    secure: bool,
    path: &str,
    max_age_weeks: Option<u32>,
) -> (r: String)
    ensures
        r@ == cookie_text(name@, value@, http_only, same_site, secure, path@, max_age_weeks),
{
    let rule = match same_site {
        SameSite::Strict => axum_extra::extract::cookie::SameSite::Strict,
        SameSite::Lax => axum_extra::extract::cookie::SameSite::Lax,
        SameSite::Unrestricted => axum_extra::extract::cookie::SameSite::None,
    };
    let mut cookie = axum_extra::extract::cookie::Cookie::build((name, value))
        .http_only(http_only).secure(secure).same_site(rule).path(path).build();
    cookie.set_max_age(max_age_weeks.map(|w| time::Duration::weeks(i64::from(w))));
    cookie.to_string()
}

/// Whether a header value may hold this character.
pub open spec fn header_char(c: char) -> bool {
    c == '\t' || (c >= ' ' && c != '\u{7f}')
}

/// `axum::http::HeaderValue::from_str` accepts a text exactly when it holds no
/// control character but tabs.
#[verifier::external_body]
pub(crate) fn is_header_value(s: &str) -> (r: bool)
    ensures
        r == (forall|i: int| 0 <= i < s@.len() ==> header_char(#[trigger] s@[i])),
{
    axum::http::HeaderValue::from_str(s).is_ok()
}

/// Whether `c` is a hexadecimal digit in lower case.
pub open spec fn is_hex(c: char) -> bool {
    ('0' <= c && c <= '9') || ('a' <= c && c <= 'f')
}

/// Whether `s` is a random (version 4) UUID in its hyphenated form.
pub open spec fn is_uuid_v4(s: Seq<char>) -> bool {
    &&& s.len() == 36
    &&& s[14] == '4'
    &&& s[19] == '8' || s[19] == '9' || s[19] == 'a' || s[19] == 'b'
    &&& forall|i: int|
        0 <= i < 36 ==> if i == 8 || i == 13 || i == 18 || i == 23 {
            #[trigger] s[i] == '-'
        } else {
            is_hex(s[i])
        }
}

/// `uuid::Uuid::new_v4`, written as a `String`: a fresh random UUID. Nothing is
/// claimed of its random digits.
#[verifier::external_body]
pub(crate) fn random_uuid() -> (r: String)
    ensures
        is_uuid_v4(r@),
{
    String::from(uuid::Uuid::new_v4())
}

/// A directory that was embedded in the program.
#[verifier::external_type_specification]
#[verifier::external_body]
pub struct ExDir<'a>(include_dir::Dir<'a>);

/// A file of an embedded directory: the path it is stored under, and its bytes.
#[derive(Debug)]
pub struct EmbeddedFile {
    pub path: String,
    pub contents: Vec<u8>,
}

/// What an [`EmbeddedFile`] holds.
pub struct EmbeddedFileView {
    pub path: Seq<char>,
    pub contents: Seq<u8>,
}

impl View for EmbeddedFile {
    type V = EmbeddedFileView;

    open spec fn view(&self) -> EmbeddedFileView {
        EmbeddedFileView { path: self.path@, contents: self.contents@ }
    }
}

/// The files of an embedded directory, by every path text under which
/// `include_dir::Dir::get_file` finds one.
pub uninterp spec fn embedded_files(dir: include_dir::Dir<'static>) -> Map<
    Seq<char>,
    EmbeddedFileView,
>;

/// `include_dir::Dir::get_file`: looks a file up by path, and gives its path and
/// its bytes.
#[verifier::external_body]
pub(crate) fn embedded_file(dir: &include_dir::Dir<'static>, path: &str) -> (r: Option<EmbeddedFile>)
    ensures
        match r {
            Some(f) => embedded_files(*dir).contains_key(path@) && f@ == embedded_files(
                *dir,
            )[path@],
            None => !embedded_files(*dir).contains_key(path@),
        },
{
    dir.get_file(path).map(|f| EmbeddedFile {
        path: f.path().to_string_lossy().into_owned(),
        contents: f.contents().to_vec(),
    })
}

} // verus!
