//! What the handlers of the web server answer: the client page, the creation of
//! a client, and the static assets.

use vstd::prelude::*;
use vstd::string::*;
use vstd::utf8::*;

use crate::foreign;
use crate::foreign::EmbeddedFile;
use crate::text;

verus! {

/// HTTP status of a successful request.
pub const STATUS_OK: u16 = 200;

/// HTTP status of a request without valid credentials.
pub const STATUS_UNAUTHORIZED: u16 = 401;

/// HTTP status of a request that the access rules refuse.
pub const STATUS_FORBIDDEN: u16 = 403;

/// HTTP status of a request that failed inside the server.
pub const STATUS_INTERNAL_SERVER_ERROR: u16 = 500;

/// HTTP status of a request that cannot be decided now.
pub const STATUS_SERVICE_UNAVAILABLE: u16 = 503;

/// How a character is written in HTML text or in a quoted attribute.
pub open spec fn escaped_char(c: char) -> Seq<char> {
    if c == '&' {
        "&amp;"@
    } else if c == '<' {
        "&lt;"@
    } else if c == '>' {
        "&gt;"@
    } else if c == '"' {
        "&quot;"@
    } else if c == '\'' {
        "&#x27;"@
    } else {
        seq![c]
    }
}

/// `s` written character by character for HTML.
pub open spec fn escaped(s: Seq<char>) -> Seq<char>
    decreases s.len(),
{
    if s.len() == 0 {
        Seq::empty()
    } else {
        escaped_char(s[0]) + escaped(s.skip(1))
    }
}

/// `s` with the five characters that mean something in HTML written as
/// character references.
pub fn html_escape(s: &str) -> (r: String)
    ensures
        r@ == escaped(s@),
{
    let chars = text::to_chars(s);
    let mut out = String::new();
    let mut i: usize = 0;
    assert(s@.skip(0) =~= s@);
    while i < chars.len()
        invariant
            i <= chars@.len(),
            chars@ == s@,
            escaped(s@) =~= out@ + escaped(s@.skip(i as int)),
        decreases chars@.len() - i,
    {
        let c = chars[i];
        assert(s@.skip(i as int).skip(1) =~= s@.skip(i + 1));
        if c == '&' {
            out.append("&amp;");
        } else if c == '<' {
            out.append("&lt;");
        } else if c == '>' {
            out.append("&gt;");
        } else if c == '"' {
            out.append("&quot;");
        } else if c == '\'' {
            out.append("&#x27;");
        } else {
            out.push(c);
        }
        i = i + 1;
    }
    out
}

/// Whether `c` can end a text or an attribute in HTML.
pub open spec fn is_markup(c: char) -> bool {
    c == '<' || c == '>' || c == '"' || c == '\''
}

proof fn lemma_entities()
    ensures
        "&amp;"@ =~= seq!['&', 'a', 'm', 'p', ';'],
        "&lt;"@ =~= seq!['&', 'l', 't', ';'],
        "&gt;"@ =~= seq!['&', 'g', 't', ';'],
        "&quot;"@ =~= seq!['&', 'q', 'u', 'o', 't', ';'],
        "&#x27;"@ =~= seq!['&', '#', 'x', '2', '7', ';'],
{
    reveal_strlit("&amp;");
    reveal_strlit("&lt;");
    reveal_strlit("&gt;");
    reveal_strlit("&quot;");
    reveal_strlit("&#x27;");
}

/// Escaped text holds no character that could end the text or the attribute
/// that it stands in.
pub proof fn law_escaped_holds_no_markup(s: Seq<char>)
    ensures
        forall|i: int| 0 <= i < escaped(s).len() ==> !is_markup(#[trigger] escaped(s)[i]),
    decreases s.len(),
{
    lemma_entities();
    if s.len() > 0 {
        law_escaped_holds_no_markup(s.skip(1));
        let head = escaped_char(s[0]);
        assert forall|i: int| 0 <= i < escaped(s).len() implies !is_markup(
            #[trigger] escaped(s)[i],
        ) by {
            if i < head.len() {
                assert(escaped(s)[i] == head[i]);
            } else {
                assert(escaped(s)[i] == escaped(s.skip(1))[i - head.len()]);
            }
        }
    }
}

/// Text without special characters is left as it is.
pub proof fn law_plain_text_is_unchanged(s: Seq<char>)
    requires
        forall|i: int| 0 <= i < s.len() ==> s[i] != '&' && !is_markup(#[trigger] s[i]),
    ensures
        escaped(s) == s,
    decreases s.len(),
{
    if s.len() > 0 {
        let rest = s.skip(1);
        assert forall|i: int| 0 <= i < rest.len() implies rest[i] != '&' && !is_markup(
            #[trigger] rest[i],
        ) by {
            assert(rest[i] == s[i + 1]);
        }
        law_plain_text_is_unchanged(rest);
        assert(!is_markup(s[0]));
        assert(seq![s[0]] + rest =~= s);
    } else {
        assert(escaped(s) =~= s);
    }
}

/// Escaping works piece by piece: nothing is escaped twice, and no reference
/// spans two characters.
pub proof fn law_escaping_distributes(a: Seq<char>, b: Seq<char>)
    ensures
        escaped(a + b) == escaped(a) + escaped(b),
    decreases a.len(),
{
    if a.len() > 0 {
        law_escaping_distributes(a.skip(1), b);
        assert((a + b).skip(1) =~= a.skip(1) + b);
        assert(escaped(a + b) =~= escaped(a) + escaped(b));
    } else {
        assert(a + b =~= b);
        assert(escaped(a + b) =~= escaped(a) + escaped(b));
    }
}

/// Different texts stay different when they are escaped.
pub proof fn law_escaping_loses_nothing(a: Seq<char>, b: Seq<char>)
    requires
        escaped(a) == escaped(b),
    ensures
        a == b,
    decreases a.len(),
{
    lemma_entities();
    if a.len() == 0 {
        if b.len() > 0 {
            assert(escaped_char(b[0]).len() > 0);
        }
        assert(a =~= b);
    } else {
        let whole = escaped(a);
        let ha = escaped_char(a[0]);
        assert(ha.len() > 0);
        assert(whole.len() > 0);
        assert(b.len() > 0);
        let hb = escaped_char(b[0]);
        assert(forall|i: int| 0 <= i < ha.len() ==> #[trigger] whole[i] == ha[i]);
        assert(forall|i: int| 0 <= i < hb.len() ==> #[trigger] whole[i] == hb[i]);
        assert(whole[0] == ha[0] && whole[0] == hb[0]);
        if whole[0] == '&' {
            assert(whole[1] == ha[1] && whole[1] == hb[1]);
        }
        assert(a[0] == b[0]);
        assert(escaped(a.skip(1)) =~= whole.skip(ha.len() as int));
        assert(escaped(b.skip(1)) =~= whole.skip(hb.len() as int));
        law_escaping_loses_nothing(a.skip(1), b.skip(1));
        assert(a =~= seq![a[0]] + a.skip(1));
        assert(b =~= seq![b[0]] + b.skip(1));
    }
}

/// `s` after the five replacements, one after the other.
pub open spec fn replaced_in_turn(s: Seq<char>) -> Seq<char> {
    let s1 = text::replaced(s, seq!['&'], "&amp;"@);
    let s2 = text::replaced(s1, seq!['<'], "&lt;"@);
    let s3 = text::replaced(s2, seq!['>'], "&gt;"@);
    let s4 = text::replaced(s3, seq!['"'], "&quot;"@);
    text::replaced(s4, seq!['\''], "&#x27;"@)
}

proof fn lemma_replaced_in_turn_char(c: char)
    ensures
        replaced_in_turn(seq![c]) == escaped_char(c),
{
    lemma_entities();
    let s1 = text::replaced(seq![c], seq!['&'], "&amp;"@);
    if c == '&' {
        text::lemma_replaced_single_char('&', "&amp;"@);
    } else {
        text::lemma_replaced_absent_char(seq![c], '&', "&amp;"@);
    }
    let s2 = text::replaced(s1, seq!['<'], "&lt;"@);
    if c == '<' {
        text::lemma_replaced_single_char('<', "&lt;"@);
    } else {
        text::lemma_replaced_absent_char(s1, '<', "&lt;"@);
    }
    let s3 = text::replaced(s2, seq!['>'], "&gt;"@);
    if c == '>' {
        text::lemma_replaced_single_char('>', "&gt;"@);
    } else {
        text::lemma_replaced_absent_char(s2, '>', "&gt;"@);
    }
    let s4 = text::replaced(s3, seq!['"'], "&quot;"@);
    if c == '"' {
        text::lemma_replaced_single_char('"', "&quot;"@);
    } else {
        text::lemma_replaced_absent_char(s3, '"', "&quot;"@);
    }
    if c == '\'' {
        text::lemma_replaced_single_char('\'', "&#x27;"@);
    } else {
        text::lemma_replaced_absent_char(s4, '\'', "&#x27;"@);
    }
}

proof fn lemma_replaced_in_turn_distributes(a: Seq<char>, b: Seq<char>)
    ensures
        replaced_in_turn(a + b) == replaced_in_turn(a) + replaced_in_turn(b),
{
    let a1 = text::replaced(a, seq!['&'], "&amp;"@);
    let b1 = text::replaced(b, seq!['&'], "&amp;"@);
    text::lemma_replaced_char_distributes(a, b, '&', "&amp;"@);
    let a2 = text::replaced(a1, seq!['<'], "&lt;"@);
    let b2 = text::replaced(b1, seq!['<'], "&lt;"@);
    text::lemma_replaced_char_distributes(a1, b1, '<', "&lt;"@);
    let a3 = text::replaced(a2, seq!['>'], "&gt;"@);
    let b3 = text::replaced(b2, seq!['>'], "&gt;"@);
    text::lemma_replaced_char_distributes(a2, b2, '>', "&gt;"@);
    let a4 = text::replaced(a3, seq!['"'], "&quot;"@);
    let b4 = text::replaced(b3, seq!['"'], "&quot;"@);
    text::lemma_replaced_char_distributes(a3, b3, '"', "&quot;"@);
    text::lemma_replaced_char_distributes(a4, b4, '\'', "&#x27;"@);
}

/// Escaping character by character is the same as replacing `&`, `<`, `>`, `"`
/// and `'` in turn, the ampersand first.
pub proof fn law_escaping_is_replacing_in_turn(s: Seq<char>)
    ensures
        escaped(s) == replaced_in_turn(s),
    decreases s.len(),
{
    if s.len() > 0 {
        law_escaping_is_replacing_in_turn(s.skip(1));
        lemma_replaced_in_turn_char(s[0]);
        lemma_replaced_in_turn_distributes(seq![s[0]], s.skip(1));
        assert(s =~= seq![s[0]] + s.skip(1));
    }
}

/// The client page: the template with its two placeholders filled in. The base
/// URL is `/` where none is configured.
pub open spec fn page(
    template: Seq<char>,
    is_authenticated: bool,
    base_url: Option<Seq<char>>,
) -> Seq<char> {
    let auth = if is_authenticated {
        "true"@
    } else {
        "false"@
    };
    let base = match base_url {
        Some(url) => url,
        None => "/"@,
    };
    text::replaced(
        text::replaced(template, "IS_AUTHENTICATED"@, auth),
        "BASE_URL"@,
        escaped(base),
    )
}

/// The client page for a visitor who has, or has not, a session cookie.
pub fn serve_html(template: &str, is_authenticated: bool, base_url: Option<&str>) -> (r: String)
    ensures
        r@ == page(template@, is_authenticated, text::opt_str_text(base_url)),
{
    let auth_value = if is_authenticated {
        "true"
    } else {
        "false"
    };
    let base = html_escape(
        match base_url {
            Some(url) => url,
            None => "/",
        },
    );
    proof {
        reveal_strlit("IS_AUTHENTICATED");
        reveal_strlit("BASE_URL");
    }
    let with_auth = text::replace_all(template, "IS_AUTHENTICATED", auth_value);
    text::replace_all(with_auth.as_str(), "BASE_URL", base.as_str())
}

/// A request that failed, and what the caller is told.
#[derive(Debug)]
pub struct HttpError {
    pub status: u16,
    pub message: String,
}

/// A client about to be created.
#[derive(Debug)]
pub struct NewClient {
    pub web_client_id: String,
    pub is_read_only: bool,
    pub session_token_hash: String,
}

/// The answer to the creation of a client.
#[derive(Debug)]
pub struct CreateClientIdResponse {
    pub web_client_id: String,
    pub is_read_only: bool,
}

/// Begin the creation of a client from what the authentication layer attached to
/// the request: a fresh random id, and read-only unless the request is known not
/// to be. Without a session hash the request fails.
pub fn create_new_client(
    is_read_only: Option<bool>,
    session_token_hash: Option<String>,
) -> (r: Result<NewClient, HttpError>)
    ensures
        match r {
            Ok(client) => {
                &&& text::opt_text(session_token_hash) == Some(client.session_token_hash@)
                &&& client.is_read_only == (match is_read_only {
                    Some(b) => b,
                    None => true,
                })
                &&& foreign::is_uuid_v4(client.web_client_id@)
            },
            Err(e) => {
                &&& session_token_hash is None
                &&& e.status == STATUS_INTERNAL_SERVER_ERROR
                &&& e.message@ == "Missing session info"@
            },
        },
{
    new_client(foreign::random_uuid(), is_read_only, session_token_hash)
}

/// Begin the creation of a client with the given id.
pub fn new_client(
    web_client_id: String,
    is_read_only: Option<bool>,
    session_token_hash: Option<String>,
) -> (r: Result<NewClient, HttpError>)
    ensures
        match r {
            Ok(client) => {
                &&& text::opt_text(session_token_hash) == Some(client.session_token_hash@)
                &&& client.is_read_only == (match is_read_only {
                    Some(b) => b,
                    None => true,
                })
                &&& client.web_client_id@ == web_client_id@
            },
            Err(e) => {
                &&& session_token_hash is None
                &&& e.status == STATUS_INTERNAL_SERVER_ERROR
                &&& e.message@ == "Missing session info"@
            },
        },
{
    let read_only = match is_read_only {
        Some(b) => b,
        None => true,
    };
    match session_token_hash {
        Some(hash) => Ok(
            NewClient { web_client_id, is_read_only: read_only, session_token_hash: hash },
        ),
        None => Err(
            HttpError {
                status: STATUS_INTERNAL_SERVER_ERROR,
                message: "Missing session info".to_owned(),
            },
        ),
    }
}

/// Finish the creation of a client once its connection to the system was made,
/// or was not. The client comes back to be entered in the connection table.
pub fn finish_new_client(
    client: NewClient,
    os_api: Result<(), String>,
) -> (r: Result<(NewClient, CreateClientIdResponse), HttpError>)
    ensures
        match r {
            Ok((entered, answer)) => {
                &&& os_api is Ok
                &&& entered == client
                &&& answer.web_client_id@ == client.web_client_id@
                &&& answer.is_read_only == client.is_read_only
            },
            Err(e) => {
                &&& os_api is Err
                &&& e.status == STATUS_INTERNAL_SERVER_ERROR
                &&& e.message@ == os_api->Err_0@
            },
        },
{
    match os_api {
        Ok(_) => {
            let answer = CreateClientIdResponse {
                web_client_id: client.web_client_id.clone(),
                is_read_only: client.is_read_only,
            };
            Ok((client, answer))
        },
        Err(e) => Err(HttpError { status: STATUS_INTERNAL_SERVER_ERROR, message: e }),
    }
}

/// The place of the last `c` in `s`, or -1.
pub open spec fn last_index(s: Seq<char>, c: char) -> int
    decreases s.len(),
{
    if s.len() == 0 {
        -1
    } else if s.last() == c {
        s.len() - 1
    } else {
        last_index(s.drop_last(), c)
    }
}

proof fn lemma_last_index(s: Seq<char>, c: char)
    ensures
        -1 <= last_index(s, c) < s.len(),
    decreases s.len(),
{
    if s.len() > 0 && s.last() != c {
        lemma_last_index(s.drop_last(), c);
    }
}

/// The last component of a slash-separated path, if it names something: trailing
/// slashes and `.` components do not count, and `..` names nothing.
pub open spec fn file_name(path: Seq<char>) -> Option<Seq<char>>
    decreases path.len(),
{
    let n = path.len() as int;
    if n == 0 {
        None
    } else if path[n - 1] == '/' || (n >= 2 && path[n - 1] == '.' && path[n - 2] == '/') {
        file_name(path.drop_last())
    } else {
        let name = path.skip(last_index(path, '/') + 1);
        if name == seq!['.'] || name == seq!['.', '.'] {
            None
        } else {
            Some(name)
        }
    }
}

/// What follows the last dot of a path's file name, unless the name has no dot
/// or none but at its start.
pub open spec fn extension(path: Seq<char>) -> Option<Seq<char>> {
    match file_name(path) {
        Some(name) => if last_index(name, '.') > 0 {
            Some(name.skip(last_index(name, '.') + 1))
        } else {
            None
        },
        None => None,
    }
}

/// The number of characters up to and with the last `c` among `chars[from..to]`.
fn past_last(chars: &Vec<char>, from: usize, to: usize, c: char) -> (r: usize)
    requires
        from <= to <= chars@.len(),
    ensures
        r == last_index(chars@.subrange(from as int, to as int), c) + 1,
{
    let mut n: usize = to;
    while n > from && chars[n - 1] != c
        invariant
            from <= n <= to <= chars@.len(),
            last_index(chars@.subrange(from as int, n as int), c) == last_index(
                chars@.subrange(from as int, to as int),
                c,
            ),
        decreases n,
    {
        assert(chars@.subrange(from as int, n as int).drop_last() =~= chars@.subrange(
            from as int,
            n - 1,
        ));
        n = n - 1;
    }
    n - from
}

/// What follows the last dot of a path's file name.
pub fn path_extension(path: &str) -> (r: Option<String>)
    ensures
        text::opt_text(r) == extension(path@),
{
    let chars = text::to_chars(path);
    let mut n: usize = chars.len();
    assert(path@.take(n as int) =~= path@);
    while n > 0 && (chars[n - 1] == '/' || (n >= 2 && chars[n - 1] == '.' && chars[n - 2] == '/'))
        invariant
            n <= chars@.len(),
            chars@ == path@,
            file_name(path@.take(n as int)) == file_name(path@),
        decreases n,
    {
        assert(path@.take(n as int).drop_last() =~= path@.take(n - 1));
        n = n - 1;
    }
    if n == 0 {
        return None;
    }
    let start = past_last(&chars, 0, n, '/');
    assert(path@.take(n as int) =~= chars@.subrange(0, n as int));
    proof {
        lemma_last_index(path@.take(n as int), '/');
    }
    let ghost name = path@.take(n as int).skip(start as int);
    assert(name =~= chars@.subrange(start as int, n as int));
    if n - start == 1 && chars[start] == '.' {
        assert(name =~= seq!['.']);
        return None;
    }
    if n - start == 2 && chars[start] == '.' && chars[start + 1] == '.' {
        assert(name =~= seq!['.', '.']);
        return None;
    }
    assert(name != seq!['.']) by {
        if name == seq!['.'] {
            assert(name[0] == '.' && name.len() == 1);
        }
    }
    assert(name != seq!['.', '.']) by {
        if name == seq!['.', '.'] {
            assert(name[0] == '.' && name[1] == '.' && name.len() == 2);
        }
    }
    let dot = past_last(&chars, start, n, '.');
    proof {
        lemma_last_index(name, '.');
    }
    if dot <= 1 {
        return None;
    }
    assert(name.skip(dot as int) =~= chars@.subrange(start + dot, n as int));
    Some(text::from_chars(&chars, start + dot, n))
}

/// A static asset that was found.
#[derive(Debug)]
pub struct StaticAsset {
    pub extension: Option<String>,
    pub contents: Vec<u8>,
}

/// What an asset request is answered.
#[derive(Debug)]
pub struct AssetResponse {
    pub content_type: String,
    pub body: Vec<u8>,
}

/// Look up a static asset. Leading slashes of the path do not count.
pub fn get_static_asset(assets: &include_dir::Dir<'static>, path: &str) -> (r: Option<StaticAsset>)
    ensures
        ({
            let key = text::trimmed_start(path@, '/');
            let files = foreign::embedded_files(*assets);
            match r {
                Some(asset) => {
                    &&& files.contains_key(key)
                    &&& asset.contents@ == files[key].contents
                    &&& text::opt_text(asset.extension) == extension(files[key].path)
                },
                None => !files.contains_key(key),
            }
        }),
{
    let key = text::trim_start(path, '/');
    match foreign::embedded_file(assets, key.as_str()) {
        Some(file) => Some(found_asset(file)),
        None => None,
    }
}

/// The asset that an embedded file is.
pub fn found_asset(file: EmbeddedFile) -> (r: StaticAsset)
    ensures
        r.contents@ == file@.contents,
        text::opt_text(r.extension) == extension(file@.path),
{
    StaticAsset { extension: path_extension(file.path.as_str()), contents: file.contents }
}

/// The answer to an asset request: the asset with the type that its extension
/// stands for, or a note that there is none.
pub fn asset_response(asset: Option<(StaticAsset, String)>) -> (r: AssetResponse)
    ensures
        match asset {
            Some((found, mime_type)) => r.content_type@ == mime_type@ && r.body@
                == found.contents@,
            None => r.content_type@ == "text/html"@ && r.body@ == encode_utf8("Not Found"@),
        },
{
    match asset {
        Some((found, mime_type)) => AssetResponse {
            content_type: mime_type,
            body: found.contents,
        },
        None => AssetResponse {
            content_type: "text/html".to_owned(),
            body: "Not Found".as_bytes_vec(),
        },
    }
}

/// What stands for `IS_AUTHENTICATED` is `true` or `false` by the visitor alone: a
/// template in which it is written out beforehand gives the same page, whatever
/// the base URL, and then no matter who asks.
pub proof fn law_page_shows_who_is_signed_in(
    template: Seq<char>,
    is_authenticated: bool,
    base_url: Option<Seq<char>>,
    anyone: bool,
)
    ensures
        ({
            let word = if is_authenticated {
                "true"@
            } else {
                "false"@
            };
            page(template, is_authenticated, base_url) == page(
                text::replaced(template, "IS_AUTHENTICATED"@, word),
                anyone,
                base_url,
            )
        }),
{
    let mark = "IS_AUTHENTICATED"@;
    let word = if is_authenticated {
        "true"@
    } else {
        "false"@
    };
    reveal_strlit("IS_AUTHENTICATED");
    reveal_strlit("true");
    reveal_strlit("false");
    assert forall|i: int, j: int| 0 <= i < mark.len() && 0 <= j < word.len() implies mark[i]
        != word[j] by {}
    let filled = text::replaced(template, mark, word);
    text::lemma_replaced_leaves_none(template, mark, word);
    let other = if anyone {
        "true"@
    } else {
        "false"@
    };
    text::law_replacing_nothing(filled, mark, other);
}

/// A page without placeholders is the template; one without the first placeholder
/// is the same for every visitor; one without the second is the same for every
/// base URL.
pub proof fn law_page_is_the_template_filled_in(
    template: Seq<char>,
    is_authenticated: bool,
    base_url: Option<Seq<char>>,
    other_visitor: bool,
)
    ensures
        (forall|i: int| !text::occurs_at(template, "IS_AUTHENTICATED"@, i)) ==> page(
            template,
            is_authenticated,
            base_url,
        ) == page(template, other_visitor, base_url) && page(template, is_authenticated, base_url)
            == text::replaced(
            template,
            "BASE_URL"@,
            escaped(
                if base_url is Some {
                    base_url->Some_0
                } else {
                    "/"@
                },
            ),
        ),
        (forall|i: int| !text::occurs_at(template, "IS_AUTHENTICATED"@, i)) && (forall|i: int|
            !text::occurs_at(template, "BASE_URL"@, i)) ==> page(
            template,
            is_authenticated,
            base_url,
        ) == template,
{
    reveal_strlit("IS_AUTHENTICATED");
    reveal_strlit("BASE_URL");
    if forall|i: int| !text::occurs_at(template, "IS_AUTHENTICATED"@, i) {
        text::law_replacing_nothing(template, "IS_AUTHENTICATED"@, "true"@);
        text::law_replacing_nothing(template, "IS_AUTHENTICATED"@, "false"@);
        if forall|i: int| !text::occurs_at(template, "BASE_URL"@, i) {
            let base = escaped(
                if base_url is Some {
                    base_url->Some_0
                } else {
                    "/"@
                },
            );
            text::law_replacing_nothing(template, "BASE_URL"@, base);
        }
    }
}

/// Without a base URL the page is the one for the base URL `/`, in which that
/// slash stands as it is.
pub proof fn law_base_url_defaults_to_the_root(template: Seq<char>, is_authenticated: bool)
    ensures
        page(template, is_authenticated, None) == page(template, is_authenticated, Some("/"@)),
        page(template, is_authenticated, None) == text::replaced(
            page(template, is_authenticated, Some("BASE_URL"@)),
            "BASE_URL"@,
            "/"@,
        ),
{
    reveal_strlit("/");
    reveal_strlit("BASE_URL");
    law_plain_text_is_unchanged("/"@);
    law_plain_text_is_unchanged("BASE_URL"@);
    let auth = if is_authenticated {
        "true"@
    } else {
        "false"@
    };
    let with_auth = text::replaced(template, "IS_AUTHENTICATED"@, auth);
    text::lemma_replaced_by_itself(with_auth, "BASE_URL"@);
}

/// A path with slashes at its end, or with `.` components there, has the extension
/// of the path without them.
pub proof fn law_extension_ignores_the_end(path: Seq<char>)
    requires
        path.len() > 0,
    ensures
        extension(path.push('/')) == extension(path),
        extension(path.push('/').push('.')) == extension(path),
{
    let one = path.push('/');
    let two = one.push('.');
    assert(one.drop_last() =~= path);
    assert(two.drop_last() =~= one);
    assert(file_name(one) == file_name(path));
    assert(two[two.len() - 2] == '/');
    assert(file_name(two) == file_name(one));
}

/// The place found last is one of `c`, and none comes after it.
proof fn lemma_last_index_at(s: Seq<char>, c: char, i: int)
    requires
        0 <= i < s.len(),
        s[i] == c,
        forall|j: int| i < j < s.len() ==> s[j] != c,
    ensures
        last_index(s, c) == i,
    decreases s.len(),
{
    if i < s.len() - 1 {
        lemma_last_index_at(s.drop_last(), c, i);
    }
}

proof fn lemma_last_index_none(s: Seq<char>, c: char)
    requires
        forall|j: int| 0 <= j < s.len() ==> s[j] != c,
    ensures
        last_index(s, c) == -1,
    decreases s.len(),
{
    if s.len() > 0 {
        assert forall|j: int| 0 <= j < s.drop_last().len() implies s.drop_last()[j] != c by {
            assert(s.drop_last()[j] == s[j]);
        }
        lemma_last_index_none(s.drop_last(), c);
    }
}

/// The file name of a path is what follows its last slash, in whatever directory.
proof fn lemma_file_name(dir: Seq<char>, name: Seq<char>)
    requires
        dir.len() == 0 || dir.last() == '/',
        name.len() > 0,
        forall|i: int| 0 <= i < name.len() ==> name[i] != '/',
        name != seq!['.'],
        name != seq!['.', '.'],
    ensures
        file_name(dir + name) == Some(name),
{
    let path = dir + name;
    let n = path.len() as int;
    assert(path[n - 1] == name.last());
    assert(name.last() == name[name.len() - 1]);
    if n >= 2 && path[n - 1] == '.' && path[n - 2] == '/' {
        if name.len() >= 2 {
            assert(path[n - 2] == name[name.len() - 2]);
        }
        assert(name =~= seq!['.']);
    }
    if dir.len() == 0 {
        assert(path =~= name);
        lemma_last_index_none(path, '/');
    } else {
        assert forall|j: int| dir.len() - 1 < j < n implies path[j] != '/' by {
            assert(path[j] == name[j - dir.len()]);
        }
        assert(path[dir.len() - 1] == dir.last());
        lemma_last_index_at(path, '/', dir.len() - 1);
    }
    assert(path.skip(dir.len() as int) =~= name);
    assert(path.skip(last_index(path, '/') + 1) =~= name);
}

/// A file named `stem.ext`, in whatever directory, has the extension `ext`, where
/// `stem` is not empty and `ext` has no dot.
pub proof fn law_extension_follows_the_last_dot(
    dir: Seq<char>,
    stem: Seq<char>,
    ext: Seq<char>,
)
    requires
        dir.len() == 0 || dir.last() == '/',
        stem.len() > 0,
        forall|i: int| 0 <= i < stem.len() ==> stem[i] != '/',
        forall|i: int| 0 <= i < ext.len() ==> ext[i] != '/' && ext[i] != '.',
        stem.push('.') + ext != seq!['.', '.'],
    ensures
        extension(dir + (stem.push('.') + ext)) == Some(ext),
{
    let name = stem.push('.') + ext;
    assert(name[0] == stem[0]);
    assert(name.len() >= 2);
    assert forall|i: int| 0 <= i < name.len() implies name[i] != '/' by {
        if i < stem.len() {
            assert(name[i] == stem[i]);
        } else if i > stem.len() {
            assert(name[i] == ext[i - stem.len() - 1]);
        }
    }
    assert(seq!['.'].len() == 1);
    lemma_file_name(dir, name);
    assert forall|j: int| stem.len() < j < name.len() implies name[j] != '.' by {
        assert(name[j] == ext[j - stem.len() - 1]);
    }
    lemma_last_index_at(name, '.', stem.len() as int);
    assert(name.skip(stem.len() as int + 1) =~= ext);
}

/// A file whose name has no dot, or none but at its start, has no extension, and
/// neither has `.`, `..` or the empty path.
pub proof fn law_no_extension_without_a_dot(dir: Seq<char>, name: Seq<char>)
    requires
        dir.len() == 0 || dir.last() == '/',
        name.len() > 0,
        forall|i: int| 0 <= i < name.len() ==> name[i] != '/',
        forall|i: int| 0 < i < name.len() ==> name[i] != '.',
    ensures
        name != seq!['.'] ==> extension(dir + name) is None,
        extension(Seq::empty()) is None,
        extension(seq!['.']) is None,
        extension(seq!['.', '.']) is None,
        extension(dir + seq!['.', '.']) is None,
{
    lemma_dots_name_nothing(dir);
    lemma_dots_name_nothing(Seq::empty());
    assert(Seq::<char>::empty() + seq!['.', '.'] =~= seq!['.', '.']);
    lemma_last_index_none(seq!['.'], '/');
    assert(seq!['.'].skip(0) =~= seq!['.']);
    if name != seq!['.'] {
        if name == seq!['.', '.'] {
            assert(name[1] == '.');
        }
        lemma_file_name(dir, name);
        if name[0] == '.' {
            lemma_last_index_at(name, '.', 0);
        } else {
            lemma_last_index_none(name, '.');
        }
    }
}

proof fn lemma_dots_name_nothing(dir: Seq<char>)
    requires
        dir.len() == 0 || dir.last() == '/',
    ensures
        file_name(dir + seq!['.', '.']) is None,
{
    let path = dir + seq!['.', '.'];
    let n = path.len() as int;
    assert(path[n - 1] == '.' && path[n - 2] == '.');
    if dir.len() == 0 {
        assert(path =~= seq!['.', '.']);
        lemma_last_index_none(path, '/');
    } else {
        assert(path[dir.len() - 1] == dir.last());
        lemma_last_index_at(path, '/', dir.len() - 1);
    }
    assert(path.skip(last_index(path, '/') + 1) =~= seq!['.', '.']);
}

} // verus!
