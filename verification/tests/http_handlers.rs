use tachikoma_acl::foreign::EmbeddedFile;
use tachikoma_acl::http_handlers::{
    asset_response, create_new_client, finish_new_client, found_asset, get_static_asset,
    html_escape, new_client, path_extension, serve_html,
};

#[test]
fn html_escape_writes_references() {
    assert_eq!(html_escape("plain/text"), "plain/text");
    assert_eq!(html_escape("&<>\"'"), "&amp;&lt;&gt;&quot;&#x27;");
    assert_eq!(html_escape("&lt;"), "&amp;lt;");
    assert_eq!(html_escape("é<b>"), "é&lt;b&gt;");
    assert_eq!(html_escape(""), "");
}

#[test]
fn html_escape_replaces_in_turn() {
    for s in ["a&b<c>d\"e'f", "&&''", "&#x27;", "<script>alert(\"1\")</script>"] {
        let in_turn = s
            .replace('&', "&amp;")
            .replace('<', "&lt;")
            .replace('>', "&gt;")
            .replace('"', "&quot;")
            .replace('\'', "&#x27;");
        assert_eq!(html_escape(s), in_turn);
    }
}

#[test]
fn html_escape_works_piece_by_piece_and_loses_nothing() {
    let (a, b) = ("a&", "lt;<");
    let whole = format!("{a}{b}");
    assert_eq!(
        html_escape(&whole),
        format!("{}{}", html_escape(a), html_escape(b))
    );
    assert_ne!(html_escape("<"), html_escape("&lt;"));
    for c in ['<', '>', '"', '\''] {
        assert!(!html_escape("<a href='x' title=\"y\">").contains(c));
    }
}

#[test]
fn page_is_filled_in() {
    let template = "<base href=\"BASE_URL\"><p data-auth=\"IS_AUTHENTICATED\">BASE_URL";
    assert_eq!(
        serve_html(template, true, Some("/x\"y/")),
        "<base href=\"/x&quot;y/\"><p data-auth=\"true\">/x&quot;y/"
    );
    assert_eq!(
        serve_html(template, false, None),
        "<base href=\"/\"><p data-auth=\"false\">/"
    );
    let t = "BASEBASE_URLBASE_UR";
    assert_eq!(serve_html(t, false, Some("aa")), t.replace("BASE_URL", "aa"));
}

#[test]
fn new_client_gets_a_random_id() {
    let a = create_new_client(Some(false), Some("hash".to_string())).unwrap();
    let b = create_new_client(None, Some("hash".to_string())).unwrap();
    assert!(!a.is_read_only);
    assert!(b.is_read_only, "read-only unless known otherwise");
    assert_eq!(a.session_token_hash, "hash");
    assert_ne!(a.web_client_id, b.web_client_id);
    for id in [&a.web_client_id, &b.web_client_id] {
        let chars: Vec<char> = id.chars().collect();
        assert_eq!(chars.len(), 36);
        for (i, c) in chars.iter().enumerate() {
            if [8, 13, 18, 23].contains(&i) {
                assert_eq!(*c, '-');
            } else {
                assert!(c.is_ascii_digit() || ('a'..='f').contains(c));
            }
        }
        assert_eq!(chars[14], '4');
        assert!(['8', '9', 'a', 'b'].contains(&chars[19]));
    }
}

#[test]
fn new_client_keeps_the_given_id() {
    let c = new_client("id-1".to_string(), None, Some("h".to_string())).unwrap();
    assert_eq!(c.web_client_id, "id-1");
    assert_eq!(c.session_token_hash, "h");
    assert!(c.is_read_only);
    assert!(!new_client("x".to_string(), Some(false), Some("h".to_string())).unwrap().is_read_only);
    assert!(new_client("x".to_string(), None, None).is_err());
}

#[test]
fn client_without_session_info_is_an_error() {
    let e = create_new_client(Some(false), None).unwrap_err();
    assert_eq!(e.status, 500);
    assert_eq!(e.message, "Missing session info");
}

#[test]
fn client_is_answered_once_it_is_connected() {
    let client = create_new_client(Some(false), Some("h".to_string())).unwrap();
    let id = client.web_client_id.clone();
    let (entered, answer) = finish_new_client(client, Ok(())).unwrap();
    assert_eq!(entered.web_client_id, id);
    assert_eq!(entered.session_token_hash, "h");
    assert_eq!(answer.web_client_id, id);
    assert!(!answer.is_read_only);
    let client = create_new_client(None, Some("h".to_string())).unwrap();
    let e = finish_new_client(client, Err("no terminal".to_string())).unwrap_err();
    assert_eq!((e.status, e.message.as_str()), (500, "no terminal"));
}

#[test]
fn extension_is_what_the_standard_path_says() {
    for p in [
        "", "/", ".", "..", "...", "a", "a.js", "a.min.js", ".hidden", ".hidden.css", "dir/a.js",
        "dir.d/a", "dir.d/a.wasm", "a.", "a.js/", "a.js//", "a.js/.", "a.js/./", "./a.js", "a/..",
        "/a.js", "..a", "a..b", "/.", "./.", "x/.bashrc", "é.ü",
    ] {
        let expected = std::path::Path::new(p)
            .extension()
            .map(|e| e.to_str().unwrap().to_string());
        assert_eq!(path_extension(p), expected, "path {p:?}");
    }
}

static JS: [include_dir::DirEntry<'static>; 1] = [include_dir::DirEntry::File(
    include_dir::File::new("js/app.js", b"let x;"),
)];
static ROOT: [include_dir::DirEntry<'static>; 2] = [
    include_dir::DirEntry::File(include_dir::File::new("style.css", b"p {}")),
    include_dir::DirEntry::Dir(include_dir::Dir::new("js", &JS)),
];

#[test]
fn assets_are_found_below_leading_slashes() {
    let dir = include_dir::Dir::new("", &ROOT);
    let css = get_static_asset(&dir, "//style.css").expect("found");
    assert_eq!(css.extension.as_deref(), Some("css"));
    assert_eq!(css.contents, b"p {}".to_vec());
    let js = get_static_asset(&dir, "js/app.js").expect("found");
    assert_eq!(js.extension.as_deref(), Some("js"));
    assert_eq!(js.contents, b"let x;".to_vec());
    assert!(get_static_asset(&dir, "js").is_none(), "a directory is no asset");
    assert!(get_static_asset(&dir, "app.js").is_none());
}

#[test]
fn asset_is_served_with_its_type() {
    let asset = found_asset(EmbeddedFile {
        path: "a/b.png".to_string(),
        contents: vec![1, 2, 3],
    });
    assert_eq!(asset.extension.as_deref(), Some("png"));
    let r = asset_response(Some((asset, "image/png".to_string())));
    assert_eq!(r.content_type, "image/png");
    assert_eq!(r.body, vec![1, 2, 3]);
    let r = asset_response(None);
    assert_eq!(r.content_type, "text/html");
    assert_eq!(r.body, b"Not Found".to_vec());
}
