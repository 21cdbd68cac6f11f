use johnbox::http_cache::{
    accepts_br, can_be_header, content_name, kind_of_content, make_target, meaning, CacheAction,
    request_headers, CacheError, CacheEvent, CacheMode, CacheRun, HeaderText, Headers, HttpCache,
    JBHttpResponse, Phase, Regexes, StoreKind,
};
use johnbox::patch::{insert_all, is_found, patch, patch_parts, patch_source, PatchError};
use johnbox::stream::{StreamError, TextBuilder};
use tree_sitter::Query;

const URLS: &str = r"([a-z]+\.)?jackbox(games\.com|\.tv)";

fn cache() -> HttpCache {
    HttpCache {
        regexes: Regexes {
            content_to_compress: "^(text/|application/json)".to_owned(),
            jackbox_urls: URLS.to_owned(),
        },
    }
}

fn text(s: &str) -> HeaderText {
    HeaderText::Text(s.to_owned())
}

fn fetched(not_modified: bool, etag: &str, content_type: &str) -> CacheEvent {
    CacheEvent::Fetched { not_modified, etag: text(etag), content_type: text(content_type) }
}

fn stored(etag: &str, content_type: &str, compressed: bool) -> CacheEvent {
    CacheEvent::Loaded(JBHttpResponse {
        etag: etag.to_owned(),
        content_type: Some(content_type.to_owned()),
        compressed,
    })
}

fn start(mode: CacheMode, encodings: Option<&str>) -> (CacheRun, CacheAction) {
    cache().get_cached(Some("/main/app.js?v=1"), headers(), encodings, mode).unwrap()
}

fn pair(name: &str, value: &str) -> (String, Vec<u8>) {
    (name.to_owned(), value.as_bytes().to_vec())
}

fn headers() -> Headers {
    vec![
        pair("If-Modified-Since", "x"),
        pair("accept", "*/*"),
        pair("host", "localhost"),
        pair("if-none-match", "e0"),
        (String::from("x-opaque"), vec![0xff, 0x80]),
    ]
}

fn go(run: CacheRun, event: CacheEvent) -> (CacheRun, CacheAction) {
    cache().advance(run, event).unwrap()
}

#[test]
fn plain_requests_mean_the_default_host() {
    let target = cache().target(Some("/main/app.js?v=1")).unwrap();
    assert_eq!(target.host_header, "jackbox.tv");
    assert_eq!(target.host, "jackbox.tv");
    assert_eq!(target.uri, "https://jackbox.tv/main/app.js?v=1");
    assert_eq!(target.raw, "jackbox.tv//main/app.js");
    let root = cache().target(Some("/")).unwrap();
    assert_eq!(root.raw, "jackbox.tv/index.html");
    assert_eq!(root.uri, "https://jackbox.tv/");
}

#[test]
fn named_hosts_are_meant() {
    let target = cache().target(Some("/@cdn.jackboxgames.com/a/b?c")).unwrap();
    assert_eq!(target.host_header, "cdn.jackboxgames.com");
    assert_eq!(target.host, "cdn.jackboxgames.com");
    assert_eq!(target.uri, "https://cdn.jackboxgames.com/a/b?c");
    assert_eq!(target.raw, "cdn.jackboxgames.com//a/b");
    let target = cache().target(Some("/@jackbox.tv:8080")).unwrap();
    assert_eq!(target.host_header, "jackbox.tv:8080");
    assert_eq!(target.host, "jackbox.tv");
    assert_eq!(target.raw, "jackbox.tv/index.html");
    assert_eq!(meaning("/@h/x/y"), ("h".to_owned(), "/x/y".to_owned()));
    assert_eq!(meaning("/@h"), ("h".to_owned(), "/".to_owned()));
    assert_eq!(meaning("/x@h/y"), ("jackbox.tv".to_owned(), "/x@h/y".to_owned()));
}

#[test]
fn other_hosts_are_refused() {
    assert_eq!(cache().target(Some("/@example.com/a")).err(), Some(CacheError::NotJackbox));
    assert_eq!(cache().target(Some("/@[jackbox.tv/a")).err(), Some(CacheError::InvalidAuthority));
    assert_eq!(
        cache().target(Some("/@jackbox.tv/a b")).err(),
        Some(CacheError::InvalidPath)
    );
    assert_eq!(cache().target(None).err(), Some(CacheError::InvalidUri));
    assert_eq!(cache().target(Some("/a b")).err(), Some(CacheError::InvalidUri));
    assert_eq!(CacheError::NotJackbox.status(), 400);
    assert_eq!(CacheError::EtagNotText.status(), 422);
    assert_eq!(CacheError::ContentTypeNotText.status(), 422);
    assert_eq!(CacheError::InvalidUri.status(), 500);
    let target = make_target("h:1".to_owned(), "h".to_owned(), "/", "https://h:1/".to_owned());
    assert_eq!(target.raw, "h/index.html");
}

#[test]
fn encodings_are_searched() {
    assert!(accepts_br(Some("gzip, deflate, br")));
    assert!(accepts_br(Some("\u{a0}br\t,gzip")));
    assert!(!accepts_br(Some("brotli, gzip")));
    assert!(!accepts_br(Some("br;q=1")));
    assert!(!accepts_br(Some("")));
    assert!(!accepts_br(None));
}

#[test]
fn answers_are_described() {
    let pattern = "^text/";
    let meta = JBHttpResponse::from_request(text("e1"), text("text/css"), pattern).unwrap();
    assert_eq!(meta.etag, "e1");
    assert_eq!(meta.content_type, Some("text/css".to_owned()));
    assert!(meta.compressed);
    let meta = JBHttpResponse::from_request(text("e1"), text("image/png"), pattern).unwrap();
    assert!(!meta.compressed);
    let meta = JBHttpResponse::from_request(text("e1"), HeaderText::Absent, pattern).unwrap();
    assert!(!meta.compressed);
    assert_eq!(meta.content_type, None);
    let fails = |etag, content_type| JBHttpResponse::from_request(etag, content_type, pattern).err();
    assert_eq!(fails(HeaderText::Absent, HeaderText::Opaque), Some(CacheError::EtagMissing));
    assert_eq!(fails(HeaderText::Opaque, HeaderText::Absent), Some(CacheError::EtagNotText));
    assert_eq!(fails(text("e"), HeaderText::Opaque), Some(CacheError::ContentTypeNotText));
}

#[test]
fn headers_are_checked() {
    assert!(can_be_header("\"etag\"\tx\u{e4}"));
    assert!(!can_be_header("a\nb"));
    assert!(!can_be_header("\u{7f}"));
    let meta = |etag: &str, content_type: &str| JBHttpResponse {
        etag: etag.to_owned(),
        content_type: Some(content_type.to_owned()),
        compressed: false,
    };
    let headers = meta("e", "text/css").headers().unwrap();
    assert_eq!(headers.etag, "e");
    assert_eq!(headers.content_type, Some("text/css".to_owned()));
    assert_eq!(meta("\n", "x").headers().err(), Some(CacheError::EtagInvalid));
    assert_eq!(meta("e", "\r").headers().err(), Some(CacheError::ContentTypeInvalid));
    assert_eq!(content_name("h", &meta("e", "x")), "h/e");
}

#[test]
fn kinds_of_content() {
    let kind = |s: &str| kind_of_content(&Some(s.to_owned()));
    assert_eq!(kind("text/javascript"), StoreKind::Script);
    assert_eq!(kind("application/json"), StoreKind::Script);
    assert_eq!(kind("text/css"), StoreKind::Style);
    assert_eq!(kind("text/css; charset=utf-8"), StoreKind::Plain);
    assert_eq!(kind_of_content(&None), StoreKind::Plain);
}

#[test]
fn online_content_is_fetched_stored_and_served() {
    let (run, action) = start(CacheMode::Online, Some("br"));
    assert!(matches!(
        action,
        CacheAction::Fetch { uri, .. } if uri == "https://jackbox.tv/main/app.js?v=1"
    ));
    let (run, action) = go(run, fetched(false, "e1", "text/javascript"));
    assert!(matches!(action, CacheAction::Prepare { name } if name == "jackbox.tv/e1.br"));
    let (run, action) = go(run, CacheEvent::Exists(false));
    assert!(matches!(action, CacheAction::Probe { name } if name == "jackbox.tv/e1.br"));
    let (run, action) = go(run, CacheEvent::Exists(false));
    assert!(matches!(
        action,
        CacheAction::Lock { part_of, name } if part_of == "jackbox.tv/e1.br" && name == part_of
    ));
    let (run, action) = go(run, CacheEvent::Exists(false));
    match action {
        CacheAction::Store { kind, meta, part_of, raw, name } => {
            assert_eq!(kind, StoreKind::Script);
            assert_eq!(meta.etag, "e1");
            assert_eq!(meta.content_type, Some("text/javascript".to_owned()));
            assert!(meta.compressed);
            assert_eq!(part_of, "jackbox.tv/e1.br");
            assert_eq!(raw, "jackbox.tv//main/app.js");
            assert_eq!(name, "jackbox.tv/e1.br");
        }
        _ => panic!(),
    }
    let (run, action) = go(run, CacheEvent::Done);
    match action {
        CacheAction::Serve { name, headers, encoded, decode } => {
            assert_eq!(name, "jackbox.tv/e1.br");
            assert_eq!(headers.etag, "e1");
            assert!(encoded);
            assert!(!decode);
        }
        _ => panic!(),
    }
    assert!(matches!(run.phase, Phase::Answered));
}

#[test]
fn requests_are_sent_on_for_the_host_that_is_meant() {
    let given = vec![
        pair("If-Modified-Since", "x"),
        pair("Accept", "*/*"),
        pair("Host", "localhost"),
    ];
    let uri = Some("/@bundles.jackbox.tv/main/a.js?v=1");
    let (_, action) = cache().get_cached(uri, given, None, CacheMode::Online).unwrap();
    match action {
        CacheAction::Fetch { uri, headers } => {
            assert_eq!(uri, "https://bundles.jackbox.tv/main/a.js?v=1");
            let expected = vec![pair("Accept", "*/*"), pair("host", "bundles.jackbox.tv")];
            assert_eq!(headers, expected);
        }
        _ => panic!(),
    }
    let opaque = (String::from("x-opaque"), vec![0xff, 0x80]);
    assert_eq!(
        request_headers(&headers(), "h:1", false),
        vec![pair("accept", "*/*"), pair("if-none-match", "e0"), opaque.clone(), pair("host", "h:1")]
    );
    assert_eq!(
        request_headers(&headers(), "h:1", true),
        vec![pair("accept", "*/*"), opaque, pair("host", "h:1")]
    );
    assert_eq!(request_headers(&Vec::new(), "h", true), vec![pair("host", "h")]);
}

#[test]
fn stored_content_is_served() {
    let (run, _) = start(CacheMode::Online, None);
    let (run, _) = go(run, fetched(false, "e1", "text/css"));
    let (run, action) = go(run, CacheEvent::Exists(true));
    assert!(matches!(action, CacheAction::Probe { .. }));
    let (_, action) = go(run, CacheEvent::Exists(true));
    assert!(matches!(
        action,
        CacheAction::Serve { encoded: false, decode: true, .. }
    ));
}

#[test]
fn others_may_store_first() {
    let (run, _) = start(CacheMode::Online, None);
    let (run, _) = go(run, fetched(false, "e1", "image/png"));
    let (run, _) = go(run, CacheEvent::Exists(false));
    let (run, _) = go(run, CacheEvent::Exists(false));
    let (run, action) = go(run, CacheEvent::Exists(true));
    assert!(matches!(action, CacheAction::Discard { part_of } if part_of == "jackbox.tv/e1"));
    let (_, action) = go(run, CacheEvent::Done);
    assert!(matches!(action, CacheAction::Serve { encoded: false, decode: false, .. }));
}

#[test]
fn online_content_that_is_lost_is_read_from_what_is_known() {
    let (run, _) = start(CacheMode::Online, None);
    let (run, _) = go(run, fetched(true, "e1", "image/png"));
    let (run, action) = go(run, CacheEvent::Exists(false));
    assert!(matches!(action, CacheAction::Load { name } if name == "jackbox.tv//main/app.js"));
    let (run, action) = go(run, stored("e2", "image/png", false));
    assert!(matches!(action, CacheAction::Probe { name } if name == "jackbox.tv/e2"));
    let (run, action) = go(run, CacheEvent::Exists(false));
    assert!(matches!(
        action,
        CacheAction::Lock { part_of, name }
            if part_of == "jackbox.tv/e1" && name == "jackbox.tv/e2"
    ));
    let (_, action) = go(run, CacheEvent::Exists(false));
    assert!(matches!(action, CacheAction::Discard { .. }));
}

#[test]
fn offline_content_is_read_and_fetched_only_when_lost() {
    let (run, action) = start(CacheMode::Offline, Some("gzip"));
    assert!(matches!(action, CacheAction::Load { name } if name == "jackbox.tv//main/app.js"));
    let (run, action) = go(run, stored("e1", "text/css", true));
    assert!(matches!(action, CacheAction::Prepare { name } if name == "jackbox.tv/e1.br"));
    let (run, action) = go(run, CacheEvent::Exists(false));
    assert!(matches!(
        action,
        CacheAction::Fetch { headers, .. } if headers.iter().all(|(n, _)| n != "if-none-match")
    ));
    let (run, _) = go(run, fetched(false, "e2", "text/css"));
    let (run, _) = go(run, CacheEvent::Exists(false));
    let (_, action) = go(run, CacheEvent::Exists(false));
    assert!(matches!(
        action,
        CacheAction::Store { kind: StoreKind::Style, meta, part_of, name, .. }
            if meta.compressed && meta.etag == "e2" && part_of == "jackbox.tv/e1.br" && name == "jackbox.tv/e2.br"
    ));
}

#[test]
fn oneshot_content_is_looked_up_first() {
    let (run, action) = start(CacheMode::Oneshot, None);
    assert!(matches!(action, CacheAction::Probe { name } if name == "jackbox.tv//main/app.js"));
    let (_, action) = go(run, CacheEvent::Exists(true));
    assert!(matches!(action, CacheAction::Load { .. }));
    let (run, _) = start(CacheMode::Oneshot, None);
    let (_, action) = go(run, CacheEvent::Exists(false));
    assert!(matches!(
        action,
        CacheAction::Fetch { headers, .. } if headers.iter().any(|(n, _)| n == "if-none-match")
    ));
}

#[test]
fn bad_answers_end_a_request() {
    let (run, _) = start(CacheMode::Online, None);
    let event = CacheEvent::Fetched {
        not_modified: false,
        etag: HeaderText::Absent,
        content_type: HeaderText::Absent,
    };
    assert_eq!(cache().advance(run, event).err(), Some(CacheError::EtagMissing));
    let (run, _) = start(CacheMode::Offline, None);
    let (run, _) = go(run, stored("bad\n", "text/css", false));
    let (run, _) = go(run, CacheEvent::Exists(true));
    assert_eq!(
        cache().advance(run, CacheEvent::Exists(true)).err(),
        Some(CacheError::EtagInvalid)
    );
}

#[test]
fn unknown_resources_are_not_found_offline() {
    let (run, action) = start(CacheMode::Offline, None);
    assert!(matches!(action, CacheAction::Load { .. }));
    assert!(run.awaits(&CacheEvent::Missing));
    let error = cache().advance(run, CacheEvent::Missing).err().unwrap();
    assert_eq!(error, CacheError::NotStored);
    assert_eq!(error.status(), 404);
    let (run, _) = start(CacheMode::Offline, None);
    let error = cache().advance(run, CacheEvent::Unreadable).err().unwrap();
    assert_eq!(error, CacheError::Unreadable);
    assert_eq!(error.status(), 500);
    let (run, _) = start(CacheMode::Online, None);
    assert!(!run.awaits(&CacheEvent::Missing));
}

#[test]
fn second_oneshot_requests_are_answered_like_the_first() {
    let (run, _) = start(CacheMode::Oneshot, Some("br"));
    let (run, _) = go(run, CacheEvent::Exists(false));
    let (run, _) = go(run, fetched(false, "e1", "text/css"));
    let (run, _) = go(run, CacheEvent::Exists(false));
    let (run, _) = go(run, CacheEvent::Exists(false));
    let (run, action) = go(run, CacheEvent::Exists(false));
    let CacheAction::Store { meta, .. } = action else { panic!() };
    let (_, first) = go(run, CacheEvent::Done);
    let (run, _) = start(CacheMode::Oneshot, Some("br"));
    let (run, _) = go(run, CacheEvent::Exists(true));
    let (run, _) = go(run, CacheEvent::Loaded(meta));
    let (run, _) = go(run, CacheEvent::Exists(true));
    let (_, second) = go(run, CacheEvent::Exists(true));
    assert_eq!(format!("{:?}", first), format!("{:?}", second));
    assert!(matches!(first, CacheAction::Serve { encoded: true, decode: false, .. }));
}

#[test]
fn patterns_are_found() {
    assert!(is_found(URLS, "https://jackbox.tv/x"));
    assert!(is_found(URLS, "bundles.jackboxgames.com"));
    assert!(!is_found(URLS, "example.com"));
    assert!(!is_found("(", "("));
}

#[test]
fn pieces_are_inserted() {
    assert_eq!(insert_all("abc", &vec![3, 0, 1, 1], "<>"), "<>a<><>bc<>");
    assert_eq!(insert_all("\u{e4}b", &vec![1], "-"), "\u{e4}-b");
    assert_eq!(insert_all("abc", &Vec::new(), "-"), "abc");
}

#[test]
fn addresses_are_detoured() {
    let text = "let u = \"jackbox.tv/a\", v = 'b';";
    let start = text.find('"').unwrap();
    let end = start + "\"jackbox.tv/a\"".len();
    assert_eq!(
        patch(text, &vec![(start, end)], URLS, "here.example").unwrap(),
        "let u = \"here.example/@jackbox.tv/a\", v = 'b';"
    );
    let two = "cdn.jackboxgames.com jackbox.tv";
    assert_eq!(
        patch(two, &vec![(0, two.len())], URLS, "h").unwrap(),
        "h/@cdn.jackboxgames.com h/@jackbox.tv"
    );
    assert_eq!(patch(two, &vec![], URLS, "h").unwrap(), two);
    // the place is counted in bytes behind the beginning of a part, and in characters before it
    let umlaut = "\u{e4}\u{e4} jackbox.tv";
    assert_eq!(
        patch(umlaut, &vec![(5, umlaut.len())], URLS, "h").unwrap(),
        "\u{e4}\u{e4} h/@jackbox.tv"
    );
    assert_eq!(
        patch(umlaut, &vec![(0, umlaut.len())], URLS, "h").unwrap(),
        "\u{e4}\u{e4} jah/@ckbox.tv"
    );
}

#[test]
fn parts_that_are_none_are_refused() {
    assert_eq!(patch("abc", &vec![(2, 1)], URLS, "h"), None);
    assert_eq!(patch("abc", &vec![(0, 9)], URLS, "h"), None);
    assert_eq!(patch("\u{e4}", &vec![(1, 2)], URLS, "h"), None);
    // the place would lie behind the end
    assert_eq!(patch("\u{e4}\u{e4}\u{e4}x", &vec![(0, 7)], "x", "h"), None);
}

#[test]
fn chunks_become_text() {
    let mut builder = TextBuilder::new();
    let bytes = "a\u{20ac}b\u{1f600}c".as_bytes();
    for chunk in [&bytes[..2], &bytes[2..6], &bytes[6..]] {
        assert!(builder.can_append(chunk));
        assert_eq!(builder.append(chunk), Ok(()));
    }
    assert_eq!(builder.finish(), "a\u{20ac}b\u{1f600}c");
}

#[test]
fn chunks_within_a_character_are_refused() {
    let mut builder = TextBuilder::new();
    let bytes = "\u{20ac}".as_bytes();
    assert!(builder.can_append(&bytes[..1]));
    assert_eq!(builder.append(&bytes[..1]), Err(StreamError::InvalidUtf8));
    let mut builder = TextBuilder::new();
    assert_eq!(builder.append(b"\xffabcdefgh"), Err(StreamError::InvalidUtf8));
    assert_eq!(builder.append(b"ab\xe2"), Ok(()));
    assert!(!builder.can_append(b"\x82\xacabc\xffdefgh"));
    assert_eq!(builder.append(b"\x82\xac"), Ok(()));
    assert_eq!(builder.finish(), "ab\u{20ac}");
}

#[test]
fn what_is_left_over_is_dropped() {
    let mut builder = TextBuilder::new();
    assert_eq!(builder.append(b"ab\xe2\x82"), Ok(()));
    assert_eq!(builder.finish(), "ab");
}

#[test]
fn captured_parts_are_patched() {
    let text = "jackbox.tv jackbox.tv";
    assert_eq!(
        patch_parts(&vec![vec![(11, 21), (0, 10)]], text, URLS, "h"),
        Ok("jackbox.tv h/@jackbox.tv".to_owned())
    );
    assert_eq!(patch_parts(&vec![], text, URLS, "h"), Ok(text.to_owned()));
    assert_eq!(
        patch_parts(&vec![vec![(0, 99)], vec![]], text, URLS, "h"),
        Err(PatchError::Capture)
    );
    assert_eq!(patch_parts(&vec![vec![(0, 99)]], text, URLS, "h"), Err(PatchError::Place));
}

#[test]
fn sources_are_patched_in_strings_alone() {
    let language = tree_sitter_javascript::language();
    let strings = Query::new(&language, "(string) @s").unwrap();
    let source = "const a = \"https://jackbox.tv/a\"; // jackbox.tv\nlet b = 'ecast.jackboxgames.com';";
    let patched = "const a = \"https://here/@jackbox.tv/a\"; // jackbox.tv\n\
                   let b = 'here/@ecast.jackboxgames.com';";
    assert_eq!(
        patch_source(&language, &strings, source, URLS, "here"),
        Ok(patched.to_owned())
    );
    let comments = Query::new(&language, "(comment) @c").unwrap();
    assert_eq!(
        patch_source(&language, &comments, "\"jackbox.tv\" // jackbox.tv", URLS, "h"),
        Ok("\"jackbox.tv\" // h/@jackbox.tv".to_owned())
    );
    // a text predicate looks into the same text
    let long = Query::new(&language, "((string) @s (#match? @s \"games\"))").unwrap();
    assert_eq!(
        patch_source(&language, &long, "['jackbox.tv', 'jackboxgames.com']", URLS, "h"),
        Ok("['jackbox.tv', 'h/@jackboxgames.com']".to_owned())
    );
    // of several captures the first counts
    let both = Query::new(&language, "(assignment_expression (identifier) @a (string) @b)");
    assert_eq!(
        patch_source(&language, &both.unwrap(), "a = 'jackbox.tv'", URLS, "h"),
        Ok("a = 'jackbox.tv'".to_owned())
    );
    let nothing = Query::new(&language, "(string)").unwrap();
    assert_eq!(
        patch_source(&language, &nothing, "'jackbox.tv'", URLS, "h"),
        Err(PatchError::Capture)
    );
    assert_eq!(patch_source(&language, &nothing, "1", URLS, "h"), Ok("1".to_owned()));
}
