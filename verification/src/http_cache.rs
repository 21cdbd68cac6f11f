//! The cache of what another server serves: which resource a request means, whether it is asked
//! for there, how it is stored and how it is answered.
use crate::entity::copied;
use crate::patch::{found, is_found};
use crate::text::{
    chars_of, concat2, concat3, cut, find_from, has_prefix, is_blank, opt_text, pieces, same_text,
    split, split_once, starts_with, text_of, texts, trim, trim_blanks,
};
use axum::http::uri::{Authority, PathAndQuery};
use axum::http::Uri;
use vstd::prelude::*;
use vstd::slice::slice_to_vec;
use vstd::string::StringSliceAdditionalSpecFns;
use vstd::utf8::encode_utf8;

verus! {

/// When another server is asked.
#[derive(Clone, Copy, Debug, PartialEq, Eq, Structural)]
pub enum CacheMode {
    /// Always.
    Online,
    /// Until the resource is stored.
    Oneshot,
    /// Not until a resource that is stored turns out to be lost.
    Offline,
}

/// Why a request is not answered.
#[derive(Clone, Copy, Debug, PartialEq, Eq, Structural)]
pub enum CacheError {
    NotJackbox,
    InvalidAuthority,
    InvalidHost,
    InvalidPath,
    InvalidUri,
    EtagMissing,
    EtagNotText,
    ContentTypeNotText,
    EtagInvalid,
    ContentTypeInvalid,
    /// Nothing is known of the resource.
    NotStored,
    /// What is known of the resource cannot be read.
    Unreadable,
}

impl CacheError {
    /// The status code of the answer.
    pub open spec fn code(self) -> u16 {
        match self {
            CacheError::NotJackbox => 400,
            CacheError::NotStored => 404,
            CacheError::EtagNotText => 422,
            CacheError::ContentTypeNotText => 422,
            _ => 500,
        }
    }

    /// The status code of the answer.
    pub fn status(&self) -> (r: u16)
        ensures
            r == self.code(),
    {
        match self {
            CacheError::NotJackbox => 400,
            CacheError::NotStored => 404,
            CacheError::EtagNotText => 422,
            CacheError::ContentTypeNotText => 422,
            _ => 500,
        }
    }
}

/// What the header of a message says: nothing, a text, or bytes that are no text.
#[derive(Debug)]
pub enum HeaderText {
    Absent,
    Text(String),
    Opaque,
}

/// The patterns of the cache.
#[derive(Debug)]
pub struct Regexes {
    /// The types of content that are stored compressed.
    pub content_to_compress: String,
    /// The addresses for which this server stands in.
    pub jackbox_urls: String,
}

/// The cache.
#[derive(Debug)]
pub struct HttpCache {
    pub regexes: Regexes,
}

/// What is stored of an answer beside its content.
#[derive(Debug)]
pub struct JBHttpResponse {
    pub etag: String,
    pub content_type: Option<String>,
    pub compressed: bool,
}

/// The model of [`JBHttpResponse`].
pub struct MetaView {
    pub etag: Seq<char>,
    pub content_type: Option<Seq<char>>,
    pub compressed: bool,
}

impl View for JBHttpResponse {
    type V = MetaView;

    open spec fn view(&self) -> MetaView {
        MetaView {
            etag: self.etag@,
            content_type: opt_text(self.content_type),
            compressed: self.compressed,
        }
    }
}

impl Clone for JBHttpResponse {
    fn clone(&self) -> (r: JBHttpResponse)
        ensures
            r@ == self@,
    {
        JBHttpResponse {
            etag: self.etag.clone(),
            content_type: match &self.content_type {
                Some(content_type) => Some(content_type.clone()),
                None => None,
            },
            compressed: self.compressed,
        }
    }
}

/// What is stored of an answer with these headers. It is stored compressed where its type is one
/// of those that are.
pub open spec fn described(
    etag: HeaderText,
    content_type: HeaderText,
    content_to_compress: Seq<char>,
) -> Result<MetaView, CacheError> {
    match (etag, content_type) {
        (HeaderText::Absent, _) => Err(CacheError::EtagMissing),
        (HeaderText::Opaque, _) => Err(CacheError::EtagNotText),
        (HeaderText::Text(_), HeaderText::Opaque) => Err(CacheError::ContentTypeNotText),
        (HeaderText::Text(etag), HeaderText::Absent) => Ok(
            MetaView { etag: etag@, content_type: None, compressed: false },
        ),
        (HeaderText::Text(etag), HeaderText::Text(content_type)) => Ok(
            MetaView {
                etag: etag@,
                content_type: Some(content_type@),
                compressed: found(content_to_compress, content_type@),
            },
        ),
    }
}

/// Whether a character can stand in the value of a header.
pub open spec fn is_header_char(c: char) -> bool {
    (c as u32 >= 32 && c as u32 != 127) || c == '\t'
}

/// Whether a text can be the value of a header.
pub open spec fn is_header_value(text: Seq<char>) -> bool {
    forall|i: int| 0 <= i < text.len() ==> is_header_char(#[trigger] text[i])
}

/// Whether a text can be the value of a header.
pub fn can_be_header(text: &str) -> (r: bool)
    ensures
        r == is_header_value(text@),
{
    let chars = chars_of(text);
    let mut i: usize = 0;
    while i < chars.len()
        invariant
            i <= chars.len(),
            chars@ == text@,
            forall|j: int| 0 <= j < i ==> is_header_char(#[trigger] text@[j]),
        decreases chars.len() - i,
    {
        let c = chars[i];
        if !((c as u32 >= 32 && c as u32 != 127) || c == '\t') {
            assert(!is_header_char(text@[i as int]));
            return false;
        }
        i = i + 1;
    }
    true
}

/// The headers of an answer.
#[derive(Debug)]
pub struct ResponseHeaders {
    pub etag: String,
    pub content_type: Option<String>,
}

/// The headers of an answer with what is stored of it, where they can be headers.
pub open spec fn answer_headers(meta: MetaView) -> Result<
    (Seq<char>, Option<Seq<char>>),
    CacheError,
> {
    if !is_header_value(meta.etag) {
        Err(CacheError::EtagInvalid)
    } else if meta.content_type matches Some(content_type) && !is_header_value(content_type) {
        Err(CacheError::ContentTypeInvalid)
    } else {
        Ok((meta.etag, meta.content_type))
    }
}

impl JBHttpResponse {
    /// What is stored of an answer with these headers.
    pub fn from_request(
        etag: HeaderText,
        content_type: HeaderText,
        content_to_compress: &str,
    ) -> (r: Result<JBHttpResponse, CacheError>)
        ensures
            match r {
                Ok(meta) => described(etag, content_type, content_to_compress@) == Ok::<
                    _,
                    CacheError,
                >(meta@),
                Err(error) => described(etag, content_type, content_to_compress@) == Err::<
                    MetaView,
                    _,
                >(error),
            },
    {
        let etag: String = match etag {
            HeaderText::Absent => {
                return Err(CacheError::EtagMissing);
            },
            HeaderText::Opaque => {
                return Err(CacheError::EtagNotText);
            },
            HeaderText::Text(etag) => etag,
        };
        match content_type {
            HeaderText::Opaque => Err(CacheError::ContentTypeNotText),
            HeaderText::Absent => Ok(
                JBHttpResponse { etag, content_type: None, compressed: false },
            ),
            HeaderText::Text(content_type) => {
                let compressed: bool = is_found(content_to_compress, content_type.as_str());
                Ok(JBHttpResponse { etag, content_type: Some(content_type), compressed })
            },
        }
    }

    /// The headers of the answer.
    pub fn headers(&self) -> (r: Result<ResponseHeaders, CacheError>)
        ensures
            match r {
                Ok(headers) => answer_headers(self@) == Ok::<_, CacheError>(
                    (headers.etag@, opt_text(headers.content_type)),
                ),
                Err(error) => answer_headers(self@) == Err::<(Seq<char>, Option<Seq<char>>), _>(
                    error,
                ),
            },
    {
        if !can_be_header(self.etag.as_str()) {
            return Err(CacheError::EtagInvalid);
        }
        match &self.content_type {
            Some(content_type) => {
                if !can_be_header(content_type.as_str()) {
                    return Err(CacheError::ContentTypeInvalid);
                }
                Ok(
                    ResponseHeaders {
                        etag: self.etag.clone(),
                        content_type: Some(content_type.clone()),
                    },
                )
            },
            None => Ok(ResponseHeaders { etag: self.etag.clone(), content_type: None }),
        }
    }
}

/// Whether [`Authority::try_from`] takes a text.
pub uninterp spec fn authority_valid(text: Seq<char>) -> bool;

/// Whether [`PathAndQuery::try_from`] takes a text.
pub uninterp spec fn path_and_query_valid(text: Seq<char>) -> bool;

/// The host, the path and the text of the URI that [`Uri::builder`] makes of an authority and of a
/// path with its query, for the scheme `https`, where it makes one.
pub uninterp spec fn https_uri(authority: Seq<char>, path_and_query: Seq<char>) -> Option<
    (Seq<char>, Seq<char>, Seq<char>),
>;

/// [`Authority::try_from`] takes what can be the authority of a URI.
#[verifier::external_body]
fn is_authority(text: &str) -> (r: bool)
    ensures
        r == authority_valid(text@),
{
    Authority::try_from(text.to_owned()).is_ok()
}

/// [`PathAndQuery::try_from`] takes what can be the path of a URI with its query.
#[verifier::external_body]
fn is_path_and_query(text: &str) -> (r: bool)
    ensures
        r == path_and_query_valid(text@),
{
    PathAndQuery::try_from(text).is_ok()
}

/// [`Uri::builder`] makes a URI of its parts, of which [`Uri::host`], [`Uri::path`] and its display
/// are handed out.
#[verifier::external_body]
fn build_uri(authority: &str, path_and_query: &str) -> (r: Option<(String, String, String)>)
    ensures
        https_uri(authority@, path_and_query@) == match r {
            Some((host, path, text)) => Some((host@, path@, text@)),
            None => None,
        },
{
    let parts = Uri::builder().scheme("https").authority(authority);
    let uri = parts.path_and_query(path_and_query).build().ok()?;
    Some((uri.host()?.to_owned(), uri.path().to_owned(), uri.to_string()))
}

/// The host that is asked where a request names none.
pub const DEFAULT_HOST: &'static str = "jackbox.tv";

/// The host and the path that a request means: `/@host/path` means the path at that host,
/// anything else means itself at the default host.
pub open spec fn meant(path_and_query: Seq<char>) -> (Seq<char>, Seq<char>) {
    if starts_with(path_and_query, "/@"@) {
        let behind = path_and_query.skip(2);
        match split_once(behind, "/"@) {
            Some((host, rest)) => (host, "/"@ + rest),
            None => (behind, "/"@),
        }
    } else {
        (DEFAULT_HOST@, path_and_query)
    }
}

/// What a request means.
#[derive(Debug)]
pub struct CacheTarget {
    /// The host, as the header of a request names it.
    pub host_header: String,
    /// The host of the URI.
    pub host: String,
    /// The URI.
    pub uri: String,
    /// The name under which is stored what is known of the resource.
    pub raw: String,
}

/// The model of [`CacheTarget`].
pub struct TargetView {
    pub host_header: Seq<char>,
    pub host: Seq<char>,
    pub uri: Seq<char>,
    pub raw: Seq<char>,
}

impl View for CacheTarget {
    type V = TargetView;

    open spec fn view(&self) -> TargetView {
        TargetView {
            host_header: self.host_header@,
            host: self.host@,
            uri: self.uri@,
            raw: self.raw@,
        }
    }
}

/// The name under which is stored what is known of the resource with a path.
pub open spec fn raw_name(host: Seq<char>, path: Seq<char>) -> Seq<char> {
    host + "/"@ + if path == "/"@ {
        "index.html"@
    } else {
        path
    }
}

/// The name under which the content of a resource is stored.
pub open spec fn resource_name(host: Seq<char>, meta: MetaView) -> Seq<char> {
    host + "/"@ + meta.etag + if meta.compressed {
        ".br"@
    } else {
        seq![]
    }
}

/// The name under which the content of a resource is stored.
pub fn content_name(host: &str, meta: &JBHttpResponse) -> (r: String)
    ensures
        r@ == resource_name(host@, meta@),
{
    let mut name = concat3(host, "/", meta.etag.as_str());
    if meta.compressed {
        name.push_str(".br");
    }
    assert(!meta.compressed ==> name@ =~= resource_name(host@, meta@));
    name
}

/// What a request means, for the parts of the URI that was made of it.
pub open spec fn target_of(host_header: Seq<char>, uri: (Seq<char>, Seq<char>, Seq<char>)) -> TargetView {
    TargetView { host_header, host: uri.0, uri: uri.2, raw: raw_name(uri.0, uri.1) }
}

/// What a request means. Only hosts for which this server stands in can be named.
pub open spec fn targeted(path_and_query: Option<Seq<char>>, jackbox_urls: Seq<char>) -> Result<
    TargetView,
    CacheError,
> {
    match path_and_query {
        None => Err(CacheError::InvalidUri),
        Some(text) => {
            let (host, path) = meant(text);
            let named = starts_with(text, "/@"@);
            if named && !found(jackbox_urls, host) {
                Err(CacheError::NotJackbox)
            } else if named && !authority_valid(host) {
                Err(CacheError::InvalidAuthority)
            } else if named && !is_header_value(host) {
                Err(CacheError::InvalidHost)
            } else if named && !path_and_query_valid(path) {
                Err(CacheError::InvalidPath)
            } else {
                match https_uri(host, path) {
                    Some(uri) => Ok(target_of(host, uri)),
                    None => Err(CacheError::InvalidUri),
                }
            }
        },
    }
}

/// What a request means, for the parts of the URI that was made of it.
pub fn make_target(host_header: String, host: String, path: &str, uri: String) -> (r: CacheTarget)
    ensures
        r@ == target_of(host_header@, (host@, path@, uri@)),
{
    let name: &str = if same_text(path, "/") {
        "index.html"
    } else {
        path
    };
    let raw = concat3(host.as_str(), "/", name);
    CacheTarget { host_header, host, uri, raw }
}

/// The host and the path that a request means.
pub fn meaning(path_and_query: &str) -> (r: (String, String))
    ensures
        (r.0@, r.1@) == meant(path_and_query@),
{
    if has_prefix(path_and_query, "/@") {
        let chars = chars_of(path_and_query);
        let end: usize = chars.len();
        proof {
            reveal_strlit("/@");
        }
        let behind = text_of(&chars, 2, end);
        assert(behind@ =~= path_and_query@.skip(2));
        match cut(behind.as_str(), "/") {
            Some((host, rest)) => (host, concat2("/", rest.as_str())),
            None => (behind, "/".to_owned()),
        }
    } else {
        (DEFAULT_HOST.to_owned(), path_and_query.to_owned())
    }
}

/// Whether a list of encodings holds `br`.
pub open spec fn lists_br(encodings: Seq<char>) -> bool {
    exists|i: int|
        0 <= i < split(encodings, ","@).len() && trim(
            #[trigger] split(encodings, ","@)[i],
            |c: char| is_blank(c),
        ) == "br"@
}

/// Whether the encoding `br` is accepted, for the header that says which encodings are.
pub open spec fn accepted(accept_encoding: Option<Seq<char>>) -> bool {
    match accept_encoding {
        Some(encodings) => lists_br(encodings),
        None => false,
    }
}

/// Whether the encoding `br` is accepted, for the header that says which encodings are.
pub fn accepts_br(accept_encoding: Option<&str>) -> (r: bool)
    ensures
        r == accepted(
            match accept_encoding {
                Some(encodings) => Some(encodings@),
                None => None,
            },
        ),
{
    match accept_encoding {
        Some(encodings) => {
            proof {
                reveal_strlit(",");
            }
            let list = pieces(encodings, ",");
            let ghost parts = split(encodings@, ","@);
            let mut i: usize = 0;
            while i < list.len()
                invariant
                    i <= list.len(),
                    accept_encoding == Some(encodings),
                    parts == split(encodings@, ","@),
                    parts == texts(list@),
                    forall|j: int|
                        0 <= j < i ==> trim(#[trigger] parts[j], |c: char| is_blank(c)) != "br"@,
                decreases list.len() - i,
            {
                assert(parts[i as int] == list@[i as int]@);
                let piece = trim_blanks(list[i].as_str());
                if same_text(piece.as_str(), "br") {
                    return true;
                }
                i = i + 1;
            }
            false
        },
        None => false,
    }
}

/// The headers of a request: names, and values as their bytes.
pub type Headers = Vec<(String, Vec<u8>)>;

/// The models of headers.
pub open spec fn header_views(headers: Seq<(String, Vec<u8>)>) -> Seq<(Seq<char>, Seq<u8>)> {
    headers.map_values(|header: (String, Vec<u8>)| (header.0@, header.1@))
}

/// Whether a character is a small one, or the capital that belongs to it.
pub open spec fn is_letter(c: char, small: char) -> bool {
    c == small || ('A' <= c <= 'Z' && c as u32 + 32 == small as u32)
}

/// Whether a header has a name, which is given in small letters. Capitals make no difference.
pub open spec fn is_named(name: Seq<char>, small: Seq<char>) -> bool {
    &&& name.len() == small.len()
    &&& forall|i: int| 0 <= i < name.len() ==> is_letter(#[trigger] name[i], small[i])
}

/// Whether a header has a name.
fn has_name(name: &str, small: &str) -> (r: bool)
    ensures
        r == is_named(name@, small@),
{
    let given = chars_of(name);
    let wanted = chars_of(small);
    if given.len() != wanted.len() {
        return false;
    }
    let mut i: usize = 0;
    while i < given.len()
        invariant
            i <= given.len(),
            given@ == name@,
            wanted@ == small@,
            given.len() == wanted.len(),
            forall|j: int| 0 <= j < i ==> is_letter(#[trigger] name@[j], small@[j]),
        decreases given.len() - i,
    {
        let c = given[i];
        let w = wanted[i];
        if !(c == w || ('A' <= c && c <= 'Z' && c as u32 + 32 == w as u32)) {
            assert(!is_letter(name@[i as int], small@[i as int]));
            return false;
        }
        i = i + 1;
    }
    true
}

/// Whether a header of a request is passed on to another server as it is: not the host, nor the date
/// of what is there, nor, when it is to be stripped, the version of what is there.
pub open spec fn is_passed_on(name: Seq<char>, strip_etag: bool) -> bool {
    &&& !is_named(name, "host"@)
    &&& !is_named(name, "if-modified-since"@)
    &&& !(strip_etag && is_named(name, "if-none-match"@))
}

/// The headers with which another server is asked: those that are passed on, in their order, and the
/// host that is meant.
pub open spec fn sent_headers(
    headers: Seq<(Seq<char>, Seq<u8>)>,
    host_header: Seq<char>,
    strip_etag: bool,
) -> Seq<(Seq<char>, Seq<u8>)> {
    headers.filter(
        |header: (Seq<char>, Seq<u8>)| is_passed_on(header.0, strip_etag),
    ).push(("host"@, encode_utf8(host_header)))
}

/// The headers with which another server is asked, for those of the request.
pub fn request_headers(headers: &Headers, host_header: &str, strip_etag: bool) -> (r: Headers)
    ensures
        header_views(r@) == sent_headers(header_views(headers@), host_header@, strip_etag),
{
    let ghost all = header_views(headers@);
    let ghost passed = |header: (Seq<char>, Seq<u8>)| is_passed_on(header.0, strip_etag);
    let mut sent: Headers = Vec::new();
    let mut i: usize = 0;
    proof {
        reveal(Seq::filter);
        assert(all.take(0) =~= seq![]);
        assert(header_views(sent@) =~= all.take(0).filter(passed));
    }
    while i < headers.len()
        invariant
            i <= headers.len(),
            all == header_views(headers@),
            passed == |header: (Seq<char>, Seq<u8>)| is_passed_on(header.0, strip_etag),
            header_views(sent@) == all.take(i as int).filter(passed),
        decreases headers.len() - i,
    {
        let ghost before = sent@;
        let name: &str = headers[i].0.as_str();
        proof {
            reveal(Seq::filter);
            assert(all.take(i + 1).drop_last() =~= all.take(i as int));
            assert(all.take(i + 1).last() == (headers@[i as int].0@, headers@[i as int].1@));
        }
        if !has_name(name, "host") && !has_name(name, "if-modified-since") && !(strip_etag
            && has_name(name, "if-none-match")) {
            sent.push((headers[i].0.clone(), copied(&headers[i].1)));
            assert(header_views(sent@) =~= header_views(before).push(all[i as int]));
        }
        i = i + 1;
    }
    assert(all.take(i as int) =~= all);
    let ghost before = sent@;
    sent.push(("host".to_owned(), slice_to_vec(host_header.as_bytes())));
    assert(header_views(sent@) =~= header_views(before).push(("host"@, encode_utf8(host_header@))));
    sent
}

/// Another server is asked for the host that is meant, and for no other; never for what is newer than
/// a date, nor, when the version is stripped, for what is another version. All else that the request
/// says goes on to it, in its order.
pub proof fn requests_are_passed_on(
    headers: Seq<(Seq<char>, Seq<u8>)>,
    host_header: Seq<char>,
    strip_etag: bool,
)
    ensures
        ({
            let sent = sent_headers(headers, host_header, strip_etag);
            &&& forall|i: int|
                0 <= i < sent.len() ==> !is_named((#[trigger] sent[i]).0, "if-modified-since"@)
            &&& strip_etag ==> forall|i: int|
                0 <= i < sent.len() ==> !is_named((#[trigger] sent[i]).0, "if-none-match"@)
            &&& sent.last() == ("host"@, encode_utf8(host_header))
            &&& forall|i: int|
                0 <= i < sent.len() ==> (is_named((#[trigger] sent[i]).0, "host"@) <==> i
                    == sent.len() - 1)
            &&& sent.drop_last() == headers.filter(
                |header: (Seq<char>, Seq<u8>)| is_passed_on(header.0, strip_etag),
            )
            &&& forall|i: int|
                0 <= i < headers.len() && is_passed_on((#[trigger] headers[i]).0, strip_etag)
                    ==> sent.contains(headers[i])
        }),
{
    let passed = |header: (Seq<char>, Seq<u8>)| is_passed_on(header.0, strip_etag);
    let kept = headers.filter(passed);
    let sent = sent_headers(headers, host_header, strip_etag);
    reveal_strlit("host");
    reveal_strlit("if-modified-since");
    reveal_strlit("if-none-match");
    assert(sent.drop_last() =~= kept);
    assert forall|i: int| 0 <= i < kept.len() implies is_passed_on(
        (#[trigger] sent[i]).0,
        strip_etag,
    ) by {
        headers.lemma_filter_pred(passed, i);
        assert(passed(kept[i]));
    }
    assert forall|i: int|
        0 <= i < headers.len() && is_passed_on((#[trigger] headers[i]).0, strip_etag) implies sent.contains(
    headers[i]) by {
        headers.lemma_filter_contains(passed, i);
        let k = choose|k: int| 0 <= k < kept.len() && kept[k] == headers[i];
        assert(sent[k] == headers[i]);
    }
}

/// How far a request has come.
#[allow(inconsistent_fields)]
#[derive(Debug)]
pub enum Phase {
    /// Whether something is known of the resource is being looked up.
    Probing,
    /// What is known of the resource is being read. In the second round, the place for parts is
    /// known already.
    Loading { part: Option<String> },
    /// Another server is being asked. In the second round, the place for parts is known already.
    Fetching { part: Option<String> },
    /// Whether the content is stored is being looked up, in the first round. `settled` when the
    /// other server was not asked, or has nothing newer.
    Checking { meta: JBHttpResponse, settled: bool },
    /// Whether the content is stored is being looked up once more.
    Rechecking { meta: JBHttpResponse, settled: bool, part: String },
    /// The place for parts is being locked.
    Locking { meta: JBHttpResponse, settled: bool, part: String },
    /// The content is being stored, or the place for parts given up.
    Storing { meta: JBHttpResponse },
    /// The request is being answered, and nothing is left to be done.
    Answered,
}

/// The model of [`Phase`].
pub enum PhaseView {
    Probing,
    Loading(Option<Seq<char>>),
    Fetching(Option<Seq<char>>),
    Checking(MetaView, bool),
    Rechecking(MetaView, bool, Seq<char>),
    Locking(MetaView, bool, Seq<char>),
    Storing(MetaView),
    Answered,
}

impl View for Phase {
    type V = PhaseView;

    open spec fn view(&self) -> PhaseView {
        match self {
            Phase::Probing => PhaseView::Probing,
            Phase::Loading { part } => PhaseView::Loading(opt_text(*part)),
            Phase::Fetching { part } => PhaseView::Fetching(opt_text(*part)),
            Phase::Checking { meta, settled } => PhaseView::Checking(meta@, *settled),
            Phase::Rechecking { meta, settled, part } => {
                PhaseView::Rechecking(meta@, *settled, part@)
            },
            Phase::Locking { meta, settled, part } => PhaseView::Locking(meta@, *settled, part@),
            Phase::Storing { meta } => PhaseView::Storing(meta@),
            Phase::Answered => PhaseView::Answered,
        }
    }
}

/// A request that is being answered.
#[derive(Debug)]
pub struct CacheRun {
    pub target: CacheTarget,
    /// Whether the encoding `br` is accepted.
    pub br: bool,
    pub headers: Headers,
    pub cache_mode: CacheMode,
    pub phase: Phase,
}

/// The model of [`CacheRun`].
pub struct RunView {
    pub target: TargetView,
    pub br: bool,
    pub headers: Seq<(Seq<char>, Seq<u8>)>,
    pub cache_mode: CacheMode,
    pub phase: PhaseView,
}

impl View for CacheRun {
    type V = RunView;

    open spec fn view(&self) -> RunView {
        RunView {
            target: self.target@,
            br: self.br,
            headers: header_views(self.headers@),
            cache_mode: self.cache_mode,
            phase: self.phase@,
        }
    }
}

/// How content is stored.
#[derive(Clone, Copy, Debug, PartialEq, Eq, Structural)]
pub enum StoreKind {
    /// As a script, patched.
    Script,
    /// As a style sheet, patched.
    Style,
    /// As it is.
    Plain,
}

/// What is done next for a request.
#[allow(inconsistent_fields)]
#[derive(Debug)]
pub enum CacheAction {
    /// Looks up whether there is a file.
    Probe { name: String },
    /// Reads what is stored in a file of the resource.
    Load { name: String },
    /// Asks another server, with these headers.
    Fetch { uri: String, headers: Headers },
    /// Makes the directory of a file, and looks up whether there is the file.
    Prepare { name: String },
    /// Locks the place for parts that belongs to a file, and looks up whether there is the other
    /// file.
    Lock { part_of: String, name: String },
    /// Gives up the place for parts.
    Discard { part_of: String },
    /// Stores what the other server has answered in the place for parts, compressed where `meta` says
    /// so, stores `meta` as what is known of it, and then moves the content to its file.
    Store { kind: StoreKind, meta: JBHttpResponse, part_of: String, raw: String, name: String },
    /// Answers with the content of a file, which is decompressed before when `decode`, and named as
    /// compressed when `encoded`.
    Serve { name: String, headers: ResponseHeaders, encoded: bool, decode: bool },
}

/// The model of [`CacheAction`].
pub enum ActionView {
    Probe(Seq<char>),
    Load(Seq<char>),
    Fetch(Seq<char>, Seq<(Seq<char>, Seq<u8>)>),
    Prepare(Seq<char>),
    Lock(Seq<char>, Seq<char>),
    Discard(Seq<char>),
    Store(StoreKind, MetaView, Seq<char>, Seq<char>, Seq<char>),
    Serve(Seq<char>, (Seq<char>, Option<Seq<char>>), bool, bool),
}

impl View for CacheAction {
    type V = ActionView;

    open spec fn view(&self) -> ActionView {
        match self {
            CacheAction::Probe { name } => ActionView::Probe(name@),
            CacheAction::Load { name } => ActionView::Load(name@),
            CacheAction::Fetch { uri, headers } => ActionView::Fetch(uri@, header_views(headers@)),
            CacheAction::Prepare { name } => ActionView::Prepare(name@),
            CacheAction::Lock { part_of, name } => ActionView::Lock(part_of@, name@),
            CacheAction::Discard { part_of } => ActionView::Discard(part_of@),
            CacheAction::Store { kind, meta, part_of, raw, name } => {
                ActionView::Store(*kind, meta@, part_of@, raw@, name@)
            },
            CacheAction::Serve { name, headers, encoded, decode } => {
                ActionView::Serve(
                    name@,
                    (headers.etag@, opt_text(headers.content_type)),
                    *encoded,
                    *decode,
                )
            },
        }
    }
}

/// What came of what was done for a request.
#[derive(Debug)]
pub enum CacheEvent {
    /// Whether there was the file.
    Exists(bool),
    /// What was stored of the resource.
    Loaded(JBHttpResponse),
    /// There was no file to be read.
    Missing,
    /// What was in the file could not be made out.
    Unreadable,
    /// Another server has answered, with these headers, `not_modified` when it has nothing newer.
    Fetched { not_modified: bool, etag: HeaderText, content_type: HeaderText },
    /// It was done.
    Done,
}

/// Whether an event is one of those that a phase waits for.
pub open spec fn fits(phase: PhaseView, event: CacheEvent) -> bool {
    match phase {
        PhaseView::Probing => event is Exists,
        PhaseView::Loading(_) => event is Loaded || event is Missing || event is Unreadable,
        PhaseView::Fetching(_) => event is Fetched,
        PhaseView::Checking(_, _) => event is Exists,
        PhaseView::Rechecking(_, _, _) => event is Exists,
        PhaseView::Locking(_, _, _) => event is Exists,
        PhaseView::Storing(_) => event is Done,
        PhaseView::Answered => false,
    }
}

/// The request with which another server is asked, without the version that is there when
/// `strip_etag`.
pub open spec fn asked(run: RunView, strip_etag: bool) -> ActionView {
    ActionView::Fetch(
        run.target.uri,
        sent_headers(run.headers, run.target.host_header, strip_etag),
    )
}

/// The request in another phase.
pub open spec fn in_phase(run: RunView, phase: PhaseView) -> RunView {
    RunView { phase, ..run }
}

/// How a request begins: what is stored is read when no other server is to be asked; for one that
/// is to be asked once it is looked up first whether something is stored.
pub open spec fn begun(
    target: TargetView,
    br: bool,
    headers: Seq<(Seq<char>, Seq<u8>)>,
    cache_mode: CacheMode,
) -> (RunView, ActionView) {
    let run = RunView { target, br, headers, cache_mode, phase: PhaseView::Probing };
    match cache_mode {
        CacheMode::Offline => (
            in_phase(run, PhaseView::Loading(None)),
            ActionView::Load(target.raw),
        ),
        CacheMode::Oneshot => (run, ActionView::Probe(target.raw)),
        CacheMode::Online => (
            in_phase(run, PhaseView::Fetching(None)),
            asked(run, false),
        ),
    }
}

/// How a request begins, of which the path with its query, the headers, and of those the one that says
/// which encodings are accepted are given, or why it is not answered.
pub open spec fn requested(
    path_and_query: Option<Seq<char>>,
    jackbox_urls: Seq<char>,
    headers: Seq<(Seq<char>, Seq<u8>)>,
    accept_encoding: Option<Seq<char>>,
    cache_mode: CacheMode,
) -> Result<(RunView, ActionView), CacheError> {
    match targeted(path_and_query, jackbox_urls) {
        Ok(target) => Ok(begun(target, accepted(accept_encoding), headers, cache_mode)),
        Err(error) => Err(error),
    }
}

/// How content of a type is stored.
pub open spec fn store_kind(content_type: Option<Seq<char>>) -> StoreKind {
    match content_type {
        Some(content_type) => if content_type == "text/javascript"@ || content_type
            == "application/json"@ {
            StoreKind::Script
        } else if content_type == "text/css"@ {
            StoreKind::Style
        } else {
            StoreKind::Plain
        },
        None => StoreKind::Plain,
    }
}

/// How a request is answered once the content is stored: as it is stored where that is accepted,
/// and decompressed otherwise.
pub open spec fn served(run: RunView, meta: MetaView) -> Result<(RunView, ActionView), CacheError> {
    match answer_headers(meta) {
        Ok(headers) => Ok(
            (
                in_phase(run, PhaseView::Answered),
                ActionView::Serve(
                    resource_name(run.target.host, meta),
                    headers,
                    run.br && meta.compressed,
                    !run.br && meta.compressed,
                ),
            ),
        ),
        Err(error) => Err(error),
    }
}

/// How a request goes on once it is known what the resource is: in the first round its directory is
/// made, in the second it is only looked up once more.
pub open spec fn known(
    run: RunView,
    meta: MetaView,
    settled: bool,
    part: Option<Seq<char>>,
) -> (RunView, ActionView) {
    let name = resource_name(run.target.host, meta);
    match part {
        None => (in_phase(run, PhaseView::Checking(meta, settled)), ActionView::Prepare(name)),
        Some(part) => (
            in_phase(run, PhaseView::Rechecking(meta, settled, part)),
            ActionView::Probe(name),
        ),
    }
}

/// How a request goes on. A resource of which nothing newer is known but whose content is not stored
/// is gone for in a second round. Where then, too, there is nothing newer, nothing is stored, nor
/// where someone else has stored it in the meantime.
pub open spec fn advanced(run: RunView, event: CacheEvent, content_to_compress: Seq<char>) -> Result<
    (RunView, ActionView),
    CacheError,
> {
    match (run.phase, event) {
        (PhaseView::Probing, CacheEvent::Exists(exists)) => if exists {
            Ok((in_phase(run, PhaseView::Loading(None)), ActionView::Load(run.target.raw)))
        } else {
            Ok((in_phase(run, PhaseView::Fetching(None)), asked(run, false)))
        },
        (PhaseView::Loading(part), CacheEvent::Loaded(meta)) => Ok(known(run, meta@, true, part)),
        (PhaseView::Loading(_), CacheEvent::Missing) => Err(CacheError::NotStored),
        (PhaseView::Loading(_), CacheEvent::Unreadable) => Err(CacheError::Unreadable),
        (
            PhaseView::Fetching(part),
            CacheEvent::Fetched { not_modified, etag, content_type },
        ) => match described(etag, content_type, content_to_compress) {
            Ok(meta) => Ok(known(run, meta, not_modified, part)),
            Err(error) => Err(error),
        },
        (PhaseView::Checking(meta, settled), CacheEvent::Exists(exists)) => {
            let name = resource_name(run.target.host, meta);
            if settled && !exists {
                if run.cache_mode == CacheMode::Online {
                    Ok(
                        (
                            in_phase(run, PhaseView::Loading(Some(name))),
                            ActionView::Load(run.target.raw),
                        ),
                    )
                } else {
                    Ok(
                        (
                            in_phase(run, PhaseView::Fetching(Some(name))),
                            asked(run, true),
                        ),
                    )
                }
            } else {
                Ok(
                    (
                        in_phase(run, PhaseView::Rechecking(meta, settled, name)),
                        ActionView::Probe(name),
                    ),
                )
            }
        },
        (PhaseView::Rechecking(meta, settled, part), CacheEvent::Exists(exists)) => if exists {
            served(run, meta)
        } else {
            Ok(
                (
                    in_phase(run, PhaseView::Locking(meta, settled, part)),
                    ActionView::Lock(part, resource_name(run.target.host, meta)),
                ),
            )
        },
        (PhaseView::Locking(meta, settled, part), CacheEvent::Exists(exists)) => {
            let next = in_phase(run, PhaseView::Storing(meta));
            if settled || exists {
                Ok((next, ActionView::Discard(part)))
            } else {
                Ok(
                    (
                        next,
                        ActionView::Store(
                            store_kind(meta.content_type),
                            meta,
                            part,
                            run.target.raw,
                            resource_name(run.target.host, meta),
                        ),
                    ),
                )
            }
        },
        (PhaseView::Storing(meta), _) => served(run, meta),
        _ => Err(CacheError::InvalidUri),
    }
}

/// How content of a type is stored.
pub fn kind_of_content(content_type: &Option<String>) -> (r: StoreKind)
    ensures
        r == store_kind(opt_text(*content_type)),
{
    match content_type {
        Some(content_type) => if same_text(content_type.as_str(), "text/javascript") || same_text(
            content_type.as_str(),
            "application/json",
        ) {
            StoreKind::Script
        } else if same_text(content_type.as_str(), "text/css") {
            StoreKind::Style
        } else {
            StoreKind::Plain
        },
        None => StoreKind::Plain,
    }
}

impl HttpCache {
    /// What a request means.
    pub fn target(&self, path_and_query: Option<&str>) -> (r: Result<CacheTarget, CacheError>)
        ensures
            ({
                let means = targeted(
                    match path_and_query {
                        Some(text) => Some(text@),
                        None => None,
                    },
                    self.regexes.jackbox_urls@,
                );
                match r {
                    Ok(target) => means == Ok::<_, CacheError>(target@),
                    Err(error) => means == Err::<TargetView, _>(error),
                }
            }),
    {
        let text: &str = match path_and_query {
            Some(text) => text,
            None => {
                return Err(CacheError::InvalidUri);
            },
        };
        let (host, path) = meaning(text);
        if has_prefix(text, "/@") {
            if !is_found(self.regexes.jackbox_urls.as_str(), host.as_str()) {
                return Err(CacheError::NotJackbox);
            }
            if !is_authority(host.as_str()) {
                return Err(CacheError::InvalidAuthority);
            }
            if !can_be_header(host.as_str()) {
                return Err(CacheError::InvalidHost);
            }
            if !is_path_and_query(path.as_str()) {
                return Err(CacheError::InvalidPath);
            }
        }
        match build_uri(host.as_str(), path.as_str()) {
            Some((uri_host, uri_path, uri)) => Ok(
                make_target(host, uri_host, uri_path.as_str(), uri),
            ),
            None => Err(CacheError::InvalidUri),
        }
    }

    /// Begins to answer a request, of which the path with its query, the headers, and of those the one
    /// that says which encodings are accepted are given.
    pub fn get_cached(
        &self,
        path_and_query: Option<&str>,
        headers: Headers,
        accept_encoding: Option<&str>,
        cache_mode: CacheMode,
    ) -> (r: Result<(CacheRun, CacheAction), CacheError>)
        ensures
            requested(
                match path_and_query {
                    Some(text) => Some(text@),
                    None => None,
                },
                self.regexes.jackbox_urls@,
                header_views(headers@),
                match accept_encoding {
                    Some(encodings) => Some(encodings@),
                    None => None,
                },
                cache_mode,
            ) == match r {
                Ok((run, action)) => Ok((run@, action@)),
                Err(error) => Err(error),
            },
    {
        let target = match self.target(path_and_query) {
            Ok(target) => target,
            Err(error) => {
                return Err(error);
            },
        };
        let br: bool = accepts_br(accept_encoding);
        let (phase, action): (Phase, CacheAction) = match cache_mode {
            CacheMode::Offline => (
                Phase::Loading { part: None },
                CacheAction::Load { name: target.raw.clone() },
            ),
            CacheMode::Oneshot => (Phase::Probing, CacheAction::Probe { name: target.raw.clone() }),
            CacheMode::Online => (
                Phase::Fetching { part: None },
                CacheAction::Fetch {
                    uri: target.uri.clone(),
                    headers: request_headers(&headers, target.host_header.as_str(), false),
                },
            ),
        };
        Ok((CacheRun { target, br, headers, cache_mode, phase }, action))
    }

    /// Goes on with a request once what was to be done was done.
    pub fn advance(&self, run: CacheRun, event: CacheEvent) -> (r: Result<
        (CacheRun, CacheAction),
        CacheError,
    >)
        requires
            fits(run.phase@, event),
        ensures
            match r {
                Ok((next, action)) => advanced(
                    run@,
                    event,
                    self.regexes.content_to_compress@,
                ) == Ok::<_, CacheError>((next@, action@)),
                Err(error) => advanced(run@, event, self.regexes.content_to_compress@) == Err::<
                    (RunView, ActionView),
                    _,
                >(error),
            },
    {
        let CacheRun { target, br, headers, cache_mode, phase } = run;
        match (phase, event) {
            (Phase::Probing, CacheEvent::Exists(exists)) => if exists {
                let action = CacheAction::Load { name: target.raw.clone() };
                let phase = Phase::Loading { part: None };
                Ok((CacheRun { target, br, headers, cache_mode, phase }, action))
            } else {
                let action = CacheAction::Fetch {
                    uri: target.uri.clone(),
                    headers: request_headers(&headers, target.host_header.as_str(), false),
                };
                let phase = Phase::Fetching { part: None };
                Ok((CacheRun { target, br, headers, cache_mode, phase }, action))
            },
            (Phase::Loading { part }, CacheEvent::Loaded(meta)) => Ok(
                CacheRun::with_resource(target, br, headers, cache_mode, meta, true, part),
            ),
            (Phase::Loading { part: _ }, CacheEvent::Missing) => Err(CacheError::NotStored),
            (Phase::Loading { part: _ }, CacheEvent::Unreadable) => Err(CacheError::Unreadable),
            (
                Phase::Fetching { part },
                CacheEvent::Fetched { not_modified, etag, content_type },
            ) => match JBHttpResponse::from_request(
                etag,
                content_type,
                self.regexes.content_to_compress.as_str(),
            ) {
                Ok(meta) => Ok(
                    CacheRun::with_resource(target, br, headers, cache_mode, meta, not_modified, part),
                ),
                Err(error) => Err(error),
            },
            (Phase::Checking { meta, settled }, CacheEvent::Exists(exists)) => {
                let name = content_name(target.host.as_str(), &meta);
                if settled && !exists {
                    match cache_mode {
                        CacheMode::Online => {
                            let action = CacheAction::Load { name: target.raw.clone() };
                            let phase = Phase::Loading { part: Some(name) };
                            Ok((CacheRun { target, br, headers, cache_mode, phase }, action))
                        },
                        _ => {
                            let action = CacheAction::Fetch {
                                uri: target.uri.clone(),
                                headers: request_headers(
                                    &headers,
                                    target.host_header.as_str(),
                                    true,
                                ),
                            };
                            let phase = Phase::Fetching { part: Some(name) };
                            Ok((CacheRun { target, br, headers, cache_mode, phase }, action))
                        },
                    }
                } else {
                    let action = CacheAction::Probe { name: name.clone() };
                    let phase = Phase::Rechecking { meta, settled, part: name };
                    Ok((CacheRun { target, br, headers, cache_mode, phase }, action))
                }
            },
            (Phase::Rechecking { meta, settled, part }, CacheEvent::Exists(exists)) => if exists {
                CacheRun::serve(target, br, headers, cache_mode, meta)
            } else {
                let name = content_name(target.host.as_str(), &meta);
                let action = CacheAction::Lock { part_of: part.clone(), name };
                let phase = Phase::Locking { meta, settled, part };
                Ok((CacheRun { target, br, headers, cache_mode, phase }, action))
            },
            (Phase::Locking { meta, settled, part }, CacheEvent::Exists(exists)) => {
                let action = if settled || exists {
                    CacheAction::Discard { part_of: part }
                } else {
                    CacheAction::Store {
                        kind: kind_of_content(&meta.content_type),
                        meta: meta.clone(),
                        part_of: part,
                        raw: target.raw.clone(),
                        name: content_name(target.host.as_str(), &meta),
                    }
                };
                let phase = Phase::Storing { meta };
                Ok((CacheRun { target, br, headers, cache_mode, phase }, action))
            },
            (Phase::Storing { meta }, _) => CacheRun::serve(target, br, headers, cache_mode, meta),
            _ => Err(CacheError::InvalidUri),
        }
    }
}

impl CacheRun {
    /// Whether an event is one of those that the request waits for.
    pub fn awaits(&self, event: &CacheEvent) -> (r: bool)
        ensures
            r == fits(self.phase@, *event),
    {
        match (&self.phase, event) {
            (Phase::Probing, CacheEvent::Exists(_)) => true,
            (Phase::Loading { part: _ }, CacheEvent::Loaded(_)) => true,
            (Phase::Loading { part: _ }, CacheEvent::Missing) => true,
            (Phase::Loading { part: _ }, CacheEvent::Unreadable) => true,
            (
                Phase::Fetching { part: _ },
                CacheEvent::Fetched { not_modified: _, etag: _, content_type: _ },
            ) => true,
            (Phase::Checking { meta: _, settled: _ }, CacheEvent::Exists(_)) => true,
            (Phase::Rechecking { meta: _, settled: _, part: _ }, CacheEvent::Exists(_)) => true,
            (Phase::Locking { meta: _, settled: _, part: _ }, CacheEvent::Exists(_)) => true,
            (Phase::Storing { meta: _ }, CacheEvent::Done) => true,
            _ => false,
        }
    }

    /// Goes on once it is known what the resource is.
    fn with_resource(
        target: CacheTarget,
        br: bool,
        headers: Headers,
        cache_mode: CacheMode,
        meta: JBHttpResponse,
        settled: bool,
        part: Option<String>,
    ) -> (r: (CacheRun, CacheAction))
        ensures
            forall|run: RunView|
                run.target == target@ && run.br == br && run.headers == header_views(headers@)
                    && run.cache_mode == cache_mode
                    ==> #[trigger] known(run, meta@, settled, opt_text(part)) == (r.0@, r.1@),
    {
        let name = content_name(target.host.as_str(), &meta);
        match part {
            None => {
                let action = CacheAction::Prepare { name };
                let phase = Phase::Checking { meta, settled };
                (CacheRun { target, br, headers, cache_mode, phase }, action)
            },
            Some(part) => {
                let action = CacheAction::Probe { name };
                let phase = Phase::Rechecking { meta, settled, part };
                (CacheRun { target, br, headers, cache_mode, phase }, action)
            },
        }
    }

    /// Answers once the content is stored.
    fn serve(
        target: CacheTarget,
        br: bool,
        headers: Headers,
        cache_mode: CacheMode,
        meta: JBHttpResponse,
    ) -> (r: Result<(CacheRun, CacheAction), CacheError>)
        ensures
            forall|run: RunView|
                run.target == target@ && run.br == br && run.headers == header_views(headers@)
                    && run.cache_mode == cache_mode
                    ==> #[trigger] served(run, meta@) == match r {
                    Ok((next, action)) => Ok((next@, action@)),
                    Err(error) => Err(error),
                },
    {
        match meta.headers() {
            Ok(answered) => {
                let action = CacheAction::Serve {
                    name: content_name(target.host.as_str(), &meta),
                    headers: answered,
                    encoded: br && meta.compressed,
                    decode: !br && meta.compressed,
                };
                let phase = Phase::Answered;
                Ok((CacheRun { target, br, headers, cache_mode, phase }, action))
            },
            Err(error) => Err(error),
        }
    }
}

/// How many steps a phase can be from the answer at most.
pub open spec fn steps_left(phase: PhaseView) -> nat {
    match phase {
        PhaseView::Probing => 7,
        PhaseView::Loading(part) => if part is None {
            6
        } else {
            4
        },
        PhaseView::Fetching(part) => if part is None {
            6
        } else {
            4
        },
        PhaseView::Checking(_, _) => 5,
        PhaseView::Rechecking(_, _, _) => 3,
        PhaseView::Locking(_, _, _) => 2,
        PhaseView::Storing(_) => 1,
        PhaseView::Answered => 0,
    }
}

/// Every step brings a request nearer to its answer, which comes as soon as nothing is left to be
/// done, and leaves what it means as it is.
pub proof fn requests_come_to_an_end(run: RunView, event: CacheEvent, content_to_compress: Seq<char>)
    requires
        fits(run.phase, event),
    ensures
        advanced(run, event, content_to_compress) matches Ok((next, action)) ==> {
            &&& steps_left(next.phase) < steps_left(run.phase)
            &&& action is Serve <==> steps_left(next.phase) == 0
            &&& next == in_phase(run, next.phase)
        },
{
}

/// An answer is named as compressed only to one who accepts it, content that is stored compressed
/// is decompressed for all others, and content that is not is never touched.
pub proof fn answers_can_be_read(run: RunView, meta: MetaView)
    ensures
        served(run, meta) matches Ok((_, action)) ==> {
            &&& action matches ActionView::Serve(name, headers, encoded, decode)
            &&& encoded ==> run.br
            &&& decode ==> !run.br
            &&& meta.compressed <==> encoded || decode
            &&& !(encoded && decode)
        },
{
}

/// Unless it is always asked, another server is asked only once it was found that something is not
/// stored, and offline only once it was found that content is not stored of which something is known.
pub proof fn what_is_stored_is_not_asked_for(
    run: RunView,
    event: CacheEvent,
    content_to_compress: Seq<char>,
)
    requires
        run.cache_mode != CacheMode::Online,
        run.cache_mode == CacheMode::Offline ==> !(run.phase is Probing),
        fits(run.phase, event),
    ensures
        !(begun(run.target, run.br, run.headers, run.cache_mode).1 is Fetch),
        run.cache_mode == CacheMode::Offline ==> !(begun(
            run.target,
            run.br,
            run.headers,
            run.cache_mode,
        ).0.phase is Probing),
        advanced(run, event, content_to_compress) matches Ok((next, action)) ==> {
            &&& action is Fetch ==> event == CacheEvent::Exists(false)
            &&& action is Fetch && run.cache_mode == CacheMode::Offline ==> run.phase is Checking
            &&& !(next.phase is Probing)
        },
{
}

/// Offline, a resource of which nothing is known is not found, and nobody is asked for it.
pub proof fn what_is_unknown_offline_is_not_found(
    target: TargetView,
    br: bool,
    headers: Seq<(Seq<char>, Seq<u8>)>,
    content_to_compress: Seq<char>,
)
    ensures
        ({
            let (run, action) = begun(target, br, headers, CacheMode::Offline);
            &&& action == ActionView::Load(target.raw)
            &&& fits(run.phase, CacheEvent::Missing)
            &&& advanced(run, CacheEvent::Missing, content_to_compress) == Err::<
                (RunView, ActionView),
                _,
            >(CacheError::NotStored)
            &&& CacheError::NotStored.code() == 404
        }),
{
}

/// Once a resource was fetched and stored, a request that asks another server once is answered as
/// the one was that stored it, and asks nobody: what is known of the resource is there, is what was
/// stored, and names content that is there.
pub proof fn stored_once_is_answered_alike(
    run: RunView,
    loaded: JBHttpResponse,
    headers: Seq<(Seq<char>, Seq<u8>)>,
    content_to_compress: Seq<char>,
)
    requires
        run.cache_mode == CacheMode::Oneshot,
        run.phase matches PhaseView::Locking(meta, settled, _) && !settled && loaded@ == meta,
        advanced(
            in_phase(run, PhaseView::Storing(loaded@)),
            CacheEvent::Done,
            content_to_compress,
        ) is Ok,
    ensures
        ({
            let (stored, store) = advanced(
                run,
                CacheEvent::Exists(false),
                content_to_compress,
            )->Ok_0;
            let first = advanced(stored, CacheEvent::Done, content_to_compress)->Ok_0.1;
            let (begin, probe) = begun(run.target, run.br, headers, CacheMode::Oneshot);
            let (load, read) = advanced(
                begin,
                CacheEvent::Exists(true),
                content_to_compress,
            )->Ok_0;
            let (check, prepare) = advanced(
                load,
                CacheEvent::Loaded(loaded),
                content_to_compress,
            )->Ok_0;
            let (recheck, look) = advanced(
                check,
                CacheEvent::Exists(true),
                content_to_compress,
            )->Ok_0;
            let (_, second) = advanced(
                recheck,
                CacheEvent::Exists(true),
                content_to_compress,
            )->Ok_0;
            &&& store is Store
            &&& store->Store_1 == loaded@
            &&& probe == ActionView::Probe(store->Store_3)
            &&& read == ActionView::Load(store->Store_3)
            &&& prepare == ActionView::Prepare(store->Store_4)
            &&& look == ActionView::Probe(store->Store_4)
            &&& first is Serve
            &&& second == first
        }),
{
}

/// Online, another server is asked once.
pub proof fn online_asks_once(run: RunView, event: CacheEvent, content_to_compress: Seq<char>)
    requires
        run.cache_mode == CacheMode::Online,
        !(run.phase is Probing),
        fits(run.phase, event),
    ensures
        begun(run.target, run.br, run.headers, CacheMode::Online).1 is Fetch,
        !(begun(run.target, run.br, run.headers, CacheMode::Online).0.phase is Probing),
        advanced(run, event, content_to_compress) matches Ok((next, action)) ==> !(action is Fetch)
            && !(next.phase is Probing),
{
}

/// Content is stored only where it was just fetched and is not there yet, and what is served
/// afterwards is what was stored.
pub proof fn what_is_stored_is_served(
    run: RunView,
    event: CacheEvent,
    content_to_compress: Seq<char>,
)
    requires
        fits(run.phase, event),
        advanced(run, event, content_to_compress) is Ok,
        advanced(run, event, content_to_compress)->Ok_0.1 is Store,
    ensures
        run.phase matches PhaseView::Locking(meta, settled, part) && !settled && event
            == CacheEvent::Exists(false) && {
            let (next, action) = advanced(run, event, content_to_compress)->Ok_0;
            &&& action->Store_1 == meta
            &&& action->Store_3 == run.target.raw
            &&& action->Store_4 == resource_name(run.target.host, meta)
            &&& advanced(next, CacheEvent::Done, content_to_compress) == served(next, meta)
            &&& served(next, meta) matches Ok((_, answer)) ==> answer->Serve_0 == action->Store_4
        },
{
}

/// An address behind the detour over this server means the address itself.
pub proof fn detours_lead_to_the_address(host: Seq<char>, rest: Seq<char>)
    requires
        !host.contains('/'),
    ensures
        meant("/@"@ + host + "/"@ + rest) == (host, "/"@ + rest),
        meant("/@"@ + host) == (host, "/"@),
{
    reveal_strlit("/@");
    reveal_strlit("/");
    let whole = "/@"@ + host + "/"@ + rest;
    assert(starts_with(whole, "/@"@)) by {
        assert(whole.subrange(0, 2) =~= "/@"@);
    }
    let behind = whole.skip(2);
    assert(behind =~= host + "/"@ + rest);
    lemma_first_slash(host, rest, 0);
    assert(behind.take(host.len() as int) =~= host);
    assert(behind.skip((host.len() + 1) as int) =~= rest);
    let short = "/@"@ + host;
    assert(starts_with(short, "/@"@)) by {
        assert(short.subrange(0, 2) =~= "/@"@);
    }
    assert(short.skip(2) =~= host);
    lemma_no_slash(host, 0);
}

/// The first slash stands behind a host without one.
proof fn lemma_first_slash(host: Seq<char>, rest: Seq<char>, from: int)
    requires
        !host.contains('/'),
        0 <= from <= host.len(),
    ensures
        find_from(host + "/"@ + rest, "/"@, from) == Some(host.len() as int),
    decreases host.len() - from,
{
    reveal_strlit("/");
    let text = host + "/"@ + rest;
    if from == host.len() {
        assert(text.subrange(from, from + 1) =~= "/"@);
    } else {
        assert(host[from] != '/') by {
            assert(host.contains(host[from]));
        }
        assert(text.subrange(from, from + 1)[0] == host[from]);
        lemma_first_slash(host, rest, from + 1);
    }
}

/// Without a slash none is found.
proof fn lemma_no_slash(host: Seq<char>, from: int)
    requires
        !host.contains('/'),
        0 <= from <= host.len(),
    ensures
        find_from(host, "/"@, from) is None,
    decreases host.len() - from,
{
    reveal_strlit("/");
    if from < host.len() {
        assert(host.subrange(from, from + 1)[0] == host[from]);
        assert(host.contains(host[from]));
        lemma_no_slash(host, from + 1);
    }
}

} // verus!
