//! How requests to the cache run from their beginning to their answer.
use crate::http_cache::{
    advanced, begun, fits, is_header_value, is_named, lists_br, meant,
    requested, sent_headers, targeted, ActionView,
    CacheError, CacheEvent, CacheMode, HeaderText, JBHttpResponse, MetaView, PhaseView, RunView,
    StoreKind, TargetView,
};
use crate::http_cache::{authority_valid, https_uri, path_and_query_valid};
use crate::patch::regex_match;
use crate::text::starts_with;
use vstd::prelude::*;
use vstd::utf8::encode_utf8;

verus! {

/// Where a request is once events have happened, one after the other, and what is then done.
pub open spec fn ran(
    start: (RunView, ActionView),
    events: Seq<CacheEvent>,
    content_to_compress: Seq<char>,
) -> Result<(RunView, ActionView), CacheError>
    decreases events.len(),
{
    if events.len() == 0 {
        Ok(start)
    } else {
        match ran(start, events.drop_last(), content_to_compress) {
            Ok((run, _)) => advanced(run, events.last(), content_to_compress),
            Err(error) => Err(error),
        }
    }
}

/// The name of the file that the content of a version of a resource is kept in: the host, a slash and
/// the version, and an ending where it is kept compressed.
pub open spec fn file_of(host: Seq<char>, etag: Seq<char>, compressed: bool) -> Seq<char> {
    if compressed {
        host + "/"@ + etag + ".br"@
    } else {
        host + "/"@ + etag
    }
}

/// Whether a request is answered with a version of a resource: with the content that is kept of it, under
/// that version and that type, compressed where it is kept so and that is accepted, and decompressed
/// where it is kept so and that is not accepted.
pub open spec fn answers_with(
    action: ActionView,
    host: Seq<char>,
    br: bool,
    etag: Seq<char>,
    content_type: Option<Seq<char>>,
    compressed: bool,
) -> bool {
    action == ActionView::Serve(
        file_of(host, etag, compressed),
        (etag, content_type),
        br && compressed,
        !br && compressed,
    )
}

/// What is known of a resource in a phase, where it is known.
pub open spec fn known_in(phase: PhaseView) -> Option<MetaView> {
    match phase {
        PhaseView::Checking(meta, _) => Some(meta),
        PhaseView::Rechecking(meta, _, _) => Some(meta),
        PhaseView::Locking(meta, _, _) => Some(meta),
        PhaseView::Storing(meta) => Some(meta),
        _ => None,
    }
}

/// Whatever has happened to a request before, it is answered with what is known of the resource: with
/// its version and its type, and with the content that is kept of that version. It is not answered only
/// where the version or the type cannot be the value of a header.
pub proof fn answers_say_what_is_known(
    run: RunView,
    event: CacheEvent,
    content_to_compress: Seq<char>,
)
    requires
        fits(run.phase, event),
    ensures
        advanced(run, event, content_to_compress) matches Ok((next, action)) ==> action is Serve ==> {
            &&& known_in(run.phase) is Some
            &&& ({
                let meta = known_in(run.phase)->Some_0;
                answers_with(
                    action,
                    run.target.host,
                    run.br,
                    meta.etag,
                    meta.content_type,
                    meta.compressed,
                )
            })
        },
        run.phase matches PhaseView::Storing(meta) ==> {
            let headers_fit = is_header_value(meta.etag) && (meta.content_type matches Some(t)
                ==> is_header_value(t));
            &&& headers_fit <==> advanced(run, event, content_to_compress) is Ok
            &&& headers_fit ==> advanced(run, event, content_to_compress)->Ok_0.1 is Serve
        },
{
    assert(forall|a: Seq<char>| #[trigger] (a + Seq::<char>::empty()) =~= a);
}

/// What is known of a resource stays what is known of it until it is answered, or gone for once more.
pub proof fn what_is_known_stays(run: RunView, event: CacheEvent, content_to_compress: Seq<char>)
    requires
        fits(run.phase, event),
        known_in(run.phase) is Some,
    ensures
        advanced(run, event, content_to_compress) matches Ok((next, _)) ==> {
            ||| known_in(next.phase) == known_in(run.phase)
            ||| next.phase is Answered
            ||| run.phase is Checking && (next.phase is Loading || next.phase is Fetching)
        },
        advanced(run, event, content_to_compress) matches Ok((next, _)) ==> next.target
            == run.target && next.br == run.br && next.headers == run.headers && next.cache_mode
            == run.cache_mode,
{
}

/// What another server answers is what is then known of the resource: its version and its type, kept
/// compressed where the type is one of those that are; and what is read of it is what is known then.
pub proof fn what_comes_is_known(
    run: RunView,
    event: CacheEvent,
    content_to_compress: Seq<char>,
)
    requires
        fits(run.phase, event),
    ensures
        event matches CacheEvent::Fetched { not_modified, etag, content_type } ==> {
            let result = advanced(run, event, content_to_compress);
            &&& etag is Absent ==> result is Err && result->Err_0 == CacheError::EtagMissing
            &&& etag is Opaque ==> result is Err && result->Err_0 == CacheError::EtagNotText
            &&& etag is Text && content_type is Opaque ==> result is Err && result->Err_0
                == CacheError::ContentTypeNotText
            &&& etag is Text && !(content_type is Opaque) ==> {
                &&& result is Ok
                &&& known_in(result->Ok_0.0.phase) is Some
                &&& ({
                    let meta = known_in(result->Ok_0.0.phase)->Some_0;
                    &&& meta.etag == etag->Text_0@
                    &&& content_type is Absent ==> meta.content_type is None && !meta.compressed
                    &&& content_type matches HeaderText::Text(t) ==> meta.content_type == Some(t@)
                        && (meta.compressed <==> regex_match(content_to_compress, t@) == Some(true))
                })
            }
        },
        event matches CacheEvent::Loaded(meta) ==> {
            let result = advanced(run, event, content_to_compress);
            &&& result is Ok
            &&& known_in(result->Ok_0.0.phase) == Some(meta@)
        },
{
}

/// A resource that is asked for while it is not kept is fetched, is kept, and is answered as it came: under
/// the version and the type that the other server gave it. It is kept as a script where its type is that
/// of scripts or of JSON, as a style sheet where it is that of style sheets, and else as it is; and what
/// is kept of it beside its content is that version and that type. So it is where the other server is
/// always asked, and where it is asked once and nothing is kept.
pub proof fn fetched_resources_are_kept_and_answered(
    target: TargetView,
    br: bool,
    headers: Seq<(Seq<char>, Seq<u8>)>,
    etag: String,
    content_type: String,
    there: bool,
    once: bool,
    content_to_compress: Seq<char>,
)
    requires
        is_header_value(etag@),
        is_header_value(content_type@),
    ensures
        ({
            let looked_up = ran(
                begun(target, br, headers, CacheMode::Oneshot),
                seq![CacheEvent::Exists(false)],
                content_to_compress,
            );
            let start = if once {
                looked_up->Ok_0
            } else {
                begun(target, br, headers, CacheMode::Online)
            };
            let compressed = regex_match(content_to_compress, content_type@) == Some(true);
            let file = file_of(target.host, etag@, compressed);
            let fetched = seq![
                CacheEvent::Fetched {
                    not_modified: false,
                    etag: HeaderText::Text(etag),
                    content_type: HeaderText::Text(content_type),
                },
            ];
            let checked = fetched.push(CacheEvent::Exists(there));
            let missing = checked.push(CacheEvent::Exists(false));
            let locked = missing.push(CacheEvent::Exists(false));
            let done = locked.push(CacheEvent::Done);
            let kept = checked.push(CacheEvent::Exists(true));
            let stored = ran(start, locked, content_to_compress);
            let meta = stored->Ok_0.1->Store_1;
            &&& looked_up is Ok
            &&& start.1 == begun(target, br, headers, CacheMode::Online).1
            &&& start.1 is Fetch
            &&& start.1->Fetch_0 == target.uri
            &&& ran(start, fetched, content_to_compress) is Ok
            &&& ran(start, fetched, content_to_compress)->Ok_0.1 == ActionView::Prepare(file)
            &&& ran(start, checked, content_to_compress) is Ok
            &&& ran(start, checked, content_to_compress)->Ok_0.1 == ActionView::Probe(file)
            &&& ran(start, missing, content_to_compress) is Ok
            &&& ran(start, missing, content_to_compress)->Ok_0.1 == ActionView::Lock(file, file)
            &&& stored is Ok
            &&& stored->Ok_0.1 is Store
            &&& stored->Ok_0.1 == ActionView::Store(
                stored->Ok_0.1->Store_0,
                meta,
                file,
                target.raw,
                file,
            )
            &&& stored->Ok_0.1->Store_0 == StoreKind::Script <==> content_type@
                == "text/javascript"@ || content_type@ == "application/json"@
            &&& stored->Ok_0.1->Store_0 == StoreKind::Style <==> content_type@ == "text/css"@
            &&& meta.etag == etag@
            &&& meta.content_type == Some(content_type@)
            &&& meta.compressed == compressed
            &&& ran(start, done, content_to_compress) is Ok
            &&& answers_with(
                ran(start, done, content_to_compress)->Ok_0.1,
                target.host,
                br,
                etag@,
                Some(content_type@),
                compressed,
            )
            &&& ran(start, kept, content_to_compress) is Ok
            &&& answers_with(
                ran(start, kept, content_to_compress)->Ok_0.1,
                target.host,
                br,
                etag@,
                Some(content_type@),
                compressed,
            )
        }),
{
    reveal_with_fuel(ran, 6);
    reveal_strlit("text/javascript");
    reveal_strlit("application/json");
    reveal_strlit("text/css");
    assert("text/javascript"@.len() == 15 && "application/json"@.len() == 16 && "text/css"@.len()
        == 8);
    assert(seq![CacheEvent::Exists(false)].drop_last() =~= seq![]);
    assert(seq![CacheEvent::Exists(false)].last() == CacheEvent::Exists(false));
    let fetched = seq![
        CacheEvent::Fetched {
            not_modified: false,
            etag: HeaderText::Text(etag),
            content_type: HeaderText::Text(content_type),
        },
    ];
    let checked = fetched.push(CacheEvent::Exists(there));
    let missing = checked.push(CacheEvent::Exists(false));
    let locked = missing.push(CacheEvent::Exists(false));
    assert(fetched.drop_last() =~= seq![]);
    assert(checked.drop_last() =~= fetched);
    assert(missing.drop_last() =~= checked);
    assert(locked.drop_last() =~= missing);
    assert(locked.push(CacheEvent::Done).drop_last() =~= locked);
    assert(checked.push(CacheEvent::Exists(true)).drop_last() =~= checked);
    assert(forall|a: Seq<char>| #[trigger] (a + Seq::<char>::empty()) =~= a);
}

/// A resource of which something is kept, and whose content is kept, is answered with that and without
/// asking another server, offline, and where it is asked for once.
pub proof fn kept_resources_are_answered(
    target: TargetView,
    br: bool,
    headers: Seq<(Seq<char>, Seq<u8>)>,
    meta: JBHttpResponse,
    content_to_compress: Seq<char>,
)
    requires
        is_header_value(meta.etag@),
        meta@.content_type matches Some(t) ==> is_header_value(t),
    ensures
        ({
            let file = file_of(target.host, meta.etag@, meta.compressed);
            let offline = begun(target, br, headers, CacheMode::Offline);
            let once = begun(target, br, headers, CacheMode::Oneshot);
            let probed = seq![CacheEvent::Exists(true)];
            let read = seq![CacheEvent::Loaded(meta)];
            let checked = read.push(CacheEvent::Exists(true));
            let rechecked = checked.push(CacheEvent::Exists(true));
            &&& offline.1 == ActionView::Load(target.raw)
            &&& once.1 == ActionView::Probe(target.raw)
            &&& ran(once, probed, content_to_compress) is Ok
            &&& ran(once, probed, content_to_compress)->Ok_0.1 == ActionView::Load(target.raw)
            &&& ran(offline, read, content_to_compress) is Ok
            &&& ran(offline, read, content_to_compress)->Ok_0.1 == ActionView::Prepare(file)
            &&& ran(offline, checked, content_to_compress) is Ok
            &&& ran(offline, checked, content_to_compress)->Ok_0.1 == ActionView::Probe(file)
            &&& ran(offline, rechecked, content_to_compress) is Ok
            &&& answers_with(
                ran(offline, rechecked, content_to_compress)->Ok_0.1,
                target.host,
                br,
                meta.etag@,
                meta@.content_type,
                meta.compressed,
            )
            &&& ran(once, probed + rechecked, content_to_compress) is Ok
            &&& answers_with(
                ran(once, probed + rechecked, content_to_compress)->Ok_0.1,
                target.host,
                br,
                meta.etag@,
                meta@.content_type,
                meta.compressed,
            )
        }),
{
    reveal_with_fuel(ran, 6);
    let probed = seq![CacheEvent::Exists(true)];
    let read = seq![CacheEvent::Loaded(meta)];
    let checked = read.push(CacheEvent::Exists(true));
    let rechecked = checked.push(CacheEvent::Exists(true));
    assert(probed.drop_last() =~= seq![]);
    assert(read.drop_last() =~= seq![]);
    assert(checked.drop_last() =~= read);
    assert(rechecked.drop_last() =~= checked);
    assert((probed + rechecked).drop_last() =~= probed + checked);
    assert((probed + checked).drop_last() =~= probed + read);
    assert((probed + read).drop_last() =~= probed);
    assert((probed + rechecked).last() == CacheEvent::Exists(true));
    assert((probed + checked).last() == CacheEvent::Exists(true));
    assert((probed + read).last() == CacheEvent::Loaded(meta));
    assert(forall|a: Seq<char>| #[trigger] (a + Seq::<char>::empty()) =~= a);
}

/// Content that is lost, though its resource is known and another server has nothing newer or was not
/// asked, is gone for once more: asked for without naming the version, unless that server is always asked,
/// in which case what is kept of the resource is read.
pub proof fn lost_content_is_gone_for(
    run: RunView,
    content_to_compress: Seq<char>,
)
    requires
        run.phase is Checking,
        run.phase->Checking_1,
    ensures
        ({
            let result = advanced(run, CacheEvent::Exists(false), content_to_compress);
            let meta = run.phase->Checking_0;
            let first = file_of(run.target.host, meta.etag, meta.compressed);
            &&& result is Ok
            &&& run.cache_mode == CacheMode::Online ==> {
                &&& result->Ok_0.1 == ActionView::Load(run.target.raw)
                &&& result->Ok_0.0.phase == PhaseView::Loading(Some(first))
            }
            &&& run.cache_mode != CacheMode::Online ==> {
                &&& result->Ok_0.1 is Fetch
                &&& result->Ok_0.1->Fetch_0 == run.target.uri
                &&& result->Ok_0.0.phase == PhaseView::Fetching(Some(first))
                &&& forall|i: int|
                    0 <= i < result->Ok_0.1->Fetch_1.len() ==> !is_named(
                        (#[trigger] result->Ok_0.1->Fetch_1[i]).0,
                        "if-none-match"@,
                    )
            }
        }),
{
    crate::http_cache::requests_are_passed_on(run.headers, run.target.host_header, true);
    assert(forall|a: Seq<char>| #[trigger] (a + Seq::<char>::empty()) =~= a);
}

/// In the second round what has come is kept, in the place for parts of the first, unless there was nothing
/// newer or someone else has kept it.
pub proof fn second_rounds_end(
    run: RunView,
    exists: bool,
    content_to_compress: Seq<char>,
)
    requires
        run.phase is Locking,
    ensures
        ({
            let (meta, settled, part) = (
                run.phase->Locking_0,
                run.phase->Locking_1,
                run.phase->Locking_2,
            );
            let result = advanced(run, CacheEvent::Exists(exists), content_to_compress);
            &&& result is Ok
            &&& result->Ok_0.0.phase == PhaseView::Storing(meta)
            &&& settled || exists ==> result->Ok_0.1 == ActionView::Discard(part)
            &&& !settled && !exists ==> {
                &&& result->Ok_0.1 is Store
                &&& result->Ok_0.1->Store_1 == meta
                &&& result->Ok_0.1->Store_2 == part
                &&& result->Ok_0.1->Store_3 == run.target.raw
                &&& result->Ok_0.1->Store_4 == file_of(
                    run.target.host,
                    meta.etag,
                    meta.compressed,
                )
            }
        }),
{
    assert(forall|a: Seq<char>| #[trigger] (a + Seq::<char>::empty()) =~= a);
}

/// Every request to another server is for the resource that is meant, and says all that the request said
/// but for the host, which is the one that is meant, and the date of what is there.
pub proof fn other_servers_are_asked_for_what_is_meant(
    run: RunView,
    event: CacheEvent,
    content_to_compress: Seq<char>,
)
    requires
        fits(run.phase, event),
    ensures
        advanced(run, event, content_to_compress) matches Ok((next, action)) ==> action is Fetch ==> {
            let sent = action->Fetch_1;
            &&& action->Fetch_0 == run.target.uri
            &&& sent.last() == ("host"@, encode_utf8(run.target.host_header))
            &&& forall|i: int|
                0 <= i < sent.len() ==> !is_named((#[trigger] sent[i]).0, "if-modified-since"@)
            &&& forall|i: int|
                0 <= i < run.headers.len() && !is_named((#[trigger] run.headers[i]).0, "host"@)
                    && !is_named(run.headers[i].0, "if-modified-since"@) && !is_named(
                    run.headers[i].0,
                    "if-none-match"@,
                ) ==> sent.contains(run.headers[i])
            &&& forall|i: int|
                0 <= i < sent.len() - 1 ==> run.headers.contains(#[trigger] sent[i])
        },
{
    crate::http_cache::requests_are_passed_on(run.headers, run.target.host_header, true);
    crate::http_cache::requests_are_passed_on(run.headers, run.target.host_header, false);
    lemma_sent_are_given(run.headers, run.target.host_header, true);
    lemma_sent_are_given(run.headers, run.target.host_header, false);
}

/// The first request to another server, where it is always asked, is for the resource that is meant, and
/// says all that the request said, the version of what is there with it, but for the host, which is the
/// one that is meant, and the date of what is there.
pub proof fn first_requests_are_passed_on(
    target: TargetView,
    br: bool,
    headers: Seq<(Seq<char>, Seq<u8>)>,
)
    ensures
        ({
            let action = begun(target, br, headers, CacheMode::Online).1;
            let sent = action->Fetch_1;
            &&& action is Fetch
            &&& action->Fetch_0 == target.uri
            &&& sent.last() == ("host"@, encode_utf8(target.host_header))
            &&& forall|i: int|
                0 <= i < sent.len() ==> !is_named((#[trigger] sent[i]).0, "if-modified-since"@)
            &&& forall|i: int|
                0 <= i < headers.len() && !is_named((#[trigger] headers[i]).0, "host"@)
                    && !is_named(headers[i].0, "if-modified-since"@) ==> sent.contains(headers[i])
            &&& forall|i: int| 0 <= i < sent.len() - 1 ==> headers.contains(#[trigger] sent[i])
        }),
{
    crate::http_cache::requests_are_passed_on(headers, target.host_header, false);
    lemma_sent_are_given(headers, target.host_header, false);
}

/// All that is sent but the host was given.
proof fn lemma_sent_are_given(
    headers: Seq<(Seq<char>, Seq<u8>)>,
    host_header: Seq<char>,
    strip_etag: bool,
)
    ensures
        forall|i: int|
            0 <= i < sent_headers(headers, host_header, strip_etag).len() - 1 ==> headers.contains(
                #[trigger] sent_headers(headers, host_header, strip_etag)[i],
            ),
{
    let passed = |header: (Seq<char>, Seq<u8>)|
        crate::http_cache::is_passed_on(header.0, strip_etag);
    let kept = headers.filter(passed);
    let sent = sent_headers(headers, host_header, strip_etag);
    assert(sent.drop_last() =~= kept);
    assert forall|i: int| 0 <= i < sent.len() - 1 implies headers.contains(#[trigger] sent[i]) by {
        assert(kept.contains(kept[i]));
        headers.lemma_filter_contains_rev(passed, kept[i]);
    }
}

/// A header has a name where it is written with the same letters, be they small or capital.
pub proof fn names_are_told_by_their_letters(name: Seq<char>, small: Seq<char>)
    ensures
        is_named(small, small),
        is_named(name, small) ==> name.len() == small.len(),
        is_named(name, small) ==> forall|i: int|
            0 <= i < name.len() ==> #[trigger] name[i] == small[i] || name[i] as u32 + 32
                == small[i] as u32,
        name.len() == small.len() && (forall|i: int|
            0 <= i < name.len() ==> #[trigger] name[i] == small[i] || ('A' <= name[i] <= 'Z'
                && name[i] as u32 + 32 == small[i] as u32)) ==> is_named(name, small),
{
    if is_named(name, small) {
        assert forall|i: int| 0 <= i < name.len() implies #[trigger] name[i] == small[i]
            || name[i] as u32 + 32 == small[i] as u32 by {
            assert(crate::http_cache::is_letter(name[i], small[i]));
        }
    }
}

/// What can be the value of a header: any text without control characters, the tab aside.
pub proof fn headers_hold_no_controls(text: Seq<char>)
    ensures
        is_header_value(text) <==> forall|i: int|
            0 <= i < text.len() ==> #[trigger] text[i] == '\t' || (text[i] as u32 > 31
                && text[i] as u32 != 127),
{
    if is_header_value(text) {
        assert forall|i: int| 0 <= i < text.len() implies #[trigger] text[i] == '\t' || (
        text[i] as u32 > 31 && text[i] as u32 != 127) by {
            assert(crate::http_cache::is_header_char(text[i]));
        }
    }
}

/// What a request means: behind `/@`, the host up to the next slash, and the path from there on; and else
/// the path as it is, at `jackbox.tv`. Only hosts for which this server stands in can be named, and what is
/// made of host and path is what is asked for and what is kept; what is kept of the root has a name of its
/// own.
pub proof fn requests_mean_resources(
    text: Seq<char>,
    host: Seq<char>,
    path: Seq<char>,
    jackbox_urls: Seq<char>,
)
    requires
        (host, path) == meant(text),
    ensures
        ({
            let named = starts_with(text, "/@"@);
            let result = targeted(Some(text), jackbox_urls);
            let uri = https_uri(host, path);
            &&& !named ==> host == "jackbox.tv"@ && path == text
            &&& named && regex_match(jackbox_urls, host) != Some(true) ==> result is Err
                && result->Err_0 == CacheError::NotJackbox
            &&& result is Ok ==> uri is Some
            &&& result is Ok && named ==> regex_match(jackbox_urls, host) == Some(true)
                && authority_valid(host) && path_and_query_valid(path) && is_header_value(host)
            &&& uri is Some && !named ==> result is Ok
            &&& uri is Some && regex_match(jackbox_urls, host) == Some(true) && authority_valid(
                host,
            ) && path_and_query_valid(path) && is_header_value(host) ==> result is Ok
            &&& result is Ok ==> {
                &&& result->Ok_0.host_header == host
                &&& result->Ok_0.host == uri->Some_0.0
                &&& result->Ok_0.uri == uri->Some_0.2
                &&& uri->Some_0.1 == "/"@ ==> result->Ok_0.raw == uri->Some_0.0 + "/"@
                    + "index.html"@
                &&& uri->Some_0.1 != "/"@ ==> result->Ok_0.raw == uri->Some_0.0 + "/"@
                    + uri->Some_0.1
            }
        }),
        targeted(None, jackbox_urls) is Err,
{
}

/// The errors of the cache are answered with these codes.
pub proof fn cache_errors_have_codes(error: CacheError)
    ensures
        error.code() == 404 <==> error == CacheError::NotStored,
        error.code() == 400 <==> error == CacheError::NotJackbox,
        error.code() == 422 <==> error == CacheError::EtagNotText || error
            == CacheError::ContentTypeNotText,
        error.code() == 400 || error.code() == 404 || error.code() == 422 || error.code() == 500,
{
}

/// Whether an event can come of what is done.
pub open spec fn comes_of(action: ActionView, event: CacheEvent) -> bool {
    match action {
        ActionView::Probe(_) | ActionView::Prepare(_) | ActionView::Lock(_, _) => event is Exists,
        ActionView::Load(_) => event is Loaded || event is Missing || event is Unreadable,
        ActionView::Fetch(_, _) => event is Fetched,
        ActionView::Discard(_) | ActionView::Store(_, _, _, _, _) => event is Done,
        ActionView::Serve(_, _, _, _) => false,
    }
}

/// A request waits, from its beginning to its answer, for what can come of what is done for it, and for
/// nothing else.
pub proof fn what_can_come_is_awaited(
    target: TargetView,
    br: bool,
    headers: Seq<(Seq<char>, Seq<u8>)>,
    cache_mode: CacheMode,
    run: RunView,
    event: CacheEvent,
    content_to_compress: Seq<char>,
    next: CacheEvent,
)
    ensures
        ({
            let (first, action) = begun(target, br, headers, cache_mode);
            fits(first.phase, next) <==> comes_of(action, next)
        }),
        fits(run.phase, event) ==> (advanced(run, event, content_to_compress) matches Ok((
            after,
            action,
        )) ==> (fits(after.phase, next) <==> comes_of(action, next))),
{
}

/// A request that means a resource begins with what is known of it where no other server is to be asked, with
/// whether anything is where one is to be asked once, and with asking it otherwise; the encoding is accepted
/// where it is listed. A request that means none is not answered, for the reason for which it means none.
pub proof fn requests_begin_by_their_mode(
    text: Option<Seq<char>>,
    urls: Seq<char>,
    headers: Seq<(Seq<char>, Seq<u8>)>,
    encodings: Option<Seq<char>>,
    cache_mode: CacheMode,
)
    ensures
        ({
            let result = requested(text, urls, headers, encodings, cache_mode);
            match targeted(text, urls) {
                Err(error) => result is Err && result->Err_0 == error,
                Ok(target) => {
                    &&& result is Ok
                    &&& result->Ok_0.0.target == target
                    &&& result->Ok_0.0.headers == headers
                    &&& result->Ok_0.0.cache_mode == cache_mode
                    &&& result->Ok_0.0.br <==> (encodings is Some && lists_br(encodings->Some_0))
                    &&& result->Ok_0.1 == match cache_mode {
                        CacheMode::Offline => ActionView::Load(target.raw),
                        CacheMode::Oneshot => ActionView::Probe(target.raw),
                        CacheMode::Online => ActionView::Fetch(
                            target.uri,
                            sent_headers(headers, target.host_header, false),
                        ),
                    }
                },
            }
        }),
{
}

/// A request that fails on its way fails for what has come: that nothing was stored, that what was stored
/// cannot be made out, that another server has not named a version or not as text, or its type not as text,
/// or that what is known cannot stand in headers. It fails for no other reason.
pub proof fn requests_fail_for_what_has_come(
    run: RunView,
    event: CacheEvent,
    content_to_compress: Seq<char>,
)
    requires
        fits(run.phase, event),
    ensures
        ({
            let result = advanced(run, event, content_to_compress);
            let error = result->Err_0;
            &&& event is Missing <==> result is Err && error == CacheError::NotStored
            &&& event is Unreadable <==> result is Err && error == CacheError::Unreadable
            &&& event is Fetched && event->etag is Absent <==> result is Err && error
                == CacheError::EtagMissing
            &&& event is Fetched && event->etag is Opaque <==> result is Err && error
                == CacheError::EtagNotText
            &&& event is Fetched && event->etag is Text && event->content_type is Opaque
                <==> result is Err && error == CacheError::ContentTypeNotText
            &&& result is Err ==> error == CacheError::NotStored || error == CacheError::Unreadable
                || error == CacheError::EtagMissing || error == CacheError::EtagNotText || error
                == CacheError::ContentTypeNotText || error == CacheError::EtagInvalid || error
                == CacheError::ContentTypeInvalid
        }),
{
}

/// Why a request means nothing: the host that it names is none that this server stands in for, or no host, or
/// cannot stand in a header, the path behind it is none, or no URI can be made of both. The reason that
/// comes first counts.
pub proof fn requests_mean_nothing_for_a_reason(
    text: Seq<char>,
    host: Seq<char>,
    path: Seq<char>,
    urls: Seq<char>,
)
    requires
        (host, path) == meant(text),
    ensures
        ({
            let named = starts_with(text, "/@"@);
            let result = targeted(Some(text), urls);
            let known = regex_match(urls, host) == Some(true);
            let error = result->Err_0;
            &&& result is Err && error == CacheError::NotJackbox <==> named && !known
            &&& result is Err && error == CacheError::InvalidAuthority <==> named && known
                && !authority_valid(host)
            &&& result is Err && error == CacheError::InvalidHost <==> named && known
                && authority_valid(host) && !is_header_value(host)
            &&& result is Err && error == CacheError::InvalidPath <==> named && known
                && authority_valid(host) && is_header_value(host) && !path_and_query_valid(path)
            &&& result is Err && error == CacheError::InvalidUri ==> https_uri(host, path) is None
            &&& result is Err ==> error == CacheError::NotJackbox || error
                == CacheError::InvalidAuthority || error == CacheError::InvalidHost || error
                == CacheError::InvalidPath || error == CacheError::InvalidUri
            &&& targeted(None, urls) is Err && targeted(None, urls)->Err_0 == CacheError::InvalidUri
        }),
{
}

} // verus!
