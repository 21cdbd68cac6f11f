//! What holds of the log: how events are written, and which lines are shown.
use crate::text::{pad_start, starts_with, texts};
use crate::tui::tracing_writer::{
    debug_spans, event_head, event_spans, level_color, lines_in, logged, record_spans, records_spans, rows_left_out,
    scope_span, scope_spans, shown_lines, source_list, FieldRecord, LogColor, LogLevel, ScopeSpan,
    SpanStyle, SpanView,
};
use std::ops::Range;
use vstd::prelude::*;

verus! {

/// What stands in parts of a line, one behind the other.
pub open spec fn read(spans: Seq<SpanView>) -> Seq<char>
    decreases spans.len(),
{
    if spans.len() == 0 {
        seq![]
    } else {
        read(spans.drop_last()) + spans.last().text
    }
}

/// What stands in one more part.
proof fn lemma_read_push(spans: Seq<SpanView>, last: SpanView)
    ensures
        read(spans.push(last)) == read(spans) + last.text,
{
    assert(spans.push(last).drop_last() =~= spans);
}

/// What stands in parts behind parts.
proof fn lemma_read(a: Seq<SpanView>, b: Seq<SpanView>)
    ensures
        read(a + b) == read(a) + read(b),
    decreases b.len(),
{
    if b.len() == 0 {
        assert(a + b =~= a);
        assert(read(a) + read(b) =~= read(a));
    } else {
        lemma_read(a, b.drop_last());
        assert((a + b).drop_last() =~= a + b.drop_last());
        assert(read(a + b) =~= read(a) + read(b));
    }
}

/// What stands in one part.
proof fn lemma_read_one(a: SpanView)
    ensures
        read(seq![a]) == a.text,
{
    assert(seq![a].drop_last() =~= seq![]);
    assert(read(seq![]) =~= seq![]);
    assert(read(seq![a]) =~= a.text);
}

/// What is read of a span of time: its name, its fields in braces where there are some, and a colon.
pub open spec fn read_scope(s: ScopeSpan) -> Seq<char> {
    if s.fields is Some && s.fields->Some_0@.len() > 0 {
        s.name@ + "{"@ + s.fields->Some_0@ + "}:"@
    } else {
        s.name@ + ":"@
    }
}

/// What is read of spans of time, from the outermost on.
pub open spec fn read_scopes(scope: Seq<ScopeSpan>) -> Seq<char>
    decreases scope.len(),
{
    if scope.len() == 0 {
        seq![]
    } else {
        read_scopes(scope.drop_last()) + read_scope(scope.last())
    }
}

/// A span of time reads as its name, its fields in braces where there are some, and a colon. Its name is
/// bold and its fields are plain.
pub proof fn scopes_are_read(s: ScopeSpan)
    ensures
        read(scope_span(s)) == read_scope(s),
        scope_span(s)[0].style == SpanStyle::Bold,
        scope_span(s).last().style == SpanStyle::Dim,
        scope_span(s).len() == 2 || scope_span(s).len() == 5,
        scope_span(s).len() == 5 ==> scope_span(s)[1].style == SpanStyle::Bold && scope_span(
            s,
        )[2].style == SpanStyle::Plain && scope_span(s)[3].style == SpanStyle::Bold,
{
    reveal_strlit("}:");
    reveal_strlit("}");
    reveal_strlit(":");
    assert("}:"@ =~= "}"@ + ":"@);
    let spans = scope_span(s);
    reveal_with_fuel(read, 6);
    if s.fields is Some && s.fields->Some_0@.len() > 0 {
        assert(spans.len() == 5);
        assert(read(spans) =~= read_scope(s));
    } else {
        assert(spans.len() == 2);
        assert(read(spans) =~= read_scope(s));
    }
}

/// Spans of time read one behind the other.
proof fn lemma_scopes(scope: Seq<ScopeSpan>)
    ensures
        read(scope_spans(scope)) == read_scopes(scope),
    decreases scope.len(),
{
    if scope.len() > 0 {
        lemma_scopes(scope.drop_last());
        scopes_are_read(scope.last());
        lemma_read(scope_spans(scope.drop_last()), scope_span(scope.last()));
    }
}

/// An event reads as its level, aligned to the right, where it happens, from the outermost span of time on,
/// and what it is about. The level is in its color and what the event is about is dim.
pub proof fn events_are_read(level: LogLevel, scope: Seq<ScopeSpan>, target: Seq<char>)
    ensures
        ({
            let head = event_head(level, scope, target);
            let place = if scope.len() > 0 {
                read_scopes(scope) + " "@
            } else {
                seq![]
            };
            &&& read(head) == pad_start(level.name(), 5) + " "@ + place + target + ": "@
            &&& head.len() >= 2
            &&& head[0].text.len() == 6
            &&& head[0].style == SpanStyle::Colored(level_color(level))
            &&& head.last().text == target + ": "@
            &&& head.last().style == SpanStyle::Dim
        }),
{
    reveal_strlit("ERROR");
    reveal_strlit("WARN");
    reveal_strlit("INFO");
    reveal_strlit("DEBUG");
    reveal_strlit("TRACE");
    reveal_strlit(" ");
    let head = event_head(level, scope, target);
    let first = head[0];
    let scopes = scope_spans(scope);
    lemma_scopes(scope);
    lemma_read_one(first);
    lemma_read(seq![first], scopes);
    let last = SpanView { text: target + ": "@, style: SpanStyle::Dim };
    if scope.len() > 0 {
        let blank = SpanView { text: " "@, style: SpanStyle::Plain };
        lemma_read_push(seq![first] + scopes, blank);
        lemma_read_push((seq![first] + scopes).push(blank), last);
        assert(head =~= (seq![first] + scopes).push(blank).push(last));
        assert(read(head) =~= pad_start(level.name(), 5) + " "@ + (read_scopes(scope) + " "@)
            + target + ": "@);
    } else {
        lemma_read_push(seq![first] + scopes, last);
        assert(head =~= (seq![first] + scopes).push(last));
        assert(read(head) =~= pad_start(level.name(), 5) + " "@ + seq![] + target + ": "@);
    }
    assert("ERROR"@.len() == 5 && "DEBUG"@.len() == 5 && "TRACE"@.len() == 5);
    assert("WARN"@.len() == 4 && "INFO"@.len() == 4);
    assert(first.text.len() == 6);
}

/// No two levels have one name or one color.
pub proof fn levels_are_told_apart(a: LogLevel, b: LogLevel)
    requires
        a != b,
    ensures
        a.name() != b.name(),
        level_color(a) != level_color(b),
{
    reveal_strlit("ERROR");
    reveal_strlit("WARN");
    reveal_strlit("INFO");
    reveal_strlit("DEBUG");
    reveal_strlit("TRACE");
    assert("ERROR"@[0] == 'E' && "WARN"@[0] == 'W' && "INFO"@[0] == 'I' && "DEBUG"@[0] == 'D'
        && "TRACE"@[0] == 'T');
}

/// Each level has its name and its color, and no other level has them.
pub proof fn levels_have_their_color(level: LogLevel)
    ensures
        level is Error <==> level_color(level) == LogColor::LightRed,
        level is Warn <==> level_color(level) == LogColor::LightYellow,
        level is Info <==> level_color(level) == LogColor::LightGreen,
        level is Debug <==> level_color(level) == LogColor::LightBlue,
        level is Trace <==> level_color(level) == LogColor::LightCyan,
        level is Error <==> level.name() == "ERROR"@,
        level is Warn <==> level.name() == "WARN"@,
        level is Info <==> level.name() == "INFO"@,
        level is Debug <==> level.name() == "DEBUG"@,
        level is Trace <==> level.name() == "TRACE"@,
{
    if !(level is Error) {
        levels_are_told_apart(level, LogLevel::Error);
    }
    if !(level is Warn) {
        levels_are_told_apart(level, LogLevel::Warn);
    }
    if !(level is Info) {
        levels_are_told_apart(level, LogLevel::Info);
    }
    if !(level is Debug) {
        levels_are_told_apart(level, LogLevel::Debug);
    }
    if !(level is Trace) {
        levels_are_told_apart(level, LogLevel::Trace);
    }
}

/// Whether a field is written with its name.
pub open spec fn is_named(name: Seq<char>) -> bool {
    &&& name != "message"@
    &&& name.take(4) != "log."@
    &&& name.take(2) != "r#"@
}

/// A field reads as its name, an equals sign, its value and a blank, the message as its value and a blank,
/// and a field of the log itself not at all. A raw name reads as the name behind its mark. Names are in
/// italics.
pub proof fn fields_are_read(name: Seq<char>, text: Seq<char>)
    ensures
        read(debug_spans("message"@, text)) == text + " "@,
        debug_spans("log."@ + name, text) == Seq::<SpanView>::empty(),
        is_named(name) ==> {
            &&& read(debug_spans(name, text)) == name + "="@ + text + " "@
            &&& debug_spans("r#"@ + name, text) == debug_spans(name, text)
            &&& debug_spans(name, text).len() == 2
            &&& debug_spans(name, text)[0].text == name
            &&& debug_spans(name, text)[0].style == SpanStyle::Italic
            &&& debug_spans(name, text)[1].style == SpanStyle::Plain
        },
{
    reveal_strlit("message");
    reveal_strlit("log.");
    reveal_strlit("r#");
    assert("message"@[0] == 'm' && "log."@[0] == 'l' && "r#"@[0] == 'r');
    assert("log."@.len() == 4 && "r#"@.len() == 2);
    reveal_with_fuel(read, 3);
    lemma_read_one(SpanView { text: text + " "@, style: SpanStyle::Plain });
    assert(("log."@ + name)[0] == 'l');
    assert(("log."@ + name).subrange(0, 4) =~= "log."@);
    assert(starts_with("log."@ + name, "log."@));
    assert(debug_spans("log."@ + name, text) =~= Seq::<SpanView>::empty());
    if is_named(name) {
        assert(!starts_with(name, "log."@)) by {
            if starts_with(name, "log."@) {
                assert(name.take(4) =~= name.subrange(0, 4));
            }
        }
        assert(!starts_with(name, "r#"@)) by {
            if starts_with(name, "r#"@) {
                assert(name.take(2) =~= name.subrange(0, 2));
            }
        }
        let raw = "r#"@ + name;
        assert(raw[0] == 'r');
        assert(raw.subrange(0, 2) =~= "r#"@);
        assert(!starts_with(raw, "log."@)) by {
            if starts_with(raw, "log."@) {
                assert(raw.subrange(0, 4)[0] == 'l');
            }
        }
        assert(raw.skip(2) =~= name);
        let spans = debug_spans(name, text);
        assert(spans.len() == 2);
        assert(read(spans) =~= name + "="@ + text + " "@);
    }
}

/// A message reads as it is, and any other text as it is written for debugging; anything else does so in any
/// case.
pub proof fn texts_are_read(name: String, value: String, debug: String)
    ensures
        name@ == "message"@ ==> record_spans(FieldRecord::Text { name, value, debug })
            == debug_spans(name@, value@),
        name@ != "message"@ ==> record_spans(FieldRecord::Text { name, value, debug })
            == record_spans(FieldRecord::Debug { name, debug }),
        record_spans(FieldRecord::Debug { name, debug }) == debug_spans(name@, debug@),
{
}

/// An error that comes from others reads as itself, then the others, in their order, in brackets; the name
/// of the field stands before them, in bold. One that comes from none reads as any other field does.
pub proof fn failures_are_read(name: String, value: String, sources: Vec<String>, source: Seq<char>)
    ensures
        ({
            let spans = record_spans(FieldRecord::Failure { name, value, sources });
            &&& sources.len() == 0 ==> spans == debug_spans(name@, value@)
            &&& sources.len() > 0 ==> {
                &&& read(spans) == value@ + ", "@ + name@ + ".sources"@ + ": "@ + source_list(
                    texts(sources@),
                )
                &&& spans.len() == 3
                &&& spans[0].style == SpanStyle::Plain
                &&& spans[1].style == SpanStyle::Bold
                &&& spans[2].style == SpanStyle::Plain
                &&& spans[1].text == name@ + ".sources"@
            }
        }),
        source_list(seq![source]) == "["@ + source + "]"@,
{
    let spans = record_spans(FieldRecord::Failure { name, value, sources });
    reveal_with_fuel(read, 4);
    if sources.len() > 0 {
        assert(spans.len() == 3);
        assert(read(spans) =~= value@ + ", "@ + name@ + ".sources"@ + ": "@ + source_list(
            texts(sources@),
        ));
    }
}

/// One more of the errors stands behind the others, with a comma between.
pub proof fn sources_are_listed(sources: Seq<Seq<char>>, last: Seq<char>)
    requires
        sources.len() > 0,
    ensures
        source_list(sources.push(last)) == source_list(sources).drop_last() + ", "@ + last + "]"@,
        source_list(sources)[0] == '[',
        source_list(sources).last() == ']',
{
    reveal_strlit("]");
    reveal_strlit("[");
    assert(sources.push(last).drop_last() =~= sources);
    assert(source_list(sources).drop_last() =~= "["@ + crate::text::join(sources, ", "@));
    assert(source_list(sources.push(last)) =~= source_list(sources).drop_last() + ", "@ + last
        + "]"@);
}

/// The fields of an event are written in their order.
pub proof fn fields_are_written_in_order(records: Seq<FieldRecord>, last: FieldRecord)
    ensures
        records_spans(seq![]) == Seq::<SpanView>::empty(),
        records_spans(records.push(last)) == records_spans(records) + record_spans(last),
{
    assert(records.push(last).drop_last() =~= records);
}

/// What reads before the fields of an event reads first, and the fields behind it.
pub proof fn events_read_on_with_their_fields(
    level: LogLevel,
    scope: Seq<ScopeSpan>,
    target: Seq<char>,
    records: Seq<FieldRecord>,
)
    ensures
        read(event_spans(level, scope, target, records)) == read(event_head(level, scope, target))
            + read(records_spans(records)),
        event_spans(level, scope, target, seq![]) == event_head(level, scope, target),
{
    lemma_read(event_head(level, scope, target), records_spans(records));
    assert(event_spans(level, scope, target, seq![]) =~= event_head(level, scope, target));
}

/// An event is a line more at the end of the log, and the other lines stay.
pub proof fn events_are_logged_at_the_end(
    lines: Seq<Seq<SpanView>>,
    level: LogLevel,
    scope: Seq<ScopeSpan>,
    target: Seq<char>,
    records: Seq<FieldRecord>,
    i: int,
)
    ensures
        ({
            let after = logged(lines, level, scope, target, records);
            &&& after.len() == lines.len() + 1
            &&& 0 <= i < lines.len() ==> after[i] == lines[i]
            &&& read(after.last()) == read(event_head(level, scope, target)) + read(
                records_spans(records),
            )
        }),
{
    events_read_on_with_their_fields(level, scope, target, records);
}

/// Which lines there are from one place up to another.
pub proof fn lines_are_those_between(lines: Seq<Seq<SpanView>>, range: Range<usize>, i: int)
    ensures
        ({
            let found = lines_in(lines, range);
            &&& 0 <= i < found.len() <==> 0 <= i && range.start + i < range.end && range.start + i
                < lines.len()
            &&& 0 <= i < found.len() ==> found[i] == lines[range.start + i]
        }),
{
}

/// The lines that are shown are the last ones before the place up to which the log is scrolled, or before
/// its end: as many as there is room for, or all where there are fewer.
pub proof fn the_last_lines_are_shown(
    lines: Seq<Seq<SpanView>>,
    scroll: Option<usize>,
    height: u16,
)
    requires
        lines.len() <= usize::MAX,
        scroll matches Some(at) ==> at <= lines.len(),
    ensures
        ({
            let shown = shown_lines(lines, scroll, height);
            let to = match scroll {
                Some(at) => at as int,
                None => lines.len() as int,
            };
            &&& shown.len() <= height
            &&& shown.len() < height ==> shown.len() == to
            &&& forall|i: int|
                0 <= i < shown.len() ==> #[trigger] shown[i] == lines[to - shown.len() + i]
        }),
{
}

/// Of more rows than there is room for, those that are too many are left out, and none of fewer. Rows are
/// counted in two bytes.
pub proof fn rows_too_many_are_left_out(count: usize, height: u16)
    ensures
        count <= u16::MAX && count <= height ==> rows_left_out(count, height) == 0,
        count <= u16::MAX && count > height ==> rows_left_out(count, height) + height == count,
        count + 0x1_0000 <= usize::MAX ==> rows_left_out((count + 0x1_0000) as usize, height)
            == rows_left_out(count, height),
{
}

} // verus!
