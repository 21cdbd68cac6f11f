//! The log: how events are written as lines, and which lines are shown.
use crate::text::{
    chars_of, concat2, concat3, has_prefix, join, joined, pad_start, right_aligned, same_text,
    starts_with, text_of, texts,
};
use std::ops::Range;
use vstd::prelude::*;

verus! {

/// How grave an event is.
#[derive(Clone, Copy, Debug, PartialEq, Eq, Structural)]
pub enum LogLevel {
    Error,
    Warn,
    Info,
    Debug,
    Trace,
}

impl LogLevel {
    /// The name of the level.
    pub open spec fn name(self) -> Seq<char> {
        match self {
            LogLevel::Error => "ERROR"@,
            LogLevel::Warn => "WARN"@,
            LogLevel::Info => "INFO"@,
            LogLevel::Debug => "DEBUG"@,
            LogLevel::Trace => "TRACE"@,
        }
    }

    /// The name of the level.
    pub fn as_str(&self) -> (r: &'static str)
        ensures
            r@ == self.name(),
    {
        match self {
            LogLevel::Error => "ERROR",
            LogLevel::Warn => "WARN",
            LogLevel::Info => "INFO",
            LogLevel::Debug => "DEBUG",
            LogLevel::Trace => "TRACE",
        }
    }
}

/// A color of the terminal.
#[derive(Clone, Copy, Debug, PartialEq, Eq, Structural)]
pub enum LogColor {
    LightRed,
    LightYellow,
    LightGreen,
    LightBlue,
    LightCyan,
}

/// The color in which a level is written.
pub open spec fn level_color(level: LogLevel) -> LogColor {
    match level {
        LogLevel::Error => LogColor::LightRed,
        LogLevel::Warn => LogColor::LightYellow,
        LogLevel::Info => LogColor::LightGreen,
        LogLevel::Debug => LogColor::LightBlue,
        LogLevel::Trace => LogColor::LightCyan,
    }
}

/// The color in which a level is written.
pub fn level_to_color(level: LogLevel) -> (r: LogColor)
    ensures
        r == level_color(level),
{
    match level {
        LogLevel::Error => LogColor::LightRed,
        LogLevel::Warn => LogColor::LightYellow,
        LogLevel::Info => LogColor::LightGreen,
        LogLevel::Debug => LogColor::LightBlue,
        LogLevel::Trace => LogColor::LightCyan,
    }
}

/// How a part of a line is written.
#[derive(Clone, Copy, Debug, PartialEq, Eq, Structural)]
pub enum SpanStyle {
    Plain,
    Bold,
    Dim,
    Italic,
    Colored(LogColor),
}

/// A part of a line.
#[derive(Debug)]
pub struct LogSpan {
    pub text: String,
    pub style: SpanStyle,
}

/// The model of [`LogSpan`].
pub struct SpanView {
    pub text: Seq<char>,
    pub style: SpanStyle,
}

impl View for LogSpan {
    type V = SpanView;

    open spec fn view(&self) -> SpanView {
        SpanView { text: self.text@, style: self.style }
    }
}

/// A line of the log.
#[derive(Debug)]
pub struct LogLine {
    pub spans: Vec<LogSpan>,
}

impl View for LogLine {
    type V = Seq<SpanView>;

    open spec fn view(&self) -> Seq<SpanView> {
        self.spans@.map_values(|span: LogSpan| span@)
    }
}

/// A part of a line.
pub open spec fn span(text: Seq<char>, style: SpanStyle) -> SpanView {
    SpanView { text, style }
}

impl LogLine {
    /// A line without parts.
    pub fn new() -> (r: LogLine)
        ensures
            r@ == Seq::<SpanView>::empty(),
    {
        let r = LogLine { spans: Vec::new() };
        assert(r@ =~= Seq::<SpanView>::empty());
        r
    }

    /// Appends a part.
    pub fn push(&mut self, text: String, style: SpanStyle)
        ensures
            final(self)@ == old(self)@.push(span(text@, style)),
    {
        let ghost before = self@;
        self.spans.push(LogSpan { text, style });
        assert(self@ =~= before.push(span(text@, style)));
    }
}

impl Clone for LogLine {
    fn clone(&self) -> (r: LogLine)
        ensures
            r@ == self@,
    {
        let mut spans: Vec<LogSpan> = Vec::new();
        let mut i: usize = 0;
        while i < self.spans.len()
            invariant
                i <= self.spans.len(),
                spans.len() == i,
                forall|j: int| 0 <= j < i ==> (#[trigger] spans@[j])@ == self.spans@[j]@,
            decreases self.spans.len() - i,
        {
            spans.push(LogSpan { text: self.spans[i].text.clone(), style: self.spans[i].style });
            i = i + 1;
        }
        let r = LogLine { spans };
        assert(r@ =~= self@);
        r
    }
}

/// A list that grows at its end and is never moved.
#[verifier::external_type_specification]
#[verifier::external_body]
#[verifier::reject_recursive_types(T)]
pub struct ExBoxcar<T>(boxcar::Vec<T>);

/// The lines that a list holds.
pub uninterp spec fn log_lines(v: boxcar::Vec<LogLine>) -> Seq<LogLine>;

/// [`boxcar::Vec::default`] makes a list without lines.
#[verifier::external_body]
fn lines_new() -> (v: boxcar::Vec<LogLine>)
    ensures
        log_lines(v) == Seq::<LogLine>::empty(),
{
    boxcar::Vec::default()
}

/// [`boxcar::Vec::push`] appends a line, as long as no one else does so at the same time.
#[verifier::external_body]
fn lines_push(v: &mut boxcar::Vec<LogLine>, line: LogLine)
    ensures
        log_lines(*final(v)) == log_lines(*old(v)).push(line),
{
    v.push(line);
}

/// [`boxcar::Vec::get`] gives the line at a place, where there is one.
#[verifier::external_body]
fn lines_get(v: &boxcar::Vec<LogLine>, index: usize) -> (r: Option<&LogLine>)
    ensures
        match r {
            Some(line) => index < log_lines(*v).len() && *line == log_lines(*v)[index as int],
            None => index >= log_lines(*v).len(),
        },
{
    v.get(index)
}

/// [`boxcar::Vec::count`] counts the lines.
#[verifier::external_body]
fn lines_count(v: &boxcar::Vec<LogLine>) -> (r: usize)
    ensures
        r == log_lines(*v).len(),
{
    v.count()
}

/// The models of lines.
pub open spec fn line_views(lines: Seq<LogLine>) -> Seq<Seq<SpanView>> {
    lines.map_values(|line: LogLine| line@)
}

/// The log.
pub struct TuiWriterImpl {
    buffer: boxcar::Vec<LogLine>,
}

impl View for TuiWriterImpl {
    type V = Seq<Seq<SpanView>>;

    closed spec fn view(&self) -> Seq<Seq<SpanView>> {
        line_views(log_lines(self.buffer))
    }
}

impl TuiWriterImpl {
    /// A log without lines.
    pub fn new() -> (r: TuiWriterImpl)
        ensures
            r@ == Seq::<Seq<SpanView>>::empty(),
    {
        let r = TuiWriterImpl { buffer: lines_new() };
        assert(r@ =~= Seq::<Seq<SpanView>>::empty());
        r
    }
}

/// The log, as events are written to it.
pub struct TuiWriter(pub TuiWriterImpl);

impl View for TuiWriter {
    type V = Seq<Seq<SpanView>>;

    open spec fn view(&self) -> Seq<Seq<SpanView>> {
        self.0@
    }
}

/// A span of time that an event happens in: its name, and its fields as they are written.
#[derive(Debug)]
pub struct ScopeSpan {
    pub name: String,
    pub fields: Option<String>,
}

/// Where an event happens, as it is written: the name, the fields in braces where there are some,
/// and a colon.
pub open spec fn scope_span(s: ScopeSpan) -> Seq<SpanView> {
    seq![span(s.name@, SpanStyle::Bold)] + match s.fields {
        Some(fields) => if fields@.len() > 0 {
            seq![
                span("{"@, SpanStyle::Bold),
                span(fields@, SpanStyle::Plain),
                span("}"@, SpanStyle::Bold),
            ]
        } else {
            seq![]
        },
        None => seq![],
    } + seq![span(":"@, SpanStyle::Dim)]
}

/// Where an event happens, from the outermost on.
pub open spec fn scope_spans(scope: Seq<ScopeSpan>) -> Seq<SpanView>
    decreases scope.len(),
{
    if scope.len() == 0 {
        seq![]
    } else {
        scope_spans(scope.drop_last()) + scope_span(scope.last())
    }
}

/// What stands before the fields of an event: its level, where it happens, and what it is about.
pub open spec fn event_head(level: LogLevel, scope: Seq<ScopeSpan>, target: Seq<char>) -> Seq<
    SpanView,
> {
    seq![
        span(pad_start(level.name(), 5) + " "@, SpanStyle::Colored(level_color(level))),
    ] + scope_spans(scope) + if scope.len() > 0 {
        seq![span(" "@, SpanStyle::Plain)]
    } else {
        seq![]
    } + seq![span(target + ": "@, SpanStyle::Dim)]
}

/// A field of an event.
#[derive(Debug)]
pub enum FieldRecord {
    /// A text: as it is, and as it is written for debugging.
    Text { name: String, value: String, debug: String },
    /// An error: how it is displayed, and how those are that it comes from.
    Failure { name: String, value: String, sources: Vec<String> },
    /// Anything else, as it is written for debugging.
    Debug { name: String, debug: String },
}

/// How a field is written: the message as it is, what belongs to the log itself not at all, and
/// any other with its name, without the mark of a raw name.
pub open spec fn debug_spans(name: Seq<char>, text: Seq<char>) -> Seq<SpanView> {
    if name == "message"@ {
        seq![span(text + " "@, SpanStyle::Plain)]
    } else if starts_with(name, "log."@) {
        seq![]
    } else if starts_with(name, "r#"@) {
        seq![
            span(name.skip(2), SpanStyle::Italic),
            span("="@ + text + " "@, SpanStyle::Plain),
        ]
    } else {
        seq![span(name, SpanStyle::Italic), span("="@ + text + " "@, SpanStyle::Plain)]
    }
}

/// How a list of errors is written.
pub open spec fn source_list(sources: Seq<Seq<char>>) -> Seq<char> {
    "["@ + join(sources, ", "@) + "]"@
}

/// How a field is written. A text is written as it is where it is the message; an error that comes
/// from others is followed by those.
pub open spec fn record_spans(record: FieldRecord) -> Seq<SpanView> {
    match record {
        FieldRecord::Text { name, value, debug } => debug_spans(
            name@,
            if name@ == "message"@ {
                value@
            } else {
                debug@
            },
        ),
        FieldRecord::Failure { name, value, sources } => if sources.len() > 0 {
            seq![
                span(value@ + ", "@, SpanStyle::Plain),
                span(name@ + ".sources"@, SpanStyle::Bold),
                span(": "@ + source_list(texts(sources@)), SpanStyle::Plain),
            ]
        } else {
            debug_spans(name@, value@)
        },
        FieldRecord::Debug { name, debug } => debug_spans(name@, debug@),
    }
}

/// How fields are written, one behind the other.
pub open spec fn records_spans(records: Seq<FieldRecord>) -> Seq<SpanView>
    decreases records.len(),
{
    if records.len() == 0 {
        seq![]
    } else {
        records_spans(records.drop_last()) + record_spans(records.last())
    }
}

/// How an event is written.
pub open spec fn event_spans(
    level: LogLevel,
    scope: Seq<ScopeSpan>,
    target: Seq<char>,
    records: Seq<FieldRecord>,
) -> Seq<SpanView> {
    event_head(level, scope, target) + records_spans(records)
}

/// Writes the fields of an event to a line.
pub struct TuiVisitor<'a>(pub &'a mut LogLine);

impl<'a> TuiVisitor<'a> {
    /// Writes a field.
    pub fn record_debug(&mut self, name: &str, text: &str)
        ensures
            (*final(self).0)@ == (*old(self).0)@ + debug_spans(name@, text@),
            *final(final(self).0) == *final(old(self).0),
    {
        let ghost before = (*self.0)@;
        if same_text(name, "message") {
            self.0.push(concat2(text, " "), SpanStyle::Plain);
        } else if has_prefix(name, "log.") {
        } else {
            let shown: String = if has_prefix(name, "r#") {
                proof {
                    reveal_strlit("r#");
                }
                let chars = chars_of(name);
                let end: usize = chars.len();
                let plain = text_of(&chars, 2, end);
                assert(plain@ =~= name@.skip(2));
                plain
            } else {
                name.to_owned()
            };
            self.0.push(shown, SpanStyle::Italic);
            self.0.push(concat3("=", text, " "), SpanStyle::Plain);
        }
        assert((*self.0)@ =~= before + debug_spans(name@, text@));
    }

    /// Writes a text.
    pub fn record_str(&mut self, name: &str, value: &str, debug: &str)
        ensures
            (*final(self).0)@ == (*old(self).0)@ + debug_spans(
                name@,
                if name@ == "message"@ {
                    value@
                } else {
                    debug@
                },
            ),
            *final(final(self).0) == *final(old(self).0),
    {
        if same_text(name, "message") {
            self.record_debug(name, value);
        } else {
            self.record_debug(name, debug);
        }
    }

    /// Writes an error, and those that it comes from.
    pub fn record_error(&mut self, name: &str, value: &str, sources: &Vec<String>)
        ensures
            (*final(self).0)@ == (*old(self).0)@ + (if sources.len() > 0 {
                seq![
                    span(value@ + ", "@, SpanStyle::Plain),
                    span(name@ + ".sources"@, SpanStyle::Bold),
                    span(": "@ + source_list(texts(sources@)), SpanStyle::Plain),
                ]
            } else {
                debug_spans(name@, value@)
            }),
            *final(final(self).0) == *final(old(self).0),
    {
        let ghost before = (*self.0)@;
        if sources.len() > 0 {
            self.0.push(concat2(value, ", "), SpanStyle::Plain);
            self.0.push(concat2(name, ".sources"), SpanStyle::Bold);
            let list = joined(sources, ", ");
            let mut shown = concat3(": ", "[", list.as_str());
            shown.push_str("]");
            assert(shown@ =~= ": "@ + source_list(texts(sources@)));
            self.0.push(shown, SpanStyle::Plain);
            assert((*self.0)@ =~= before + seq![
                span(value@ + ", "@, SpanStyle::Plain),
                span(name@ + ".sources"@, SpanStyle::Bold),
                span(": "@ + source_list(texts(sources@)), SpanStyle::Plain),
            ]);
        } else {
            self.record_debug(name, value);
        }
    }
}

/// Writes where an event happens.
fn push_scope(line: &mut LogLine, s: &ScopeSpan)
    ensures
        final(line)@ == old(line)@ + scope_span(*s),
{
    let ghost before = line@;
    line.push(s.name.clone(), SpanStyle::Bold);
    match &s.fields {
        Some(fields) => {
            if fields.as_str().unicode_len() > 0 {
                line.push("{".to_owned(), SpanStyle::Bold);
                line.push(fields.clone(), SpanStyle::Plain);
                line.push("}".to_owned(), SpanStyle::Bold);
            }
        },
        None => {},
    }
    line.push(":".to_owned(), SpanStyle::Dim);
    assert(line@ =~= before + scope_span(*s));
}

/// Writes an event as a line.
pub fn event_line(
    level: LogLevel,
    scope: &Vec<ScopeSpan>,
    target: &str,
    records: &Vec<FieldRecord>,
) -> (r: LogLine)
    ensures
        r@ == event_spans(level, scope@, target@, records@),
{
    let mut line = LogLine::new();
    let shown = concat2(right_aligned(level.as_str(), 5).as_str(), " ");
    line.push(shown, SpanStyle::Colored(level_to_color(level)));
    let ghost first = line@;
    let mut i: usize = 0;
    assert(scope@.take(0) =~= seq![]);
    assert(first =~= first + scope_spans(scope@.take(0)));
    while i < scope.len()
        invariant
            i <= scope.len(),
            line@ == first + scope_spans(scope@.take(i as int)),
        decreases scope.len() - i,
    {
        push_scope(&mut line, &scope[i]);
        assert(scope@.take(i + 1).drop_last() =~= scope@.take(i as int));
        assert(line@ =~= first + scope_spans(scope@.take(i + 1)));
        i = i + 1;
    }
    assert(scope@.take(i as int) =~= scope@);
    if scope.len() > 0 {
        line.push(" ".to_owned(), SpanStyle::Plain);
    }
    line.push(concat2(target, ": "), SpanStyle::Dim);
    let ghost head = line@;
    assert(head =~= event_head(level, scope@, target@));
    let mut k: usize = 0;
    assert(records@.take(0) =~= seq![]);
    assert(head =~= head + records_spans(records@.take(0)));
    while k < records.len()
        invariant
            k <= records.len(),
            line@ == head + records_spans(records@.take(k as int)),
        decreases records.len() - k,
    {
        let ghost before = line@;
        let mut visitor = TuiVisitor(&mut line);
        match &records[k] {
            FieldRecord::Text { name, value, debug } => {
                visitor.record_str(name.as_str(), value.as_str(), debug.as_str());
            },
            FieldRecord::Failure { name, value, sources } => {
                visitor.record_error(name.as_str(), value.as_str(), sources);
            },
            FieldRecord::Debug { name, debug } => {
                visitor.record_debug(name.as_str(), debug.as_str());
            },
        }
        assert(records@.take(k + 1).drop_last() =~= records@.take(k as int));
        assert(line@ =~= head + records_spans(records@.take(k + 1)));
        k = k + 1;
    }
    assert(records@.take(k as int) =~= records@);
    line
}

/// The lines from one place up to another, as far as there are lines.
pub open spec fn lines_in(lines: Seq<Seq<SpanView>>, range: Range<usize>) -> Seq<Seq<SpanView>> {
    let end = if range.end < lines.len() {
        range.end as int
    } else {
        lines.len() as int
    };
    if range.start < end {
        lines.subrange(range.start as int, end)
    } else {
        seq![]
    }
}

/// The lines that are shown: as many as there is room for, before the place up to which the log is
/// scrolled, or before the end.
pub open spec fn shown_range(scroll: Option<usize>, count: usize, height: u16) -> (int, int) {
    let end = match scroll {
        Some(scroll) => scroll as int,
        None => count as int,
    };
    (
        if end >= height {
            end - height
        } else {
            0
        },
        end,
    )
}

/// The log with an event more.
pub open spec fn logged(
    lines: Seq<Seq<SpanView>>,
    level: LogLevel,
    scope: Seq<ScopeSpan>,
    target: Seq<char>,
    records: Seq<FieldRecord>,
) -> Seq<Seq<SpanView>> {
    lines.push(event_spans(level, scope, target, records))
}

/// The lines that are shown of a log.
pub open spec fn shown_lines(
    lines: Seq<Seq<SpanView>>,
    scroll: Option<usize>,
    height: u16,
) -> Seq<Seq<SpanView>> {
    let (start, end) = shown_range(scroll, lines.len() as usize, height);
    lines_in(lines, Range { start: start as usize, end: end as usize })
}

/// How many rows of the lines that are shown are left out at the top, where they take more rows than
/// there are. A count of rows beyond two bytes is cut to two bytes.
pub open spec fn rows_left_out(line_count: usize, height: u16) -> int {
    let rows = line_count as int % 0x1_0000;
    if rows > height {
        rows - height
    } else {
        0
    }
}

/// How many rows of the lines that are shown are left out at the top.
pub fn scroll_rows(line_count: usize, height: u16) -> (r: u16)
    ensures
        r == rows_left_out(line_count, height),
{
    let rows: u16 = (line_count % 0x1_0000) as u16;
    if rows > height {
        rows - height
    } else {
        0
    }
}

impl TuiWriter {
    /// A log without lines.
    pub fn new() -> (r: TuiWriter)
        ensures
            r@ == Seq::<Seq<SpanView>>::empty(),
    {
        TuiWriter(TuiWriterImpl::new())
    }

    /// The number of lines.
    pub fn count(&self) -> (r: usize)
        ensures
            r == self@.len(),
    {
        lines_count(&self.0.buffer)
    }

    /// Writes an event.
    pub fn format_event(
        &mut self,
        level: LogLevel,
        scope: &Vec<ScopeSpan>,
        target: &str,
        records: &Vec<FieldRecord>,
    )
        ensures
            final(self)@ == logged(old(self)@, level, scope@, target@, records@),
    {
        let ghost before = log_lines(self.0.buffer);
        let line = event_line(level, scope, target, records);
        let ghost written = line@;
        lines_push(&mut self.0.buffer, line);
        assert(self@ =~= line_views(before).push(written));
    }

    /// The lines from one place up to another, as far as there are lines.
    pub fn text(&self, range: Range<usize>) -> (r: Vec<LogLine>)
        ensures
            line_views(r@) == lines_in(self@, range),
    {
        let mut lines: Vec<LogLine> = Vec::new();
        let mut i: usize = range.start;
        while i < range.end
            invariant
                range.start <= i || range.end <= range.start,
                i == range.start + lines.len(),
                i <= range.end || lines.len() == 0,
                i <= self@.len() || lines.len() == 0,
                forall|j: int|
                    0 <= j < lines.len() ==> (#[trigger] lines@[j])@ == self@[range.start + j],
            decreases range.end - i,
        {
            match lines_get(&self.0.buffer, i) {
                Some(line) => {
                    assert(self@[i as int] == line@);
                    lines.push(line.clone());
                },
                None => {
                    assert(line_views(lines@) =~= lines_in(self@, range));
                    return lines;
                },
            }
            i = i + 1;
        }
        assert(line_views(lines@) =~= lines_in(self@, range));
        lines
    }

    /// The lines that are shown.
    pub fn shown(&self, scroll: Option<usize>, height: u16) -> (r: Vec<LogLine>)
        ensures
            line_views(r@) == shown_lines(self@, scroll, height),
    {
        let end: usize = match scroll {
            Some(scroll) => scroll,
            None => self.count(),
        };
        let start: usize = if end >= height as usize {
            end - height as usize
        } else {
            0
        };
        self.text(Range { start, end })
    }
}

} // verus!
