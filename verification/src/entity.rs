//! The entities of a room: values under a key, each with its restrictions, its version and the
//! list of those who may read and write it.
use crate::acl::{entry_covers, granted, Acl, Interest, Role};
use crate::choices::{
    choice_seq, choices_at, choices_clone, choices_get, choices_insert, choices_new,
    distinct_keys, has_key, key_at,
};
use crate::json::Json;
use crate::text::same_text;
use indexmap::IndexMap;
use vstd::prelude::*;

verus! {

/// A copy of a vector of values that can be copied.
pub fn copied<T: Copy>(v: &Vec<T>) -> (r: Vec<T>)
    ensures
        r@ == v@,
{
    let mut r: Vec<T> = Vec::new();
    let mut i: usize = 0;
    while i < v.len()
        invariant
            i <= v.len(),
            r@ == v@.take(i as int),
        decreases v.len() - i,
    {
        r.push(v[i]);
        i = i + 1;
    }
    assert(v@.take(i as int) =~= v@);
    r
}

/// What kind of value an entity holds.
#[derive(Clone, Copy, Debug, PartialEq, Eq, Structural)]
pub enum JBType {
    Text,
    Number,
    Object,
    Doodle,
    AudienceGCounter,
    AudiencePnCounter,
    AudienceCountGroup,
}

impl JBType {
    /// The name of the kind in messages.
    pub open spec fn name(self) -> Seq<char> {
        match self {
            JBType::Text => "text"@,
            JBType::Number => "number"@,
            JBType::Object => "object"@,
            JBType::Doodle => "doodle"@,
            JBType::AudiencePnCounter => "audience/pn-counter"@,
            JBType::AudienceGCounter => "audience/g-counter"@,
            JBType::AudienceCountGroup => "audience/count-group"@,
        }
    }

    /// Whether the kind can be read back from its name.
    pub open spec fn is_plain(self) -> bool {
        match self {
            JBType::Text | JBType::Number | JBType::Object | JBType::Doodle => true,
            _ => false,
        }
    }

    /// The kind that a name stands for. The kinds of the audience have no name of this sort.
    pub open spec fn named(name: Seq<char>) -> Option<JBType> {
        if name == "text"@ {
            Some(JBType::Text)
        } else if name == "number"@ {
            Some(JBType::Number)
        } else if name == "object"@ {
            Some(JBType::Object)
        } else if name == "doodle"@ {
            Some(JBType::Doodle)
        } else {
            None
        }
    }

    /// The name of the kind in messages.
    pub fn as_str(&self) -> (r: &'static str)
        ensures
            r@ == self.name(),
    {
        match self {
            JBType::Text => "text",
            JBType::Number => "number",
            JBType::Object => "object",
            JBType::Doodle => "doodle",
            JBType::AudiencePnCounter => "audience/pn-counter",
            JBType::AudienceGCounter => "audience/g-counter",
            JBType::AudienceCountGroup => "audience/count-group",
        }
    }

    /// The kind that a name stands for.
    pub fn from_str(s: &str) -> (r: Result<JBType, ()>)
        ensures
            match r {
                Ok(t) => JBType::named(s@) == Some(t),
                Err(_) => JBType::named(s@) is None,
            },
    {
        if same_text(s, "text") {
            Ok(JBType::Text)
        } else if same_text(s, "number") {
            Ok(JBType::Number)
        } else if same_text(s, "object") {
            Ok(JBType::Object)
        } else if same_text(s, "doodle") {
            Ok(JBType::Doodle)
        } else {
            Err(())
        }
    }
}

/// Each kind has a name of its own.
pub proof fn kind_names_are_distinct(a: JBType, b: JBType)
    requires
        a != b,
    ensures
        a.name() != b.name(),
{
    reveal_strlit("text");
    reveal_strlit("number");
    reveal_strlit("object");
    reveal_strlit("doodle");
    reveal_strlit("audience/pn-counter");
    reveal_strlit("audience/g-counter");
    reveal_strlit("audience/count-group");
    assert("text"@[0] == 't');
    assert("number"@[0] == 'n');
    assert("object"@[0] == 'o');
    assert("doodle"@[0] == 'd');
    assert("audience/pn-counter"@[0] == 'a');
    assert("audience/g-counter"@[0] == 'a');
    assert("audience/count-group"@[0] == 'a');
    assert("audience/pn-counter"@.len() == 19);
    assert("audience/g-counter"@.len() == 18);
    assert("audience/count-group"@.len() == 20);
}

/// The name of a kind is read back as the kind, except for the kinds of the audience, whose
/// names are not read at all.
pub proof fn kind_names_read_back(t: JBType)
    ensures
        JBType::named(t.name()) == (if t.is_plain() {
            Some(t)
        } else {
            None
        }),
{
    kind_names_are_distinct(JBType::Number, JBType::Text);
    kind_names_are_distinct(JBType::Object, JBType::Text);
    kind_names_are_distinct(JBType::Object, JBType::Number);
    kind_names_are_distinct(JBType::Doodle, JBType::Text);
    kind_names_are_distinct(JBType::Doodle, JBType::Number);
    kind_names_are_distinct(JBType::Doodle, JBType::Object);
    if !t.is_plain() {
        kind_names_are_distinct(t, JBType::Text);
        kind_names_are_distinct(t, JBType::Number);
        kind_names_are_distinct(t, JBType::Object);
        kind_names_are_distinct(t, JBType::Doodle);
    }
}

/// The limits that a client gave an entity. A number is kept as the bits of a double.
#[derive(Debug)]
pub struct JBRestrictions {
    pub data_type: String,
    pub min: Option<u64>,
    pub max: Option<u64>,
    pub increment: Option<u64>,
}

/// The model of [`JBRestrictions`].
pub struct RestrictionsView {
    pub data_type: Seq<char>,
    pub min: Option<u64>,
    pub max: Option<u64>,
    pub increment: Option<u64>,
}

impl View for JBRestrictions {
    type V = RestrictionsView;

    open spec fn view(&self) -> RestrictionsView {
        RestrictionsView {
            data_type: self.data_type@,
            min: self.min,
            max: self.max,
            increment: self.increment,
        }
    }
}

/// No limits.
pub open spec fn no_restrictions() -> RestrictionsView {
    RestrictionsView { data_type: Seq::empty(), min: None, max: None, increment: None }
}

impl Default for JBRestrictions {
    fn default() -> (r: JBRestrictions)
        ensures
            r@ == no_restrictions(),
    {
        JBRestrictions { data_type: String::new(), min: None, max: None, increment: None }
    }
}

impl Clone for JBRestrictions {
    fn clone(&self) -> (r: JBRestrictions)
        ensures
            r@ == self@,
    {
        JBRestrictions {
            data_type: self.data_type.clone(),
            min: self.min,
            max: self.max,
            increment: self.increment,
        }
    }
}

/// A color, as the four bytes of its channels.
#[derive(Clone, Copy, Debug, PartialEq, Eq, Structural)]
pub struct Color {
    pub r: u8,
    pub g: u8,
    pub b: u8,
    pub a: u8,
}

/// A point of a line; its coordinates are kept as the bits of floats.
#[derive(Clone, Copy, Debug, PartialEq, Eq, Structural)]
pub struct JBPoint {
    pub x: u32,
    pub y: u32,
}

/// The extent of a doodle.
#[derive(Clone, Copy, Debug, PartialEq, Eq, Structural)]
pub struct JBSize {
    pub width: u32,
    pub height: u32,
}

impl Default for JBSize {
    fn default() -> (r: JBSize)
        ensures
            r == (JBSize { width: 0, height: 0 }),
    {
        JBSize { width: 0, height: 0 }
    }
}

/// A line of a doodle. The weight is kept as the bits of a float.
#[derive(Debug)]
pub struct JBLine {
    pub color: Color,
    pub weight: u32,
    pub layer: usize,
    pub points: Vec<JBPoint>,
    pub index: usize,
}

/// The model of [`JBLine`].
pub struct LineView {
    pub color: Color,
    pub weight: u32,
    pub layer: usize,
    pub points: Seq<JBPoint>,
    pub index: usize,
}

impl View for JBLine {
    type V = LineView;

    open spec fn view(&self) -> LineView {
        LineView {
            color: self.color,
            weight: self.weight,
            layer: self.layer,
            points: self.points@,
            index: self.index,
        }
    }
}

impl Clone for JBLine {
    fn clone(&self) -> (r: JBLine)
        ensures
            r@ == self@,
    {
        JBLine {
            color: self.color,
            weight: self.weight,
            layer: self.layer,
            points: copied(&self.points),
            index: self.index,
        }
    }
}

/// The models of the lines.
pub open spec fn line_views(lines: Seq<JBLine>) -> Seq<LineView> {
    lines.map_values(|l: JBLine| l@)
}

/// Whether the lines stand in the order of their indices.
pub open spec fn in_index_order(lines: Seq<LineView>) -> bool {
    forall|i: int, j: int|
        0 <= i < j < lines.len() ==> (#[trigger] lines[i]).index <= (#[trigger] lines[j]).index
}

/// A drawing.
#[derive(Debug)]
pub struct JBDoodle {
    pub colors: Vec<Color>,
    pub live: bool,
    pub max_points: usize,
    pub max_layer: usize,
    pub size: JBSize,
    pub weights: Option<Vec<u32>>,
    pub lines: Vec<JBLine>,
}

/// The model of [`JBDoodle`].
pub struct DoodleView {
    pub colors: Seq<Color>,
    pub live: bool,
    pub max_points: usize,
    pub max_layer: usize,
    pub size: JBSize,
    pub weights: Option<Seq<u32>>,
    pub lines: Seq<LineView>,
}

impl View for JBDoodle {
    type V = DoodleView;

    open spec fn view(&self) -> DoodleView {
        DoodleView {
            colors: self.colors@,
            live: self.live,
            max_points: self.max_points,
            max_layer: self.max_layer,
            size: self.size,
            weights: match self.weights {
                Some(w) => Some(w@),
                None => None,
            },
            lines: line_views(self.lines@),
        }
    }
}

impl Clone for JBDoodle {
    fn clone(&self) -> (r: JBDoodle)
        ensures
            r@ == self@,
    {
        let mut lines: Vec<JBLine> = Vec::new();
        let mut i: usize = 0;
        while i < self.lines.len()
            invariant
                i <= self.lines.len(),
                lines.len() == i,
                forall|j: int| 0 <= j < i ==> (#[trigger] lines@[j])@ == self.lines@[j]@,
            decreases self.lines.len() - i,
        {
            lines.push(self.lines[i].clone());
            i = i + 1;
        }
        assert(line_views(lines@) =~= line_views(self.lines@));
        JBDoodle {
            colors: copied(&self.colors),
            live: self.live,
            max_points: self.max_points,
            max_layer: self.max_layer,
            size: self.size,
            weights: match &self.weights {
                Some(w) => Some(copied(w)),
                None => None,
            },
            lines,
        }
    }
}

/// A doodle whose lines are these.
pub open spec fn with_lines(doodle: DoodleView, lines: Seq<LineView>) -> DoodleView {
    DoodleView { lines, ..doodle }
}

/// Whether `after` is `before` with a line more, all lines in the order of their indices. Lines
/// with the same index stand in any order.
pub open spec fn line_added(before: DoodleView, line: LineView, after: DoodleView) -> bool {
    &&& after == with_lines(before, after.lines)
    &&& in_index_order(after.lines)
    &&& after.lines.to_multiset() == before.lines.push(line).to_multiset()
}

/// Puts a line where its index belongs among lines that are in order.
fn place_line(lines: &mut Vec<JBLine>, line: JBLine)
    requires
        in_index_order(line_views(old(lines)@)),
    ensures
        in_index_order(line_views(final(lines)@)),
        line_views(final(lines)@).to_multiset() == line_views(old(lines)@).to_multiset().insert(
            line@,
        ),
{
    broadcast use vstd::seq_lib::group_to_multiset_ensures;

    let mut at: usize = lines.len();
    let ghost before = line_views(lines@);
    while at > 0 && lines[at - 1].index > line.index
        invariant
            at <= lines.len(),
            before == line_views(lines@),
            in_index_order(before),
            forall|j: int| at <= j < before.len() ==> before[j].index > line.index,
        decreases at,
    {
        at = at - 1;
        assert(before[at as int].index > line.index);
    }
    proof {
        if at > 0 {
            assert(before[at - 1].index <= line.index);
        }
    }
    let ghost v = line@;
    lines.insert(at, line);
    assert(line_views(lines@) =~= before.insert(at as int, v));
    proof {
        vstd::seq_lib::to_multiset_insert(before, at as int, v);
    }
}

/// What a drawing of a doodle consists of.
#[derive(Debug)]
pub struct DoodlePlan {
    /// The number of layers, the lowest first.
    pub layers: usize,
    /// The positions of the lines that are drawn, in the order in which they are drawn.
    pub strokes: Vec<usize>,
}

/// Why a doodle cannot be drawn.
#[derive(Clone, Copy, Debug, PartialEq, Eq, Structural)]
pub enum RenderError {
    /// A line lies on a layer that the doodle does not have.
    NoSuchLayer { layer: usize, max_layer: usize },
}

/// The number of layers of a doodle: at least one.
pub open spec fn layer_count(doodle: DoodleView) -> int {
    if doodle.max_layer > 1 {
        doodle.max_layer as int
    } else {
        1
    }
}

/// Whether line `i` is drawn: one without points is not.
pub open spec fn is_drawn(doodle: DoodleView, i: int) -> bool {
    0 <= i < doodle.lines.len() && doodle.lines[i].points.len() > 0
}

/// Whether line `i` is to be drawn on a layer that there is not.
pub open spec fn is_off_layers(doodle: DoodleView, i: int) -> bool {
    is_drawn(doodle, i) && doodle.lines[i].layer >= layer_count(doodle)
}

/// Whether every line that is drawn lies on a layer that there is.
pub open spec fn is_drawable(doodle: DoodleView) -> bool {
    forall|i: int| !is_off_layers(doodle, i)
}

/// Whether positions are those of lines that are drawn, all of them, in their order.
pub open spec fn are_strokes(lines: Seq<LineView>, strokes: Seq<usize>) -> bool {
    &&& forall|k: int|
        0 <= k < strokes.len() ==> (#[trigger] strokes[k]) < lines.len()
            && lines[strokes[k] as int].points.len() > 0
    &&& forall|i: int, j: int|
        0 <= i < j < strokes.len() ==> #[trigger] strokes[i] < #[trigger] strokes[j]
    &&& forall|i: int|
        0 <= i < lines.len() && (#[trigger] lines[i]).points.len() > 0 ==> strokes.contains(
            i as usize,
        )
}

/// Whether a doodle is drawn on so many layers, with the lines at these positions.
pub open spec fn is_plan(doodle: DoodleView, layers: int, strokes: Seq<usize>) -> bool {
    &&& layers == layer_count(doodle)
    &&& are_strokes(doodle.lines, strokes)
}

/// Whether this is what comes of drawing a doodle: a plan, or the first line that is to be drawn on a
/// layer that there is not.
pub open spec fn is_rendered(doodle: DoodleView, result: Result<DoodlePlan, RenderError>) -> bool {
    match result {
        Ok(plan) => {
            &&& is_drawable(doodle)
            &&& is_plan(doodle, plan.layers as int, plan.strokes@)
        },
        Err(RenderError::NoSuchLayer { layer, max_layer }) => {
            &&& max_layer == doodle.max_layer
            &&& exists|i: int|
                {
                    &&& #[trigger] is_off_layers(doodle, i)
                    &&& layer == doodle.lines[i].layer
                    &&& forall|j: int| is_off_layers(doodle, j) ==> i <= j
                }
        },
    }
}

impl JBDoodle {
    /// Adds a line and puts the lines in the order of their indices.
    pub fn add_line(&mut self, line: JBLine)
        ensures
            line_added(old(self)@, line@, final(self)@),
    {
        broadcast use vstd::seq_lib::group_to_multiset_ensures;

        let ghost before = self@;
        self.lines.push(line);
        let ghost all = line_views(self.lines@);
        assert(all =~= before.lines.push(line@));
        let mut sorted: Vec<JBLine> = Vec::new();
        assert(all.to_multiset() =~= line_views(self.lines@).to_multiset().add(
            line_views(sorted@).to_multiset(),
        ));
        while self.lines.len() > 0
            invariant
                self@ == with_lines(before, line_views(self.lines@)),
                in_index_order(line_views(sorted@)),
                all.to_multiset() =~= line_views(self.lines@).to_multiset().add(
                    line_views(sorted@).to_multiset(),
                ),
            decreases self.lines.len(),
        {
            let ghost rest = line_views(self.lines@);
            let ghost done = line_views(sorted@);
            match self.lines.pop() {
                Some(last) => {
                    assert(line_views(self.lines@) =~= rest.drop_last());
                    assert(rest.drop_last().push(last@) =~= rest);
                    place_line(&mut sorted, last);
                    proof {
                        vstd::seq_lib::to_multiset_build(rest.drop_last(), last@);
                    }
                },
                None => {},
            }
        }
        assert(line_views(self.lines@) =~= Seq::empty());
        assert(all.to_multiset() =~= line_views(sorted@).to_multiset());
        self.lines = sorted;
    }

    /// What is drawn of the doodle, and where. Fails at the first line that is to be drawn on a
    /// layer that there is not.
    pub fn render(&self) -> (r: Result<DoodlePlan, RenderError>)
        ensures
            is_rendered(self@, r),
    {
        let layers: usize = if self.max_layer > 1 {
            self.max_layer
        } else {
            1
        };
        let mut strokes: Vec<usize> = Vec::new();
        let mut i: usize = 0;
        while i < self.lines.len()
            invariant
                i <= self.lines.len(),
                layers == layer_count(self@),
                forall|j: int| is_off_layers(self@, j) ==> i <= j,
                forall|k: int|
                    0 <= k < strokes.len() ==> (#[trigger] strokes[k]) < i && is_drawn(
                        self@,
                        strokes[k] as int,
                    ),
                forall|a: int, b: int|
                    0 <= a < b < strokes.len() ==> #[trigger] strokes[a] < #[trigger] strokes[b],
                forall|j: int| #[trigger]
                    is_drawn(self@, j) && j < i ==> strokes@.contains(j as usize),
            decreases self.lines.len() - i,
        {
            assert(self@.lines[i as int] == self.lines@[i as int]@);
            let ghost before = strokes@;
            if self.lines[i].points.len() > 0 {
                if self.lines[i].layer >= layers {
                    assert(is_off_layers(self@, i as int));
                    return Err(
                        RenderError::NoSuchLayer {
                            layer: self.lines[i].layer,
                            max_layer: self.max_layer,
                        },
                    );
                }
                strokes.push(i);
                assert(strokes@[before.len() as int] == i);
                assert forall|j: int| #[trigger] is_drawn(self@, j) && j < i + 1 implies strokes@.contains(
                j as usize) by {
                    if j < i {
                        let k = choose|k: int| 0 <= k < before.len() && before[k] == j as usize;
                        assert(strokes@[k] == j as usize);
                    }
                }
            }
            i = i + 1;
        }
        proof {
            assert forall|j: int| 0 <= j < self@.lines.len() && (#[trigger] self@.lines[j]).points.len()
                > 0 implies strokes@.contains(j as usize) by {
                assert(is_drawn(self@, j));
            }
            assert(are_strokes(self@.lines, strokes@));
        }
        Ok(DoodlePlan { layers, strokes })
    }
}

/// The lines that are drawn on a layer, in their order.
pub open spec fn drawn_on(lines: Seq<LineView>, layer: usize) -> Seq<LineView>
    decreases lines.len(),
{
    if lines.len() == 0 {
        seq![]
    } else {
        let before = drawn_on(lines.drop_last(), layer);
        if lines.last().points.len() > 0 && lines.last().layer == layer {
            before.push(lines.last())
        } else {
            before
        }
    }
}

/// The lines at some positions that lie on a layer, in the order of the positions.
pub open spec fn stroked_on(lines: Seq<LineView>, strokes: Seq<usize>, layer: usize) -> Seq<LineView>
    decreases strokes.len(),
{
    if strokes.len() == 0 {
        seq![]
    } else {
        let before = stroked_on(lines, strokes.drop_last(), layer);
        let line = lines[strokes.last() as int];
        if line.layer == layer {
            before.push(line)
        } else {
            before
        }
    }
}

/// The last line does not count where no position is its own.
proof fn lemma_stroked_before(lines: Seq<LineView>, strokes: Seq<usize>, layer: usize)
    requires
        lines.len() > 0,
        forall|k: int| 0 <= k < strokes.len() ==> (#[trigger] strokes[k]) < lines.len() - 1,
    ensures
        stroked_on(lines, strokes, layer) == stroked_on(lines.drop_last(), strokes, layer),
    decreases strokes.len(),
{
    if strokes.len() > 0 {
        lemma_stroked_before(lines, strokes.drop_last(), layer);
        assert(strokes[strokes.len() - 1] < lines.len() - 1);
    }
}

/// What is planned for a layer are the lines that are drawn on it, in their order.
pub proof fn plans_follow_the_layers(lines: Seq<LineView>, strokes: Seq<usize>, layer: usize)
    requires
        are_strokes(lines, strokes),
        lines.len() <= usize::MAX,
    ensures
        stroked_on(lines, strokes, layer) == drawn_on(lines, layer),
    decreases lines.len(),
{
    if lines.len() == 0 {
        if strokes.len() > 0 {
            assert(strokes[0] < lines.len());
        }
    } else {
        let shorter = lines.drop_last();
        let n = lines.len() - 1;
        if lines.last().points.len() > 0 {
            let fewer = strokes.drop_last();
            assert(lines[n].points.len() > 0);
            assert(strokes.contains(n as usize));
            let k = choose|k: int| 0 <= k < strokes.len() && strokes[k] == n as usize;
            if k < strokes.len() - 1 {
                assert(strokes[k] < strokes[strokes.len() - 1]);
            }
            assert(strokes.last() == n as usize);
            assert forall|j: int| 0 <= j < fewer.len() implies (#[trigger] fewer[j]) < n
                && shorter[fewer[j] as int].points.len() > 0 by {
                assert(strokes[j] < strokes[strokes.len() - 1]);
            }
            assert forall|i: int| 0 <= i < shorter.len() && (#[trigger] shorter[i]).points.len()
                > 0 implies fewer.contains(i as usize) by {
                assert(lines[i].points.len() > 0);
                let j = choose|j: int| 0 <= j < strokes.len() && strokes[j] == i as usize;
                assert(fewer[j] == i as usize);
            }
            assert(are_strokes(shorter, fewer));
            plans_follow_the_layers(shorter, fewer, layer);
            lemma_stroked_before(lines, fewer, layer);
        } else {
            assert forall|j: int| 0 <= j < strokes.len() implies (#[trigger] strokes[j]) < n
                && shorter[strokes[j] as int].points.len() > 0 by {
                if strokes[j] == n {
                    assert(lines[strokes[j] as int].points.len() > 0);
                }
            }
            assert forall|i: int| 0 <= i < shorter.len() && (#[trigger] shorter[i]).points.len()
                > 0 implies strokes.contains(i as usize) by {
                assert(lines[i].points.len() > 0);
            }
            assert(are_strokes(shorter, strokes));
            plans_follow_the_layers(shorter, strokes, layer);
            lemma_stroked_before(lines, strokes, layer);
        }
    }
}

/// A layer is drawn on where a line that is drawn lies on it, and only there.
proof fn lemma_drawn_on(lines: Seq<LineView>, layer: usize)
    ensures
        drawn_on(lines, layer).len() > 0 <==> exists|i: int|
            0 <= i < lines.len() && (#[trigger] lines[i]).points.len() > 0 && lines[i].layer
                == layer,
    decreases lines.len(),
{
    if lines.len() > 0 {
        let shorter = lines.drop_last();
        lemma_drawn_on(shorter, layer);
        if drawn_on(lines, layer).len() > 0 {
            if drawn_on(shorter, layer).len() > 0 {
                let i = choose|i: int|
                    0 <= i < shorter.len() && (#[trigger] shorter[i]).points.len() > 0
                        && shorter[i].layer == layer;
                assert(lines[i] == shorter[i]);
            } else {
                assert(lines[lines.len() - 1] == lines.last());
            }
        }
        if exists|i: int|
            0 <= i < lines.len() && (#[trigger] lines[i]).points.len() > 0 && lines[i].layer
                == layer {
            let i = choose|i: int|
                0 <= i < lines.len() && (#[trigger] lines[i]).points.len() > 0 && lines[i].layer
                    == layer;
            if i < shorter.len() {
                assert(shorter[i] == lines[i]);
            }
        }
    }
}

/// A doodle whose layers are those of another can be drawn where the other can.
proof fn lemma_drawable_alike(a: DoodleView, b: DoodleView)
    requires
        a.max_layer == b.max_layer,
        forall|layer: usize| #[trigger] drawn_on(a.lines, layer) == drawn_on(b.lines, layer),
        is_drawable(a),
    ensures
        is_drawable(b),
{
    assert forall|i: int| !is_off_layers(b, i) by {
        if is_off_layers(b, i) {
            let layer = b.lines[i].layer;
            lemma_drawn_on(b.lines, layer);
            lemma_drawn_on(a.lines, layer);
            assert(drawn_on(a.lines, layer) == drawn_on(b.lines, layer));
            let j = choose|j: int|
                0 <= j < a.lines.len() && (#[trigger] a.lines[j]).points.len() > 0
                    && a.lines[j].layer == layer;
            assert(is_off_layers(a, j));
        }
    }
}

/// Doodles with as many layers, and the same lines in the same order on each of them, are drawn alike,
/// however their lines stand among those of other layers and whatever lines without points there are:
/// one can be drawn where the other can, on as many layers, with the same lines on each.
pub proof fn layers_are_drawn_alike(
    a: DoodleView,
    b: DoodleView,
    layers_a: int,
    layers_b: int,
    strokes_a: Seq<usize>,
    strokes_b: Seq<usize>,
)
    requires
        a.max_layer == b.max_layer,
        a.lines.len() <= usize::MAX,
        b.lines.len() <= usize::MAX,
        forall|layer: usize| #[trigger] drawn_on(a.lines, layer) == drawn_on(b.lines, layer),
    ensures
        is_drawable(a) <==> is_drawable(b),
        is_plan(a, layers_a, strokes_a) && is_plan(b, layers_b, strokes_b) ==> {
            &&& layers_a == layers_b
            &&& forall|layer: usize| #[trigger]
                stroked_on(a.lines, strokes_a, layer) == stroked_on(b.lines, strokes_b, layer)
        },
{
    if is_drawable(a) {
        lemma_drawable_alike(a, b);
    }
    if is_drawable(b) {
        lemma_drawable_alike(b, a);
    }
    if is_plan(a, layers_a, strokes_a) && is_plan(b, layers_b, strokes_b) {
        assert forall|layer: usize| #[trigger]
            stroked_on(a.lines, strokes_a, layer) == stroked_on(b.lines, strokes_b, layer) by {
            plans_follow_the_layers(a.lines, strokes_a, layer);
            plans_follow_the_layers(b.lines, strokes_b, layer);
            assert(drawn_on(a.lines, layer) == drawn_on(b.lines, layer));
        }
    }
}

/// What is drawn of lines one behind the other is what is drawn of the first, and then of the others.
proof fn lemma_drawn_of_both(a: Seq<LineView>, b: Seq<LineView>, layer: usize)
    ensures
        drawn_on(a + b, layer) == drawn_on(a, layer) + drawn_on(b, layer),
    decreases b.len(),
{
    if b.len() == 0 {
        assert(a + b =~= a);
        assert(drawn_on(a, layer) + drawn_on(b, layer) =~= drawn_on(a, layer));
    } else {
        lemma_drawn_of_both(a, b.drop_last(), layer);
        assert((a + b).drop_last() =~= a + b.drop_last());
        assert((a + b).last() == b.last());
        assert(drawn_on(a + b, layer) =~= drawn_on(a, layer) + drawn_on(b, layer));
    }
}

/// A line that changes its place with one of another layer, and a line without points that comes or
/// goes, change nothing on any layer.
pub proof fn lines_move_past_other_layers(
    before: Seq<LineView>,
    a: LineView,
    b: LineView,
    after: Seq<LineView>,
    layer: usize,
)
    ensures
        a.layer != b.layer ==> drawn_on(before + seq![a, b] + after, layer) == drawn_on(
            before + seq![b, a] + after,
            layer,
        ),
        a.points.len() == 0 ==> drawn_on(before + seq![a] + after, layer) == drawn_on(
            before + after,
            layer,
        ),
{
    reveal_with_fuel(drawn_on, 3);
    let empty = Seq::<LineView>::empty();
    lemma_drawn_of_both(before + seq![a, b], after, layer);
    lemma_drawn_of_both(before, seq![a, b], layer);
    lemma_drawn_of_both(before + seq![b, a], after, layer);
    lemma_drawn_of_both(before, seq![b, a], layer);
    lemma_drawn_of_both(before + seq![a], after, layer);
    lemma_drawn_of_both(before, seq![a], layer);
    lemma_drawn_of_both(before, after, layer);
    assert(seq![a, b].drop_last() =~= seq![a]);
    assert(seq![b, a].drop_last() =~= seq![b]);
    assert(seq![a].drop_last() =~= empty);
    assert(seq![b].drop_last() =~= empty);
    if a.layer != b.layer {
        assert(drawn_on(seq![a, b], layer) =~= drawn_on(seq![b, a], layer));
    }
    if a.points.len() == 0 {
        assert(drawn_on(seq![a], layer) =~= empty);
        assert(drawn_on(before, layer) + empty =~= drawn_on(before, layer));
    }
}

/// The choices of a vote with their counts, and how often one may vote.
#[derive(Debug)]
pub struct JBCountGroup {
    pub choices: IndexMap<String, i64>,
    pub max_votes: Option<i64>,
}

/// The model of [`JBCountGroup`].
pub struct CountGroupView {
    pub choices: Seq<(Seq<char>, i64)>,
    pub max_votes: Option<i64>,
}

impl View for JBCountGroup {
    type V = CountGroupView;

    open spec fn view(&self) -> CountGroupView {
        CountGroupView { choices: choice_seq(self.choices), max_votes: self.max_votes }
    }
}

/// Why a value names no choice.
#[derive(Clone, Copy, Debug, PartialEq, Eq, Structural)]
pub enum ChoiceError {
    /// It is an array.
    Array,
    /// It is an object.
    Object,
}

/// The name of the choice that a value stands for. Arrays and objects stand for none.
pub open spec fn choice_name(option: Json) -> Result<Seq<char>, ChoiceError> {
    match option {
        Json::Null => Ok("null"@),
        Json::Bool(b) => if b {
            Ok("true"@)
        } else {
            Ok("false"@)
        },
        Json::Number { bits: _, text } => Ok(text@),
        Json::Text(s) => Ok(s@),
        Json::Array(_) => Err(ChoiceError::Array),
        Json::Object(_) => Err(ChoiceError::Object),
    }
}

/// The choices with these names, each once, where it is first named, all with no vote.
pub open spec fn fresh_choices(names: Seq<Seq<char>>) -> Seq<(Seq<char>, i64)>
    decreases names.len(),
{
    if names.len() == 0 {
        Seq::empty()
    } else {
        let before = fresh_choices(names.drop_last());
        if has_key(before, names.last()) {
            before
        } else {
            before.push((names.last(), 0i64))
        }
    }
}

/// Whether this is what comes of options: the group with the choices that they name, or why the first of
/// them that names none does not.
pub open spec fn is_group_of(
    options: Seq<Json>,
    max_votes: Option<i64>,
    result: Result<JBCountGroup, ChoiceError>,
) -> bool {
    match result {
        Ok(group) => {
            &&& forall|i: int| 0 <= i < options.len() ==> choice_name(#[trigger] options[i]) is Ok
            &&& group@ == CountGroupView {
                choices: fresh_choices(options.map_values(|o: Json| choice_name(o)->Ok_0)),
                max_votes,
            }
        },
        Err(e) => exists|i: int|
            {
                &&& 0 <= i < options.len()
                &&& choice_name(#[trigger] options[i]) == Err::<Seq<char>, ChoiceError>(e)
                &&& forall|j: int| 0 <= j < i ==> choice_name(#[trigger] options[j]) is Ok
            },
    }
}

/// Whether `after` is `before` with `times` votes for `choice`: a choice that there is not gets
/// no vote, and no other count changes.
pub open spec fn vote_counted(
    before: Seq<(Seq<char>, i64)>,
    choice: Seq<char>,
    times: i64,
    after: Seq<(Seq<char>, i64)>,
) -> bool {
    &&& forall|i: int| #[trigger]
        key_at(before, i, choice) ==> after == before.update(
            i,
            (choice, before[i].1.wrapping_add(times)),
        )
    &&& !has_key(before, choice) ==> after == before
}

/// The name of the choice that a value stands for.
fn name_of_choice(option: &Json) -> (r: Result<String, ChoiceError>)
    ensures
        match r {
            Ok(name) => choice_name(*option) == Ok::<Seq<char>, ChoiceError>(name@),
            Err(e) => choice_name(*option) == Err::<Seq<char>, ChoiceError>(e),
        },
{
    match option {
        Json::Null => Ok("null".to_owned()),
        Json::Bool(b) => if *b {
            Ok("true".to_owned())
        } else {
            Ok("false".to_owned())
        },
        Json::Number { bits: _, text } => Ok(text.clone()),
        Json::Text(s) => Ok(s.clone()),
        Json::Array(_) => Err(ChoiceError::Array),
        Json::Object(_) => Err(ChoiceError::Object),
    }
}

/// Every name that was given is a choice, no choice is there twice, and all have no vote.
pub proof fn fresh_choices_are_the_names(names: Seq<Seq<char>>)
    ensures
        forall|name: Seq<char>| has_key(fresh_choices(names), name) <==> names.contains(name),
        distinct_keys(fresh_choices(names)),
        forall|i: int|
            0 <= i < fresh_choices(names).len() ==> (#[trigger] fresh_choices(names)[i]).1 == 0,
    decreases names.len(),
{
    if names.len() > 0 {
        let shorter = names.drop_last();
        let before = fresh_choices(shorter);
        let after = fresh_choices(names);
        fresh_choices_are_the_names(shorter);
        assert forall|name: Seq<char>| has_key(after, name) <==> names.contains(name) by {
            if has_key(after, name) {
                let i = choose|i: int| key_at(after, i, name);
                if i < before.len() {
                    assert(key_at(before, i, name));
                    assert(shorter.contains(name));
                    let k = choose|k: int| 0 <= k < shorter.len() && shorter[k] == name;
                    assert(names[k] == name);
                } else {
                    assert(names[names.len() - 1] == name);
                }
            }
            if names.contains(name) {
                let k = choose|k: int| 0 <= k < names.len() && names[k] == name;
                if k < shorter.len() {
                    assert(shorter[k] == name);
                    assert(shorter.contains(name));
                    assert(has_key(before, name));
                    let i = choose|i: int| key_at(before, i, name);
                    assert(key_at(after, i, name));
                } else {
                    if has_key(before, name) {
                        let i = choose|i: int| key_at(before, i, name);
                        assert(key_at(after, i, name));
                    } else {
                        assert(key_at(after, before.len() as int, name));
                    }
                }
            }
        }
        assert forall|i: int, j: int| 0 <= i < j < after.len() implies (#[trigger] after[i]).0 != (
        #[trigger] after[j]).0 by {
            if j == before.len() {
                if after[i].0 == after[j].0 {
                    assert(key_at(before, i, names.last()));
                }
            }
        }
    }
}

impl JBCountGroup {
    /// A group with no choices.
    pub fn new(max_votes: Option<i64>) -> (r: JBCountGroup)
        ensures
            r@ == (CountGroupView { choices: Seq::empty(), max_votes }),
    {
        JBCountGroup { choices: choices_new(), max_votes }
    }

    /// The group with the given choices, or why the first of them that names none does not.
    pub fn from_options(options: &Vec<Json>, max_votes: Option<i64>) -> (r: Result<
        JBCountGroup,
        ChoiceError,
    >)
        ensures
            is_group_of(options@, max_votes, r),
    {
        let mut group = JBCountGroup::new(max_votes);
        let ghost names = options@.map_values(|o: Json| choice_name(o)->Ok_0);
        let mut i: usize = 0;
        while i < options.len()
            invariant
                i <= options.len(),
                names == options@.map_values(|o: Json| choice_name(o)->Ok_0),
                forall|j: int| 0 <= j < i ==> choice_name(#[trigger] options[j]) is Ok,
                choice_seq(group.choices) == fresh_choices(names.take(i as int)),
                group.max_votes == max_votes,
            decreases options.len() - i,
        {
            let ghost before = choice_seq(group.choices);
            match name_of_choice(&options[i]) {
                Ok(name) => {
                    proof {
                        fresh_choices_are_the_names(names.take(i as int));
                        assert(names.take(i + 1).drop_last() =~= names.take(i as int));
                        assert(names.take(i + 1).last() == name@);
                        if has_key(before, name@) {
                            let k = choose|k: int| key_at(before, k, name@);
                            assert(before.update(k, (name@, 0i64)) =~= before);
                        }
                    }
                    choices_insert(&mut group.choices, name, 0);
                },
                Err(e) => {
                    return Err(e);
                },
            }
            i = i + 1;
        }
        assert(names.take(i as int) =~= names);
        Ok(group)
    }

    /// Counts `times` votes for a choice.
    pub fn add_votes(&mut self, choice: &String, times: i64)
        ensures
            vote_counted(old(self)@.choices, choice@, times, final(self)@.choices),
            final(self)@.max_votes == old(self)@.max_votes,
    {
        match choices_get(&self.choices, choice) {
            Some(count) => {
                choices_insert(&mut self.choices, choice.clone(), count.wrapping_add(times));
            },
            None => {},
        }
    }

    /// The choice at a position, with its count.
    pub fn choice(&self, index: usize) -> (r: Option<(&String, i64)>)
        ensures
            match r {
                Some((name, count)) => index < self@.choices.len() && self@.choices[index as int]
                    == (name@, count),
                None => index >= self@.choices.len(),
            },
    {
        match choices_at(&self.choices, index) {
            Some((name, count)) => Some((name, *count)),
            None => None,
        }
    }
}

impl Clone for JBCountGroup {
    fn clone(&self) -> (r: JBCountGroup)
        ensures
            r@ == self@,
    {
        JBCountGroup { choices: choices_clone(&self.choices), max_votes: self.max_votes }
    }
}

/// The value of an entity. A number is kept as the bits of a double, an object as its text.
#[allow(inconsistent_fields)]
#[derive(Debug)]
pub enum JBValue {
    Text { val: String },
    Number { val: u64 },
    Object { val: String },
    Doodle { val: JBDoodle },
    AudiencePnCounter { count: i64 },
    AudienceGCounter { count: i64 },
    AudienceCountGroup(JBCountGroup),
    /// No value.
    Empty { val: Option<()> },
}

/// The model of [`JBValue`].
pub enum ValueView {
    Text(Seq<char>),
    Number(u64),
    Object(Seq<char>),
    Doodle(DoodleView),
    AudiencePnCounter(i64),
    AudienceGCounter(i64),
    AudienceCountGroup(CountGroupView),
    Empty,
}

impl View for JBValue {
    type V = ValueView;

    open spec fn view(&self) -> ValueView {
        match self {
            JBValue::Text { val } => ValueView::Text(val@),
            JBValue::Number { val } => ValueView::Number(*val),
            JBValue::Object { val } => ValueView::Object(val@),
            JBValue::Doodle { val } => ValueView::Doodle(val@),
            JBValue::AudiencePnCounter { count } => ValueView::AudiencePnCounter(*count),
            JBValue::AudienceGCounter { count } => ValueView::AudienceGCounter(*count),
            JBValue::AudienceCountGroup(group) => ValueView::AudienceCountGroup(group@),
            JBValue::Empty { val: _ } => ValueView::Empty,
        }
    }
}

impl Default for JBValue {
    fn default() -> (r: JBValue)
        ensures
            r@ == ValueView::Empty,
    {
        JBValue::Empty { val: None }
    }
}

impl Clone for JBValue {
    fn clone(&self) -> (r: JBValue)
        ensures
            r@ == self@,
    {
        match self {
            JBValue::Text { val } => JBValue::Text { val: val.clone() },
            JBValue::Number { val } => JBValue::Number { val: *val },
            JBValue::Object { val } => JBValue::Object { val: val.clone() },
            JBValue::Doodle { val } => JBValue::Doodle { val: val.clone() },
            JBValue::AudiencePnCounter { count } => JBValue::AudiencePnCounter { count: *count },
            JBValue::AudienceGCounter { count } => JBValue::AudienceGCounter { count: *count },
            JBValue::AudienceCountGroup(group) => JBValue::AudienceCountGroup(group.clone()),
            JBValue::Empty { val: _ } => JBValue::Empty { val: None },
        }
    }
}

/// What an entity is to those who read it.
#[derive(Debug)]
pub struct JBObject {
    pub key: String,
    pub val: JBValue,
    pub restrictions: JBRestrictions,
    pub version: u32,
    pub from: i64,
}

/// The model of [`JBObject`].
pub struct ObjectView {
    pub key: Seq<char>,
    pub val: ValueView,
    pub restrictions: RestrictionsView,
    pub version: u32,
    pub from: i64,
}

impl View for JBObject {
    type V = ObjectView;

    open spec fn view(&self) -> ObjectView {
        ObjectView {
            key: self.key@,
            val: self.val@,
            restrictions: self.restrictions@,
            version: self.version,
            from: self.from,
        }
    }
}

impl Clone for JBObject {
    fn clone(&self) -> (r: JBObject)
        ensures
            r@ == self@,
    {
        JBObject {
            key: self.key.clone(),
            val: self.val.clone(),
            restrictions: self.restrictions.clone(),
            version: self.version,
            from: self.from,
        }
    }
}

/// Whether an entity is locked, and who may read and write it.
#[derive(Debug)]
pub struct JBAttributes {
    pub locked: bool,
    pub acl: Vec<Acl>,
}

/// The model of [`JBAttributes`].
pub struct AttributesView {
    pub locked: bool,
    pub acl: Seq<Acl>,
}

impl View for JBAttributes {
    type V = AttributesView;

    open spec fn view(&self) -> AttributesView {
        AttributesView { locked: self.locked, acl: self.acl@ }
    }
}

/// Not locked, with the default list.
pub open spec fn default_attributes() -> AttributesView {
    AttributesView { locked: false, acl: Acl::default_seq() }
}

impl Default for JBAttributes {
    fn default() -> (r: JBAttributes)
        ensures
            r@ == default_attributes(),
    {
        JBAttributes { locked: false, acl: Acl::default_vec() }
    }
}

impl Clone for JBAttributes {
    fn clone(&self) -> (r: JBAttributes)
        ensures
            r@ == self@,
    {
        JBAttributes { locked: self.locked, acl: copied(&self.acl) }
    }
}

impl JBAttributes {
    /// What a connection may do with the entity.
    pub fn perms(&self, role: Role, id: i64) -> (r: Option<Interest>)
        ensures
            r == granted(self.acl@, role, id),
    {
        if role == Role::Host {
            return Some(Interest { readable: true, writable: true });
        }
        let mut perms: Option<Interest> = None;
        let mut i: usize = 0;
        while i < self.acl.len()
            invariant
                i <= self.acl.len(),
                perms is None <==> forall|j: int| j < i ==> !entry_covers(self.acl@, j, role, id),
                perms matches Some(interest) ==> {
                    &&& interest.readable <==> exists|j: int|
                        #[trigger] entry_covers(self.acl@, j, role, id) && j < i
                            && self.acl@[j].interest.readable
                    &&& interest.writable <==> exists|j: int|
                        #[trigger] entry_covers(self.acl@, j, role, id) && j < i
                            && self.acl@[j].interest.writable
                },
            decreases self.acl.len() - i,
        {
            let entry = self.acl[i];
            if entry.principle.matches(role, id) {
                assert(entry_covers(self.acl@, i as int, role, id));
                perms = match perms {
                    Some(interest) => Some(interest.union(entry.interest)),
                    None => Some(entry.interest),
                };
            }
            i = i + 1;
        }
        assert(forall|j: int| entry_covers(self.acl@, j, role, id) ==> j < i);
        perms
    }

    /// Whether a connection may read the entity.
    pub fn is_readable_by(&self, role: Role, id: i64) -> (r: bool)
        ensures
            r == crate::acl::may_read(self.acl@, role, id),
    {
        match self.perms(role, id) {
            Some(interest) => interest.is_readable(),
            None => false,
        }
    }

    /// Whether a connection may write the entity.
    pub fn is_writable_by(&self, role: Role, id: i64) -> (r: bool)
        ensures
            r == crate::acl::may_write(self.acl@, role, id),
    {
        match self.perms(role, id) {
            Some(interest) => interest.is_writable(),
            None => false,
        }
    }
}

/// A value in a room, with all that belongs to it.
#[derive(Debug)]
pub struct JBEntity(pub JBType, pub JBObject, pub JBAttributes);

/// The model of [`JBEntity`].
pub struct EntityView {
    pub kind: JBType,
    pub object: ObjectView,
    pub attributes: AttributesView,
}

impl View for JBEntity {
    type V = EntityView;

    open spec fn view(&self) -> EntityView {
        EntityView { kind: self.0, object: self.1@, attributes: self.2@ }
    }
}

impl Clone for JBEntity {
    fn clone(&self) -> (r: JBEntity)
        ensures
            r@ == self@,
    {
        JBEntity(self.0, self.1.clone(), self.2.clone())
    }
}

} // verus!
