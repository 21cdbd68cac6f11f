//! What holds of doodles as they are drawn.
use crate::entity::{is_drawable, is_off_layers, is_plan, DoodleView};
use vstd::prelude::*;

verus! {

/// A doodle is drawn on as many layers as it names, and on one where it names none; with every line that
/// has points, once, in the order of the lines, and with no other.
pub proof fn every_line_with_points_is_drawn(
    doodle: DoodleView,
    layers: int,
    strokes: Seq<usize>,
    i: int,
)
    requires
        is_plan(doodle, layers, strokes),
        doodle.lines.len() <= usize::MAX,
        0 <= i < doodle.lines.len(),
    ensures
        doodle.max_layer > 0 ==> layers == doodle.max_layer,
        doodle.max_layer == 0 ==> layers == 1,
        strokes.contains(i as usize) <==> doodle.lines[i].points.len() > 0,
        strokes.no_duplicates(),
        forall|k: int| 0 <= k < strokes.len() ==> #[trigger] strokes[k] < doodle.lines.len(),
        forall|j: int, k: int|
            0 <= j < k < strokes.len() ==> #[trigger] strokes[j] < #[trigger] strokes[k],
{
    if strokes.contains(i as usize) {
        let k = choose|k: int| 0 <= k < strokes.len() && strokes[k] == i as usize;
        assert(strokes[k] == i);
    }
}

/// A doodle can be drawn where no line that has points lies above the layers that there are; lines without
/// points do not count.
pub proof fn doodles_within_their_layers_are_drawn(doodle: DoodleView)
    ensures
        is_drawable(doodle) <==> forall|i: int|
            0 <= i < doodle.lines.len() && (#[trigger] doodle.lines[i]).points.len() > 0
                ==> doodle.lines[i].layer < doodle.max_layer || doodle.lines[i].layer == 0,
{
    if is_drawable(doodle) {
        assert forall|i: int|
            0 <= i < doodle.lines.len() && (#[trigger] doodle.lines[i]).points.len()
                > 0 implies doodle.lines[i].layer < doodle.max_layer || doodle.lines[i].layer
            == 0 by {
            assert(!is_off_layers(doodle, i));
        }
    }
}

} // verus!
