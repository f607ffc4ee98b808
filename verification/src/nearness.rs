//! How the search for a neighbour looks at rectangles and measures: which edges it
//! compares, how it orders doubles by their bits, and which of two panes it takes.

use vstd::prelude::*;

use crate::adjacent::{
    is_better, is_candidate, is_level, is_nan, number_order, order_key, probe_of, Measure, Probe,
};
use crate::direction::Direction;
use crate::layout::Rect;
use crate::order::{text_le, text_order};

verus! {

/// Towards the left the current pane's left edge is held against the other one's
/// right edge, and the other way round towards the right; upwards the upper edge
/// against the lower one, and the other way round downwards. The overlap is that
/// of the edges across.
pub proof fn facing_edges_are_compared(current: Rect, other: Rect)
    ensures
        ({
            let probe = probe_of(Direction::Left, current, other);
            probe.before && probe.near == current.x0 && probe.far == other.x1
        }),
        ({
            let probe = probe_of(Direction::Right, current, other);
            !probe.before && probe.near == current.x1 && probe.far == other.x0
        }),
        ({
            let probe = probe_of(Direction::Up, current, other);
            probe.before && probe.near == current.y0 && probe.far == other.y1
        }),
        ({
            let probe = probe_of(Direction::Down, current, other);
            !probe.before && probe.near == current.y1 && probe.far == other.y0
        }),
        forall|direction: Direction|
            direction == Direction::Left || direction == Direction::Right ==> {
                let probe = #[trigger] probe_of(direction, current, other);
                &&& probe.low == current.y0 && probe.high == current.y1
                &&& probe.other_low == other.y0 && probe.other_high == other.y1
            },
        forall|direction: Direction|
            direction == Direction::Up || direction == Direction::Down ==> {
                let probe = #[trigger] probe_of(direction, current, other);
                &&& probe.low == current.x0 && probe.high == current.x1
                &&& probe.other_low == other.x0 && probe.other_high == other.x1
            },
{
}

/// Doubles without a sign are ordered as their bits are, those with one the other
/// way round, and all of these stand before all of those, except that the two
/// zeros are level. Those that are no number have more bits than infinity.
pub proof fn bits_are_ordered_as_doubles(a: u64, b: u64)
    ensures
        a < 0x8000_0000_0000_0000 && b < 0x8000_0000_0000_0000 ==> (order_key(a) < order_key(b)
            <==> a < b),
        a >= 0x8000_0000_0000_0000 && b >= 0x8000_0000_0000_0000 ==> (order_key(a) < order_key(b)
            <==> a > b),
        a >= 0x8000_0000_0000_0000 && b < 0x8000_0000_0000_0000 ==> order_key(a) <= order_key(b),
        a >= 0x8000_0000_0000_0000 && b < 0x8000_0000_0000_0000 ==> (order_key(a) == order_key(b)
            <==> a == 0x8000_0000_0000_0000 && b == 0),
        order_key(a) < 0 <==> a > 0x8000_0000_0000_0000,
        order_key(0) == 0,
        is_nan(a) <==> (if a < 0x8000_0000_0000_0000 {
            a as int
        } else {
            a - 0x8000_0000_0000_0000
        }) > 0x7FF0_0000_0000_0000,
{
}

/// A pane is a candidate where its facing edge does not lie beyond the limit and
/// it overlaps the current one. What is no number decides nothing.
pub proof fn candidates_overlap_within_the_limit(probe: Probe, measure: Measure)
    ensures
        is_candidate(probe, measure) ==> order_key(measure.negative_overlap) < 0,
        is_candidate(probe, measure) ==> !is_nan(probe.far) && !is_nan(measure.limit) && !is_nan(
            measure.negative_overlap,
        ),
        is_candidate(probe, measure) && probe.before ==> order_key(probe.far) <= order_key(
            measure.limit,
        ),
        is_candidate(probe, measure) && !probe.before ==> order_key(measure.limit) <= order_key(
            probe.far,
        ),
        !is_nan(probe.far) && !is_nan(measure.limit) && !is_nan(measure.negative_overlap)
            && order_key(measure.negative_overlap) < 0 && order_key(probe.far) == order_key(
            measure.limit,
        ) ==> is_candidate(probe, measure),
        !is_nan(probe.far) && !is_nan(measure.limit) && !is_nan(measure.negative_overlap)
            && order_key(measure.negative_overlap) < 0 ==> (is_candidate(probe, measure)
            <==> probe.before == (order_key(probe.far) < order_key(measure.limit)) || order_key(
            probe.far,
        ) == order_key(measure.limit)),
{
}

/// Of two panes the one with the smaller gap is nearer; with the same gap, the one
/// with the larger overlap; with the same of both, they are level.
pub proof fn smaller_gaps_are_nearer(a: Measure, b: Measure)
    ensures
        order_key(a.gap) < order_key(b.gap) ==> is_better(a, b),
        order_key(a.gap) == order_key(b.gap) && order_key(a.negative_overlap) < order_key(
            b.negative_overlap,
        ) ==> is_better(a, b),
        is_level(a, b) <==> order_key(a.gap) == order_key(b.gap) && order_key(a.negative_overlap)
            == order_key(b.negative_overlap),
        is_better(a, b) ==> !is_better(b, a) && !is_level(a, b),
        is_better(a, b) || is_better(b, a) || is_level(a, b),
{
}

/// One text stands before another where it is the other one's beginning, or where
/// its character at the first place in which they differ is the smaller one.
pub proof fn texts_are_ordered_by_their_first_difference(a: Seq<char>, b: Seq<char>, k: int)
    requires
        0 <= k <= a.len(),
        k <= b.len(),
        a.take(k) == b.take(k),
    ensures
        k == a.len() ==> text_le(a, b),
        k == b.len() && k < a.len() ==> !text_le(a, b),
        k < a.len() && k < b.len() && a[k] != b[k] ==> (text_le(a, b) <==> a[k] < b[k]),
        text_order()(a, b) == text_le(a, b),
    decreases k,
{
    if k > 0 {
        assert(a.take(k)[0] == a[0]);
        assert(b.take(k)[0] == b[0]);
        assert(a.skip(1).take(k - 1) =~= a.take(k).skip(1));
        assert(b.skip(1).take(k - 1) =~= b.take(k).skip(1));
        texts_are_ordered_by_their_first_difference(a.skip(1), b.skip(1), k - 1);
    }
}

/// Pane numbers stand in their own order.
pub proof fn numbers_are_ordered(a: i64, b: i64)
    ensures
        number_order()(a, b) <==> a <= b,
{
}

} // verus!
