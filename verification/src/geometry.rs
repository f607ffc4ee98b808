//! What holds of rectangles by the order of their coordinates: how the panes of a
//! layout lie, and which pane is beside another one.
//!
//! The arithmetic on coordinates is the caller's. What is needed of it is stated
//! over the order of doubles.

use vstd::prelude::*;
use vstd::relations::total_ordering;

use crate::adjacent::{
    beside, is_better, is_candidate, is_level, is_nan, is_pick, nearest_beside, nearest_or_none,
    order_key, pick_is_nearest, pick_is_unique, probe_of, searches, Measure, Measuring, Probe,
};
use crate::direction::{direction_named, Direction};
use crate::json::{JsonNumber, JsonView};
use crate::layout::{
    cut_rect, layout_rects, leaf_pane, leaf_panes, node_split, parts_at, rects_of, side_of,
    split_parts_are_smaller, unit_rect, Cutting, Rect,
};

verus! {

/// Whether a coordinate is no greater than another.
pub open spec fn at_most(a: u64, b: u64) -> bool {
    order_key(a) <= order_key(b)
}

/// Whether a coordinate is smaller than another.
pub open spec fn below(a: u64, b: u64) -> bool {
    order_key(a) < order_key(b)
}

/// Whether a bit pattern is that of a finite number.
pub open spec fn is_finite(bits: u64) -> bool {
    -0x7FF0_0000_0000_0000 < order_key(bits) < 0x7FF0_0000_0000_0000
}

/// Whether all the coordinates of a rectangle are finite.
pub open spec fn rect_is_finite(rect: Rect) -> bool {
    &&& is_finite(rect.x0)
    &&& is_finite(rect.y0)
    &&& is_finite(rect.x1)
    &&& is_finite(rect.y1)
}

/// Whether the sides of a rectangle are in order.
pub open spec fn is_upright(rect: Rect) -> bool {
    at_most(rect.x0, rect.x1) && at_most(rect.y0, rect.y1)
}

/// Whether a rectangle lies inside another one.
pub open spec fn lies_inside(inner: Rect, outer: Rect) -> bool {
    &&& is_upright(inner)
    &&& at_most(outer.x0, inner.x0)
    &&& at_most(inner.x1, outer.x1)
    &&& at_most(outer.y0, inner.y0)
    &&& at_most(inner.y1, outer.y1)
}

/// Whether two rectangles do not overlap: they share their borders at most.
pub open spec fn lie_apart(a: Rect, b: Rect) -> bool {
    ||| at_most(a.x1, b.x0)
    ||| at_most(b.x1, a.x0)
    ||| at_most(a.y1, b.y0)
    ||| at_most(b.y1, a.y0)
}

/// Whether an arithmetic puts a cut of a rectangle between the ends of the side
/// that it divides.
pub open spec fn cuts_between(
    rect: Rect,
    horizontal: bool,
    ratio: JsonNumber,
    cut: Cutting,
) -> bool {
    let side = side_of(rect, horizontal);
    let middle = cut(side.0, side.1, ratio);
    at_most(side.0, middle) && at_most(middle, side.1)
}

/// Whether an arithmetic puts every cut below a node between the ends of the side
/// that it divides.
pub open spec fn cuts_all_between(node: JsonView, rect: Rect, cut: Cutting) -> bool
    decreases node,
{
    match (leaf_pane(node), node_split(node)) {
        (None, Some(split)) => {
            proof {
                split_parts_are_smaller(node);
            }
            let parts = cut_rect(rect, split.horizontal, split.ratio, cut);
            &&& cuts_between(rect, split.horizontal, split.ratio, cut)
            &&& cuts_all_between(split.first, parts.0, cut)
            &&& cuts_all_between(split.second, parts.1, cut)
        },
        _ => true,
    }
}

proof fn parts_lie_inside(rect: Rect, horizontal: bool, ratio: JsonNumber, cut: Cutting)
    requires
        is_upright(rect),
        cuts_between(rect, horizontal, ratio, cut),
    ensures
        ({
            let parts = cut_rect(rect, horizontal, ratio, cut);
            &&& lies_inside(parts.0, rect)
            &&& lies_inside(parts.1, rect)
            &&& forall|a: Rect, b: Rect|
                lies_inside(a, parts.0) && lies_inside(b, parts.1) ==> #[trigger] lie_apart(a, b)
                    && lie_apart(b, a)
        }),
{
}

proof fn leaves_lie_inside(node: JsonView, rect: Rect, cut: Cutting, found: Map<i64, Rect>)
    requires
        is_upright(rect),
        cuts_all_between(node, rect, cut),
    ensures
        ({
            let rects = rects_of(node, rect, cut, found);
            &&& forall|pane: i64| #[trigger]
                leaf_panes(node).contains(pane) ==> rects.contains_key(pane) && lies_inside(
                    rects[pane],
                    rect,
                )
            &&& forall|pane: i64|
                !#[trigger] leaf_panes(node).contains(pane) ==> rects.contains_key(pane)
                    == found.contains_key(pane) && rects[pane] == found[pane]
        }),
    decreases node,
{
    match (leaf_pane(node), node_split(node)) {
        (None, Some(split)) => {
            split_parts_are_smaller(node);
            parts_lie_inside(rect, split.horizontal, split.ratio, cut);
            let parts = cut_rect(rect, split.horizontal, split.ratio, cut);
            let between = rects_of(split.first, parts.0, cut, found);
            let rects = rects_of(node, rect, cut, found);
            leaves_lie_inside(split.first, parts.0, cut, found);
            leaves_lie_inside(split.second, parts.1, cut, between);
            assert forall|pane: i64| #[trigger] leaf_panes(node).contains(pane) implies
                rects.contains_key(pane) && lies_inside(rects[pane], rect) by {
                if !leaf_panes(split.second).contains(pane) {
                    assert(leaf_panes(split.first).contains(pane));
                }
            }
            assert forall|pane: i64| !#[trigger] leaf_panes(node).contains(pane) implies
                rects.contains_key(pane) == found.contains_key(pane) && rects[pane]
                == found[pane] by {
                assert(!leaf_panes(split.first).contains(pane));
                assert(!leaf_panes(split.second).contains(pane));
            }
        },
        _ => {},
    }
}

proof fn leaves_lie_apart(
    node: JsonView,
    rect: Rect,
    cut: Cutting,
    found: Map<i64, Rect>,
    a: i64,
    b: i64,
)
    requires
        is_upright(rect),
        cuts_all_between(node, rect, cut),
        leaf_panes(node).contains(a),
        leaf_panes(node).contains(b),
        a != b,
    ensures
        lie_apart(
            rects_of(node, rect, cut, found)[a],
            rects_of(node, rect, cut, found)[b],
        ),
    decreases node,
{
    match (leaf_pane(node), node_split(node)) {
        (None, Some(split)) => {
            split_parts_are_smaller(node);
            parts_lie_inside(rect, split.horizontal, split.ratio, cut);
            let parts = cut_rect(rect, split.horizontal, split.ratio, cut);
            let between = rects_of(split.first, parts.0, cut, found);
            leaves_lie_inside(split.first, parts.0, cut, found);
            leaves_lie_inside(split.second, parts.1, cut, between);
            let second = leaf_panes(split.second);
            if second.contains(a) && second.contains(b) {
                leaves_lie_apart(split.second, parts.1, cut, between, a, b);
            } else if !second.contains(a) && !second.contains(b) {
                assert(leaf_panes(split.first).contains(a));
                assert(leaf_panes(split.first).contains(b));
                leaves_lie_apart(split.first, parts.0, cut, found, a, b);
            } else {
                assert(second.contains(a) || leaf_panes(split.first).contains(a));
                assert(second.contains(b) || leaf_panes(split.first).contains(b));
            }
        },
        _ => {},
    }
}

/// Under an arithmetic that puts each cut between its ends, every pane of a layout
/// lies inside the tab, and no two panes overlap.
pub proof fn panes_of_a_layout_do_not_overlap(layout: JsonView, cut: Cutting, a: i64, b: i64)
    requires
        cuts_all_between(layout, unit_rect(), cut),
        layout_rects(layout, cut).contains_key(a),
        layout_rects(layout, cut).contains_key(b),
    ensures
        lies_inside(layout_rects(layout, cut)[a], unit_rect()),
        a != b ==> lie_apart(layout_rects(layout, cut)[a], layout_rects(layout, cut)[b]),
{
    leaves_lie_inside(layout, unit_rect(), cut, Map::empty());
    assert(leaf_panes(layout).contains(a));
    assert(leaf_panes(layout).contains(b));
    if a != b {
        leaves_lie_apart(layout, unit_rect(), cut, Map::empty(), a, b);
    }
}

/// Whether all the coordinates of a probe are finite.
pub open spec fn probe_is_finite(probe: Probe) -> bool {
    &&& is_finite(probe.near)
    &&& is_finite(probe.far)
    &&& is_finite(probe.low)
    &&& is_finite(probe.high)
    &&& is_finite(probe.other_low)
    &&& is_finite(probe.other_high)
}

/// Whether the rectangles of a probe overlap across the direction.
pub open spec fn probe_overlaps(probe: Probe) -> bool {
    &&& below(probe.low, probe.high)
    &&& below(probe.low, probe.other_high)
    &&& below(probe.other_low, probe.high)
    &&& below(probe.other_low, probe.other_high)
}

/// Whether a measure of a probe agrees with the order of its coordinates: the
/// limit tolerates, a gap is 0 where the sides meet and positive where they lie
/// apart in the direction, and the overlap is positive just where there is one.
pub open spec fn agrees_with_order(probe: Probe, measure: Measure) -> bool {
    let (from, to) = if probe.before {
        (probe.far, probe.near)
    } else {
        (probe.near, probe.far)
    };
    &&& !is_nan(measure.limit)
    &&& !is_nan(measure.negative_overlap)
    &&& if probe.before {
        at_most(probe.near, measure.limit)
    } else {
        at_most(measure.limit, probe.near)
    }
    &&& order_key(from) == order_key(to) ==> order_key(measure.gap) == 0
    &&& below(from, to) ==> order_key(measure.gap) > 0
    &&& order_key(measure.negative_overlap) < 0 <==> probe_overlaps(probe)
}

/// Whether an arithmetic agrees with the order of finite coordinates.
pub open spec fn keeps_order(measuring: Measuring) -> bool {
    forall|probe: Probe|
        probe_is_finite(probe) ==> agrees_with_order(probe, #[trigger] measuring(probe))
}

/// Whether an arithmetic tolerates less than the distance from a side to two
/// coordinates on either side of it.
pub open spec fn tolerates_less(measuring: Measuring, side: u64, low: u64, high: u64) -> bool {
    forall|probe: Probe|
        probe_is_finite(probe) && probe.near == side ==> {
            let limit = (#[trigger] measuring(probe)).limit;
            if probe.before {
                below(limit, high)
            } else {
                below(low, limit)
            }
        }
}

/// Whether a pane can be split at a coordinate so that its halves are neighbours:
/// the coordinates are finite, the pane has an extent and overlaps no other pane
/// but the new one, the cut lies in the middle, and the tolerance is smaller than
/// either half.
pub open spec fn splits_cleanly<K>(
    rects: Map<K, Rect>,
    target: K,
    new: K,
    horizontal: bool,
    middle: u64,
    measuring: Measuring,
) -> bool {
    let rect = rects[target];
    let side = side_of(rect, horizontal);
    let across = side_of(rect, !horizontal);
    &&& target != new
    &&& rects.contains_key(target)
    &&& is_finite(middle)
    &&& below(side.0, middle)
    &&& below(middle, side.1)
    &&& below(across.0, across.1)
    &&& tolerates_less(measuring, middle, side.0, side.1)
    &&& forall|pane: K| #[trigger]
        rects.contains_key(pane) ==> rect_is_finite(rects[pane]) && is_upright(rects[pane])
    &&& forall|pane: K| #[trigger]
        rects.contains_key(pane) && pane != target && pane != new ==> lie_apart(
            rects[pane],
            rect,
        )
}

/// The direction in which the new half of a split lies.
pub open spec fn forward(horizontal: bool) -> Direction {
    if horizontal {
        Direction::Right
    } else {
        Direction::Down
    }
}

/// The direction in which the first half of a split lies from the new one.
pub open spec fn backward(horizontal: bool) -> Direction {
    if horizontal {
        Direction::Left
    } else {
        Direction::Up
    }
}

/// The rectangles once a pane is split.
pub open spec fn split_rects<K>(
    rects: Map<K, Rect>,
    target: K,
    new: K,
    horizontal: bool,
    middle: u64,
) -> Map<K, Rect> {
    let (first, second) = parts_at(rects[target], horizontal, middle);
    rects.insert(target, first).insert(new, second)
}

/// By an arithmetic that agrees with the order of coordinates, the new half of a
/// split is the nearest pane beside the first half in the direction of the split,
/// and the first half the nearest beside the new one in the opposite direction.
pub proof fn halves_are_neighbours<K>(
    rects: Map<K, Rect>,
    target: K,
    new: K,
    horizontal: bool,
    middle: u64,
    measuring: Measuring,
    precedes: spec_fn(K, K) -> bool,
)
    requires
        total_ordering(precedes),
        keeps_order(measuring),
        splits_cleanly(rects, target, new, horizontal, middle, measuring),
    ensures
        ({
            let after = split_rects(rects, target, new, horizontal, middle);
            &&& nearest_beside(forward(horizontal), target, after, measuring, precedes, new)
            &&& nearest_beside(backward(horizontal), new, after, measuring, precedes, target)
        }),
{
    let after = split_rects(rects, target, new, horizontal, middle);
    let d = forward(horizontal);
    let back = backward(horizontal);
    let there = probe_of(d, after[target], after[new]);
    let here = probe_of(back, after[new], after[target]);
    assert(rect_is_finite(rects[target]));
    assert(agrees_with_order(there, measuring(there)));
    assert(agrees_with_order(here, measuring(here)));
    assert(beside(d, target, after, measuring, new));
    assert(beside(back, new, after, measuring, target));
    assert forall|other: K| #[trigger] beside(d, target, after, measuring, other) implies ({
        let its = measuring(probe_of(d, after[target], after[other]));
        is_better(measuring(there), its) || (is_level(
            measuring(there),
            its,
        ) && precedes(new, other))
    }) by {
        if other == new {
            assert(precedes(new, new));
        } else {
            assert(rects.contains_key(other));
            let probe = probe_of(d, after[target], after[other]);
            assert(agrees_with_order(probe, measuring(probe)));
        }
    }
    assert forall|other: K| #[trigger] beside(back, new, after, measuring, other) implies ({
        let its = measuring(probe_of(back, after[new], after[other]));
        is_better(measuring(here), its) || (is_level(
            measuring(here),
            its,
        ) && precedes(target, other))
    }) by {
        if other == target {
            assert(precedes(target, target));
        } else {
            assert(rects.contains_key(other));
            let probe = probe_of(back, after[new], after[other]);
            assert(agrees_with_order(probe, measuring(probe)));
        }
    }
}

/// A split keeps panes apart: where no two overlapped before, and the cut lies
/// between the ends of the side that it divides, no two overlap after.
pub proof fn split_keeps_panes_apart<K>(
    rects: Map<K, Rect>,
    target: K,
    new: K,
    horizontal: bool,
    middle: u64,
    a: K,
    b: K,
)
    requires
        target != new,
        rects.contains_key(target),
        !rects.contains_key(new),
        ({
            let side = side_of(rects[target], horizontal);
            at_most(side.0, middle) && at_most(middle, side.1)
        }),
        forall|p: K, q: K|
            #![trigger rects.contains_key(p), rects.contains_key(q)]
            rects.contains_key(p) && rects.contains_key(q) && p != q ==> lie_apart(
                rects[p],
                rects[q],
            ),
        split_rects(rects, target, new, horizontal, middle).contains_key(a),
        split_rects(rects, target, new, horizontal, middle).contains_key(b),
        a != b,
    ensures
        lie_apart(
            split_rects(rects, target, new, horizontal, middle)[a],
            split_rects(rects, target, new, horizontal, middle)[b],
        ),
{
    assert(a == target || a == new || rects.contains_key(a));
    assert(b == target || b == new || rects.contains_key(b));
}

/// A rectangle with its two axes exchanged.
pub open spec fn transposed(rect: Rect) -> Rect {
    Rect { x0: rect.y0, y0: rect.x0, x1: rect.y1, y1: rect.x1 }
}

/// A direction with the two axes exchanged.
pub open spec fn transposed_direction(direction: Direction) -> Direction {
    match direction {
        Direction::Left => Direction::Up,
        Direction::Up => Direction::Left,
        Direction::Right => Direction::Down,
        Direction::Down => Direction::Right,
    }
}

/// Rectangles with their two axes exchanged.
pub open spec fn transposed_rects<K>(rects: Map<K, Rect>) -> Map<K, Rect> {
    rects.map_values(|rect: Rect| transposed(rect))
}

proof fn transposed_neighbours_are_neighbours<K>(
    direction: Direction,
    current: K,
    rects: Map<K, Rect>,
    measuring: Measuring,
    precedes: spec_fn(K, K) -> bool,
    pick: Option<K>,
)
    requires
        nearest_or_none(direction, current, rects, measuring, precedes, pick),
    ensures
        nearest_or_none(
            transposed_direction(direction),
            current,
            transposed_rects(rects),
            measuring,
            precedes,
            pick,
        ),
{
    let d = transposed_direction(direction);
    let turned = transposed_rects(rects);
    assert forall|pane: K| #[trigger] beside(d, current, turned, measuring, pane) == beside(
        direction,
        current,
        rects,
        measuring,
        pane,
    ) by {}
}

/// The search does not prefer an axis: whatever the arithmetic, the search in a
/// direction comes to the same as the search in the direction with the axes
/// exchanged, over the rectangles with their axes exchanged.
pub proof fn search_knows_no_axis<K>(
    name: Seq<char>,
    other_name: Seq<char>,
    current: K,
    rects: Map<K, Rect>,
    measuring: Measuring,
    precedes: spec_fn(K, K) -> bool,
    panes: Seq<K>,
    probes: Seq<Probe>,
    pick: Option<K>,
    other_panes: Seq<K>,
    other_probes: Seq<Probe>,
    other_pick: Option<K>,
)
    requires
        total_ordering(precedes),
        direction_named(name) is Some,
        direction_named(other_name) == Some(transposed_direction(direction_named(name)->0)),
        searches(panes, probes, name, current, rects),
        is_pick(panes, probes, probes.map_values(measuring), precedes, pick),
        searches(other_panes, other_probes, other_name, current, transposed_rects(rects)),
        is_pick(
            other_panes,
            other_probes,
            other_probes.map_values(measuring),
            precedes,
            other_pick,
        ),
    ensures
        pick == other_pick,
{
    let d = direction_named(name)->0;
    let turned = transposed_rects(rects);
    pick_is_nearest(panes, probes, name, current, rects, measuring, precedes, pick);
    pick_is_nearest(
        other_panes,
        other_probes,
        other_name,
        current,
        turned,
        measuring,
        precedes,
        other_pick,
    );
    transposed_neighbours_are_neighbours(d, current, rects, measuring, precedes, pick);
    pick_is_unique(
        transposed_direction(d),
        current,
        turned,
        measuring,
        precedes,
        pick,
        other_pick,
    );
}

/// The bit pattern of the opposite of a double.
pub open spec fn negated(bits: u64) -> u64 {
    if bits < 0x8000_0000_0000_0000 {
        (bits + 0x8000_0000_0000_0000) as u64
    } else {
        (bits - 0x8000_0000_0000_0000) as u64
    }
}

/// A rectangle mirrored from left to right.
pub open spec fn mirrored(rect: Rect) -> Rect {
    Rect { x0: negated(rect.x1), y0: rect.y0, x1: negated(rect.x0), y1: rect.y1 }
}

/// Rectangles mirrored from left to right.
pub open spec fn mirrored_rects<K>(rects: Map<K, Rect>) -> Map<K, Rect> {
    rects.map_values(|rect: Rect| mirrored(rect))
}

/// A probe of mirrored rectangles in the opposite direction.
pub open spec fn mirrored_probe(probe: Probe) -> Probe {
    Probe {
        before: !probe.before,
        near: negated(probe.near),
        far: negated(probe.far),
        ..probe
    }
}

/// Whether an arithmetic measures finite coordinates and their opposites alike:
/// the limit becomes its opposite, the gap and the overlap stay.
pub open spec fn measures_evenly(measuring: Measuring) -> bool {
    forall|probe: Probe|
        probe_is_finite(probe) ==> {
            let measure = measuring(probe);
            let other = measuring(#[trigger] mirrored_probe(probe));
            &&& !is_nan(measure.limit)
            &&& !is_nan(other.limit)
            &&& !is_nan(measure.negative_overlap)
            &&& !is_nan(other.negative_overlap)
            &&& order_key(other.limit) == -order_key(measure.limit)
            &&& order_key(other.gap) == order_key(measure.gap)
            &&& order_key(other.negative_overlap) == order_key(measure.negative_overlap)
        }
}

proof fn mirrored_measures(
    direction: Direction,
    current: Rect,
    other: Rect,
    measuring: Measuring,
)
    requires
        direction is Left || direction is Right,
        rect_is_finite(current),
        rect_is_finite(other),
        measures_evenly(measuring),
    ensures
        ({
            let opposite = if direction is Left {
                Direction::Right
            } else {
                Direction::Left
            };
            let probe = probe_of(direction, current, other);
            let mirror = probe_of(opposite, mirrored(current), mirrored(other));
            &&& is_candidate(mirror, measuring(mirror)) == is_candidate(probe, measuring(probe))
            &&& order_key(measuring(mirror).gap) == order_key(measuring(probe).gap)
            &&& order_key(measuring(mirror).negative_overlap) == order_key(
                measuring(probe).negative_overlap,
            )
        }),
{
    let opposite = if direction is Left {
        Direction::Right
    } else {
        Direction::Left
    };
    let probe = probe_of(direction, current, other);
    let mirror = probe_of(opposite, mirrored(current), mirrored(other));
    assert(mirror == mirrored_probe(probe));
}

proof fn mirrored_neighbours_are_neighbours<K>(
    direction: Direction,
    opposite: Direction,
    current: K,
    rects: Map<K, Rect>,
    measuring: Measuring,
    precedes: spec_fn(K, K) -> bool,
    pick: Option<K>,
)
    requires
        direction is Left && opposite is Right || direction is Right && opposite is Left,
        forall|pane: K| #[trigger] rects.contains_key(pane) ==> rect_is_finite(rects[pane]),
        measures_evenly(measuring),
        nearest_or_none(direction, current, rects, measuring, precedes, pick),
    ensures
        nearest_or_none(opposite, current, mirrored_rects(rects), measuring, precedes, pick),
{
    let mirror = mirrored_rects(rects);
    assert forall|pane: K| #[trigger] beside(opposite, current, mirror, measuring, pane) == beside(
        direction,
        current,
        rects,
        measuring,
        pane,
    ) by {
        if rects.contains_key(current) && rects.contains_key(pane) {
            mirrored_measures(direction, rects[current], rects[pane], measuring);
        }
    }
    if let Some(pane) = pick {
        mirrored_measures(direction, rects[current], rects[pane], measuring);
        assert forall|other: K| #[trigger]
            beside(opposite, current, mirror, measuring, other) implies ({
            let mine = measuring(probe_of(opposite, mirror[current], mirror[pane]));
            let its = measuring(probe_of(opposite, mirror[current], mirror[other]));
            is_better(mine, its) || (is_level(mine, its)
                && precedes(pane, other))
        }) by {
            assert(beside(direction, current, rects, measuring, other));
            mirrored_measures(direction, rects[current], rects[other], measuring);
        }
    }
}

/// The search does not prefer a side: by an arithmetic that measures coordinates
/// and their opposites alike, the search to the left comes to the same as the
/// search to the right over the mirrored rectangles, and the other way round.
pub proof fn search_knows_no_side<K>(
    name: Seq<char>,
    other_name: Seq<char>,
    current: K,
    rects: Map<K, Rect>,
    measuring: Measuring,
    precedes: spec_fn(K, K) -> bool,
    panes: Seq<K>,
    probes: Seq<Probe>,
    pick: Option<K>,
    other_panes: Seq<K>,
    other_probes: Seq<Probe>,
    other_pick: Option<K>,
)
    requires
        total_ordering(precedes),
        direction_named(name) == Some(Direction::Left) && direction_named(other_name) == Some(
            Direction::Right,
        ) || direction_named(name) == Some(Direction::Right) && direction_named(other_name) == Some(
            Direction::Left,
        ),
        forall|pane: K| #[trigger] rects.contains_key(pane) ==> rect_is_finite(rects[pane]),
        measures_evenly(measuring),
        searches(panes, probes, name, current, rects),
        is_pick(panes, probes, probes.map_values(measuring), precedes, pick),
        searches(other_panes, other_probes, other_name, current, mirrored_rects(rects)),
        is_pick(
            other_panes,
            other_probes,
            other_probes.map_values(measuring),
            precedes,
            other_pick,
        ),
    ensures
        pick == other_pick,
{
    let d = direction_named(name)->0;
    let opposite = direction_named(other_name)->0;
    let mirror = mirrored_rects(rects);
    pick_is_nearest(panes, probes, name, current, rects, measuring, precedes, pick);
    pick_is_nearest(
        other_panes,
        other_probes,
        other_name,
        current,
        mirror,
        measuring,
        precedes,
        other_pick,
    );
    mirrored_neighbours_are_neighbours(d, opposite, current, rects, measuring, precedes, pick);
    pick_is_unique(opposite, current, mirror, measuring, precedes, pick, other_pick);
}

/// Whether rectangles are others under new ids: different panes have different
/// new ids, the current pane too, and the new ids keep the order of the old ones.
pub open spec fn is_renaming<K, L>(
    rename: spec_fn(K) -> L,
    current: K,
    rects: Map<K, Rect>,
    renamed: Map<L, Rect>,
    precedes: spec_fn(K, K) -> bool,
    renamed_precedes: spec_fn(L, L) -> bool,
) -> bool {
    &&& forall|a: K, b: K|
        #![trigger rename(a), rename(b)]
        (rects.contains_key(a) || a == current) && rects.contains_key(b) && rename(a) == rename(b)
            ==> a == b
    &&& forall|pane: K|
        #![trigger rects.contains_key(pane)]
        #![trigger rename(pane)]
        rects.contains_key(pane) ==> renamed.contains_key(rename(pane)) && renamed[rename(pane)]
            == rects[pane]
    &&& forall|id: L| #[trigger]
        renamed.contains_key(id) ==> exists|pane: K|
            rects.contains_key(pane) && #[trigger] rename(pane) == id
    &&& forall|a: K, b: K| #[trigger]
        precedes(a, b) && rects.contains_key(a) && rects.contains_key(b) ==> renamed_precedes(
            rename(a),
            rename(b),
        )
}

/// A pane under its new id.
pub open spec fn renamed_pick<K, L>(rename: spec_fn(K) -> L, pick: Option<K>) -> Option<L> {
    match pick {
        Some(pane) => Some(rename(pane)),
        None => None,
    }
}

proof fn renamed_neighbours_are_neighbours<K, L>(
    direction: Direction,
    rename: spec_fn(K) -> L,
    current: K,
    rects: Map<K, Rect>,
    renamed: Map<L, Rect>,
    measuring: Measuring,
    precedes: spec_fn(K, K) -> bool,
    renamed_precedes: spec_fn(L, L) -> bool,
    pick: Option<K>,
)
    requires
        is_renaming(rename, current, rects, renamed, precedes, renamed_precedes),
        nearest_or_none(direction, current, rects, measuring, precedes, pick),
    ensures
        nearest_or_none(
            direction,
            rename(current),
            renamed,
            measuring,
            renamed_precedes,
            renamed_pick(rename, pick),
        ),
{
    let here = rename(current);
    assert forall|id: L| #[trigger] beside(direction, here, renamed, measuring, id) implies exists|
        pane: K,
    | #[trigger]
        rename(pane) == id && beside(direction, current, rects, measuring, pane) by {
        let pane = choose|pane: K| rects.contains_key(pane) && #[trigger] rename(pane) == id;
        let found = choose|found: K| rects.contains_key(found) && #[trigger] rename(found) == here;
        assert(rename(current) == rename(found));
        assert(found == current);
        assert(rename(pane) == id && beside(direction, current, rects, measuring, pane));
    }
    if let Some(pane) = pick {
        assert(beside(direction, current, rects, measuring, pane));
        assert(rects.contains_key(current) && rects.contains_key(pane));
        assert(rename(pane) != here);
        assert(beside(direction, here, renamed, measuring, rename(pane)));
        assert forall|id: L| #[trigger] beside(direction, here, renamed, measuring, id) implies ({
            let mine = measuring(probe_of(direction, renamed[here], renamed[rename(pane)]));
            let its = measuring(probe_of(direction, renamed[here], renamed[id]));
            is_better(mine, its) || (is_level(mine, its) && renamed_precedes(rename(pane), id))
        }) by {
            let other = choose|other: K| #[trigger]
                rename(other) == id && beside(direction, current, rects, measuring, other);
            assert(beside(direction, current, rects, measuring, other));
            assert(renamed[rename(other)] == rects[other]);
        }
    }
}

/// The search knows panes by their place, not by their ids: where rectangles are
/// others under new ids that keep the order, the search among them comes to the
/// same pane under its new id. So the search by public ids and the search by
/// internal ones agree.
pub proof fn search_knows_no_names<K, L>(
    name: Seq<char>,
    rename: spec_fn(K) -> L,
    current: K,
    rects: Map<K, Rect>,
    renamed: Map<L, Rect>,
    measuring: Measuring,
    precedes: spec_fn(K, K) -> bool,
    renamed_precedes: spec_fn(L, L) -> bool,
    panes: Seq<K>,
    probes: Seq<Probe>,
    pick: Option<K>,
    other_panes: Seq<L>,
    other_probes: Seq<Probe>,
    other_pick: Option<L>,
)
    requires
        total_ordering(renamed_precedes),
        is_renaming(rename, current, rects, renamed, precedes, renamed_precedes),
        searches(panes, probes, name, current, rects),
        is_pick(panes, probes, probes.map_values(measuring), precedes, pick),
        searches(other_panes, other_probes, name, rename(current), renamed),
        is_pick(
            other_panes,
            other_probes,
            other_probes.map_values(measuring),
            renamed_precedes,
            other_pick,
        ),
    ensures
        other_pick == renamed_pick(rename, pick),
{
    pick_is_nearest(panes, probes, name, current, rects, measuring, precedes, pick);
    pick_is_nearest(
        other_panes,
        other_probes,
        name,
        rename(current),
        renamed,
        measuring,
        renamed_precedes,
        other_pick,
    );
    if let Some(d) = direction_named(name) {
        renamed_neighbours_are_neighbours(
            d,
            rename,
            current,
            rects,
            renamed,
            measuring,
            precedes,
            renamed_precedes,
            pick,
        );
        pick_is_unique(
            d,
            rename(current),
            renamed,
            measuring,
            renamed_precedes,
            other_pick,
            renamed_pick(rename, pick),
        );
    }
}

} // verus!
