//! The pane beside another one.
//!
//! The search lists, for every other pane, the coordinates that matter in the
//! given direction. The caller's arithmetic measures them, and the nearest pane
//! that overlaps is picked.

use vstd::prelude::*;

use crate::direction::{direction_named, read_direction, Direction};
use crate::layout::Rect;
use crate::order::{text_order, text_order_is_total, text_precedes, texts};
use crate::panes::opt_text;
use crate::tables::{NumberMap, TextMap};
use crate::text::same_text;

verus! {

/// The place of a double, given by its bit pattern, in the order of doubles.
/// Both zeros have the same place.
pub open spec fn order_key(bits: u64) -> int {
    if bits < 0x8000_0000_0000_0000 {
        bits as int
    } else {
        0x8000_0000_0000_0000 - bits as int
    }
}

/// Whether a bit pattern is that of no number.
pub open spec fn is_nan(bits: u64) -> bool {
    ||| 0x7FF0_0000_0000_0000 < bits < 0x8000_0000_0000_0000
    ||| 0xFFF0_0000_0000_0000 < bits
}

fn double_key(bits: u64) -> (r: i64)
    ensures
        r == order_key(bits),
{
    if bits < 0x8000_0000_0000_0000 {
        bits as i64
    } else {
        -((bits - 0x8000_0000_0000_0000) as i64)
    }
}

fn not_a_number(bits: u64) -> (r: bool)
    ensures
        r == is_nan(bits),
{
    (0x7FF0_0000_0000_0000 < bits && bits < 0x8000_0000_0000_0000) || 0xFFF0_0000_0000_0000 < bits
}

/// The coordinates of two rectangles that matter in a direction.
#[derive(Clone, Copy, Debug, PartialEq, Eq, Structural)]
pub struct Probe {
    /// Whether the other rectangle is looked for before the current one, to its
    /// left or above it, rather than behind it.
    pub before: bool,
    /// The side of the current rectangle that faces the direction.
    pub near: u64,
    /// The side of the other rectangle that faces the current one.
    pub far: u64,
    /// The ends of the current rectangle across the direction.
    pub low: u64,
    pub high: u64,
    /// The ends of the other rectangle across the direction.
    pub other_low: u64,
    pub other_high: u64,
}

/// What the arithmetic makes of a probe.
#[derive(Clone, Copy, Debug, PartialEq, Eq, Structural)]
pub struct Measure {
    /// The near side, moved by the tolerance towards the current rectangle: up
    /// where the other rectangle is looked for before it, else down.
    pub limit: u64,
    /// The distance from the near side to the far side, in the direction.
    pub gap: u64,
    /// The length over which the rectangles overlap across the direction,
    /// negated.
    pub negative_overlap: u64,
}

/// The coordinates of two rectangles that matter in a direction.
pub open spec fn probe_of(direction: Direction, current: Rect, other: Rect) -> Probe {
    match direction {
        Direction::Left => Probe {
            before: true,
            near: current.x0,
            far: other.x1,
            low: current.y0,
            high: current.y1,
            other_low: other.y0,
            other_high: other.y1,
        },
        Direction::Right => Probe {
            before: false,
            near: current.x1,
            far: other.x0,
            low: current.y0,
            high: current.y1,
            other_low: other.y0,
            other_high: other.y1,
        },
        Direction::Up => Probe {
            before: true,
            near: current.y0,
            far: other.y1,
            low: current.x0,
            high: current.x1,
            other_low: other.x0,
            other_high: other.x1,
        },
        Direction::Down => Probe {
            before: false,
            near: current.y1,
            far: other.y0,
            low: current.x0,
            high: current.x1,
            other_low: other.x0,
            other_high: other.x1,
        },
    }
}

fn probe(direction: Direction, current: Rect, other: Rect) -> (r: Probe)
    ensures
        r == probe_of(direction, current, other),
{
    match direction {
        Direction::Left => Probe {
            before: true,
            near: current.x0,
            far: other.x1,
            low: current.y0,
            high: current.y1,
            other_low: other.y0,
            other_high: other.y1,
        },
        Direction::Right => Probe {
            before: false,
            near: current.x1,
            far: other.x0,
            low: current.y0,
            high: current.y1,
            other_low: other.y0,
            other_high: other.y1,
        },
        Direction::Up => Probe {
            before: true,
            near: current.y0,
            far: other.y1,
            low: current.x0,
            high: current.x1,
            other_low: other.x0,
            other_high: other.x1,
        },
        Direction::Down => Probe {
            before: false,
            near: current.y1,
            far: other.y0,
            low: current.x0,
            high: current.x1,
            other_low: other.x0,
            other_high: other.x1,
        },
    }
}

/// Whether the other rectangle lies on the side that the direction asks for and
/// overlaps the current one across it. Nothing compares with what is no number.
pub open spec fn is_candidate(probe: Probe, measure: Measure) -> bool {
    &&& !is_nan(probe.far)
    &&& !is_nan(measure.limit)
    &&& if probe.before {
        order_key(probe.far) <= order_key(measure.limit)
    } else {
        order_key(probe.far) >= order_key(measure.limit)
    }
    &&& !is_nan(measure.negative_overlap)
    &&& order_key(measure.negative_overlap) < 0
}

fn candidate(probe: Probe, measure: Measure) -> (r: bool)
    ensures
        r == is_candidate(probe, measure),
{
    let far = double_key(probe.far);
    let limit = double_key(measure.limit);
    !not_a_number(probe.far) && !not_a_number(measure.limit) && (if probe.before {
        far <= limit
    } else {
        far >= limit
    }) && !not_a_number(measure.negative_overlap) && double_key(measure.negative_overlap) < 0
}

/// Whether one measure is better than another: the smaller gap first, then the
/// longer overlap.
pub open spec fn is_better(a: Measure, b: Measure) -> bool {
    ||| order_key(a.gap) < order_key(b.gap)
    ||| order_key(a.gap) == order_key(b.gap) && order_key(a.negative_overlap) < order_key(
        b.negative_overlap,
    )
}

/// Whether two measures are equally good.
pub open spec fn is_level(a: Measure, b: Measure) -> bool {
    &&& order_key(a.gap) == order_key(b.gap)
    &&& order_key(a.negative_overlap) == order_key(b.negative_overlap)
}

fn better(a: Measure, b: Measure) -> (r: bool)
    ensures
        r == is_better(a, b),
{
    let gap_a = double_key(a.gap);
    let gap_b = double_key(b.gap);
    gap_a < gap_b || (gap_a == gap_b && double_key(a.negative_overlap) < double_key(
        b.negative_overlap,
    ))
}

fn level(a: Measure, b: Measure) -> (r: bool)
    ensures
        r == is_level(a, b),
{
    double_key(a.gap) == double_key(b.gap) && double_key(a.negative_overlap) == double_key(
        b.negative_overlap,
    )
}

/// The panes beside which a pane is looked for, by their public ids, each with
/// its probe.
pub struct PublicSearch {
    pub panes: Vec<String>,
    pub probes: Vec<Probe>,
}

/// The panes beside which a pane is looked for, by their internal ids, each
/// with its probe.
pub struct InternalSearch {
    pub panes: Vec<i64>,
    pub probes: Vec<Probe>,
}

impl PublicSearch {
    /// Whether every pane has a probe.
    pub open spec fn well_formed(self) -> bool {
        self.panes@.len() == self.probes@.len()
    }
}

impl InternalSearch {
    /// Whether every pane has a probe.
    pub open spec fn well_formed(self) -> bool {
        self.panes@.len() == self.probes@.len()
    }
}

/// Whether a search lists every pane but the current one, once, with its probe.
/// It lists none where the direction has no name or the current pane no
/// rectangle.
pub open spec fn searches<K>(
    panes: Seq<K>,
    probes: Seq<Probe>,
    direction: Seq<char>,
    current: K,
    rects: Map<K, Rect>,
) -> bool {
    &&& panes.len() == probes.len()
    &&& panes.no_duplicates()
    &&& match direction_named(direction) {
        Some(d) if rects.contains_key(current) => {
            &&& forall|pane: K| #[trigger]
                panes.contains(pane) <==> rects.contains_key(pane) && pane != current
            &&& forall|i: int|
                0 <= i < panes.len() ==> probes[i] == probe_of(
                    d,
                    rects[current],
                    rects[#[trigger] panes[i]],
                )
        },
        _ => panes.len() == 0,
    }
}

/// Whether the pane at a place is the best candidate: none is better, and those
/// that are as good do not stand before it.
pub open spec fn is_best<K>(
    panes: Seq<K>,
    probes: Seq<Probe>,
    measures: Seq<Measure>,
    precedes: spec_fn(K, K) -> bool,
    best: int,
) -> bool {
    &&& 0 <= best < panes.len()
    &&& is_candidate(probes[best], measures[best])
    &&& forall|i: int|
        0 <= i < panes.len() && is_candidate(#[trigger] probes[i], measures[i]) ==> is_better(
            measures[best],
            measures[i],
        ) || (is_level(measures[best], measures[i]) && precedes(panes[best], panes[i]))
}

/// Whether there is no candidate.
pub open spec fn no_candidate(probes: Seq<Probe>, measures: Seq<Measure>) -> bool {
    forall|i: int| 0 <= i < probes.len() ==> !is_candidate(#[trigger] probes[i], measures[i])
}

/// Whether a pane is what a search comes to: the best candidate, none where there
/// is none.
pub open spec fn is_pick<K>(
    panes: Seq<K>,
    probes: Seq<Probe>,
    measures: Seq<Measure>,
    precedes: spec_fn(K, K) -> bool,
    pick: Option<K>,
) -> bool {
    match pick {
        Some(pane) => exists|best: int|
            #![trigger panes[best]]
            is_best(panes, probes, measures, precedes, best) && pane == panes[best],
        None => no_candidate(probes, measures),
    }
}

/// Lists the panes other than the current one, with their probes.
pub fn search_public(direction: &str, current: &str, rects: &TextMap<Rect>) -> (r: PublicSearch)
    ensures
        searches(texts(r.panes@), r.probes@, direction@, current@, rects@),
{
    let mut panes: Vec<String> = Vec::new();
    let mut probes: Vec<Probe> = Vec::new();
    if let (Some(d), Some(here)) = (read_direction(direction), rects.get(current)) {
        let keys = rects.keys();
        let ghost all = texts(keys@);
        let mut i: usize = 0;
        while i < keys.len()
            invariant
                i <= keys.len(),
                all == texts(keys@),
                all.no_duplicates(),
                forall|key: Seq<char>| rects@.contains_key(key) <==> #[trigger] all.contains(key),
                direction_named(direction@) == Some(d),
                rects@.contains_key(current@),
                here@ == rects@[current@],
                panes@.len() == probes@.len(),
                texts(panes@).no_duplicates(),
                forall|pane: Seq<char>| #[trigger]
                    texts(panes@).contains(pane) <==> all.take(i as int).contains(pane) && pane
                        != current@,
                forall|k: int|
                    0 <= k < panes@.len() ==> probes@[k] == probe_of(
                        d,
                        rects@[current@],
                        rects@[#[trigger] texts(panes@)[k]],
                    ),
            decreases keys.len() - i,
        {
            let key = keys[i].as_str();
            let ghost before = texts(panes@);
            proof {
                assert(all[i as int] == key@);
                assert(all.contains(key@));
                let now = all.take(i + 1);
                assert forall|pane: Seq<char>| #[trigger]
                    now.contains(pane) <==> all.take(i as int).contains(pane) || pane == key@ by {
                    assert(now[i as int] == key@);
                    if all.take(i as int).contains(pane) {
                        let j = choose|j: int| 0 <= j < i && all.take(i as int)[j] == pane;
                        assert(now[j] == pane);
                    }
                    if now.contains(pane) {
                        let j = choose|j: int| 0 <= j < i + 1 && now[j] == pane;
                        if j < i {
                            assert(all.take(i as int)[j] == pane);
                        }
                    }
                }
                assert(!all.take(i as int).contains(key@));
            }
            if !same_text(key, current) {
                if let Some(rect) = rects.get(key) {
                    panes.push(keys[i].clone());
                    probes.push(probe(d, *here, *rect));
                    proof {
                        assert(texts(panes@) =~= before.push(key@));
                        assert forall|pane: Seq<char>| #[trigger]
                            texts(panes@).contains(pane) <==> before.contains(pane) || pane
                                == key@ by {
                            assert(texts(panes@)[before.len() as int] == key@);
                            if before.contains(pane) {
                                let j = choose|j: int| 0 <= j < before.len() && before[j] == pane;
                                assert(texts(panes@)[j] == pane);
                            }
                        }
                        assert(!before.contains(key@));
                    }
                }
            }
            i = i + 1;
        }
        proof {
            assert(all.take(i as int) =~= all);
        }
    }
    PublicSearch { panes, probes }
}

/// Picks the pane beside the current one: the best candidate, the pane with the
/// smaller id where several are equally good.
pub fn adjacent_public(search: &PublicSearch, measures: &Vec<Measure>) -> (r: Option<String>)
    requires
        search.well_formed(),
        measures@.len() == search.probes@.len(),
    ensures
        is_pick(texts(search.panes@), search.probes@, measures@, text_order(), opt_text(r)),
{
    let ghost panes = texts(search.panes@);
    let mut best: Option<usize> = None;
    let mut i: usize = 0;
    while i < search.panes.len()
        invariant
            i <= search.panes.len(),
            search.well_formed(),
            measures@.len() == search.probes@.len(),
            panes == texts(search.panes@),
            match best {
                Some(b) => b < i && is_best(
                    panes.take(i as int),
                    search.probes@.take(i as int),
                    measures@.take(i as int),
                    text_order(),
                    b as int,
                ),
                None => no_candidate(search.probes@.take(i as int), measures@),
            },
        decreases search.panes.len() - i,
    {
        let ghost old_best = best;
        if candidate(search.probes[i], measures[i]) {
            best = match best {
                Some(b) => {
                    if better(measures[i], measures[b]) || (level(measures[i], measures[b])
                        && text_precedes(search.panes[i].as_str(), search.panes[b].as_str())) {
                        Some(i)
                    } else {
                        Some(b)
                    }
                },
                None => Some(i),
            };
        }
        proof {
            text_order_is_total();
            assert(panes[i as int] == search.panes@[i as int]@);
            best_of_more(
                panes,
                search.probes@,
                measures@,
                text_order(),
                i as int,
                old_best,
                best,
            );
        }
        i = i + 1;
    }
    proof {
        assert(panes.take(i as int) =~= panes);
        assert(search.probes@.take(i as int) =~= search.probes@);
        assert(measures@.take(i as int) =~= measures@);
    }
    match best {
        Some(b) => {
            let pane = search.panes[b].clone();
            assert(pane@ == panes[b as int]);
            Some(pane)
        },
        None => None,
    }
}

/// The best of one more pane.
proof fn best_of_more<K>(
    panes: Seq<K>,
    probes: Seq<Probe>,
    measures: Seq<Measure>,
    precedes: spec_fn(K, K) -> bool,
    i: int,
    old_best: Option<usize>,
    best: Option<usize>,
)
    requires
        0 <= i < panes.len(),
        panes.len() == probes.len(),
        panes.len() == measures.len(),
        i <= usize::MAX,
        vstd::relations::total_ordering(precedes),
        match old_best {
            Some(b) => b < i && is_best(
                panes.take(i),
                probes.take(i),
                measures.take(i),
                precedes,
                b as int,
            ),
            None => no_candidate(probes.take(i), measures),
        },
        best == (if !is_candidate(probes[i], measures[i]) {
            old_best
        } else {
            match old_best {
                Some(b) => if is_better(measures[i], measures[b as int]) || (is_level(
                    measures[i],
                    measures[b as int],
                ) && precedes(panes[i], panes[b as int])) {
                    Some(i as usize)
                } else {
                    Some(b)
                },
                None => Some(i as usize),
            }
        }),
    ensures
        match best {
            Some(b) => b < i + 1 && is_best(
                panes.take(i + 1),
                probes.take(i + 1),
                measures.take(i + 1),
                precedes,
                b as int,
            ),
            None => no_candidate(probes.take(i + 1), measures),
        },
{
    let p = probes.take(i + 1);
    let m = measures.take(i + 1);
    assert forall|k: int| 0 <= k < i implies probes.take(i)[k] == #[trigger] p[k]
        && measures.take(i)[k] == m[k] && panes.take(i)[k] == panes.take(i + 1)[k] by {}
    match best {
        Some(b) => {
            assert forall|k: int| 0 <= k < i + 1 && is_candidate(#[trigger] p[k], m[k]) implies (
            is_better(m[b as int], m[k]) || (is_level(m[b as int], m[k]) && precedes(
                panes.take(i + 1)[b as int],
                panes.take(i + 1)[k],
            ))) by {
                if k < i {
                    assert(is_candidate(probes.take(i)[k], measures.take(i)[k]));
                    match old_best {
                        Some(o) => {
                            assert(precedes(panes[o as int], panes[o as int]));
                        },
                        None => {},
                    }
                } else {
                    assert(precedes(panes[i], panes[i]));
                    match old_best {
                        Some(o) => {
                            assert(precedes(panes[o as int], panes[i]) || precedes(
                                panes[i],
                                panes[o as int],
                            ));
                        },
                        None => {},
                    }
                }
            }
        },
        None => {},
    }
}

/// The order of pane numbers, as a relation.
pub open spec fn number_order() -> spec_fn(i64, i64) -> bool {
    |a: i64, b: i64| a <= b
}

/// Lists the panes other than the current one, with their probes.
pub fn search_internal(direction: &str, current: i64, rects: &NumberMap<Rect>) -> (r:
    InternalSearch)
    ensures
        searches(r.panes@, r.probes@, direction@, current, rects@),
{
    let mut panes: Vec<i64> = Vec::new();
    let mut probes: Vec<Probe> = Vec::new();
    if let (Some(d), Some(here)) = (read_direction(direction), rects.get(current)) {
        let keys = rects.keys();
        let mut i: usize = 0;
        while i < keys.len()
            invariant
                i <= keys.len(),
                keys@.no_duplicates(),
                forall|key: i64| rects@.contains_key(key) <==> #[trigger] keys@.contains(key),
                direction_named(direction@) == Some(d),
                rects@.contains_key(current),
                here@ == rects@[current],
                panes@.len() == probes@.len(),
                panes@.no_duplicates(),
                forall|pane: i64| #[trigger]
                    panes@.contains(pane) <==> keys@.take(i as int).contains(pane) && pane
                        != current,
                forall|k: int|
                    0 <= k < panes@.len() ==> probes@[k] == probe_of(
                        d,
                        rects@[current],
                        rects@[#[trigger] panes@[k]],
                    ),
            decreases keys.len() - i,
        {
            let key = keys[i];
            let ghost before = panes@;
            proof {
                assert(keys@.contains(key));
                let now = keys@.take(i + 1);
                assert forall|pane: i64| #[trigger]
                    now.contains(pane) <==> keys@.take(i as int).contains(pane) || pane == key by {
                    assert(now[i as int] == key);
                    if keys@.take(i as int).contains(pane) {
                        let j = choose|j: int| 0 <= j < i && keys@.take(i as int)[j] == pane;
                        assert(now[j] == pane);
                    }
                    if now.contains(pane) {
                        let j = choose|j: int| 0 <= j < i + 1 && now[j] == pane;
                        if j < i {
                            assert(keys@.take(i as int)[j] == pane);
                        }
                    }
                }
                assert(!keys@.take(i as int).contains(key));
            }
            if key != current {
                if let Some(rect) = rects.get(key) {
                    panes.push(key);
                    probes.push(probe(d, *here, *rect));
                    proof {
                        assert forall|pane: i64| #[trigger]
                            panes@.contains(pane) <==> before.contains(pane) || pane == key by {
                            assert(panes@[before.len() as int] == key);
                            if before.contains(pane) {
                                let j = choose|j: int| 0 <= j < before.len() && before[j] == pane;
                                assert(panes@[j] == pane);
                            }
                        }
                        assert(!before.contains(key));
                    }
                }
            }
            i = i + 1;
        }
        proof {
            assert(keys@.take(i as int) =~= keys@);
        }
    }
    InternalSearch { panes, probes }
}

/// Picks the pane beside the current one: the best candidate, the pane with the
/// smaller number where several are equally good.
pub fn adjacent_internal(search: &InternalSearch, measures: &Vec<Measure>) -> (r: Option<i64>)
    requires
        search.well_formed(),
        measures@.len() == search.probes@.len(),
    ensures
        is_pick(search.panes@, search.probes@, measures@, number_order(), r),
{
    let mut best: Option<usize> = None;
    let mut i: usize = 0;
    while i < search.panes.len()
        invariant
            i <= search.panes.len(),
            search.well_formed(),
            measures@.len() == search.probes@.len(),
            match best {
                Some(b) => b < i && is_best(
                    search.panes@.take(i as int),
                    search.probes@.take(i as int),
                    measures@.take(i as int),
                    number_order(),
                    b as int,
                ),
                None => no_candidate(search.probes@.take(i as int), measures@),
            },
        decreases search.panes.len() - i,
    {
        let ghost old_best = best;
        if candidate(search.probes[i], measures[i]) {
            best = match best {
                Some(b) => {
                    if better(measures[i], measures[b]) || (level(measures[i], measures[b])
                        && search.panes[i] <= search.panes[b]) {
                        Some(i)
                    } else {
                        Some(b)
                    }
                },
                None => Some(i),
            };
        }
        proof {
            best_of_more(
                search.panes@,
                search.probes@,
                measures@,
                number_order(),
                i as int,
                old_best,
                best,
            );
        }
        i = i + 1;
    }
    proof {
        assert(search.panes@.take(i as int) =~= search.panes@);
        assert(search.probes@.take(i as int) =~= search.probes@);
        assert(measures@.take(i as int) =~= measures@);
    }
    match best {
        Some(b) => Some(search.panes[b]),
        None => None,
    }
}

/// The arithmetic that measures a probe.
pub type Measuring = spec_fn(Probe) -> Measure;

/// Whether a pane lies beside the current one in a direction.
pub open spec fn beside<K>(
    direction: Direction,
    current: K,
    rects: Map<K, Rect>,
    measuring: Measuring,
    pane: K,
) -> bool {
    let probe = probe_of(direction, rects[current], rects[pane]);
    &&& rects.contains_key(current)
    &&& rects.contains_key(pane)
    &&& pane != current
    &&& is_candidate(probe, measuring(probe))
}

/// Whether a pane is the nearest of those beside the current one: it has the
/// smallest gap, then the longest overlap, then the smallest id.
pub open spec fn nearest_beside<K>(
    direction: Direction,
    current: K,
    rects: Map<K, Rect>,
    measuring: Measuring,
    precedes: spec_fn(K, K) -> bool,
    pane: K,
) -> bool {
    &&& beside(direction, current, rects, measuring, pane)
    &&& forall|other: K| #[trigger]
        beside(direction, current, rects, measuring, other) ==> {
            let mine = measuring(probe_of(direction, rects[current], rects[pane]));
            let its = measuring(probe_of(direction, rects[current], rects[other]));
            is_better(mine, its) || (is_level(mine, its) && precedes(pane, other))
        }
}

/// The pane that is picked from a search is the nearest of the panes beside the
/// current one. It has a rectangle and is not the current pane.
pub proof fn best_is_nearest<K>(
    panes: Seq<K>,
    probes: Seq<Probe>,
    measures: Seq<Measure>,
    direction: Seq<char>,
    current: K,
    rects: Map<K, Rect>,
    measuring: Measuring,
    precedes: spec_fn(K, K) -> bool,
    best: int,
)
    requires
        searches(panes, probes, direction, current, rects),
        measures == probes.map_values(measuring),
        is_best(panes, probes, measures, precedes, best),
    ensures
        direction_named(direction) matches Some(d) && nearest_beside(
            d,
            current,
            rects,
            measuring,
            precedes,
            panes[best],
        ),
{
    let d = direction_named(direction)->0;
    assert(panes.contains(panes[best]));
    assert forall|other: K| #[trigger] beside(d, current, rects, measuring, other) implies ({
        let mine = measuring(probe_of(d, rects[current], rects[panes[best]]));
        let its = measuring(probe_of(d, rects[current], rects[other]));
        is_better(mine, its) || (is_level(mine, its) && precedes(panes[best], other))
    }) by {
        assert(panes.contains(other));
        let i = choose|i: int| 0 <= i < panes.len() && panes[i] == other;
        assert(is_candidate(probes[i], measures[i]));
    }
}

/// Where a search has no candidate, no pane lies beside the current one.
pub proof fn no_candidate_means_none_beside<K>(
    panes: Seq<K>,
    probes: Seq<Probe>,
    measures: Seq<Measure>,
    direction: Seq<char>,
    current: K,
    rects: Map<K, Rect>,
    measuring: Measuring,
)
    requires
        searches(panes, probes, direction, current, rects),
        measures == probes.map_values(measuring),
        no_candidate(probes, measures),
    ensures
        direction_named(direction) matches Some(d) ==> forall|pane: K|
            !#[trigger] beside(d, current, rects, measuring, pane),
{
    if let Some(d) = direction_named(direction) {
        assert forall|pane: K| !#[trigger] beside(d, current, rects, measuring, pane) by {
            if beside(d, current, rects, measuring, pane) {
                assert(panes.contains(pane));
                let i = choose|i: int| 0 <= i < panes.len() && panes[i] == pane;
                assert(is_candidate(probes[i], measures[i]));
            }
        }
    }
}

/// At most one pane is the nearest beside another: the order in which panes are
/// walked does not matter.
pub proof fn nearest_is_unique<K>(
    direction: Direction,
    current: K,
    rects: Map<K, Rect>,
    measuring: Measuring,
    precedes: spec_fn(K, K) -> bool,
    a: K,
    b: K,
)
    requires
        vstd::relations::total_ordering(precedes),
        nearest_beside(direction, current, rects, measuring, precedes, a),
        nearest_beside(direction, current, rects, measuring, precedes, b),
    ensures
        a == b,
{
    assert(beside(direction, current, rects, measuring, a));
    assert(beside(direction, current, rects, measuring, b));
}

/// Whether a pane is the nearest of those beside the current one, or none is where
/// none is beside it.
pub open spec fn nearest_or_none<K>(
    direction: Direction,
    current: K,
    rects: Map<K, Rect>,
    measuring: Measuring,
    precedes: spec_fn(K, K) -> bool,
    pick: Option<K>,
) -> bool {
    match pick {
        Some(pane) => nearest_beside(direction, current, rects, measuring, precedes, pane),
        None => forall|pane: K| !#[trigger] beside(direction, current, rects, measuring, pane),
    }
}

/// What a search comes to is the nearest of the panes beside the current one, and
/// none where none is beside it.
pub proof fn pick_is_nearest<K>(
    panes: Seq<K>,
    probes: Seq<Probe>,
    direction: Seq<char>,
    current: K,
    rects: Map<K, Rect>,
    measuring: Measuring,
    precedes: spec_fn(K, K) -> bool,
    pick: Option<K>,
)
    requires
        searches(panes, probes, direction, current, rects),
        is_pick(panes, probes, probes.map_values(measuring), precedes, pick),
    ensures
        match direction_named(direction) {
            Some(d) => nearest_or_none(d, current, rects, measuring, precedes, pick),
            None => pick is None,
        },
{
    let measures = probes.map_values(measuring);
    match pick {
        Some(pane) => {
            let best = choose|best: int|
                #![trigger panes[best]]
                is_best(panes, probes, measures, precedes, best) && pane == panes[best];
            best_is_nearest(
                panes,
                probes,
                measures,
                direction,
                current,
                rects,
                measuring,
                precedes,
                best,
            );
        },
        None => {
            no_candidate_means_none_beside(
                panes,
                probes,
                measures,
                direction,
                current,
                rects,
                measuring,
            );
        },
    }
}

/// Whatever the order in which panes are walked, searches come to the same.
pub proof fn pick_is_unique<K>(
    direction: Direction,
    current: K,
    rects: Map<K, Rect>,
    measuring: Measuring,
    precedes: spec_fn(K, K) -> bool,
    a: Option<K>,
    b: Option<K>,
)
    requires
        vstd::relations::total_ordering(precedes),
        nearest_or_none(direction, current, rects, measuring, precedes, a),
        nearest_or_none(direction, current, rects, measuring, precedes, b),
    ensures
        a == b,
{
    if let Some(x) = a {
        assert(beside(direction, current, rects, measuring, x));
        if let Some(y) = b {
            nearest_is_unique(direction, current, rects, measuring, precedes, x, y);
        }
    } else if let Some(y) = b {
        assert(beside(direction, current, rects, measuring, y));
    }
}

} // verus!
