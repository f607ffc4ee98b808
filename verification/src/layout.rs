//! Pane rectangles and the layout tree that gives them.
//!
//! Coordinates are doubles, held by their bit patterns: the library orders and
//! compares them, and leaves their arithmetic to its caller.

use vstd::prelude::*;

use crate::json::{Json, JsonNumber, JsonView};
use crate::tables::NumberMap;
use crate::text::same_text;

verus! {

/// The bit pattern of the double 0.
pub const ZERO_BITS: u64 = 0;

/// The bit pattern of the double 1.
pub const ONE_BITS: u64 = 0x3FF0_0000_0000_0000;

/// The bit pattern of the double 1/2.
pub const HALF_BITS: u64 = 0x3FE0_0000_0000_0000;

/// A pane's rectangle. Each coordinate is the bit pattern of a double.
#[derive(Clone, Copy, Debug, PartialEq, Eq, Structural)]
pub struct Rect {
    pub x0: u64,
    pub y0: u64,
    pub x1: u64,
    pub y1: u64,
}

impl View for Rect {
    type V = Rect;

    open spec fn view(&self) -> Rect {
        *self
    }
}

/// The pane of a leaf.
pub open spec fn leaf_pane(node: JsonView) -> Option<i64> {
    match node.get("Pane"@) {
        Some(pane) => pane.signed(),
        None => None,
    }
}

/// The ratio of a split, one half where it has none.
pub open spec fn split_ratio(split: JsonView) -> JsonNumber {
    match split.get("ratio"@) {
        Some(JsonView::Number(number)) => number,
        _ => JsonNumber::Float(HALF_BITS),
    }
}

/// A node of the layout tree that splits its rectangle in two.
pub struct SplitView {
    pub horizontal: bool,
    pub ratio: JsonNumber,
    pub first: JsonView,
    pub second: JsonView,
}

/// The split of an inner node that has both its parts.
pub open spec fn node_split(node: JsonView) -> Option<SplitView> {
    match node.get("Split"@) {
        Some(split) => match (split.get("first"@), split.get("second"@)) {
            (Some(first), Some(second)) => Some(
                SplitView {
                    horizontal: split.text_at("direction"@) == Some("Horizontal"@),
                    ratio: split_ratio(split),
                    first,
                    second,
                },
            ),
            _ => None,
        },
        None => None,
    }
}

/// The parts of a split are smaller documents than the node.
pub proof fn split_parts_are_smaller(node: JsonView)
    ensures
        node_split(node) matches Some(split) ==> decreases_to!(node => split.first)
            && decreases_to!(node => split.second),
{
    if let Some(split) = node_split(node) {
        let middle = node.get("Split"@)->0;
        assert(decreases_to!(node => middle));
        assert(decreases_to!(middle => split.first));
        assert(decreases_to!(middle => split.second));
    }
}

/// The coordinate at which a split cuts a side: the function of the side's two
/// ends and the ratio that the caller's arithmetic computes.
pub type Cutting = spec_fn(u64, u64, JsonNumber) -> u64;

/// A rectangle cut in two at a coordinate: side by side where the cut is
/// horizontal, else one above the other.
pub open spec fn parts_at(rect: Rect, horizontal: bool, middle: u64) -> (Rect, Rect) {
    if horizontal {
        (Rect { x1: middle, ..rect }, Rect { x0: middle, ..rect })
    } else {
        (Rect { y1: middle, ..rect }, Rect { y0: middle, ..rect })
    }
}

/// The ends of the side that a cut divides.
pub open spec fn side_of(rect: Rect, horizontal: bool) -> (u64, u64) {
    if horizontal {
        (rect.x0, rect.x1)
    } else {
        (rect.y0, rect.y1)
    }
}

/// The two parts into which a split cuts a rectangle.
pub open spec fn cut_rect(rect: Rect, horizontal: bool, ratio: JsonNumber, cut: Cutting) -> (
    Rect,
    Rect,
) {
    let side = side_of(rect, horizontal);
    parts_at(rect, horizontal, cut(side.0, side.1, ratio))
}

/// The rectangles of the panes below a node, added to those found before. A
/// pane that occurs twice has the rectangle of its last occurrence.
pub open spec fn rects_of(
    node: JsonView,
    rect: Rect,
    cut: Cutting,
    found: Map<i64, Rect>,
) -> Map<i64, Rect>
    decreases node,
{
    match (leaf_pane(node), node_split(node)) {
        (Some(pane), _) => found.insert(pane, rect),
        (None, Some(split)) => {
            proof {
                split_parts_are_smaller(node);
            }
            let parts = cut_rect(rect, split.horizontal, split.ratio, cut);
            rects_of(split.second, parts.1, cut, rects_of(split.first, parts.0, cut, found))
        },
        (None, None) => found,
    }
}

/// The whole tab's rectangle.
pub open spec fn unit_rect() -> Rect {
    Rect { x0: ZERO_BITS, y0: ZERO_BITS, x1: ONE_BITS, y1: ONE_BITS }
}

/// The rectangles of the panes of a layout.
pub open spec fn layout_rects(layout: JsonView, cut: Cutting) -> Map<i64, Rect> {
    rects_of(layout, unit_rect(), cut, Map::empty())
}

/// A coordinate in a layout whose cuts are not computed yet: an end of the
/// tab's side, or the cut with the given number.
#[derive(Clone, Copy, Debug, PartialEq, Eq, Structural)]
pub enum Edge {
    Low,
    High,
    Cut(usize),
}

/// A rectangle between such coordinates.
#[derive(Clone, Copy, Debug, PartialEq, Eq, Structural)]
pub struct EdgeRect {
    pub x0: Edge,
    pub y0: Edge,
    pub x1: Edge,
    pub y1: Edge,
}

impl View for EdgeRect {
    type V = EdgeRect;

    open spec fn view(&self) -> EdgeRect {
        *self
    }
}

/// A cut between two coordinates, at a ratio.
#[derive(Clone, Copy, Debug, PartialEq, Eq, Structural)]
pub struct Cut {
    pub low: Edge,
    pub high: Edge,
    pub ratio: JsonNumber,
}

/// The cuts of a layout, in the order in which they can be computed, and the
/// rectangle of each pane between them.
pub struct Plan {
    pub cuts: Vec<Cut>,
    pub panes: NumberMap<EdgeRect>,
}

/// Whether a coordinate is one of the tab's or of the first `n` cuts.
pub open spec fn edge_known(edge: Edge, n: nat) -> bool {
    edge matches Edge::Cut(i) ==> i < n
}

/// Whether all the coordinates of a rectangle are known.
pub open spec fn rect_known(rect: EdgeRect, n: nat) -> bool {
    &&& edge_known(rect.x0, n)
    &&& edge_known(rect.y0, n)
    &&& edge_known(rect.x1, n)
    &&& edge_known(rect.y1, n)
}

/// Whether each cut lies between coordinates that are known before it.
pub open spec fn cuts_known(cuts: Seq<Cut>) -> bool {
    forall|i: int|
        0 <= i < cuts.len() ==> edge_known((#[trigger] cuts[i]).low, i as nat) && edge_known(
            cuts[i].high,
            i as nat,
        )
}

impl Plan {
    /// Whether every cut and every rectangle lies between known coordinates.
    pub open spec fn well_formed(self) -> bool {
        &&& cuts_known(self.cuts@)
        &&& forall|pane: i64| #[trigger]
            self.panes@.contains_key(pane) ==> rect_known(self.panes@[pane], self.cuts@.len())
    }
}

/// The value of a coordinate, given those of the cuts.
pub open spec fn edge_value(edge: Edge, values: Seq<u64>) -> u64 {
    match edge {
        Edge::Low => ZERO_BITS,
        Edge::High => ONE_BITS,
        Edge::Cut(i) => values[i as int],
    }
}

/// The rectangle between coordinates, given the values of the cuts.
pub open spec fn rect_value(rect: EdgeRect, values: Seq<u64>) -> Rect {
    Rect {
        x0: edge_value(rect.x0, values),
        y0: edge_value(rect.y0, values),
        x1: edge_value(rect.x1, values),
        y1: edge_value(rect.y1, values),
    }
}

/// The values of cuts, each computed from those before it.
pub open spec fn cut_values(cuts: Seq<Cut>, cut: Cutting) -> Seq<u64>
    decreases cuts.len(),
{
    if cuts.len() == 0 {
        Seq::empty()
    } else {
        let before = cut_values(cuts.drop_last(), cut);
        let last = cuts.last();
        before.push(cut(edge_value(last.low, before), edge_value(last.high, before), last.ratio))
    }
}

/// The rectangles of a plan, given the values of the cuts.
pub open spec fn placed_rects(panes: Map<i64, EdgeRect>, values: Seq<u64>) -> Map<i64, Rect> {
    panes.map_values(|rect: EdgeRect| rect_value(rect, values))
}

/// The rectangles of a plan, by the given arithmetic.
pub open spec fn plan_rects(plan: Plan, cut: Cutting) -> Map<i64, Rect> {
    placed_rects(plan.panes@, cut_values(plan.cuts@, cut))
}

/// Whether a plan gives the rectangles of a layout, whatever the arithmetic.
pub open spec fn plan_of(plan: Plan, layout: JsonView) -> bool {
    &&& plan.well_formed()
    &&& forall|cut: Cutting| #[trigger] plan_rects(plan, cut) == layout_rects(layout, cut)
}

proof fn cut_values_extend(cuts: Seq<Cut>, more: Seq<Cut>, cut: Cutting)
    requires
        cuts.len() <= more.len(),
        more.take(cuts.len() as int) == cuts,
    ensures
        cut_values(more, cut).len() == more.len(),
        cut_values(cuts, cut).len() == cuts.len(),
        cut_values(more, cut).take(cuts.len() as int) == cut_values(cuts, cut),
    decreases more.len(),
{
    if more.len() == cuts.len() {
        assert(more =~= cuts);
        if cuts.len() > 0 {
            let rest = cuts.drop_last();
            assert(rest.take(rest.len() as int) =~= rest);
            cut_values_extend(rest, rest, cut);
        }
        assert(cut_values(more, cut).take(cuts.len() as int) =~= cut_values(cuts, cut));
    } else {
        assert(more.drop_last().take(cuts.len() as int) =~= cuts);
        cut_values_extend(cuts, more.drop_last(), cut);
        assert(cut_values(more, cut).take(cuts.len() as int) =~= cut_values(
            more.drop_last(),
            cut,
        ).take(cuts.len() as int));
    }
}

proof fn rect_value_extends(rect: EdgeRect, values: Seq<u64>, more: Seq<u64>)
    requires
        rect_known(rect, values.len()),
        values.len() <= more.len(),
        more.take(values.len() as int) == values,
    ensures
        rect_value(rect, more) == rect_value(rect, values),
{
    assert forall|i: int| 0 <= i < values.len() implies more[i] == values[i] by {
        assert(more.take(values.len() as int)[i] == values[i]);
    }
}

proof fn placed_rects_extend(panes: Map<i64, EdgeRect>, values: Seq<u64>, more: Seq<u64>)
    requires
        forall|pane: i64| #[trigger]
            panes.contains_key(pane) ==> rect_known(panes[pane], values.len()),
        values.len() <= more.len(),
        more.take(values.len() as int) == values,
    ensures
        placed_rects(panes, more) == placed_rects(panes, values),
{
    assert forall|pane: i64| panes.contains_key(pane) implies #[trigger] placed_rects(
        panes,
        more,
    )[pane] == placed_rects(panes, values)[pane] by {
        rect_value_extends(panes[pane], values, more);
    }
    assert(placed_rects(panes, more) =~= placed_rects(panes, values));
}

/// Reads the split of an inner node.
fn read_split(node: &Json) -> (r: Option<(bool, JsonNumber, &Json, &Json)>)
    ensures
        match r {
            Some((horizontal, ratio, first, second)) => node_split(node@) == Some(
                SplitView { horizontal, ratio, first: first@, second: second@ },
            ),
            None => node_split(node@) is None,
        },
{
    let split = match node.get("Split") {
        Some(split) => split,
        None => return None,
    };
    let ratio = match split.get("ratio") {
        Some(member) => match member.as_number() {
            Some(number) => number,
            None => JsonNumber::Float(HALF_BITS),
        },
        None => JsonNumber::Float(HALF_BITS),
    };
    let horizontal = match split.text_at("direction") {
        Some(direction) => same_text(direction.as_str(), "Horizontal"),
        None => false,
    };
    match (split.get("first"), split.get("second")) {
        (Some(first), Some(second)) => Some((horizontal, ratio, first, second)),
        _ => None,
    }
}

/// Adds the panes below a node to a plan.
pub fn collect_rects(node: &Json, rect: EdgeRect, plan: &mut Plan)
    requires
        old(plan).well_formed(),
        rect_known(rect, old(plan).cuts@.len()),
    ensures
        final(plan).well_formed(),
        old(plan).cuts@.len() <= final(plan).cuts@.len(),
        final(plan).cuts@.take(old(plan).cuts@.len() as int) == old(plan).cuts@,
        forall|cut: Cutting| #[trigger]
            plan_rects(*final(plan), cut) == rects_of(
                node@,
                rect_value(rect, cut_values(old(plan).cuts@, cut)),
                cut,
                plan_rects(*old(plan), cut),
            ),
    decreases node@,
{
    if let Some(leaf) = node.get("Pane") {
        if let Some(pane) = leaf.as_i64() {
            plan.panes.insert(pane, rect);
            proof {
                assert(plan.cuts@.take(plan.cuts@.len() as int) =~= plan.cuts@);
                assert forall|cut: Cutting| #[trigger] plan_rects(*plan, cut) == rects_of(
                    node@,
                    rect_value(rect, cut_values(old(plan).cuts@, cut)),
                    cut,
                    plan_rects(*old(plan), cut),
                ) by {
                    assert(plan_rects(*plan, cut) =~= plan_rects(*old(plan), cut).insert(
                        pane,
                        rect_value(rect, cut_values(old(plan).cuts@, cut)),
                    ));
                }
            }
            return;
        }
    }
    assert(leaf_pane(node@) is None);
    proof {
        assert(plan.cuts@.take(plan.cuts@.len() as int) =~= plan.cuts@);
    }
    let (horizontal, ratio, first, second) = match read_split(node) {
        Some(split) => split,
        None => return,
    };
    let middle = Edge::Cut(plan.cuts.len());
    let (cut_now, part1, part2) = if horizontal {
        (
            Cut { low: rect.x0, high: rect.x1, ratio },
            EdgeRect { x0: rect.x0, y0: rect.y0, x1: middle, y1: rect.y1 },
            EdgeRect { x0: middle, y0: rect.y0, x1: rect.x1, y1: rect.y1 },
        )
    } else {
        (
            Cut { low: rect.y0, high: rect.y1, ratio },
            EdgeRect { x0: rect.x0, y0: rect.y0, x1: rect.x1, y1: middle },
            EdgeRect { x0: rect.x0, y0: middle, x1: rect.x1, y1: rect.y1 },
        )
    };
    let ghost cuts0 = plan.cuts@;
    let ghost plan0 = *plan;
    plan.cuts.push(cut_now);
    let ghost cuts1 = plan.cuts@;
    let ghost plan1 = *plan;
    proof {
        assert(cuts1.drop_last() =~= cuts0);
        assert(cuts1.take(cuts0.len() as int) =~= cuts0);
        assert(plan.well_formed());
    }
    proof {
        split_parts_are_smaller(node@);
    }
    collect_rects(first, part1, plan);
    let ghost plan2 = *plan;
    collect_rects(second, part2, plan);
    proof {
        assert(plan.cuts@.take(cuts0.len() as int) =~= plan.cuts@.take(
            plan2.cuts@.len() as int,
        ).take(cuts1.len() as int).take(cuts0.len() as int));
        assert forall|cut: Cutting| #[trigger] plan_rects(*plan, cut) == rects_of(
            node@,
            rect_value(rect, cut_values(cuts0, cut)),
            cut,
            plan_rects(*old(plan), cut),
        ) by {
            assert(plan_rects(plan2, cut) == plan_rects(plan2, cut));
            split_step(node@, rect, plan0, plan1, plan2, *plan, part1, part2, cut);
        }
    }
}

/// One split of a layout in a plan: the cut that comes first, then the panes of
/// the first part, then those of the second.
proof fn split_step(
    node: JsonView,
    rect: EdgeRect,
    plan0: Plan,
    plan1: Plan,
    plan2: Plan,
    plan3: Plan,
    part1: EdgeRect,
    part2: EdgeRect,
    cut: Cutting,
)
    requires
        plan0.well_formed(),
        rect_known(rect, plan0.cuts@.len()),
        leaf_pane(node) is None,
        node_split(node) is Some,
        ({
            let split = node_split(node)->0;
            let middle = Edge::Cut(plan0.cuts@.len() as usize);
            &&& plan0.cuts@.len() <= usize::MAX
            &&& plan1.panes@ == plan0.panes@
            &&& plan1.cuts@ == plan0.cuts@.push(
                if split.horizontal {
                    Cut { low: rect.x0, high: rect.x1, ratio: split.ratio }
                } else {
                    Cut { low: rect.y0, high: rect.y1, ratio: split.ratio }
                },
            )
            &&& part1 == if split.horizontal {
                EdgeRect { x1: middle, ..rect }
            } else {
                EdgeRect { y1: middle, ..rect }
            }
            &&& part2 == if split.horizontal {
                EdgeRect { x0: middle, ..rect }
            } else {
                EdgeRect { y0: middle, ..rect }
            }
            &&& plan_rects(plan2, cut) == rects_of(
                split.first,
                rect_value(part1, cut_values(plan1.cuts@, cut)),
                cut,
                plan_rects(plan1, cut),
            )
            &&& plan_rects(plan3, cut) == rects_of(
                split.second,
                rect_value(part2, cut_values(plan2.cuts@, cut)),
                cut,
                plan_rects(plan2, cut),
            )
        }),
        plan1.cuts@.len() <= plan2.cuts@.len(),
        plan2.cuts@.take(plan1.cuts@.len() as int) == plan1.cuts@,
    ensures
        plan_rects(plan3, cut) == rects_of(
            node,
            rect_value(rect, cut_values(plan0.cuts@, cut)),
            cut,
            plan_rects(plan0, cut),
        ),
{
    let split = node_split(node)->0;
    let v0 = cut_values(plan0.cuts@, cut);
    let v1 = cut_values(plan1.cuts@, cut);
    let v2 = cut_values(plan2.cuts@, cut);
    assert(plan1.cuts@.drop_last() =~= plan0.cuts@);
    assert(plan1.cuts@.take(plan0.cuts@.len() as int) =~= plan0.cuts@);
    cut_values_extend(plan0.cuts@, plan1.cuts@, cut);
    cut_values_extend(plan1.cuts@, plan2.cuts@, cut);
    let parts = cut_rect(rect_value(rect, v0), split.horizontal, split.ratio, cut);
    rect_value_extends(rect, v0, v1);
    assert(v1[plan0.cuts@.len() as int] == v1.last());
    assert(rect_value(part1, v1) == parts.0);
    assert(rect_value(part2, v1) == parts.1);
    rect_value_extends(part2, v1, v2);
    placed_rects_extend(plan0.panes@, v0, v1);
}

/// The layout of a tab, or nothing where it has none.
pub open spec fn tab_layout(tab: JsonView) -> JsonView {
    match tab.get("layout"@) {
        Some(layout) => layout,
        None => JsonView::Null,
    }
}

/// The plan of a tab's layout.
pub fn plan_layout(tab: &Json) -> (r: Plan)
    ensures
        plan_of(r, tab_layout(tab@)),
{
    let mut plan = Plan { cuts: Vec::new(), panes: NumberMap::new() };
    let whole = EdgeRect { x0: Edge::Low, y0: Edge::Low, x1: Edge::High, y1: Edge::High };
    proof {
        assert forall|cut: Cutting| #[trigger] plan_rects(plan, cut) == Map::<i64, Rect>::empty() by {
            assert(plan_rects(plan, cut) =~= Map::<i64, Rect>::empty());
        }
    }
    let ghost empty = plan;
    match tab.get("layout") {
        Some(layout) => collect_rects(layout, whole, &mut plan),
        None => collect_rects(&Json::Null, whole, &mut plan),
    }
    proof {
        assert forall|cut: Cutting| #[trigger]
            plan_rects(plan, cut) == layout_rects(tab_layout(tab@), cut) by {
            assert(plan_rects(empty, cut) == Map::<i64, Rect>::empty());
        }
    }
    plan
}

/// The value of a coordinate, given those of the cuts before it.
fn edge_bits(edge: Edge, values: &Vec<u64>) -> (r: u64)
    requires
        edge_known(edge, values@.len()),
    ensures
        r == edge_value(edge, values@),
{
    match edge {
        Edge::Low => ZERO_BITS,
        Edge::High => ONE_BITS,
        Edge::Cut(i) => values[i],
    }
}

/// The next cut of a plan to compute, given the values of those before it: the
/// coordinates between which it lies, and its ratio.
pub open spec fn next_cut_of(plan: Plan, values: Seq<u64>) -> Option<(u64, u64, JsonNumber)> {
    if values.len() < plan.cuts@.len() {
        let cut = plan.cuts@[values.len() as int];
        Some((edge_value(cut.low, values), edge_value(cut.high, values), cut.ratio))
    } else {
        None
    }
}

/// The next cut of a plan to compute, given the values of those before it; none
/// where all have values.
pub fn next_cut(plan: &Plan, values: &Vec<u64>) -> (r: Option<(u64, u64, JsonNumber)>)
    requires
        plan.well_formed(),
    ensures
        r == next_cut_of(*plan, values@),
{
    if values.len() < plan.cuts.len() {
        let cut = plan.cuts[values.len()];
        Some((edge_bits(cut.low, values), edge_bits(cut.high, values), cut.ratio))
    } else {
        None
    }
}

/// Whether a value is that of a cut.
pub open spec fn is_cut(next: Option<(u64, u64, JsonNumber)>, value: u64, cut: Cutting) -> bool {
    next matches Some((low, high, ratio)) && value == cut(low, high, ratio)
}

/// Whether values are those of a plan's cuts, each computed when it was the next
/// one.
pub open spec fn computed_in_turn(plan: Plan, values: Seq<u64>, cut: Cutting) -> bool {
    forall|i: int|
        0 <= i < values.len() ==> is_cut(
            next_cut_of(plan, values.take(i)),
            #[trigger] values[i],
            cut,
        )
}

/// A caller that computes the next cut until there is none, by some arithmetic,
/// gets the rectangles that the layout gives by that arithmetic.
pub proof fn cuts_in_turn_give_the_layout(
    plan: Plan,
    layout: JsonView,
    values: Seq<u64>,
    cut: Cutting,
)
    requires
        plan_of(plan, layout),
        computed_in_turn(plan, values, cut),
        next_cut_of(plan, values) is None,
    ensures
        values.len() == plan.cuts@.len(),
        placed_rects(plan.panes@, values) == layout_rects(layout, cut),
{
    if values.len() > plan.cuts@.len() {
        let i = plan.cuts@.len() as int;
        assert(is_cut(next_cut_of(plan, values.take(i)), values[i], cut));
    }
    turns_are_cut_values(plan, values, cut);
    assert(plan.cuts@.take(values.len() as int) =~= plan.cuts@);
    assert(plan_rects(plan, cut) == layout_rects(layout, cut));
}

proof fn turns_are_cut_values(plan: Plan, values: Seq<u64>, cut: Cutting)
    requires
        computed_in_turn(plan, values, cut),
        values.len() <= plan.cuts@.len(),
    ensures
        values == cut_values(plan.cuts@.take(values.len() as int), cut),
    decreases values.len(),
{
    let cuts = plan.cuts@.take(values.len() as int);
    if values.len() > 0 {
        let fewer = values.drop_last();
        assert forall|i: int| 0 <= i < fewer.len() implies is_cut(
            next_cut_of(plan, fewer.take(i)),
            #[trigger] fewer[i],
            cut,
        ) by {
            assert(fewer.take(i) =~= values.take(i));
            assert(fewer[i] == values[i]);
        }
        turns_are_cut_values(plan, fewer, cut);
        assert(cuts.drop_last() =~= plan.cuts@.take(fewer.len() as int));
        let last = values.len() - 1;
        assert(values.take(last) =~= fewer);
        assert(values[last] == values.last());
        assert(values =~= fewer.push(values.last()));
    } else {
        assert(values =~= cut_values(cuts, cut));
    }
}

/// The rectangles of a plan's panes, given the values of its cuts.
pub fn place_panes(plan: &Plan, values: &Vec<u64>) -> (r: NumberMap<Rect>)
    requires
        plan.well_formed(),
        values@.len() == plan.cuts@.len(),
    ensures
        r@ == placed_rects(plan.panes@, values@),
{
    let keys = plan.panes.keys();
    let mut out: NumberMap<Rect> = NumberMap::new();
    let mut i: usize = 0;
    while i < keys.len()
        invariant
            i <= keys.len(),
            plan.well_formed(),
            values@.len() == plan.cuts@.len(),
            forall|pane: i64| plan.panes@.contains_key(pane) <==> #[trigger] keys@.contains(pane),
            forall|pane: i64| #[trigger]
                out@.contains_key(pane) <==> keys@.take(i as int).contains(pane),
            forall|pane: i64| #[trigger]
                out@.contains_key(pane) ==> out@[pane] == rect_value(plan.panes@[pane], values@),
        decreases keys.len() - i,
    {
        let pane = keys[i];
        proof {
            assert(keys@.contains(pane));
            assert(keys@.take(i + 1) =~= keys@.take(i as int).push(pane));
            assert forall|k: i64| #[trigger]
                keys@.take(i + 1).contains(k) <==> (keys@.take(i as int).contains(k) || k
                == pane) by {
                let now = keys@.take(i + 1);
                assert(now[i as int] == pane);
                if keys@.take(i as int).contains(k) {
                    let j = choose|j: int| 0 <= j < i && keys@.take(i as int)[j] == k;
                    assert(now[j] == k);
                }
            }
        }
        match plan.panes.get(pane) {
            Some(rect) => {
                out.insert(
                    pane,
                    Rect {
                        x0: edge_bits(rect.x0, values),
                        y0: edge_bits(rect.y0, values),
                        x1: edge_bits(rect.x1, values),
                        y1: edge_bits(rect.y1, values),
                    },
                );
            },
            None => {},
        }
        i = i + 1;
    }
    proof {
        assert(keys@.take(i as int) =~= keys@);
        assert(out@ =~= placed_rects(plan.panes@, values@));
    }
    out
}

/// The ends of the side that a split towards a direction divides.
pub fn split_side(rect: Rect, direction: &str) -> (r: (u64, u64))
    ensures
        r == side_of(rect, direction@ == "right"@),
{
    if same_text(direction, "right") {
        (rect.x0, rect.x1)
    } else {
        (rect.y0, rect.y1)
    }
}

/// The two parts of a rectangle that is split towards a direction, given the
/// coordinate in the middle of the divided side.
pub fn split_rect(rect: Rect, direction: &str, middle: u64) -> (r: (Rect, Rect))
    ensures
        r == parts_at(rect, direction@ == "right"@, middle),
{
    if same_text(direction, "right") {
        (
            Rect { x0: rect.x0, y0: rect.y0, x1: middle, y1: rect.y1 },
            Rect { x0: middle, y0: rect.y0, x1: rect.x1, y1: rect.y1 },
        )
    } else {
        (
            Rect { x0: rect.x0, y0: rect.y0, x1: rect.x1, y1: middle },
            Rect { x0: rect.x0, y0: middle, x1: rect.x1, y1: rect.y1 },
        )
    }
}

/// The panes at the leaves below a node.
pub open spec fn leaf_panes(node: JsonView) -> Set<i64>
    decreases node,
{
    match (leaf_pane(node), node_split(node)) {
        (Some(pane), _) => set![pane],
        (None, Some(split)) => {
            proof {
                split_parts_are_smaller(node);
            }
            leaf_panes(split.first).union(leaf_panes(split.second))
        },
        (None, None) => Set::empty(),
    }
}

proof fn rects_of_leaves(node: JsonView, rect: Rect, cut: Cutting, found: Map<i64, Rect>)
    ensures
        rects_of(node, rect, cut, found).dom() == found.dom().union(leaf_panes(node)),
    decreases node,
{
    match (leaf_pane(node), node_split(node)) {
        (Some(pane), _) => {
            assert(rects_of(node, rect, cut, found).dom() =~= found.dom().union(set![pane]));
        },
        (None, Some(split)) => {
            split_parts_are_smaller(node);
            let parts = cut_rect(rect, split.horizontal, split.ratio, cut);
            rects_of_leaves(split.first, parts.0, cut, found);
            let between = rects_of(split.first, parts.0, cut, found);
            rects_of_leaves(split.second, parts.1, cut, between);
            assert(rects_of(node, rect, cut, found).dom() =~= found.dom().union(leaf_panes(node)));
        },
        (None, None) => {
            assert(found.dom() =~= found.dom().union(leaf_panes(node)));
        },
    }
}

/// Whatever the arithmetic, the panes that a layout gives rectangles to are the
/// panes at its leaves.
pub proof fn layout_places_every_leaf(layout: JsonView, cut: Cutting)
    ensures
        layout_rects(layout, cut).dom() == leaf_panes(layout),
{
    rects_of_leaves(layout, unit_rect(), cut, Map::empty());
    assert(layout_rects(layout, cut).dom() =~= leaf_panes(layout));
}

/// A split that is recorded in a rectangle agrees with the layout that Herdr makes
/// of it: the two parts of the rectangle at its middle are the rectangles that the
/// layout gives the panes of a node that splits it at one half.
pub proof fn split_agrees_with_the_layout(
    node: JsonView,
    rect: Rect,
    cut: Cutting,
    found: Map<i64, Rect>,
    pane: i64,
    new_pane: i64,
)
    requires
        leaf_pane(node) is None,
        node_split(node) is Some,
        node_split(node)->0.ratio == JsonNumber::Float(HALF_BITS),
        leaf_pane(node_split(node)->0.first) == Some(pane),
        leaf_pane(node_split(node)->0.second) == Some(new_pane),
    ensures
        ({
            let horizontal = node_split(node)->0.horizontal;
            let side = side_of(rect, horizontal);
            let middle = cut(side.0, side.1, JsonNumber::Float(HALF_BITS));
            let (first, second) = parts_at(rect, horizontal, middle);
            rects_of(node, rect, cut, found) == found.insert(pane, first).insert(new_pane, second)
        }),
{
    let split = node_split(node)->0;
    let parts = cut_rect(rect, split.horizontal, split.ratio, cut);
    let between = rects_of(split.first, parts.0, cut, found);
    assert(between == found.insert(pane, parts.0));
    assert(rects_of(split.second, parts.1, cut, between) == between.insert(new_pane, parts.1));
}

/// The two parts of a split meet at the cut, and their outer sides are those of
/// the whole rectangle.
pub proof fn parts_tile_the_rectangle(rect: Rect, horizontal: bool, middle: u64)
    ensures
        ({
            let (first, second) = parts_at(rect, horizontal, middle);
            &&& first.x0 == rect.x0 && first.y0 == rect.y0
            &&& second.x1 == rect.x1 && second.y1 == rect.y1
            &&& if horizontal {
                &&& first.x1 == second.x0 == middle
                &&& first.y1 == rect.y1 && second.y0 == rect.y0
            } else {
                &&& first.y1 == second.y0 == middle
                &&& first.x1 == rect.x1 && second.x0 == rect.x0
            }
        }),
{
}

} // verus!
