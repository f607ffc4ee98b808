//! What the cache holds once panes are recorded in it, and where a layout places
//! them. The laws are stated over the cache's tables and the edges of rectangles.

use vstd::prelude::*;

use crate::cache::{
    alias_of, alias_reads_back, session_aliases, session_aliases_hold, CacheView,
};
use crate::json::{JsonNumber, JsonView};
use crate::layout::{
    cut_rect, layout_rects, leaf_pane, node_split, rects_of, split_ratio, tab_layout, unit_rect,
    Cutting, Rect,
};
use crate::seed::{is_seeded, places, with_new_pane, with_split};
use crate::text::decimal;
use crate::wording::holds;

verus! {

/// The internal id of a pane: the mark and the pane's number.
pub open spec fn marked_id(n: int) -> Seq<char> {
    if n < 0 {
        "p_"@ + seq!['-'] + decimal((-n) as nat)
    } else {
        "p_"@ + decimal(n as nat)
    }
}

/// A pane's internal id is the mark and its number.
pub proof fn aliases_are_marked_numbers(n: i64)
    ensures
        alias_of(n) == marked_id(n as int),
{
    assert(alias_of(n) =~= marked_id(n as int));
}

/// Seeding records the public id of every mapped pane under its internal id, and
/// leaves every other recorded id as it was.
pub proof fn seeding_records_the_ids(
    before: CacheView,
    tab_id: Seq<char>,
    mapping: Map<i64, Seq<char>>,
    rects: Map<i64, Rect>,
    now: u128,
    after: CacheView,
    n: i64,
    text: Seq<char>,
)
    requires
        is_seeded(before, tab_id, mapping, rects, now, after),
    ensures
        mapping.contains_key(n) ==> after.aliases.contains_key(marked_id(n as int))
            && after.aliases[marked_id(n as int)] == mapping[n],
        (forall|k: i64| #[trigger] mapping.contains_key(k) ==> marked_id(k as int) != text) ==> (
        after.aliases.contains_key(text) <==> before.aliases.contains_key(text)),
        (forall|k: i64| #[trigger] mapping.contains_key(k) ==> marked_id(k as int) != text)
            && before.aliases.contains_key(text) ==> after.aliases[text] == before.aliases[text],
        before.max_internal <= after.max_internal,
        mapping.contains_key(n) ==> n <= after.max_internal,
        after.max_internal == before.max_internal || mapping.contains_key(after.max_internal),
{
    aliases_are_marked_numbers(n);
    alias_reads_back(n);
    if mapping.contains_key(n) {
        session_aliases_hold(mapping, n);
    }
    let aliases = session_aliases(mapping);
    if aliases.contains_key(text) {
        let k = choose|k: i64| #[trigger] mapping.contains_key(k) && alias_of(k) == text;
        aliases_are_marked_numbers(k);
        assert(mapping.contains_key(k));
    }
}

/// Seeding gives the tab just the mapped panes that have a rectangle, each with
/// its own, at the given time. Other tabs stay as they were, and so does the tab
/// where no mapped pane has a rectangle.
pub proof fn seeding_records_the_tab(
    before: CacheView,
    tab_id: Seq<char>,
    mapping: Map<i64, Seq<char>>,
    rects: Map<i64, Rect>,
    now: u128,
    after: CacheView,
    n: i64,
    public: Seq<char>,
    other: Seq<char>,
)
    requires
        is_seeded(before, tab_id, mapping, rects, now, after),
    ensures
        other != tab_id ==> (after.tabs.contains_key(other) <==> before.tabs.contains_key(other)),
        other != tab_id && before.tabs.contains_key(other) ==> after.tabs[other]
            == before.tabs[other],
        mapping.contains_key(n) && rects.contains_key(n) ==> {
            &&& after.tabs.contains_key(tab_id)
            &&& after.tabs[tab_id].updated_ns == now
            &&& after.tabs[tab_id].panes.contains_key(public) <==> exists|k: i64| #[trigger]
                mapping.contains_key(k) && mapping[k] == public && rects.contains_key(k)
            &&& mapping[n] == public && (forall|k: i64| #[trigger]
                mapping.contains_key(k) && mapping[k] == public ==> k == n)
                ==> after.tabs[tab_id].panes[public] == rects[n]
            &&& after.tabs[tab_id].panes.contains_key(public) ==> exists|k: i64| #[trigger]
                mapping.contains_key(k) && mapping[k] == public && rects.contains_key(k)
                    && after.tabs[tab_id].panes[public] == rects[k]
        },
        (forall|k: i64| #[trigger] mapping.contains_key(k) ==> !rects.contains_key(k))
            ==> after.tabs == before.tabs,
{
    if mapping.contains_key(n) && rects.contains_key(n) {
        assert(places(rects, mapping, n, mapping[n]));
        if exists|k: i64| #[trigger]
            mapping.contains_key(k) && mapping[k] == public && rects.contains_key(k) {
            let k = choose|k: i64| #[trigger]
                mapping.contains_key(k) && mapping[k] == public && rects.contains_key(k);
            assert(places(rects, mapping, k, public));
        }
        if after.tabs[tab_id].panes.contains_key(public) {
            let k = choose|k: i64| #[trigger]
                places(rects, mapping, k, public) && after.tabs[tab_id].panes[public] == rects[k];
            assert(mapping.contains_key(k));
        }
    }
}

/// A new pane is recorded under the internal id behind the largest one, which
/// wraps around, and nothing else changes.
pub proof fn new_pane_is_recorded(cache: CacheView, new_public: Seq<char>)
    ensures
        cache.max_internal < i64::MAX ==> with_new_pane(cache, new_public) == (CacheView {
            tabs: cache.tabs,
            aliases: cache.aliases.insert(marked_id(cache.max_internal + 1), new_public),
            max_internal: (cache.max_internal + 1) as i64,
        }),
        cache.max_internal == i64::MAX ==> with_new_pane(cache, new_public) == (CacheView {
            tabs: cache.tabs,
            aliases: cache.aliases.insert(marked_id(i64::MIN as int), new_public),
            max_internal: i64::MAX,
        }),
{
    aliases_are_marked_numbers(i64::MIN);
    if cache.max_internal < i64::MAX {
        aliases_are_marked_numbers((cache.max_internal + 1) as i64);
    }
}

/// Whether one rectangle is another one's part left of a line.
pub open spec fn is_left_of(part: Rect, whole: Rect, line: u64) -> bool {
    part.x0 == whole.x0 && part.y0 == whole.y0 && part.x1 == line && part.y1 == whole.y1
}

/// Whether one rectangle is another one's part right of a line.
pub open spec fn is_right_of(part: Rect, whole: Rect, line: u64) -> bool {
    part.x0 == line && part.y0 == whole.y0 && part.x1 == whole.x1 && part.y1 == whole.y1
}

/// Whether one rectangle is another one's part above a line.
pub open spec fn is_above(part: Rect, whole: Rect, line: u64) -> bool {
    part.x0 == whole.x0 && part.y0 == whole.y0 && part.x1 == whole.x1 && part.y1 == line
}

/// Whether one rectangle is another one's part below a line.
pub open spec fn is_under(part: Rect, whole: Rect, line: u64) -> bool {
    part.x0 == whole.x0 && part.y0 == line && part.x1 == whole.x1 && part.y1 == whole.y1
}

/// Whether a cache is another one with a pane of a tab cut in two: the old pane
/// keeps the part left of the line, or above it, and the new pane has the rest.
/// The tab is as new as the given time, and nothing else is changed.
pub open spec fn is_cut_in_two(
    before: CacheView,
    tab_id: Seq<char>,
    target: Seq<char>,
    new_public: Seq<char>,
    side_by_side: bool,
    line: u64,
    now: u128,
    after: CacheView,
) -> bool {
    let old_tab = before.tabs[tab_id];
    let new_tab = after.tabs[tab_id];
    let whole = old_tab.panes[target];
    &&& after.aliases == before.aliases
    &&& after.max_internal == before.max_internal
    &&& after.tabs.dom() == before.tabs.dom()
    &&& forall|id: Seq<char>|
        id != tab_id && #[trigger] before.tabs.contains_key(id) ==> after.tabs[id]
            == before.tabs[id]
    &&& new_tab.updated_ns == now
    &&& new_tab.panes.dom() == old_tab.panes.dom().insert(new_public)
    &&& forall|id: Seq<char>|
        id != target && id != new_public && #[trigger] old_tab.panes.contains_key(id)
            ==> new_tab.panes[id] == old_tab.panes[id]
    &&& side_by_side ==> is_right_of(new_tab.panes[new_public], whole, line)
    &&& !side_by_side ==> is_under(new_tab.panes[new_public], whole, line)
    &&& target != new_public && side_by_side ==> is_left_of(new_tab.panes[target], whole, line)
    &&& target != new_public && !side_by_side ==> is_above(new_tab.panes[target], whole, line)
}

/// A split cuts the pane's rectangle in two, and changes nothing where the pane
/// has none.
pub proof fn split_cuts_the_pane(
    cache: CacheView,
    tab_id: Seq<char>,
    target: Seq<char>,
    new_public: Seq<char>,
    side_by_side: bool,
    line: u64,
    now: u128,
)
    ensures
        ({
            let after = with_split(cache, tab_id, target, new_public, side_by_side, line, now);
            if cache.tabs.contains_key(tab_id) && cache.tabs[tab_id].panes.contains_key(target) {
                is_cut_in_two(
                    cache,
                    tab_id,
                    target,
                    new_public,
                    side_by_side,
                    line,
                    now,
                    after,
                )
            } else {
                after == cache
            }
        }),
{
    let after = with_split(cache, tab_id, target, new_public, side_by_side, line, now);
    if cache.tabs.contains_key(tab_id) && cache.tabs[tab_id].panes.contains_key(target) {
        assert(after.tabs.dom() =~= cache.tabs.dom());
        assert(after.tabs[tab_id].panes.dom() =~= cache.tabs[tab_id].panes.dom().insert(
            new_public,
        ));
    }
}

/// Whether a node of a layout is a pane, with a number of at most 63 bits.
pub open spec fn is_pane(node: JsonView, n: i64) -> bool {
    ||| n >= 0 && holds(node, "Pane"@, JsonView::Number(JsonNumber::PosInt(n as u64)))
    ||| holds(node, "Pane"@, JsonView::Number(JsonNumber::NegInt(n)))
}

/// A pane fills the rectangle of its node.
pub proof fn pane_fills_its_node(
    node: JsonView,
    n: i64,
    rect: Rect,
    cut: Cutting,
    found: Map<i64, Rect>,
)
    requires
        is_pane(node, n),
    ensures
        rects_of(node, rect, cut, found) == found.insert(n, rect),
{
}

/// Whether a node of a layout is split in two.
pub open spec fn is_split(node: JsonView, split: JsonView, first: JsonView, second: JsonView) -> bool {
    &&& forall|n: i64| !#[trigger] is_pane(node, n)
    &&& holds(node, "Split"@, split)
    &&& holds(split, "first"@, first)
    &&& holds(split, "second"@, second)
}

/// Whether a split has a ratio: the number it names, or a half where it names
/// none.
pub open spec fn has_ratio(split: JsonView, ratio: JsonNumber) -> bool {
    ||| holds(split, "ratio"@, JsonView::Number(ratio))
    ||| ratio == JsonNumber::Float(0x3FE0_0000_0000_0000) && forall|other: JsonNumber|
        !#[trigger] holds(split, "ratio"@, JsonView::Number(other))
}

proof fn no_pane_is_no_leaf(node: JsonView)
    requires
        forall|n: i64| !#[trigger] is_pane(node, n),
    ensures
        leaf_pane(node) is None,
{
    if let Some(n) = leaf_pane(node) {
        assert(is_pane(node, n));
    }
}

/// A split node's two parts share its rectangle: side by side where its direction
/// is horizontal, one below the other where it is not, cut where the ratio says.
pub proof fn split_parts_share_their_node(
    node: JsonView,
    split: JsonView,
    first: JsonView,
    second: JsonView,
    ratio: JsonNumber,
    rect: Rect,
    cut: Cutting,
    found: Map<i64, Rect>,
    a: Rect,
    b: Rect,
)
    requires
        is_split(node, split, first, second),
        has_ratio(split, ratio),
        holds(split, "direction"@, JsonView::Text("Horizontal"@)) ==> is_left_of(
            a,
            rect,
            cut(rect.x0, rect.x1, ratio),
        ) && is_right_of(b, rect, cut(rect.x0, rect.x1, ratio)),
        !holds(split, "direction"@, JsonView::Text("Horizontal"@)) ==> is_above(
            a,
            rect,
            cut(rect.y0, rect.y1, ratio),
        ) && is_under(b, rect, cut(rect.y0, rect.y1, ratio)),
    ensures
        rects_of(node, rect, cut, found) == rects_of(
            second,
            b,
            cut,
            rects_of(first, a, cut, found),
        ),
{
    no_pane_is_no_leaf(node);
    if let Some(JsonView::Number(number)) = split.get("ratio"@) {
        assert(holds(split, "ratio"@, JsonView::Number(number)));
    }
    assert(split_ratio(split) == ratio);
    let horizontal = holds(split, "direction"@, JsonView::Text("Horizontal"@));
    assert(node_split(node)->0.horizontal == horizontal);
    let parts = cut_rect(rect, horizontal, ratio, cut);
    assert(parts.0 == a);
    assert(parts.1 == b);
}

/// A node that is neither a pane nor split places nothing.
pub proof fn other_nodes_place_nothing(
    node: JsonView,
    rect: Rect,
    cut: Cutting,
    found: Map<i64, Rect>,
)
    requires
        forall|n: i64| !#[trigger] is_pane(node, n),
        forall|split: JsonView, first: JsonView, second: JsonView|
            !#[trigger] is_split(node, split, first, second),
    ensures
        rects_of(node, rect, cut, found) == found,
{
    no_pane_is_no_leaf(node);
    if let Some(split) = node.get("Split"@) {
        if let Some(first) = split.get("first"@) {
            if let Some(second) = split.get("second"@) {
                assert(is_split(node, split, first, second));
            }
        }
    }
}

/// A tab's layout fills the square from 0 to 1.
pub proof fn layout_fills_the_square(tab: JsonView, layout: JsonView, cut: Cutting, square: Rect)
    requires
        square.x0 == 0,
        square.y0 == 0,
        square.x1 == 0x3FF0_0000_0000_0000,
        square.y1 == 0x3FF0_0000_0000_0000,
        holds(tab, "layout"@, layout),
    ensures
        layout_rects(tab_layout(tab), cut) == rects_of(layout, square, cut, Map::empty()),
{
    assert(unit_rect() == square);
}

/// A tab without a layout places nothing.
pub proof fn no_layout_places_nothing(tab: JsonView, cut: Cutting)
    requires
        forall|layout: JsonView| !#[trigger] holds(tab, "layout"@, layout),
    ensures
        layout_rects(tab_layout(tab), cut) == Map::<i64, Rect>::empty(),
{
    if let Some(layout) = tab.get("layout"@) {
        assert(holds(tab, "layout"@, layout));
    }
}

} // verus!
