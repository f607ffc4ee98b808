//! Filling the layout cache: from the session file, and after a split.

use vstd::prelude::*;

use crate::cache::{
    alias_of, alias_reads_back, alias_text, counts_its_panes, is_max_internal, known_public_id,
    public_id, record_session_aliases, recorded_panes_are_known, session_aliases, CacheView,
    CachedTab, LayoutCache, TabView,
};
use crate::json::{Json, JsonView};
use crate::layout::{
    parts_at, place_panes, placed_rects, plan_layout, plan_of, split_rect, tab_layout, Plan, Rect,
};
use crate::panes::{live_ids, opt_text, tab_is_live};
use crate::session::{pane_mapping, pane_public_mapping, seed_tab_id, seeded_tab_id};
use crate::tables::{NumberMap, TextMap};

verus! {

/// What the session file says of the active tab: its id, the public ids of its
/// panes and the plan of its layout.
pub struct Seed {
    pub tab_id: String,
    pub mapping: NumberMap<String>,
    pub plan: Plan,
}

/// Why nothing can be said of the active tab, if so.
pub open spec fn seed_error(
    given: Option<Seq<char>>,
    workspace: JsonView,
    tab: JsonView,
) -> Option<Seq<char>> {
    match (seeded_tab_id(given, workspace, tab), pane_mapping(workspace, tab)) {
        (Err(message), _) => Some(message),
        (Ok(_), Err(message)) => Some(message),
        (Ok(_), Ok(_)) => None,
    }
}

/// Whether a seed says what a workspace and its tab say.
pub open spec fn seed_of(
    seed: Seed,
    given: Option<Seq<char>>,
    workspace: JsonView,
    tab: JsonView,
) -> bool {
    &&& seeded_tab_id(given, workspace, tab) == Ok::<Seq<char>, Seq<char>>(seed.tab_id@)
    &&& pane_mapping(workspace, tab) == Ok::<Map<i64, Seq<char>>, Seq<char>>(seed.mapping@)
    &&& plan_of(seed.plan, tab_layout(tab))
}

/// What a workspace and its tab say, given the tab id in the environment.
pub fn prepare_seed(given: Option<String>, workspace: &Json, tab: &Json) -> (r: Result<
    Seed,
    String,
>)
    ensures
        match r {
            Ok(seed) => seed_error(opt_text(given), workspace@, tab@) is None && seed_of(
                seed,
                opt_text(given),
                workspace@,
                tab@,
            ),
            Err(message) => seed_error(opt_text(given), workspace@, tab@) == Some(message@),
        },
{
    let tab_id = match seed_tab_id(given, workspace, tab) {
        Ok(tab_id) => tab_id,
        Err(message) => return Err(message),
    };
    let mapping = match pane_public_mapping(workspace, tab) {
        Ok(mapping) => mapping,
        Err(message) => return Err(message),
    };
    let plan = plan_layout(tab);
    Ok(Seed { tab_id, mapping, plan })
}

/// Whether a pane has both a rectangle and the public id.
pub open spec fn places(
    rects: Map<i64, Rect>,
    mapping: Map<i64, Seq<char>>,
    internal: i64,
    public: Seq<char>,
) -> bool {
    &&& rects.contains_key(internal)
    &&& mapping.contains_key(internal)
    &&& mapping[internal] == public
}

/// Whether a table holds, under every public id of a pane with a rectangle, the
/// rectangle of a pane with that id.
pub open spec fn is_public_rects(
    rects: Map<i64, Rect>,
    mapping: Map<i64, Seq<char>>,
    panes: Map<Seq<char>, Rect>,
) -> bool {
    &&& forall|internal: i64, public: Seq<char>| #[trigger]
        places(rects, mapping, internal, public) ==> panes.contains_key(public)
    &&& forall|public: Seq<char>| #[trigger]
        panes.contains_key(public) ==> exists|internal: i64| #[trigger]
            places(rects, mapping, internal, public) && panes[public] == rects[internal]
}

/// The rectangles of panes by public id. Of panes with the same public id, any
/// one may count.
pub fn public_rects(rects: &NumberMap<Rect>, mapping: &NumberMap<String>) -> (r: TextMap<Rect>)
    ensures
        is_public_rects(rects@, mapping@, r@),
{
    let keys = rects.keys();
    let mut panes: TextMap<Rect> = TextMap::new();
    let mut i: usize = 0;
    while i < keys.len()
        invariant
            i <= keys.len(),
            forall|key: i64| rects@.contains_key(key) <==> #[trigger] keys@.contains(key),
            forall|k: int, public: Seq<char>|
                0 <= k < i && #[trigger] places(rects@, mapping@, keys@[k], public)
                    ==> panes@.contains_key(public),
            forall|public: Seq<char>| #[trigger]
                panes@.contains_key(public) ==> exists|internal: i64| #[trigger]
                    places(rects@, mapping@, internal, public) && panes@[public]
                        == rects@[internal],
        decreases keys.len() - i,
    {
        let internal = keys[i];
        let ghost before = panes@;
        assert(keys@.contains(internal));
        if let (Some(rect), Some(public)) = (rects.get(internal), mapping.get(internal)) {
            panes.insert(public.clone(), *rect);
            proof {
                assert(places(rects@, mapping@, internal, public@));
                assert forall|p: Seq<char>| #[trigger] panes@.contains_key(p) implies exists|n: i64|
                    #[trigger]
                    places(rects@, mapping@, n, p) && panes@[p] == rects@[n] by {
                    if p == public@ {
                        assert(places(rects@, mapping@, internal, p) && panes@[p]
                            == rects@[internal]);
                    } else {
                        assert(before.contains_key(p));
                    }
                }
            }
        }
        i = i + 1;
    }
    proof {
        assert forall|internal: i64, public: Seq<char>| #[trigger]
            places(rects@, mapping@, internal, public) implies panes@.contains_key(public) by {
            assert(keys@.contains(internal));
            let k = choose|k: int| 0 <= k < keys.len() && keys@[k] == internal;
            assert(places(rects@, mapping@, keys@[k], public));
        }
    }
    panes
}

/// Whether no pane has both a rectangle and a public id.
pub open spec fn places_none(rects: Map<i64, Rect>, mapping: Map<i64, Seq<char>>) -> bool {
    forall|internal: i64, public: Seq<char>| !#[trigger] places(rects, mapping, internal, public)
}

/// Whether a cache was brought up to date with a session: the public ids of the
/// mapped panes are recorded, and the tab holds the rectangles of the panes that
/// have both a rectangle and a public id. Where there are none, no tab changes.
pub open spec fn is_seeded(
    before: CacheView,
    tab_id: Seq<char>,
    mapping: Map<i64, Seq<char>>,
    rects: Map<i64, Rect>,
    now: u128,
    after: CacheView,
) -> bool {
    &&& after.aliases == before.aliases.union_prefer_right(session_aliases(mapping))
    &&& is_max_internal(after.max_internal, before.max_internal, mapping)
    &&& if places_none(rects, mapping) {
        after.tabs == before.tabs
    } else {
        &&& after.tabs.contains_key(tab_id)
        &&& after.tabs == before.tabs.insert(tab_id, after.tabs[tab_id])
        &&& is_public_rects(rects, mapping, after.tabs[tab_id].panes)
        &&& after.tabs[tab_id].updated_ns == now
    }
}

/// Brings a cache up to date with a session, given the values of the cuts of
/// its layout. Gives the tab's id where the tab was put into the cache.
pub fn seed_active_tab_cache(
    cache: &mut LayoutCache,
    seed: &Seed,
    values: &Vec<u64>,
    now: u128,
) -> (r: Option<String>)
    requires
        seed.plan.well_formed(),
        values@.len() == seed.plan.cuts@.len(),
    ensures
        is_seeded(
            old(cache)@,
            seed.tab_id@,
            seed.mapping@,
            placed_rects(seed.plan.panes@, values@),
            now,
            final(cache)@,
        ),
        opt_text(r) == (if places_none(
            placed_rects(seed.plan.panes@, values@),
            seed.mapping@,
        ) {
            None
        } else {
            Some(seed.tab_id@)
        }),
{
    record_session_aliases(cache, &seed.mapping);
    let rects = place_panes(&seed.plan, values);
    let panes = public_rects(&rects, &seed.mapping);
    if panes.len() == 0 {
        proof {
            assert forall|internal: i64, public: Seq<char>| !#[trigger] places(
                rects@,
                seed.mapping@,
                internal,
                public,
            ) by {
                if places(rects@, seed.mapping@, internal, public) {
                    assert(panes@.contains_key(public));
                }
            }
        }
        return None;
    }
    proof {
        if places_none(rects@, seed.mapping@) {
            assert forall|public: Seq<char>| !#[trigger] panes@.contains_key(public) by {
                if panes@.contains_key(public) {
                    let n = choose|n: i64| #[trigger]
                        places(rects@, seed.mapping@, n, public) && panes@[public] == rects@[n];
                }
            }
            assert(panes@ =~= Map::<Seq<char>, Rect>::empty());
        }
    }
    let ghost mid = cache.tabs@;
    cache.tabs.insert(seed.tab_id.clone(), CachedTab { panes, updated_ns: now });
    proof {
        assert(cache@.tabs =~= mid.insert(seed.tab_id@, cache@.tabs[seed.tab_id@]));
    }
    Some(seed.tab_id.clone())
}

/// The internal number that Herdr gives the next pane, in 64 signed bits.
pub open spec fn next_internal(n: i64) -> i64 {
    if n == i64::MAX {
        i64::MIN
    } else {
        (n + 1) as i64
    }
}

/// The rectangle of a pane of a cached tab.
pub open spec fn cached_rect(cache: CacheView, tab_id: Seq<char>, pane: Seq<char>) -> Option<Rect> {
    if cache.tabs.contains_key(tab_id) && cache.tabs[tab_id].panes.contains_key(pane) {
        Some(cache.tabs[tab_id].panes[pane])
    } else {
        None
    }
}

/// The rectangle of a pane of a cached tab.
pub fn find_rect(cache: &LayoutCache, tab_id: &str, pane: &str) -> (r: Option<Rect>)
    ensures
        r == cached_rect(cache@, tab_id@, pane@),
{
    match cache.tabs.get(tab_id) {
        Some(tab) => match tab.panes.get(pane) {
            Some(rect) => Some(*rect),
            None => None,
        },
        None => None,
    }
}

/// A cache in which a new pane is known by the next internal number.
pub open spec fn with_new_pane(cache: CacheView, new_public: Seq<char>) -> CacheView {
    let internal = next_internal(cache.max_internal);
    CacheView {
        tabs: cache.tabs,
        aliases: cache.aliases.insert(alias_of(internal), new_public),
        max_internal: if internal > cache.max_internal {
            internal
        } else {
            cache.max_internal
        },
    }
}

/// Records a new pane under the next internal number.
pub fn record_new_pane(cache: &mut LayoutCache, new_public: &str)
    ensures
        final(cache)@ == with_new_pane(old(cache)@, new_public@),
{
    let internal: i64 = if cache.max_internal == i64::MAX {
        i64::MIN
    } else {
        cache.max_internal + 1
    };
    if internal > cache.max_internal {
        cache.max_internal = internal;
    }
    cache.internal_aliases.insert(alias_text(internal), new_public.to_owned());
}

/// A tab in which a pane's rectangle is cut in two: the pane keeps the first
/// part, and the new pane has the second.
pub open spec fn split_tab(
    tab: TabView,
    target: Seq<char>,
    new_public: Seq<char>,
    horizontal: bool,
    middle: u64,
    now: u128,
) -> TabView {
    let (first, second) = parts_at(tab.panes[target], horizontal, middle);
    TabView { panes: tab.panes.insert(target, first).insert(new_public, second), updated_ns: now }
}

/// A cache in which a pane of a tab is split; where the cache has no rectangle
/// of the pane, no tab changes.
pub open spec fn with_split(
    cache: CacheView,
    tab_id: Seq<char>,
    target: Seq<char>,
    new_public: Seq<char>,
    horizontal: bool,
    middle: u64,
    now: u128,
) -> CacheView {
    if cached_rect(cache, tab_id, target) is Some {
        CacheView {
            tabs: cache.tabs.insert(
                tab_id,
                split_tab(cache.tabs[tab_id], target, new_public, horizontal, middle, now),
            ),
            ..cache
        }
    } else {
        cache
    }
}

/// Cuts the rectangle of a cached pane in two, for the pane and a new one.
pub fn record_split(
    cache: &mut LayoutCache,
    tab_id: &str,
    target: &str,
    new_public: &str,
    direction: &str,
    middle: u64,
    now: u128,
)
    ensures
        final(cache)@ == with_split(
            old(cache)@,
            tab_id@,
            target@,
            new_public@,
            direction@ == "right"@,
            middle,
            now,
        ),
{
    let rect = match find_rect(cache, tab_id, target) {
        Some(rect) => rect,
        None => return,
    };
    let ghost before = cache@;
    let (first, second) = split_rect(rect, direction, middle);
    if let Some(found) = cache.tabs.remove(tab_id) {
        let mut tab = found;
        tab.panes.insert(target.to_owned(), first);
        tab.panes.insert(new_public.to_owned(), second);
        tab.updated_ns = now;
        cache.tabs.insert(tab_id.to_owned(), tab);
        proof {
            let wanted = with_split(
                before,
                tab_id@,
                target@,
                new_public@,
                direction@ == "right"@,
                middle,
                now,
            );
            assert(cache@.tabs =~= wanted.tabs);
        }
    }
}

/// After a split the new pane is known at once: its internal id stands for its
/// public one, and the cached tab of the split pane has a rectangle for both.
pub proof fn split_is_known_at_once(
    cache: CacheView,
    tab_id: Seq<char>,
    target: Seq<char>,
    new_public: Seq<char>,
    horizontal: bool,
    middle: u64,
    now: u128,
)
    requires
        cached_rect(cache, tab_id, target) is Some,
    ensures
        ({
            let after = with_split(
                with_new_pane(cache, new_public),
                tab_id,
                target,
                new_public,
                horizontal,
                middle,
                now,
            );
            &&& public_id(alias_of(next_internal(cache.max_internal)), after)
                == new_public
            &&& cached_rect(after, tab_id, target) is Some
            &&& cached_rect(after, tab_id, new_public) == Some(
                parts_at(cache.tabs[tab_id].panes[target], horizontal, middle).1,
            )
            &&& target != new_public ==> cached_rect(after, tab_id, target) == Some(
                parts_at(cache.tabs[tab_id].panes[target], horizontal, middle).0,
            )
        }),
{
    alias_reads_back(next_internal(cache.max_internal));
}

/// A split keeps a cached tab up to date: where it held just the live panes
/// before, and the live panes after are those and the new one, it holds just
/// the live panes after.
pub proof fn split_keeps_tab_live(
    tab: TabView,
    tab_id: Seq<char>,
    before: Seq<JsonView>,
    after: Seq<JsonView>,
    target: Seq<char>,
    new_public: Seq<char>,
    horizontal: bool,
    middle: u64,
    now: u128,
)
    requires
        tab_is_live(tab, tab_id, before),
        tab.panes.contains_key(target),
        live_ids(tab_id, after).no_duplicates(),
        forall|id: Seq<char>| #[trigger]
            live_ids(tab_id, after).contains(id) <==> live_ids(tab_id, before).contains(id) || id
                == new_public,
    ensures
        tab_is_live(
            split_tab(tab, target, new_public, horizontal, middle, now),
            tab_id,
            after,
        ),
{
    let new_tab = split_tab(tab, target, new_public, horizontal, middle, now);
    assert forall|id: Seq<char>| #[trigger] new_tab.panes.contains_key(id) <==> live_ids(
        tab_id,
        after,
    ).contains(id) by {
        assert(tab.panes.contains_key(id) <==> live_ids(tab_id, before).contains(id));
    }
}

/// Once a cache is up to date with a session, it knows the internal id and the
/// rectangle of every pane of the session that has a rectangle.
pub proof fn seeded_panes_are_known(
    before: CacheView,
    tab_id: Seq<char>,
    mapping: Map<i64, Seq<char>>,
    rects: Map<i64, Rect>,
    now: u128,
    after: CacheView,
    internal: i64,
)
    requires
        is_seeded(before, tab_id, mapping, rects, now, after),
        mapping.contains_key(internal),
    ensures
        known_public_id(alias_of(internal), after) == Some(mapping[internal]),
        rects.contains_key(internal) ==> cached_rect(after, tab_id, mapping[internal]) is Some,
{
    recorded_panes_are_known(before, after, mapping, internal);
    if rects.contains_key(internal) {
        assert(places(rects, mapping, internal, mapping[internal]));
    }
}

/// To bring a cache up to date with a session changes no other tab.
pub proof fn seeding_keeps_other_tabs(
    before: CacheView,
    tab_id: Seq<char>,
    mapping: Map<i64, Seq<char>>,
    rects: Map<i64, Rect>,
    now: u128,
    after: CacheView,
    other: Seq<char>,
    pane: Seq<char>,
)
    requires
        is_seeded(before, tab_id, mapping, rects, now, after),
        other != tab_id,
    ensures
        cached_rect(after, other, pane) == cached_rect(before, other, pane),
{
}

/// A cache that counts its panes gives a new one an internal id that it has not
/// given before, and still counts its panes then, unless the numbers have run
/// out.
pub proof fn new_pane_takes_no_other_id(cache: CacheView, new_public: Seq<char>)
    requires
        counts_its_panes(cache),
        cache.max_internal < i64::MAX,
    ensures
        !cache.aliases.contains_key(alias_of(next_internal(cache.max_internal))),
        counts_its_panes(with_new_pane(cache, new_public)),
        forall|pane: Seq<char>| #[trigger]
            cache.aliases.contains_key(pane) ==> public_id(pane, with_new_pane(cache, new_public))
                == public_id(pane, cache),
{
    let new_id = alias_of(next_internal(cache.max_internal));
    let after = with_new_pane(cache, new_public);
    alias_reads_back(next_internal(cache.max_internal));
    assert forall|internal: i64|
        after.aliases.contains_key(#[trigger] alias_of(internal)) implies internal
        <= after.max_internal by {
        alias_reads_back(internal);
    }
}

} // verus!
