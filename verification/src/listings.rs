//! What is read from Herdr's list of panes and looked up in the cache. The laws
//! are stated over the places of the list and the members of its panes.

use vstd::prelude::*;

use crate::cache::{known_public_id, public_id, CacheView, TabView};
use crate::json::JsonView;
use crate::panes::{
    active_in_listing, cached_tab, focused_pane, id_in_tab, listed_id, listed_ids, listed_panes,
    live_ids, tab_is_live, tab_of_pane,
};
use crate::text::is_internal;
use crate::wording::holds;

verus! {

/// Whether a text begins with the mark of internal pane ids.
pub open spec fn is_marked(text: Seq<char>) -> bool {
    text.len() >= 2 && text.take(2) == "p_"@
}

/// Internal ids are the texts that begin with `p_`.
pub proof fn internal_ids_are_marked(text: Seq<char>)
    ensures
        is_internal(text) <==> is_marked(text),
{
    reveal_strlit("p_");
    if text.len() >= 2 {
        if is_internal(text) {
            assert(text.take(2) =~= "p_"@);
        }
        if text.take(2) == "p_"@ {
            assert(text.take(2)[0] == 'p');
            assert(text.take(2)[1] == '_');
        }
    }
}

/// Whether a listed pane has the focus and an id.
pub open spec fn is_focused(pane: JsonView, id: Seq<char>) -> bool {
    holds(pane, "focused"@, JsonView::Bool(true)) && holds(pane, "pane_id"@, JsonView::Text(id))
}

/// Whether a listed pane has the focus and some id.
pub open spec fn has_focus(pane: JsonView) -> bool {
    exists|id: Seq<char>| is_focused(pane, id)
}

proof fn focused_pane_from(panes: Seq<JsonView>, i: int, id: Seq<char>)
    requires
        0 <= i < panes.len(),
        is_focused(panes[i], id),
        forall|j: int| 0 <= j < i ==> !has_focus(#[trigger] panes[j]),
    ensures
        focused_pane(panes) == Some(id),
    decreases panes.len(),
{
    if i > 0 {
        let rest = panes.skip(1);
        assert(rest[i - 1] == panes[i]);
        assert forall|j: int| 0 <= j < i - 1 implies !has_focus(#[trigger] rest[j]) by {
            assert(rest[j] == panes[j + 1]);
        }
        focused_pane_from(rest, i - 1, id);
        assert(!has_focus(panes[0]));
        if let Some(other) = panes[0].text_at("pane_id"@) {
            assert(!is_focused(panes[0], other));
        }
    }
}

proof fn no_focused_pane(panes: Seq<JsonView>)
    requires
        forall|j: int| 0 <= j < panes.len() ==> !has_focus(#[trigger] panes[j]),
    ensures
        focused_pane(panes) is None,
    decreases panes.len(),
{
    if panes.len() > 0 {
        let rest = panes.skip(1);
        assert forall|j: int| 0 <= j < rest.len() implies !has_focus(#[trigger] rest[j]) by {
            assert(rest[j] == panes[j + 1]);
        }
        no_focused_pane(rest);
        assert(!has_focus(panes[0]));
        if let Some(other) = panes[0].text_at("pane_id"@) {
            assert(!is_focused(panes[0], other));
        }
    }
}

/// The active pane is the first listed one that has the focus and an id; none where
/// no listed pane has.
pub proof fn active_pane_is_the_first_focused(
    listing: JsonView,
    panes: Seq<JsonView>,
    i: int,
    id: Seq<char>,
)
    requires
        holds(listing, "panes"@, JsonView::Array(panes)),
    ensures
        0 <= i < panes.len() && is_focused(panes[i], id) && (forall|j: int|
            0 <= j < i ==> !has_focus(#[trigger] panes[j])) ==> active_in_listing(listing) == Ok::<
            Option<Seq<char>>,
            Seq<char>,
        >(Some(id)),
        (forall|j: int| 0 <= j < panes.len() ==> !has_focus(#[trigger] panes[j]))
            ==> active_in_listing(listing) == Ok::<Option<Seq<char>>, Seq<char>>(None),
        listed_panes(listing) == panes,
{
    if 0 <= i < panes.len() && is_focused(panes[i], id) && (forall|j: int|
        0 <= j < i ==> !has_focus(#[trigger] panes[j])) {
        focused_pane_from(panes, i, id);
    }
    if forall|j: int| 0 <= j < panes.len() ==> !has_focus(#[trigger] panes[j]) {
        no_focused_pane(panes);
    }
}

/// Whether a pane is the first one in a listing that has the focus and an id.
pub open spec fn focuses_first(listing: JsonView, id: Seq<char>) -> bool {
    exists|panes: Seq<JsonView>, i: int|
        {
            &&& 0 <= i < panes.len()
            &&& #[trigger] holds(listing, "panes"@, JsonView::Array(panes))
            &&& #[trigger] is_focused(panes[i], id)
            &&& forall|j: int| 0 <= j < i ==> !has_focus(#[trigger] panes[j])
        }
}

/// Whether a listing has panes, and none of them has the focus and an id.
pub open spec fn focuses_none(listing: JsonView) -> bool {
    exists|panes: Seq<JsonView>|
        {
            &&& #[trigger] holds(listing, "panes"@, JsonView::Array(panes))
            &&& forall|j: int| 0 <= j < panes.len() ==> !has_focus(#[trigger] panes[j])
        }
}

/// The active pane is the first listed one that has the focus and an id.
pub proof fn first_focused_pane_is_active(listing: JsonView, id: Seq<char>)
    ensures
        focuses_first(listing, id) ==> active_in_listing(listing) == Ok::<
            Option<Seq<char>>,
            Seq<char>,
        >(Some(id)),
        focuses_none(listing) ==> active_in_listing(listing) == Ok::<Option<Seq<char>>, Seq<char>>(
            None,
        ),
{
    if focuses_first(listing, id) {
        let (panes, i) = choose|panes: Seq<JsonView>, i: int|
            {
                &&& 0 <= i < panes.len()
                &&& #[trigger] holds(listing, "panes"@, JsonView::Array(panes))
                &&& #[trigger] is_focused(panes[i], id)
                &&& forall|j: int| 0 <= j < i ==> !has_focus(#[trigger] panes[j])
            };
        active_pane_is_the_first_focused(listing, panes, i, id);
    }
    if focuses_none(listing) {
        let panes = choose|panes: Seq<JsonView>|
            {
                &&& #[trigger] holds(listing, "panes"@, JsonView::Array(panes))
                &&& forall|j: int| 0 <= j < panes.len() ==> !has_focus(#[trigger] panes[j])
            };
        active_pane_is_the_first_focused(listing, panes, 0, id);
    }
}

/// A listing without an array of panes lists none, and names no active pane.
pub proof fn listing_without_panes(listing: JsonView)
    requires
        forall|panes: Seq<JsonView>| !#[trigger] holds(listing, "panes"@, JsonView::Array(panes)),
    ensures
        listed_panes(listing).len() == 0,
        active_in_listing(listing) == Err::<Option<Seq<char>>, Seq<char>>(
            "Herdr pane.list returned no panes array"@,
        ),
{
    if let Some(panes) = listing.items_at("panes"@) {
        assert(holds(listing, "panes"@, JsonView::Array(panes)));
    }
}

/// The tab of a pane is that of the first listed one with its id.
pub proof fn tab_is_that_of_the_first(panes: Seq<JsonView>, public: Seq<char>, i: int, tab: Seq<char>)
    ensures
        0 <= i < panes.len() && holds(panes[i], "pane_id"@, JsonView::Text(public)) && (forall|
            j: int,
        |
            0 <= j < i ==> !holds(#[trigger] panes[j], "pane_id"@, JsonView::Text(public))) ==> (
        tab_of_pane(public, panes) == Some(tab) <==> holds(panes[i], "tab_id"@, JsonView::Text(tab))),
        (forall|j: int|
            0 <= j < panes.len() ==> !holds(
                #[trigger] panes[j],
                "pane_id"@,
                JsonView::Text(public),
            )) ==> tab_of_pane(public, panes) is None,
    decreases panes.len(),
{
    if panes.len() > 0 && !holds(panes[0], "pane_id"@, JsonView::Text(public)) {
        let rest = panes.skip(1);
        tab_is_that_of_the_first(rest, public, i - 1, tab);
        if forall|j: int|
            0 <= j < panes.len() ==> !holds(#[trigger] panes[j], "pane_id"@, JsonView::Text(public)) {
            assert forall|j: int| 0 <= j < rest.len() implies !holds(
                #[trigger] rest[j],
                "pane_id"@,
                JsonView::Text(public),
            ) by {
                assert(rest[j] == panes[j + 1]);
            }
        }
        if 0 < i < panes.len() && (forall|j: int|
            0 <= j < i ==> !holds(#[trigger] panes[j], "pane_id"@, JsonView::Text(public))) {
            assert(rest[i - 1] == panes[i]);
            assert forall|j: int| 0 <= j < i - 1 implies !holds(
                #[trigger] rest[j],
                "pane_id"@,
                JsonView::Text(public),
            ) by {
                assert(rest[j] == panes[j + 1]);
            }
        }
    }
}

/// Whether a listed pane belongs to a tab and has an id.
pub open spec fn in_tab(pane: JsonView, tab: Seq<char>, id: Seq<char>) -> bool {
    holds(pane, "tab_id"@, JsonView::Text(tab)) && holds(pane, "pane_id"@, JsonView::Text(id))
}

/// Whether no two listed panes of a tab have the same id.
pub open spec fn listed_once(panes: Seq<JsonView>, tab: Seq<char>) -> bool {
    forall|i: int, j: int, id: Seq<char>|
        0 <= i < j < panes.len() && #[trigger] in_tab(panes[i], tab, id) ==> !#[trigger] in_tab(
            panes[j],
            tab,
            id,
        )
}

/// What `filter_map` gives is what the function gives at some place.
proof fn filter_map_gives(
    panes: Seq<JsonView>,
    f: spec_fn(JsonView) -> Option<Seq<char>>,
    id: Seq<char>,
)
    ensures
        panes.filter_map(f).contains(id) <==> exists|i: int|
            0 <= i < panes.len() && #[trigger] f(panes[i]) == Some(id),
    decreases panes.len(),
{
    if panes.len() > 0 {
        let rest = panes.drop_last();
        let n = panes.len() - 1;
        filter_map_gives(rest, f, id);
        let fewer = rest.filter_map(f);
        let all = panes.filter_map(f);
        if all.contains(id) {
            if f(panes[n]) != Some(id) {
                let k = choose|k: int| 0 <= k < all.len() && all[k] == id;
                assert(fewer[k] == id);
                let i = choose|i: int| 0 <= i < rest.len() && #[trigger] f(rest[i]) == Some(id);
                assert(f(panes[i]) == Some(id));
            }
        }
        if exists|i: int| 0 <= i < panes.len() && #[trigger] f(panes[i]) == Some(id) {
            let i = choose|i: int| 0 <= i < panes.len() && #[trigger] f(panes[i]) == Some(id);
            if i == n {
                assert(all[all.len() - 1] == id);
            } else {
                assert(f(rest[i]) == Some(id));
                let k = choose|k: int| 0 <= k < fewer.len() && fewer[k] == id;
                assert(all[k] == id);
            }
        }
    }
}

/// The live panes of a tab are the listed ones that belong to it.
pub proof fn live_panes_are_listed_in_the_tab(panes: Seq<JsonView>, tab: Seq<char>, id: Seq<char>)
    ensures
        live_ids(tab, panes).contains(id) <==> exists|i: int|
            0 <= i < panes.len() && #[trigger] in_tab(panes[i], tab, id),
{
    let f = id_in_tab(tab);
    filter_map_gives(panes, f, id);
    assert forall|i: int| 0 <= i < panes.len() implies (#[trigger] in_tab(panes[i], tab, id) <==> f(
        panes[i],
    ) == Some(id)) by {}
    if live_ids(tab, panes).contains(id) {
        let i = choose|i: int| 0 <= i < panes.len() && #[trigger] f(panes[i]) == Some(id);
        assert(in_tab(panes[i], tab, id));
    }
}

proof fn live_ids_differ_where_listed_once(panes: Seq<JsonView>, tab: Seq<char>)
    ensures
        live_ids(tab, panes).no_duplicates() <==> listed_once(panes, tab),
    decreases panes.len(),
{
    if panes.len() > 0 {
        let rest = panes.drop_last();
        let n = panes.len() - 1;
        let last = panes.last();
        live_ids_differ_where_listed_once(rest, tab);
        let ids = live_ids(tab, panes);
        let fewer = live_ids(tab, rest);
        match id_in_tab(tab)(last) {
            Some(id) => {
                assert(ids =~= fewer + seq![id]);
                assert(in_tab(last, tab, id));
                live_panes_are_listed_in_the_tab(rest, tab, id);
                if ids.no_duplicates() {
                    assert(fewer.no_duplicates()) by {
                        assert forall|i: int, j: int|
                            0 <= i < fewer.len() && 0 <= j < fewer.len() && i != j implies fewer[i]
                            != fewer[j] by {
                            assert(ids[i] == fewer[i] && ids[j] == fewer[j]);
                        }
                    }
                    assert(!fewer.contains(id)) by {
                        if fewer.contains(id) {
                            let k = choose|k: int| 0 <= k < fewer.len() && fewer[k] == id;
                            assert(ids[k] == id);
                            assert(ids[fewer.len() as int] == id);
                        }
                    }
                    assert forall|i: int, j: int, other: Seq<char>|
                        0 <= i < j < panes.len() && #[trigger] in_tab(
                            panes[i],
                            tab,
                            other,
                        ) implies !#[trigger] in_tab(panes[j], tab, other) by {
                        assert(rest[i] == panes[i]);
                        if j < n {
                            assert(rest[j] == panes[j]);
                        } else if in_tab(panes[j], tab, other) {
                            assert(other == id);
                            assert(in_tab(rest[i], tab, id));
                        }
                    }
                }
                if listed_once(panes, tab) {
                    assert(listed_once(rest, tab)) by {
                        assert forall|i: int, j: int, other: Seq<char>|
                            0 <= i < j < rest.len() && #[trigger] in_tab(
                                rest[i],
                                tab,
                                other,
                            ) implies !#[trigger] in_tab(rest[j], tab, other) by {
                            assert(rest[i] == panes[i] && rest[j] == panes[j]);
                        }
                    }
                    assert(!fewer.contains(id)) by {
                        if fewer.contains(id) {
                            let k = choose|k: int|
                                0 <= k < rest.len() && #[trigger] in_tab(rest[k], tab, id);
                            assert(in_tab(panes[k], tab, id));
                            assert(in_tab(panes[n], tab, id));
                        }
                    }
                }
            },
            None => {
                assert(ids =~= fewer);
                assert forall|other: Seq<char>| !#[trigger] in_tab(last, tab, other) by {}
                if listed_once(rest, tab) {
                    assert forall|i: int, j: int, other: Seq<char>|
                        0 <= i < j < panes.len() && #[trigger] in_tab(
                            panes[i],
                            tab,
                            other,
                        ) implies !#[trigger] in_tab(panes[j], tab, other) by {
                        assert(rest[i] == panes[i]);
                        if j < n {
                            assert(rest[j] == panes[j]);
                        }
                    }
                }
                if listed_once(panes, tab) {
                    assert forall|i: int, j: int, other: Seq<char>|
                        0 <= i < j < rest.len() && #[trigger] in_tab(
                            rest[i],
                            tab,
                            other,
                        ) implies !#[trigger] in_tab(rest[j], tab, other) by {
                        assert(rest[i] == panes[i] && rest[j] == panes[j]);
                    }
                }
            },
        }
    }
}

/// A cached tab is up to date just where Herdr lists each of its panes once in the
/// tab, and no other pane there.
pub proof fn cached_tab_is_live_with_the_listed_panes(
    cached: TabView,
    tab: Seq<char>,
    panes: Seq<JsonView>,
)
    ensures
        tab_is_live(cached, tab, panes) <==> listed_once(panes, tab) && (forall|id: Seq<char>|
            #[trigger] cached.panes.contains_key(id) <==> exists|i: int|
                0 <= i < panes.len() && #[trigger] in_tab(panes[i], tab, id)),
{
    live_ids_differ_where_listed_once(panes, tab);
    assert forall|id: Seq<char>| #[trigger] live_ids(tab, panes).contains(id) <==> exists|i: int|
        0 <= i < panes.len() && #[trigger] in_tab(panes[i], tab, id) by {
        live_panes_are_listed_in_the_tab(panes, tab, id);
    }
}

/// The panes that live are the listed ones that have an id.
pub proof fn live_panes_are_listed(panes: Seq<JsonView>, id: Seq<char>)
    ensures
        listed_ids(panes).contains(id) <==> exists|i: int|
            0 <= i < panes.len() && #[trigger] holds(panes[i], "pane_id"@, JsonView::Text(id)),
{
    let f = listed_id();
    filter_map_gives(panes, f, id);
    if listed_ids(panes).contains(id) {
        let i = choose|i: int| 0 <= i < panes.len() && #[trigger] f(panes[i]) == Some(id);
        assert(holds(panes[i], "pane_id"@, JsonView::Text(id)));
    }
    if exists|i: int|
        0 <= i < panes.len() && #[trigger] holds(panes[i], "pane_id"@, JsonView::Text(id)) {
        let i = choose|i: int|
            0 <= i < panes.len() && #[trigger] holds(panes[i], "pane_id"@, JsonView::Text(id));
        assert(f(panes[i]) == Some(id));
    }
}

/// An id without the mark is its own public id. One with it stands for the public
/// id that the cache holds for it; where the cache holds none, it is not known.
pub proof fn public_ids_are_looked_up(pane: Seq<char>, cache: CacheView)
    ensures
        !is_marked(pane) ==> known_public_id(pane, cache) == Some(pane) && public_id(pane, cache)
            == pane,
        is_marked(pane) && cache.aliases.contains_key(pane) ==> known_public_id(pane, cache)
            == Some(cache.aliases[pane]) && public_id(pane, cache) == cache.aliases[pane],
        is_marked(pane) && !cache.aliases.contains_key(pane) ==> known_public_id(pane, cache)
            is None && public_id(pane, cache) == pane,
{
    internal_ids_are_marked(pane);
}

/// The cache is used for a pane just where the pane's public id is known, Herdr
/// lists the pane in a tab, and the cache holds that tab and is up to date with it.
pub proof fn cache_is_used_where_it_is_live(
    pane: Seq<char>,
    cache: CacheView,
    panes: Seq<JsonView>,
    public: Seq<char>,
    tab: TabView,
)
    ensures
        cached_tab(pane, cache, panes) == Some((public, tab)) <==> {
            &&& public == public_id(pane, cache)
            &&& !is_marked(public)
            &&& exists|id: Seq<char>|
                {
                    &&& #[trigger] cache.tabs.contains_key(id)
                    &&& tab_of_pane(public, panes) == Some(id)
                    &&& cache.tabs[id] == tab
                    &&& tab_is_live(tab, id, panes)
                }
        },
{
    internal_ids_are_marked(public_id(pane, cache));
}

} // verus!
