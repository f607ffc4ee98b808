//! Herdr's list of live panes: the focused pane, the tab of a pane, the panes of
//! a tab, and what is stale beside them.

use vstd::prelude::*;
use vstd::relations::sorted_by;

use crate::adjacent::{search_public, searches, PublicSearch};
use crate::cache::{public_id, public_id_from_cache, CacheView, CachedTab, LayoutCache, TabView};
use crate::json::{views, Json, JsonView};
use crate::order::{sort_texts, text_order, text_order_is_total, texts};
use crate::paths::Environment;
use crate::text::{is_internal, is_internal_id, same_text};

verus! {

/// The panes in the answer to `pane.list`; none where it lists none.
pub open spec fn listed_panes(listing: JsonView) -> Seq<JsonView> {
    match listing.items_at("panes"@) {
        Some(panes) => panes,
        None => Seq::empty(),
    }
}

/// The panes in the answer to `pane.list`.
pub fn pane_list(listing: &Json) -> (r: Vec<Json>)
    ensures
        views(r@) == listed_panes(listing@),
{
    let mut out: Vec<Json> = Vec::new();
    if let Some(panes) = listing.array_at("panes") {
        let mut i: usize = 0;
        while i < panes.len()
            invariant
                i <= panes.len(),
                views(out@) == views(panes@).take(i as int),
            decreases panes.len() - i,
        {
            let ghost before = views(out@);
            out.push(panes[i].duplicate());
            proof {
                assert(views(out@) =~= before.push(views(panes@)[i as int]));
                assert(views(panes@).take(i + 1) =~= before.push(views(panes@)[i as int]));
            }
            i = i + 1;
        }
        proof {
            assert(views(panes@).take(i as int) =~= views(panes@));
        }
    } else {
        proof {
            assert(views(out@) =~= Seq::<JsonView>::empty());
        }
    }
    out
}

/// The first pane that has the focus and an id.
pub open spec fn focused_pane(panes: Seq<JsonView>) -> Option<Seq<char>>
    decreases panes.len(),
{
    if panes.len() == 0 {
        None
    } else {
        let focused = match panes[0].get("focused"@) {
            Some(flag) => flag.flag() == Some(true),
            None => false,
        };
        match panes[0].text_at("pane_id"@) {
            Some(id) if focused => Some(id),
            _ => focused_pane(panes.skip(1)),
        }
    }
}

/// The focused pane in the answer to `pane.list`, or what is wrong.
pub open spec fn active_in_listing(listing: JsonView) -> Result<Option<Seq<char>>, Seq<char>> {
    match listing.items_at("panes"@) {
        Some(panes) => Ok(focused_pane(panes)),
        None => Err("Herdr pane.list returned no panes array"@),
    }
}

/// The characters of a string that may be absent.
pub open spec fn opt_text(text: Option<String>) -> Option<Seq<char>> {
    match text {
        Some(text) => Some(text@),
        None => None,
    }
}

/// The focused pane in the answer to `pane.list`.
pub fn active_pane_in(listing: &Json) -> (r: Result<Option<String>, String>)
    ensures
        match r {
            Ok(pane) => active_in_listing(listing@) == Ok::<Option<Seq<char>>, Seq<char>>(
                opt_text(pane),
            ),
            Err(message) => active_in_listing(listing@) == Err::<Option<Seq<char>>, Seq<char>>(
                message@,
            ),
        },
{
    let panes = match listing.array_at("panes") {
        Some(panes) => panes,
        None => return Err("Herdr pane.list returned no panes array".to_owned()),
    };
    let ghost all = views(panes@);
    let mut i: usize = 0;
    proof {
        assert(all.skip(0) =~= all);
    }
    while i < panes.len()
        invariant
            i <= panes.len(),
            all == views(panes@),
            listing@.items_at("panes"@) == Some(all),
            focused_pane(all) == focused_pane(all.skip(i as int)),
        decreases panes.len() - i,
    {
        let pane = &panes[i];
        let focused = match pane.get("focused") {
            Some(flag) => match flag.as_bool() {
                Some(focused) => focused,
                None => false,
            },
            None => false,
        };
        proof {
            assert(all.skip(i as int)[0] == pane@);
            assert(all.skip(i as int).skip(1) =~= all.skip(i + 1));
        }
        if focused {
            if let Some(id) = pane.text_at("pane_id") {
                return Ok(Some(id.clone()));
            }
        }
        i = i + 1;
    }
    Ok(None)
}

/// The pane that the environment names, where it is not empty.
pub open spec fn given_pane(env: Environment) -> Option<Seq<char>> {
    match (env.active_pane_id, env.pane_id) {
        (Some(id), _) if id@.len() > 0 => Some(id@),
        (_, Some(id)) if id@.len() > 0 => Some(id@),
        _ => None,
    }
}

/// The pane that the environment names as active.
pub fn given_pane_id(env: &Environment) -> (r: Option<String>)
    ensures
        opt_text(r) == given_pane(*env),
{
    if let Some(id) = &env.active_pane_id {
        if !id.as_str().is_empty() {
            return Some(id.clone());
        }
    }
    if let Some(id) = &env.pane_id {
        if !id.as_str().is_empty() {
            return Some(id.clone());
        }
    }
    None
}

/// A text that may be absent, taken as absent where it is empty.
pub open spec fn unless_empty(text: Option<String>) -> Option<Seq<char>> {
    match text {
        Some(text) if text@.len() > 0 => Some(text@),
        _ => None,
    }
}

/// A text that may be absent, taken as absent where it is empty.
pub fn non_empty(text: &Option<String>) -> (r: Option<String>)
    ensures
        opt_text(r) == unless_empty(*text),
{
    if let Some(text) = text {
        if !text.as_str().is_empty() {
            return Some(text.clone());
        }
    }
    None
}

/// The tab of the first listed pane with a public id.
pub open spec fn tab_of_pane(public: Seq<char>, panes: Seq<JsonView>) -> Option<Seq<char>>
    decreases panes.len(),
{
    if panes.len() == 0 {
        None
    } else if panes[0].text_at("pane_id"@) == Some(public) {
        panes[0].text_at("tab_id"@)
    } else {
        tab_of_pane(public, panes.skip(1))
    }
}

/// The tab of the first listed pane with a public id.
pub fn tab_key_for_public_pane(public_pane_id: &str, panes: &Vec<Json>) -> (r: Option<String>)
    ensures
        opt_text(r) == tab_of_pane(public_pane_id@, views(panes@)),
{
    let ghost all = views(panes@);
    let mut i: usize = 0;
    proof {
        assert(all.skip(0) =~= all);
    }
    while i < panes.len()
        invariant
            i <= panes.len(),
            all == views(panes@),
            tab_of_pane(public_pane_id@, all) == tab_of_pane(
                public_pane_id@,
                all.skip(i as int),
            ),
        decreases panes.len() - i,
    {
        let pane = &panes[i];
        proof {
            assert(all.skip(i as int)[0] == pane@);
            assert(all.skip(i as int).skip(1) =~= all.skip(i + 1));
        }
        if let Some(id) = pane.text_at("pane_id") {
            if same_text(id.as_str(), public_pane_id) {
                return match pane.text_at("tab_id") {
                    Some(tab) => Some(tab.clone()),
                    None => None,
                };
            }
        }
        i = i + 1;
    }
    None
}

/// The id of a listed pane that belongs to a tab.
pub open spec fn id_in_tab(tab: Seq<char>) -> spec_fn(JsonView) -> Option<Seq<char>> {
    |pane: JsonView|
        if pane.text_at("tab_id"@) == Some(tab) {
            pane.text_at("pane_id"@)
        } else {
            None
        }
}

/// The ids of the listed panes that belong to a tab, in the order of the list.
pub open spec fn live_ids(tab: Seq<char>, panes: Seq<JsonView>) -> Seq<Seq<char>> {
    panes.filter_map(id_in_tab(tab))
}

/// The ids of the listed panes that belong to a tab, sorted.
pub fn live_tab_pane_ids(tab_id: &str, panes: &Vec<Json>) -> (r: Vec<String>)
    ensures
        sorted_by(texts(r@), text_order()),
        texts(r@).to_multiset() == live_ids(tab_id@, views(panes@)).to_multiset(),
{
    let ghost all = views(panes@);
    let mut ids: Vec<String> = Vec::new();
    let mut i: usize = 0;
    proof {
        assert(all.take(0) =~= Seq::<JsonView>::empty());
        assert(texts(ids@) =~= live_ids(tab_id@, all.take(0)));
    }
    while i < panes.len()
        invariant
            i <= panes.len(),
            all == views(panes@),
            texts(ids@) == live_ids(tab_id@, all.take(i as int)),
        decreases panes.len() - i,
    {
        let pane = &panes[i];
        let ghost before = texts(ids@);
        proof {
            assert(all.take(i + 1).drop_last() =~= all.take(i as int));
            assert(all.take(i + 1).last() == pane@);
        }
        if let Some(tab) = pane.text_at("tab_id") {
            if same_text(tab.as_str(), tab_id) {
                if let Some(id) = pane.text_at("pane_id") {
                    ids.push(id.clone());
                    proof {
                        assert(texts(ids@) =~= before + seq![id@]);
                    }
                }
            }
        }
        i = i + 1;
    }
    proof {
        assert(all.take(i as int) =~= all);
    }
    sort_texts(&ids)
}

/// Whether a cached tab holds just the live panes of the tab.
pub open spec fn tab_is_live(cached: TabView, tab: Seq<char>, panes: Seq<JsonView>) -> bool {
    let live = live_ids(tab, panes);
    &&& live.no_duplicates()
    &&& forall|id: Seq<char>| #[trigger] cached.panes.contains_key(id) <==> live.contains(id)
}

proof fn same_multiset_of_distinct<A>(a: Seq<A>, b: Seq<A>)
    requires
        a.no_duplicates(),
    ensures
        a.to_multiset() == b.to_multiset() <==> (b.no_duplicates() && forall|x: A| #[trigger]
            a.contains(x) <==> b.contains(x)),
{
    broadcast use vstd::seq_lib::group_to_multiset_ensures;

    if a.to_multiset() == b.to_multiset() {
        a.lemma_multiset_has_no_duplicates();
        b.lemma_multiset_has_no_duplicates_conv();
        assert forall|x: A| #[trigger] a.contains(x) <==> b.contains(x) by {
            assert(a.contains(x) <==> a.to_multiset().count(x) > 0);
            assert(b.contains(x) <==> b.to_multiset().count(x) > 0);
        }
    }
    if b.no_duplicates() && forall|x: A| #[trigger] a.contains(x) <==> b.contains(x) {
        a.lemma_multiset_has_no_duplicates();
        b.lemma_multiset_has_no_duplicates();
        assert forall|x: A| a.to_multiset().count(x) == b.to_multiset().count(x) by {
            assert(a.contains(x) <==> a.to_multiset().count(x) > 0);
            assert(b.contains(x) <==> b.to_multiset().count(x) > 0);
        }
        assert(a.to_multiset() =~= b.to_multiset());
    }
}

/// Whether two lists hold the same texts.
fn same_texts(a: &Vec<String>, b: &Vec<String>) -> (r: bool)
    ensures
        r == (texts(a@) == texts(b@)),
{
    if a.len() != b.len() {
        proof {
            assert(texts(a@).len() != texts(b@).len());
        }
        return false;
    }
    let mut i: usize = 0;
    while i < a.len()
        invariant
            i <= a.len(),
            a.len() == b.len(),
            forall|k: int| 0 <= k < i ==> #[trigger] texts(a@)[k] == texts(b@)[k],
        decreases a.len() - i,
    {
        if !same_text(a[i].as_str(), b[i].as_str()) {
            proof {
                assert(texts(a@)[i as int] != texts(b@)[i as int]);
            }
            return false;
        }
        i = i + 1;
    }
    proof {
        assert(texts(a@) =~= texts(b@));
    }
    true
}

/// Whether a cached tab holds just the live panes of the tab.
pub fn cache_tab_is_live(cached: &CachedTab, tab_id: &str, panes: &Vec<Json>) -> (r: bool)
    ensures
        r == tab_is_live(cached@, tab_id@, views(panes@)),
{
    let keys = cached.panes.keys();
    let cached_ids = sort_texts(&keys);
    let live = live_tab_pane_ids(tab_id, panes);
    proof {
        let a = texts(keys@);
        let b = live_ids(tab_id@, views(panes@));
        text_order_is_total();
        same_multiset_of_distinct(a, b);
        if a.to_multiset() == b.to_multiset() {
            vstd::seq_lib::lemma_sorted_unique(texts(cached_ids@), texts(live@), text_order());
        }
        assert forall|id: Seq<char>| #[trigger] cached@.panes.contains_key(id) <==> a.contains(
            id,
        ) by {}
        if b.no_duplicates() && (forall|id: Seq<char>| #[trigger]
            cached@.panes.contains_key(id) <==> b.contains(id)) {
            assert forall|x: Seq<char>| #[trigger] a.contains(x) <==> b.contains(x) by {
                assert(cached@.panes.contains_key(x) <==> b.contains(x));
            }
        }
    }
    same_texts(&cached_ids, &live)
}

/// The current pane's public id and its cached tab, where the cache knows the
/// pane and its tab and is up to date with the live panes.
pub open spec fn cached_tab(
    pane_id: Seq<char>,
    cache: CacheView,
    panes: Seq<JsonView>,
) -> Option<(Seq<char>, TabView)> {
    let public = public_id(pane_id, cache);
    if is_internal(public) {
        None
    } else {
        match tab_of_pane(public, panes) {
            Some(tab) => if cache.tabs.contains_key(tab) && tab_is_live(
                cache.tabs[tab],
                tab,
                panes,
            ) {
                Some((public, cache.tabs[tab]))
            } else {
                None
            },
            None => None,
        }
    }
}

/// The search for the pane beside the current one among the cached panes of its
/// tab; none where the cache cannot be used.
pub fn cached_adjacent(
    direction: &str,
    current_pane_id: &str,
    cache: &LayoutCache,
    panes: &Vec<Json>,
) -> (r: Option<PublicSearch>)
    ensures
        match r {
            Some(search) => cached_tab(current_pane_id@, cache@, views(panes@)) matches Some(
                (public, tab),
            ) && searches(
                texts(search.panes@),
                search.probes@,
                direction@,
                public,
                tab.panes,
            ),
            None => cached_tab(current_pane_id@, cache@, views(panes@)) is None,
        },
{
    let public = public_id_from_cache(current_pane_id, cache);
    if is_internal_id(public.as_str()) {
        return None;
    }
    let tab_id = match tab_key_for_public_pane(public.as_str(), panes) {
        Some(tab_id) => tab_id,
        None => return None,
    };
    let cached = match cache.tabs.get(tab_id.as_str()) {
        Some(cached) => cached,
        None => return None,
    };
    if !cache_tab_is_live(cached, tab_id.as_str(), panes) {
        return None;
    }
    Some(search_public(direction, public.as_str(), &cached.panes))
}

/// The id of a listed pane.
pub open spec fn listed_id() -> spec_fn(JsonView) -> Option<Seq<char>> {
    |pane: JsonView| pane.text_at("pane_id"@)
}

/// The ids of the listed panes.
pub open spec fn listed_ids(panes: Seq<JsonView>) -> Seq<Seq<char>> {
    panes.filter_map(listed_id())
}

/// The ids of the listed panes.
pub fn live_pane_ids(panes: &Vec<Json>) -> (r: Vec<String>)
    ensures
        texts(r@) == listed_ids(views(panes@)),
{
    let ghost all = views(panes@);
    let mut ids: Vec<String> = Vec::new();
    let mut i: usize = 0;
    proof {
        assert(all.take(0) =~= Seq::<JsonView>::empty());
        assert(texts(ids@) =~= listed_ids(all.take(0)));
    }
    while i < panes.len()
        invariant
            i <= panes.len(),
            all == views(panes@),
            texts(ids@) == listed_ids(all.take(i as int)),
        decreases panes.len() - i,
    {
        let pane = &panes[i];
        let ghost before = texts(ids@);
        proof {
            assert(all.take(i + 1).drop_last() =~= all.take(i as int));
            assert(all.take(i + 1).last() == pane@);
        }
        if let Some(id) = pane.text_at("pane_id") {
            ids.push(id.clone());
            proof {
                assert(texts(ids@) =~= before + seq![id@]);
            }
        }
        i = i + 1;
    }
    proof {
        assert(all.take(i as int) =~= all);
    }
    ids
}

/// Whether a text is none of several.
pub open spec fn is_stale(live: Seq<Seq<char>>) -> spec_fn(Seq<char>) -> bool {
    |name: Seq<char>| !live.contains(name)
}

fn contains_text(items: &Vec<String>, text: &str) -> (r: bool)
    ensures
        r == texts(items@).contains(text@),
{
    let mut i: usize = 0;
    while i < items.len()
        invariant
            i <= items.len(),
            forall|k: int| 0 <= k < i ==> #[trigger] texts(items@)[k] != text@,
        decreases items.len() - i,
    {
        if same_text(items[i].as_str(), text) {
            proof {
                assert(texts(items@)[i as int] == text@);
            }
            return true;
        }
        i = i + 1;
    }
    false
}

/// The markers of panes that do not live any more, in the order in which they
/// were found.
pub fn prune_nvim_markers(names: &Vec<String>, live: &Vec<String>) -> (r: Vec<String>)
    ensures
        texts(r@) == texts(names@).filter(is_stale(texts(live@))),
{
    let ghost all = texts(names@);
    let ghost stale = is_stale(texts(live@));
    let mut out: Vec<String> = Vec::new();
    let mut i: usize = 0;
    proof {
        reveal(Seq::filter);
        assert(texts(out@) =~= all.take(0).filter(stale));
    }
    while i < names.len()
        invariant
            i <= names.len(),
            all == texts(names@),
            stale == is_stale(texts(live@)),
            texts(out@) == all.take(i as int).filter(stale),
        decreases names.len() - i,
    {
        let ghost before = texts(out@);
        proof {
            reveal(Seq::filter);
            assert(all.take(i + 1).drop_last() =~= all.take(i as int));
            assert(all.take(i + 1).last() == names@[i as int]@);
        }
        if !contains_text(live, names[i].as_str()) {
            out.push(names[i].clone());
            proof {
                assert(texts(out@) =~= before.push(names@[i as int]@));
            }
        }
        i = i + 1;
    }
    proof {
        assert(all.take(i as int) =~= all);
    }
    out
}

} // verus!
