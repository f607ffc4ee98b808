//! The layout cache: the rectangles of the panes of each tab, and the public
//! pane ids behind Herdr's internal ones.

use vstd::prelude::*;

use crate::layout::Rect;
use crate::tables::{NumberMap, TextMap};
use crate::text::{decimal_int, is_internal, is_internal_id, parsed_i64, signed_text, signed_text_reads_back};

verus! {

/// The panes of a tab, by public id, and the time of the last update in
/// nanoseconds.
pub struct CachedTab {
    pub panes: TextMap<Rect>,
    pub updated_ns: u128,
}

/// What a cached tab holds.
#[verifier::ext_equal]
pub struct TabView {
    pub panes: Map<Seq<char>, Rect>,
    pub updated_ns: u128,
}

impl View for CachedTab {
    type V = TabView;

    open spec fn view(&self) -> TabView {
        TabView { panes: self.panes@, updated_ns: self.updated_ns }
    }
}

/// The cached tabs by id, the public id behind each internal one, and the
/// largest internal pane number seen.
pub struct LayoutCache {
    pub tabs: TextMap<CachedTab>,
    pub internal_aliases: TextMap<String>,
    pub max_internal: i64,
}

/// What a layout cache holds.
#[verifier::ext_equal]
pub struct CacheView {
    pub tabs: Map<Seq<char>, TabView>,
    pub aliases: Map<Seq<char>, Seq<char>>,
    pub max_internal: i64,
}

impl View for LayoutCache {
    type V = CacheView;

    open spec fn view(&self) -> CacheView {
        CacheView {
            tabs: self.tabs@,
            aliases: self.internal_aliases@,
            max_internal: self.max_internal,
        }
    }
}

/// An empty cache.
pub open spec fn empty_cache() -> CacheView {
    CacheView { tabs: Map::empty(), aliases: Map::empty(), max_internal: 0 }
}

impl Default for LayoutCache {
    fn default() -> (r: LayoutCache)
        ensures
            r@ == empty_cache(),
    {
        LayoutCache { tabs: TextMap::new(), internal_aliases: TextMap::new(), max_internal: 0 }
    }
}

/// The internal pane id of a pane number.
pub open spec fn alias_of(internal: i64) -> Seq<char> {
    "p_"@ + decimal_int(internal as int)
}

/// The internal pane id of a pane number.
pub fn alias_text(internal: i64) -> (r: String)
    ensures
        r@ == alias_of(internal),
{
    let mut out: String = "p_".to_owned();
    let digits = signed_text(internal);
    out.append(digits.as_str());
    out
}

/// Internal pane ids are marked as such, and different numbers have different
/// ones: the number is read back from behind the mark.
pub proof fn alias_reads_back(internal: i64)
    ensures
        is_internal(alias_of(internal)),
        parsed_i64(alias_of(internal).skip(2)) == Some(internal),
{
    reveal_strlit("p_");
    signed_text_reads_back(internal);
    assert(alias_of(internal).skip(2) =~= decimal_int(internal as int));
}

/// Whether a text is the internal id of one of the mapped panes.
pub open spec fn is_alias_in(mapping: Map<i64, Seq<char>>, text: Seq<char>) -> bool {
    exists|internal: i64| #[trigger] mapping.contains_key(internal) && alias_of(internal) == text
}

/// The pane number behind the internal id of one of the mapped panes.
pub open spec fn alias_number(mapping: Map<i64, Seq<char>>, text: Seq<char>) -> i64 {
    choose|internal: i64| #[trigger] mapping.contains_key(internal) && alias_of(internal) == text
}

/// The public id behind the internal id of each mapped pane.
pub open spec fn session_aliases(mapping: Map<i64, Seq<char>>) -> Map<Seq<char>, Seq<char>> {
    Map::new(
        |text: Seq<char>| is_alias_in(mapping, text),
        |text: Seq<char>| mapping[alias_number(mapping, text)],
    )
}

/// Whether a number is the largest of `start` and the mapped pane numbers.
pub open spec fn is_max_internal(max: i64, start: i64, mapping: Map<i64, Seq<char>>) -> bool {
    &&& start <= max
    &&& forall|internal: i64| #[trigger] mapping.contains_key(internal) ==> internal <= max
    &&& max == start || mapping.contains_key(max)
}

/// The internal id of each mapped pane stands for its public id.
pub proof fn session_aliases_hold(mapping: Map<i64, Seq<char>>, internal: i64)
    requires
        mapping.contains_key(internal),
    ensures
        session_aliases(mapping).contains_key(alias_of(internal)),
        session_aliases(mapping)[alias_of(internal)] == mapping[internal],
{
    let text = alias_of(internal);
    assert(is_alias_in(mapping, text));
    let found = alias_number(mapping, text);
    alias_reads_back(internal);
    alias_reads_back(found);
}

/// Records the public id of each mapped pane under its internal id.
pub fn record_session_aliases(cache: &mut LayoutCache, mapping: &NumberMap<String>)
    ensures
        final(cache)@.tabs == old(cache)@.tabs,
        final(cache)@.aliases == old(cache)@.aliases.union_prefer_right(session_aliases(mapping@)),
        is_max_internal(final(cache).max_internal, old(cache).max_internal, mapping@),
{
    let keys = mapping.keys();
    let ghost before = cache.internal_aliases@;
    let ghost start = cache.max_internal;
    let mut i: usize = 0;
    let ghost mut done: Map<i64, Seq<char>> = Map::empty();
    proof {
        assert(session_aliases(done) =~= Map::<Seq<char>, Seq<char>>::empty());
        assert(before =~= before.union_prefer_right(session_aliases(done)));
    }
    while i < keys.len()
        invariant
            i <= keys.len(),
            forall|key: i64| mapping@.contains_key(key) <==> #[trigger] keys@.contains(key),
            forall|key: i64| #[trigger]
                done.contains_key(key) <==> keys@.take(i as int).contains(key),
            forall|key: i64| #[trigger] done.contains_key(key) ==> done[key] == mapping@[key],
            cache.tabs@ == old(cache).tabs@,
            cache.internal_aliases@ == before.union_prefer_right(session_aliases(done)),
            is_max_internal(cache.max_internal, start, done),
        decreases keys.len() - i,
    {
        let internal = keys[i];
        let ghost more = done.insert(internal, mapping@[internal]);
        proof {
            assert(keys@.contains(internal));
            let now = keys@.take(i + 1);
            assert forall|key: i64| #[trigger]
                more.contains_key(key) <==> now.contains(key) by {
                assert(now[i as int] == internal);
                if keys@.take(i as int).contains(key) {
                    let j = choose|j: int| 0 <= j < i && keys@.take(i as int)[j] == key;
                    assert(now[j] == key);
                }
                if now.contains(key) {
                    let j = choose|j: int| 0 <= j < i + 1 && now[j] == key;
                    if j < i {
                        assert(keys@.take(i as int)[j] == key);
                    }
                }
                assert(done.contains_key(key) <==> keys@.take(i as int).contains(key));
            }
        }
        if let Some(public) = mapping.get(internal) {
            if cache.max_internal < internal {
                cache.max_internal = internal;
            }
            cache.internal_aliases.insert(alias_text(internal), public.clone());
            proof {
                aliases_grow(done, internal, mapping@[internal]);
                assert(cache.internal_aliases@ =~= before.union_prefer_right(
                    session_aliases(more),
                ));
                assert(more.contains_key(internal));
                assert forall|key: i64| #[trigger] more.contains_key(key) implies key
                    <= cache.max_internal by {
                    if key != internal {
                        assert(done.contains_key(key));
                    }
                }
                if cache.max_internal != start && cache.max_internal != internal {
                    assert(done.contains_key(cache.max_internal));
                }
            }
        }
        proof {
            done = more;
        }
        i = i + 1;
    }
    proof {
        assert(keys@.take(i as int) =~= keys@);
        assert(done =~= mapping@);
    }
}

proof fn aliases_grow(mapping: Map<i64, Seq<char>>, internal: i64, public: Seq<char>)
    ensures
        session_aliases(mapping.insert(internal, public)) == session_aliases(mapping).insert(
            alias_of(internal),
            public,
        ),
{
    let more = mapping.insert(internal, public);
    let left = session_aliases(more);
    let right = session_aliases(mapping).insert(alias_of(internal), public);
    assert forall|text: Seq<char>| left.contains_key(text) <==> right.contains_key(text) by {
        if is_alias_in(more, text) {
            let n = alias_number(more, text);
            assert(more.contains_key(n));
            if n != internal {
                assert(mapping.contains_key(n));
            }
        }
        if is_alias_in(mapping, text) {
            let n = alias_number(mapping, text);
            assert(more.contains_key(n));
        }
        assert(more.contains_key(internal));
    }
    assert forall|text: Seq<char>| left.contains_key(text) implies #[trigger] left[text]
        == right[text] by {
        let n = alias_number(more, text);
        assert(more.contains_key(n) && alias_of(n) == text);
        alias_reads_back(n);
        alias_reads_back(internal);
        if n != internal {
            assert(mapping.contains_key(n));
            session_aliases_hold(mapping, n);
        }
    }
    assert(left =~= right);
}

/// The public id of a pane as far as the cache knows it: an internal id that
/// the cache does not know stays as it is.
pub open spec fn public_id(pane_id: Seq<char>, cache: CacheView) -> Seq<char> {
    if is_internal(pane_id) && cache.aliases.contains_key(pane_id) {
        cache.aliases[pane_id]
    } else {
        pane_id
    }
}

/// The public id of a pane as far as the cache knows it.
pub fn public_id_from_cache(pane_id: &str, cache: &LayoutCache) -> (r: String)
    ensures
        r@ == public_id(pane_id@, cache@),
{
    if is_internal_id(pane_id) {
        if let Some(public) = cache.internal_aliases.get(pane_id) {
            return public.clone();
        }
    }
    pane_id.to_owned()
}

/// The public id of a pane, where it is known without a look at the session: an
/// id that is not internal is its own.
pub open spec fn known_public_id(pane_id: Seq<char>, cache: CacheView) -> Option<Seq<char>> {
    if !is_internal(pane_id) {
        Some(pane_id)
    } else if cache.aliases.contains_key(pane_id) {
        Some(cache.aliases[pane_id])
    } else {
        None
    }
}

/// The public id of a pane, where it is known without a look at the session.
pub fn lookup_public_pane_id(pane_id: &str, cache: &LayoutCache) -> (r: Option<String>)
    ensures
        match r {
            Some(public) => known_public_id(pane_id@, cache@) == Some(public@),
            None => known_public_id(pane_id@, cache@) is None,
        },
{
    if !is_internal_id(pane_id) {
        return Some(pane_id.to_owned());
    }
    match cache.internal_aliases.get(pane_id) {
        Some(public) => Some(public.clone()),
        None => None,
    }
}

/// Once the panes of a session are recorded, the internal id of each of them is
/// known without another look at the session.
pub proof fn recorded_panes_are_known(
    before: CacheView,
    after: CacheView,
    mapping: Map<i64, Seq<char>>,
    internal: i64,
)
    requires
        after.aliases == before.aliases.union_prefer_right(session_aliases(mapping)),
        mapping.contains_key(internal),
    ensures
        known_public_id(alias_of(internal), after) == Some(mapping[internal]),
        public_id(alias_of(internal), after) == mapping[internal],
{
    session_aliases_hold(mapping, internal);
    alias_reads_back(internal);
}

/// To record the panes of a session a second time changes nothing.
pub proof fn recording_twice_is_recording_once(
    before: CacheView,
    once: CacheView,
    twice: CacheView,
    mapping: Map<i64, Seq<char>>,
)
    requires
        once.tabs == before.tabs,
        once.aliases == before.aliases.union_prefer_right(session_aliases(mapping)),
        is_max_internal(once.max_internal, before.max_internal, mapping),
        twice.tabs == once.tabs,
        twice.aliases == once.aliases.union_prefer_right(session_aliases(mapping)),
        is_max_internal(twice.max_internal, once.max_internal, mapping),
    ensures
        twice == once,
{
    assert(twice.aliases =~= once.aliases);
}

/// Whether the largest pane number that a cache has seen is no smaller than any
/// whose internal id it knows.
pub open spec fn counts_its_panes(cache: CacheView) -> bool {
    forall|internal: i64|
        cache.aliases.contains_key(#[trigger] alias_of(internal)) ==> internal
            <= cache.max_internal
}

/// An empty cache counts its panes, and one that did before still does once the
/// panes of a session are recorded.
pub proof fn recording_counts_panes(
    before: CacheView,
    after: CacheView,
    mapping: Map<i64, Seq<char>>,
)
    requires
        counts_its_panes(before),
        after.aliases == before.aliases.union_prefer_right(session_aliases(mapping)),
        is_max_internal(after.max_internal, before.max_internal, mapping),
    ensures
        counts_its_panes(empty_cache()),
        counts_its_panes(after),
{
    assert forall|internal: i64|
        after.aliases.contains_key(#[trigger] alias_of(internal)) implies internal
        <= after.max_internal by {
        let text = alias_of(internal);
        if !before.aliases.contains_key(text) {
            assert(is_alias_in(mapping, text));
            let found = alias_number(mapping, text);
            alias_reads_back(internal);
            alias_reads_back(found);
            assert(mapping.contains_key(internal));
        }
    }
}

} // verus!
