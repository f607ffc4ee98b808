//! Tables from texts and from pane numbers to values.

use std::collections::BTreeMap;

use vstd::prelude::*;
use vstd::std_specs::cmp::OrdSpec;
use vstd::std_specs::iter::IteratorSpec;

use crate::order::texts;
use crate::text::same_text;

verus! {

/// Whether one of the entries has the given key.
pub open spec fn has_key<K, V>(entries: Seq<(K, V)>, key: K) -> bool {
    exists|i: int| 0 <= i < entries.len() && (#[trigger] entries[i]).0 == key
}

/// The place of an entry with the given key.
pub open spec fn place_of<K, V>(entries: Seq<(K, V)>, key: K) -> int {
    choose|i: int| 0 <= i < entries.len() && (#[trigger] entries[i]).0 == key
}

/// The table that entries with different keys make up.
pub open spec fn table_of<K, V>(entries: Seq<(K, V)>) -> Map<K, V> {
    Map::new(|key: K| has_key(entries, key), |key: K| entries[place_of(entries, key)].1)
}

/// Whether no two entries have the same key.
pub open spec fn keys_differ<K, V>(entries: Seq<(K, V)>) -> bool {
    forall|i: int, j: int|
        0 <= i < j < entries.len() ==> (#[trigger] entries[i]).0 != (#[trigger] entries[j]).0
}

/// The value under the key of an entry is that of the entry.
proof fn table_holds_entry<K, V>(entries: Seq<(K, V)>, i: int)
    requires
        keys_differ(entries),
        0 <= i < entries.len(),
    ensures
        table_of(entries).contains_key(entries[i].0),
        table_of(entries)[entries[i].0] == entries[i].1,
{
    let key = entries[i].0;
    assert(has_key(entries, key));
    let j = place_of(entries, key);
    assert(0 <= j < entries.len() && entries[j].0 == key);
}

/// A table whose keys are texts.
pub struct TextMap<V: View> {
    entries: Vec<(String, V)>,
}

impl<V: View> TextMap<V> {
    /// The entries, each by its view.
    pub closed spec fn pairs(&self) -> Seq<(Seq<char>, V::V)> {
        Seq::new(
            self.entries@.len(),
            |i: int| (self.entries@[i].0@, self.entries@[i].1@),
        )
    }

    #[verifier::type_invariant]
    spec fn well_formed(&self) -> bool {
        keys_differ(self.pairs())
    }

    /// The keys, in the order in which the table is walked.
    pub open spec fn key_list(&self) -> Seq<Seq<char>> {
        self.pairs().map_values(|p: (Seq<char>, V::V)| p.0)
    }
}

impl<V: View> View for TextMap<V> {
    type V = Map<Seq<char>, V::V>;

    open spec fn view(&self) -> Map<Seq<char>, V::V> {
        table_of(self.pairs())
    }
}

impl<V: View> TextMap<V> {
    /// A table without entries.
    pub fn new() -> (r: Self)
        ensures
            r@ == Map::<Seq<char>, V::V>::empty(),
    {
        let r = TextMap { entries: Vec::new() };
        proof {
            assert(r@ =~= Map::<Seq<char>, V::V>::empty());
        }
        r
    }

    fn find(&self, key: &str) -> (r: Option<usize>)
        ensures
            match r {
                Some(i) => i < self.entries.len() && self.entries@[i as int].0@ == key@
                    && self@.contains_key(key@) && self@[key@] == self.entries@[i as int].1@,
                None => !self@.contains_key(key@) && forall|k: int|
                    0 <= k < self.entries.len() ==> (#[trigger] self.entries@[k]).0@ != key@,
            },
    {
        proof {
            use_type_invariant(self);
        }
        let mut i: usize = 0;
        while i < self.entries.len()
            invariant
                i <= self.entries.len(),
                keys_differ(self.pairs()),
                forall|k: int| 0 <= k < i ==> (#[trigger] self.entries@[k]).0@ != key@,
            decreases self.entries.len() - i,
        {
            if same_text(self.entries[i].0.as_str(), key) {
                proof {
                    table_holds_entry(self.pairs(), i as int);
                }
                return Some(i);
            }
            i = i + 1;
        }
        proof {
            assert forall|k: int| 0 <= k < self.pairs().len() implies (
            #[trigger] self.pairs()[k]).0 != key@ by {
                assert(self.entries@[k].0@ != key@);
            }
        }
        None
    }

    /// The value under a key.
    pub fn get(&self, key: &str) -> (r: Option<&V>)
        ensures
            match r {
                Some(value) => self@.contains_key(key@) && value@ == self@[key@],
                None => !self@.contains_key(key@),
            },
    {
        match self.find(key) {
            Some(i) => Some(&self.entries[i].1),
            None => None,
        }
    }

    /// Whether there is a value under a key.
    pub fn contains_key(&self, key: &str) -> (r: bool)
        ensures
            r == self@.contains_key(key@),
    {
        self.find(key).is_some()
    }

    /// The number of entries.
    pub fn len(&self) -> (r: usize)
        ensures
            r == self.key_list().len(),
            r == 0 <==> self@ == Map::<Seq<char>, V::V>::empty(),
    {
        proof {
            use_type_invariant(self);
            if self.entries.len() > 0 {
                table_holds_entry(self.pairs(), 0);
            } else {
                assert(self@ =~= Map::<Seq<char>, V::V>::empty());
            }
        }
        self.entries.len()
    }

    /// The keys, each once.
    pub fn keys(&self) -> (r: Vec<String>)
        ensures
            texts(r@) == self.key_list(),
            texts(r@).no_duplicates(),
            forall|key: Seq<char>| self@.contains_key(key) <==> #[trigger] texts(r@).contains(key),
    {
        proof {
            use_type_invariant(self);
        }
        let mut out: Vec<String> = Vec::new();
        let mut i: usize = 0;
        while i < self.entries.len()
            invariant
                i <= self.entries.len(),
                texts(out@) == self.key_list().take(i as int),
            decreases self.entries.len() - i,
        {
            let ghost before = texts(out@);
            out.push(self.entries[i].0.clone());
            proof {
                assert(self.key_list()[i as int] == self.entries@[i as int].0@);
                assert(texts(out@) =~= before.push(self.key_list()[i as int]));
                assert(texts(out@) =~= self.key_list().take(i + 1));
            }
            i = i + 1;
        }
        proof {
            let keys = self.key_list();
            assert(keys.take(i as int) =~= keys);
            assert forall|key: Seq<char>| self@.contains_key(key) <==> #[trigger] keys.contains(
                key,
            ) by {
                if has_key(self.pairs(), key) {
                    let k = place_of(self.pairs(), key);
                    assert(keys[k] == key);
                }
                if keys.contains(key) {
                    let k = choose|k: int| 0 <= k < keys.len() && keys[k] == key;
                    assert(self.pairs()[k].0 == key);
                }
            }
        }
        out
    }

    /// Puts a value under a key, in place of the one that was there.
    pub fn insert(&mut self, key: String, value: V)
        ensures
            final(self)@ == old(self)@.insert(key@, value@),
    {
        proof {
            use_type_invariant(&*self);
        }
        let found = self.find(key.as_str());
        let ghost before = self.pairs();
        let ghost k = key@;
        let ghost v = value@;
        let mut entries: Vec<(String, V)> = Vec::new();
        std::mem::swap(&mut entries, &mut self.entries);
        match found {
            Some(i) => {
                entries.set(i, (key, value));
                let ghost after = Seq::new(
                    entries@.len(),
                    |j: int| (entries@[j].0@, entries@[j].1@),
                );
                proof {
                    assert(after =~= before.update(i as int, (k, v)));
                    lemma_table_update(before, i as int, v);
                }
            },
            None => {
                entries.push((key, value));
                let ghost after = Seq::new(
                    entries@.len(),
                    |j: int| (entries@[j].0@, entries@[j].1@),
                );
                proof {
                    assert(after =~= before.push((k, v)));
                    assert(after =~= before.insert(before.len() as int, (k, v)));
                    lemma_table_insert(before, before.len() as int, k, v);
                }
            },
        }
        self.entries = entries;
    }
}

impl<V: View> TextMap<V> {
    /// Takes the value under a key out of the table.
    pub fn remove(&mut self, key: &str) -> (r: Option<V>)
        ensures
            final(self)@ == old(self)@.remove(key@),
            match r {
                Some(value) => old(self)@.contains_key(key@) && value@ == old(self)@[key@],
                None => !old(self)@.contains_key(key@),
            },
    {
        proof {
            use_type_invariant(&*self);
        }
        let found = self.find(key);
        let ghost before = self.pairs();
        match found {
            Some(i) => {
                let mut entries: Vec<(String, V)> = Vec::new();
                std::mem::swap(&mut entries, &mut self.entries);
                let taken = entries.remove(i);
                let ghost after = Seq::new(
                    entries@.len(),
                    |j: int| (entries@[j].0@, entries@[j].1@),
                );
                proof {
                    assert(after =~= before.remove(i as int));
                    lemma_table_remove(before, i as int);
                }
                self.entries = entries;
                Some(taken.1)
            },
            None => {
                proof {
                    assert(self@.remove(key@) =~= self@);
                }
                None
            },
        }
    }
}

proof fn lemma_table_remove<K, V>(entries: Seq<(K, V)>, i: int)
    requires
        keys_differ(entries),
        0 <= i < entries.len(),
    ensures
        keys_differ(entries.remove(i)),
        table_of(entries.remove(i)) == table_of(entries).remove(entries[i].0),
{
    let after = entries.remove(i);
    let key = entries[i].0;
    let wanted = table_of(entries).remove(key);
    assert forall|k: K| table_of(after).contains_key(k) <==> wanted.contains_key(k) by {
        if has_key(entries, k) && k != key {
            let j = place_of(entries, k);
            assert(after[if j < i { j } else { j - 1 }].0 == k);
        }
        if has_key(after, k) {
            let j = place_of(after, k);
            assert(entries[if j < i { j } else { j + 1 }].0 == k);
        }
    }
    assert forall|k: K| table_of(after).contains_key(k) implies #[trigger] table_of(after)[k]
        == wanted[k] by {
        let j = place_of(after, k);
        assert(after[j].0 == k);
        table_holds_entry(after, j);
        table_holds_entry(entries, if j < i { j } else { j + 1 });
    }
    assert(table_of(after) =~= wanted);
}

proof fn lemma_table_update<K, V>(entries: Seq<(K, V)>, i: int, value: V)
    requires
        keys_differ(entries),
        0 <= i < entries.len(),
    ensures
        keys_differ(entries.update(i, (entries[i].0, value))),
        table_of(entries.update(i, (entries[i].0, value))) == table_of(entries).insert(
            entries[i].0,
            value,
        ),
{
    let after = entries.update(i, (entries[i].0, value));
    let wanted = table_of(entries).insert(entries[i].0, value);
    assert forall|key: K| table_of(after).contains_key(key) <==> wanted.contains_key(key) by {
        if has_key(entries, key) {
            let j = place_of(entries, key);
            assert(after[j].0 == key);
        }
        if has_key(after, key) {
            let j = place_of(after, key);
            assert(entries[j].0 == key);
        }
        assert(after[i].0 == entries[i].0);
    }
    assert forall|key: K| table_of(after).contains_key(key) implies #[trigger] table_of(after)[key]
        == wanted[key] by {
        let j = place_of(after, key);
        assert(after[j].0 == key);
        table_holds_entry(after, j);
        table_holds_entry(entries, j);
        table_holds_entry(entries, i);
    }
    assert(table_of(after) =~= wanted);
}

/// A table whose keys are numbers; it is walked in ascending order.
pub struct NumberMap<V: View> {
    entries: BTreeMap<i64, V>,
}

impl<V: View> NumberMap<V> {
    /// The values by their keys.
    pub closed spec fn table(&self) -> Map<i64, V> {
        self.entries@
    }
}

impl<V: View> View for NumberMap<V> {
    type V = Map<i64, V::V>;

    open spec fn view(&self) -> Map<i64, V::V> {
        self.table().map_values(|value: V| value@)
    }
}

/// Whether numbers stand in ascending order, none twice.
pub open spec fn ascending(numbers: Seq<i64>) -> bool {
    forall|i: int, j: int|
        0 <= i < j < numbers.len() ==> (#[trigger] numbers[i]) < (#[trigger] numbers[j])
}

proof fn increasing_is_ascending(numbers: Seq<&i64>)
    requires
        vstd::std_specs::btree::increasing_seq(numbers),
    ensures
        ascending(numbers.unref()),
{
    broadcast use vstd::laws_cmp::group_laws_cmp;

    let keys = numbers.unref();
    assert(vstd::laws_cmp::obeys_cmp::<&i64>());
    assert forall|i: int, j: int| 0 <= i < j < keys.len() implies (#[trigger] keys[i]) < (
    #[trigger] keys[j]) by {
        assert(OrdSpec::cmp_spec(&numbers[i], &numbers[j]) is Less);
    }
}

impl<V: View> NumberMap<V> {
    /// A table without entries.
    pub fn new() -> (r: Self)
        ensures
            r@ == Map::<i64, V::V>::empty(),
    {
        let r = NumberMap { entries: BTreeMap::new() };
        proof {
            assert(r@ =~= Map::<i64, V::V>::empty());
        }
        r
    }

    /// The value under a key.
    pub fn get(&self, key: i64) -> (r: Option<&V>)
        ensures
            match r {
                Some(value) => self@.contains_key(key) && value@ == self@[key],
                None => !self@.contains_key(key),
            },
    {
        broadcast use vstd::laws_cmp::group_laws_cmp;

        self.entries.get(&key)
    }

    /// The keys, in ascending order.
    pub fn keys(&self) -> (r: Vec<i64>)
        ensures
            ascending(r@),
            forall|key: i64| self@.contains_key(key) <==> #[trigger] r@.contains(key),
    {
        broadcast use vstd::laws_cmp::group_laws_cmp;

        let mut out: Vec<i64> = Vec::new();
        let ghost all = self.entries.keys().remaining().unref();
        for key in it: self.entries.keys()
            invariant
                all == it.seq().unref(),
                out@ == all.take(it.index()),
        {
            out.push(*key);
            proof {
                assert(all.take(it.index() + 1) =~= all.take(it.index()).push(*key));
            }
        }
        proof {
            assert(out@ =~= all);
            increasing_is_ascending(self.entries.keys().remaining());
        }
        out
    }

    /// Puts a value under a key, in place of the one that was there.
    pub fn insert(&mut self, key: i64, value: V)
        ensures
            final(self)@ == old(self)@.insert(key, value@),
    {
        broadcast use vstd::laws_cmp::group_laws_cmp;

        self.entries.insert(key, value);
        proof {
            assert(self@ =~= old(self)@.insert(key, value@));
        }
    }
}

proof fn lemma_table_insert<K, V>(entries: Seq<(K, V)>, i: int, key: K, value: V)
    requires
        keys_differ(entries),
        !has_key(entries, key),
        0 <= i <= entries.len(),
    ensures
        keys_differ(entries.insert(i, (key, value))),
        table_of(entries.insert(i, (key, value))) == table_of(entries).insert(key, value),
{
    let after = entries.insert(i, (key, value));
    let wanted = table_of(entries).insert(key, value);
    assert(after[i].0 == key);
    assert forall|k: K| table_of(after).contains_key(k) <==> wanted.contains_key(k) by {
        if has_key(entries, k) {
            let j = place_of(entries, k);
            assert(after[if j < i { j } else { j + 1 }].0 == k);
        }
        if has_key(after, k) && k != key {
            let j = place_of(after, k);
            assert(entries[if j < i { j } else { j - 1 }].0 == k);
        }
    }
    assert(keys_differ(after)) by {
        assert forall|a: int, b: int| 0 <= a < b < after.len() implies (#[trigger] after[a]).0 != (
        #[trigger] after[b]).0 by {
            if a != i {
                assert(entries[if a < i { a } else { a - 1 }].0 == after[a].0);
            }
            if b != i {
                assert(entries[if b < i { b } else { b - 1 }].0 == after[b].0);
            }
        }
    }
    assert forall|k: K| table_of(after).contains_key(k) implies #[trigger] table_of(after)[k]
        == wanted[k] by {
        let j = place_of(after, k);
        assert(after[j].0 == k);
        table_holds_entry(after, j);
        if j != i {
            table_holds_entry(entries, if j < i { j } else { j - 1 });
        }
    }
    assert(table_of(after) =~= wanted);
}

} // verus!
