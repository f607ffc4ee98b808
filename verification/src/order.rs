//! The order of texts by code point, and sorting by it.

use vstd::prelude::*;
use vstd::relations::{sorted_by, total_ordering};

use crate::text::chars_of;

verus! {

/// Whether `a` stands at or before `b` in the order of texts: the first
/// character in which they differ decides, and a text stands before its
/// continuations.
pub open spec fn text_le(a: Seq<char>, b: Seq<char>) -> bool
    decreases a.len(),
{
    if a.len() == 0 {
        true
    } else if b.len() == 0 {
        false
    } else if a[0] == b[0] {
        text_le(a.skip(1), b.skip(1))
    } else {
        (a[0] as int) < (b[0] as int)
    }
}

/// The order of texts, as a relation.
pub open spec fn text_order() -> spec_fn(Seq<char>, Seq<char>) -> bool {
    |a: Seq<char>, b: Seq<char>| text_le(a, b)
}

/// The characters of each of several strings.
pub open spec fn texts(strings: Seq<String>) -> Seq<Seq<char>> {
    strings.map_values(|s: String| s@)
}

proof fn text_le_reflexive(a: Seq<char>)
    ensures
        text_le(a, a),
    decreases a.len(),
{
    if a.len() > 0 {
        text_le_reflexive(a.skip(1));
    }
}

proof fn text_le_antisymmetric(a: Seq<char>, b: Seq<char>)
    requires
        text_le(a, b),
        text_le(b, a),
    ensures
        a == b,
    decreases a.len(),
{
    if a.len() == 0 || b.len() == 0 {
        assert(a =~= b);
    } else {
        text_le_antisymmetric(a.skip(1), b.skip(1));
        assert(a =~= seq![a[0]] + a.skip(1));
        assert(b =~= seq![b[0]] + b.skip(1));
    }
}

proof fn text_le_transitive(a: Seq<char>, b: Seq<char>, c: Seq<char>)
    requires
        text_le(a, b),
        text_le(b, c),
    ensures
        text_le(a, c),
    decreases a.len(),
{
    if a.len() > 0 && b.len() > 0 && c.len() > 0 && a[0] == b[0] && b[0] == c[0] {
        text_le_transitive(a.skip(1), b.skip(1), c.skip(1));
    }
}

proof fn text_le_total(a: Seq<char>, b: Seq<char>)
    ensures
        text_le(a, b) || text_le(b, a),
    decreases a.len(),
{
    if a.len() > 0 && b.len() > 0 && a[0] == b[0] {
        text_le_total(a.skip(1), b.skip(1));
    }
}

/// The order of texts is total: any two texts stand in it one way or the
/// other, and both ways only where they are the same.
pub proof fn text_order_is_total()
    ensures
        total_ordering(text_order()),
{
    let r = text_order();
    assert forall|x: Seq<char>| #[trigger] r(x, x) by {
        text_le_reflexive(x);
    }
    assert forall|x: Seq<char>, y: Seq<char>| #[trigger] r(x, y) && #[trigger] r(y, x) implies x
        == y by {
        text_le_antisymmetric(x, y);
    }
    assert forall|x: Seq<char>, y: Seq<char>, z: Seq<char>| #[trigger]
        r(x, y) && #[trigger] r(y, z) implies r(x, z) by {
        text_le_transitive(x, y, z);
    }
    assert forall|x: Seq<char>, y: Seq<char>| #[trigger] r(x, y) || #[trigger] r(y, x) by {
        text_le_total(x, y);
    }
}

/// Whether `a` stands at or before `b` in the order of texts.
pub fn text_precedes(a: &str, b: &str) -> (r: bool)
    ensures
        r == text_le(a@, b@),
{
    let left = chars_of(a);
    let right = chars_of(b);
    let mut i: usize = 0;
    proof {
        assert(a@.skip(0) =~= a@);
        assert(b@.skip(0) =~= b@);
    }
    while i < left.len() && i < right.len()
        invariant
            left@ == a@,
            right@ == b@,
            i <= left.len(),
            i <= right.len(),
            text_le(a@, b@) == text_le(a@.skip(i as int), b@.skip(i as int)),
        decreases left.len() - i,
    {
        if left[i] != right[i] {
            return left[i] < right[i];
        }
        proof {
            assert(a@.skip(i as int).skip(1) =~= a@.skip(i + 1));
            assert(b@.skip(i as int).skip(1) =~= b@.skip(i + 1));
        }
        i = i + 1;
    }
    i == left.len()
}

/// Puts a string into a sorted list of strings, at its place in the order.
fn insert_sorted(sorted: &mut Vec<String>, item: String)
    requires
        sorted_by(texts(old(sorted)@), text_order()),
    ensures
        sorted_by(texts(final(sorted)@), text_order()),
        texts(final(sorted)@).to_multiset() == texts(old(sorted)@).push(item@).to_multiset(),
{
    let ghost before = texts(sorted@);
    let mut at: usize = sorted.len();
    while at > 0 && !text_precedes(sorted[at - 1].as_str(), item.as_str())
        invariant
            at <= sorted.len(),
            before == texts(sorted@),
            forall|k: int| at <= k < sorted.len() ==> !text_le(#[trigger] before[k], item@),
        decreases at,
    {
        at = at - 1;
        assert(before[at as int] == sorted@[at as int]@);
    }
    let ghost pivot = item@;
    sorted.insert(at, item);
    proof {
        text_order_is_total();
        let r = text_order();
        let after = texts(sorted@);
        assert(after =~= before.insert(at as int, pivot));
        if at > 0 {
            assert(before[at - 1] == after[at - 1]);
            assert(r(before[at - 1], pivot));
        }
        assert forall|i: int, j: int| 0 <= i < j < after.len() implies #[trigger] r(
            after[i],
            after[j],
        ) by {
            if j < at {
                assert(r(before[i], before[j]));
            } else if j == at {
                if i < at - 1 {
                    assert(r(before[i], before[at - 1]));
                }
            } else if i > at {
                assert(r(before[i - 1], before[j - 1]));
            } else if i == at {
                assert(!text_le(before[j - 1], pivot));
                text_le_total(before[j - 1], pivot);
            } else {
                assert(r(before[i], before[j - 1]));
            }
        }
        vstd::seq_lib::to_multiset_insert(before, at as int, pivot);
        vstd::seq_lib::to_multiset_build(before, pivot);
    }
}

/// The strings of a list in the order of texts.
pub fn sort_texts(items: &Vec<String>) -> (r: Vec<String>)
    ensures
        sorted_by(texts(r@), text_order()),
        texts(r@).to_multiset() == texts(items@).to_multiset(),
{
    let mut out: Vec<String> = Vec::new();
    let mut i: usize = 0;
    proof {
        assert(texts(items@).take(0) =~= texts(out@));
    }
    while i < items.len()
        invariant
            i <= items.len(),
            sorted_by(texts(out@), text_order()),
            texts(out@).to_multiset() == texts(items@).take(i as int).to_multiset(),
        decreases items.len() - i,
    {
        let ghost before = texts(out@);
        insert_sorted(&mut out, items[i].clone());
        proof {
            let all = texts(items@);
            vstd::seq_lib::to_multiset_build(before, all[i as int]);
            vstd::seq_lib::to_multiset_build(all.take(i as int), all[i as int]);
            assert(all.take(i + 1) =~= all.take(i as int).push(all[i as int]));
        }
        i = i + 1;
    }
    proof {
        assert(texts(items@).take(i as int) =~= texts(items@));
    }
    out
}

} // verus!
