//! Stable sorting by an integer key.
//!
//! `sort_by_key` is insertion sort: each element, taken in order, is placed after every element
//! whose key is not larger than its own. This is the order that a stable sort (such as std's
//! `sort_by`) produces, and the lemmas below show that it is sorted and a permutation.
use vstd::prelude::*;

verus! {

/// Insert `x` into `s` after the last element whose key is at most `x`'s key, scanning from the
/// end.
pub open spec fn insert_by_key<T>(s: Seq<T>, x: T, key: spec_fn(T) -> int) -> Seq<T>
    decreases s.len(),
{
    if s.len() == 0 {
        seq![x]
    } else if key(s.last()) <= key(x) {
        s.push(x)
    } else {
        insert_by_key(s.drop_last(), x, key).push(s.last())
    }
}

/// The stable sort of `s` in ascending order of `key`.
pub open spec fn sort_by_key<T>(s: Seq<T>, key: spec_fn(T) -> int) -> Seq<T>
    decreases s.len(),
{
    if s.len() == 0 {
        s
    } else {
        insert_by_key(sort_by_key(s.drop_last(), key), s.last(), key)
    }
}

/// `s` is in ascending order of `key`.
pub open spec fn sorted_by_key<T>(s: Seq<T>, key: spec_fn(T) -> int) -> bool {
    forall|i: int, j: int| 0 <= i <= j < s.len() ==> key(s[i]) <= key(s[j])
}

/// Inserting at the position found by scanning from the end is `insert_by_key`.
pub proof fn lemma_insert_at<T>(s: Seq<T>, x: T, key: spec_fn(T) -> int, p: int)
    requires
        0 <= p <= s.len(),
        forall|i: int| p <= i < s.len() ==> key(#[trigger] s[i]) > key(x),
        p > 0 ==> key(s[p - 1]) <= key(x),
    ensures
        insert_by_key(s, x, key) == s.insert(p, x),
    decreases s.len(),
{
    if s.len() == 0 {
        assert(s.insert(p, x) =~= seq![x]);
    } else if p == s.len() {
        assert(s.insert(p, x) =~= s.push(x));
    } else {
        let t = s.drop_last();
        assert(key(s[s.len() - 1]) > key(x));
        lemma_insert_at(t, x, key, p);
        assert(s.insert(p, x) =~= t.insert(p, x).push(s.last()));
    }
}

/// Inserting into a sorted sequence keeps it sorted and adds exactly one element.
pub proof fn lemma_insert_sorted<T>(s: Seq<T>, x: T, key: spec_fn(T) -> int)
    requires
        sorted_by_key(s, key),
    ensures
        sorted_by_key(insert_by_key(s, x, key), key),
        insert_by_key(s, x, key).len() == s.len() + 1,
        insert_by_key(s, x, key).to_multiset() =~= s.to_multiset().insert(x),
    decreases s.len(),
{
    broadcast use vstd::seq_lib::group_to_multiset_ensures;

    if s.len() == 0 {
        assert(seq![x] =~= Seq::<T>::empty().push(x));
    } else if key(s.last()) <= key(x) {
    } else {
        let t = s.drop_last();
        assert(sorted_by_key(t, key));
        lemma_insert_sorted(t, x, key);
        let r = insert_by_key(t, x, key);
        assert(s =~= t.push(s.last()));
        // every element of `r` is `x` or an element of `t`, all of which are at most `s.last()`
        assert forall|i: int| 0 <= i < r.len() implies key(#[trigger] r[i]) <= key(s.last()) by {
            assert(r.to_multiset().count(r[i]) > 0);
            if r[i] != x {
                assert(t.to_multiset().count(r[i]) > 0);
                assert(t.contains(r[i]));
            }
        }
    }
}

/// The sort is sorted, has the same length and holds the same elements.
pub proof fn lemma_sort_by_key<T>(s: Seq<T>, key: spec_fn(T) -> int)
    ensures
        sorted_by_key(sort_by_key(s, key), key),
        sort_by_key(s, key).len() == s.len(),
        sort_by_key(s, key).to_multiset() =~= s.to_multiset(),
    decreases s.len(),
{
    broadcast use vstd::seq_lib::group_to_multiset_ensures;

    if s.len() > 0 {
        lemma_sort_by_key(s.drop_last(), key);
        lemma_insert_sorted(sort_by_key(s.drop_last(), key), s.last(), key);
        assert(s =~= s.drop_last().push(s.last()));
    }
}

/// Sorting a prefix one element longer inserts that element into the sorted shorter prefix.
pub proof fn lemma_sort_take_step<T>(s: Seq<T>, key: spec_fn(T) -> int, i: int)
    requires
        0 <= i < s.len(),
    ensures
        sort_by_key(s.take(i + 1), key) == insert_by_key(sort_by_key(s.take(i), key), s[i], key),
{
    assert(s.take(i + 1).drop_last() =~= s.take(i));
}

} // verus!
