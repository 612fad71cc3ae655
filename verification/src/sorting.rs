//! Stable sorting by an integer key, as a specification: the order that a
//! stable `sort_by_key` produces, defined by insertion, and the facts the
//! insertion sorts of this crate need about it.

use vstd::prelude::*;

verus! {

/// Stable insertion position of key `k` in a list sorted by `key`: after
/// every element whose key is at most `k`.
pub open spec fn insert_pos<T>(s: Seq<T>, key: spec_fn(T) -> int, k: int) -> int
    decreases s.len(),
{
    if s.len() == 0 {
        0
    } else if key(s.last()) <= k {
        s.len() as int
    } else {
        insert_pos(s.drop_last(), key, k)
    }
}

/// `s` ordered by `key`, ties kept in their original order (what a stable
/// `sort_by_key` gives), defined by insertion.
pub open spec fn sort_by_key_spec<T>(s: Seq<T>, key: spec_fn(T) -> int) -> Seq<T>
    decreases s.len(),
{
    if s.len() == 0 {
        s
    } else {
        let sorted = sort_by_key_spec(s.drop_last(), key);
        sorted.insert(insert_pos(sorted, key, key(s.last())), s.last())
    }
}

/// `s` is ordered by `key`, non-decreasing.
pub open spec fn sorted_by_key<T>(s: Seq<T>, key: spec_fn(T) -> int) -> bool {
    forall|i: int, j: int| 0 <= i <= j < s.len() ==> key(s[i]) <= key(s[j])
}

pub proof fn lemma_insert_pos_bounds<T>(s: Seq<T>, key: spec_fn(T) -> int, k: int)
    ensures
        0 <= insert_pos(s, key, k) <= s.len(),
        sorted_by_key(s, key) ==> forall|i: int|
            0 <= i < insert_pos(s, key, k) ==> key(#[trigger] s[i]) <= k,
        sorted_by_key(s, key) ==> forall|i: int|
            insert_pos(s, key, k) <= i < s.len() ==> key(#[trigger] s[i]) > k,
    decreases s.len(),
{
    if s.len() > 0 {
        let d = s.drop_last();
        lemma_insert_pos_bounds(d, key, k);
        if sorted_by_key(s, key) {
            assert(sorted_by_key(d, key)) by {
                assert forall|i: int, j: int| 0 <= i <= j < d.len() implies key(d[i]) <= key(d[j]) by {
                    assert(d[i] == s[i] && d[j] == s[j]);
                }
            }
            if key(s.last()) <= k {
                assert forall|i: int| 0 <= i < insert_pos(s, key, k) implies key(#[trigger] s[i]) <= k by {
                    assert(key(s[i]) <= key(s[s.len() - 1]));
                }
            } else {
                assert forall|i: int| 0 <= i < insert_pos(s, key, k) implies key(#[trigger] s[i]) <= k by {
                    assert(s[i] == d[i]);
                }
                assert forall|i: int| insert_pos(s, key, k) <= i < s.len() implies key(#[trigger] s[i]) > k by {
                    if i < s.len() - 1 {
                        assert(s[i] == d[i]);
                    }
                }
            }
        }
    }
}

/// The stable sort spec yields a sorted sequence of the same length.
pub proof fn lemma_sort_by_key_sorted<T>(s: Seq<T>, key: spec_fn(T) -> int)
    ensures
        sorted_by_key(sort_by_key_spec(s, key), key),
        sort_by_key_spec(s, key).len() == s.len(),
    decreases s.len(),
{
    if s.len() > 0 {
        let sorted = sort_by_key_spec(s.drop_last(), key);
        lemma_sort_by_key_sorted(s.drop_last(), key);
        let k = key(s.last());
        let p = insert_pos(sorted, key, k);
        lemma_insert_pos_bounds(sorted, key, k);
        let r = sorted.insert(p, s.last());
        assert forall|i: int, j: int| 0 <= i <= j < r.len() implies key(r[i]) <= key(r[j]) by {
            if j < p {
            } else if i > p {
                assert(r[i] == sorted[i - 1]);
                assert(r[j] == sorted[j - 1]);
            } else if i == p && j == p {
            } else if i == p {
                assert(r[j] == sorted[j - 1]);
            } else if j == p {
                assert(r[i] == sorted[i]);
            } else {
                assert(r[i] == sorted[i]);
                assert(r[j] == sorted[j - 1]);
            }
        }
    }
}


/// The stable sort keeps every element: the same elements with the same
/// multiplicities, so exactly the elements of the input occur in it.
pub proof fn lemma_sort_keeps_elements<T>(s: Seq<T>, key: spec_fn(T) -> int)
    ensures
        sort_by_key_spec(s, key).to_multiset() =~= s.to_multiset(),
        forall|x: T| sort_by_key_spec(s, key).contains(x) <==> s.contains(x),
    decreases s.len(),
{
    broadcast use vstd::seq_lib::group_to_multiset_ensures;

    if s.len() > 0 {
        lemma_sort_keeps_elements(s.drop_last(), key);
        let sorted = sort_by_key_spec(s.drop_last(), key);
        lemma_insert_pos_bounds(sorted, key, key(s.last()));
        assert(s =~= s.drop_last().push(s.last()));
    }
    assert forall|x: T| sort_by_key_spec(s, key).contains(x) <==> s.contains(x) by {
        assert(sort_by_key_spec(s, key).to_multiset().count(x) == s.to_multiset().count(x));
    }
}

} // verus!
