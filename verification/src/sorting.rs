//! Stable insertion ordering under a total preorder.
//!
//! `stable_sort` is what a stable sort produces: elements ordered by `le`,
//! with elements that compare equal kept in their original order.

use vstd::prelude::*;
use vstd::relations::{sorted_by, strongly_connected, transitive};

verus! {

/// A total preorder: transitive and any two elements comparable.
pub open spec fn total_preorder<T>(le: spec_fn(T, T) -> bool) -> bool {
    transitive(le) && strongly_connected(le)
}

/// Insert `x` after the last element of `s` that is `le` it, scanning from the end.
pub open spec fn insert_sorted<T>(s: Seq<T>, x: T, le: spec_fn(T, T) -> bool) -> Seq<T>
    decreases s.len(),
{
    if s.len() == 0 {
        seq![x]
    } else if le(s.last(), x) {
        s.push(x)
    } else {
        insert_sorted(s.drop_last(), x, le).push(s.last())
    }
}

/// Stable insertion sort of `s` by `le`.
pub open spec fn stable_sort<T>(s: Seq<T>, le: spec_fn(T, T) -> bool) -> Seq<T>
    decreases s.len(),
{
    if s.len() == 0 {
        s
    } else {
        insert_sorted(stable_sort(s.drop_last(), le), s.last(), le)
    }
}

/// Inserting at the first position, scanning from the end, whose predecessor is
/// `le` the new element is exactly `insert_sorted`.
pub proof fn lemma_insert_sorted_at<T>(s: Seq<T>, x: T, le: spec_fn(T, T) -> bool, j: int)
    requires
        0 <= j <= s.len(),
        j == 0 || le(s[j - 1], x),
        forall|k: int| j <= k < s.len() ==> !le(#[trigger] s[k], x),
    ensures
        insert_sorted(s, x, le) == s.insert(j, x),
    decreases s.len(),
{
    if s.len() == 0 {
        assert(s.insert(j, x) =~= seq![x]);
    } else if j == s.len() {
        assert(s.insert(j, x) =~= s.push(x));
    } else {
        assert(!le(s[s.len() - 1], x));
        lemma_insert_sorted_at(s.drop_last(), x, le, j);
        assert(s.drop_last().insert(j, x).push(s.last()) =~= s.insert(j, x));
    }
}

pub proof fn lemma_insert_sorted_len_multiset<T>(s: Seq<T>, x: T, le: spec_fn(T, T) -> bool)
    ensures
        insert_sorted(s, x, le).len() == s.len() + 1,
        insert_sorted(s, x, le).to_multiset() =~= s.to_multiset().insert(x),
    decreases s.len(),
{
    broadcast use vstd::seq_lib::group_to_multiset_ensures;

    if s.len() == 0 {
        assert(seq![x] =~= Seq::<T>::empty().push(x));
        assert(s =~= Seq::<T>::empty());
    } else if le(s.last(), x) {
    } else {
        lemma_insert_sorted_len_multiset(s.drop_last(), x, le);
        assert(s =~= s.drop_last().push(s.last()));
    }
}

/// Every element of `insert_sorted(s, x)` is `le` any bound of `s` and `x`.
pub proof fn lemma_insert_sorted_bound<T>(s: Seq<T>, x: T, le: spec_fn(T, T) -> bool, y: T)
    requires
        forall|i: int| 0 <= i < s.len() ==> le(#[trigger] s[i], y),
        le(x, y),
    ensures
        forall|i: int|
            0 <= i < insert_sorted(s, x, le).len() ==> le(#[trigger] insert_sorted(s, x, le)[i], y),
    decreases s.len(),
{
    lemma_insert_sorted_len_multiset(s, x, le);
    if s.len() == 0 {
    } else if le(s.last(), x) {
        assert forall|i: int| 0 <= i < s.push(x).len() implies le(#[trigger] s.push(x)[i], y) by {
            if i < s.len() {
                assert(s.push(x)[i] == s[i]);
            }
        }
    } else {
        let t = s.drop_last();
        assert forall|i: int| 0 <= i < t.len() implies le(#[trigger] t[i], y) by {
            assert(t[i] == s[i]);
        }
        lemma_insert_sorted_bound(t, x, le, y);
        lemma_insert_sorted_len_multiset(t, x, le);
        let r = insert_sorted(t, x, le);
        assert forall|i: int| 0 <= i < r.push(s.last()).len() implies le(
            #[trigger] r.push(s.last())[i],
            y,
        ) by {
            if i < r.len() {
                assert(r.push(s.last())[i] == r[i]);
            } else {
                assert(le(s[s.len() - 1], y));
            }
        }
    }
}

pub proof fn lemma_insert_sorted_sorted<T>(s: Seq<T>, x: T, le: spec_fn(T, T) -> bool)
    requires
        total_preorder(le),
        sorted_by(s, le),
    ensures
        sorted_by(insert_sorted(s, x, le), le),
    decreases s.len(),
{
    lemma_insert_sorted_len_multiset(s, x, le);
    if s.len() == 0 {
    } else if le(s.last(), x) {
        let r = s.push(x);
        assert forall|i: int, j: int| 0 <= i < j < r.len() implies #[trigger] le(r[i], r[j]) by {
            if j == s.len() {
                if i < s.len() - 1 {
                    assert(le(s[i], s[s.len() - 1]));
                }
                assert(r[i] == s[i]);
            } else {
                assert(r[i] == s[i] && r[j] == s[j]);
            }
        }
    } else {
        let t = s.drop_last();
        let last = s.last();
        assert(sorted_by(t, le)) by {
            assert forall|i: int, j: int| 0 <= i < j < t.len() implies #[trigger] le(t[i], t[j]) by {
                assert(t[i] == s[i] && t[j] == s[j]);
            }
        }
        lemma_insert_sorted_sorted(t, x, le);
        assert(le(x, last));
        assert forall|i: int| 0 <= i < t.len() implies le(#[trigger] t[i], last) by {
            assert(t[i] == s[i]);
            assert(le(s[i], s[s.len() - 1]));
        }
        lemma_insert_sorted_bound(t, x, le, last);
        lemma_insert_sorted_len_multiset(t, x, le);
        let r = insert_sorted(t, x, le);
        let q = r.push(last);
        assert forall|i: int, j: int| 0 <= i < j < q.len() implies #[trigger] le(q[i], q[j]) by {
            assert(q[i] == r[i]);
            if j < r.len() {
                assert(q[j] == r[j]);
            } else {
                assert(le(r[i], last));
            }
        }
    }
}

/// The stable sort is sorted and a permutation of its input.
pub proof fn lemma_stable_sort<T>(s: Seq<T>, le: spec_fn(T, T) -> bool)
    requires
        total_preorder(le),
    ensures
        sorted_by(stable_sort(s, le), le),
        stable_sort(s, le).to_multiset() =~= s.to_multiset(),
        stable_sort(s, le).len() == s.len(),
    decreases s.len(),
{
    broadcast use vstd::seq_lib::group_to_multiset_ensures;

    if s.len() > 0 {
        lemma_stable_sort(s.drop_last(), le);
        lemma_insert_sorted_sorted(stable_sort(s.drop_last(), le), s.last(), le);
        lemma_insert_sorted_len_multiset(stable_sort(s.drop_last(), le), s.last(), le);
        assert(s =~= s.drop_last().push(s.last()));
    }
}

} // verus!
