//! A small map from process ids to per-client state, kept as a vector of
//! distinct keys. Iteration order is never observable through its contract.

use vstd::prelude::*;

verus! {

/// Keys of a pair sequence are pairwise distinct.
pub open spec fn distinct_keys<V>(s: Seq<(u32, V)>) -> bool {
    forall|i: int, j: int| 0 <= i < s.len() && 0 <= j < s.len() && i != j ==> s[i].0 != s[j].0
}

pub open spec fn has_key<V>(s: Seq<(u32, V)>, k: u32) -> bool {
    exists|i: int| 0 <= i < s.len() && s[i].0 == k
}

/// The map a pair sequence with distinct keys denotes.
pub open spec fn map_of<V>(s: Seq<(u32, V)>) -> Map<u32, V> {
    Map::new(
        |k: u32| has_key(s, k),
        |k: u32| s[choose|i: int| 0 <= i < s.len() && s[i].0 == k].1,
    )
}

pub proof fn lemma_map_of_at<V>(s: Seq<(u32, V)>, i: int)
    requires
        distinct_keys(s),
        0 <= i < s.len(),
    ensures
        map_of(s).contains_key(s[i].0),
        map_of(s)[s[i].0] == s[i].1,
{
    let k = s[i].0;
    assert(has_key(s, k));
    let j = choose|j: int| 0 <= j < s.len() && s[j].0 == k;
    assert(j == i);
}

/// Per-pid state with distinct pids.
pub struct PidMap<V> {
    items: Vec<(u32, V)>,
}

impl<V> PidMap<V> {
    /// The stored pids are distinct.
    pub closed spec fn wf(&self) -> bool {
        distinct_keys(self.items@)
    }

    pub closed spec fn view(&self) -> Map<u32, V> {
        map_of(self.items@)
    }

    /// The entries in storage order.
    pub closed spec fn entries(&self) -> Seq<(u32, V)> {
        self.items@
    }

    pub fn new() -> (m: PidMap<V>)
        ensures
            m.wf(),
            m.view() == Map::<u32, V>::empty(),
            m.entries().len() == 0,
    {
        let m = PidMap { items: Vec::new() };
        assert(m.view() =~= Map::<u32, V>::empty());
        m
    }

    /// The number of entries; also exposes how the map is stored.
    pub fn len(&self) -> (n: usize)
        requires
            self.wf(),
        ensures
            n == self.entries().len(),
            distinct_keys(self.entries()),
            self.view() == map_of(self.entries()),
            self.view().dom().finite(),
            self.view().dom().len() == n,
    {
        proof {
            lemma_map_of_finite(self.items@);
        }
        self.items.len()
    }

    /// The position of `pid`, if present.
    pub fn find(&self, pid: u32) -> (r: Option<usize>)
        requires
            self.wf(),
        ensures
            match r {
                Some(i) => i < self.entries().len() && self.entries()[i as int].0 == pid
                    && self.view().contains_key(pid) && self.view()[pid] == self.entries()[i as int].1,
                None => !self.view().contains_key(pid),
            },
    {
        let n = self.items.len();
        let mut i: usize = 0;
        while i < n
            invariant
                n == self.items@.len(),
                distinct_keys(self.items@),
                i <= n,
                forall|j: int| 0 <= j < i ==> self.items@[j].0 != pid,
            decreases n - i,
        {
            if self.items[i].0 == pid {
                proof {
                    lemma_map_of_at(self.items@, i as int);
                }
                return Some(i);
            }
            i = i + 1;
        }
        None
    }

    pub fn key_at(&self, i: usize) -> (k: u32)
        requires
            i < self.entries().len(),
        ensures
            k == self.entries()[i as int].0,
    {
        self.items[i].0
    }

    pub fn value_at(&self, i: usize) -> (v: &V)
        requires
            self.wf(),
            i < self.entries().len(),
        ensures
            *v == self.entries()[i as int].1,
            self.view().contains_key(self.entries()[i as int].0),
            self.view()[self.entries()[i as int].0] == *v,
    {
        proof {
            lemma_map_of_at(self.items@, i as int);
        }
        &self.items[i].1
    }

    pub fn get(&self, pid: u32) -> (r: Option<&V>)
        requires
            self.wf(),
        ensures
            match r {
                Some(v) => self.view().contains_key(pid) && self.view()[pid] == *v,
                None => !self.view().contains_key(pid),
            },
    {
        match self.find(pid) {
            Some(i) => Some(&self.items[i].1),
            None => None,
        }
    }

    /// Replace the value stored at a position.
    pub fn set_at(&mut self, i: usize, v: V)
        requires
            old(self).wf(),
            i < old(self).entries().len(),
        ensures
            final(self).wf(),
            final(self).view() == old(self).view().insert(old(self).entries()[i as int].0, v),
            final(self).entries() == old(self).entries().update(
                i as int,
                (old(self).entries()[i as int].0, v),
            ),
    {
        let ghost old_items = self.items@;
        let k = self.items[i].0;
        self.items.set(i, (k, v));
        proof {
            let s = self.items@;
            assert(distinct_keys(s));
            assert forall|q: u32| #[trigger] map_of(s).contains_key(q) == map_of(old_items).insert(
                k,
                v,
            ).contains_key(q) by {
                if has_key(old_items, q) {
                    let j = choose|j: int| 0 <= j < old_items.len() && old_items[j].0 == q;
                    assert(s[j].0 == q);
                }
                if has_key(s, q) {
                    let j = choose|j: int| 0 <= j < s.len() && s[j].0 == q;
                    assert(old_items[j].0 == q);
                }
            }
            assert forall|q: u32| #[trigger] map_of(s).contains_key(q) implies map_of(s)[q]
                == map_of(old_items).insert(k, v)[q] by {
                let j = choose|j: int| 0 <= j < s.len() && s[j].0 == q;
                lemma_map_of_at(s, j);
                if q != k {
                    assert(j != i);
                    lemma_map_of_at(old_items, j);
                }
            }
            assert(map_of(s) =~= map_of(old_items).insert(k, v));
        }
    }

    /// Insert or replace the value for `pid`.
    pub fn insert(&mut self, pid: u32, v: V)
        requires
            old(self).wf(),
        ensures
            final(self).wf(),
            final(self).view() == old(self).view().insert(pid, v),
    {
        match self.find(pid) {
            Some(i) => self.set_at(i, v),
            None => {
                let ghost old_items = self.items@;
                self.items.push((pid, v));
                proof {
                    let s = self.items@;
                    assert(s == old_items.push((pid, v)));
                    assert forall|a: int, b: int|
                        0 <= a < s.len() && 0 <= b < s.len() && a != b implies s[a].0 != s[b].0 by {
                        if a == old_items.len() as int {
                            assert(!has_key(old_items, pid));
                            assert(old_items[b].0 != pid);
                        } else if b == old_items.len() as int {
                            assert(!has_key(old_items, pid));
                            assert(old_items[a].0 != pid);
                        }
                    }
                    assert(distinct_keys(s));
                    assert forall|q: u32| #[trigger] map_of(s).contains_key(q)
                        == map_of(old_items).insert(pid, v).contains_key(q) by {
                        if has_key(old_items, q) {
                            let j = choose|j: int| 0 <= j < old_items.len() && old_items[j].0 == q;
                            assert(s[j].0 == q);
                        }
                        if q == pid {
                            assert(s[old_items.len() as int].0 == q);
                        }
                        if has_key(s, q) && q != pid {
                            let j = choose|j: int| 0 <= j < s.len() && s[j].0 == q;
                            assert(old_items[j].0 == q);
                        }
                    }
                    assert forall|q: u32| #[trigger] map_of(s).contains_key(q) implies map_of(s)[q]
                        == map_of(old_items).insert(pid, v)[q] by {
                        let j = choose|j: int| 0 <= j < s.len() && s[j].0 == q;
                        lemma_map_of_at(s, j);
                        if q != pid {
                            lemma_map_of_at(old_items, j);
                        }
                    }
                    assert(map_of(s) =~= map_of(old_items).insert(pid, v));
                }
            },
        }
    }

    /// Remove `pid`, returning its value if it was present.
    pub fn remove(&mut self, pid: u32) -> (r: Option<V>)
        requires
            old(self).wf(),
        ensures
            final(self).wf(),
            final(self).view() == old(self).view().remove(pid),
            match r {
                Some(v) => old(self).view().contains_key(pid) && old(self).view()[pid] == v,
                None => !old(self).view().contains_key(pid),
            },
    {
        match self.find(pid) {
            Some(i) => {
                let ghost old_items = self.items@;
                let (_, v) = self.items.remove(i);
                proof {
                    let s = self.items@;
                    assert(s == old_items.remove(i as int));
                    assert forall|a: int, b: int|
                        0 <= a < s.len() && 0 <= b < s.len() && a != b implies s[a].0 != s[b].0 by {
                        let oa = if a < i { a } else { a + 1 };
                        let ob = if b < i { b } else { b + 1 };
                        assert(s[a] == old_items[oa] && s[b] == old_items[ob]);
                    }
                    assert(distinct_keys(s));
                    assert forall|q: u32| #[trigger] map_of(s).contains_key(q)
                        == map_of(old_items).remove(pid).contains_key(q) by {
                        if has_key(s, q) {
                            let j = choose|j: int| 0 <= j < s.len() && s[j].0 == q;
                            let oj = if j < i { j } else { j + 1 };
                            assert(old_items[oj].0 == q);
                            assert(oj != i);
                        }
                        if has_key(old_items, q) && q != pid {
                            let j = choose|j: int| 0 <= j < old_items.len() && old_items[j].0 == q;
                            assert(j != i);
                            let sj = if j < i { j } else { j - 1 };
                            assert(s[sj].0 == q);
                        }
                    }
                    assert forall|q: u32| #[trigger] map_of(s).contains_key(q) implies map_of(s)[q]
                        == map_of(old_items).remove(pid)[q] by {
                        let j = choose|j: int| 0 <= j < s.len() && s[j].0 == q;
                        lemma_map_of_at(s, j);
                        let oj = if j < i { j } else { j + 1 };
                        assert(s[j] == old_items[oj]);
                        lemma_map_of_at(old_items, oj);
                    }
                    assert(map_of(s) =~= map_of(old_items).remove(pid));
                }
                Some(v)
            },
            None => {
                assert(self.view().remove(pid) =~= self.view());
                None
            },
        }
    }
}

pub proof fn lemma_map_of_finite<V>(s: Seq<(u32, V)>)
    requires
        distinct_keys(s),
    ensures
        map_of(s).dom().finite(),
        map_of(s).dom().len() == s.len(),
    decreases s.len(),
{
    if s.len() == 0 {
        assert(map_of(s).dom() =~= Set::<u32>::empty());
    } else {
        let t = s.drop_last();
        assert(distinct_keys(t));
        lemma_map_of_finite(t);
        let k = s.last().0;
        assert forall|q: u32| #[trigger] map_of(s).dom().contains(q) == map_of(t).dom().insert(
            k,
        ).contains(q) by {
            if has_key(s, q) && q != k {
                let j = choose|j: int| 0 <= j < s.len() && s[j].0 == q;
                assert(j != s.len() - 1);
                assert(t[j].0 == q);
            }
            if has_key(t, q) {
                let j = choose|j: int| 0 <= j < t.len() && t[j].0 == q;
                assert(s[j].0 == q);
            }
            if q == k {
                assert(s[s.len() - 1].0 == q);
            }
        }
        assert(map_of(s).dom() =~= map_of(t).dom().insert(k));
        assert(!map_of(t).dom().contains(k)) by {
            if has_key(t, k) {
                let j = choose|j: int| 0 <= j < t.len() && t[j].0 == k;
                assert(s[j].0 == s[s.len() - 1].0);
            }
        }
    }
}

/// Updating every value in place, keeping keys and positions, maps the
/// denoted map's values.
pub proof fn lemma_map_of_pointwise<V>(s1: Seq<(u32, V)>, s2: Seq<(u32, V)>, f: spec_fn(V) -> V)
    requires
        distinct_keys(s1),
        s1.len() == s2.len(),
        forall|j: int| 0 <= j < s1.len() ==> (#[trigger] s2[j]).0 == s1[j].0 && s2[j].1 == f(s1[j].1),
    ensures
        distinct_keys(s2),
        map_of(s2) == map_of(s1).map_values(f),
{
    assert forall|a: int, b: int| 0 <= a < s2.len() && 0 <= b < s2.len() && a != b implies s2[a].0
        != s2[b].0 by {
        assert(s2[a].0 == s1[a].0 && s2[b].0 == s1[b].0);
    }
    assert forall|q: u32| #[trigger] map_of(s2).contains_key(q) == map_of(s1).map_values(
        f,
    ).contains_key(q) by {
        if has_key(s1, q) {
            let j = choose|j: int| 0 <= j < s1.len() && s1[j].0 == q;
            assert(s2[j].0 == q);
        }
        if has_key(s2, q) {
            let j = choose|j: int| 0 <= j < s2.len() && s2[j].0 == q;
            assert(s1[j].0 == q);
        }
    }
    assert forall|q: u32| #[trigger] map_of(s2).contains_key(q) implies map_of(s2)[q] == map_of(
        s1,
    ).map_values(f)[q] by {
        let j = choose|j: int| 0 <= j < s2.len() && s2[j].0 == q;
        lemma_map_of_at(s2, j);
        assert(s1[j].0 == q);
        lemma_map_of_at(s1, j);
    }
    assert(map_of(s2) =~= map_of(s1).map_values(f));
}

} // verus!
