//! Decisions taken when the set of game clients changes.

use vstd::prelude::*;
use vstd::string::StringExecFns;
use crate::clients::{
    ClientRegistry, EqWindow, MAX_PIPS, assign_numbers, key_of, key_order, next_available_number, number_used,
    pip_number_order, pids_of, position_of, with_hwnd, without,
};
use crate::sorting::stable_sort;
use crate::text::{decimal, push_decimal};

verus! {

/// Broadcasting switches off (where the setting asks for it) only when the
/// last client has exited, not when some of several exit.
pub fn should_disable_broadcast_when_clients_exit(
    setting_enabled: bool,
    previous_client_count: usize,
    current_client_count: usize,
) -> (b: bool)
    ensures
        b == (setting_enabled && previous_client_count > 0 && current_client_count == 0),
{
    setting_enabled && previous_client_count > 0 && current_client_count == 0
}

/// A game client window found by the latest window scan.
#[derive(Clone, Copy, Debug, PartialEq, Eq, Structural)]
pub struct FoundWindow {
    /// The window handle's value.
    pub hwnd: usize,
    pub pid: u32,
}

/// The pids of a scan, in order.
pub open spec fn found_pids(found: Seq<FoundWindow>) -> Seq<u32> {
    found.map_values(|w: FoundWindow| w.pid)
}

fn found_contains(found: &[FoundWindow], pid: u32) -> (b: bool)
    ensures
        b == found_pids(found@).contains(pid),
{
    let mut i: usize = 0;
    while i < found.len()
        invariant
            0 <= i <= found@.len(),
            forall|k: int| 0 <= k < i ==> found@[k].pid != pid,
        decreases found@.len() - i,
    {
        if found[i].pid == pid {
            assert(found_pids(found@)[i as int] == pid);
            return true;
        }
        i = i + 1;
    }
    assert(!found_pids(found@).contains(pid)) by {
        if found_pids(found@).contains(pid) {
            let k = choose|k: int| 0 <= k < found_pids(found@).len() && found_pids(found@)[k] == pid;
            assert(found@[k].pid == pid);
        }
    }
    false
}

fn windows_contain(windows: &[EqWindow], pid: u32) -> (b: bool)
    ensures
        b == pids_of(windows@).contains(pid),
{
    match position_of(windows, pid) {
        Some(i) => {
            assert(pids_of(windows@)[i as int] == pid);
            true
        },
        None => false,
    }
}

/// Whether a scan found exactly the clients already known, as sets of pids.
pub fn same_membership(windows: &[EqWindow], found: &[FoundWindow]) -> (b: bool)
    ensures
        b == (forall|pid: u32| pids_of(windows@).contains(pid) <==> found_pids(found@).contains(pid)),
{
    let mut i: usize = 0;
    while i < windows.len()
        invariant
            0 <= i <= windows@.len(),
            forall|k: int| 0 <= k < i ==> found_pids(found@).contains(#[trigger] windows@[k].pid),
        decreases windows@.len() - i,
    {
        if !found_contains(found, windows[i].pid) {
            assert(pids_of(windows@)[i as int] == windows@[i as int].pid);
            return false;
        }
        i = i + 1;
    }
    let mut j: usize = 0;
    while j < found.len()
        invariant
            0 <= j <= found@.len(),
            forall|k: int| 0 <= k < windows@.len() ==> found_pids(found@).contains(#[trigger] windows@[k].pid),
            forall|k: int| 0 <= k < j ==> pids_of(windows@).contains(#[trigger] found@[k].pid),
        decreases found@.len() - j,
    {
        if !windows_contain(windows, found[j].pid) {
            assert(found_pids(found@)[j as int] == found@[j as int].pid);
            return false;
        }
        j = j + 1;
    }
    assert forall|pid: u32| pids_of(windows@).contains(pid) <==> found_pids(found@).contains(pid) by {
        if pids_of(windows@).contains(pid) {
            let k = choose|k: int| 0 <= k < pids_of(windows@).len() && pids_of(windows@)[k] == pid;
            assert(windows@[k].pid == pid);
        }
        if found_pids(found@).contains(pid) {
            let k = choose|k: int| 0 <= k < found_pids(found@).len() && found_pids(found@)[k] == pid;
            assert(found@[k].pid == pid);
        }
    }
    true
}

/// The distinct pids of `s` that are missing from `keep`, in order of first
/// appearance.
pub open spec fn departed(s: Seq<u32>, keep: Seq<u32>) -> Seq<u32>
    decreases s.len(),
{
    if s.len() == 0 {
        Seq::empty()
    } else {
        let rest = departed(s.drop_last(), keep);
        if keep.contains(s.last()) || rest.contains(s.last()) {
            rest
        } else {
            rest.push(s.last())
        }
    }
}

pub proof fn lemma_departed(s: Seq<u32>, keep: Seq<u32>)
    ensures
        forall|x: u32| departed(s, keep).contains(x) <==> s.contains(x) && !keep.contains(x),
        forall|a: int, b: int|
            0 <= a < b < departed(s, keep).len() ==> departed(s, keep)[a] != departed(s, keep)[b],
    decreases s.len(),
{
    if s.len() > 0 {
        lemma_departed(s.drop_last(), keep);
        let rest = departed(s.drop_last(), keep);
        assert forall|x: u32| departed(s, keep).contains(x) <==> s.contains(x) && !keep.contains(x) by {
            if s.contains(x) && !keep.contains(x) {
                let k = choose|k: int| 0 <= k < s.len() && s[k] == x;
                if k < s.len() - 1 {
                    assert(s.drop_last()[k] == x);
                }
                if !rest.contains(x) {
                    assert(departed(s, keep) == rest.push(s.last()));
                    assert(departed(s, keep)[rest.len() as int] == x);
                }
            }
            if departed(s, keep).contains(x) && !rest.contains(x) {
                assert(x == s.last());
            }
            if rest.contains(x) {
                assert(s.drop_last().contains(x));
                let k = choose|k: int| 0 <= k < s.drop_last().len() && s.drop_last()[k] == x;
                assert(s[k] == x);
                let m = choose|m: int| 0 <= m < rest.len() && rest[m] == x;
                if !(keep.contains(s.last()) || rest.contains(s.last())) {
                    assert(departed(s, keep)[m] == x);
                }
            }
        }
    }
}

/// The active client and PiPs after forgetting one client (the first
/// remaining PiP takes over from a departed active client).
pub open spec fn partition_after_removal(active: Option<u32>, pips: Seq<u32>, pid: u32) -> (Option<u32>, Seq<u32>) {
    let rest = without(pips, pid);
    if active == Some(pid) {
        if rest.len() > 0 {
            (Some(rest[0]), without(rest, rest[0]))
        } else {
            (None, rest)
        }
    } else {
        (active, rest)
    }
}

/// The active client and PiPs after forgetting clients one after another.
pub open spec fn partition_after_removals(active: Option<u32>, pips: Seq<u32>, removed: Seq<u32>) -> (
    Option<u32>,
    Seq<u32>,
)
    decreases removed.len(),
{
    if removed.len() == 0 {
        (active, pips)
    } else {
        let prior = partition_after_removals(active, pips, removed.drop_last());
        partition_after_removal(prior.0, prior.1, removed.last())
    }
}

/// The toast shown when a client window closes: `Window #<number> closed`.
pub open spec fn closed_label(number: usize) -> Seq<char> {
    "Window #"@ + decimal(number as nat) + " closed"@
}

proof fn lemma_filter_filter<A>(s: Seq<A>, p: spec_fn(A) -> bool, q: spec_fn(A) -> bool)
    ensures
        s.filter(p).filter(q) == s.filter(|x: A| p(x) && q(x)),
    decreases s.len(),
{
    if s.len() == 0 {
        reveal(Seq::filter);
    } else {
        let d = s.drop_last();
        let e = s.last();
        lemma_filter_filter(d, p, q);
        assert(d.push(e) =~= s);
        d.lemma_filter_push(e, p);
        d.lemma_filter_push(e, |x: A| p(x) && q(x));
        if p(e) {
            d.filter(p).lemma_filter_push(e, q);
        }
    }
}

proof fn lemma_filter_everything<A>(s: Seq<A>, p: spec_fn(A) -> bool)
    requires
        forall|i: int| 0 <= i < s.len() ==> p(#[trigger] s[i]),
    ensures
        s.filter(p) == s,
    decreases s.len(),
{
    if s.len() == 0 {
        reveal(Seq::filter);
    } else {
        let d = s.drop_last();
        assert forall|i: int| 0 <= i < d.len() implies p(#[trigger] d[i]) by {
            assert(d[i] == s[i]);
        }
        lemma_filter_everything(d, p);
        assert(d.push(s.last()) =~= s);
        assert(p(s[s.len() - 1]));
        d.lemma_filter_push(s.last(), p);
    }
}

fn contains_pid(v: &Vec<u32>, pid: u32) -> (b: bool)
    ensures
        b == v@.contains(pid),
{
    let mut i: usize = 0;
    while i < v.len()
        invariant
            0 <= i <= v@.len(),
            forall|k: int| 0 <= k < i ==> v@[k] != pid,
        decreases v@.len() - i,
    {
        if v[i] == pid {
            return true;
        }
        i = i + 1;
    }
    false
}

/// The pids that a scan no longer finds, in the order of the known windows,
/// each once.
fn departed_pids(windows: &[EqWindow], found: &[FoundWindow]) -> (r: (Vec<u32>, usize))
    ensures
        r.0@ == departed(pids_of(windows@), found_pids(found@)),
        r.0@.len() > 0 ==> exists|i: int| {
            &&& 0 <= i < windows@.len()
            &&& (#[trigger] windows@[i]).pid == r.0@.last()
            &&& (forall|k: int| 0 <= k < i ==> windows@[k].pid != r.0@.last())
            &&& r.1 == windows@[i].number
        },
{
    let ghost ps = pids_of(windows@);
    let ghost keep = found_pids(found@);
    let mut gone: Vec<u32> = Vec::new();
    let mut last_number: usize = 0;
    let n = windows.len();
    let mut i: usize = 0;
    while i < n
        invariant
            n == windows@.len(),
            ps == pids_of(windows@),
            keep == found_pids(found@),
            0 <= i <= n,
            gone@ == departed(ps.take(i as int), keep),
            gone@.len() > 0 ==> exists|j: int| {
                &&& 0 <= j < i
                &&& (#[trigger] windows@[j]).pid == gone@.last()
                &&& (forall|k: int| 0 <= k < j ==> windows@[k].pid != gone@.last())
                &&& last_number == windows@[j].number
            },
        decreases n - i,
    {
        let pid = windows[i].pid;
        proof {
            assert(ps.take(i + 1).drop_last() =~= ps.take(i as int));
            assert(ps.take(i + 1).last() == pid);
            lemma_departed(ps.take(i as int), keep);
        }
        if !found_contains(found, pid) && !contains_pid(&gone, pid) {
            gone.push(pid);
            last_number = windows[i].number;
            proof {
                assert forall|k: int| 0 <= k < i implies windows@[k].pid != pid by {
                    if windows@[k].pid == pid {
                        assert(ps.take(i as int)[k] == pid);
                    }
                }
            }
        }
        i = i + 1;
    }
    proof {
        assert(ps.take(n as int) =~= ps);
    }
    (gone, last_number)
}

/// Forget the known clients that a scan no longer finds. Returns the
/// departed pids (in window order, each once) and, when any departed, the
/// closing toast of the last of them.
pub fn remove_departed(registry: &mut ClientRegistry, found: &[FoundWindow]) -> (r: (Vec<u32>, Option<String>))
    requires
        old(registry).wf(),
    ensures
        final(registry).wf(),
        r.0@ == departed(pids_of(old(registry).windows_seq()), found_pids(found@)),
        final(registry).windows_seq() == old(registry).windows_seq().filter(|w: EqWindow| !r.0@.contains(w.pid)),
        (final(registry).active(), final(registry).pip_seq()) == partition_after_removals(
            old(registry).active(),
            old(registry).pip_seq(),
            r.0@,
        ),
        final(registry).observed() == old(registry).observed().remove_keys(r.0@.to_set()),
        final(registry).preferred_seq() == old(registry).preferred_seq(),
        old(registry).partition_valid() ==> final(registry).partition_valid(),
        match r.1 {
            None => r.0@.len() == 0,
            Some(label) => r.0@.len() > 0 && exists|i: int| {
                &&& 0 <= i < old(registry).windows_seq().len()
                &&& (#[trigger] old(registry).windows_seq()[i]).pid == r.0@.last()
                &&& (forall|k: int| 0 <= k < i ==> old(registry).windows_seq()[k].pid != r.0@.last())
                &&& label@ == closed_label(old(registry).windows_seq()[i].number)
            },
        },
{
    let ghost old_ws = registry.windows_seq();
    let ghost old_obs = registry.observed();
    let (gone, last_number) = departed_pids(registry.windows(), found);
    let ghost g = gone@;
    let mut j: usize = 0;
    proof {
        assert(g.take(0) =~= Seq::<u32>::empty());
        lemma_filter_everything(old_ws, |w: EqWindow| !g.take(0).contains(w.pid));
    }
    while j < gone.len()
        invariant
            g == gone@,
            0 <= j <= g.len(),
            registry.wf(),
            registry.windows_seq() == old_ws.filter(|w: EqWindow| !g.take(j as int).contains(w.pid)),
            (registry.active(), registry.pip_seq()) == partition_after_removals(
                old(registry).active(),
                old(registry).pip_seq(),
                g.take(j as int),
            ),
            forall|k: u32| #[trigger] registry.observed().dom().contains(k) <==> old_obs.dom().contains(k)
                && !g.take(j as int).contains(k),
            forall|k: u32| #[trigger] registry.observed().dom().contains(k) ==> registry.observed()[k] == old_obs[k],
            registry.preferred_seq() == old(registry).preferred_seq(),
            old(registry).partition_valid() ==> registry.partition_valid(),
        decreases g.len() - j,
    {
        let pid = gone[j];
        let ghost before = registry.windows_seq();
        let ghost t = g.take(j as int);
        let ghost t1 = g.take(j + 1);
        registry.remove(pid);
        proof {
            assert(t1.drop_last() =~= t);
            assert(t1.last() == pid);
            assert forall|x: u32| t1.contains(x) <==> t.contains(x) || x == pid by {
                if t1.contains(x) {
                    let k = choose|k: int| 0 <= k < t1.len() && t1[k] == x;
                    if k < j {
                        assert(t[k] == x);
                    }
                }
                if t.contains(x) {
                    let k = choose|k: int| 0 <= k < t.len() && t[k] == x;
                    assert(t1[k] == x);
                }
                if x == pid {
                    assert(t1[j as int] == x);
                }
            }
            lemma_filter_filter(old_ws, |w: EqWindow| !t.contains(w.pid), crate::clients::pid_other_than(pid));
            assert((|w: EqWindow| (|w: EqWindow| !t.contains(w.pid))(w) && crate::clients::pid_other_than(pid)(w))
                =~= (|w: EqWindow| !t1.contains(w.pid)));
        }
        j = j + 1;
    }
    proof {
        assert(g.take(g.len() as int) =~= g);
        assert(registry.observed() =~= old_obs.remove_keys(g.to_set()));
    }
    if gone.len() == 0 {
        (gone, None)
    } else {
        let mut label = String::new();
        label.append("Window #");
        push_decimal(&mut label, last_number as u64);
        label.append(" closed");
        proof {
            assert(label@ =~= closed_label(last_number));
        }
        (gone, Some(label))
    }
}

/// The first scanned window of each pid that is neither known nor already
/// earlier in the scan, in scan order.
pub open spec fn arrived(found: Seq<FoundWindow>, known: Seq<u32>) -> Seq<FoundWindow>
    decreases found.len(),
{
    if found.len() == 0 {
        Seq::empty()
    } else {
        let rest = arrived(found.drop_last(), known);
        let f = found.last();
        if known.contains(f.pid) || found_pids(rest).contains(f.pid) {
            rest
        } else {
            rest.push(f)
        }
    }
}

/// The lowest positive window number that no window carries.
pub open spec fn lowest_free(ws: Seq<EqWindow>) -> usize {
    choose|n: usize| n >= 1 && !number_used(ws, n as int) && forall|k: int| 1 <= k < n ==> #[trigger] number_used(ws, k)
}

/// A newly found client window: no identity yet.
pub open spec fn new_window(f: FoundWindow, number: usize) -> EqWindow {
    EqWindow { hwnd: f.hwnd, pid: f.pid, number, character: None, server: None, class: None }
}

/// The windows after admitting new clients one after another, each with the
/// lowest free number at its turn.
pub open spec fn admitted(ws: Seq<EqWindow>, a: Seq<FoundWindow>) -> Seq<EqWindow>
    decreases a.len(),
{
    if a.len() == 0 {
        ws
    } else {
        let prior = admitted(ws, a.drop_last());
        prior.push(new_window(a.last(), lowest_free(prior)))
    }
}

/// Whether a newly admitted client should become active: only while no
/// client is active, and then the focused one (or, with none focused, the
/// first newcomer).
pub open spec fn prefers_active(active: Option<u32>, pid: u32, foreground: Option<u32>) -> bool {
    active is None && (foreground == Some(pid) || foreground is None)
}

/// The active client and PiPs after admitting new clients one after another.
pub open spec fn partition_after_arrivals(
    active: Option<u32>,
    pips: Seq<u32>,
    a: Seq<FoundWindow>,
    foreground: Option<u32>,
) -> (Option<u32>, Seq<u32>)
    decreases a.len(),
{
    if a.len() == 0 {
        (active, pips)
    } else {
        let prior = partition_after_arrivals(active, pips, a.drop_last(), foreground);
        let pid = a.last().pid;
        if prefers_active(prior.0, pid, foreground) {
            (Some(pid), prior.1)
        } else {
            (prior.0, prior.1.push(pid))
        }
    }
}

proof fn lemma_lowest_free(ws: Seq<EqWindow>, n: usize)
    requires
        n >= 1,
        !number_used(ws, n as int),
        forall|k: int| 1 <= k < n ==> #[trigger] number_used(ws, k),
    ensures
        lowest_free(ws) == n,
{
    let m = lowest_free(ws);
    assert(m >= 1 && !number_used(ws, m as int) && forall|k: int| 1 <= k < m ==> #[trigger] number_used(ws, k));
    if m < n {
        assert(number_used(ws, m as int));
    }
    if n < m {
        assert(number_used(ws, n as int));
    }
}

/// Admit the clients that a scan found for the first time, in scan order,
/// each under the lowest free window number.
pub fn admit_arrivals(registry: &mut ClientRegistry, found: &[FoundWindow], foreground_pid: Option<u32>) -> (r: Ghost<Seq<FoundWindow>>)
    requires
        // The window list cannot fill the address space.
        old(registry).windows_seq().len() + found@.len() < usize::MAX,
    ensures
        r@ == arrived(found@, pids_of(old(registry).windows_seq())),
        final(registry).windows_seq() == admitted(old(registry).windows_seq(), r@),
        (final(registry).active(), final(registry).pip_seq()) == partition_after_arrivals(
            old(registry).active(),
            old(registry).pip_seq(),
            r@,
            foreground_pid,
        ),
        pids_of(final(registry).windows_seq()) == pids_of(old(registry).windows_seq()) + found_pids(r@),
        forall|pid: u32| pids_of(final(registry).windows_seq()).contains(pid) <==> pids_of(
            old(registry).windows_seq(),
        ).contains(pid) || found_pids(found@).contains(pid),
        final(registry).observed() == old(registry).observed(),
        final(registry).preferred_seq() == old(registry).preferred_seq(),
        old(registry).wf() ==> final(registry).wf(),
        old(registry).partition_valid() ==> final(registry).partition_valid(),
{
    let ghost old_ws = registry.windows_seq();
    let ghost known = pids_of(old_ws);
    let ghost mut added: Seq<FoundWindow> = Seq::empty();
    let n = found.len();
    let mut i: usize = 0;
    while i < n
        invariant
            n == found@.len(),
            0 <= i <= n,
            known == pids_of(old_ws),
            old_ws.len() + n < usize::MAX,
            registry.windows_seq().len() <= old_ws.len() + i,
            added == arrived(found@.take(i as int), known),
            registry.windows_seq() == admitted(old_ws, added),
            pids_of(registry.windows_seq()) == known + found_pids(added),
            (registry.active(), registry.pip_seq()) == partition_after_arrivals(
                old(registry).active(),
                old(registry).pip_seq(),
                added,
                foreground_pid,
            ),
            forall|pid: u32| pids_of(registry.windows_seq()).contains(pid) <==> known.contains(pid)
                || found_pids(found@.take(i as int)).contains(pid),
            registry.observed() == old(registry).observed(),
            registry.preferred_seq() == old(registry).preferred_seq(),
            old(registry).wf() ==> registry.wf(),
            old(registry).partition_valid() ==> registry.partition_valid(),
        decreases n - i,
    {
        let f = found[i];
        let ghost ft = found@.take(i as int);
        let ghost ft1 = found@.take(i + 1);
        proof {
            assert(ft1.drop_last() =~= ft);
            assert(ft1.last() == f);
            assert forall|pid: u32| found_pids(ft1).contains(pid) <==> found_pids(ft).contains(pid) || pid == f.pid by {
                if found_pids(ft1).contains(pid) {
                    let k = choose|k: int| 0 <= k < found_pids(ft1).len() && found_pids(ft1)[k] == pid;
                    if k < i {
                        assert(found_pids(ft)[k] == pid);
                    }
                }
                if found_pids(ft).contains(pid) {
                    let k = choose|k: int| 0 <= k < found_pids(ft).len() && found_pids(ft)[k] == pid;
                    assert(found_pids(ft1)[k] == pid);
                }
                if pid == f.pid {
                    assert(found_pids(ft1)[i as int] == pid);
                }
            }
            assert(known.contains(f.pid) || found_pids(added).contains(f.pid) <==> (known + found_pids(
                added,
            )).contains(f.pid)) by {
                let c = known + found_pids(added);
                if c.contains(f.pid) {
                    let k = choose|k: int| 0 <= k < c.len() && c[k] == f.pid;
                    if k >= known.len() {
                        assert(found_pids(added)[k - known.len()] == f.pid);
                    }
                }
                if known.contains(f.pid) {
                    let k = choose|k: int| 0 <= k < known.len() && known[k] == f.pid;
                    assert(c[k] == f.pid);
                }
                if found_pids(added).contains(f.pid) {
                    let k = choose|k: int| 0 <= k < found_pids(added).len() && found_pids(added)[k] == f.pid;
                    assert(c[known.len() + k] == f.pid);
                }
            }
        }
        if !windows_contain(registry.windows(), f.pid) {
            let number = next_available_number(registry.windows());
            proof {
                lemma_lowest_free(registry.windows_seq(), number);
            }
            let prefer_active = registry.active_pid().is_none() && match foreground_pid {
                Some(fg) => fg == f.pid,
                None => true,
            };
            let ghost before = registry.windows_seq();
            registry.add(
                EqWindow { hwnd: f.hwnd, pid: f.pid, number, character: None, server: None, class: None },
                prefer_active,
            );
            proof {
                let prev = added;
                added = added.push(f);
                assert(added.drop_last() =~= prev);
                assert(pids_of(registry.windows_seq()) =~= pids_of(before).push(f.pid));
                assert(found_pids(added) =~= found_pids(prev).push(f.pid));
                assert(pids_of(registry.windows_seq()) =~= known + found_pids(added));
                assert forall|pid: u32| pids_of(registry.windows_seq()).contains(pid) <==> pids_of(before).contains(pid)
                    || pid == f.pid by {
                    let ps = pids_of(registry.windows_seq());
                    if ps.contains(pid) {
                        let k = choose|k: int| 0 <= k < ps.len() && ps[k] == pid;
                        if k < pids_of(before).len() {
                            assert(pids_of(before)[k] == pid);
                        }
                    }
                    if pids_of(before).contains(pid) {
                        let k = choose|k: int| 0 <= k < pids_of(before).len() && pids_of(before)[k] == pid;
                        assert(ps[k] == pid);
                    }
                    if pid == f.pid {
                        assert(ps[pids_of(before).len() as int] == pid);
                    }
                }
            }
        }
        proof {
            assert forall|pid: u32| #[trigger] pids_of(registry.windows_seq()).contains(pid) <==> known.contains(pid)
                || found_pids(ft1).contains(pid) by {
                if pid == f.pid {
                    assert(pids_of(registry.windows_seq()).contains(pid));
                }
            }
        }
        i = i + 1;
        proof {
            assert(found@.take(i as int) == ft1);
            assert forall|pid: u32| pids_of(registry.windows_seq()).contains(pid) <==> known.contains(pid)
                || found_pids(found@.take(i as int)).contains(pid) by {
                assert(pids_of(registry.windows_seq()).contains(pid) <==> known.contains(pid)
                    || found_pids(ft1).contains(pid));
            }
        }
    }
    proof {
        assert(found@.take(n as int) =~= found@);
    }
    Ghost(added)
}

/// `i` is the first window of `pid`.
pub open spec fn first_at(ws: Seq<EqWindow>, pid: u32, i: int) -> bool {
    0 <= i < ws.len() && ws[i].pid == pid && forall|k: int| 0 <= k < i ==> ws[k].pid != pid
}

/// The windows after pointing, scan entry by scan entry, the first window of
/// each scanned pid at the scanned handle.
pub open spec fn handles_after(ws: Seq<EqWindow>, found: Seq<FoundWindow>) -> Seq<EqWindow>
    decreases found.len(),
{
    if found.len() == 0 {
        ws
    } else {
        let prior = handles_after(ws, found.drop_last());
        let f = found.last();
        if exists|i: int| first_at(prior, f.pid, i) {
            let i = choose|i: int| first_at(prior, f.pid, i);
            prior.update(i, with_hwnd(prior[i], f.hwnd))
        } else {
            prior
        }
    }
}

/// Whether some step of `handles_after` replaced a different handle.
pub open spec fn handles_changed(ws: Seq<EqWindow>, found: Seq<FoundWindow>) -> bool
    decreases found.len(),
{
    if found.len() == 0 {
        false
    } else {
        let prior = handles_after(ws, found.drop_last());
        let f = found.last();
        handles_changed(ws, found.drop_last()) || exists|i: int| first_at(prior, f.pid, i) && prior[i].hwnd != f.hwnd
    }
}

pub proof fn lemma_first_at_unique(ws: Seq<EqWindow>, pid: u32, i: int, j: int)
    requires
        first_at(ws, pid, i),
        first_at(ws, pid, j),
    ensures
        i == j,
{
    if i < j {
        assert(ws[i].pid != pid);
    }
    if j < i {
        assert(ws[j].pid != pid);
    }
}

/// Point the known windows at the handles of the latest scan. Returns whether
/// any handle changed.
pub fn refresh_handles(registry: &mut ClientRegistry, found: &[FoundWindow]) -> (changed: bool)
    ensures
        final(registry).windows_seq() == handles_after(old(registry).windows_seq(), found@),
        changed == handles_changed(old(registry).windows_seq(), found@),
        pids_of(final(registry).windows_seq()) == pids_of(old(registry).windows_seq()),
        final(registry).active() == old(registry).active(),
        final(registry).pip_seq() == old(registry).pip_seq(),
        final(registry).observed() == old(registry).observed(),
        final(registry).preferred_seq() == old(registry).preferred_seq(),
        old(registry).wf() ==> final(registry).wf(),
        old(registry).partition_valid() ==> final(registry).partition_valid(),
{
    let ghost ws0 = registry.windows_seq();
    let mut changed = false;
    let n = found.len();
    let mut i: usize = 0;
    while i < n
        invariant
            n == found@.len(),
            0 <= i <= n,
            registry.windows_seq() == handles_after(ws0, found@.take(i as int)),
            changed == handles_changed(ws0, found@.take(i as int)),
            pids_of(registry.windows_seq()) == pids_of(ws0),
            registry.active() == old(registry).active(),
            registry.pip_seq() == old(registry).pip_seq(),
            registry.observed() == old(registry).observed(),
            registry.preferred_seq() == old(registry).preferred_seq(),
            old(registry).wf() ==> registry.wf(),
            old(registry).partition_valid() ==> registry.partition_valid(),
        decreases n - i,
    {
        let f = found[i];
        let ghost prior = registry.windows_seq();
        proof {
            let t1 = found@.take(i + 1);
            assert(t1.drop_last() =~= found@.take(i as int));
            assert(t1.last() == f);
        }
        match position_of(registry.windows(), f.pid) {
            Some(k) => {
                proof {
                    assert(first_at(prior, f.pid, k as int));
                    let c = choose|c: int| first_at(prior, f.pid, c);
                    lemma_first_at_unique(prior, f.pid, c, k as int);
                }
                if registry.windows()[k].hwnd != f.hwnd {
                    changed = true;
                }
                registry.set_window_handle(k, f.hwnd);
                proof {
                    assert(pids_of(registry.windows_seq()) =~= pids_of(prior));
                }
            },
            None => {
                proof {
                    assert(!exists|c: int| first_at(prior, f.pid, c)) by {
                        if exists|c: int| first_at(prior, f.pid, c) {
                            let c = choose|c: int| first_at(prior, f.pid, c);
                            assert(pids_of(prior)[c] == f.pid);
                        }
                    }
                }
            },
        }
        i = i + 1;
    }
    proof {
        assert(found@.take(n as int) =~= found@);
    }
    changed
}

/// What a change of the client set did: the departed pids and the toast for
/// the last window that closed.
pub struct MembershipChange {
    pub removed: Vec<u32>,
    pub closed_toast: Option<String>,
}

/// Bring the client registry in line with a window scan whose set of clients
/// differs from the known one: departed clients are forgotten, newcomers are
/// admitted under the lowest free numbers (the focused newcomer becoming
/// active while none is), the focused client is promoted, at most
/// `MAX_PIPS` PiPs stay, and the known windows take the scanned handles.
pub fn reconcile_membership(
    registry: &mut ClientRegistry,
    found: &[FoundWindow],
    foreground_pid: Option<u32>,
    auto_order: bool,
) -> (r: MembershipChange)
    requires
        old(registry).wf(),
        // The window list cannot fill the address space.
        old(registry).windows_seq().len() + found@.len() < usize::MAX,
    ensures
        final(registry).wf(),
        r.removed@ == departed(pids_of(old(registry).windows_seq()), found_pids(found@)),
        match r.closed_toast {
            None => r.removed@.len() == 0,
            Some(label) => r.removed@.len() > 0 && exists|i: int| {
                &&& 0 <= i < old(registry).windows_seq().len()
                &&& (#[trigger] old(registry).windows_seq()[i]).pid == r.removed@.last()
                &&& (forall|k: int| 0 <= k < i ==> old(registry).windows_seq()[k].pid != r.removed@.last())
                &&& label@ == closed_label(old(registry).windows_seq()[i].number)
            },
        },
        forall|pid: u32| pids_of(final(registry).windows_seq()).contains(pid) <==> found_pids(found@).contains(pid),
        final(registry).pip_seq().len() <= MAX_PIPS,
        final(registry).observed() == old(registry).observed().remove_keys(r.removed@.to_set()),
        final(registry).preferred_seq() == old(registry).preferred_seq(),
        old(registry).partition_valid() ==> final(registry).partition_valid(),
        old(registry).partition_valid() && foreground_pid is Some && found_pids(found@).contains(
            foreground_pid.unwrap(),
        ) ==> final(registry).active() == foreground_pid,
{
    let ghost old_ws = registry.windows_seq();
    let (removed, closed_toast) = remove_departed(registry, found);
    proof {
        let kept = registry.windows_seq();
        lemma_departed(pids_of(old_ws), found_pids(found@));
        let keep = |w: EqWindow| !removed@.contains(w.pid);
        assert forall|pid: u32| pids_of(kept).contains(pid) implies found_pids(found@).contains(pid) by {
            let k = choose|k: int| 0 <= k < pids_of(kept).len() && pids_of(kept)[k] == pid;
            assert(kept[k].pid == pid);
            old_ws.lemma_filter_pred(keep, k);
            assert(kept.contains(kept[k]));
            old_ws.lemma_filter_contains_rev(keep, kept[k]);
            let m = choose|m: int| 0 <= m < old_ws.len() && old_ws[m] == kept[k];
            assert(pids_of(old_ws)[m] == pid);
            assert(pids_of(old_ws).contains(pid));
            assert(!removed@.contains(pid));
        }
    }
    let ghost after_removal = registry.windows_seq();
    admit_arrivals(registry, found, foreground_pid);
    registry.ensure_active();
    let ghost before_promote = registry.windows_seq();
    match foreground_pid {
        Some(fg) => {
            if registry.promote(fg, MAX_PIPS) && auto_order {
                registry.apply_auto_order();
            }
        },
        None => {},
    }
    registry.truncate_pips(MAX_PIPS);
    refresh_handles(registry, found);
    proof {
        assert forall|pid: u32| pids_of(registry.windows_seq()).contains(pid) <==> found_pids(found@).contains(pid) by {
            assert(pids_of(registry.windows_seq()) == pids_of(before_promote));
        }
    }
    MembershipChange { removed, closed_toast }
}

/// After a scan, renumber from the configured identity priority and, when
/// automatic ordering is on, order the PiPs by window number.
pub fn reorder_after_scan(registry: &mut ClientRegistry, auto_order: bool)
    ensures
        pids_of(final(registry).windows_seq()) == pids_of(old(registry).windows_seq()),
        final(registry).active() == old(registry).active(),
        auto_order ==> final(registry).pip_seq() == stable_sort(
            old(registry).pip_seq(),
            pip_number_order(final(registry).windows_seq()),
        ),
        !auto_order ==> final(registry).pip_seq() == old(registry).pip_seq(),
        old(registry).preferred_seq().len() == 0 || old(registry).windows_seq().len() == 0
            ==> final(registry).windows_seq() == old(registry).windows_seq(),
        old(registry).preferred_seq().len() > 0 && old(registry).windows_seq().len() > 0 ==> {
            let keys = old(registry).windows_seq().map_values(|w: EqWindow| key_of(w, old(registry).preferred_seq()));
            final(registry).windows_seq() == assign_numbers(old(registry).windows_seq(), stable_sort(keys, key_order())).0
        },
        final(registry).observed() == old(registry).observed(),
        final(registry).preferred_seq() == old(registry).preferred_seq(),
        old(registry).wf() ==> final(registry).wf(),
        old(registry).partition_valid() ==> final(registry).partition_valid(),
{
    registry.apply_preferred_order();
    if auto_order {
        registry.apply_auto_order();
    }
}

/// The window whose monitor and DPI the overlay follows: the active client's
/// first window, else the first known window.
pub fn reference_window(registry: &ClientRegistry) -> (r: Option<usize>)
    ensures
        r == match registry.active() {
            Some(a) if pids_of(registry.windows_seq()).contains(a) => Some(
                registry.windows_seq()[choose|i: int| first_at(registry.windows_seq(), a, i)].hwnd,
            ),
            _ => if registry.windows_seq().len() > 0 {
                Some(registry.windows_seq()[0].hwnd)
            } else {
                None
            },
        },
{
    let windows = registry.windows();
    match registry.active_pid() {
        Some(a) => match position_of(windows, a) {
            Some(i) => {
                proof {
                    assert(first_at(windows@, a, i as int));
                    assert(pids_of(windows@)[i as int] == a);
                    let c = choose|c: int| first_at(windows@, a, c);
                    lemma_first_at_unique(windows@, a, c, i as int);
                }
                return Some(windows[i].hwnd);
            },
            None => {},
        },
        None => {},
    }
    if windows.len() > 0 {
        Some(windows[0].hwnd)
    } else {
        None
    }
}

/// Whether the presented PiP hosts lag behind the partition: a transition is
/// still running, the hosts show other clients or another order than the
/// PiPs, or some host has no thumbnail yet (thumbnail handle 0).
pub fn presentation_incomplete(transition_pending: bool, hosts: &[(u32, isize)], pips: &[u32]) -> (b: bool)
    ensures
        b == (transition_pending || hosts@.map_values(|h: (u32, isize)| h.0) != pips@ || exists|i: int|
            0 <= i < hosts@.len() && #[trigger] hosts@[i].1 == 0),
{
    if transition_pending {
        return true;
    }
    let ghost presented = hosts@.map_values(|h: (u32, isize)| h.0);
    if hosts.len() != pips.len() {
        assert(presented.len() != pips@.len());
        return true;
    }
    let mut i: usize = 0;
    while i < hosts.len()
        invariant
            hosts@.len() == pips@.len(),
            presented == hosts@.map_values(|h: (u32, isize)| h.0),
            0 <= i <= hosts@.len(),
            forall|k: int| 0 <= k < i ==> (#[trigger] hosts@[k]).0 == pips@[k] && hosts@[k].1 != 0,
        decreases hosts@.len() - i,
    {
        let (pid, thumbnail) = hosts[i];
        assert(pid == hosts@[i as int].0 && thumbnail == hosts@[i as int].1);
        if pid != pips[i] {
            assert(presented[i as int] != pips@[i as int]);
            return true;
        }
        if thumbnail == 0 {
            assert(hosts@[i as int].1 == 0);
            return true;
        }
        assert(hosts@[i as int].0 == pips@[i as int]);
        assert(hosts@[i as int].1 != 0);
        i = i + 1;
    }
    assert(presented =~= pips@);
    assert(!exists|k: int| 0 <= k < hosts@.len() && #[trigger] hosts@[k].1 == 0) by {
        if exists|k: int| 0 <= k < hosts@.len() && #[trigger] hosts@[k].1 == 0 {
            let k = choose|k: int| 0 <= k < hosts@.len() && #[trigger] hosts@[k].1 == 0;
            assert(hosts@[k].1 != 0);
        }
    }
    false
}

} // verus!
