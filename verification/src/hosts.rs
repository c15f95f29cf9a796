//! Reuse of the picture-in-picture host windows when the set or order of
//! clients changes, and the start of a primary window's handoff animation.

use vstd::prelude::*;
use crate::clients::{ClientRegistry, EqWindow};
use crate::geometry::{Rect, Scale, dpi_ok, lemma_pixels_range};
use crate::layout::{PipEdge, screen_ok};

verus! {

pub const THUMB_GAP: i32 = 4;
pub const PRIMARY_HANDOFF_OFFSET: i32 = 18;

/// An existing host window: the client it shows, the source window its
/// thumbnail is bound to, and whether it can be reused at all.
#[derive(Clone, Copy, Debug, PartialEq, Eq, Structural)]
pub struct HostReuseKey {
    pub pid: u32,
    pub source_hwnd: isize,
    pub reusable: bool,
}

/// The first host at or after `k` that is free and reusable (and shows the
/// given source, where one is given).
pub open spec fn first_free_from(existing: Seq<HostReuseKey>, avail: Seq<bool>, key: Option<(u32, isize)>, k: int) -> Option<int>
    decreases existing.len() - k,
{
    if k < 0 || k >= existing.len() {
        None
    } else if host_fits(existing[k], avail[k], key) {
        Some(k)
    } else {
        first_free_from(existing, avail, key, k + 1)
    }
}

pub open spec fn first_free(existing: Seq<HostReuseKey>, avail: Seq<bool>, key: Option<(u32, isize)>) -> Option<int> {
    first_free_from(existing, avail, key, 0)
}

/// A free reusable host, showing the given source where one is given.
pub open spec fn host_fits(host: HostReuseKey, free: bool, key: Option<(u32, isize)>) -> bool {
    &&& free
    &&& host.reusable
    &&& match key {
        Some((pid, hwnd)) => host.pid == pid && host.source_hwnd == hwnd,
        None => true,
    }
}

/// Free hosts and assignments after the first pass over the first `n`
/// desired windows: each keeps the first free host already showing its
/// exact source.
pub open spec fn keep_pass(desired: Seq<(u32, isize)>, existing: Seq<HostReuseKey>, n: int) -> (Seq<bool>, Seq<Option<usize>>)
    decreases n,
{
    if n <= 0 {
        (Seq::new(existing.len(), |i: int| true), Seq::new(desired.len(), |i: int| None::<usize>))
    } else {
        let (avail, assign) = keep_pass(desired, existing, n - 1);
        match first_free(existing, avail, Some(desired[n - 1])) {
            Some(i) => (avail.update(i, false), assign.update(n - 1, Some(i as usize))),
            None => (avail, assign),
        }
    }
}

/// After the second pass over the first `n` desired windows: each window
/// still without a host takes the host in its own slot if that one is free
/// and reusable, else the first free reusable host.
pub open spec fn fill_pass(desired: Seq<(u32, isize)>, existing: Seq<HostReuseKey>, n: int) -> (Seq<bool>, Seq<Option<usize>>)
    decreases n,
{
    if n <= 0 {
        keep_pass(desired, existing, desired.len() as int)
    } else {
        let (avail, assign) = fill_pass(desired, existing, n - 1);
        let t = n - 1;
        if assign[t] is Some {
            (avail, assign)
        } else {
            let pick = if t < existing.len() && avail[t] && existing[t].reusable {
                Some(t)
            } else {
                first_free(existing, avail, None)
            };
            match pick {
                Some(i) => (avail.update(i, false), assign.update(t, Some(i as usize))),
                None => (avail, assign),
            }
        }
    }
}

/// Which existing host each desired window reuses.
pub open spec fn spec_host_reuse(desired: Seq<(u32, isize)>, existing: Seq<HostReuseKey>) -> Seq<Option<usize>> {
    fill_pass(desired, existing, desired.len() as int).1
}

fn find_free(existing: &[HostReuseKey], avail: &Vec<bool>, key: Option<(u32, isize)>) -> (r: Option<usize>)
    requires
        avail@.len() == existing@.len(),
    ensures
        r matches Some(i) ==> first_free(existing@, avail@, key) == Some(i as int) && i < existing@.len(),
        r is None ==> first_free(existing@, avail@, key) is None,
{
    let mut i: usize = 0;
    while i < existing.len()
        invariant
            avail@.len() == existing@.len(),
            i <= existing@.len(),
            first_free(existing@, avail@, key) == first_free_from(existing@, avail@, key, i as int),
        decreases existing@.len() - i,
    {
        let host = existing[i];
        let fits = avail[i] && host.reusable && match key {
            Some((pid, hwnd)) => host.pid == pid && host.source_hwnd == hwnd,
            None => true,
        };
        if fits {
            return Some(i);
        }
        i = i + 1;
    }
    None
}

/// Plan which existing host each desired window reuses: first every window
/// keeps a host that already shows its exact source, then the others take
/// their own slot's host or any spare one. Unusable hosts are never reused
/// and no host is given twice.
pub fn plan_host_reuse(desired: &[(u32, isize)], existing: &[HostReuseKey]) -> (r: Vec<Option<usize>>)
    ensures
        r@ == spec_host_reuse(desired@, existing@),
{
    let mut avail: Vec<bool> = Vec::new();
    let mut k: usize = 0;
    while k < existing.len()
        invariant
            k <= existing@.len(),
            avail@ == Seq::new(k as nat, |i: int| true),
        decreases existing@.len() - k,
    {
        avail.push(true);
        k = k + 1;
        assert(avail@ =~= Seq::new(k as nat, |i: int| true));
    }
    let mut assign: Vec<Option<usize>> = Vec::new();
    let mut k: usize = 0;
    while k < desired.len()
        invariant
            k <= desired@.len(),
            assign@ == Seq::new(k as nat, |i: int| None::<usize>),
        decreases desired@.len() - k,
    {
        assign.push(None);
        k = k + 1;
        assert(assign@ =~= Seq::new(k as nat, |i: int| None::<usize>));
    }
    let mut t: usize = 0;
    while t < desired.len()
        invariant
            t <= desired@.len(),
            (avail@, assign@) == keep_pass(desired@, existing@, t as int),
            avail@.len() == existing@.len(),
            assign@.len() == desired@.len(),
        decreases desired@.len() - t,
    {
        let key = desired[t];
        proof {
            lemma_first_free(existing@, avail@, Some(key));
        }
        match find_free(existing, &avail, Some(key)) {
            Some(i) => {
                avail.set(i, false);
                assign.set(t, Some(i));
            },
            None => {},
        }
        t = t + 1;
    }
    let mut t: usize = 0;
    while t < desired.len()
        invariant
            t <= desired@.len(),
            (avail@, assign@) == fill_pass(desired@, existing@, t as int),
            avail@.len() == existing@.len(),
            assign@.len() == desired@.len(),
        decreases desired@.len() - t,
    {
        if assign[t].is_none() {
            let pick = if t < existing.len() && avail[t] && existing[t].reusable {
                Some(t)
            } else {
                find_free(existing, &avail, None)
            };
            match pick {
                Some(i) => {
                    avail.set(i, false);
                    assign.set(t, Some(i));
                },
                None => {},
            }
        }
        t = t + 1;
    }
    assign
}

/// The assignment invariant: every assigned host exists, is reusable, is no
/// longer free, and serves one window only.
pub open spec fn assignment_ok(existing: Seq<HostReuseKey>, avail: Seq<bool>, assign: Seq<Option<usize>>) -> bool {
    &&& avail.len() == existing.len()
    &&& forall|t: int| 0 <= t < assign.len() && #[trigger] assign[t] is Some ==> {
        let i = assign[t]->0 as int;
        0 <= i < existing.len() && existing[i].reusable && !avail[i]
    }
    &&& forall|t1: int, t2: int|
        0 <= t1 < assign.len() && 0 <= t2 < assign.len() && t1 != t2 && #[trigger] assign[t1] is Some
            && #[trigger] assign[t2] is Some ==> assign[t1] != assign[t2]
}

proof fn lemma_first_free_from(existing: Seq<HostReuseKey>, avail: Seq<bool>, key: Option<(u32, isize)>, k: int)
    requires
        avail.len() == existing.len(),
    ensures
        first_free_from(existing, avail, key, k) matches Some(i) ==> k <= i < existing.len() && host_fits(existing[i], avail[i], key),
    decreases existing.len() - k,
{
    if 0 <= k < existing.len() && !host_fits(existing[k], avail[k], key) {
        lemma_first_free_from(existing, avail, key, k + 1);
    }
}

proof fn lemma_first_free(existing: Seq<HostReuseKey>, avail: Seq<bool>, key: Option<(u32, isize)>)
    requires
        avail.len() == existing.len(),
    ensures
        first_free(existing, avail, key) matches Some(i) ==> 0 <= i < existing.len() && host_fits(existing[i], avail[i], key),
{
    lemma_first_free_from(existing, avail, key, 0);
}

/// Taking a free reusable host keeps the assignment invariant.
proof fn lemma_take_host(existing: Seq<HostReuseKey>, avail: Seq<bool>, assign: Seq<Option<usize>>, t: int, i: int)
    requires
        existing.len() <= usize::MAX,
        assignment_ok(existing, avail, assign),
        0 <= t < assign.len(),
        assign[t] is None,
        0 <= i < existing.len(),
        avail[i],
        existing[i].reusable,
    ensures
        assignment_ok(existing, avail.update(i, false), assign.update(t, Some(i as usize))),
{
    let av = avail.update(i, false);
    let asg = assign.update(t, Some(i as usize));
    assert forall|u: int| 0 <= u < asg.len() && #[trigger] asg[u] is Some implies {
        let h = asg[u]->0 as int;
        0 <= h < existing.len() && existing[h].reusable && !av[h]
    } by {
        if u != t {
            assert(asg[u] == assign[u]);
        }
    }
    assert forall|t1: int, t2: int|
        0 <= t1 < asg.len() && 0 <= t2 < asg.len() && t1 != t2 && #[trigger] asg[t1] is Some && #[trigger] asg[t2]
            is Some implies asg[t1] != asg[t2] by {
        if t1 != t && t2 != t {
            assert(asg[t1] == assign[t1] && asg[t2] == assign[t2]);
        } else if t1 == t {
            assert(asg[t2] == assign[t2]);
            assert(!avail[assign[t2]->0 as int]);
        } else {
            assert(asg[t1] == assign[t1]);
            assert(!avail[assign[t1]->0 as int]);
        }
    }
}

proof fn lemma_keep_pass_ok(desired: Seq<(u32, isize)>, existing: Seq<HostReuseKey>, n: int)
    requires
        n <= desired.len(),
        existing.len() <= usize::MAX,
    ensures
        assignment_ok(existing, keep_pass(desired, existing, n).0, keep_pass(desired, existing, n).1),
        keep_pass(desired, existing, n).1.len() == desired.len(),
        forall|t: int| n <= t < desired.len() && 0 <= t ==> #[trigger] keep_pass(desired, existing, n).1[t] is None,
        forall|t: int| 0 <= t < n && #[trigger] keep_pass(desired, existing, n).1[t] is Some ==> {
            let i = keep_pass(desired, existing, n).1[t]->0 as int;
            existing[i].pid == desired[t].0 && existing[i].source_hwnd == desired[t].1
        },
    decreases n,
{
    if n > 0 {
        lemma_keep_pass_ok(desired, existing, n - 1);
        let (avail, assign) = keep_pass(desired, existing, n - 1);
        lemma_first_free(existing, avail, Some(desired[n - 1]));
        if let Some(i) = first_free(existing, avail, Some(desired[n - 1])) {
            lemma_take_host(existing, avail, assign, n - 1, i);
        }
    }
}

proof fn lemma_fill_pass_ok(desired: Seq<(u32, isize)>, existing: Seq<HostReuseKey>, n: int)
    requires
        n <= desired.len(),
        existing.len() <= usize::MAX,
    ensures
        assignment_ok(existing, fill_pass(desired, existing, n).0, fill_pass(desired, existing, n).1),
        fill_pass(desired, existing, n).1.len() == desired.len(),
        forall|t: int| 0 <= t < desired.len() && #[trigger] keep_pass(desired, existing, desired.len() as int).1[t] is Some
            ==> fill_pass(desired, existing, n).1[t] == keep_pass(desired, existing, desired.len() as int).1[t],
    decreases n,
{
    if n <= 0 {
        lemma_keep_pass_ok(desired, existing, desired.len() as int);
    } else {
        lemma_fill_pass_ok(desired, existing, n - 1);
        let (avail, assign) = fill_pass(desired, existing, n - 1);
        let t = n - 1;
        if assign[t] is None {
            lemma_first_free(existing, avail, None);
            let pick = if t < existing.len() && avail[t] && existing[t].reusable {
                Some(t)
            } else {
                first_free(existing, avail, None)
            };
            if let Some(i) = pick {
                lemma_take_host(existing, avail, assign, t, i);
            }
        }
    }
}

/// Host reuse never hands out an unusable or missing host, never gives one
/// host to two windows, and keeps every window on a host that already
/// showed its exact source whenever the first pass found one.
pub proof fn law_host_reuse_is_a_matching(desired: Seq<(u32, isize)>, existing: Seq<HostReuseKey>)
    requires
        existing.len() <= usize::MAX,
    ensures
        spec_host_reuse(desired, existing).len() == desired.len(),
        forall|t: int| 0 <= t < desired.len() && #[trigger] spec_host_reuse(desired, existing)[t] is Some ==> {
            let i = spec_host_reuse(desired, existing)[t]->0 as int;
            0 <= i < existing.len() && existing[i].reusable
        },
        forall|t1: int, t2: int|
            0 <= t1 < desired.len() && 0 <= t2 < desired.len() && t1 != t2 && #[trigger] spec_host_reuse(
                desired,
                existing,
            )[t1] is Some && #[trigger] spec_host_reuse(desired, existing)[t2] is Some ==> spec_host_reuse(
                desired,
                existing,
            )[t1] != spec_host_reuse(desired, existing)[t2],
        forall|t: int| 0 <= t < desired.len() && #[trigger] keep_pass(desired, existing, desired.len() as int).1[t] is Some
            ==> {
            let i = spec_host_reuse(desired, existing)[t]->0 as int;
            spec_host_reuse(desired, existing)[t] is Some && existing[i].pid == desired[t].0 && existing[i].source_hwnd
                == desired[t].1
        },
{
    lemma_fill_pass_ok(desired, existing, desired.len() as int);
    lemma_keep_pass_ok(desired, existing, desired.len() as int);
}

/// The size of a rectangle.
pub fn rect_size(r: Rect) -> (s: (i32, i32))
    requires
        i32::MIN <= r.spec_width() <= i32::MAX,
        i32::MIN <= r.spec_height() <= i32::MAX,
    ensures
        s.0 == r.spec_width(),
        s.1 == r.spec_height(),
{
    (r.right - r.left, r.bottom - r.top)
}

/// Whether a window moved (its size may have changed either way).
pub fn rect_position_changed(first: Rect, second: Rect) -> (b: bool)
    ensures
        b == (first.left != second.left || first.top != second.top),
{
    first.left != second.left || first.top != second.top
}

/// The start of a primary window's handoff: `distance` pixels outside the
/// strip's monitor edge.
pub open spec fn handoff_delta(edge: PipEdge, distance: int) -> (int, int) {
    match edge {
        PipEdge::Right => (distance, 0),
        PipEdge::Left => (-distance, 0),
        PipEdge::Top => (0, -distance),
        PipEdge::Bottom => (0, distance),
    }
}

pub fn offset_primary_handoff(r: Rect, edge: PipEdge, distance: i32) -> (o: Rect)
    requires
        r.in_range(),
        -0x1000_0000 <= distance <= 0x1000_0000,
    ensures
        o.left == r.left + handoff_delta(edge, distance as int).0,
        o.right == r.right + handoff_delta(edge, distance as int).0,
        o.top == r.top + handoff_delta(edge, distance as int).1,
        o.bottom == r.bottom + handoff_delta(edge, distance as int).1,
{
    let (dx, dy) = match edge {
        PipEdge::Right => (distance, 0),
        PipEdge::Left => (-distance, 0),
        PipEdge::Top => (0, -distance),
        PipEdge::Bottom => (0, distance),
    };
    r.offset(dx, dy)
}


/// Where an assigned host starts moving from, or `None` when it is placed at
/// its target at once. A host animates (when animations run) only from a
/// rectangle of the target's size, and only when it moved or its thumbnail
/// changed source; a source change in place starts just outside the strip's
/// edge.
pub open spec fn spec_motion_start(
    animate: bool,
    old_rect: Option<Rect>,
    target: Rect,
    source_handoff: bool,
    edge: PipEdge,
    handoff_offset: int,
) -> Option<Rect> {
    match old_rect {
        Some(r) => if animate && r.spec_width() == target.spec_width() && r.spec_height() == target.spec_height() && (
        source_handoff || r.left != target.left || r.top != target.top) {
            if source_handoff && r.left == target.left && r.top == target.top {
                let d = handoff_delta(edge, handoff_offset);
                Some(
                    Rect {
                        left: (target.left + d.0) as i32,
                        top: (target.top + d.1) as i32,
                        right: (target.right + d.0) as i32,
                        bottom: (target.bottom + d.1) as i32,
                    },
                )
            } else {
                Some(r)
            }
        } else {
            None
        },
        None => None,
    }
}

pub fn motion_start(
    animate: bool,
    old_rect: Option<Rect>,
    target: Rect,
    source_handoff: bool,
    edge: PipEdge,
    handoff_offset: i32,
) -> (r: Option<Rect>)
    requires
        target.in_range(),
        old_rect matches Some(o) ==> o.in_range(),
        -0x1000_0000 <= handoff_offset <= 0x1000_0000,
    ensures
        r == spec_motion_start(animate, old_rect, target, source_handoff, edge, handoff_offset as int),
{
    let old = match old_rect {
        Some(o) => o,
        None => return None,
    };
    if !animate {
        return None;
    }
    let same_size = (old.right as i64 - old.left as i64) == (target.right as i64 - target.left as i64) && (
    old.bottom as i64 - old.top as i64) == (target.bottom as i64 - target.top as i64);
    let moved = rect_position_changed(old, target);
    if !(same_size && (source_handoff || moved)) {
        return None;
    }
    if source_handoff && !moved {
        Some(offset_primary_handoff(target, edge, handoff_offset))
    } else {
        Some(old)
    }
}

/// The hosts that no window is assigned to: they are retired.
pub fn unassigned_hosts(assignments: &[Option<usize>], host_count: usize) -> (r: Vec<usize>)
    ensures
        forall|i: int| 0 <= i < r@.len() ==> r@[i] < host_count,
        forall|h: usize| h < host_count ==> (#[trigger] r@.contains(h) <==> !assignments@.contains(Some(h))),
        forall|a: int, b: int| 0 <= a < b < r@.len() ==> r@[a] < r@[b],
{
    let mut out: Vec<usize> = Vec::new();
    let mut h: usize = 0;
    while h < host_count
        invariant
            0 <= h <= host_count,
            forall|i: int| 0 <= i < out@.len() ==> out@[i] < h,
            forall|k: usize| k < h ==> (#[trigger] out@.contains(k) <==> !assignments@.contains(Some(k))),
            forall|a: int, b: int| 0 <= a < b < out@.len() ==> out@[a] < out@[b],
        decreases host_count - h,
    {
        let mut used = false;
        let mut t: usize = 0;
        while t < assignments.len()
            invariant
                0 <= t <= assignments@.len(),
                used == exists|j: int| 0 <= j < t && assignments@[j] == Some(h),
            decreases assignments@.len() - t,
        {
            if assignments[t] == Some(h) {
                used = true;
            }
            t = t + 1;
        }
        assert(used == assignments@.contains(Some(h))) by {
            if assignments@.contains(Some(h)) {
                let j = choose|j: int| 0 <= j < assignments@.len() && assignments@[j] == Some(h);
            }
        }
        let ghost before = out@;
        if !used {
            out.push(h);
        }
        proof {
            assert forall|k: usize| k < h + 1 implies (#[trigger] out@.contains(k) <==> !assignments@.contains(
                Some(k),
            )) by {
                if out@.contains(k) {
                    let i = choose|i: int| 0 <= i < out@.len() && out@[i] == k;
                    if i < before.len() {
                        assert(before[i] == k);
                        assert(before.contains(k));
                    }
                }
                if k < h && before.contains(k) {
                    let i = choose|i: int| 0 <= i < before.len() && before[i] == k;
                    assert(out@[i] == k);
                }
                if k == h && !used {
                    assert(out@[out@.len() - 1] == h);
                }
            }
        }
        h = h + 1;
    }
    out
}


/// Window `i` is the first live window of `pid`.
pub open spec fn first_live(ws: Seq<EqWindow>, live: Seq<bool>, pid: u32, i: int) -> bool {
    &&& 0 <= i < ws.len()
    &&& ws[i].pid == pid && live[i]
    &&& forall|k: int| 0 <= k < i ==> !(ws[k].pid == pid && live[k])
}

/// The PiPs to show, slot by slot (as far as there are slots): each PiP
/// client's first live window with its slot's rectangle; a client without a
/// live window is left out.
pub open spec fn desired_upto(ws: Seq<EqWindow>, live: Seq<bool>, pips: Seq<u32>, rects: Seq<Rect>, n: int) -> Seq<(usize, Rect)>
    decreases n,
{
    if n <= 0 {
        Seq::empty()
    } else {
        let prior = desired_upto(ws, live, pips, rects, n - 1);
        if exists|i: int| #[trigger] first_live(ws, live, pips[n - 1], i) {
            let i = choose|i: int| #[trigger] first_live(ws, live, pips[n - 1], i);
            prior.push((i as usize, rects[n - 1]))
        } else {
            prior
        }
    }
}

pub fn desired_pips(registry: &ClientRegistry, rects: &[Rect], live: &[bool]) -> (r: Vec<(usize, Rect)>)
    requires
        live@.len() == registry.windows_seq().len(),
    ensures
        r@ == desired_upto(
            registry.windows_seq(),
            live@,
            registry.pip_seq(),
            rects@,
            if registry.pip_seq().len() < rects@.len() { registry.pip_seq().len() as int } else { rects@.len() as int },
        ),
{
    let windows = registry.windows();
    let pips = registry.pips();
    let n = if pips.len() < rects.len() { pips.len() } else { rects.len() };
    let mut out: Vec<(usize, Rect)> = Vec::new();
    let mut k: usize = 0;
    while k < n
        invariant
            windows@ == registry.windows_seq(),
            pips@ == registry.pip_seq(),
            live@.len() == windows@.len(),
            n <= pips@.len() && n <= rects@.len(),
            0 <= k <= n,
            out@ == desired_upto(windows@, live@, pips@, rects@, k as int),
        decreases n - k,
    {
        let pid = pips[k];
        let mut i: usize = 0;
        while i < windows.len()
            invariant
                live@.len() == windows@.len(),
                0 <= i <= windows@.len(),
                forall|j: int| 0 <= j < i ==> !((#[trigger] windows@[j]).pid == pid && live@[j]),
            ensures
                i <= windows@.len(),
                i < windows@.len() ==> windows@[i as int].pid == pid && live@[i as int],
                forall|j: int| 0 <= j < i ==> !((#[trigger] windows@[j]).pid == pid && live@[j]),
            decreases windows@.len() - i,
        {
            if windows[i].pid == pid && live[i] {
                break;
            }
            i = i + 1;
        }
        if i < windows.len() {
            proof {
                assert(first_live(windows@, live@, pid, i as int));
                let c = choose|c: int| first_live(windows@, live@, pid, c);
                if c < i {
                    assert(!(windows@[c].pid == pid && live@[c]));
                }
                if i < c {
                    assert(!(windows@[i as int].pid == pid && live@[i as int]));
                }
            }
            out.push((i, rects[k]));
        } else {
            proof {
                assert(!exists|c: int| first_live(windows@, live@, pid, c));
            }
        }
        k = k + 1;
    }
    out
}

/// Where the active client's label goes across: at the client area's left,
/// or, with the strip on the left edge, ending at its right.
pub fn active_label_x(edge: PipEdge, client_left: i32, client_right: i32, text_width: i32) -> (x: i32)
    requires
        screen_ok(client_left as int),
        screen_ok(client_right as int),
        0 <= text_width <= 0x100_0000,
    ensures
        x == (if edge == PipEdge::Left { client_right - text_width } else { client_left as int }),
{
    if edge == PipEdge::Left {
        client_right - text_width
    } else {
        client_left
    }
}

/// Where the input indicator goes across: 4 logical pixels beside the active
/// label, on its right, or on its left when the strip is on the left edge.
pub fn banner_x(edge: PipEdge, label_x: i32, text_width: i32, banner_width: i32, scale: Scale) -> (x: i32)
    requires
        -0x200_0000 <= label_x <= 0x200_0000,
        0 <= text_width <= 0x100_0000,
        0 <= banner_width <= 0x100_0000,
        dpi_ok(scale.dpi as int),
    ensures
        x == (if edge == PipEdge::Left {
            label_x - banner_width - scale.spec_pixels(4)
        } else {
            label_x + text_width + scale.spec_pixels(4)
        }),
{
    proof {
        lemma_pixels_range(scale, 4);
    }
    let gap = scale.pixels(4);
    if edge == PipEdge::Left {
        label_x - banner_width - gap
    } else {
        label_x + text_width + gap
    }
}


/// Where a host's thumbnail is drawn: inside the host's border.
pub fn thumbnail_destination(width: i32, height: i32, border: i32) -> (r: Rect)
    requires
        0 <= width <= 0x100_0000,
        0 <= height <= 0x100_0000,
        0 <= border <= 0x100_0000,
    ensures
        r == (Rect { left: border, top: border, right: (width - border) as i32, bottom: (height - border) as i32 }),
{
    Rect { left: border, top: border, right: width - border, bottom: height - border }
}

} // verus!
