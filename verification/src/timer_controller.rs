//! Which labels show a running timer, how its countdown reads, and which
//! labels to redraw when timers tick or expire.

use vstd::prelude::*;
use vstd::string::StringExecFns;
use crate::log_sources::{pid_source_id, pid_source_view};
use crate::scope::source_view;
use crate::text::{decimal, digit_char, digit_str, push_decimal};
use crate::timers::{TimerOverlay, TimerOverlayState, TimerView, timer_visible};

verus! {

pub const TIMER_ID: usize = 44;
pub const INTERVAL_MS: u32 = 100;

/// Remaining time in tenths of a second, rounded up: a timer reads zero
/// only once it has run out.
pub open spec fn tenths_up(ms: nat) -> nat {
    ((ms + 99) / 100) as nat
}

/// The countdown text, `<seconds>.<tenths>s`.
pub open spec fn spec_format_remaining(ms: nat) -> Seq<char> {
    let t = tenths_up(ms);
    decimal(t / 10) + seq!['.', digit_char((t % 10) as int), 's']
}

pub fn format_remaining(remaining_ms: u64) -> (s: String)
    ensures
        s@ == spec_format_remaining(remaining_ms as nat),
{
    let tenths: u64 = remaining_ms / 100 + if remaining_ms % 100 == 0 { 0 } else { 1 };
    assert(tenths == tenths_up(remaining_ms as nat));
    let mut s = String::new();
    push_decimal(&mut s, tenths / 10);
    proof {
        reveal_strlit(".");
        reveal_strlit("s");
    }
    s.append(".");
    s.append(digit_str(tenths % 10));
    s.append("s");
    proof {
        assert(s@ =~= spec_format_remaining(remaining_ms as nat));
    }
    s
}

/// The timers that a label shows.
pub open spec fn shown_timers(timers: Seq<TimerView>, source: Option<Seq<char>>, is_active: bool, now: u64) -> Seq<
    TimerView,
> {
    timers.filter(|t: TimerView| timer_visible(t, source, is_active, now))
}

/// The active client's label source: `pid:<pid>`, or none without an
/// active client.
pub open spec fn active_source(active_pid: Option<u32>) -> Option<Seq<char>> {
    match active_pid {
        Some(pid) => Some(pid_source_view(pid)),
        None => None,
    }
}

/// The timer on the active client's label: the most urgent one shown there.
pub fn active_timer<'a>(timers: &'a TimerOverlayState, active_pid: Option<u32>, now: u64) -> (r: Option<&'a TimerOverlay>)
    ensures
        ({
            let shown = shown_timers(timers@, active_source(active_pid), true, now);
            match r {
                Some(t) => shown.len() > 0 && t@ == shown[0],
                None => shown.len() == 0,
            }
        }),
{
    match active_pid {
        Some(pid) => {
            let id = pid_source_id(pid);
            timers.visible_for(Some(id.as_str()), true, now)
        },
        None => timers.visible_for(None, true, now),
    }
}

/// A picture-in-picture window: its client and its label window.
#[derive(Clone, Copy, Debug, PartialEq, Eq, Structural)]
pub struct PipLabel {
    pub pid: u32,
    pub label_hwnd: usize,
}

/// The labels that currently show a timer: the active label first, then
/// each picture-in-picture label in order.
pub open spec fn spec_owner_labels(
    timers: Seq<TimerView>,
    active_pid: Option<u32>,
    active_label: usize,
    pips: Seq<PipLabel>,
    now: u64,
) -> Seq<usize>
    decreases pips.len(),
{
    if pips.len() == 0 {
        if shown_timers(timers, active_source(active_pid), true, now).len() > 0 {
            seq![active_label]
        } else {
            Seq::empty()
        }
    } else {
        let rest = spec_owner_labels(timers, active_pid, active_label, pips.drop_last(), now);
        let pip = pips.last();
        if shown_timers(timers, Some(pid_source_view(pip.pid)), false, now).len() > 0 {
            rest.push(pip.label_hwnd)
        } else {
            rest
        }
    }
}

pub fn owner_labels(
    timers: &TimerOverlayState,
    active_pid: Option<u32>,
    active_label: usize,
    pips: &[PipLabel],
    now: u64,
) -> (owners: Vec<usize>)
    ensures
        owners@ == spec_owner_labels(timers@, active_pid, active_label, pips@, now),
{
    let mut owners: Vec<usize> = Vec::new();
    if active_timer(timers, active_pid, now).is_some() {
        owners.push(active_label);
    }
    proof {
        assert(pips@.take(0) =~= Seq::<PipLabel>::empty());
        assert(owners@ =~= spec_owner_labels(timers@, active_pid, active_label, pips@.take(0), now));
    }
    let mut i: usize = 0;
    while i < pips.len()
        invariant
            i <= pips@.len(),
            owners@ == spec_owner_labels(timers@, active_pid, active_label, pips@.take(i as int), now),
        decreases pips@.len() - i,
    {
        let pip = pips[i];
        let id = pid_source_id(pip.pid);
        let shown = timers.visible_for(Some(id.as_str()), false, now).is_some();
        proof {
            assert(pips@.take(i + 1).drop_last() =~= pips@.take(i as int));
            assert(pips@.take(i + 1).last() == pip);
        }
        if shown {
            owners.push(pip.label_hwnd);
        }
        i = i + 1;
    }
    proof {
        assert(pips@.take(pips@.len() as int) =~= pips@);
    }
    owners
}

/// A label window that can be redrawn now: a real window, and not the
/// active label once its timer has expired (the active label redraws on
/// its own).
pub open spec fn redraw_ok(hwnd: usize, expired: bool, active_label: usize) -> bool {
    hwnd != 0 && !(expired && hwnd == active_label)
}

/// The candidates in order, each redrawable window once.
pub open spec fn spec_redraw_targets(candidates: Seq<usize>, expired: bool, active_label: usize) -> Seq<usize>
    decreases candidates.len(),
{
    if candidates.len() == 0 {
        Seq::empty()
    } else {
        let acc = spec_redraw_targets(candidates.drop_last(), expired, active_label);
        let h = candidates.last();
        if redraw_ok(h, expired, active_label) && !acc.contains(h) {
            acc.push(h)
        } else {
            acc
        }
    }
}

/// After expiry every picture-in-picture label redraws, which clears the
/// expired scene wherever it was; otherwise the previous and current owners
/// redraw.
pub open spec fn redraw_candidates(
    expired: bool,
    pip_labels: Seq<usize>,
    previous_owners: Seq<usize>,
    current_owners: Seq<usize>,
) -> Seq<usize> {
    if expired {
        pip_labels
    } else {
        previous_owners + current_owners
    }
}

pub fn redraw_targets(
    expired: bool,
    active_label: usize,
    pip_labels: &[usize],
    previous_owners: &[usize],
    current_owners: &[usize],
) -> (targets: Vec<usize>)
    ensures
        targets@ == spec_redraw_targets(
            redraw_candidates(expired, pip_labels@, previous_owners@, current_owners@),
            expired,
            active_label,
        ),
        targets@.no_duplicates(),
{
    let mut candidates: Vec<usize> = Vec::new();
    if expired {
        let mut i: usize = 0;
        while i < pip_labels.len()
            invariant
                i <= pip_labels@.len(),
                candidates@ == pip_labels@.take(i as int),
            decreases pip_labels@.len() - i,
        {
            candidates.push(pip_labels[i]);
            i = i + 1;
            assert(candidates@ =~= pip_labels@.take(i as int));
        }
        assert(candidates@ =~= pip_labels@);
    } else {
        let mut i: usize = 0;
        while i < previous_owners.len()
            invariant
                i <= previous_owners@.len(),
                candidates@ == previous_owners@.take(i as int),
            decreases previous_owners@.len() - i,
        {
            candidates.push(previous_owners[i]);
            i = i + 1;
            assert(candidates@ =~= previous_owners@.take(i as int));
        }
        let mut j: usize = 0;
        while j < current_owners.len()
            invariant
                j <= current_owners@.len(),
                candidates@ == previous_owners@ + current_owners@.take(j as int),
            decreases current_owners@.len() - j,
        {
            candidates.push(current_owners[j]);
            j = j + 1;
            assert(candidates@ =~= previous_owners@ + current_owners@.take(j as int));
        }
        assert(candidates@ =~= previous_owners@ + current_owners@);
    }
    let ghost all = candidates@;
    let mut targets: Vec<usize> = Vec::new();
    let mut k: usize = 0;
    proof {
        assert(all.take(0) =~= Seq::<usize>::empty());
    }
    while k < candidates.len()
        invariant
            all == candidates@,
            k <= all.len(),
            targets@ == spec_redraw_targets(all.take(k as int), expired, active_label),
            targets@.no_duplicates(),
        decreases all.len() - k,
    {
        let h = candidates[k];
        proof {
            assert(all.take(k + 1).drop_last() =~= all.take(k as int));
            assert(all.take(k + 1).last() == h);
        }
        if h != 0 && !(expired && h == active_label) && !contains_usize(&targets, h) {
            targets.push(h);
        }
        k = k + 1;
    }
    proof {
        assert(all.take(all.len() as int) =~= all);
    }
    targets
}

fn contains_usize(v: &Vec<usize>, x: usize) -> (b: bool)
    ensures
        b == v@.contains(x),
{
    let mut i: usize = 0;
    while i < v.len()
        invariant
            i <= v@.len(),
            forall|j: int| 0 <= j < i ==> v@[j] != x,
        decreases v@.len() - i,
    {
        if v[i] == x {
            return true;
        }
        i = i + 1;
    }
    false
}

} // verus!
