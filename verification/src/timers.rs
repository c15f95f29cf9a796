//! Multi-entry trigger-timer overlay model.
//!
//! Timers are owned by the log worker's trigger engine; the worker publishes
//! immutable [`TimerFrame`] snapshots and this model turns them into what
//! each client label should display: deterministic ordering (soonest end
//! first, then label, then source), replacement on refresh, expiry between
//! frames, and per-client scope derived from each trigger's presentation
//! target.
//!
//! Time is supplied by the owner thread as milliseconds on one monotonic
//! clock, so the model stays deterministic; remaining time and progress
//! derive from stored instants.

use vstd::prelude::*;
use vstd::relations::{sorted_by, strongly_connected, transitive};
use crate::geometry::Progress;
use crate::scope::{PresentationTarget, shown_on, source_view, visible_on};
use crate::sorting::{
    insert_sorted, lemma_insert_sorted_at, lemma_stable_sort, stable_sort, total_preorder,
};
use crate::text::{compare_str, lemma_lex_order_range, lemma_lex_order_transitive, lex_order};

verus! {

/// One running timer as published by the trigger engine. Times are
/// milliseconds after the frame's origin.
pub struct TimerSnapshot {
    /// Log-source key of the character that started the timer.
    pub character: String,
    pub display_name: String,
    pub begin_ms: u64,
    pub end_ms: u64,
    pub duration_ms: u64,
    pub target: PresentationTarget,
    pub warned: bool,
}

/// An immutable set of running timers, relative to `origin_ms` on the owner's
/// monotonic clock.
pub struct TimerFrame {
    pub origin_ms: u64,
    pub snapshots: Vec<TimerSnapshot>,
}

impl TimerFrame {
    /// Every snapshot instant is representable on the clock.
    pub open spec fn fits(self) -> bool {
        forall|i: int|
            0 <= i < self.snapshots@.len() ==> {
                &&& self.origin_ms + (#[trigger] self.snapshots@[i]).begin_ms <= u64::MAX
                &&& self.origin_ms + self.snapshots@[i].end_ms <= u64::MAX
            }
    }

    /// The clock instant `ms` milliseconds after the origin.
    pub fn instant(&self, ms: u64) -> (t: u64)
        requires
            self.origin_ms + ms <= u64::MAX,
        ensures
            t == self.origin_ms + ms,
    {
        self.origin_ms + ms
    }
}

/// A timer as a label displays it. Instants are milliseconds on the owner's
/// monotonic clock.
#[derive(Debug)]
pub struct TimerOverlay {
    /// Log-source key of the character that started the timer.
    pub source_id: String,
    pub label: String,
    pub start_time: u64,
    pub end_time: u64,
    pub duration: u64,
    pub target: PresentationTarget,
    pub warned: bool,
}

/// The mathematical value of a [`TimerOverlay`].
pub struct TimerView {
    pub source_id: Seq<char>,
    pub label: Seq<char>,
    pub start_time: u64,
    pub end_time: u64,
    pub duration: u64,
    pub target: PresentationTarget,
    pub warned: bool,
}

impl View for TimerOverlay {
    type V = TimerView;

    open spec fn view(&self) -> TimerView {
        TimerView {
            source_id: self.source_id@,
            label: self.label@,
            start_time: self.start_time,
            end_time: self.end_time,
            duration: self.duration,
            target: self.target,
            warned: self.warned,
        }
    }
}

impl Clone for TimerOverlay {
    fn clone(&self) -> (r: Self)
        ensures
            r == *self,
    {
        TimerOverlay {
            source_id: self.source_id.clone(),
            label: self.label.clone(),
            start_time: self.start_time,
            end_time: self.end_time,
            duration: self.duration,
            target: self.target,
            warned: self.warned,
        }
    }
}

/// The timer a frame's snapshot becomes.
pub open spec fn timer_of(origin_ms: u64, s: TimerSnapshot) -> TimerView {
    TimerView {
        source_id: s.character@,
        label: s.display_name@,
        start_time: (origin_ms + s.begin_ms) as u64,
        end_time: (origin_ms + s.end_ms) as u64,
        duration: s.duration_ms,
        target: s.target,
        warned: s.warned,
    }
}

/// The frame's timers in publication order.
pub open spec fn frame_timers(frame: TimerFrame) -> Seq<TimerView> {
    frame.snapshots@.map_values(|s: TimerSnapshot| timer_of(frame.origin_ms, s))
}

/// Display order: soonest end first, then label, then source.
pub open spec fn timer_le(a: TimerView, b: TimerView) -> bool {
    ||| a.end_time < b.end_time
    ||| a.end_time == b.end_time && lex_order(a.label, b.label) < 0
    ||| a.end_time == b.end_time && a.label == b.label && lex_order(a.source_id, b.source_id) <= 0
}

pub open spec fn timer_order() -> spec_fn(TimerView, TimerView) -> bool {
    |a: TimerView, b: TimerView| timer_le(a, b)
}

/// Whether a timer shows on a label at `now`.
pub open spec fn timer_visible(t: TimerView, source: Option<Seq<char>>, is_active: bool, now: u64) -> bool {
    now < t.end_time && shown_on(t.target, t.source_id, source, is_active)
}

pub proof fn lemma_timer_order_total()
    ensures
        total_preorder(timer_order()),
{
    let le = timer_order();
    assert forall|x: TimerView, y: TimerView, z: TimerView|
        #[trigger] le(x, y) && #[trigger] le(y, z) implies le(x, z) by {
        lemma_lex_order_range(x.label, y.label);
        lemma_lex_order_range(y.label, z.label);
        lemma_lex_order_range(x.label, z.label);
        if x.end_time == y.end_time && y.end_time == z.end_time {
            if lex_order(x.label, y.label) <= 0 && lex_order(y.label, z.label) <= 0 {
                lemma_lex_order_transitive(x.label, y.label, z.label);
            }
            if x.label == y.label && y.label == z.label {
                lemma_lex_order_range(x.source_id, y.source_id);
                lemma_lex_order_range(y.source_id, z.source_id);
                lemma_lex_order_transitive(x.source_id, y.source_id, z.source_id);
            }
        }
    }
    assert forall|x: TimerView, y: TimerView| #[trigger] le(x, y) || #[trigger] le(y, x) by {
        lemma_lex_order_range(x.label, y.label);
        lemma_lex_order_range(x.source_id, y.source_id);
    }
    assert(transitive(le));
    assert(strongly_connected(le));
}

/// A refreshed model is exactly the frame's timers, each once, in display
/// order: soonest end first, then label, then source.
pub proof fn law_frame_order(frame: TimerFrame)
    ensures
        sorted_by(stable_sort(frame_timers(frame), timer_order()), timer_order()),
        stable_sort(frame_timers(frame), timer_order()).to_multiset() =~= frame_timers(
            frame,
        ).to_multiset(),
{
    lemma_timer_order_total();
    lemma_stable_sort(frame_timers(frame), timer_order());
}

impl TimerOverlay {
    /// Milliseconds left until the timer ends (zero once ended).
    pub fn remaining_time(&self, now: u64) -> (r: u64)
        ensures
            r == (if self.end_time >= now { self.end_time - now } else { 0 }),
    {
        if self.end_time >= now {
            self.end_time - now
        } else {
            0
        }
    }

    /// Elapsed progress from 0 at start to 1 at expiry (complete when the
    /// duration is zero).
    pub fn progress(&self, now: u64) -> (p: Progress)
        ensures
            p.elapsed == (if now >= self.start_time { now - self.start_time } else { 0 }),
            p.total == self.duration,
    {
        let elapsed: u64 = if now >= self.start_time { now - self.start_time } else { 0 };
        Progress { elapsed: elapsed as i128, total: self.duration as i128 }
    }

    pub fn is_expired(&self, now: u64) -> (b: bool)
        ensures
            b == (now >= self.end_time),
    {
        now >= self.end_time
    }

    /// Whether this timer shows on a label for `source_id`; `is_active` marks
    /// the focused client's label.
    pub fn visible_on(&self, source_id: Option<&str>, is_active: bool) -> (b: bool)
        ensures
            b == shown_on(self.target, self.source_id@, source_view(source_id), is_active),
    {
        visible_on(self.target, &self.source_id, source_id, is_active)
    }
}

fn timer_le_exec(a: &TimerOverlay, b: &TimerOverlay) -> (r: bool)
    ensures
        r == timer_le(a@, b@),
{
    if a.end_time != b.end_time {
        return a.end_time < b.end_time;
    }
    let by_label = compare_str(a.label.as_str(), b.label.as_str());
    proof {
        lemma_lex_order_range(a.label@, b.label@);
    }
    if by_label != 0 {
        return by_label < 0;
    }
    compare_str(a.source_id.as_str(), b.source_id.as_str()) <= 0
}

fn timer_eq(a: &TimerOverlay, b: &TimerOverlay) -> (r: bool)
    ensures
        r == (a@ == b@),
{
    a.start_time == b.start_time && a.end_time == b.end_time && a.duration == b.duration
        && a.target == b.target && a.warned == b.warned && a.label == b.label && a.source_id
        == b.source_id
}

/// The label-facing model of every running timer.
#[derive(Debug, Default)]
pub struct TimerOverlayState {
    timers: Vec<TimerOverlay>,
}

pub open spec fn views(v: Seq<TimerOverlay>) -> Seq<TimerView> {
    v.map_values(|t: TimerOverlay| t@)
}

impl View for TimerOverlayState {
    type V = Seq<TimerView>;

    closed spec fn view(&self) -> Seq<TimerView> {
        views(self.timers@)
    }
}

impl TimerOverlayState {
    pub fn new() -> (s: TimerOverlayState)
        ensures
            s@ == Seq::<TimerView>::empty(),
    {
        let s = TimerOverlayState { timers: Vec::new() };
        assert(s@ =~= Seq::<TimerView>::empty());
        s
    }

    /// Replace the model from a worker-published frame. Returns true when
    /// the model changed.
    pub fn replace_frame(&mut self, frame: &TimerFrame) -> (changed: bool)
        requires
            frame.fits(),
        ensures
            final(self)@ == stable_sort(frame_timers(*frame), timer_order()),
            changed == (old(self)@ != stable_sort(frame_timers(*frame), timer_order())),
    {
        let ghost le = timer_order();
        let ghost all = frame_timers(*frame);
        let mut sorted: Vec<TimerOverlay> = Vec::new();
        let n = frame.snapshots.len();
        let mut i: usize = 0;
        proof {
            assert(all.take(0) =~= Seq::<TimerView>::empty());
            assert(views(sorted@) =~= Seq::<TimerView>::empty());
        }
        while i < n
            invariant
                n == frame.snapshots@.len(),
                all == frame_timers(*frame),
                le == timer_order(),
                frame.fits(),
                i <= n,
                views(sorted@) == stable_sort(all.take(i as int), le),
            decreases n - i,
        {
            let s = &frame.snapshots[i];
            assert(frame.origin_ms + frame.snapshots@[i as int].begin_ms <= u64::MAX);
            let t = TimerOverlay {
                source_id: s.character.clone(),
                label: s.display_name.clone(),
                start_time: frame.instant(s.begin_ms),
                end_time: frame.instant(s.end_ms),
                duration: s.duration_ms,
                target: s.target,
                warned: s.warned,
            };
            assert(t@ == all[i as int]);
            let ghost before = views(sorted@);
            let mut j = sorted.len();
            while j > 0 && !timer_le_exec(&sorted[j - 1], &t)
                invariant
                    j <= sorted@.len(),
                    before == views(sorted@),
                    le == timer_order(),
                    forall|k: int| j <= k < before.len() ==> !le(#[trigger] before[k], t@),
                decreases j,
            {
                j = j - 1;
            }
            proof {
                lemma_insert_sorted_at(before, t@, le, j as int);
            }
            sorted.insert(j, t);
            proof {
                assert(views(sorted@) =~= before.insert(j as int, all[i as int]));
                assert(all.take(i + 1).drop_last() =~= all.take(i as int));
                assert(all.take(i + 1).last() == all[i as int]);
            }
            i = i + 1;
        }
        proof {
            assert(all.take(n as int) =~= all);
        }
        let m = sorted.len();
        let mut same = m == self.timers.len();
        let mut k: usize = 0;
        while same && k < m
            invariant
                m == sorted@.len(),
                same ==> m == self.timers@.len(),
                k <= m,
                same ==> forall|q: int| 0 <= q < k ==> sorted@[q]@ == #[trigger] self.timers@[q]@,
                !same ==> views(sorted@) != views(self.timers@),
            decreases m - k,
        {
            if !timer_eq(&sorted[k], &self.timers[k]) {
                same = false;
                assert(views(sorted@)[k as int] != views(self.timers@)[k as int]);
            }
            k = k + 1;
        }
        if same {
            assert(views(sorted@) =~= views(self.timers@));
            return false;
        }
        self.timers = sorted;
        true
    }

    /// Drop every timer that has ended by `now`. Returns true when any was
    /// dropped.
    pub fn remove_expired(&mut self, now: u64) -> (changed: bool)
        ensures
            final(self)@ == old(self)@.filter(|t: TimerView| now < t.end_time),
            changed == (final(self)@.len() != old(self)@.len()),
    {
        let ghost keep = |t: TimerView| now < t.end_time;
        let n = self.timers.len();
        let mut kept: Vec<TimerOverlay> = Vec::new();
        let mut i: usize = 0;
        proof {
            assert(views(self.timers@).take(0).filter(keep) =~= Seq::<TimerView>::empty()) by {
                reveal_with_fuel(Seq::filter, 1);
            }
            assert(views(kept@) =~= Seq::<TimerView>::empty());
        }
        while i < n
            invariant
                n == self.timers@.len(),
                i <= n,
                keep == (|t: TimerView| now < t.end_time),
                views(kept@) == views(self.timers@).take(i as int).filter(keep),
            decreases n - i,
        {
            let ghost all = views(self.timers@);
            proof {
                assert(all.take(i + 1).drop_last() =~= all.take(i as int));
                assert(all.take(i + 1).last() == all[i as int]);
                reveal_with_fuel(Seq::filter, 1);
            }
            if !self.timers[i].is_expired(now) {
                let t = self.timers[i].clone();
                kept.push(t);
                assert(views(kept@) =~= all.take(i as int).filter(keep).push(all[i as int]));
            }
            i = i + 1;
        }
        proof {
            assert(views(self.timers@).take(n as int) =~= views(self.timers@));
        }
        let changed = kept.len() != n;
        self.timers = kept;
        changed
    }

    /// Every timer for a label, most urgent first (multi-row renderers).
    pub fn visible_all_for(&self, source_id: Option<&str>, is_active: bool, now: u64) -> (r: Vec<
        &TimerOverlay,
    >)
        ensures
            r@.map_values(|t: &TimerOverlay| t@) == self@.filter(
                |t: TimerView| timer_visible(t, source_view(source_id), is_active, now),
            ),
    {
        let ghost pred = |t: TimerView| timer_visible(t, source_view(source_id), is_active, now);
        let ghost all = views(self.timers@);
        let n = self.timers.len();
        let mut out: Vec<&TimerOverlay> = Vec::new();
        let mut i: usize = 0;
        proof {
            assert(all.take(0).filter(pred) =~= Seq::<TimerView>::empty()) by {
                reveal_with_fuel(Seq::filter, 1);
            }
            assert(out@.map_values(|t: &TimerOverlay| t@) =~= Seq::<TimerView>::empty());
        }
        while i < n
            invariant
                n == self.timers@.len(),
                all == views(self.timers@),
                i <= n,
                pred == (|t: TimerView| timer_visible(t, source_view(source_id), is_active, now)),
                out@.map_values(|t: &TimerOverlay| t@) == all.take(i as int).filter(pred),
            decreases n - i,
        {
            proof {
                assert(all.take(i + 1).drop_last() =~= all.take(i as int));
                assert(all.take(i + 1).last() == all[i as int]);
                reveal_with_fuel(Seq::filter, 1);
            }
            let t = &self.timers[i];
            if !t.is_expired(now) && t.visible_on(source_id, is_active) {
                out.push(t);
                assert(out@.map_values(|t: &TimerOverlay| t@) =~= all.take(i as int).filter(
                    pred,
                ).push(all[i as int]));
            }
            i = i + 1;
        }
        proof {
            assert(all.take(n as int) =~= all);
        }
        out
    }

    /// The single most urgent timer for a label.
    pub fn visible_for(&self, source_id: Option<&str>, is_active: bool, now: u64) -> (r: Option<
        &TimerOverlay,
    >)
        ensures
            ({
                let shown = self@.filter(
                    |t: TimerView| timer_visible(t, source_view(source_id), is_active, now),
                );
                match r {
                    Some(t) => shown.len() > 0 && t@ == shown[0],
                    None => shown.len() == 0,
                }
            }),
    {
        let all = self.visible_all_for(source_id, is_active, now);
        if all.len() > 0 {
            assert(all@.map_values(|t: &TimerOverlay| t@)[0] == all@[0]@);
            Some(all[0])
        } else {
            None
        }
    }

    pub fn is_empty(&self) -> (b: bool)
        ensures
            b == (self@.len() == 0),
    {
        self.timers.len() == 0
    }

    /// The stored timers in display order.
    pub fn timers(&self) -> (r: &[TimerOverlay])
        ensures
            views(r@) == self@,
    {
        self.timers.as_slice()
    }
}

} // verus!
