//! The animated rearrangement of picture-in-picture windows: window
//! motions and the handoff of thumbnails from outgoing to incoming sources.
//!
//! The easing curve is drawn by the window layer; this model decides which
//! thumbnail relationships are switched, retired or rolled back.

use vstd::prelude::*;
use crate::geometry::Rect;

verus! {

pub const TIMER_ID: usize = 45;
pub const FRAME_INTERVAL_MS: u32 = 15;
pub const DURATION_MS: u64 = 180;

/// One window moving from one rectangle to another.
#[derive(Clone, Copy, Debug, PartialEq, Eq, Structural)]
pub struct PipMotion {
    pub hwnd: usize,
    pub label_hwnd: usize,
    pub from: Rect,
    pub to: Rect,
}

/// A host whose thumbnail moves from an outgoing source to an incoming one.
/// `switched` once the incoming thumbnail shows and the outgoing one was
/// released (`outgoing` is then zero).
#[derive(Clone, Copy, Debug, PartialEq, Eq, Structural)]
pub struct ThumbnailHandoff {
    pub outgoing: isize,
    pub incoming: isize,
    pub switched: bool,
}

/// A running rearrangement.
#[derive(Debug)]
pub struct PipTransition {
    pub started_at_ms: u64,
    pub motions: Vec<PipMotion>,
    pub handoffs: Vec<ThumbnailHandoff>,
    pub normal_alpha: u8,
}

/// The thumbnails to release when a switch is confirmed: the nonzero
/// outgoing ones of the handoffs not yet switched.
pub open spec fn released(handoffs: Seq<ThumbnailHandoff>) -> Seq<isize>
    decreases handoffs.len(),
{
    if handoffs.len() == 0 {
        Seq::empty()
    } else {
        let rest = released(handoffs.drop_last());
        let h = handoffs.last();
        if !h.switched && h.outgoing != 0 {
            rest.push(h.outgoing)
        } else {
            rest
        }
    }
}

/// A handoff once its switch is confirmed.
pub open spec fn confirmed(h: ThumbnailHandoff) -> ThumbnailHandoff {
    if h.switched {
        h
    } else {
        ThumbnailHandoff { outgoing: 0, incoming: h.incoming, switched: true }
    }
}

impl PipTransition {
    pub fn new(normal_alpha: u8, now_ms: u64) -> (t: PipTransition)
        ensures
            t.started_at_ms == now_ms,
            t.motions@.len() == 0,
            t.handoffs@.len() == 0,
            t.normal_alpha == normal_alpha,
    {
        PipTransition { started_at_ms: now_ms, motions: Vec::new(), handoffs: Vec::new(), normal_alpha }
    }

    /// Nothing moves and nothing is handed off.
    pub fn is_empty(&self) -> (b: bool)
        ensures
            b == (self.motions@.len() == 0 && self.handoffs@.len() == 0),
    {
        self.motions.len() == 0 && self.handoffs.len() == 0
    }

    /// Every handoff is switched.
    pub fn all_switched(&self) -> (b: bool)
        ensures
            b == forall|i: int| 0 <= i < self.handoffs@.len() ==> #[trigger] self.handoffs@[i].switched,
    {
        let mut i: usize = 0;
        while i < self.handoffs.len()
            invariant
                i <= self.handoffs@.len(),
                forall|k: int| 0 <= k < i ==> #[trigger] self.handoffs@[k].switched,
            decreases self.handoffs@.len() - i,
        {
            if !self.handoffs[i].switched {
                return false;
            }
            i = i + 1;
        }
        true
    }

    /// The incoming thumbnails that must show before the switch: those of
    /// the handoffs not yet switched.
    pub fn pending_incoming(&self) -> (v: Vec<isize>)
        ensures
            v@ == self.handoffs@.filter(|h: ThumbnailHandoff| !h.switched).map_values(|h: ThumbnailHandoff| h.incoming),
    {
        let ghost pred = |h: ThumbnailHandoff| !h.switched;
        let mut v: Vec<isize> = Vec::new();
        let mut i: usize = 0;
        proof {
            assert(self.handoffs@.take(0).filter(pred) =~= Seq::<ThumbnailHandoff>::empty()) by {
                reveal_with_fuel(Seq::filter, 1);
            }
            assert(v@ =~= self.handoffs@.take(0).filter(pred).map_values(|h: ThumbnailHandoff| h.incoming));
        }
        while i < self.handoffs.len()
            invariant
                i <= self.handoffs@.len(),
                pred == (|h: ThumbnailHandoff| !h.switched),
                v@ == self.handoffs@.take(i as int).filter(pred).map_values(|h: ThumbnailHandoff| h.incoming),
            decreases self.handoffs@.len() - i,
        {
            proof {
                assert(self.handoffs@.take(i + 1).drop_last() =~= self.handoffs@.take(i as int));
                assert(self.handoffs@.take(i + 1).last() == self.handoffs@[i as int]);
                reveal_with_fuel(Seq::filter, 1);
            }
            let h = self.handoffs[i];
            if !h.switched {
                let ghost before = v@;
                v.push(h.incoming);
                proof {
                    assert(self.handoffs@.take(i + 1).filter(pred) =~= self.handoffs@.take(i as int).filter(pred).push(h));
                    assert(v@ =~= self.handoffs@.take(i + 1).filter(pred).map_values(|h: ThumbnailHandoff| h.incoming));
                }
            } else {
                proof {
                    assert(self.handoffs@.take(i + 1).filter(pred) =~= self.handoffs@.take(i as int).filter(pred));
                }
            }
            i = i + 1;
        }
        proof {
            assert(self.handoffs@.take(self.handoffs@.len() as int) =~= self.handoffs@);
        }
        v
    }

    /// Confirm the switch once every incoming thumbnail shows: each pending
    /// handoff becomes switched and its outgoing thumbnail is returned for
    /// release.
    pub fn confirm_switch(&mut self) -> (outgoing: Vec<isize>)
        ensures
            outgoing@ == released(old(self).handoffs@),
            final(self).handoffs@ == old(self).handoffs@.map_values(|h: ThumbnailHandoff| confirmed(h)),
            final(self).motions@ == old(self).motions@,
            final(self).started_at_ms == old(self).started_at_ms,
            final(self).normal_alpha == old(self).normal_alpha,
            forall|i: int| 0 <= i < final(self).handoffs@.len() ==> #[trigger] final(self).handoffs@[i].switched,
    {
        let ghost before = self.handoffs@;
        let mut outgoing: Vec<isize> = Vec::new();
        let mut i: usize = 0;
        proof {
            assert(before.take(0) =~= Seq::<ThumbnailHandoff>::empty());
        }
        while i < self.handoffs.len()
            invariant
                self.handoffs@.len() == before.len(),
                self.motions@ == old(self).motions@,
                self.started_at_ms == old(self).started_at_ms,
                self.normal_alpha == old(self).normal_alpha,
                before == old(self).handoffs@,
                i <= before.len(),
                forall|k: int| 0 <= k < i ==> #[trigger] self.handoffs@[k] == confirmed(before[k]),
                forall|k: int| i <= k < before.len() ==> #[trigger] self.handoffs@[k] == before[k],
                outgoing@ == released(before.take(i as int)),
            decreases before.len() - i,
        {
            let h = self.handoffs[i];
            proof {
                assert(before.take(i + 1).drop_last() =~= before.take(i as int));
                assert(before.take(i + 1).last() == before[i as int]);
            }
            if !h.switched {
                if h.outgoing != 0 {
                    outgoing.push(h.outgoing);
                }
                self.handoffs.set(i, ThumbnailHandoff { outgoing: 0, incoming: h.incoming, switched: true });
            }
            i = i + 1;
        }
        proof {
            assert(before.take(before.len() as int) =~= before);
            assert(self.handoffs@ =~= before.map_values(|h: ThumbnailHandoff| confirmed(h)));
        }
        outgoing
    }
}

/// The animation has run its course.
pub fn transition_complete(started_at_ms: u64, now_ms: u64) -> (b: bool)
    ensures
        b == (now_ms >= started_at_ms && now_ms - started_at_ms >= DURATION_MS),
{
    now_ms >= started_at_ms && now_ms - started_at_ms >= DURATION_MS
}

} // verus!
