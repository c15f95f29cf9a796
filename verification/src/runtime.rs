//! The owner thread's transaction guard, its coalesced redraw requests and
//! the compositor-recovery flags.
//!
//! One transaction at a time may hold the overlay state: window callbacks
//! that arrive while one runs are turned away as busy instead of re-entering.

use vstd::prelude::*;
use crate::client_controller::AccessError;

verus! {

/// The transaction guard and flags of one owner thread.
#[derive(Debug)]
pub struct RuntimeFlags {
    busy: bool,
    /// Windows with a redraw requested, each at most once.
    redraw_pending: Vec<isize>,
    recovery_posted: bool,
    servicing_recovery: bool,
}

impl RuntimeFlags {
    pub closed spec fn is_busy_spec(&self) -> bool {
        self.busy
    }

    /// The windows with a pending redraw.
    pub closed spec fn pending(&self) -> Set<isize> {
        self.redraw_pending@.to_set()
    }

    pub closed spec fn recovery_posted_spec(&self) -> bool {
        self.recovery_posted
    }

    pub closed spec fn recovery_running_spec(&self) -> bool {
        self.servicing_recovery
    }

    /// Each pending window is listed once.
    pub closed spec fn wf(&self) -> bool {
        self.redraw_pending@.no_duplicates()
    }

    pub fn new() -> (r: RuntimeFlags)
        ensures
            r.wf(),
            !r.is_busy_spec(),
            r.pending() == Set::<isize>::empty(),
            !r.recovery_posted_spec(),
            !r.recovery_running_spec(),
    {
        let r = RuntimeFlags {
            busy: false,
            redraw_pending: Vec::new(),
            recovery_posted: false,
            servicing_recovery: false,
        };
        proof {
            assert(r.redraw_pending@.to_set() =~= Set::<isize>::empty());
        }
        r
    }

    pub fn is_busy(&self) -> (b: bool)
        ensures
            b == self.is_busy_spec(),
    {
        self.busy
    }

    /// Enter a transaction: refused as busy while another transaction runs.
    pub fn try_enter(&mut self) -> (r: Result<(), AccessError>)
        ensures
            old(self).is_busy_spec() ==> r == Err::<(), AccessError>(AccessError::Busy),
            !old(self).is_busy_spec() ==> r is Ok,
            final(self).is_busy_spec(),
            final(self).pending() == old(self).pending(),
            final(self).recovery_posted_spec() == old(self).recovery_posted_spec(),
            final(self).recovery_running_spec() == old(self).recovery_running_spec(),
            final(self).wf() == old(self).wf(),
    {
        if self.busy {
            return Err(AccessError::Busy);
        }
        self.busy = true;
        Ok(())
    }

    /// Enter a transaction on the state: refused as busy while another runs,
    /// and as unavailable while no state is installed.
    pub fn enter_state(&mut self, initialized: bool) -> (r: Result<(), AccessError>)
        ensures
            old(self).is_busy_spec() ==> r == Err::<(), AccessError>(AccessError::Busy) && final(self).is_busy_spec(),
            !old(self).is_busy_spec() && !initialized ==> r == Err::<(), AccessError>(AccessError::Unavailable)
                && !final(self).is_busy_spec(),
            !old(self).is_busy_spec() && initialized ==> r is Ok && final(self).is_busy_spec(),
            final(self).pending() == old(self).pending(),
            final(self).recovery_posted_spec() == old(self).recovery_posted_spec(),
            final(self).recovery_running_spec() == old(self).recovery_running_spec(),
            final(self).wf() == old(self).wf(),
    {
        if self.busy {
            return Err(AccessError::Busy);
        }
        if !initialized {
            return Err(AccessError::Unavailable);
        }
        self.busy = true;
        Ok(())
    }

    /// Leave the transaction.
    pub fn leave(&mut self)
        ensures
            !final(self).is_busy_spec(),
            final(self).pending() == old(self).pending(),
            final(self).recovery_posted_spec() == old(self).recovery_posted_spec(),
            final(self).recovery_running_spec() == old(self).recovery_running_spec(),
            final(self).wf() == old(self).wf(),
    {
        self.busy = false;
    }

    fn position(&self, hwnd: isize) -> (r: Option<usize>)
        ensures
            match r {
                Some(i) => i < self.redraw_pending@.len() && self.redraw_pending@[i as int] == hwnd,
                None => !self.redraw_pending@.contains(hwnd),
            },
    {
        let mut i: usize = 0;
        while i < self.redraw_pending.len()
            invariant
                0 <= i <= self.redraw_pending@.len(),
                forall|k: int| 0 <= k < i ==> self.redraw_pending@[k] != hwnd,
            decreases self.redraw_pending@.len() - i,
        {
            if self.redraw_pending[i] == hwnd {
                return Some(i);
            }
            i = i + 1;
        }
        None
    }

    /// Request a redraw of a window (handle 0 is no window). Returns whether
    /// the request is new; repeated requests coalesce.
    pub fn mark_redraw_requested(&mut self, hwnd: isize) -> (added: bool)
        requires
            old(self).wf(),
        ensures
            final(self).wf(),
            added == (hwnd != 0 && !old(self).pending().contains(hwnd)),
            final(self).pending() == (if hwnd != 0 { old(self).pending().insert(hwnd) } else { old(self).pending() }),
            final(self).is_busy_spec() == old(self).is_busy_spec(),
            final(self).recovery_posted_spec() == old(self).recovery_posted_spec(),
            final(self).recovery_running_spec() == old(self).recovery_running_spec(),
    {
        if hwnd == 0 {
            return false;
        }
        if self.position(hwnd).is_some() {
            proof {
                assert(self.redraw_pending@.to_set().insert(hwnd) =~= self.redraw_pending@.to_set());
            }
            return false;
        }
        self.redraw_pending.push(hwnd);
        proof {
            let before = old(self).redraw_pending@;
            let after = self.redraw_pending@;
            assert forall|y: isize| after.to_set().contains(y) == before.to_set().insert(hwnd).contains(y) by {
                if after.contains(y) {
                    let k = choose|k: int| 0 <= k < after.len() && after[k] == y;
                    if k < before.len() {
                        assert(before[k] == y);
                    }
                }
                if before.contains(y) {
                    let k = choose|k: int| 0 <= k < before.len() && before[k] == y;
                    assert(after[k] == y);
                }
                if y == hwnd {
                    assert(after[before.len() as int] == y);
                }
            }
            assert(after.to_set() =~= before.to_set().insert(hwnd));
            assert forall|a: int, b: int| 0 <= a < b < after.len() implies after[a] != after[b] by {
                if b == after.len() - 1 {
                    assert(after[a] == before[a]);
                    assert(before.contains(before[a]));
                } else {
                    assert(after[a] == before[a] && after[b] == before[b]);
                }
            }
        }
        true
    }

    pub fn has_redraw_request(&self, hwnd: isize) -> (b: bool)
        ensures
            b == (hwnd != 0 && self.pending().contains(hwnd)),
    {
        hwnd != 0 && self.position(hwnd).is_some()
    }

    fn remove_request(&mut self, hwnd: isize) -> (removed: bool)
        requires
            old(self).wf(),
        ensures
            final(self).wf(),
            removed == old(self).pending().contains(hwnd),
            final(self).pending() == old(self).pending().remove(hwnd),
            final(self).is_busy_spec() == old(self).is_busy_spec(),
            final(self).recovery_posted_spec() == old(self).recovery_posted_spec(),
            final(self).recovery_running_spec() == old(self).recovery_running_spec(),
    {
        match self.position(hwnd) {
            Some(i) => {
                let ghost before = self.redraw_pending@;
                self.redraw_pending.remove(i);
                proof {
                    let after = self.redraw_pending@;
                    assert(after =~= before.remove(i as int));
                    assert forall|x: isize| after.to_set().contains(x) == before.to_set().remove(hwnd).contains(x) by {
                        if after.contains(x) {
                            let k = choose|k: int| 0 <= k < after.len() && after[k] == x;
                            if k < i {
                                assert(before[k] == x);
                                assert(k != i);
                            } else {
                                assert(before[k + 1] == x);
                            }
                        }
                        if before.contains(x) && x != hwnd {
                            let k = choose|k: int| 0 <= k < before.len() && before[k] == x;
                            if k < i {
                                assert(after[k] == x);
                            } else {
                                assert(k != i);
                                assert(after[k - 1] == x);
                            }
                        }
                    }
                    assert(after.to_set() =~= before.to_set().remove(hwnd));
                }
                true
            },
            None => {
                proof {
                    assert(self.redraw_pending@.to_set().remove(hwnd) =~= self.redraw_pending@.to_set());
                }
                false
            },
        }
    }

    /// Take a window's redraw request: whether one was pending (never for
    /// handle 0).
    pub fn take_redraw_request(&mut self, hwnd: isize) -> (taken: bool)
        requires
            old(self).wf(),
        ensures
            final(self).wf(),
            taken == (hwnd != 0 && old(self).pending().contains(hwnd)),
            final(self).pending() == (if hwnd != 0 { old(self).pending().remove(hwnd) } else { old(self).pending() }),
            final(self).is_busy_spec() == old(self).is_busy_spec(),
            final(self).recovery_posted_spec() == old(self).recovery_posted_spec(),
            final(self).recovery_running_spec() == old(self).recovery_running_spec(),
    {
        if hwnd == 0 {
            return false;
        }
        self.remove_request(hwnd)
    }

    /// Drop a window's redraw request.
    pub fn clear_redraw_request(&mut self, hwnd: isize)
        requires
            old(self).wf(),
        ensures
            final(self).wf(),
            final(self).pending() == old(self).pending().remove(hwnd),
            final(self).is_busy_spec() == old(self).is_busy_spec(),
            final(self).recovery_posted_spec() == old(self).recovery_posted_spec(),
            final(self).recovery_running_spec() == old(self).recovery_running_spec(),
    {
        self.remove_request(hwnd);
    }

    pub fn recovery_is_running(&self) -> (b: bool)
        ensures
            b == self.recovery_running_spec(),
    {
        self.servicing_recovery
    }

    /// Mark one recovery message as posted. Returns true only to the caller
    /// that should post it.
    pub fn claim_recovery_post(&mut self) -> (claimed: bool)
        ensures
            claimed == !old(self).recovery_posted_spec(),
            final(self).recovery_posted_spec(),
            final(self).recovery_running_spec() == old(self).recovery_running_spec(),
            final(self).is_busy_spec() == old(self).is_busy_spec(),
            final(self).pending() == old(self).pending(),
            final(self).wf() == old(self).wf(),
    {
        let claimed = !self.recovery_posted;
        self.recovery_posted = true;
        claimed
    }

    pub fn clear_recovery_post(&mut self)
        ensures
            !final(self).recovery_posted_spec(),
            final(self).recovery_running_spec() == old(self).recovery_running_spec(),
            final(self).is_busy_spec() == old(self).is_busy_spec(),
            final(self).pending() == old(self).pending(),
            final(self).wf() == old(self).wf(),
    {
        self.recovery_posted = false;
    }

    /// Start servicing a recovery unless one is already being serviced; the
    /// posted message is then consumed.
    pub fn begin_recovery(&mut self) -> (started: bool)
        ensures
            started == !old(self).recovery_running_spec(),
            final(self).recovery_running_spec(),
            started ==> !final(self).recovery_posted_spec(),
            !started ==> final(self).recovery_posted_spec() == old(self).recovery_posted_spec(),
            final(self).is_busy_spec() == old(self).is_busy_spec(),
            final(self).pending() == old(self).pending(),
            final(self).wf() == old(self).wf(),
    {
        if self.servicing_recovery {
            return false;
        }
        self.servicing_recovery = true;
        self.recovery_posted = false;
        true
    }

    pub fn end_recovery(&mut self)
        ensures
            !final(self).recovery_running_spec(),
            final(self).recovery_posted_spec() == old(self).recovery_posted_spec(),
            final(self).is_busy_spec() == old(self).is_busy_spec(),
            final(self).pending() == old(self).pending(),
            final(self).wf() == old(self).wf(),
    {
        self.servicing_recovery = false;
    }

    /// After shutdown: no pending redraws and no recovery state.
    pub fn reset_after_shutdown(&mut self)
        ensures
            final(self).wf(),
            final(self).pending() == Set::<isize>::empty(),
            !final(self).recovery_posted_spec(),
            !final(self).recovery_running_spec(),
            final(self).is_busy_spec() == old(self).is_busy_spec(),
    {
        self.redraw_pending = Vec::new();
        self.recovery_posted = false;
        self.servicing_recovery = false;
        proof {
            assert(self.redraw_pending@.to_set() =~= Set::<isize>::empty());
        }
    }
}

/// Redraw requests coalesce: requesting a window twice leaves one request,
/// and taking it leaves none.
pub proof fn law_redraw_requests_coalesce(pending: Set<isize>, hwnd: isize)
    requires
        hwnd != 0,
    ensures
        pending.insert(hwnd).insert(hwnd) == pending.insert(hwnd),
        !pending.insert(hwnd).remove(hwnd).contains(hwnd),
        pending.insert(hwnd).contains(hwnd),
{
    assert(pending.insert(hwnd).insert(hwnd) =~= pending.insert(hwnd));
}

} // verus!
