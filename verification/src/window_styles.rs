//! Hiding the game clients that are not active from the taskbar, and
//! restoring their original extended window styles.

use vstd::prelude::*;
use crate::clients::EqWindow;

verus! {

/// `WS_EX_TOOLWINDOW`
pub const WS_EX_TOOLWINDOW: isize = 0x80;
/// `WS_EX_APPWINDOW`
pub const WS_EX_APPWINDOW: isize = 0x40000;

/// A window style without a taskbar button: a tool window that is not an
/// app window.
pub fn hidden_ex_style(style: isize) -> (r: isize)
    ensures
        r == (style | WS_EX_TOOLWINDOW) & !WS_EX_APPWINDOW,
        r & WS_EX_TOOLWINDOW == WS_EX_TOOLWINDOW,
        r & WS_EX_APPWINDOW == 0,
{
    let r = (style | WS_EX_TOOLWINDOW) & !WS_EX_APPWINDOW;
    assert(((style | 0x80isize) & !0x40000isize) & 0x80isize == 0x80isize) by (bit_vector);
    assert(((style | 0x80isize) & !0x40000isize) & 0x40000isize == 0) by (bit_vector);
    r
}

/// What to do with one client's window.
#[derive(Clone, Copy, Debug, PartialEq, Eq, Structural)]
pub enum StyleAction {
    /// Give the window its hidden style, after remembering its original.
    Hide(usize),
    /// Give the window back its remembered original style, if any.
    Restore(usize),
}

/// The first remembered style of a window.
pub open spec fn remembered(originals: Seq<(usize, isize)>, hwnd: usize) -> Option<isize>
    decreases originals.len(),
{
    if originals.len() == 0 {
        None
    } else if originals[0].0 == hwnd {
        Some(originals[0].1)
    } else {
        remembered(originals.drop_first(), hwnd)
    }
}

/// Whether the inactive clients are hidden, and the original styles of the
/// windows that were hidden.
#[derive(Debug)]
pub struct WindowStyleState {
    hide_background: bool,
    originals: Vec<(usize, isize)>,
}

impl WindowStyleState {
    pub closed spec fn hides_background(&self) -> bool {
        self.hide_background
    }

    pub closed spec fn originals(&self) -> Seq<(usize, isize)> {
        self.originals@
    }

    pub fn new(hide_background: bool) -> (s: WindowStyleState)
        ensures
            s.hides_background() == hide_background,
            s.originals().len() == 0,
    {
        WindowStyleState { hide_background, originals: Vec::new() }
    }

    pub fn hide_background(&self) -> (b: bool)
        ensures
            b == self.hides_background(),
    {
        self.hide_background
    }

    pub fn set_hide_background(&mut self, enabled: bool)
        ensures
            final(self).hides_background() == enabled,
            final(self).originals() == old(self).originals(),
    {
        self.hide_background = enabled;
    }

    /// The actions for the current clients: the active client's window is
    /// restored and every other one hidden; nothing while hiding is off.
    pub fn plan(&self, windows: &[EqWindow], active_pid: Option<u32>) -> (actions: Vec<StyleAction>)
        ensures
            !self.hides_background() ==> actions@.len() == 0,
            self.hides_background() ==> actions@.len() == windows@.len() && forall|i: int|
                0 <= i < windows@.len() ==> #[trigger] actions@[i] == (if active_pid == Some(windows@[i].pid) {
                    StyleAction::Restore(windows@[i].hwnd)
                } else {
                    StyleAction::Hide(windows@[i].hwnd)
                }),
    {
        let mut actions: Vec<StyleAction> = Vec::new();
        if !self.hide_background {
            return actions;
        }
        let mut i: usize = 0;
        while i < windows.len()
            invariant
                i <= windows@.len(),
                actions@.len() == i,
                forall|k: int| 0 <= k < i ==> #[trigger] actions@[k] == (if active_pid == Some(windows@[k].pid) {
                    StyleAction::Restore(windows@[k].hwnd)
                } else {
                    StyleAction::Hide(windows@[k].hwnd)
                }),
            decreases windows@.len() - i,
        {
            let w = &windows[i];
            let action = match active_pid {
                Some(pid) => if pid == w.pid { StyleAction::Restore(w.hwnd) } else { StyleAction::Hide(w.hwnd) },
                None => StyleAction::Hide(w.hwnd),
            };
            actions.push(action);
            i = i + 1;
        }
        actions
    }

    /// The original style remembered for a window.
    pub fn original(&self, hwnd: usize) -> (r: Option<isize>)
        ensures
            r == remembered(self.originals(), hwnd),
    {
        let mut i: usize = 0;
        proof {
            assert(self.originals@.skip(0) =~= self.originals@);
        }
        while i < self.originals.len()
            invariant
                i <= self.originals@.len(),
                remembered(self.originals@, hwnd) == remembered(self.originals@.skip(i as int), hwnd),
            decreases self.originals@.len() - i,
        {
            proof {
                assert(self.originals@.skip(i as int).drop_first() =~= self.originals@.skip(i + 1));
            }
            if self.originals[i].0 == hwnd {
                return Some(self.originals[i].1);
            }
            i = i + 1;
        }
        proof {
            assert(self.originals@.skip(i as int) =~= Seq::<(usize, isize)>::empty());
        }
        None
    }

    /// Remember a window's original style before hiding it; a style already
    /// remembered is kept.
    pub fn remember_original(&mut self, hwnd: usize, style: isize)
        ensures
            final(self).hides_background() == old(self).hides_background(),
            remembered(final(self).originals(), hwnd) == (match remembered(old(self).originals(), hwnd) {
                Some(s) => Some(s),
                None => Some(style),
            }),
            forall|other: usize| other != hwnd ==> remembered(final(self).originals(), other) == remembered(
                old(self).originals(),
                other,
            ),
    {
        if self.original(hwnd).is_none() {
            let ghost before = self.originals@;
            self.originals.push((hwnd, style));
            proof {
                lemma_remembered_push(before, (hwnd, style));
            }
        }
    }

    /// Forget the windows that no longer exist.
    pub fn retain_live(&mut self, windows: &[EqWindow])
        ensures
            final(self).hides_background() == old(self).hides_background(),
            forall|h: usize| #[trigger] remembered(final(self).originals(), h) == (if live(windows@, h) {
                remembered(old(self).originals(), h)
            } else {
                None
            }),
    {
        let mut kept: Vec<(usize, isize)> = Vec::new();
        let mut i: usize = 0;
        let ghost all = self.originals@;
        while i < self.originals.len()
            invariant
                all == self.originals@,
                i <= all.len(),
                forall|h: usize| #[trigger] remembered(kept@, h) == (if live(windows@, h) {
                    remembered(all.take(i as int), h)
                } else {
                    None
                }),
            decreases all.len() - i,
        {
            let entry = self.originals[i];
            let is_live = contains_hwnd(windows, entry.0);
            let ghost before = kept@;
            proof {
                assert(all.take(i + 1) =~= all.take(i as int).push(entry));
                lemma_remembered_push(all.take(i as int), entry);
            }
            if is_live {
                kept.push(entry);
                proof {
                    lemma_remembered_push(before, entry);
                }
            }
            i = i + 1;
        }
        proof {
            assert(all.take(all.len() as int) =~= all);
        }
        self.originals = kept;
    }
}

/// A window of a tracked client has this handle.
pub open spec fn live(windows: Seq<EqWindow>, hwnd: usize) -> bool {
    exists|i: int| 0 <= i < windows.len() && windows[i].hwnd == hwnd
}

fn contains_hwnd(windows: &[EqWindow], hwnd: usize) -> (b: bool)
    ensures
        b == live(windows@, hwnd),
{
    let mut i: usize = 0;
    while i < windows.len()
        invariant
            i <= windows@.len(),
            forall|k: int| 0 <= k < i ==> windows@[k].hwnd != hwnd,
        decreases windows@.len() - i,
    {
        if windows[i].hwnd == hwnd {
            return true;
        }
        i = i + 1;
    }
    false
}

/// Appending an entry changes only what its own window remembers, and
/// only when nothing was remembered for it.
proof fn lemma_remembered_push(s: Seq<(usize, isize)>, e: (usize, isize))
    ensures
        forall|h: usize| #[trigger] remembered(s.push(e), h) == (if remembered(s, h) is None && h == e.0 {
            Some(e.1)
        } else {
            remembered(s, h)
        }),
    decreases s.len(),
{
    if s.len() > 0 {
        lemma_remembered_push(s.drop_first(), e);
        assert(s.push(e).drop_first() =~= s.drop_first().push(e));
        assert forall|h: usize| #[trigger] remembered(s.push(e), h) == (if remembered(s, h) is None && h == e.0 {
            Some(e.1)
        } else {
            remembered(s, h)
        }) by {
            assert(s.push(e)[0] == s[0]);
            assert(remembered(s.drop_first().push(e), h) == (if remembered(s.drop_first(), h) is None && h == e.0 {
                Some(e.1)
            } else {
                remembered(s.drop_first(), h)
            }));
        }
    } else {
        assert forall|h: usize| #[trigger] remembered(s.push(e), h) == (if remembered(s, h) is None && h == e.0 {
            Some(e.1)
        } else {
            remembered(s, h)
        }) by {
            assert(s.push(e).drop_first() =~= Seq::<(usize, isize)>::empty());
            reveal_with_fuel(remembered, 2);
        }
    }
}

} // verus!
