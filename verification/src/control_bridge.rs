//! What the overlay publishes to its remote control, which clients share
//! the active client's mouse geometry, and which foreground windows belong
//! to the multiboxing session.

use vstd::prelude::*;
use crate::clients::{ClientRegistry, EqWindow, pids_of, position_of};
use crate::event_loop::first_at;
use crate::trigger_text::clone_opt_string;

verus! {

/// One client as the remote control sees it.
#[derive(Debug)]
pub struct SourceClient {
    pub private_key: u64,
    pub character: Option<String>,
    pub server: Option<String>,
    pub class_code: Option<String>,
    pub window_number: usize,
    pub active: bool,
    /// Active, or one of the PiPs that activation can exchange.
    pub activatable: bool,
    pub input_ready: bool,
}

/// The published form of a window.
pub open spec fn source_of(w: EqWindow, active: Option<u32>, pips: Seq<u32>, input_ready: bool) -> SourceClient {
    SourceClient {
        private_key: w.pid as u64,
        character: w.character,
        server: w.server,
        class_code: w.class,
        window_number: w.number,
        active: active == Some(w.pid),
        activatable: active == Some(w.pid) || pips.contains(w.pid),
        input_ready,
    }
}

fn pips_contain(pips: &[u32], pid: u32) -> (b: bool)
    ensures
        b == pips@.contains(pid),
{
    let mut i: usize = 0;
    while i < pips.len()
        invariant
            0 <= i <= pips@.len(),
            forall|k: int| 0 <= k < i ==> pips@[k] != pid,
        decreases pips@.len() - i,
    {
        if pips[i] == pid {
            return true;
        }
        i = i + 1;
    }
    false
}

/// The clients to publish, one per window, with each window's input
/// readiness (as the broadcaster reports it) alongside.
pub fn source_clients(registry: &ClientRegistry, input_ready: &[bool]) -> (r: Vec<SourceClient>)
    requires
        input_ready@.len() == registry.windows_seq().len(),
    ensures
        r@.len() == registry.windows_seq().len(),
        forall|k: int| 0 <= k < r@.len() ==> #[trigger] r@[k] == source_of(
            registry.windows_seq()[k],
            registry.active(),
            registry.pip_seq(),
            input_ready@[k],
        ),
{
    let windows = registry.windows();
    let active = registry.active_pid();
    let pips = registry.pips();
    let mut out: Vec<SourceClient> = Vec::new();
    let mut i: usize = 0;
    while i < windows.len()
        invariant
            windows@ == registry.windows_seq(),
            pips@ == registry.pip_seq(),
            active == registry.active(),
            input_ready@.len() == windows@.len(),
            0 <= i <= windows@.len(),
            out@.len() == i,
            forall|k: int| 0 <= k < i ==> #[trigger] out@[k] == source_of(windows@[k], active, pips@, input_ready@[k]),
        decreases windows@.len() - i,
    {
        let w = &windows[i];
        let is_active = match active {
            Some(a) => a == w.pid,
            None => false,
        };
        let activatable = is_active || pips_contain(pips, w.pid);
        out.push(
            SourceClient {
                private_key: w.pid as u64,
                character: clone_opt_string(&w.character),
                server: clone_opt_string(&w.server),
                class_code: clone_opt_string(&w.class),
                window_number: w.number,
                active: is_active,
                activatable,
                input_ready: input_ready[i],
            },
        );
        i = i + 1;
    }
    out
}

/// A window's client area on screen and its DPI; mouse input is mirrored
/// only between windows whose geometry is identical.
#[derive(Clone, Copy, Debug, PartialEq, Eq, Structural)]
pub struct MouseGeometry {
    pub origin_x: i32,
    pub origin_y: i32,
    pub width: i32,
    pub height: i32,
    pub dpi: u32,
}

/// The pids of the windows whose geometry is `Some(g)`, in window order.
pub open spec fn matching_pids(ws: Seq<EqWindow>, geometries: Seq<Option<MouseGeometry>>, g: MouseGeometry) -> Seq<u32>
    decreases ws.len(),
{
    if ws.len() == 0 {
        Seq::empty()
    } else {
        let rest = matching_pids(ws.drop_last(), geometries.take(ws.len() - 1), g);
        if geometries[ws.len() - 1] == Some(g) {
            rest.push(ws.last().pid)
        } else {
            rest
        }
    }
}

/// The clients eligible for mirrored mouse input: those whose window has
/// exactly the active client's geometry (none without an active client or
/// without its geometry). `geometries` holds each window's geometry, where
/// it could be read.
pub open spec fn spec_mouse_eligible(ws: Seq<EqWindow>, active: Option<u32>, geometries: Seq<Option<MouseGeometry>>) -> Seq<u32> {
    match active {
        None => Seq::empty(),
        Some(a) => if exists|i: int| first_at(ws, a, i) {
            let i = choose|i: int| first_at(ws, a, i);
            match geometries[i] {
                Some(g) => matching_pids(ws, geometries, g),
                None => Seq::empty(),
            }
        } else {
            Seq::empty()
        },
    }
}

pub fn mouse_eligible_pids(registry: &ClientRegistry, geometries: &[Option<MouseGeometry>]) -> (r: Vec<u32>)
    requires
        geometries@.len() == registry.windows_seq().len(),
    ensures
        r@ == spec_mouse_eligible(registry.windows_seq(), registry.active(), geometries@),
{
    let windows = registry.windows();
    let active = match registry.active_pid() {
        Some(a) => a,
        None => return Vec::new(),
    };
    let source = match position_of(windows, active) {
        Some(i) => i,
        None => {
            proof {
                assert(!exists|i: int| first_at(windows@, active, i)) by {
                    if exists|i: int| first_at(windows@, active, i) {
                        let i = choose|i: int| first_at(windows@, active, i);
                        assert(pids_of(windows@)[i] == active);
                    }
                }
            }
            return Vec::new();
        },
    };
    proof {
        assert(first_at(windows@, active, source as int));
        let c = choose|c: int| first_at(windows@, active, c);
        crate::event_loop::lemma_first_at_unique(windows@, active, c, source as int);
    }
    let g = match geometries[source] {
        Some(g) => g,
        None => return Vec::new(),
    };
    let mut out: Vec<u32> = Vec::new();
    let mut i: usize = 0;
    while i < windows.len()
        invariant
            windows@ == registry.windows_seq(),
            geometries@.len() == windows@.len(),
            0 <= i <= windows@.len(),
            out@ == matching_pids(windows@.take(i as int), geometries@.take(i as int), g),
        decreases windows@.len() - i,
    {
        proof {
            let t1 = windows@.take(i + 1);
            assert(t1.drop_last() =~= windows@.take(i as int));
            assert(geometries@.take(i + 1).take(i as int) =~= geometries@.take(i as int));
            assert(t1.last() == windows@[i as int]);
            assert(geometries@.take(i + 1)[i as int] == geometries@[i as int]);
        }
        if geometries[i] == Some(g) {
            out.push(windows[i].pid);
        }
        i = i + 1;
    }
    proof {
        assert(windows@.take(windows@.len() as int) =~= windows@);
        assert(geometries@.take(windows@.len() as int) =~= geometries@);
    }
    out
}

fn handles_contain(handles: &[usize], hwnd: usize) -> (b: bool)
    ensures
        b == handles@.contains(hwnd),
{
    let mut i: usize = 0;
    while i < handles.len()
        invariant
            0 <= i <= handles@.len(),
            forall|k: int| 0 <= k < i ==> handles@[k] != hwnd,
        decreases handles@.len() - i,
    {
        if handles[i] == hwnd {
            return true;
        }
        i = i + 1;
    }
    false
}

/// Whether a foreground window belongs to the session: one of the overlay's
/// own windows (`overlay_windows`), the settings dialog, a client window, or
/// any window of a client process (`window_pid` is the foreground window's
/// process, 0 where it could not be read, and counts only while clients are
/// loaded).
pub fn owns_foreground(
    hwnd: usize,
    overlay_windows: &[usize],
    settings_foreground: bool,
    registry: &ClientRegistry,
    window_pid: u32,
) -> (b: bool)
    ensures
        b == (overlay_windows@.contains(hwnd) || settings_foreground || (exists|i: int|
            0 <= i < registry.windows_seq().len() && #[trigger] registry.windows_seq()[i].hwnd == hwnd) || (
        registry.windows_seq().len() > 0 && window_pid != 0 && pids_of(registry.windows_seq()).contains(
            window_pid,
        ))),
{
    if handles_contain(overlay_windows, hwnd) || settings_foreground {
        return true;
    }
    let windows = registry.windows();
    let mut i: usize = 0;
    while i < windows.len()
        invariant
            windows@ == registry.windows_seq(),
            0 <= i <= windows@.len(),
            forall|k: int| 0 <= k < i ==> (#[trigger] windows@[k]).hwnd != hwnd,
        decreases windows@.len() - i,
    {
        if windows[i].hwnd == hwnd {
            assert(registry.windows_seq()[i as int].hwnd == hwnd);
            return true;
        }
        i = i + 1;
    }
    if windows.len() > 0 && window_pid != 0 {
        match position_of(windows, window_pid) {
            Some(k) => {
                proof {
                    assert(pids_of(windows@)[k as int] == window_pid);
                }
                return true;
            },
            None => {},
        }
    }
    false
}

} // verus!
