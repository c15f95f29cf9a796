//! What log telemetry changes about the tracked clients, and the log
//! sources published to the log reader.

use vstd::prelude::*;
use vstd::string::StringExecFns;
use crate::clients::EqWindow;
use crate::log_events::LogSource;
use crate::log_sources::{pid_source_id, pid_source_view};
use crate::text::{eq_ignore_ascii_case, eq_ignore_case};
use crate::trigger_text::clone_opt_string;

verus! {

/// The window shows the given character on the given server (ignoring
/// ASCII case).
pub open spec fn shows_character(w: EqWindow, server: Seq<char>, character: Seq<char>) -> bool {
    &&& w.character matches Some(c) && eq_ignore_case(c@, character)
    &&& w.server matches Some(s) && eq_ignore_case(s@, server)
}

/// The class of the window after the change, as characters.
pub open spec fn class_view(w: EqWindow) -> Option<Seq<char>> {
    match w.class {
        Some(c) => Some(c@),
        None => None,
    }
}

/// A window unchanged but for its class.
pub open spec fn same_but_class(a: EqWindow, b: EqWindow) -> bool {
    a.hwnd == b.hwnd && a.pid == b.pid && a.number == b.number && a.character == b.character && a.server == b.server
}

/// Apply a class reported by a character's log to every window showing that
/// character. Returns whether any window's class changed.
pub fn apply_class_change(windows: &mut Vec<EqWindow>, server: &str, character: &str, class_code: &str) -> (changed: bool)
    ensures
        final(windows)@.len() == old(windows)@.len(),
        forall|i: int| 0 <= i < old(windows)@.len() ==> {
            let before = #[trigger] old(windows)@[i];
            let after = final(windows)@[i];
            if shows_character(before, server@, character@) {
                same_but_class(after, before) && class_view(after) == Some(class_code@)
            } else {
                after == before
            }
        },
        changed == exists|i: int|
            0 <= i < old(windows)@.len() && shows_character(#[trigger] old(windows)@[i], server@, character@)
                && class_view(old(windows)@[i]) != Some(class_code@),
{
    let mut changed = false;
    let n = windows.len();
    let mut i: usize = 0;
    while i < n
        invariant
            n == old(windows)@.len(),
            windows@.len() == n,
            i <= n,
            forall|k: int| i <= k < n ==> windows@[k] == old(windows)@[k],
            forall|k: int| 0 <= k < i ==> {
                let before = #[trigger] old(windows)@[k];
                let after = windows@[k];
                if shows_character(before, server@, character@) {
                    same_but_class(after, before) && class_view(after) == Some(class_code@)
                } else {
                    after == before
                }
            },
            changed == exists|k: int|
                0 <= k < i && shows_character(#[trigger] old(windows)@[k], server@, character@) && class_view(
                    old(windows)@[k],
                ) != Some(class_code@),
        decreases n - i,
    {
        let matches = match (&windows[i].character, &windows[i].server) {
            (Some(name), Some(window_server)) => eq_ignore_ascii_case(name.as_str(), character)
                && eq_ignore_ascii_case(window_server.as_str(), server),
            _ => false,
        };
        if matches {
            let differs = match &windows[i].class {
                Some(c) => !crate::text::str_eq(c.as_str(), class_code),
                None => true,
            };
            if differs {
                let w = &windows[i];
                let updated = EqWindow {
                    hwnd: w.hwnd,
                    pid: w.pid,
                    number: w.number,
                    character: clone_opt_string(&w.character),
                    server: clone_opt_string(&w.server),
                    class: Some(String::from_str(class_code)),
                };
                windows.set(i, updated);
                changed = true;
            }
        }
        proof {
            if changed {
                if matches && class_view(old(windows)@[i as int]) != Some(class_code@) {
                    assert(shows_character(old(windows)@[i as int], server@, character@));
                }
            }
        }
        i = i + 1;
    }
    changed
}

/// The log source of a window that knows its character and server: the
/// exact process id, with the identity for matching older sources.
pub open spec fn source_of(w: EqWindow) -> Option<(Seq<char>, Seq<char>, Seq<char>)> {
    match (w.character, w.server) {
        (Some(c), Some(s)) => Some((pid_source_view(w.pid), c@, s@)),
        _ => None,
    }
}

pub open spec fn source_view_of(s: LogSource) -> (Seq<char>, Seq<char>, Seq<char>) {
    (s.id@, s.character@, s.server@)
}

/// The sources of all identified windows, in window order.
pub open spec fn spec_log_sources(ws: Seq<EqWindow>) -> Seq<(Seq<char>, Seq<char>, Seq<char>)>
    decreases ws.len(),
{
    if ws.len() == 0 {
        Seq::empty()
    } else {
        let rest = spec_log_sources(ws.drop_last());
        match source_of(ws.last()) {
            Some(s) => rest.push(s),
            None => rest,
        }
    }
}

/// The log sources to publish for the tracked windows.
pub fn log_sources_for(windows: &[EqWindow]) -> (r: Vec<LogSource>)
    ensures
        r@.map_values(|s: LogSource| source_view_of(s)) == spec_log_sources(windows@),
{
    let mut out: Vec<LogSource> = Vec::new();
    let mut i: usize = 0;
    proof {
        assert(windows@.take(0) =~= Seq::<EqWindow>::empty());
        assert(out@.map_values(|s: LogSource| source_view_of(s)) =~= spec_log_sources(windows@.take(0)));
    }
    while i < windows.len()
        invariant
            i <= windows@.len(),
            out@.map_values(|s: LogSource| source_view_of(s)) == spec_log_sources(windows@.take(i as int)),
        decreases windows@.len() - i,
    {
        proof {
            assert(windows@.take(i + 1).drop_last() =~= windows@.take(i as int));
            assert(windows@.take(i + 1).last() == windows@[i as int]);
        }
        let w = &windows[i];
        match (&w.character, &w.server) {
            (Some(c), Some(s)) => {
                let source = LogSource { id: pid_source_id(w.pid), character: c.clone(), server: s.clone() };
                let ghost before = out@;
                out.push(source);
                proof {
                    assert(out@.map_values(|s: LogSource| source_view_of(s)) =~= before.map_values(
                        |s: LogSource| source_view_of(s),
                    ).push(source_view_of(source)));
                }
            },
            _ => {},
        }
        i = i + 1;
    }
    proof {
        assert(windows@.take(windows@.len() as int) =~= windows@);
    }
    out
}

} // verus!
