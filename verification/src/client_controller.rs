//! Activation and window-number commands: what is decided around the
//! window manager's foreground request, and how each failure is reported.

use vstd::prelude::*;
use vstd::string::StringExecFns;
use crate::clients::{
    ClientPartition, ClientRegistry, EqWindow, MAX_PIPS, exchanged, numbers_exchanged, pids_of, position_of,
};
use crate::text::{decimal, push_decimal};

verus! {

/// Why a control command failed.
#[derive(Clone, Copy, Debug, PartialEq, Eq, Structural)]
pub enum ErrorCode {
    TargetDisappeared,
    ActivationFailed,
    WindowNumberSwapFailed,
    InternalError,
}

/// A failed control command: its code and a message for the user.
#[derive(Debug)]
pub struct ControlError {
    pub code: ErrorCode,
    pub message: String,
}

#[derive(Clone, Copy, Debug, PartialEq, Eq, Structural)]
pub enum ActivationStatus {
    Activated,
    AlreadyActive,
}

/// What a successful control command did.
#[derive(Clone, Copy, Debug, PartialEq, Eq, Structural)]
pub enum CommandOutcome {
    Activated { status: ActivationStatus, foreground_confirmed: bool },
    WindowNumbersSwapped { active_previous_number: usize, selected_previous_number: usize },
}

/// Why the overlay state could not be entered.
#[derive(Clone, Copy, Debug, PartialEq, Eq, Structural)]
pub enum AccessError {
    /// Another transaction holds the state.
    Busy,
    /// The overlay is not running.
    Unavailable,
}

/// How a foreground request ended.
#[derive(Clone, Copy, Debug, PartialEq, Eq, Structural)]
pub enum ForegroundRequest {
    Confirmed,
    TargetDisappeared,
    TargetUnresponsive,
    ForegroundDenied,
    FocusDenied,
}

fn control_error(code: ErrorCode, message: &str) -> (e: ControlError)
    ensures
        e.code == code,
        e.message@ == message@,
{
    ControlError { code, message: String::from_str(message) }
}

/// The command error for an overlay state that could not be entered.
pub fn runtime_command_error(error: AccessError) -> (e: ControlError)
    ensures
        e.code == ErrorCode::InternalError,
        e.message@ == match error {
            AccessError::Busy => "overlay is already handling a window transition"@,
            AccessError::Unavailable => "overlay is unavailable"@,
        },
{
    let message = match error {
        AccessError::Busy => "overlay is already handling a window transition",
        AccessError::Unavailable => "overlay is unavailable",
    };
    control_error(ErrorCode::InternalError, message)
}

/// The command error for a foreground request that was not confirmed.
pub fn foreground_request_error(request: ForegroundRequest) -> (e: ControlError)
    ensures
        e.code == (if request == ForegroundRequest::TargetDisappeared {
            ErrorCode::TargetDisappeared
        } else {
            ErrorCode::ActivationFailed
        }),
        e.message@ == match request {
            ForegroundRequest::TargetDisappeared => "the target EQ window is no longer loaded"@,
            ForegroundRequest::TargetUnresponsive => "the target EQ window is not responding"@,
            ForegroundRequest::ForegroundDenied => "Windows did not bring the target EQ window to the foreground"@,
            ForegroundRequest::FocusDenied =>
                "Windows foregrounded the target EQ window but did not give it keyboard focus"@,
            ForegroundRequest::Confirmed => "the target EQ window activation failed"@,
        },
{
    match request {
        ForegroundRequest::TargetDisappeared => control_error(
            ErrorCode::TargetDisappeared,
            "the target EQ window is no longer loaded",
        ),
        ForegroundRequest::TargetUnresponsive => control_error(
            ErrorCode::ActivationFailed,
            "the target EQ window is not responding",
        ),
        ForegroundRequest::ForegroundDenied => control_error(
            ErrorCode::ActivationFailed,
            "Windows did not bring the target EQ window to the foreground",
        ),
        ForegroundRequest::FocusDenied => control_error(
            ErrorCode::ActivationFailed,
            "Windows foregrounded the target EQ window but did not give it keyboard focus",
        ),
        ForegroundRequest::Confirmed => control_error(
            ErrorCode::ActivationFailed,
            "the target EQ window activation failed",
        ),
    }
}

/// The first window carrying a stable number.
pub open spec fn first_numbered(ws: Seq<EqWindow>, number: usize, i: int) -> bool {
    0 <= i < ws.len() && ws[i].number == number && forall|k: int| 0 <= k < i ==> ws[k].number != number
}

/// The client of the first window with the given stable number (hotkeys
/// address windows by number).
pub fn pid_for_number(windows: &[EqWindow], number: usize) -> (r: Option<u32>)
    ensures
        match r {
            Some(pid) => exists|i: int| first_numbered(windows@, number, i) && windows@[i].pid == pid,
            None => forall|i: int| 0 <= i < windows@.len() ==> (#[trigger] windows@[i]).number != number,
        },
{
    let mut i: usize = 0;
    while i < windows.len()
        invariant
            0 <= i <= windows@.len(),
            forall|k: int| 0 <= k < i ==> (#[trigger] windows@[k]).number != number,
        decreases windows@.len() - i,
    {
        if windows[i].number == number {
            assert(first_numbered(windows@, number, i as int));
            return Some(windows[i].pid);
        }
        i = i + 1;
    }
    None
}

/// How an activation proceeds once the target is known.
#[derive(Clone, Copy, Debug, PartialEq, Eq, Structural)]
pub enum ActivationPlan {
    /// The target is already active: bring its window (this handle) to the
    /// foreground again.
    Reassert { hwnd: usize },
    /// The target is the PiP at this position: exchange it with the active
    /// client.
    Exchange { pip_index: usize },
}

/// Decide how to activate a client.
pub fn plan_activation(registry: &ClientRegistry, target_pid: u32) -> (r: Result<ActivationPlan, ControlError>)
    ensures
        !pids_of(registry.windows_seq()).contains(target_pid) ==> (r matches Err(e) && e.code
            == ErrorCode::TargetDisappeared && e.message@ == "the target is no longer loaded"@),
        pids_of(registry.windows_seq()).contains(target_pid) && registry.active() == Some(target_pid) ==> (r matches Ok(
            ActivationPlan::Reassert { hwnd },
        ) && exists|i: int| {
            &&& 0 <= i < registry.windows_seq().len()
            &&& (#[trigger] registry.windows_seq()[i]).pid == target_pid
            &&& (forall|k: int| 0 <= k < i ==> registry.windows_seq()[k].pid != target_pid)
            &&& registry.windows_seq()[i].hwnd == hwnd
        }),
        pids_of(registry.windows_seq()).contains(target_pid) && registry.active() != Some(target_pid)
            && registry.pip_seq().contains(target_pid) ==> (r matches Ok(ActivationPlan::Exchange { pip_index }) && {
            &&& pip_index < registry.pip_seq().len()
            &&& registry.pip_seq()[pip_index as int] == target_pid
            &&& forall|k: int| 0 <= k < pip_index ==> registry.pip_seq()[k] != target_pid
        }),
        pids_of(registry.windows_seq()).contains(target_pid) && registry.active() != Some(target_pid)
            && !registry.pip_seq().contains(target_pid) ==> (r matches Err(e) && e.code == ErrorCode::ActivationFailed
            && e.message@ == "the loaded client is outside the supported activation set"@),
{
    let windows = registry.windows();
    let index = match position_of(windows, target_pid) {
        Some(i) => i,
        None => return Err(control_error(ErrorCode::TargetDisappeared, "the target is no longer loaded")),
    };
    proof {
        assert(pids_of(windows@)[index as int] == target_pid);
    }
    match registry.active_pid() {
        Some(active) => {
            if active == target_pid {
                return Ok(ActivationPlan::Reassert { hwnd: windows[index].hwnd });
            }
        },
        None => {},
    }
    let pips = registry.pips();
    let mut k: usize = 0;
    while k < pips.len()
        invariant
            pids_of(registry.windows_seq()).contains(target_pid),
            registry.active() != Some(target_pid),
            pips@ == registry.pip_seq(),
            0 <= k <= pips@.len(),
            forall|j: int| 0 <= j < k ==> pips@[j] != target_pid,
        decreases pips@.len() - k,
    {
        if pips[k] == target_pid {
            return Ok(ActivationPlan::Exchange { pip_index: k });
        }
        k = k + 1;
    }
    Err(control_error(ErrorCode::ActivationFailed, "the loaded client is outside the supported activation set"))
}

/// The outcome of re-foregrounding the client that is already active.
pub fn already_active_outcome() -> (o: CommandOutcome)
    ensures
        o == (CommandOutcome::Activated { status: ActivationStatus::AlreadyActive, foreground_confirmed: true }),
{
    CommandOutcome::Activated { status: ActivationStatus::AlreadyActive, foreground_confirmed: true }
}

/// The outcome of a completed exchange.
pub fn activated_outcome() -> (o: CommandOutcome)
    ensures
        o == (CommandOutcome::Activated { status: ActivationStatus::Activated, foreground_confirmed: true }),
{
    CommandOutcome::Activated { status: ActivationStatus::Activated, foreground_confirmed: true }
}

/// Check an exchange target before asking for the foreground: the PiP at
/// `pip_index` (its pid and window handle).
pub fn exchange_target(registry: &ClientRegistry, pip_index: usize) -> (r: Result<(u32, usize), ControlError>)
    ensures
        pip_index >= registry.pip_seq().len() ==> (r matches Err(e) && e.code == ErrorCode::TargetDisappeared
            && e.message@ == "the target disappeared before activation"@),
        pip_index < registry.pip_seq().len() && registry.active() is None ==> (r matches Err(e) && e.code
            == ErrorCode::ActivationFailed && e.message@ == "there is no active EQ client to exchange"@),
        pip_index < registry.pip_seq().len() && registry.active() is Some && !pids_of(registry.windows_seq()).contains(
            registry.pip_seq()[pip_index as int],
        ) ==> (r matches Err(e) && e.code == ErrorCode::TargetDisappeared && e.message@
            == "the target disappeared before activation"@),
        pip_index < registry.pip_seq().len() && registry.active() is Some && pids_of(registry.windows_seq()).contains(
            registry.pip_seq()[pip_index as int],
        ) ==> (r matches Ok((pid, hwnd)) && pid == registry.pip_seq()[pip_index as int] && exists|i: int| {
            &&& 0 <= i < registry.windows_seq().len()
            &&& (#[trigger] registry.windows_seq()[i]).pid == pid
            &&& (forall|k: int| 0 <= k < i ==> registry.windows_seq()[k].pid != pid)
            &&& registry.windows_seq()[i].hwnd == hwnd
        }),
{
    let pid = match registry.pip_at(pip_index) {
        Some(pid) => pid,
        None => return Err(control_error(ErrorCode::TargetDisappeared, "the target disappeared before activation")),
    };
    if registry.active_pid().is_none() {
        return Err(control_error(ErrorCode::ActivationFailed, "there is no active EQ client to exchange"));
    }
    let windows = registry.windows();
    match position_of(windows, pid) {
        Some(i) => {
            proof {
                assert(pids_of(windows@)[i as int] == pid);
            }
            Ok((pid, windows[i].hwnd))
        },
        None => Err(control_error(ErrorCode::TargetDisappeared, "the target disappeared before activation")),
    }
}

/// Make the exchange target active in the partition, once its window holds
/// the foreground. Returns the partition before the change, to restore if the
/// foreground is lost again before the change is published.
pub fn commit_activation(registry: &mut ClientRegistry, new_active_pid: u32) -> (r: Result<ClientPartition, ControlError>)
    requires
        old(registry).pip_seq().contains(new_active_pid),
        old(registry).active() is Some,
        old(registry).active() != Some(new_active_pid),
    ensures
        r matches Ok(previous) && previous.active_pid == old(registry).active() && previous.pip_order@ == old(
            registry,
        ).pip_seq(),
        (final(registry).active(), final(registry).pip_seq()) == exchanged(
            old(registry).active(),
            old(registry).pip_seq(),
            new_active_pid,
        ),
        final(registry).windows_seq() == old(registry).windows_seq(),
        final(registry).observed() == old(registry).observed(),
        final(registry).preferred_seq() == old(registry).preferred_seq(),
        old(registry).wf() ==> final(registry).wf(),
        old(registry).partition_valid() ==> final(registry).partition_valid(),
{
    let previous = registry.snapshot_partition();
    if !registry.promote(new_active_pid, MAX_PIPS) {
        return Err(control_error(ErrorCode::InternalError, "the active/PiP partition changed during activation"));
    }
    Ok(previous)
}

/// Undoing an activation: restoring the partition that `commit_activation`
/// returned gives back exactly the partition before it.
pub proof fn law_activation_rollback(before: ClientRegistry, after: ClientRegistry, restored: ClientRegistry, previous: ClientPartition)
    requires
        previous.active_pid == before.active(),
        previous.pip_order@ == before.pip_seq(),
        after.windows_seq() == before.windows_seq(),
        restored.active() == previous.active_pid,
        restored.pip_seq() == previous.pip_order@,
        restored.windows_seq() == after.windows_seq(),
    ensures
        restored.active() == before.active(),
        restored.pip_seq() == before.pip_seq(),
        restored.windows_seq() == before.windows_seq(),
{
}

/// The toast after an exchange: `Swapped to #<number> <name>`, or
/// `Swapped to #<number>` while the client has no known character.
pub open spec fn activation_toast(w: EqWindow) -> Seq<char> {
    match w.character {
        Some(name) => "Swapped to #"@ + decimal(w.number as nat) + " "@ + name@,
        None => "Swapped to #"@ + decimal(w.number as nat),
    }
}

/// The toast text for the newly active client, read after the exchange.
pub fn activated_toast(registry: &ClientRegistry, pid: u32) -> (r: Result<String, ControlError>)
    ensures
        !pids_of(registry.windows_seq()).contains(pid) ==> (r matches Err(e) && e.code == ErrorCode::TargetDisappeared
            && e.message@ == "the target disappeared during activation"@),
        pids_of(registry.windows_seq()).contains(pid) ==> (r matches Ok(text) && exists|i: int| {
            &&& 0 <= i < registry.windows_seq().len()
            &&& (#[trigger] registry.windows_seq()[i]).pid == pid
            &&& (forall|k: int| 0 <= k < i ==> registry.windows_seq()[k].pid != pid)
            &&& text@ == activation_toast(registry.windows_seq()[i])
        }),
{
    let windows = registry.windows();
    match position_of(windows, pid) {
        Some(i) => {
            proof {
                assert(pids_of(windows@)[i as int] == pid);
            }
            let w = &windows[i];
            let mut text = String::from_str("Swapped to #");
            push_decimal(&mut text, w.number as u64);
            match &w.character {
                Some(name) => {
                    text.append(" ");
                    text.append(name.as_str());
                },
                None => {},
            }
            proof {
                assert(text@ =~= activation_toast(windows@[i as int]));
            }
            Ok(text)
        },
        None => Err(control_error(ErrorCode::TargetDisappeared, "the target disappeared during activation")),
    }
}

/// The toast after two clients exchanged window numbers.
pub open spec fn number_swap_toast(first: usize, second: usize) -> Seq<char> {
    "Swapped window numbers #"@ + decimal(first as nat) + " and #"@ + decimal(second as nat)
}

/// Exchange the active client's window number with that of a selected
/// client; the foreground does not change. On success returns the numbers
/// before the exchange and, when two different clients exchanged, the toast
/// to show (after which, with automatic ordering on, the PiPs are ordered by
/// their new numbers).
pub fn swap_active_window_numbers(registry: &mut ClientRegistry, target_pid: u32, auto_order: bool) -> (r: Result<
    (CommandOutcome, Option<String>),
    ControlError,
>)
    ensures
        old(registry).active() is None ==> (r matches Err(e) && e.code == ErrorCode::WindowNumberSwapFailed
            && e.message@ == "there is no active EQ client whose window number can be swapped"@),
        old(registry).active() is Some && !pids_of(old(registry).windows_seq()).contains(target_pid) ==> (r matches Err(
            e,
        ) && e.code == ErrorCode::TargetDisappeared && e.message@ == "the selected EQ window is no longer loaded"@),
        old(registry).active() matches Some(a) && pids_of(old(registry).windows_seq()).contains(target_pid)
            && !pids_of(old(registry).windows_seq()).contains(a) ==> (r matches Err(e) && e.code
            == ErrorCode::WindowNumberSwapFailed && e.message@ == "the active EQ window is no longer loaded"@),
        r is Err ==> final(registry).windows_seq() == old(registry).windows_seq() && final(registry).pip_seq()
            == old(registry).pip_seq(),
        r matches Ok((outcome, toast)) ==> {
            let a = old(registry).active().unwrap();
            &&& outcome matches CommandOutcome::WindowNumbersSwapped {
                active_previous_number,
                selected_previous_number,
            }
            &&& numbers_exchanged(
                old(registry).windows_seq(),
                final(registry).windows_seq(),
                a,
                target_pid,
                Some((active_previous_number, selected_previous_number)),
            )
            &&& (a == target_pid ==> toast is None && final(registry).pip_seq() == old(registry).pip_seq())
            &&& (a != target_pid ==> (toast matches Some(t) && t@ == number_swap_toast(
                active_previous_number,
                selected_previous_number,
            )))
            &&& (a != target_pid && auto_order ==> final(registry).pip_seq() == crate::sorting::stable_sort(
                old(registry).pip_seq(),
                crate::clients::pip_number_order(final(registry).windows_seq()),
            ))
            &&& (!auto_order ==> final(registry).pip_seq() == old(registry).pip_seq())
        },
        final(registry).active() == old(registry).active(),
        pids_of(final(registry).windows_seq()) == pids_of(old(registry).windows_seq()),
        final(registry).observed() == old(registry).observed(),
        final(registry).preferred_seq() == old(registry).preferred_seq(),
        old(registry).wf() ==> final(registry).wf(),
        old(registry).partition_valid() ==> final(registry).partition_valid(),
{
    let active_pid = match registry.active_pid() {
        Some(a) => a,
        None => return Err(
            control_error(
                ErrorCode::WindowNumberSwapFailed,
                "there is no active EQ client whose window number can be swapped",
            ),
        ),
    };
    match position_of(registry.windows(), target_pid) {
        Some(i) => {
            proof {
                assert(pids_of(registry.windows_seq())[i as int] == target_pid);
            }
        },
        None => return Err(control_error(ErrorCode::TargetDisappeared, "the selected EQ window is no longer loaded")),
    }
    let (active_previous_number, selected_previous_number) = match registry.exchange_numbers(active_pid, target_pid) {
        Some(numbers) => numbers,
        None => return Err(
            control_error(ErrorCode::WindowNumberSwapFailed, "the active EQ window is no longer loaded"),
        ),
    };
    let mut toast = None;
    if active_pid != target_pid {
        if auto_order {
            registry.apply_auto_order();
        }
        let mut text = String::from_str("Swapped window numbers #");
        push_decimal(&mut text, active_previous_number as u64);
        text.append(" and #");
        push_decimal(&mut text, selected_previous_number as u64);
        proof {
            assert(text@ =~= number_swap_toast(active_previous_number, selected_previous_number));
        }
        toast = Some(text);
    }
    Ok((CommandOutcome::WindowNumbersSwapped { active_previous_number, selected_previous_number }, toast))
}

/// Follow a client that took the keyboard focus: promote it into the active
/// partition and, when that changed the partition and automatic ordering is
/// on, order the PiPs by window number. Returns whether the partition
/// changed.
pub fn follow_foreground(registry: &mut ClientRegistry, foreground_pid: u32, auto_order: bool) -> (changed: bool)
    ensures
        pids_of(final(registry).windows_seq()) == pids_of(old(registry).windows_seq()),
        final(registry).windows_seq() == old(registry).windows_seq(),
        changed == (old(registry).active() != Some(foreground_pid) && pids_of(old(registry).windows_seq()).contains(
            foreground_pid,
        ) || old(registry).active() != Some(foreground_pid) && old(registry).pip_seq().contains(foreground_pid)),
        changed ==> final(registry).active() == Some(foreground_pid),
        !changed ==> final(registry).active() == old(registry).active() && final(registry).pip_seq() == old(
            registry,
        ).pip_seq(),
        final(registry).observed() == old(registry).observed(),
        final(registry).preferred_seq() == old(registry).preferred_seq(),
        old(registry).wf() ==> final(registry).wf(),
        old(registry).partition_valid() ==> final(registry).partition_valid(),
{
    let changed = registry.promote(foreground_pid, MAX_PIPS);
    if changed && auto_order {
        registry.apply_auto_order();
    }
    changed
}


/// The first checks of confirming a foreground window: a vanished window has
/// disappeared, another foreground window denies the request, and a window
/// that holds the keyboard focus is confirmed. `None`: the focus must be
/// repaired first.
pub fn confirm_precheck(is_window: bool, foreground_is_target: bool, has_focus: bool) -> (r: Option<ForegroundRequest>)
    ensures
        r == (if !is_window {
            Some(ForegroundRequest::TargetDisappeared)
        } else if !foreground_is_target {
            Some(ForegroundRequest::ForegroundDenied)
        } else if has_focus {
            Some(ForegroundRequest::Confirmed)
        } else {
            None
        }),
{
    if !is_window {
        Some(ForegroundRequest::TargetDisappeared)
    } else if !foreground_is_target {
        Some(ForegroundRequest::ForegroundDenied)
    } else if has_focus {
        Some(ForegroundRequest::Confirmed)
    } else {
        None
    }
}

/// A window that does not answer: unresponsive while it exists, else gone.
pub fn unresponsive_outcome(is_window: bool) -> (r: ForegroundRequest)
    ensures
        r == (if is_window { ForegroundRequest::TargetUnresponsive } else { ForegroundRequest::TargetDisappeared }),
{
    if is_window {
        ForegroundRequest::TargetUnresponsive
    } else {
        ForegroundRequest::TargetDisappeared
    }
}

/// A foreground change that Windows refused: denied while the window exists,
/// else gone.
pub fn denied_or_disappeared(is_window: bool) -> (r: ForegroundRequest)
    ensures
        r == (if is_window { ForegroundRequest::ForegroundDenied } else { ForegroundRequest::TargetDisappeared }),
{
    if is_window {
        ForegroundRequest::ForegroundDenied
    } else {
        ForegroundRequest::TargetDisappeared
    }
}

/// The outcome once the keyboard focus was repaired (or not).
pub fn focus_repair_outcome(repaired: bool, is_window: bool, foreground_is_target: bool) -> (r: ForegroundRequest)
    ensures
        r == (if repaired {
            ForegroundRequest::Confirmed
        } else if !is_window {
            ForegroundRequest::TargetDisappeared
        } else if !foreground_is_target {
            ForegroundRequest::ForegroundDenied
        } else {
            ForegroundRequest::FocusDenied
        }),
{
    if repaired {
        ForegroundRequest::Confirmed
    } else if !is_window {
        ForegroundRequest::TargetDisappeared
    } else if !foreground_is_target {
        ForegroundRequest::ForegroundDenied
    } else {
        ForegroundRequest::FocusDenied
    }
}

} // verus!
