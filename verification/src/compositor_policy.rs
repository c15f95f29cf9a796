//! How the compositor treats failures: which errors mean the device is lost,
//! which error a failed frame reports, and the transactions that leave the
//! authoritative state untouched unless the graphics commit succeeded.

use std::collections::HashMap;
use vstd::prelude::*;
use vstd::string::StringExecFns;

verus! {

/// `D2DERR_RECREATE_TARGET`
pub const D2DERR_RECREATE_TARGET: i32 = -2003238900;
/// `DXGI_ERROR_DEVICE_HUNG`
pub const DXGI_ERROR_DEVICE_HUNG: i32 = -2005270522;
/// `DXGI_ERROR_DEVICE_REMOVED`
pub const DXGI_ERROR_DEVICE_REMOVED: i32 = -2005270523;
/// `DXGI_ERROR_DEVICE_RESET`
pub const DXGI_ERROR_DEVICE_RESET: i32 = -2005270521;
/// `DXGI_ERROR_DRIVER_INTERNAL_ERROR`
pub const DXGI_ERROR_DRIVER_INTERNAL_ERROR: i32 = -2005270496;
/// `RPC_E_WRONG_THREAD`
pub const RPC_E_WRONG_THREAD: i32 = -2147417842;
/// `E_FAIL`
pub const E_FAIL: i32 = -2147467259;
/// `E_INVALIDARG`
pub const E_INVALIDARG: i32 = -2147024809;

/// A failed graphics operation: its HRESULT and a description.
#[derive(Debug)]
pub struct CompositorError {
    pub code: i32,
    pub message: String,
}

impl CompositorError {
    pub fn new(code: i32, message: &str) -> (e: CompositorError)
        ensures
            e.code == code,
            e.message@ == message@,
    {
        CompositorError { code, message: String::from_str(message) }
    }
}

#[derive(Clone, Copy, Debug, PartialEq, Eq, Structural)]
pub enum FailureClass {
    DeviceLost,
    Other,
}

#[derive(Clone, Copy, Debug, PartialEq, Eq, Structural)]
pub enum FailureAction {
    RecoverDevice,
    PreserveGraph,
}

/// The HRESULTs after which the device and every target must be recreated.
pub open spec fn device_lost(code: i32) -> bool {
    code == D2DERR_RECREATE_TARGET || code == DXGI_ERROR_DEVICE_HUNG || code == DXGI_ERROR_DEVICE_REMOVED
        || code == DXGI_ERROR_DEVICE_RESET || code == DXGI_ERROR_DRIVER_INTERNAL_ERROR
}

pub fn classify_hresult(code: i32) -> (c: FailureClass)
    ensures
        c == (if device_lost(code) { FailureClass::DeviceLost } else { FailureClass::Other }),
{
    if code == D2DERR_RECREATE_TARGET || code == DXGI_ERROR_DEVICE_HUNG || code == DXGI_ERROR_DEVICE_REMOVED
        || code == DXGI_ERROR_DEVICE_RESET || code == DXGI_ERROR_DRIVER_INTERNAL_ERROR {
        FailureClass::DeviceLost
    } else {
        FailureClass::Other
    }
}

/// Device loss recreates the device; any other failure keeps the visual
/// graph as it is.
pub fn failure_action(error: &CompositorError) -> (a: FailureAction)
    ensures
        a == (if device_lost(error.code) { FailureAction::RecoverDevice } else { FailureAction::PreserveGraph }),
{
    match classify_hresult(error.code) {
        FailureClass::DeviceLost => FailureAction::RecoverDevice,
        FailureClass::Other => FailureAction::PreserveGraph,
    }
}

/// An operation that triggered a recovery still fails: with the recovery's
/// own error when that failed too, else with the original error, so the
/// caller redraws every role from scratch.
pub fn recovered_operation_result(
    original_error: CompositorError,
    recovery: Result<(), CompositorError>,
) -> (r: Result<(), CompositorError>)
    ensures
        r is Err,
        r->Err_0 == (match recovery {
            Ok(()) => original_error,
            Err(e) => e,
        }),
{
    match recovery {
        Ok(()) => Err(original_error),
        Err(recovery_error) => Err(recovery_error),
    }
}

/// The compositor is used only from the thread that created it.
pub fn check_thread(owner_thread_id: u32, current_thread_id: u32) -> (r: Result<(), CompositorError>)
    ensures
        r is Ok <==> owner_thread_id == current_thread_id,
        r matches Err(e) ==> e.code == RPC_E_WRONG_THREAD,
{
    if owner_thread_id == current_thread_id {
        Ok(())
    } else {
        let mut message = String::from_str("DirectComposition compositor belongs to thread ");
        crate::text::push_decimal(&mut message, owner_thread_id as u64);
        message.append(", called from ");
        crate::text::push_decimal(&mut message, current_thread_id as u64);
        Err(CompositorError { code: RPC_E_WRONG_THREAD, message })
    }
}

/// An error described within its context, keeping its code.
pub fn error_context(context: &str, error: CompositorError) -> (e: CompositorError)
    ensures
        e.code == error.code,
        e.message@ == context@ + ": "@ + error.message@,
{
    let mut message = String::from_str(context);
    message.append(": ");
    message.append(error.message.as_str());
    CompositorError { code: error.code, message }
}

/// Surfaces are at least one physical pixel each way.
pub fn physical_size(width: u32, height: u32) -> (r: (u32, u32))
    ensures
        r.0 == (if width >= 1 { width } else { 1 }),
        r.1 == (if height >= 1 { height } else { 1 }),
{
    (if width >= 1 { width } else { 1 }, if height >= 1 { height } else { 1 })
}

/// Which error a failed frame reports: the failed step's own; when both the
/// drawing and the end of drawing failed, the end's error where it reports
/// device loss (so that loss is never masked), else the drawing's.
pub open spec fn frame_failure(draw_error: Option<i32>, end_draw_error: Option<i32>) -> Option<i32> {
    match (draw_error, end_draw_error) {
        (None, None) => None,
        (Some(d), None) => Some(d),
        (None, Some(e)) => Some(e),
        (Some(d), Some(e)) => if device_lost(e) { Some(e) } else { Some(d) },
    }
}

pub open spec fn err_code(r: Result<(), CompositorError>) -> Option<i32> {
    match r {
        Ok(()) => None,
        Err(e) => Some(e.code),
    }
}

/// Present only a frame whose drawing and end of drawing both succeeded.
pub fn publish_completed_frame<F: FnOnce() -> Result<(), CompositorError>>(
    draw_result: Result<(), CompositorError>,
    end_draw_result: Result<(), CompositorError>,
    present: F,
) -> (r: Result<(), CompositorError>)
    requires
        draw_result is Ok && end_draw_result is Ok ==> present.requires(()),
    ensures
        draw_result is Ok && end_draw_result is Ok ==> present.ensures((), r),
        !(draw_result is Ok && end_draw_result is Ok) ==> err_code(r) == frame_failure(
            err_code(draw_result),
            err_code(end_draw_result),
        ),
{
    match (draw_result, end_draw_result) {
        (Ok(()), Ok(())) => present(),
        (Err(draw_error), Ok(())) => Err(draw_error),
        (Ok(()), Err(end_draw_error)) => Err(end_draw_error),
        (Err(draw_error), Err(end_draw_error)) => {
            if classify_hresult(end_draw_error.code) == FailureClass::DeviceLost {
                Err(end_draw_error)
            } else {
                Err(draw_error)
            }
        },
    }
}

/// When a commit failed and restoring the prior content failed too, the
/// visual tree is indeterminate: report it as needing a new target.
pub fn rollback_recovery_error(commit_error: &CompositorError, rollback_error: &CompositorError) -> (e: CompositorError)
    ensures
        e.code == D2DERR_RECREATE_TARGET,
        device_lost(e.code),
{
    let mut message = String::from_str("composition commit failed (");
    message.append(commit_error.message.as_str());
    message.append(") and restoring the prior visual content failed (");
    message.append(rollback_error.message.as_str());
    message.append("); recreate the target");
    CompositorError { code: D2DERR_RECREATE_TARGET, message }
}

/// Register a prepared value only when preparing it succeeded.
pub fn insert_after_prepare<K: std::hash::Hash + Eq, V, F: FnOnce() -> Result<V, CompositorError>>(
    registrations: &mut HashMap<K, V>,
    key: K,
    prepare: F,
) -> (r: Result<(), CompositorError>)
    requires
        vstd::std_specs::hash::obeys_key_model::<K>(),
        prepare.requires(()),
    ensures
        exists|p: Result<V, CompositorError>| {
            &&& #[trigger] prepare.ensures((), p)
            &&& match p {
                Ok(v) => r is Ok && final(registrations)@ == old(registrations)@.insert(key, v),
                Err(e) => r == Err::<(), CompositorError>(e) && final(registrations)@ == old(registrations)@,
            }
        },
{
    let prepared = prepare();
    match prepared {
        Ok(v) => {
            registrations.insert(key, v);
            Ok(())
        },
        Err(e) => Err(e),
    }
}

/// Unregister a value only after its detach committed; a missing key is
/// no error.
pub fn remove_after_commit<K: std::hash::Hash + Eq, V, F: FnOnce(&V) -> Result<(), CompositorError>>(
    registrations: &mut HashMap<K, V>,
    key: &K,
    commit: F,
) -> (r: Result<Option<V>, CompositorError>)
    requires
        vstd::std_specs::hash::obeys_key_model::<K>(),
        vstd::std_specs::hash::builds_valid_hashers::<std::collections::hash_map::RandomState>(),
        forall|v: &V| commit.requires((v,)),
    ensures
        !old(registrations)@.contains_key(*key) ==> (r matches Ok(None) && final(registrations)@ == old(registrations)@),
        old(registrations)@.contains_key(*key) ==> exists|c: Result<(), CompositorError>| {
            &&& #[trigger] commit.ensures((&old(registrations)@[*key],), c)
            &&& match c {
                Ok(()) => r == Ok::<Option<V>, CompositorError>(Some(old(registrations)@[*key]))
                    && final(registrations)@ == old(registrations)@.remove(*key),
                Err(e) => r == Err::<Option<V>, CompositorError>(e) && final(registrations)@ == old(registrations)@,
            }
        },
{
    let committed = match registrations.get(key) {
        None => return Ok(None),
        Some(registration) => commit(registration),
    };
    match committed {
        Ok(()) => Ok(registrations.remove(key)),
        Err(e) => Err(e),
    }
}

/// Replace a value only after the commit from the current to the
/// replacement succeeded.
pub fn replace_after_commit<T, F: FnOnce(&T, &T) -> Result<(), CompositorError>>(
    current: &mut T,
    replacement: T,
    commit: F,
) -> (r: Result<(), CompositorError>)
    requires
        commit.requires((&*old(current), &replacement)),
    ensures
        commit.ensures((&*old(current), &replacement), r),
        r is Ok ==> *final(current) == replacement,
        r is Err ==> *final(current) == *old(current),
{
    let committed = commit(current, &replacement);
    if committed.is_ok() {
        *current = replacement;
    }
    committed
}

/// Whether a replacement swap chain has presented a complete frame.
#[derive(Clone, Copy, Debug, PartialEq, Eq, Structural)]
pub struct FrameReadiness {
    pub presented: bool,
}

impl FrameReadiness {
    pub fn new() -> (f: FrameReadiness)
        ensures
            !f.presented,
    {
        FrameReadiness { presented: false }
    }

    pub fn mark_presented(&mut self)
        ensures
            final(self).presented,
    {
        self.presented = true;
    }

    /// A swap chain is shown only after a complete frame was presented.
    pub fn require_presented(self) -> (r: Result<(), CompositorError>)
        ensures
            r is Ok <==> self.presented,
            r matches Err(e) ==> e.code == E_INVALIDARG,
    {
        if self.presented {
            Ok(())
        } else {
            Err(CompositorError::new(E_INVALIDARG, "replacement swap chain has no complete presented frame"))
        }
    }
}

} // verus!
