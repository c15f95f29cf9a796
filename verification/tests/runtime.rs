use stonemite::client_controller::AccessError;
use stonemite::runtime::RuntimeFlags;

#[test]
fn nested_busy_gate_is_rejected_and_restored() {
    let mut runtime = RuntimeFlags::new();
    assert!(runtime.try_enter().is_ok());
    assert_eq!(runtime.try_enter().err(), Some(AccessError::Busy));
    runtime.leave();
    assert!(runtime.try_enter().is_ok());
}

#[test]
fn uninitialized_runtime_is_unavailable() {
    let mut runtime = RuntimeFlags::new();
    assert_eq!(runtime.enter_state(false).err(), Some(AccessError::Unavailable));
    assert_eq!(runtime.enter_state(false).err(), Some(AccessError::Unavailable));
    assert!(!runtime.is_busy());
}

#[test]
fn redraw_requests_coalesce_until_taken() {
    let mut runtime = RuntimeFlags::new();
    let hwnd: isize = 0x1234;
    runtime.clear_redraw_request(hwnd);
    assert!(runtime.mark_redraw_requested(hwnd));
    assert!(!runtime.mark_redraw_requested(hwnd));
    assert!(runtime.has_redraw_request(hwnd));
    assert!(runtime.take_redraw_request(hwnd));
    assert!(!runtime.has_redraw_request(hwnd));
    assert!(!runtime.mark_redraw_requested(0));
}

#[test]
fn installed_state_is_entered_once() {
    let mut runtime = RuntimeFlags::new();
    assert!(runtime.enter_state(true).is_ok());
    assert_eq!(runtime.enter_state(true).err(), Some(AccessError::Busy));
    runtime.leave();
    assert!(!runtime.is_busy());
}

#[test]
fn one_recovery_is_posted_and_serviced_at_a_time() {
    let mut runtime = RuntimeFlags::new();
    assert!(runtime.claim_recovery_post());
    assert!(!runtime.claim_recovery_post());
    assert!(runtime.begin_recovery());
    assert!(runtime.recovery_is_running());
    assert!(!runtime.begin_recovery());
    // Servicing consumed the posted message.
    assert!(runtime.claim_recovery_post());
    runtime.end_recovery();
    assert!(!runtime.recovery_is_running());
    runtime.mark_redraw_requested(7);
    runtime.reset_after_shutdown();
    assert!(!runtime.has_redraw_request(7));
}
