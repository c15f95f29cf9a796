use stonemite::casting::{
    active_cast_visible, base_duration_ms, is_owned_heal, should_train, terminal_fade_start_ms, terminal_visible,
    CastingOutcome,
};
use stonemite::compositor_policy::{
    check_thread, classify_hresult, error_context, failure_action, insert_after_prepare, physical_size, publish_completed_frame,
    recovered_operation_result, remove_after_commit, replace_after_commit, rollback_recovery_error, CompositorError,
    FailureAction, FailureClass, FrameReadiness, D2DERR_RECREATE_TARGET, DXGI_ERROR_DEVICE_HUNG,
    DXGI_ERROR_DEVICE_REMOVED, DXGI_ERROR_DEVICE_RESET, DXGI_ERROR_DRIVER_INTERNAL_ERROR, E_FAIL, RPC_E_WRONG_THREAD,
};
use stonemite::event_loop::should_disable_broadcast_when_clients_exit;
use stonemite::log_sources::{parse_u32_from, pid_for_log_source, pid_source_id};
use stonemite::clients::EqWindow;
use stonemite::log_events::LogSource;
use stonemite::scope::PresentationTarget;
use stonemite::timer_controller::{format_remaining, owner_labels, redraw_targets, PipLabel};
use stonemite::timers::{TimerFrame, TimerOverlayState, TimerSnapshot};
use std::cell::Cell;
use std::collections::HashMap;

#[test]
fn countdown_rounds_up_to_the_next_tenth() {
    assert_eq!(format_remaining(10_000), "10.0s");
    assert_eq!(format_remaining(9_901), "10.0s");
    assert_eq!(format_remaining(9_900), "9.9s");
    assert_eq!(format_remaining(1), "0.1s");
    assert_eq!(format_remaining(0), "0.0s");
    assert_eq!(format_remaining(123_456), "123.5s");
}

#[test]
fn expiry_redraws_every_pip_after_visible_owners_are_empty() {
    let active = 1usize;
    let first_pip = 2usize;
    let expired_owner = 3usize;
    assert_eq!(redraw_targets(true, active, &[first_pip, expired_owner], &[], &[]), vec![first_pip, expired_owner]);
    assert_eq!(
        redraw_targets(false, active, &[first_pip, expired_owner], &[expired_owner], &[expired_owner]),
        vec![expired_owner]
    );
}

#[test]
fn redraw_targets_skip_invalid_windows_and_the_expired_active_label() {
    assert_eq!(redraw_targets(true, 2, &[0, 2, 3, 3], &[], &[]), vec![3]);
    assert_eq!(redraw_targets(false, 2, &[], &[0, 2], &[2, 4]), vec![2, 4]);
}

#[test]
fn timer_owners_are_the_labels_that_show_a_timer() {
    let mut timers = TimerOverlayState::new();
    timers.replace_frame(&TimerFrame {
        origin_ms: 1_000,
        snapshots: vec![TimerSnapshot {
            character: "pid:7".to_owned(),
            display_name: "Mez".to_owned(),
            begin_ms: 0,
            end_ms: 10_000,
            duration_ms: 10_000,
            target: PresentationTarget::Source,
            warned: false,
        }],
    });
    let pips = [PipLabel { pid: 7, label_hwnd: 70 }, PipLabel { pid: 8, label_hwnd: 80 }];
    assert_eq!(owner_labels(&timers, Some(9), 1, &pips, 1_000), vec![70]);
    assert_eq!(owner_labels(&timers, Some(7), 1, &[], 1_000), vec![1]);
    assert!(owner_labels(&timers, Some(7), 1, &pips, 20_000).is_empty());
}

#[test]
fn pid_source_ids_read_back_as_their_process() {
    let id = pid_source_id(4_294_967_295);
    assert_eq!(id, "pid:4294967295");
    assert_eq!(parse_u32_from(&id, 4), Some(4_294_967_295));
    assert_eq!(pid_source_id(0), "pid:0");
    assert_eq!(parse_u32_from("pid:+12", 4), Some(12));
    assert_eq!(parse_u32_from("pid:4294967296", 4), None);
    assert_eq!(parse_u32_from("pid:", 4), None);
    assert_eq!(parse_u32_from("pid:1x", 4), None);
}

fn window(pid: u32) -> EqWindow {
    EqWindow {
        hwnd: 0,
        pid,
        number: pid as usize,
        character: Some("Bilka".to_owned()),
        server: Some("Xegony".to_owned()),
        class: None,
    }
}

#[test]
fn exact_pid_sources_fail_closed_when_stale_and_legacy_identity_is_unambiguous() {
    let windows = [window(7)];
    let stale_exact = LogSource { id: "pid:8".to_owned(), character: "Bilka".to_owned(), server: "Xegony".to_owned() };
    assert_eq!(pid_for_log_source(&windows, &stale_exact), None);

    let legacy = LogSource { id: "legacy".to_owned(), character: "bilka".to_owned(), server: "xegony".to_owned() };
    assert_eq!(pid_for_log_source(&windows, &legacy), Some(7));
    assert_eq!(pid_for_log_source(&[window(7), window(8)], &legacy), None);

    let exact = LogSource { id: "pid:7".to_owned(), character: "Other".to_owned(), server: "x".to_owned() };
    assert_eq!(pid_for_log_source(&windows, &exact), Some(7));
}

#[test]
fn broadcast_shutoff_only_runs_when_the_last_client_exits() {
    assert!(should_disable_broadcast_when_clients_exit(true, 1, 0));
    assert!(should_disable_broadcast_when_clients_exit(true, 6, 0));
    assert!(!should_disable_broadcast_when_clients_exit(false, 1, 0));
    assert!(!should_disable_broadcast_when_clients_exit(true, 2, 1));
    assert!(!should_disable_broadcast_when_clients_exit(true, 0, 0));
}

#[test]
fn owned_heals_match_only_the_active_spell() {
    assert!(is_owned_heal("You healed Bilka for 500 hit points by Complete Heal. (Critical)", "Complete Heal"));
    assert!(!is_owned_heal("Tolzol healed Bilka for 500 hit points by Complete Heal.", "Complete Heal"));
}

#[test]
fn owned_heals_ignore_case_and_trailing_dots() {
    assert!(is_owned_heal("You healed yourself for 10 hit points by complete heal...", "Complete Heal"));
    assert!(!is_owned_heal("You healed Bilka for 500 hit points by Superior Healing.", "Complete Heal"));
    assert!(!is_owned_heal("You healed Bilka for 500 hit points.", "Complete Heal"));
}

#[test]
fn casting_windows_follow_the_outcome() {
    assert_eq!(CastingOutcome::Interrupted.label(), "INTERRUPTED");
    assert_eq!(CastingOutcome::Completed.linger_ms(), 420);
    assert!(CastingOutcome::Resisted.fills());
    assert!(!CastingOutcome::Fizzled.fills());
    assert!(terminal_visible(759, CastingOutcome::Fizzled));
    assert!(!terminal_visible(760, CastingOutcome::Fizzled));
    assert_eq!(terminal_fade_start_ms(CastingOutcome::Completed), 240);
    assert!(active_cast_visible(1_749, 1_000));
    assert!(!active_cast_visible(1_750, 1_000));
    assert!(should_train(true, 120_000));
    assert!(!should_train(true, 0));
    assert!(!should_train(false, 5));
    assert_eq!(base_duration_ms(10_000, Some("brd")), 3_000);
    assert_eq!(base_duration_ms(0, Some("BRD")), 0);
    assert_eq!(base_duration_ms(10_000, Some("CLR")), 10_000);
}

fn error(code: i32, message: &str) -> CompositorError {
    CompositorError::new(code, message)
}

#[test]
fn zero_sized_requests_are_normalized_to_nonzero_physical_pixels() {
    assert_eq!(physical_size(0, 0), (1, 1));
    assert_eq!(physical_size(20, 0), (20, 1));
}

#[test]
fn failed_registration_prepare_does_not_mutate_healthy_registrations() {
    let mut registrations = HashMap::from([(1_u32, "healthy")]);
    let result = insert_after_prepare(&mut registrations, 2, || {
        Err::<&str, _>(error(E_FAIL, "ordinary target creation failure"))
    });
    assert!(result.is_err());
    assert_eq!(registrations, HashMap::from([(1_u32, "healthy")]));
}

#[test]
fn failed_unregister_commit_preserves_authoritative_registration() {
    let mut registrations = HashMap::from([(7_u32, "attached resources")]);
    let result = remove_after_commit(&mut registrations, &7, |_| Err(error(E_FAIL, "detach commit failed")));
    assert!(result.is_err());
    assert_eq!(registrations.get(&7), Some(&"attached resources"));

    let removed = remove_after_commit(&mut registrations, &7, |_| Ok(())).expect("successful detach transaction");
    assert_eq!(removed, Some("attached resources"));
    assert!(!registrations.contains_key(&7));
}

#[test]
fn failed_draw_or_end_draw_never_reaches_present() {
    let present_calls = Cell::new(0);
    let draw_failure = publish_completed_frame(Err(error(E_FAIL, "draw failed")), Ok(()), || {
        present_calls.set(present_calls.get() + 1);
        Ok(())
    });
    assert!(draw_failure.is_err());
    assert_eq!(present_calls.get(), 0);

    let end_draw_failure = publish_completed_frame(Ok(()), Err(error(E_FAIL, "EndDraw failed")), || {
        present_calls.set(present_calls.get() + 1);
        Ok(())
    });
    assert!(end_draw_failure.is_err());
    assert_eq!(present_calls.get(), 0);

    let combined_failure = publish_completed_frame(
        Err(error(E_FAIL, "draw failed")),
        Err(error(D2DERR_RECREATE_TARGET, "")),
        || {
            present_calls.set(present_calls.get() + 1);
            Ok(())
        },
    )
    .expect_err("device loss from EndDraw must not be masked by the draw error");
    assert_eq!(combined_failure.code, D2DERR_RECREATE_TARGET);
    assert_eq!(present_calls.get(), 0);

    let presented = publish_completed_frame(Ok(()), Ok(()), || {
        present_calls.set(present_calls.get() + 1);
        Ok(())
    });
    assert!(presented.is_ok());
    assert_eq!(present_calls.get(), 1);
}

#[test]
fn detached_resize_commit_failure_preserves_buffer_and_dimensions() {
    let mut readiness = FrameReadiness::new();
    assert!(readiness.require_presented().is_err());
    readiness.mark_presented();
    assert!(readiness.require_presented().is_ok());

    let mut authoritative = (64_u32, 48_u32, "old resources");
    let result = replace_after_commit(&mut authoritative, (128, 80, "replacement resources"), |_, _| {
        Err(error(E_FAIL, "commit failed"))
    });
    assert!(result.is_err());
    assert_eq!(authoritative, (64, 48, "old resources"));

    let result = replace_after_commit(&mut authoritative, (128, 80, "replacement resources"), |_, _| Ok(()));
    assert!(result.is_ok());
    assert_eq!(authoritative, (128, 80, "replacement resources"));
}

#[test]
fn ui_thread_check_rejects_a_different_thread_id() {
    assert!(check_thread(42, 42).is_ok());
    let error = check_thread(42, 99).expect_err("wrong thread must fail closed");
    assert_eq!(error.code, RPC_E_WRONG_THREAD);
    assert_eq!(error.message, "DirectComposition compositor belongs to thread 42, called from 99");
}

#[test]
fn classifies_only_target_and_device_loss_hresult_values_as_device_loss() {
    assert_eq!(classify_hresult(D2DERR_RECREATE_TARGET), FailureClass::DeviceLost);
    assert_eq!(classify_hresult(DXGI_ERROR_DEVICE_HUNG), FailureClass::DeviceLost);
    assert_eq!(classify_hresult(DXGI_ERROR_DEVICE_REMOVED), FailureClass::DeviceLost);
    assert_eq!(classify_hresult(DXGI_ERROR_DEVICE_RESET), FailureClass::DeviceLost);
    assert_eq!(classify_hresult(DXGI_ERROR_DRIVER_INTERNAL_ERROR), FailureClass::DeviceLost);
    assert_eq!(classify_hresult(E_FAIL), FailureClass::Other);
    assert_eq!(failure_action(&error(DXGI_ERROR_DEVICE_REMOVED, "")), FailureAction::RecoverDevice);
    assert_eq!(failure_action(&error(E_FAIL, "")), FailureAction::PreserveGraph);

    let rollback_error = rollback_recovery_error(&error(E_FAIL, "commit failed"), &error(E_FAIL, "rollback failed"));
    assert_eq!(failure_action(&rollback_error), FailureAction::RecoverDevice);
}

#[test]
fn successful_recovery_still_reports_the_original_operation_failure() {
    let result = recovered_operation_result(error(DXGI_ERROR_DEVICE_REMOVED, ""), Ok(()))
        .expect_err("recovery requires a fresh complete role redraw");
    assert_eq!(result.code, DXGI_ERROR_DEVICE_REMOVED);

    let result = recovered_operation_result(error(DXGI_ERROR_DEVICE_REMOVED, ""), Err(error(E_FAIL, "recreation failed")))
        .expect_err("failed recovery must remain failed");
    assert_eq!(result.code, E_FAIL);
}

#[test]
fn error_context_prefixes_the_description_and_keeps_the_code() {
    let error = CompositorError::new(DXGI_ERROR_DEVICE_HUNG, "device hung");
    let described = error_context("present", error);
    assert_eq!(described.code, DXGI_ERROR_DEVICE_HUNG);
    assert_eq!(described.message, "present: device hung");
}
