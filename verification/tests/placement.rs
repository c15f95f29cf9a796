use stonemite::geometry::{Rect, Scale};
use stonemite::hosts::{offset_primary_handoff, plan_host_reuse, HostReuseKey};
use stonemite::in_game_button::{button_rect, drag_threshold_exceeded, visibility_policy};
use stonemite::layout::{compute, snap_point, LayoutInput, LayoutPlan, MoveSnapInput, PipEdge, PipPosition};

fn input(custom_positions: &[PipPosition]) -> LayoutInput<'_> {
    LayoutInput {
        scale: Scale::unit(),
        monitor_rect: Rect { left: 0, top: 0, right: 1920, bottom: 1080 },
        pip_count: 2,
        pip_edge: PipEdge::Right,
        custom_strip_width: None,
        custom_positions,
        gap: 4,
        border: 3,
    }
}

fn plan(input: LayoutInput<'_>) -> LayoutPlan {
    compute(&input)
}

#[test]
fn strip_layout_is_deterministic_and_anchored_to_the_selected_edge() {
    let plan = plan(input(&[]));
    assert_eq!(plan.rects.len(), 2);
    assert_eq!(plan.rects[0].right, 1920);
    assert_eq!(plan.rects[1].right, 1920);
    assert!(plan.rects[1].top > plan.rects[0].top);
    assert!(plan.strip_width > 0);
    assert!(plan.strip_height > plan.rects[0].bottom - plan.rects[0].top);
}

#[test]
fn automatic_layout_is_not_forced_to_configured_override_bounds() {
    let plan = plan(LayoutInput {
        scale: Scale::unit(),
        monitor_rect: Rect { left: 0, top: 0, right: 100, bottom: 10_000 },
        pip_count: 1,
        pip_edge: PipEdge::Top,
        custom_strip_width: None,
        custom_positions: &[],
        gap: 4,
        border: 3,
    });
    // A twentieth of the monitor's height, the smallest configurable strip.
    let configured_minimum = (10_000.0_f64 * 0.05).round() as i32;
    assert!(plan.strip_height < configured_minimum);
}

#[test]
fn configured_strip_size_is_clamped_for_both_orientations() {
    let vertical = plan(LayoutInput { custom_strip_width: Some(10_000), pip_count: 1, ..input(&[]) });
    assert_eq!(vertical.strip_width, 480);

    let horizontal = plan(LayoutInput {
        pip_edge: PipEdge::Top,
        custom_strip_width: Some(10_000),
        pip_count: 1,
        ..input(&[])
    });
    assert_eq!(horizontal.strip_height, 270);
}

#[test]
fn custom_positions_override_cells_without_changing_strip_metrics() {
    let automatic = plan(input(&[]));
    let custom = [PipPosition { slot: 0, x: 100, y: 200, width: 320, height: 180 }];
    let overridden = plan(input(&custom));

    assert_eq!(overridden.rects[0].left, 100);
    assert_eq!(overridden.rects[0].top, 200);
    assert_eq!(overridden.rects[0].right, 420);
    assert_eq!(overridden.rects[0].bottom, 380);
    assert_eq!(overridden.strip_width, automatic.strip_width);
    assert_eq!(overridden.strip_height, automatic.strip_height);
}

#[test]
fn bypassed_move_snap_preserves_the_requested_position() {
    let snapped = snap_point(
        MoveSnapInput {
            x: 7,
            y: 11,
            width: 100,
            height: 50,
            monitor: Rect { left: 0, top: 0, right: 1920, bottom: 1080 },
            grid: 16,
            bypass: true,
        },
        &[],
    );
    assert_eq!(snapped, (7, 11));
}

#[test]
fn left_strip_is_anchored_to_the_left_monitor_edge() {
    let plan = plan(LayoutInput { pip_edge: PipEdge::Left, ..input(&[]) });
    assert_eq!(plan.rects.len(), 2);
    assert_eq!(plan.rects[0].left, 0);
    assert_eq!(plan.rects[1].left, 0);
}

#[test]
fn no_windows_give_an_empty_plan() {
    let plan = plan(LayoutInput { pip_count: 0, ..input(&[]) });
    assert!(plan.rects.is_empty());
    assert_eq!((plan.strip_width, plan.strip_height), (0, 0));
}

fn host(pid: u32, source_hwnd: isize) -> HostReuseKey {
    HostReuseKey { pid, source_hwnd, reusable: true }
}

#[test]
fn active_swap_preserves_unchanged_sources_and_reuses_exchanged_slot() {
    let existing = [host(2, 20), host(3, 30), host(4, 40)];
    let desired = [(1, 10), (3, 30), (4, 40)];
    assert_eq!(plan_host_reuse(&desired, &existing), vec![Some(0), Some(1), Some(2)]);
}

#[test]
fn auto_order_moves_stable_sources_before_assigning_the_spare_host() {
    let existing = [host(2, 20), host(3, 30), host(4, 40), host(5, 50), host(6, 60)];
    let desired = [(1, 10), (2, 20), (3, 30), (4, 40), (6, 60)];
    assert_eq!(plan_host_reuse(&desired, &existing), vec![Some(3), Some(0), Some(1), Some(2), Some(4)]);
}

#[test]
fn invalid_hosts_are_not_reassigned() {
    let existing = [HostReuseKey { reusable: false, ..host(2, 20) }, host(3, 30)];
    assert_eq!(plan_host_reuse(&[(1, 10), (3, 30)], &existing), vec![None, Some(1)]);
}

#[test]
fn more_windows_than_hosts_leave_the_rest_unassigned() {
    let existing = [host(2, 20)];
    assert_eq!(plan_host_reuse(&[(1, 10), (2, 20), (3, 30)], &existing), vec![None, Some(0), None]);
}

#[test]
fn primary_handoff_starts_just_outside_the_configured_edge() {
    let rect = Rect { left: 100, top: 200, right: 300, bottom: 320 };
    let right = offset_primary_handoff(rect, PipEdge::Right, 18);
    assert_eq!((right.left, right.top, right.right, right.bottom), (118, 200, 318, 320));
    let top = offset_primary_handoff(rect, PipEdge::Top, 18);
    assert_eq!((top.left, top.top, top.right, top.bottom), (100, 182, 300, 302));
}

fn monitor() -> Rect {
    Rect { left: 100, top: 200, right: 2020, bottom: 1280 }
}

#[test]
fn button_anchors_inward_from_each_strip_edge() {
    assert_eq!(
        button_rect(monitor(), PipEdge::Right, 240, 500, true, Scale::unit()),
        Rect { left: 1720, top: 200, right: 1776, bottom: 256 }
    );
    assert_eq!(
        button_rect(monitor(), PipEdge::Left, 240, 500, true, Scale::unit()),
        Rect { left: 344, top: 200, right: 400, bottom: 256 }
    );
    assert_eq!(
        button_rect(monitor(), PipEdge::Top, 800, 160, true, Scale::unit()),
        Rect { left: 1964, top: 364, right: 2020, bottom: 420 }
    );
    assert_eq!(
        button_rect(monitor(), PipEdge::Bottom, 800, 160, true, Scale::unit()),
        Rect { left: 1964, top: 1060, right: 2020, bottom: 1116 }
    );
}

#[test]
fn no_pip_fallback_stays_inside_the_configured_edge_at_scaled_dpi() {
    // 144 DPI is the 150% scale.
    let right = button_rect(monitor(), PipEdge::Right, 0, 0, false, Scale::from_dpi(144));
    assert_eq!(right.right, monitor().right - 6);
    assert_eq!(right.top, monitor().top);
    assert_eq!(right.right - right.left, 84);

    let bottom = button_rect(monitor(), PipEdge::Bottom, 0, 0, false, Scale::from_dpi(144));
    assert_eq!(bottom.right, monitor().right);
    assert_eq!(bottom.bottom, monitor().bottom - 6);
}

#[test]
fn dragging_requires_a_scaled_movement_threshold() {
    assert!(!drag_threshold_exceeded(3, 0, Scale::unit()));
    assert!(drag_threshold_exceeded(4, 0, Scale::unit()));
    assert!(!drag_threshold_exceeded(5, 5, Scale::from_dpi(144)));
    assert!(drag_threshold_exceeded(0, 6, Scale::from_dpi(144)));
}

#[test]
fn visibility_requires_setting_client_user_permission_and_owned_foreground() {
    assert!(visibility_policy(true, true, false, false, true));
    assert!(visibility_policy(true, true, false, true, false));
    assert!(!visibility_policy(false, true, false, true, true));
    assert!(!visibility_policy(true, false, false, true, true));
    assert!(!visibility_policy(true, true, true, true, true));
    assert!(!visibility_policy(true, true, false, false, false));
}
