use stonemite::dps_overlay::{clamp_rect, format_duration};
use stonemite::geometry::{Point, Rect};
use stonemite::interaction::{take_reorder_cancellation, ReorderCancellation, ReorderDragState};
use stonemite::pip_interaction::{client_reorder_indices, reorder_thumbnail_alpha, THUMB_OPACITY_DRAG_MAX};
use stonemite::surfaces::{forwards_active_label_mouse_message, overlay_visibility_policy, WM_LBUTTONDOWN, WM_LBUTTONUP};

const WM_RBUTTONDOWN: u32 = 0x0204;
const WM_RBUTTONUP: u32 = 0x0205;

#[test]
fn reorder_cancellation_takes_source_and_target_atomically() {
    let mut drag = Some(ReorderDragState { from_index: 2, start_pt: Point::default(), dragging: true });
    let mut target = Some(4);
    assert_eq!(
        take_reorder_cancellation(&mut drag, &mut target),
        ReorderCancellation { dimmed_source: Some(2), old_target: Some(4) }
    );
    assert!(drag.is_none());
    assert!(target.is_none());

    let mut pending_click = Some(ReorderDragState { from_index: 1, start_pt: Point::default(), dragging: false });
    assert_eq!(
        take_reorder_cancellation(&mut pending_click, &mut None),
        ReorderCancellation { dimmed_source: None, old_target: None }
    );
}

#[test]
fn reorder_never_brightens_a_thumbnail() {
    assert_eq!(reorder_thumbnail_alpha(25), 25);
    assert_eq!(reorder_thumbnail_alpha(204), THUMB_OPACITY_DRAG_MAX);
}

#[test]
fn compacted_presentation_reorders_by_identity_not_rendered_index() {
    let client_pips = [10, 20, 30, 40];
    assert_eq!(client_reorder_indices(&client_pips, 30, 10), Some((2, 0)));
    assert_eq!(client_reorder_indices(&client_pips, 99, 10), None);
}

#[test]
fn placement_clamps_complete_panel_to_work_area() {
    let work = Rect { left: 100, top: 50, right: 740, bottom: 590 };
    let clamped = clamp_rect(Rect { left: -500, top: 900, right: 1_500, bottom: 1_500 }, work, 360);
    assert_eq!(clamped.left, 100);
    assert_eq!(clamped.right, 740);
    assert_eq!(clamped.top, 50);
    assert_eq!(clamped.bottom, 590);
}

#[test]
fn duration_is_compact_and_stable() {
    assert_eq!(format_duration(1), "0:01");
    assert_eq!(format_duration(125), "2:05");
}

#[test]
fn visibility_policy_requires_user_client_and_foreground_permission() {
    assert!(overlay_visibility_policy(false, true, false, true));
    assert!(overlay_visibility_policy(false, true, true, false));
    assert!(!overlay_visibility_policy(true, true, true, true));
    assert!(!overlay_visibility_policy(false, false, true, true));
    assert!(!overlay_visibility_policy(false, true, false, false));
}

#[test]
fn active_label_forwards_only_matched_left_button_messages() {
    assert!(forwards_active_label_mouse_message(WM_LBUTTONDOWN));
    assert!(forwards_active_label_mouse_message(WM_LBUTTONUP));
    assert!(!forwards_active_label_mouse_message(WM_RBUTTONDOWN));
    assert!(!forwards_active_label_mouse_message(WM_RBUTTONUP));
}
