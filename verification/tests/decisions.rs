use stonemite::casting::{
    cast_action, completion_inferred, finish_matches, owned_direct_spell_hit, CastAction, CastingEvent,
    CastingOutcome,
};
use stonemite::client_controller::{
    confirm_precheck, denied_or_disappeared, focus_repair_outcome, unresponsive_outcome, ForegroundRequest,
};
use stonemite::clients::{ClientRegistry, EqWindow};
use stonemite::dps_overlay::{
    dps_row_caption, edit_mode_ex_style, panel_content, DpsPanelState, panel_rect, resize_cursor_at, restored_rect,
    row_is_active_client, DpsPlacement, PanelContent, WS_EX_TRANSPARENT,
};
use stonemite::geometry::{Point, Rect, Scale};
use stonemite::hosts::{active_label_x, banner_x, desired_pips, motion_start, thumbnail_destination, unassigned_hosts};
use stonemite::in_game_button::{button_drag_step, point_is_inside, ButtonDrag, ButtonDragStep};
use stonemite::interaction::InteractionState;
use stonemite::layout::{PipEdge, ResizeEdge};
use stonemite::lifecycle::{
    configured_label_alpha, configured_label_height, configured_toast_height, reload_plan, StyleRefresh,
};
use stonemite::pip_interaction::{double_click_resets_strip, press_gesture, start_press, PressGesture};
use stonemite::scope::PresentationTarget;
use stonemite::surfaces::{hover_alpha, pack_point_lparam, surface_visibility, window_matches, SurfaceVisibility};
use stonemite::pip_interaction::point_from_lparam;
use stonemite::trigger_text::{latest_display_text, ActionEvent, TriggerAction};

#[test]
fn casting_lines_map_to_cast_actions() {
    let started = CastingEvent::Started { spell: "Complete Heal".to_string() };
    assert_eq!(cast_action(&started), CastAction::Start("Complete Heal"));
    let fizzled = CastingEvent::Fizzled { spell: None };
    assert_eq!(
        cast_action(&fizzled),
        CastAction::Finish { spell: None, outcome: CastingOutcome::Fizzled, train: true }
    );
    let interrupted = CastingEvent::Interrupted { spell: Some("Root".to_string()) };
    assert_eq!(
        cast_action(&interrupted),
        CastAction::Finish { spell: Some("Root"), outcome: CastingOutcome::Interrupted, train: false }
    );
    let resisted = CastingEvent::Resisted { spell: "Snare".to_string() };
    assert_eq!(
        cast_action(&resisted),
        CastAction::Finish { spell: Some("Snare"), outcome: CastingOutcome::Resisted, train: true }
    );
    assert_eq!(cast_action(&CastingEvent::ConcentrationRecovered), CastAction::Ignore);
}

#[test]
fn cast_completion_needs_matching_evidence() {
    assert!(finish_matches(None, "Root"));
    assert!(finish_matches(Some("root"), "Root"));
    assert!(!finish_matches(Some("Snare"), "Root"));
    assert!(owned_direct_spell_hit(true, true, Some("ice comet"), Some("Ice Comet")));
    assert!(!owned_direct_spell_hit(true, false, Some("Ice Comet"), Some("Ice Comet")));
    assert!(!owned_direct_spell_hit(false, true, Some("Ice Comet"), Some("Ice Comet")));
    assert!(!owned_direct_spell_hit(true, true, None, Some("Ice Comet")));
    assert!(completion_inferred(false, false, true, false));
    assert!(!completion_inferred(true, true, true, true));
    assert!(!completion_inferred(false, false, false, false));
}

#[test]
fn foreground_confirmation_decisions() {
    assert_eq!(confirm_precheck(false, true, true), Some(ForegroundRequest::TargetDisappeared));
    assert_eq!(confirm_precheck(true, false, true), Some(ForegroundRequest::ForegroundDenied));
    assert_eq!(confirm_precheck(true, true, true), Some(ForegroundRequest::Confirmed));
    assert_eq!(confirm_precheck(true, true, false), None);
    assert_eq!(unresponsive_outcome(true), ForegroundRequest::TargetUnresponsive);
    assert_eq!(unresponsive_outcome(false), ForegroundRequest::TargetDisappeared);
    assert_eq!(denied_or_disappeared(true), ForegroundRequest::ForegroundDenied);
    assert_eq!(focus_repair_outcome(true, false, false), ForegroundRequest::Confirmed);
    assert_eq!(focus_repair_outcome(false, false, true), ForegroundRequest::TargetDisappeared);
    assert_eq!(focus_repair_outcome(false, true, false), ForegroundRequest::ForegroundDenied);
    assert_eq!(focus_repair_outcome(false, true, true), ForegroundRequest::FocusDenied);
}

#[test]
fn dps_panel_restores_from_its_placement() {
    let monitor = Rect { left: 100, top: 50, right: 1100, bottom: 850 };
    let r = restored_rect(None, monitor, Scale::unit(), 360, 240);
    assert_eq!(r, Rect { left: 124, top: 74, right: 484, bottom: 75 });
    let saved = DpsPlacement { x_dip: 10, y_dip: 20, width_dip: 100 };
    let r = restored_rect(Some(saved), monitor, Scale::from_dpi(192), 360, 240);
    assert_eq!(r, Rect { left: 120, top: 90, right: 600, bottom: 91 });
    let sized = panel_rect(r, monitor, 300, 240);
    assert_eq!(sized, Rect { left: 120, top: 90, right: 600, bottom: 390 });
    let too_tall = panel_rect(r, monitor, 2000, 240);
    assert_eq!((too_tall.top, too_tall.bottom), (50, 850));
}

#[test]
fn dps_panel_captions_and_modes() {
    assert_eq!(dps_row_caption("Aria", true, false), "Aria +Pets");
    assert_eq!(dps_row_caption("Bront", false, true), "Bront (Pet)");
    assert_eq!(dps_row_caption("Caela", false, false), "Caela");
    assert_eq!(panel_content(true, false), PanelContent::Encounter);
    assert_eq!(panel_content(false, true), PanelContent::Preview);
    assert_eq!(panel_content(false, false), PanelContent::Hidden);
    assert_eq!(edit_mode_ex_style(0x28, true), 0x08);
    assert_eq!(edit_mode_ex_style(0x08, false), 0x08 | WS_EX_TRANSPARENT);
    assert!(resize_cursor_at(true, 95, 100, Scale::unit()));
    assert!(!resize_cursor_at(true, 80, 100, Scale::unit()));
    assert!(!resize_cursor_at(false, 95, 100, Scale::unit()));
    assert!(row_is_active_client("Teek", "bilka", Some("teek"), Some("Bilka")));
    assert!(!row_is_active_client("Teek", "bilka", None, Some("Bilka")));
}

#[test]
fn host_motion_starts_from_the_old_rectangle_or_the_edge() {
    let target = Rect { left: 100, top: 200, right: 300, bottom: 320 };
    let moved = Rect { left: 100, top: 400, right: 300, bottom: 520 };
    assert_eq!(motion_start(true, Some(moved), target, false, PipEdge::Right, 18), Some(moved));
    assert_eq!(motion_start(false, Some(moved), target, false, PipEdge::Right, 18), None);
    assert_eq!(motion_start(true, Some(target), target, false, PipEdge::Right, 18), None);
    assert_eq!(
        motion_start(true, Some(target), target, true, PipEdge::Right, 18),
        Some(Rect { left: 118, top: 200, right: 318, bottom: 320 })
    );
    let resized = Rect { left: 0, top: 0, right: 10, bottom: 10 };
    assert_eq!(motion_start(true, Some(resized), target, true, PipEdge::Right, 18), None);
    assert_eq!(motion_start(true, None, target, true, PipEdge::Right, 18), None);
}

#[test]
fn retired_hosts_are_the_unassigned_ones() {
    assert_eq!(unassigned_hosts(&[Some(2), None, Some(0)], 4), vec![1, 3]);
    assert_eq!(unassigned_hosts(&[], 2), vec![0, 1]);
}

fn window(pid: u32, hwnd: usize, number: usize) -> EqWindow {
    EqWindow { hwnd, pid, number, character: None, server: None, class: None }
}

#[test]
fn desired_pips_skip_clients_without_a_live_window() {
    let mut r = ClientRegistry::new(Vec::new());
    r.add(window(1, 10, 1), true);
    r.add(window(2, 20, 2), true);
    r.add(window(3, 30, 3), true);
    let rects = [Rect { left: 0, top: 0, right: 1, bottom: 1 }, Rect { left: 0, top: 2, right: 1, bottom: 3 }];
    let desired = desired_pips(&r, &rects, &[true, false, true]);
    assert_eq!(desired, vec![(2, rects[1])]);
}

#[test]
fn active_label_and_indicator_placement() {
    assert_eq!(active_label_x(PipEdge::Right, 10, 810, 200), 10);
    assert_eq!(active_label_x(PipEdge::Left, 10, 810, 200), 610);
    assert_eq!(banner_x(PipEdge::Right, 10, 200, 80, Scale::unit()), 214);
    assert_eq!(banner_x(PipEdge::Left, 610, 200, 80, Scale::unit()), 526);
}

#[test]
fn button_drag_moves_only_past_the_threshold() {
    let monitor = Rect { left: 0, top: 0, right: 1000, bottom: 800 };
    let start = Rect { left: 100, top: 100, right: 156, bottom: 156 };
    let drag = ButtonDrag {
        start_cursor: Point { x: 120, y: 120 },
        start_rect: start,
        monitor_rect: monitor,
        scale: Scale::unit(),
        dragging: false,
    };
    match button_drag_step(drag, Point { x: 122, y: 121 }, monitor, Scale::unit(), start) {
        ButtonDragStep::Held(d) => assert!(!d.dragging),
        other => panic!("unexpected {:?}", other),
    }
    match button_drag_step(drag, Point { x: 2000, y: 130 }, monitor, Scale::unit(), start) {
        ButtonDragStep::Moved(d, r) => {
            assert!(d.dragging);
            assert_eq!(r, Rect { left: 944, top: 110, right: 1000, bottom: 166 });
        },
        other => panic!("unexpected {:?}", other),
    }
    let other_monitor = Rect { left: 0, top: 0, right: 1920, bottom: 1080 };
    match button_drag_step(drag, Point { x: 500, y: 500 }, other_monitor, Scale::unit(), start) {
        ButtonDragStep::Rebased(d) => {
            assert_eq!(d.start_cursor, Point { x: 500, y: 500 });
            assert_eq!(d.monitor_rect, other_monitor);
        },
        other => panic!("unexpected {:?}", other),
    }
    assert!(point_is_inside(5 | (6 << 16), Rect { left: 0, top: 0, right: 56, bottom: 56 }));
    assert!(!point_is_inside(60 | (6 << 16), Rect { left: 0, top: 0, right: 56, bottom: 56 }));
}

#[test]
fn reload_settings_and_plan() {
    assert_eq!(configured_label_alpha(None), 204);
    assert_eq!(configured_label_alpha(Some(250)), 255);
    assert_eq!(configured_label_height(None), 48);
    assert_eq!(configured_label_height(Some(30)), 30);
    assert_eq!(configured_toast_height(None), 64);
    let plan = reload_plan(true, false, true, false, true, false, true, false);
    assert_eq!(plan.styles, StyleRefresh::RestoreAll);
    assert!(!plan.clear_notifications);
    assert!(plan.stop_combat_timer);
    assert!(plan.withdraw_toast);
    assert_eq!(reload_plan(false, true, false, false, false, true, false, true).styles, StyleRefresh::Apply);
    assert_eq!(reload_plan(false, false, true, true, false, true, true, true).styles, StyleRefresh::Keep);
}

#[test]
fn presses_start_the_matching_gesture() {
    assert_eq!(press_gesture(false, true, None, false, true), PressGesture::InviteButton);
    assert_eq!(press_gesture(true, true, Some(ResizeEdge::NE), false, true), PressGesture::ResizeWindow(ResizeEdge::NE));
    assert_eq!(press_gesture(true, false, None, false, true), PressGesture::MoveWindow);
    assert_eq!(press_gesture(false, false, None, false, true), PressGesture::ResizeStrip);
    assert_eq!(press_gesture(false, false, None, true, true), PressGesture::Reorder);
    let mut state = InteractionState::new();
    let cursor = Point { x: 3, y: 4 };
    let rect = Rect { left: 0, top: 0, right: 10, bottom: 10 };
    start_press(&mut state, PressGesture::ResizeStrip, 1, cursor, rect, PipEdge::Top, 300, 170);
    assert_eq!(state.strip_resize_drag.unwrap().start_size, 170);
    start_press(&mut state, PressGesture::Reorder, 2, cursor, rect, PipEdge::Top, 300, 170);
    assert_eq!(state.reorder_drag.unwrap().from_index, 2);
    assert!(double_click_resets_strip(false, false, true));
    assert!(!double_click_resets_strip(true, false, true));
}

#[test]
fn surfaces_show_only_complete_frames() {
    assert_eq!(surface_visibility(true, true), SurfaceVisibility::Show);
    assert_eq!(surface_visibility(true, false), SurfaceVisibility::HideAndRedraw);
    assert_eq!(surface_visibility(false, true), SurfaceVisibility::Hide);
    assert!(window_matches(Some(Rect { left: 1, top: 2, right: 11, bottom: 22 }), 1, 2, 10, 20));
    assert!(!window_matches(Some(Rect { left: 1, top: 2, right: 11, bottom: 22 }), 1, 2, 10, 21));
    assert!(!window_matches(None, 1, 2, 10, 20));
    assert_eq!(hover_alpha(204), 102);
}

#[test]
fn packed_points_read_back_unchanged() {
    for (x, y) in [(0, 0), (5, 7), (-1, -2), (-32768, 32767), (1234, -4321)] {
        let packed = pack_point_lparam(Point { x, y });
        assert_eq!(point_from_lparam(packed as isize), Point { x, y });
    }
    assert_eq!(pack_point_lparam(Point { x: -1, y: 1 }), 0x0001_FFFF);
}

fn event(action: TriggerAction) -> ActionEvent {
    ActionEvent {
        character: "pid:1".to_string(),
        trigger_name: "t".to_string(),
        target: PresentationTarget::Source,
        priority: 0,
        action,
    }
}

#[test]
fn banner_shows_the_newest_display_text() {
    let events = [
        event(TriggerAction::DisplayText { text: "first".to_string(), font_color: None }),
        event(TriggerAction::PlaySound { sound: "ding".to_string(), volume: 50 }),
        event(TriggerAction::DisplayText { text: "second".to_string(), font_color: None }),
        event(TriggerAction::Speak { text: "hi".to_string(), rate: None, volume: 50 }),
    ];
    assert_eq!(latest_display_text(&events).as_deref(), Some("second"));
    assert!(latest_display_text(&events[1..2]).is_none());
}

#[test]
fn dps_panel_forgets_its_runtime_place_on_a_new_monitor_or_placement() {
    let saved = DpsPlacement { x_dip: 1, y_dip: 2, width_dip: 300 };
    let mut panel = DpsPanelState::new(true, 5, Some(saved));
    let monitor = Rect { left: 0, top: 0, right: 800, bottom: 600 };
    panel.observe_monitor(monitor);
    panel.runtime_rect = Some(Rect { left: 10, top: 10, right: 310, bottom: 110 });
    panel.observe_monitor(monitor);
    assert!(panel.runtime_rect.is_some());
    panel.apply_config(false, 3, Some(saved));
    assert!(panel.runtime_rect.is_some());
    assert!(!panel.enabled);
    panel.apply_config(true, 3, Some(DpsPlacement { x_dip: 9, ..saved }));
    assert!(panel.runtime_rect.is_none());
    panel.runtime_rect = Some(Rect { left: 10, top: 10, right: 310, bottom: 110 });
    panel.observe_monitor(Rect { left: 0, top: 0, right: 1920, bottom: 1080 });
    assert!(panel.runtime_rect.is_none());
}

#[test]
fn thumbnails_sit_inside_the_host_border() {
    assert_eq!(thumbnail_destination(320, 180, 3), Rect { left: 3, top: 3, right: 317, bottom: 177 });
}
