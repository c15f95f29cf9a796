use stonemite::client_controller::{
    activated_toast, foreground_request_error, pid_for_number, plan_activation, runtime_command_error,
    swap_active_window_numbers, AccessError, ActivationPlan, CommandOutcome, ErrorCode, ForegroundRequest,
};
use stonemite::clients::{ClientRegistry, EqWindow};
use stonemite::control_bridge::{mouse_eligible_pids, owns_foreground, source_clients, MouseGeometry};
use stonemite::event_loop::{
    presentation_incomplete, reconcile_membership, reference_window, refresh_handles, same_membership, FoundWindow,
};
use stonemite::geometry::{Point, Rect, Scale};
use stonemite::interaction::{ContextMenuRequest, InteractionState};
use stonemite::layout::{LayoutState, PipEdge};
use stonemite::menu::{
    assign_number_from_menu, candidate_servers, char_menu_plan, decode_menu_command, edge_item_id, open_context_menu,
    queue_context_menu, toggle_edit_mode, CharacterCandidate, MenuCommand,
};
use stonemite::toast::{toast_placement, FadeEffect, Phase, ToastState, ToastTick, MAX_ALPHA};

fn window(pid: u32, hwnd: usize, number: usize, character: Option<&str>) -> EqWindow {
    EqWindow {
        hwnd,
        pid,
        number,
        character: character.map(String::from),
        server: None,
        class: None,
    }
}

/// Clients 1 (active, #1), 2 (#2) and 3 (#3).
fn three_clients() -> ClientRegistry {
    let mut r = ClientRegistry::new(Vec::new());
    r.add(window(1, 100, 1, Some("Bilka")), true);
    r.add(window(2, 200, 2, None), true);
    r.add(window(3, 300, 3, Some("Tosk")), true);
    r
}

fn pids(r: &ClientRegistry) -> Vec<u32> {
    r.windows().iter().map(|w| w.pid).collect()
}

#[test]
fn scan_forgets_departed_and_admits_new_clients() {
    let mut r = three_clients();
    let found = [
        FoundWindow { hwnd: 100, pid: 1 },
        FoundWindow { hwnd: 301, pid: 3 },
        FoundWindow { hwnd: 400, pid: 4 },
    ];
    assert!(!same_membership(r.windows(), &found));
    let change = reconcile_membership(&mut r, &found, None, false);
    assert_eq!(change.removed, vec![2]);
    assert_eq!(change.closed_toast.as_deref(), Some("Window #2 closed"));
    assert_eq!(pids(&r), vec![1, 3, 4]);
    // The newcomer takes the lowest free number.
    assert_eq!(r.windows()[2].number, 2);
    assert_eq!(r.windows()[1].hwnd, 301);
    assert_eq!(r.active_pid(), Some(1));
    assert_eq!(r.pips(), &[3, 4]);
    assert!(r.debug_assert_partition());
    assert!(same_membership(r.windows(), &found));
}

#[test]
fn focused_newcomer_becomes_active() {
    let mut r = three_clients();
    let found = [
        FoundWindow { hwnd: 100, pid: 1 },
        FoundWindow { hwnd: 200, pid: 2 },
        FoundWindow { hwnd: 300, pid: 3 },
        FoundWindow { hwnd: 500, pid: 5 },
    ];
    let change = reconcile_membership(&mut r, &found, Some(5), false);
    assert!(change.removed.is_empty());
    assert!(change.closed_toast.is_none());
    assert_eq!(r.active_pid(), Some(5));
    assert_eq!(r.windows()[3].number, 4);
    assert!(r.pips().contains(&1));
    assert!(r.debug_assert_partition());
}

#[test]
fn departed_active_client_hands_over_to_the_first_pip() {
    let mut r = three_clients();
    let found = [FoundWindow { hwnd: 200, pid: 2 }, FoundWindow { hwnd: 300, pid: 3 }];
    let change = reconcile_membership(&mut r, &found, None, false);
    assert_eq!(change.removed, vec![1]);
    assert_eq!(change.closed_toast.as_deref(), Some("Window #1 closed"));
    assert_eq!(r.active_pid(), Some(2));
    assert_eq!(r.pips(), &[3]);
}

#[test]
fn empty_scan_forgets_every_client() {
    let mut r = three_clients();
    let change = reconcile_membership(&mut r, &[], None, false);
    assert_eq!(change.removed, vec![1, 2, 3]);
    assert_eq!(change.closed_toast.as_deref(), Some("Window #3 closed"));
    assert!(r.windows().is_empty());
    assert_eq!(r.active_pid(), None);
    assert!(r.pips().is_empty());
}

#[test]
fn handle_refresh_reports_changes_only() {
    let mut r = three_clients();
    let same = [FoundWindow { hwnd: 100, pid: 1 }, FoundWindow { hwnd: 200, pid: 2 }, FoundWindow { hwnd: 300, pid: 3 }];
    assert!(!refresh_handles(&mut r, &same));
    let moved = [FoundWindow { hwnd: 100, pid: 1 }, FoundWindow { hwnd: 222, pid: 2 }, FoundWindow { hwnd: 300, pid: 3 }];
    assert!(refresh_handles(&mut r, &moved));
    assert_eq!(r.windows()[1].hwnd, 222);
}

#[test]
fn reference_window_follows_the_active_client() {
    let r = three_clients();
    assert_eq!(reference_window(&r), Some(100));
    let empty = ClientRegistry::new(Vec::new());
    assert_eq!(reference_window(&empty), None);
}

#[test]
fn presentation_lags_when_hosts_differ_from_pips() {
    assert!(!presentation_incomplete(false, &[(2, 7), (3, 8)], &[2, 3]));
    assert!(presentation_incomplete(true, &[(2, 7), (3, 8)], &[2, 3]));
    assert!(presentation_incomplete(false, &[(3, 8), (2, 7)], &[2, 3]));
    assert!(presentation_incomplete(false, &[(2, 7)], &[2, 3]));
    assert!(presentation_incomplete(false, &[(2, 0), (3, 8)], &[2, 3]));
}

#[test]
fn activation_plans_follow_the_partition() {
    let r = three_clients();
    match plan_activation(&r, 9) {
        Err(e) => {
            assert_eq!(e.code, ErrorCode::TargetDisappeared);
            assert_eq!(e.message, "the target is no longer loaded");
        },
        Ok(_) => panic!("an unknown client cannot be activated"),
    }
    assert_eq!(plan_activation(&r, 1).ok(), Some(ActivationPlan::Reassert { hwnd: 100 }));
    assert_eq!(plan_activation(&r, 3).ok(), Some(ActivationPlan::Exchange { pip_index: 1 }));
}

#[test]
fn exchanging_window_numbers_twice_restores_them() {
    let mut r = three_clients();
    let (outcome, toast) = swap_active_window_numbers(&mut r, 3, false).ok().unwrap();
    assert_eq!(
        outcome,
        CommandOutcome::WindowNumbersSwapped { active_previous_number: 1, selected_previous_number: 3 }
    );
    assert_eq!(toast.as_deref(), Some("Swapped window numbers #1 and #3"));
    assert_eq!(r.windows()[0].number, 3);
    assert_eq!(r.windows()[2].number, 1);
    swap_active_window_numbers(&mut r, 3, false).ok().unwrap();
    assert_eq!(r.windows()[0].number, 1);
    assert_eq!(r.windows()[2].number, 3);
    // The active client with itself changes nothing and shows no toast.
    let (_, toast) = swap_active_window_numbers(&mut r, 1, false).ok().unwrap();
    assert!(toast.is_none());
    match swap_active_window_numbers(&mut r, 8, false) {
        Err(e) => assert_eq!(e.code, ErrorCode::TargetDisappeared),
        Ok(_) => panic!("an unknown client has no number"),
    }
    let mut none_active = ClientRegistry::new(Vec::new());
    match swap_active_window_numbers(&mut none_active, 1, false) {
        Err(e) => assert_eq!(e.code, ErrorCode::WindowNumberSwapFailed),
        Ok(_) => panic!("without an active client nothing is exchanged"),
    }
}

#[test]
fn activation_toast_names_the_character_when_known() {
    let r = three_clients();
    assert_eq!(activated_toast(&r, 1).ok().as_deref(), Some("Swapped to #1 Bilka"));
    assert_eq!(activated_toast(&r, 2).ok().as_deref(), Some("Swapped to #2"));
    assert!(activated_toast(&r, 7).is_err());
}

#[test]
fn foreground_failures_map_to_control_errors() {
    let e = foreground_request_error(ForegroundRequest::TargetDisappeared);
    assert_eq!(e.code, ErrorCode::TargetDisappeared);
    assert_eq!(e.message, "the target EQ window is no longer loaded");
    let e = foreground_request_error(ForegroundRequest::FocusDenied);
    assert_eq!(e.code, ErrorCode::ActivationFailed);
    assert_eq!(e.message, "Windows foregrounded the target EQ window but did not give it keyboard focus");
    let e = runtime_command_error(AccessError::Busy);
    assert_eq!(e.code, ErrorCode::InternalError);
    assert_eq!(e.message, "overlay is already handling a window transition");
    assert_eq!(runtime_command_error(AccessError::Unavailable).message, "overlay is unavailable");
}

#[test]
fn hotkey_numbers_find_their_client() {
    let r = three_clients();
    assert_eq!(pid_for_number(r.windows(), 3), Some(3));
    assert_eq!(pid_for_number(r.windows(), 9), None);
}

#[test]
fn menu_identifiers_decode_to_commands() {
    assert_eq!(decode_menu_command(7400), MenuCommand::BroadcastToggle);
    assert_eq!(decode_menu_command(7100), MenuCommand::HideOverlay);
    assert_eq!(decode_menu_command(7500), MenuCommand::Settings);
    assert_eq!(decode_menu_command(7200), MenuCommand::EditMode);
    assert_eq!(decode_menu_command(7300), MenuCommand::ResetLayout);
    assert_eq!(decode_menu_command(7002), MenuCommand::Edge(PipEdge::Top));
    assert_eq!(decode_menu_command(6003), MenuCommand::Number(3));
    assert_eq!(decode_menu_command(5001), MenuCommand::Character(1));
    assert_eq!(decode_menu_command(7004), MenuCommand::Unknown);
    assert_eq!(decode_menu_command(edge_item_id(PipEdge::Bottom)), MenuCommand::Edge(PipEdge::Bottom));
}

#[test]
fn character_menu_groups_by_distinct_server() {
    let c = |server: &str, character: &str| CharacterCandidate {
        server: server.to_string(),
        character: character.to_string(),
    };
    let candidates = [c("firiona", "A"), c("teek", "B"), c("firiona", "C")];
    assert_eq!(candidate_servers(&candidates), vec!["firiona".to_string(), "teek".to_string()]);
    let plan = char_menu_plan(3, 2, 4, PipEdge::Left, true, false, true, false, "Ctrl+B", "Ctrl+H");
    assert!(plan.assign_character);
    assert!(plan.grouped_by_server);
    assert_eq!(plan.number_count, 4);
    assert_eq!(plan.edit_label, "Lock layout");
    assert!(!plan.reset_layout);
    let (label, checked) = plan.broadcast.unwrap();
    assert_eq!(label, "Broadcasting: off\tCtrl+B");
    assert!(!checked);
    assert_eq!(plan.hide_label, "Hide overlay\tCtrl+H");
    let plain = char_menu_plan(0, 1, 1, PipEdge::Right, false, true, false, true, "", "H");
    assert!(!plain.grouped_by_server);
    assert_eq!(plain.edit_label, "Edit layout");
    assert!(plain.broadcast.is_none());
}

#[test]
fn menu_number_assignment_moves_the_previous_holder() {
    let mut r = three_clients();
    let mut state = InteractionState::new();
    let request = ContextMenuRequest { target_pid: 3, screen_point: Point { x: 5, y: 6 }, source_hwnd: 300 };
    assert!(queue_context_menu(&mut state, request));
    assert!(!queue_context_menu(&mut state, request));
    assert_eq!(open_context_menu(&mut state, &r), Some(request));
    assert!(state.context_menu_open);
    assert!(assign_number_from_menu(&mut state, &mut r, 1));
    assert_eq!(r.windows()[2].number, 1);
    assert_eq!(r.windows()[0].number, 3);
    // The command consumes the menu's client.
    assert!(!assign_number_from_menu(&mut state, &mut r, 2));
}

#[test]
fn unnumbered_client_displaces_to_the_lowest_free_number() {
    let mut r = ClientRegistry::new(Vec::new());
    r.add(window(1, 100, 0, None), true);
    r.add(window(2, 200, 1, None), true);
    let mut state = InteractionState::new();
    state.context_menu_target_pid = Some(1);
    assert!(assign_number_from_menu(&mut state, &mut r, 1));
    assert_eq!(r.windows()[0].number, 1);
    // 1 is taken by the choice itself, so the displaced window takes 2.
    assert_eq!(r.windows()[1].number, 2);
}

#[test]
fn leaving_edit_mode_records_host_positions() {
    let mut state = InteractionState::new();
    let mut layout = LayoutState::new(PipEdge::Right, None, 16, false, Scale::unit());
    assert!(toggle_edit_mode(&mut state, &mut layout, &[]).is_none());
    assert!(state.edit_mode);
    let rects = [Rect { left: 10, top: 20, right: 330, bottom: 200 }];
    let positions = toggle_edit_mode(&mut state, &mut layout, &rects).unwrap();
    assert!(!state.edit_mode);
    assert!(layout.has_custom_positions);
    assert_eq!(positions.len(), 1);
    assert_eq!((positions[0].slot, positions[0].x, positions[0].y), (0, 10, 20));
    assert_eq!((positions[0].width, positions[0].height), (320, 180));
}

#[test]
fn toast_sits_centred_a_third_of_the_way_down() {
    let client = Rect { left: 0, top: 0, right: 1000, bottom: 600 };
    let p = toast_placement(client, Point { x: 50, y: 70 }, 200, Scale::unit(), 64);
    assert_eq!((p.x, p.y, p.width, p.height), (50 + 380, 70 + 200, 240, 64));
    let scaled = toast_placement(client, Point { x: 0, y: 0 }, 200, Scale::from_dpi(192), 64);
    assert_eq!((scaled.width, scaled.height), (280, 128));
}

#[test]
fn toast_ticks_fade_in_and_suppress_unpublishable_frames() {
    let mut t = ToastState::new(9, 2000, 64, true);
    assert_eq!(t.tick(true, true, 0), ToastTick::Suppress);
    t.stage("hello".to_string());
    t.scene_ready = true;
    assert!(t.begin_fade_in(100, true, true));
    assert_eq!(t.phase, Phase::FadingIn);
    assert_eq!(t.tick(true, true, 130), ToastTick::Apply(FadeEffect::UpdateOpacity(25)));
    assert_eq!(t.tick(false, true, 160), ToastTick::Suppress);
    assert_eq!(t.phase, Phase::Hidden);
    assert!(t.alpha <= MAX_ALPHA);
    t.withdraw();
    assert!(!t.scene_ready);
    assert!(!t.begin_fade_in(200, true, true));
}

#[test]
fn published_clients_flag_activation_eligibility() {
    let mut r = three_clients();
    r.add(window(4, 400, 4, None), false);
    r.truncate_pips(2);
    let sources = source_clients(&r, &[true, false, true, false]);
    assert_eq!(sources.len(), 4);
    assert!(sources[0].active && sources[0].activatable && sources[0].input_ready);
    assert_eq!(sources[0].character.as_deref(), Some("Bilka"));
    assert!(!sources[1].active && sources[1].activatable && !sources[1].input_ready);
    assert_eq!(sources[2].private_key, 3);
    assert!(!sources[3].activatable);
}

#[test]
fn mouse_mirroring_needs_identical_geometry() {
    let r = three_clients();
    let g = MouseGeometry { origin_x: 0, origin_y: 0, width: 800, height: 600, dpi: 96 };
    let other = MouseGeometry { width: 1024, ..g };
    assert_eq!(mouse_eligible_pids(&r, &[Some(g), Some(other), Some(g)]), vec![1, 3]);
    assert!(mouse_eligible_pids(&r, &[None, Some(g), Some(g)]).is_empty());
}

#[test]
fn foreground_ownership_covers_overlay_and_client_processes() {
    let r = three_clients();
    assert!(owns_foreground(77, &[77], false, &r, 0));
    assert!(owns_foreground(5, &[], true, &r, 0));
    assert!(owns_foreground(300, &[], false, &r, 0));
    assert!(owns_foreground(999, &[], false, &r, 2));
    assert!(!owns_foreground(999, &[], false, &r, 0));
    assert!(!owns_foreground(999, &[], false, &r, 42));
}
