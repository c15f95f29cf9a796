use stonemite::clients::EqWindow;
use stonemite::geometry::{Rect, Scale};
use stonemite::labels::LabelStyle;
use stonemite::log_events::LogSource;
use stonemite::log_sources::pid_for_log_source;
use stonemite::notification_layout::{content_layout, PREVIEW_ICON_SIZE};
use stonemite::notifications::{
    visual_delivery, Kind, Notification, VisualDelivery, ANIMATION_DURATION_MS, ANIMATION_LAP_MS, MAX_TRACKED_UNREAD,
    PREVIEW_DURATION_MS,
};
use stonemite::scene_layout::TIMER_PANEL_HEIGHT;
use stonemite::scenes::notification_content_layout;
use stonemite::geometry::Progress;

fn tell(received_at_ms: u64) -> Notification {
    Notification::push(None, Kind::Tell, "Laika: hello".to_owned(), 0x00BE28BE, received_at_ms, false)
}

fn invite(previous: Option<Notification>, at: u64) -> Notification {
    Notification::push(previous, Kind::GroupInvite, "Honka invited you to a group".to_owned(), 0x0060B06A, at, true)
}

#[test]
fn unread_notifications_accumulate_colors_and_latest_content() {
    let first = tell(1_000);
    let second = invite(Some(first), 2_000);
    assert_eq!(second.unread.len(), 2);
    assert_eq!(second.text, "Honka invited you to a group");
    assert_eq!(second.unread.iter().map(|unread| unread.color).collect::<Vec<_>>(), vec![0x00BE28BE, 0x0060B06A]);
}

#[test]
fn unread_history_is_bounded_and_keeps_the_newest_events() {
    let mut notification = None;
    for index in 0..300u32 {
        notification = Some(Notification::push(
            notification,
            Kind::Tell,
            format!("message {index}"),
            index,
            index as u64,
            false,
        ));
    }
    let notification = notification.unwrap();
    assert_eq!(notification.unread.len(), MAX_TRACKED_UNREAD);
    assert_eq!(notification.unread.first().map(|unread| unread.color), Some(44));
    assert_eq!(notification.unread.last().map(|unread| unread.color), Some(299));
}

#[test]
fn dismissing_an_invite_preserves_older_unread_events() {
    let first = tell(1_000);
    let mut invite_after_tell = invite(Some(first), 2_000);
    assert!(!invite_after_tell.dismiss_invite());
    assert_eq!(invite_after_tell.unread.len(), 1);
    assert_eq!(invite_after_tell.kind, Kind::Tell);
    assert_eq!(invite_after_tell.color, 0x00BE28BE);
    assert!(!invite_after_tell.preview_visible(2_001));
    assert!(!invite_after_tell.invite_actions);

    let mut lone_invite = invite(None, 2_000);
    assert!(lone_invite.dismiss_invite());
}

#[test]
fn log_resolution_clears_invites_but_preserves_other_unread_events() {
    let tell_before = tell(1_000);
    let invite_between = invite(Some(tell_before), 2_000);
    let mut tell_after =
        Notification::push(Some(invite_between), Kind::Tell, "Laika: still here".to_owned(), 0x00BE28BE, 3_000, false);
    assert!(!tell_after.resolve_group_invites());
    assert_eq!(tell_after.unread.iter().map(|unread| unread.kind).collect::<Vec<_>>(), vec![Kind::Tell, Kind::Tell]);
    assert_eq!(tell_after.kind, Kind::Tell);
    assert!(tell_after.preview_visible(3_001));

    let mut lone_invite = invite(None, 2_000);
    assert!(lone_invite.resolve_group_invites());
}

#[test]
fn invite_button_hit_targets_match_the_rendered_action_row() {
    let notification = invite(None, 2_000);
    let snapshot = notification.visual_snapshot(2_001, false);
    let layout = content_layout(&snapshot, Rect::new(0, 0, 420, 240), 50, Scale::unit(), 180);
    let preview = layout.preview.as_ref().expect("action preview");
    assert_eq!(preview.buttons.len(), 2);
    for button in &preview.buttons {
        let center =
            ((button.bounds.left + button.bounds.right) / 2, (button.bounds.top + button.bounds.bottom) / 2);
        assert_eq!(layout.invite_interaction_at(center), Some(Some(button.action)));
    }
    assert_eq!(
        layout.invite_interaction_at((preview.surface.left + 5, preview.surface.top + 5)),
        Some(None),
        "the whole rendered action preview consumes clicks"
    );
}

fn identified(pid: u32) -> EqWindow {
    EqWindow {
        hwnd: 0,
        pid,
        number: pid as usize,
        character: Some("Bilka".to_owned()),
        server: Some("xegony".to_owned()),
        class: None,
    }
}

fn source(id: &str, character: &str, server: &str) -> LogSource {
    LogSource { id: id.to_owned(), character: character.to_owned(), server: server.to_owned() }
}

#[test]
fn notification_source_pid_fails_closed_and_identity_fallback_requires_uniqueness() {
    let windows = vec![identified(7)];
    let stale_exact = source("pid:42", "Bilka", "xegony");
    assert_eq!(pid_for_log_source(&windows, &stale_exact), None);

    let legacy = source("legacy", "Bilka", "xegony");
    assert_eq!(pid_for_log_source(&windows, &legacy), Some(7));
    assert_eq!(pid_for_log_source(&[identified(7), identified(8)], &legacy), None);
}

#[test]
fn visual_delivery_uses_real_focused_eq_state_not_the_stored_partition() {
    assert_eq!(visual_delivery(42, Some(42), true), VisualDelivery::SuppressFocused);
    assert_eq!(visual_delivery(42, None, true), VisualDelivery::Show);
    assert_eq!(visual_delivery(42, Some(99), true), VisualDelivery::Show);
    assert_eq!(visual_delivery(42, None, false), VisualDelivery::SuppressDisabled);
}

#[test]
fn preview_and_animation_are_bounded_and_reduce_motion_safe() {
    let mut notification = tell(1_000);
    assert!(notification.preview_visible(1_000));
    assert!(notification.preview_visible(1_000 + PREVIEW_DURATION_MS - 1));
    assert!(!notification.preview_visible(1_000 + PREVIEW_DURATION_MS));
    // Frames are (lap, milliseconds into the lap): 450 ms is half a lap.
    assert_eq!(notification.animation_frame(1_450, true), Some((0, 450)));
    assert_eq!(notification.animation_frame(1_450, false), None);
    assert_eq!(notification.animation_frame(1_000 + 2 * ANIMATION_LAP_MS + 450, true), Some((2, 450)));
    assert_eq!(notification.redraws_for_tick(1_450, true), (true, false));
    assert_eq!(notification.redraws_for_tick(1_000 + ANIMATION_DURATION_MS, true), (true, false));
    assert_eq!(notification.redraws_for_tick(1_000 + ANIMATION_DURATION_MS + 1, true), (false, false));
    assert_eq!(notification.redraws_for_tick(1_000 + PREVIEW_DURATION_MS, true), (false, true));
    assert_eq!(notification.redraws_for_tick(1_000 + PREVIEW_DURATION_MS + 1, true), (false, false));
}

#[test]
fn short_pip_timer_invite_plain_fallback_has_no_hit_target() {
    let notification = invite(None, 2_000);
    let snapshot = notification.visual_snapshot(2_001, false);
    let layout = notification_content_layout(
        &snapshot,
        Rect::new(0, 0, 420, 180),
        3,
        LabelStyle::new(Scale::unit(), 48),
        Some(Progress::new(1, 2)),
        180,
    );
    let preview = layout.preview.as_ref().expect("plain preview fallback");
    assert!(preview.buttons.is_empty());
    assert_eq!(
        layout.invite_interaction_at((preview.surface.left + 10, preview.surface.bottom - 10)),
        None,
        "invisible action buttons must never consume or activate clicks"
    );
}

#[test]
fn notification_dots_and_preview_scale_at_supported_dpi_values() {
    let notification = tell(1_000);
    let snapshot = notification.visual_snapshot(1_001, false);
    for (dpi, expected_dot, expected_radius) in [(96u32, 9, 10), (120, 11, 13), (144, 14, 15)] {
        let scale = Scale::from_dpi(dpi);
        let layout = content_layout(&snapshot, Rect::new(0, 0, 480, 300), 72, scale, 120);
        assert_eq!(layout.unread_dots.len(), 1);
        assert_eq!(layout.unread_dots[0].dot.width(), expected_dot);
        let preview = layout.preview.expect("preview at supported DPI");
        assert_eq!(preview.radius, expected_radius);
        assert_eq!(preview.icon.width(), scale.pixels(PREVIEW_ICON_SIZE));
    }
}

#[test]
fn notification_layout_clips_preview_on_tiny_surfaces() {
    let notification = tell(1_000);
    let snapshot = notification.visual_snapshot(1_001, false);
    let layout = content_layout(&snapshot, Rect::new(0, 0, 80, 40), 35, Scale::from_dpi(144), 500);
    assert!(layout.preview.is_none());
    assert!(layout.unread_dots.iter().all(|dot| dot.dot == dot.dot.intersect(Rect::new(0, 0, 80, 40))));
}

#[test]
fn timer_constrained_invite_layout_has_no_invisible_button_hits() {
    let notification = invite(None, 2_000);
    let snapshot = notification.visual_snapshot(2_001, false);
    let canvas = Rect::new(0, 0, 420, 180);
    let style = LabelStyle::new(Scale::unit(), 48);
    let unconstrained = notification_content_layout(&snapshot, canvas, 3, style, None, 180);
    assert_eq!(unconstrained.preview.as_ref().unwrap().buttons.len(), 2);

    let constrained = notification_content_layout(&snapshot, canvas, 3, style, Some(Progress::new(1, 2)), 180);
    let preview = constrained.preview.expect("plain fallback remains visible");
    assert!(preview.buttons.is_empty());
    assert_eq!(preview.surface.height(), 49);
    assert!(TIMER_PANEL_HEIGHT > 0);
}
