use stonemite::log_events::{ChatEvent, CharacterEvent, LogEvent, NotificationEvent, Tell};
use stonemite::notifications::{
    chat_color_kind, invite_failure_toast, notification_content, record_notification, ChatColorKind, EnabledKinds,
    InviteAction, Kind, Notification, NotificationContent, VisualDelivery, DEATH_COLOR, RESURRECTION_COLOR,
};
use stonemite::pid_map::PidMap;

fn all_kinds() -> EnabledKinds {
    EnabledKinds { tells: true, group_invites: true, raid_invites: true, resurrections: true, deaths: true }
}

fn content(event: &LogEvent) -> (Kind, String, u32) {
    match notification_content(event, 0x123456) {
        NotificationContent::New { kind, text, color } => (kind, text, color),
        other => panic!("no notification: {:?}", other),
    }
}

#[test]
fn log_events_raise_their_notifications() {
    let tell = LogEvent::Chat(ChatEvent::IncomingTell(Tell { sender: "Aria".to_string(), message: "hi".to_string() }));
    assert_eq!(content(&tell), (Kind::Tell, "Aria: hi".to_string(), 0x123456));
    assert_eq!(chat_color_kind(&tell), Some(ChatColorKind::Tell));
    let group = LogEvent::Notification(NotificationEvent::GroupInvite { inviter: "Bront".to_string() });
    assert_eq!(content(&group), (Kind::GroupInvite, "Bront invited you to a group".to_string(), 0x123456));
    let raid = LogEvent::Notification(NotificationEvent::RaidInvite { inviter: "Caela".to_string() });
    assert_eq!(content(&raid).1, "Caela invited you to a raid");
    assert_eq!(chat_color_kind(&raid), Some(ChatColorKind::Raid));
    let res = LogEvent::Notification(NotificationEvent::ResurrectionOffered);
    assert_eq!(content(&res), (Kind::Resurrection, "Resurrection offered".to_string(), RESURRECTION_COLOR));
    assert_eq!(chat_color_kind(&res), None);
    let slain = LogEvent::Notification(NotificationEvent::CharacterSlain { killer: "a gnoll".to_string() });
    assert_eq!(content(&slain), (Kind::Death, "Slain by a gnoll".to_string(), DEATH_COLOR));
    assert!(matches!(
        notification_content(&LogEvent::Notification(NotificationEvent::GroupInviteAccepted), 0),
        NotificationContent::ResolveInvites
    ));
    assert!(matches!(
        notification_content(&LogEvent::Character(CharacterEvent::Died), 0),
        NotificationContent::Ignore
    ));
    assert_eq!(invite_failure_toast("busy"), "Could not accept the group invitation: busy");
}

#[test]
fn delivery_rules_decide_what_is_recorded() {
    let mut map: PidMap<Notification> = PidMap::new();
    assert!(record_notification(&mut map, all_kinds(), 7, VisualDelivery::Show, Kind::Tell, "a".into(), 1, 10, true));
    assert!(record_notification(&mut map, all_kinds(), 7, VisualDelivery::Show, Kind::Death, "b".into(), 2, 20, false));
    let n = map.get(7).unwrap();
    assert_eq!(n.text, "b");
    assert_eq!(n.unread.len(), 2);
    // Tells never offer invite buttons.
    assert!(!n.invite_actions);
    assert!(!record_notification(&mut map, all_kinds(), 7, VisualDelivery::SuppressDisabled, Kind::Tell, "c".into(), 3, 30, false));
    assert_eq!(map.get(7).unwrap().text, "b");
    let no_tells = EnabledKinds { tells: false, ..all_kinds() };
    assert!(!record_notification(&mut map, no_tells, 7, VisualDelivery::SuppressFocused, Kind::Tell, "d".into(), 4, 40, false));
    assert!(map.get(7).is_some());
    assert!(!record_notification(&mut map, all_kinds(), 7, VisualDelivery::SuppressFocused, Kind::Tell, "e".into(), 5, 50, false));
    assert!(map.get(7).is_none());
}

#[test]
fn invite_buttons_act_only_on_release_over_the_pressed_button() {
    let mut n = Notification::push(None, Kind::GroupInvite, "x".into(), 1, 0, true);
    assert!(n.invite_preview_active());
    assert_eq!(n.release_invite(Some(InviteAction::Accept)), None);
    n.press_invite(Some(InviteAction::Accept));
    assert_eq!(n.release_invite(Some(InviteAction::Dismiss)), None);
    n.press_invite(Some(InviteAction::Dismiss));
    assert_eq!(n.release_invite(Some(InviteAction::Dismiss)), Some(InviteAction::Dismiss));
    assert!(n.set_hover(Some(InviteAction::Accept)));
    assert!(!n.set_hover(Some(InviteAction::Accept)));
    n.press_invite(Some(InviteAction::Accept));
    assert!(n.clear_interaction());
    assert!(n.clear_interaction());
    assert!(n.clear_interaction());
    assert!(!n.clear_interaction());
    n.withdraw_invite_actions();
    assert!(!n.invite_preview_active());
}
