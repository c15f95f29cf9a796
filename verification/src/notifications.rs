//! PiP notification state: unread history, the latest event's preview, the
//! border animation timeline and group-invitation actions.

use vstd::prelude::*;
use vstd::string::StringExecFns;
use crate::geometry::{Color, color_of};
use crate::log_events::{ChatEvent, LogEvent, NotificationEvent};
use crate::pid_map::PidMap;

verus! {

pub const TIMER_ID: usize = 43;
pub const ANIMATION_STEP_MS: u32 = 16;
pub const LABEL_MIN_ALPHA: u8 = 245;
pub const RESURRECTION_COLOR: u32 = 0x0089DF80;
pub const DEATH_COLOR: u32 = 0x006F82FF;

pub const PREVIEW_DURATION_MS: u64 = 6000;
pub const ANIMATION_LAP_MS: u64 = 900;
pub const ANIMATION_LAPS: u64 = 3;
pub const ANIMATION_DURATION_MS: u64 = 2700;
pub const MAX_TRACKED_UNREAD: usize = 256;

#[derive(Clone, Copy, Debug, PartialEq, Eq, Structural)]
pub enum Kind {
    Tell,
    GroupInvite,
    RaidInvite,
    Resurrection,
    Death,
}

/// Which notification kinds the user enabled.
#[derive(Clone, Copy, Debug, PartialEq, Eq, Structural)]
pub struct EnabledKinds {
    pub tells: bool,
    pub group_invites: bool,
    pub raid_invites: bool,
    pub resurrections: bool,
    pub deaths: bool,
}

impl EnabledKinds {
    pub open spec fn spec_contains(self, kind: Kind) -> bool {
        match kind {
            Kind::Tell => self.tells,
            Kind::GroupInvite => self.group_invites,
            Kind::RaidInvite => self.raid_invites,
            Kind::Resurrection => self.resurrections,
            Kind::Death => self.deaths,
        }
    }

    pub fn contains(self, kind: Kind) -> (b: bool)
        ensures
            b == self.spec_contains(kind),
    {
        match kind {
            Kind::Tell => self.tells,
            Kind::GroupInvite => self.group_invites,
            Kind::RaidInvite => self.raid_invites,
            Kind::Resurrection => self.resurrections,
            Kind::Death => self.deaths,
        }
    }
}

/// One unread event's indicator.
#[derive(Clone, Copy, Debug, PartialEq, Eq, Structural)]
pub struct Unread {
    pub kind: Kind,
    pub color: u32,
}

#[derive(Clone, Copy, Debug, PartialEq, Eq, Structural)]
pub enum InviteAction {
    Accept,
    Dismiss,
}

/// A client's notification: the latest event's content plus the indicators
/// of every unread event, oldest first.
#[derive(Debug)]
pub struct Notification {
    pub kind: Kind,
    pub text: String,
    pub color: u32,
    pub received_at_ms: u64,
    pub unread: Vec<Unread>,
    pub invite_actions: bool,
    pub hovered_action: Option<InviteAction>,
    pub pressed_action: Option<InviteAction>,
    pub invite_preview_pressed: bool,
    pub animation_complete: bool,
    pub preview_complete: bool,
}

/// The unread history after one more event: the oldest entry is dropped when
/// the history is full.
pub open spec fn pushed_unread(prev: Seq<Unread>, u: Unread) -> Seq<Unread> {
    if prev.len() == MAX_TRACKED_UNREAD { prev.drop_first().push(u) } else { prev.push(u) }
}

pub open spec fn since(now: u64, earlier: u64) -> u64 {
    if now >= earlier { (now - earlier) as u64 } else { 0 }
}

/// The history without group invitations.
pub open spec fn without_invites(s: Seq<Unread>) -> Seq<Unread> {
    s.filter(|u: Unread| u.kind != Kind::GroupInvite)
}

impl Notification {
    /// The notification after receiving an event: the event's content
    /// replaces the previous one and its indicator joins the unread history.
    pub fn push(
        previous: Option<Notification>,
        kind: Kind,
        text: String,
        color: u32,
        received_at_ms: u64,
        invite_actions: bool,
    ) -> (n: Notification)
        ensures
            n.unread@ == pushed_unread(
                match previous {
                    Some(p) => p.unread@,
                    None => Seq::empty(),
                },
                Unread { kind, color },
            ),
            n.kind == kind && n.text == text && n.color == color && n.received_at_ms == received_at_ms,
            n.invite_actions == invite_actions,
            n.hovered_action is None && n.pressed_action is None,
            !n.invite_preview_pressed && !n.animation_complete && !n.preview_complete,
            // The history stays bounded and keeps the newest events.
            (match previous {
                Some(p) => p.unread@.len(),
                None => 0,
            }) <= MAX_TRACKED_UNREAD ==> n.unread@.len() <= MAX_TRACKED_UNREAD,
            n.unread@.last() == (Unread { kind, color }),
    {
        let mut unread = match previous {
            Some(notification) => notification.unread,
            None => Vec::new(),
        };
        let ghost prev = unread@;
        if unread.len() == MAX_TRACKED_UNREAD {
            unread.remove(0);
            assert(unread@ =~= prev.drop_first());
        }
        unread.push(Unread { kind, color });
        Notification {
            kind,
            text,
            color,
            received_at_ms,
            unread,
            invite_actions,
            hovered_action: None,
            pressed_action: None,
            invite_preview_pressed: false,
            animation_complete: false,
            preview_complete: false,
        }
    }

    pub fn elapsed_ms(&self, now_ms: u64) -> (e: u64)
        ensures
            e == since(now_ms, self.received_at_ms),
    {
        if now_ms >= self.received_at_ms {
            now_ms - self.received_at_ms
        } else {
            0
        }
    }

    pub open spec fn spec_preview_visible(&self, now_ms: u64) -> bool {
        !self.preview_complete && since(now_ms, self.received_at_ms) < PREVIEW_DURATION_MS
    }

    /// The preview shows for six seconds unless finished early.
    pub fn preview_visible(&self, now_ms: u64) -> (b: bool)
        ensures
            b == self.spec_preview_visible(now_ms),
    {
        !self.preview_complete && self.elapsed_ms(now_ms) < PREVIEW_DURATION_MS
    }

    /// The border animation's lap and milliseconds into that lap; the lap's
    /// progress is the second value over `ANIMATION_LAP_MS`.
    pub open spec fn spec_animation_frame(&self, now_ms: u64, animations_enabled: bool) -> Option<(u64, u64)> {
        let elapsed = since(now_ms, self.received_at_ms);
        if animations_enabled && !self.animation_complete && elapsed < ANIMATION_DURATION_MS {
            Some(((elapsed / ANIMATION_LAP_MS) as u64, (elapsed % ANIMATION_LAP_MS) as u64))
        } else {
            None
        }
    }

    pub fn animation_frame(&self, now_ms: u64, animations_enabled: bool) -> (f: Option<(u64, u64)>)
        ensures
            f == self.spec_animation_frame(now_ms, animations_enabled),
            f matches Some((lap, phase)) ==> lap < ANIMATION_LAPS && phase < ANIMATION_LAP_MS,
    {
        let elapsed = self.elapsed_ms(now_ms);
        if animations_enabled && !self.animation_complete && elapsed < ANIMATION_DURATION_MS {
            Some((elapsed / ANIMATION_LAP_MS, elapsed % ANIMATION_LAP_MS))
        } else {
            None
        }
    }

    /// Advance the timeline to `now`: returns whether the border and the
    /// preview need a redraw. Each finishes exactly once, with one last
    /// redraw.
    pub fn redraws_for_tick(&mut self, now_ms: u64, animations_enabled: bool) -> (r: (bool, bool))
        ensures
            ({
                let animating = old(self).spec_animation_frame(now_ms, animations_enabled) is Some;
                let preview_ends = !old(self).spec_preview_visible(now_ms) && !old(self).preview_complete;
                &&& r.0 == (animating || !old(self).animation_complete)
                &&& r.1 == preview_ends
                &&& final(self).animation_complete == (old(self).animation_complete || !animating)
                &&& final(self).preview_complete == (old(self).preview_complete || preview_ends)
                &&& final(self).kind == old(self).kind
                &&& final(self).text == old(self).text
                &&& final(self).color == old(self).color
                &&& final(self).received_at_ms == old(self).received_at_ms
                &&& final(self).unread@ == old(self).unread@
                &&& final(self).invite_actions == old(self).invite_actions
                &&& final(self).hovered_action == old(self).hovered_action
                &&& final(self).pressed_action == old(self).pressed_action
                &&& final(self).invite_preview_pressed == old(self).invite_preview_pressed
            }),
    {
        let border = if self.animation_frame(now_ms, animations_enabled).is_some() {
            true
        } else if !self.animation_complete {
            self.animation_complete = true;
            true
        } else {
            false
        };
        let preview = if !self.preview_visible(now_ms) && !self.preview_complete {
            self.preview_complete = true;
            true
        } else {
            false
        };
        (border, preview)
    }

    /// End the invitation preview; the notification falls back to the newest
    /// remaining unread event. Returns true when nothing unread remains.
    pub fn finish_invite_preview(&mut self) -> (empty: bool)
        ensures
            empty == (old(self).unread@.len() == 0),
            !final(self).invite_actions && final(self).hovered_action is None
                && final(self).pressed_action is None && !final(self).invite_preview_pressed,
            final(self).animation_complete && final(self).preview_complete,
            final(self).unread@ == old(self).unread@,
            final(self).text == old(self).text,
            final(self).received_at_ms == old(self).received_at_ms,
            old(self).unread@.len() > 0 ==> final(self).kind == old(self).unread@.last().kind
                && final(self).color == old(self).unread@.last().color,
            old(self).unread@.len() == 0 ==> final(self).kind == old(self).kind && final(self).color == old(
                self,
            ).color,
    {
        self.invite_actions = false;
        self.hovered_action = None;
        self.pressed_action = None;
        self.invite_preview_pressed = false;
        self.animation_complete = true;
        self.preview_complete = true;
        let n = self.unread.len();
        if n > 0 {
            let previous = self.unread[n - 1];
            self.kind = previous.kind;
            self.color = previous.color;
            false
        } else {
            true
        }
    }

    /// Remove only the current group invitation, preserving older unread
    /// events and their indicator colors. Returns true when nothing unread
    /// remains (the notification can go).
    pub fn dismiss_invite(&mut self) -> (empty: bool)
        ensures
            old(self).kind != Kind::GroupInvite ==> !empty && final(self).kind == old(self).kind
                && final(self).unread@ == old(self).unread@ && final(self).invite_actions == old(
                self,
            ).invite_actions && final(self).preview_complete == old(self).preview_complete,
            old(self).kind == Kind::GroupInvite ==> {
                let rest = if old(self).unread@.len() > 0 {
                    old(self).unread@.drop_last()
                } else {
                    old(self).unread@
                };
                &&& final(self).unread@ == rest
                &&& empty == (rest.len() == 0)
                &&& !final(self).invite_actions && final(self).preview_complete
                &&& rest.len() > 0 ==> final(self).kind == rest.last().kind && final(self).color
                    == rest.last().color
            },
    {
        if self.kind != Kind::GroupInvite {
            return false;
        }
        let ghost before = self.unread@;
        let _ = self.unread.pop();
        proof {
            if before.len() > 0 {
                assert(self.unread@ =~= before.drop_last());
            }
        }
        self.finish_invite_preview()
    }

    /// Clear every unread group invitation after the game confirms that its
    /// pending invitation was accepted or declined. Unrelated unread events
    /// remain. Returns true when the notification can go.
    pub fn resolve_group_invites(&mut self) -> (empty: bool)
        ensures
            final(self).unread@ == without_invites(old(self).unread@),
            old(self).kind == Kind::GroupInvite ==> {
                let rest = without_invites(old(self).unread@);
                &&& empty == (rest.len() == 0)
                &&& !final(self).invite_actions && final(self).preview_complete
                &&& rest.len() > 0 ==> final(self).kind == rest.last().kind
            },
            old(self).kind != Kind::GroupInvite ==> {
                &&& empty == (without_invites(old(self).unread@).len() == 0)
                &&& final(self).kind == old(self).kind
                &&& final(self).invite_actions == old(self).invite_actions
                &&& final(self).preview_complete == old(self).preview_complete
                &&& final(self).animation_complete == old(self).animation_complete
            },
    {
        let current_was_invite = self.kind == Kind::GroupInvite;
        let ghost pred = |u: Unread| u.kind != Kind::GroupInvite;
        let ghost s0 = self.unread@;
        let mut kept: Vec<Unread> = Vec::new();
        let n = self.unread.len();
        let mut i: usize = 0;
        proof {
            assert(s0.take(0).filter(pred) =~= Seq::<Unread>::empty()) by {
                reveal_with_fuel(Seq::filter, 1);
            }
        }
        while i < n
            invariant
                n == s0.len(),
                self.unread@ == s0,
                pred == (|u: Unread| u.kind != Kind::GroupInvite),
                i <= n,
                kept@ == s0.take(i as int).filter(pred),
            decreases n - i,
        {
            proof {
                assert(s0.take(i + 1).drop_last() =~= s0.take(i as int));
                assert(s0.take(i + 1).last() == s0[i as int]);
                reveal_with_fuel(Seq::filter, 1);
            }
            let u = self.unread[i];
            if u.kind != Kind::GroupInvite {
                kept.push(u);
            }
            i = i + 1;
        }
        proof {
            assert(s0.take(n as int) =~= s0);
        }
        self.unread = kept;
        if current_was_invite {
            self.finish_invite_preview()
        } else {
            self.unread.len() == 0
        }
    }

    /// What the renderer needs to draw this notification at `now`.
    pub fn visual_snapshot(&self, now_ms: u64, animations_enabled: bool) -> (s: NotificationVisualSnapshot)
        ensures
            s.kind == self.kind,
            s.text@ == self.text@,
            s.color == color_of(self.color),
            s.unread_colors@.len() == self.unread@.len(),
            forall|i: int| 0 <= i < self.unread@.len() ==> #[trigger] s.unread_colors@[i] == color_of(
                self.unread@[i].color,
            ),
            s.invite_actions == self.invite_actions,
            s.hovered_action == self.hovered_action,
            s.pressed_action == self.pressed_action,
            s.animation == self.spec_animation_frame(now_ms, animations_enabled),
            s.preview_visible == self.spec_preview_visible(now_ms),
    {
        let mut colors: Vec<Color> = Vec::new();
        let n = self.unread.len();
        let mut i: usize = 0;
        while i < n
            invariant
                n == self.unread@.len(),
                i <= n,
                colors@.len() == i,
                forall|j: int| 0 <= j < i ==> #[trigger] colors@[j] == color_of(self.unread@[j].color),
            decreases n - i,
        {
            colors.push(Color::from_colorref(self.unread[i].color));
            i = i + 1;
        }
        NotificationVisualSnapshot {
            kind: self.kind,
            text: self.text.clone(),
            color: Color::from_colorref(self.color),
            unread_colors: colors,
            invite_actions: self.invite_actions,
            hovered_action: self.hovered_action,
            pressed_action: self.pressed_action,
            animation: self.animation_frame(now_ms, animations_enabled),
            preview_visible: self.preview_visible(now_ms),
        }
    }
}

/// The renderer's view of a notification at one instant.
#[derive(Debug)]
pub struct NotificationVisualSnapshot {
    pub kind: Kind,
    pub text: String,
    pub color: Color,
    pub unread_colors: Vec<Color>,
    pub invite_actions: bool,
    pub hovered_action: Option<InviteAction>,
    pub pressed_action: Option<InviteAction>,
    /// Border animation lap and milliseconds into it.
    pub animation: Option<(u64, u64)>,
    pub preview_visible: bool,
}

/// How a notification for a client is delivered visually.
#[derive(Clone, Copy, Debug, PartialEq, Eq, Structural)]
pub enum VisualDelivery {
    Show,
    /// The client is the focused game window: its player already sees it.
    SuppressFocused,
    SuppressDisabled,
}

/// Decide visual delivery from the truly focused game client, not the stored
/// partition.
pub fn visual_delivery(target_pid: u32, focused_eq_pid: Option<u32>, visuals_enabled: bool) -> (d: VisualDelivery)
    ensures
        d == (if focused_eq_pid == Some(target_pid) {
            VisualDelivery::SuppressFocused
        } else if visuals_enabled {
            VisualDelivery::Show
        } else {
            VisualDelivery::SuppressDisabled
        }),
{
    if focused_eq_pid == Some(target_pid) {
        VisualDelivery::SuppressFocused
    } else if visuals_enabled {
        VisualDelivery::Show
    } else {
        VisualDelivery::SuppressDisabled
    }
}


impl Notification {
    /// A press on the invite preview: the preview is held and the pressed
    /// button (if any) is both hovered and pressed.
    pub fn press_invite(&mut self, action: Option<InviteAction>)
        ensures
            final(self).invite_preview_pressed,
            final(self).hovered_action == action,
            final(self).pressed_action == action,
            final(self).kind == old(self).kind,
            final(self).unread == old(self).unread,
            final(self).invite_actions == old(self).invite_actions,
            final(self).preview_complete == old(self).preview_complete,
    {
        self.invite_preview_pressed = true;
        self.hovered_action = action;
        self.pressed_action = action;
    }

    /// The release of a press on the invite preview, over the button
    /// `hovered` (if any). The action runs only when released on the button
    /// that was pressed; without a held press nothing happens.
    pub fn release_invite(&mut self, hovered: Option<InviteAction>) -> (r: Option<InviteAction>)
        ensures
            !final(self).invite_preview_pressed,
            !old(self).invite_preview_pressed ==> r is None && final(self).hovered_action == old(self).hovered_action
                && final(self).pressed_action == old(self).pressed_action,
            old(self).invite_preview_pressed ==> {
                &&& final(self).pressed_action is None
                &&& final(self).hovered_action == hovered
                &&& r == (if hovered is Some && hovered == old(self).pressed_action { hovered } else { None })
            },
            final(self).kind == old(self).kind,
            final(self).unread == old(self).unread,
            final(self).invite_actions == old(self).invite_actions,
    {
        if !self.invite_preview_pressed {
            return None;
        }
        self.invite_preview_pressed = false;
        let pressed = self.pressed_action.take();
        self.hovered_action = hovered;
        match hovered {
            Some(action) => match pressed {
                Some(p) => if p == action { Some(action) } else { None },
                None => None,
            },
            None => None,
        }
    }

    /// Track the button under the pointer. Returns whether it changed.
    pub fn set_hover(&mut self, hovered: Option<InviteAction>) -> (changed: bool)
        ensures
            changed == (old(self).hovered_action != hovered),
            final(self).hovered_action == hovered,
            final(self).pressed_action == old(self).pressed_action,
            final(self).invite_preview_pressed == old(self).invite_preview_pressed,
            final(self).kind == old(self).kind,
            final(self).unread == old(self).unread,
    {
        let changed = self.hovered_action != hovered;
        self.hovered_action = hovered;
        changed
    }

    /// Clear the pointer's interaction, one piece per call: the hover, else
    /// the pressed button, else the held press. Returns whether something was
    /// cleared.
    pub fn clear_interaction(&mut self) -> (cleared: bool)
        ensures
            old(self).hovered_action is Some ==> {
                &&& cleared
                &&& final(self).hovered_action is None
                &&& final(self).pressed_action == old(self).pressed_action
                &&& final(self).invite_preview_pressed == old(self).invite_preview_pressed
            },
            old(self).hovered_action is None && old(self).pressed_action is Some ==> {
                &&& cleared
                &&& final(self).hovered_action is None
                &&& final(self).pressed_action is None
                &&& final(self).invite_preview_pressed == old(self).invite_preview_pressed
            },
            old(self).hovered_action is None && old(self).pressed_action is None ==> {
                &&& cleared == old(self).invite_preview_pressed
                &&& !final(self).invite_preview_pressed
                &&& final(self).hovered_action is None
                &&& final(self).pressed_action is None
            },
            final(self).kind == old(self).kind,
            final(self).unread == old(self).unread,
    {
        if self.hovered_action.is_some() {
            self.hovered_action = None;
            return true;
        }
        if self.pressed_action.is_some() {
            self.pressed_action = None;
            return true;
        }
        let held = self.invite_preview_pressed;
        self.invite_preview_pressed = false;
        held
    }

    /// After a failed acceptance the invite loses its buttons.
    pub fn withdraw_invite_actions(&mut self)
        ensures
            !final(self).invite_actions,
            final(self).hovered_action is None,
            final(self).pressed_action is None,
            !final(self).invite_preview_pressed,
            final(self).kind == old(self).kind,
            final(self).unread == old(self).unread,
            final(self).preview_complete == old(self).preview_complete,
    {
        self.invite_actions = false;
        self.hovered_action = None;
        self.pressed_action = None;
        self.invite_preview_pressed = false;
    }

    /// Whether the invite preview takes the pointer: it offers actions and
    /// is still shown.
    pub fn invite_preview_active(&self) -> (b: bool)
        ensures
            b == (self.invite_actions && !self.preview_complete),
    {
        self.invite_actions && !self.preview_complete
    }
}

/// Which chat color a notification event is drawn in.
#[derive(Clone, Copy, Debug, PartialEq, Eq, Structural)]
pub enum ChatColorKind {
    Tell,
    Group,
    Raid,
}

/// The configured chat color an event needs, if any (resurrections and
/// deaths have fixed colors).
pub fn chat_color_kind(event: &LogEvent) -> (k: Option<ChatColorKind>)
    ensures
        k == match *event {
            LogEvent::Chat(ChatEvent::IncomingTell(_)) => Some(ChatColorKind::Tell),
            LogEvent::Notification(NotificationEvent::GroupInvite { .. }) => Some(ChatColorKind::Group),
            LogEvent::Notification(NotificationEvent::RaidInvite { .. }) => Some(ChatColorKind::Raid),
            _ => None::<ChatColorKind>,
        },
{
    match event {
        LogEvent::Chat(ChatEvent::IncomingTell(_)) => Some(ChatColorKind::Tell),
        LogEvent::Notification(NotificationEvent::GroupInvite { .. }) => Some(ChatColorKind::Group),
        LogEvent::Notification(NotificationEvent::RaidInvite { .. }) => Some(ChatColorKind::Raid),
        _ => None,
    }
}

/// What a log event means for its client's notification.
#[derive(Debug)]
pub enum NotificationContent {
    /// The group invitation was answered in game: the invites resolve.
    ResolveInvites,
    /// A new notification of this kind, text and color.
    New { kind: Kind, text: String, color: u32 },
    Ignore,
}

pub open spec fn tell_text(sender: Seq<char>, message: Seq<char>) -> Seq<char> {
    sender + ": "@ + message
}

/// The notification an event raises: tells show `sender: message`,
/// invitations name the inviter, deaths the killer. `chat_color` is the
/// resolved color of the event's chat color kind.
pub fn notification_content(event: &LogEvent, chat_color: u32) -> (c: NotificationContent)
    ensures
        match *event {
            LogEvent::Notification(NotificationEvent::GroupInviteAccepted) => c is ResolveInvites,
            LogEvent::Notification(NotificationEvent::GroupInviteDeclined) => c is ResolveInvites,
            LogEvent::Chat(ChatEvent::IncomingTell(tell)) => c matches NotificationContent::New { kind, text, color }
                && kind == Kind::Tell && text@ == tell_text(tell.sender@, tell.message@) && color == chat_color,
            LogEvent::Notification(NotificationEvent::GroupInvite { inviter }) => c matches NotificationContent::New {
                kind,
                text,
                color,
            } && kind == Kind::GroupInvite && text@ == inviter@ + " invited you to a group"@ && color == chat_color,
            LogEvent::Notification(NotificationEvent::RaidInvite { inviter }) => c matches NotificationContent::New {
                kind,
                text,
                color,
            } && kind == Kind::RaidInvite && text@ == inviter@ + " invited you to a raid"@ && color == chat_color,
            LogEvent::Notification(NotificationEvent::ResurrectionOffered) => c matches NotificationContent::New {
                kind,
                text,
                color,
            } && kind == Kind::Resurrection && text@ == "Resurrection offered"@ && color == RESURRECTION_COLOR,
            LogEvent::Notification(NotificationEvent::CharacterSlain { killer }) => c matches NotificationContent::New {
                kind,
                text,
                color,
            } && kind == Kind::Death && text@ == "Slain by "@ + killer@ && color == DEATH_COLOR,
            _ => c is Ignore,
        },
{
    match event {
        LogEvent::Notification(NotificationEvent::GroupInviteAccepted) => NotificationContent::ResolveInvites,
        LogEvent::Notification(NotificationEvent::GroupInviteDeclined) => NotificationContent::ResolveInvites,
        LogEvent::Chat(ChatEvent::IncomingTell(tell)) => {
            let mut text = tell.sender.clone();
            text.append(": ");
            text.append(tell.message.as_str());
            NotificationContent::New { kind: Kind::Tell, text, color: chat_color }
        },
        LogEvent::Notification(NotificationEvent::GroupInvite { inviter }) => {
            let mut text = inviter.clone();
            text.append(" invited you to a group");
            NotificationContent::New { kind: Kind::GroupInvite, text, color: chat_color }
        },
        LogEvent::Notification(NotificationEvent::RaidInvite { inviter }) => {
            let mut text = inviter.clone();
            text.append(" invited you to a raid");
            NotificationContent::New { kind: Kind::RaidInvite, text, color: chat_color }
        },
        LogEvent::Notification(NotificationEvent::ResurrectionOffered) => NotificationContent::New {
            kind: Kind::Resurrection,
            text: String::from_str("Resurrection offered"),
            color: RESURRECTION_COLOR,
        },
        LogEvent::Notification(NotificationEvent::CharacterSlain { killer }) => {
            let mut text = String::from_str("Slain by ");
            text.append(killer.as_str());
            NotificationContent::New { kind: Kind::Death, text, color: DEATH_COLOR }
        },
        _ => NotificationContent::Ignore,
    }
}

/// The toast after a group invitation could not be accepted.
pub fn invite_failure_toast(message: &str) -> (s: String)
    ensures
        s@ == "Could not accept the group invitation: "@ + message@,
{
    let mut s = String::from_str("Could not accept the group invitation: ");
    s.append(message);
    s
}

/// Record a new notification for a client under the rules of delivery: a
/// disabled kind changes nothing; the focused client's notification is
/// dropped; with visuals off nothing is recorded; otherwise the event joins
/// the client's notification. Returns whether the client's notification was
/// recorded.
pub fn record_notification(
    notifications: &mut PidMap<Notification>,
    kinds: EnabledKinds,
    pid: u32,
    delivery: VisualDelivery,
    kind: Kind,
    text: String,
    color: u32,
    now_ms: u64,
    invite_actions: bool,
) -> (recorded: bool)
    requires
        old(notifications).wf(),
    ensures
        final(notifications).wf(),
        recorded == (kinds.spec_contains(kind) && delivery == VisualDelivery::Show),
        !kinds.spec_contains(kind) ==> final(notifications).view() == old(notifications).view(),
        kinds.spec_contains(kind) && delivery == VisualDelivery::SuppressFocused ==> final(notifications).view()
            == old(notifications).view().remove(pid),
        kinds.spec_contains(kind) && delivery == VisualDelivery::SuppressDisabled ==> final(notifications).view()
            == old(notifications).view(),
        recorded ==> {
            let n = final(notifications).view()[pid];
            &&& final(notifications).view().contains_key(pid)
            &&& final(notifications).view().remove(pid) == old(notifications).view().remove(pid)
            &&& n.kind == kind && n.text == text && n.color == color && n.received_at_ms == now_ms
            &&& n.invite_actions == (invite_actions && kind == Kind::GroupInvite)
            &&& n.unread@ == pushed_unread(
                if old(notifications).view().contains_key(pid) {
                    old(notifications).view()[pid].unread@
                } else {
                    Seq::empty()
                },
                Unread { kind, color },
            )
        },
{
    if !kinds.contains(kind) {
        return false;
    }
    match delivery {
        VisualDelivery::SuppressFocused => {
            notifications.remove(pid);
            return false;
        },
        VisualDelivery::SuppressDisabled => {
            return false;
        },
        VisualDelivery::Show => {},
    }
    let previous = notifications.remove(pid);
    let n = Notification::push(previous, kind, text, color, now_ms, invite_actions && kind == Kind::GroupInvite);
    notifications.insert(pid, n);
    proof {
        assert(final(notifications).view().remove(pid) =~= old(notifications).view().remove(pid));
    }
    true
}

} // verus!
