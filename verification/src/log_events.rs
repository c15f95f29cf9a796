//! The parsed log events that overlay presentation reacts to.

use vstd::prelude::*;

verus! {

/// Why an auto-attack could not land.
#[derive(Clone, Copy, Debug, PartialEq, Eq, Structural)]
pub enum AttackProblem {
    OutOfRange,
    TooClose,
    LineOfSight,
}

#[derive(Clone, Copy, Debug, PartialEq, Eq, Structural)]
pub enum CombatEvent {
    /// The character's weapon damaged something.
    WeaponDamageDealt,
    /// The character took damage.
    DamageTaken,
    /// An attack was refused for a positional reason.
    AttackBlocked(AttackProblem),
}

#[derive(Clone, Copy, Debug, PartialEq, Eq, Structural)]
pub enum CharacterEvent {
    Died,
    /// The character returned to play after death.
    Revived,
}

/// A tell received by the character.
pub struct Tell {
    pub sender: String,
    pub message: String,
}

pub enum ChatEvent {
    IncomingTell(Tell),
}

pub enum NotificationEvent {
    GroupInvite { inviter: String },
    RaidInvite { inviter: String },
    GroupInviteAccepted,
    GroupInviteDeclined,
    ResurrectionOffered,
    CharacterSlain { killer: String },
}

/// One parsed log line that presentation may react to.
pub enum LogEvent {
    Combat(CombatEvent),
    Character(CharacterEvent),
    Chat(ChatEvent),
    Notification(NotificationEvent),
}

/// The character log a line came from. An `id` of the form `pid:<n>` names
/// the exact client process; any other id is a legacy identity that is
/// matched by character and server name.
pub struct LogSource {
    pub id: String,
    pub character: String,
    pub server: String,
}

pub struct ParsedLogEvent {
    pub source: LogSource,
    pub event: LogEvent,
}

} // verus!
