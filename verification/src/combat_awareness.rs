//! Per-client combat awareness: attack frames, hit flashes, a blood vignette
//! for incoming damage, attack-problem banners and a durable death state.
//!
//! Times are milliseconds on the owner's tick clock. A visual key summarizes
//! what a client's label should show at a given instant; the center redraws a
//! label only when its key changes.

use vstd::prelude::*;
use crate::geometry::{Color, Rect, Scale, color_of, coord_ok, dpi_ok, lemma_pixels_range};
use crate::log_events::{AttackProblem, CharacterEvent, CombatEvent, LogEvent};
use crate::pid_map::{PidMap, lemma_map_of_pointwise, map_of};

verus! {

pub const TIMER_ID: usize = 46;
pub const TIMER_INTERVAL_MS: u32 = 50;

pub const HIT_FLASH_MS: u64 = 120;
pub const MIN_HIT_FLASH_INTERVAL_MS: u64 = 334;
pub const DAMAGE_EFFECT_MS: u64 = 850;
pub const DAMAGE_IMPACT_MS: u64 = 150;
pub const DAMAGE_DECAY_MS: u64 = 450;
pub const ATTACK_ISSUE_MS: u64 = 10_000;

pub const ATTACK_RED: u32 = 0x003648E8;
pub const IMPACT_WHITE: u32 = 0x00FFFFFF;
pub const ATTENTION_AMBER: u32 = 0x002BA5F0;
pub const BLOOD_RED: u32 = 0x002010B5;
pub const DEATH_RED: u32 = 0x0018106B;
pub const ATTENTION_SURFACE: u32 = 0x00101828;
pub const DEATH_SURFACE: u32 = 0x00101050;

#[derive(Clone, Copy, Debug, PartialEq, Eq, Structural)]
pub enum CombatStatus {
    OutOfRange,
    TooClose,
    LineOfSight,
    Dead,
}

impl CombatStatus {
    /// The banner text for a status.
    pub fn label(self) -> (s: &'static str)
        ensures
            self == CombatStatus::OutOfRange ==> s@ == "OUT OF RANGE"@,
            self == CombatStatus::TooClose ==> s@ == "TOO CLOSE"@,
            self == CombatStatus::LineOfSight ==> s@ == "NO LINE OF SIGHT"@,
            self == CombatStatus::Dead ==> s@ == "DEAD"@,
    {
        match self {
            CombatStatus::OutOfRange => "OUT OF RANGE",
            CombatStatus::TooClose => "TOO CLOSE",
            CombatStatus::LineOfSight => "NO LINE OF SIGHT",
            CombatStatus::Dead => "DEAD",
        }
    }
}

#[derive(Clone, Copy, Debug, PartialEq, Eq, Structural)]
pub enum BorderKind {
    Attacking,
    Hit,
    Attention,
    Dead,
}

/// How strongly the incoming-damage vignette shows.
#[derive(Clone, Copy, Debug, PartialEq, Eq, Structural)]
pub enum DamagePhase {
    NoDamage,
    Faint,
    Decay,
    Impact,
}

/// What a client's label shows at one instant.
#[derive(Clone, Copy, Debug, PartialEq, Eq, Structural)]
pub struct VisualKey {
    pub border: Option<BorderKind>,
    pub damage: DamagePhase,
    pub status: Option<CombatStatus>,
}

pub open spec fn neutral_key() -> VisualKey {
    VisualKey { border: None, damage: DamagePhase::NoDamage, status: None }
}

pub fn neutral() -> (k: VisualKey)
    ensures
        k == neutral_key(),
{
    VisualKey { border: None, damage: DamagePhase::NoDamage, status: None }
}

#[derive(Clone, Copy, Debug, PartialEq, Eq, Structural)]
pub struct AttackIssue {
    pub problem: AttackProblem,
    pub observed_at_ms: u64,
}

/// Per-client combat state.
#[derive(Clone, Copy, Debug, PartialEq, Eq, Structural)]
pub struct Entry {
    pub last_weapon_hit_ms: Option<u64>,
    pub hit_flash_until_ms: u64,
    pub last_hit_flash_ms: Option<u64>,
    pub last_damage_taken_ms: Option<u64>,
    pub attack_issue: Option<AttackIssue>,
    pub dead: bool,
    /// The key last handed to the renderer.
    pub rendered: Option<VisualKey>,
}

pub open spec fn default_entry() -> Entry {
    Entry {
        last_weapon_hit_ms: None,
        hit_flash_until_ms: 0,
        last_hit_flash_ms: None,
        last_damage_taken_ms: None,
        attack_issue: None,
        dead: false,
        rendered: None,
    }
}

pub fn new_entry() -> (e: Entry)
    ensures
        e == default_entry(),
{
    Entry {
        last_weapon_hit_ms: None,
        hit_flash_until_ms: 0,
        last_hit_flash_ms: None,
        last_damage_taken_ms: None,
        attack_issue: None,
        dead: false,
        rendered: None,
    }
}

/// Milliseconds from `earlier` to `now`, zero if `earlier` lies ahead.
pub open spec fn since(now: u64, earlier: u64) -> u64 {
    if now >= earlier { (now - earlier) as u64 } else { 0 }
}

pub open spec fn status_of(problem: AttackProblem) -> CombatStatus {
    match problem {
        AttackProblem::OutOfRange => CombatStatus::OutOfRange,
        AttackProblem::TooClose => CombatStatus::TooClose,
        AttackProblem::LineOfSight => CombatStatus::LineOfSight,
    }
}

/// A recent attack problem, shown for ten seconds.
pub open spec fn attack_status(e: Entry, now: u64) -> Option<CombatStatus> {
    match e.attack_issue {
        Some(issue) => if since(now, issue.observed_at_ms) < ATTACK_ISSUE_MS {
            Some(status_of(issue.problem))
        } else {
            None
        },
        None => None,
    }
}

/// The character landed a weapon hit within the attack hold.
pub open spec fn attacking(e: Entry, now: u64, hit_duration_ms: u64) -> bool {
    match e.last_weapon_hit_ms {
        Some(last) => since(now, last) < hit_duration_ms,
        None => false,
    }
}

pub open spec fn damage_phase(e: Entry, now: u64, animations: bool) -> DamagePhase {
    match e.last_damage_taken_ms {
        None => DamagePhase::NoDamage,
        Some(last) => {
            let elapsed = since(now, last);
            if elapsed >= DAMAGE_EFFECT_MS {
                DamagePhase::NoDamage
            } else if !animations {
                DamagePhase::Decay
            } else if elapsed < DAMAGE_IMPACT_MS {
                DamagePhase::Impact
            } else if elapsed < DAMAGE_DECAY_MS {
                DamagePhase::Decay
            } else {
                DamagePhase::Faint
            }
        },
    }
}

/// What an entry shows at `now`: death overrides everything; an attack
/// problem claims the border; a hit flash (only with animations) precedes the
/// steady attack frame.
pub open spec fn visual_key_at(e: Entry, now: u64, hit_duration_ms: u64, animations: bool) -> VisualKey {
    if e.dead {
        VisualKey {
            border: Some(BorderKind::Dead),
            damage: DamagePhase::NoDamage,
            status: Some(CombatStatus::Dead),
        }
    } else {
        let status = attack_status(e, now);
        let atk = attacking(e, now, hit_duration_ms);
        let flash = animations && atk && now < e.hit_flash_until_ms;
        VisualKey {
            border: if status is Some {
                Some(BorderKind::Attention)
            } else if flash {
                Some(BorderKind::Hit)
            } else if atk {
                Some(BorderKind::Attacking)
            } else {
                None
            },
            damage: damage_phase(e, now, animations),
            status,
        }
    }
}

/// Whether an entry's key may still change with time alone.
pub open spec fn pending_at(e: Entry, now: u64, hit_duration_ms: u64) -> bool {
    !e.dead && (now < e.hit_flash_until_ms || attacking(e, now, hit_duration_ms) || match e.last_damage_taken_ms {
        Some(last) => since(now, last) < DAMAGE_EFFECT_MS,
        None => false,
    } || attack_status(e, now) is Some)
}

/// A hit flash may start once per minimum interval.
pub open spec fn flash_allowed(e: Entry, now: u64) -> bool {
    match e.last_hit_flash_ms {
        None => true,
        Some(last) => since(now, last) >= MIN_HIT_FLASH_INTERVAL_MS,
    }
}

pub open spec fn sat_add(a: u64, b: u64) -> u64 {
    if a + b > u64::MAX { u64::MAX } else { (a + b) as u64 }
}

/// The entry after one log event observed at `now`.
pub open spec fn event_step(e: Entry, event: LogEvent, now: u64, animations: bool) -> Entry {
    match event {
        LogEvent::Combat(CombatEvent::WeaponDamageDealt) => if e.dead {
            e
        } else if animations && flash_allowed(e, now) {
            Entry {
                last_weapon_hit_ms: Some(now),
                attack_issue: None,
                last_hit_flash_ms: Some(now),
                hit_flash_until_ms: sat_add(now, HIT_FLASH_MS),
                ..e
            }
        } else {
            Entry { last_weapon_hit_ms: Some(now), attack_issue: None, ..e }
        },
        LogEvent::Combat(CombatEvent::DamageTaken) => if e.dead {
            e
        } else {
            Entry { last_damage_taken_ms: Some(now), ..e }
        },
        LogEvent::Combat(CombatEvent::AttackBlocked(problem)) => if e.dead {
            e
        } else {
            Entry { attack_issue: Some(AttackIssue { problem, observed_at_ms: now }), ..e }
        },
        LogEvent::Character(CharacterEvent::Died) => Entry {
            dead: true,
            rendered: e.rendered,
            ..default_entry()
        },
        LogEvent::Character(CharacterEvent::Revived) => if e.dead {
            Entry { rendered: e.rendered, ..default_entry() }
        } else {
            e
        },
        _ => e,
    }
}

/// Death and return to play are recorded even while presentation is off.
pub open spec fn durable(event: LogEvent) -> bool {
    event matches LogEvent::Character(_)
}

/// The entry kept when presentation is switched off: only the death state.
pub open spec fn disabled_entry(e: Entry) -> Entry {
    Entry { dead: e.dead, rendered: None, ..default_entry() }
}

/// The entry kept when presentation settings change: timing effects restart.
pub open spec fn restarted_entry(e: Entry) -> Entry {
    Entry {
        last_weapon_hit_ms: None,
        hit_flash_until_ms: 0,
        last_hit_flash_ms: None,
        last_damage_taken_ms: None,
        rendered: None,
        ..e
    }
}

impl Entry {
    pub fn visual_key(&self, now_ms: u64, hit_duration_ms: u64, animations: bool) -> (k: VisualKey)
        ensures
            k == visual_key_at(*self, now_ms, hit_duration_ms, animations),
    {
        if self.dead {
            return VisualKey {
                border: Some(BorderKind::Dead),
                damage: DamagePhase::NoDamage,
                status: Some(CombatStatus::Dead),
            };
        }
        let status = match self.attack_issue {
            Some(issue) => {
                let age: u64 = if now_ms >= issue.observed_at_ms { now_ms - issue.observed_at_ms } else { 0 };
                if age < ATTACK_ISSUE_MS {
                    Some(
                        match issue.problem {
                            AttackProblem::OutOfRange => CombatStatus::OutOfRange,
                            AttackProblem::TooClose => CombatStatus::TooClose,
                            AttackProblem::LineOfSight => CombatStatus::LineOfSight,
                        },
                    )
                } else {
                    None
                }
            },
            None => None,
        };
        let atk = match self.last_weapon_hit_ms {
            Some(last) => (if now_ms >= last { now_ms - last } else { 0 }) < hit_duration_ms,
            None => false,
        };
        let hit_flash = animations && atk && now_ms < self.hit_flash_until_ms;
        let border = if status.is_some() {
            Some(BorderKind::Attention)
        } else if hit_flash {
            Some(BorderKind::Hit)
        } else if atk {
            Some(BorderKind::Attacking)
        } else {
            None
        };
        let damage = match self.last_damage_taken_ms {
            None => DamagePhase::NoDamage,
            Some(last) => {
                let elapsed: u64 = if now_ms >= last { now_ms - last } else { 0 };
                if elapsed >= DAMAGE_EFFECT_MS {
                    DamagePhase::NoDamage
                } else if !animations {
                    DamagePhase::Decay
                } else if elapsed < DAMAGE_IMPACT_MS {
                    DamagePhase::Impact
                } else if elapsed < DAMAGE_DECAY_MS {
                    DamagePhase::Decay
                } else {
                    DamagePhase::Faint
                }
            },
        };
        VisualKey { border, damage, status }
    }

    pub fn has_pending_transition(&self, now_ms: u64, hit_duration_ms: u64) -> (b: bool)
        ensures
            b == pending_at(*self, now_ms, hit_duration_ms),
    {
        if self.dead {
            return false;
        }
        let atk = match self.last_weapon_hit_ms {
            Some(last) => (if now_ms >= last { now_ms - last } else { 0 }) < hit_duration_ms,
            None => false,
        };
        let damaged = match self.last_damage_taken_ms {
            Some(last) => (if now_ms >= last { now_ms - last } else { 0 }) < DAMAGE_EFFECT_MS,
            None => false,
        };
        let issue = match self.attack_issue {
            Some(issue) => (if now_ms >= issue.observed_at_ms {
                now_ms - issue.observed_at_ms
            } else {
                0
            }) < ATTACK_ISSUE_MS,
            None => false,
        };
        now_ms < self.hit_flash_until_ms || atk || damaged || issue
    }
}

fn step_entry(e: Entry, event: &LogEvent, now: u64, animations: bool) -> (r: Entry)
    ensures
        r == event_step(e, *event, now, animations),
{
    match event {
        LogEvent::Combat(CombatEvent::WeaponDamageDealt) => {
            if e.dead {
                return e;
            }
            let allowed = match e.last_hit_flash_ms {
                None => true,
                Some(last) => (if now >= last { now - last } else { 0 }) >= MIN_HIT_FLASH_INTERVAL_MS,
            };
            if animations && allowed {
                let until: u64 = if now > u64::MAX - HIT_FLASH_MS { u64::MAX } else { now + HIT_FLASH_MS };
                Entry {
                    last_weapon_hit_ms: Some(now),
                    attack_issue: None,
                    last_hit_flash_ms: Some(now),
                    hit_flash_until_ms: until,
                    ..e
                }
            } else {
                Entry { last_weapon_hit_ms: Some(now), attack_issue: None, ..e }
            }
        },
        LogEvent::Combat(CombatEvent::DamageTaken) => {
            if e.dead {
                e
            } else {
                Entry { last_damage_taken_ms: Some(now), ..e }
            }
        },
        LogEvent::Combat(CombatEvent::AttackBlocked(problem)) => {
            if e.dead {
                e
            } else {
                Entry { attack_issue: Some(AttackIssue { problem: *problem, observed_at_ms: now }), ..e }
            }
        },
        LogEvent::Character(CharacterEvent::Died) => {
            let fresh = new_entry();
            Entry { dead: true, rendered: e.rendered, ..fresh }
        },
        LogEvent::Character(CharacterEvent::Revived) => {
            if e.dead {
                let fresh = new_entry();
                Entry { rendered: e.rendered, ..fresh }
            } else {
                e
            }
        },
        _ => e,
    }
}

/// The key shown for an entry, neutral while presentation is off.
pub open spec fn shown_key(e: Entry, now: u64, enabled: bool, hit_duration_ms: u64, animations: bool) -> VisualKey {
    if enabled { visual_key_at(e, now, hit_duration_ms, animations) } else { neutral_key() }
}

/// All clients' combat presentation state.
pub struct CombatAwarenessCenter {
    entries: PidMap<Entry>,
    enabled: bool,
    hit_duration_ms: u64,
    animations_enabled: bool,
}

impl CombatAwarenessCenter {
    pub closed spec fn wf(&self) -> bool {
        self.entries.wf()
    }

    /// The per-client entries.
    pub closed spec fn entries(&self) -> Map<u32, Entry> {
        self.entries.view()
    }

    pub closed spec fn enabled(&self) -> bool {
        self.enabled
    }

    pub closed spec fn hit_duration_ms(&self) -> u64 {
        self.hit_duration_ms
    }

    pub closed spec fn animations_enabled(&self) -> bool {
        self.animations_enabled
    }

    /// A center with no clients, using the configured switch and attack hold.
    pub fn new(combat_awareness_enabled: bool, hit_duration_ms: u64, animations_enabled: bool) -> (c: Self)
        ensures
            c.wf(),
            c.entries() == Map::<u32, Entry>::empty(),
            c.enabled() == combat_awareness_enabled,
            c.hit_duration_ms() == hit_duration_ms,
            c.animations_enabled() == animations_enabled,
    {
        CombatAwarenessCenter {
            entries: PidMap::new(),
            enabled: combat_awareness_enabled,
            hit_duration_ms,
            animations_enabled,
        }
    }

    /// The state kept for a client, if any.
    pub fn entry(&self, pid: u32) -> (r: Option<Entry>)
        requires
            self.wf(),
        ensures
            match r {
                Some(e) => self.entries().contains_key(pid) && self.entries()[pid] == e,
                None => !self.entries().contains_key(pid),
            },
    {
        match self.entries.get(pid) {
            Some(e) => Some(*e),
            None => None,
        }
    }

    /// Apply new settings. Switching presentation off keeps only each client's
    /// death state; any other change restarts timing effects. Returns whether a
    /// setting changed.
    pub fn apply_config(&mut self, enabled: bool, hit_duration_ms: u64, animations_enabled: bool) -> (changed: bool)
        requires
            old(self).wf(),
        ensures
            final(self).wf(),
            changed == (old(self).enabled() != enabled || old(self).hit_duration_ms() != hit_duration_ms
                || old(self).animations_enabled() != animations_enabled),
            final(self).enabled() == enabled,
            final(self).hit_duration_ms() == hit_duration_ms,
            final(self).animations_enabled() == animations_enabled,
            final(self).entries() == (if !enabled {
                old(self).entries().map_values(|e: Entry| disabled_entry(e))
            } else if changed {
                old(self).entries().map_values(|e: Entry| restarted_entry(e))
            } else {
                old(self).entries()
            }),
    {
        let changed = self.enabled != enabled || self.hit_duration_ms != hit_duration_ms
            || self.animations_enabled != animations_enabled;
        self.enabled = enabled;
        self.hit_duration_ms = hit_duration_ms;
        self.animations_enabled = animations_enabled;
        if !enabled || changed {
            let ghost f = if !enabled {
                |e: Entry| disabled_entry(e)
            } else {
                |e: Entry| restarted_entry(e)
            };
            let ghost start = self.entries.entries();
            let n = self.entries.len();
            let mut i: usize = 0;
            while i < n
                invariant
                    self.entries.wf(),
                    self.enabled == enabled,
                    self.hit_duration_ms == hit_duration_ms,
                    self.animations_enabled == animations_enabled,
                    n == start.len(),
                    i <= n,
                    self.entries.entries().len() == n,
                    crate::pid_map::distinct_keys(start),
                    f == (if !enabled {
                        |e: Entry| disabled_entry(e)
                    } else {
                        |e: Entry| restarted_entry(e)
                    }),
                    forall|j: int| 0 <= j < i ==> (#[trigger] self.entries.entries()[j]).0 == start[j].0
                        && self.entries.entries()[j].1 == f(start[j].1),
                    forall|j: int| i <= j < n ==> #[trigger] self.entries.entries()[j] == start[j],
                decreases n - i,
            {
                let e = *self.entries.value_at(i);
                let next = if !enabled {
                    let fresh = new_entry();
                    Entry { dead: e.dead, rendered: None, ..fresh }
                } else {
                    Entry {
                        last_weapon_hit_ms: None,
                        hit_flash_until_ms: 0,
                        last_hit_flash_ms: None,
                        last_damage_taken_ms: None,
                        rendered: None,
                        ..e
                    }
                };
                self.entries.set_at(i, next);
                i = i + 1;
            }
            proof {
                lemma_map_of_pointwise(start, self.entries.entries(), f);
            }
            let _ = self.entries.len();
        }
        changed
    }

    pub fn remove(&mut self, pid: u32)
        requires
            old(self).wf(),
        ensures
            final(self).wf(),
            final(self).entries() == old(self).entries().remove(pid),
            final(self).enabled() == old(self).enabled(),
            final(self).hit_duration_ms() == old(self).hit_duration_ms(),
            final(self).animations_enabled() == old(self).animations_enabled(),
    {
        let _ = self.entries.remove(pid);
    }

    /// Apply one log event for a client at `now`. Returns whether the
    /// client's visual key changed.
    pub fn apply_event(&mut self, pid: u32, is_bard: bool, event: &LogEvent, now_ms: u64) -> (changed: bool)
        requires
            old(self).wf(),
        ensures
            final(self).wf(),
            final(self).enabled() == old(self).enabled(),
            final(self).hit_duration_ms() == old(self).hit_duration_ms(),
            final(self).animations_enabled() == old(self).animations_enabled(),
            ({
                let en = old(self).enabled();
                let hit = old(self).hit_duration_ms();
                let anim = old(self).animations_enabled();
                let before = if old(self).entries().contains_key(pid) {
                    old(self).entries()[pid]
                } else {
                    default_entry()
                };
                let after = event_step(before, *event, now_ms, anim);
                if !en && !durable(*event) {
                    final(self).entries() == old(self).entries() && !changed
                } else {
                    &&& final(self).entries() == old(self).entries().insert(pid, after)
                    &&& changed == (shown_key(before, now_ms, en, hit, anim) != shown_key(
                        after,
                        now_ms,
                        en,
                        hit,
                        anim,
                    ))
                }
            }),
    {
        let durable_event = match event {
            LogEvent::Character(_) => true,
            _ => false,
        };
        if !self.enabled && !durable_event {
            return false;
        }
        let before = match self.entries.get(pid) {
            Some(e) => *e,
            None => new_entry(),
        };
        let key_before = if self.enabled {
            before.visual_key(now_ms, self.hit_duration_ms, self.animations_enabled)
        } else {
            neutral()
        };
        let after = step_entry(before, event, now_ms, self.animations_enabled);
        self.entries.insert(pid, after);
        let key_after = if self.enabled {
            after.visual_key(now_ms, self.hit_duration_ms, self.animations_enabled)
        } else {
            neutral()
        };
        key_before != key_after
    }

    /// The key to render for a client now, recording it as rendered. `None`
    /// when the client has no entry or nothing to show.
    pub fn snapshot(&mut self, pid: u32, now_ms: u64) -> (r: Option<CombatVisualSnapshot>)
        requires
            old(self).wf(),
        ensures
            final(self).wf(),
            final(self).enabled() == old(self).enabled(),
            final(self).hit_duration_ms() == old(self).hit_duration_ms(),
            final(self).animations_enabled() == old(self).animations_enabled(),
            !old(self).entries().contains_key(pid) ==> r is None && final(self).entries() == old(
                self,
            ).entries(),
            old(self).entries().contains_key(pid) ==> {
                let e = old(self).entries()[pid];
                let key = shown_key(
                    e,
                    now_ms,
                    old(self).enabled(),
                    old(self).hit_duration_ms(),
                    old(self).animations_enabled(),
                );
                &&& final(self).entries() == old(self).entries().insert(pid, Entry { rendered: Some(key), ..e })
                &&& r == (if key != neutral_key() { Some(CombatVisualSnapshot { key }) } else { None })
            },
    {
        let i = match self.entries.find(pid) {
            Some(i) => i,
            None => return None,
        };
        let e = *self.entries.value_at(i);
        let key = if self.enabled {
            e.visual_key(now_ms, self.hit_duration_ms, self.animations_enabled)
        } else {
            neutral()
        };
        self.entries.set_at(i, Entry { rendered: Some(key), ..e });
        if key != neutral() {
            Some(CombatVisualSnapshot { key })
        } else {
            None
        }
    }

    /// Whether a client's label shows something other than what was last rendered.
    pub fn needs_redraw(&self, pid: u32, now_ms: u64) -> (b: bool)
        requires
            self.wf(),
        ensures
            b == (self.entries().contains_key(pid) && self.entries()[pid].rendered != Some(
                shown_key(
                    self.entries()[pid],
                    now_ms,
                    self.enabled(),
                    self.hit_duration_ms(),
                    self.animations_enabled(),
                ),
            )),
    {
        match self.entries.get(pid) {
            None => false,
            Some(e) => {
                let key = if self.enabled {
                    e.visual_key(now_ms, self.hit_duration_ms, self.animations_enabled)
                } else {
                    neutral()
                };
                e.rendered != Some(key)
            },
        }
    }

    /// Whether any client's presentation may still change with time alone.
    pub fn has_pending_transitions(&self, now_ms: u64) -> (b: bool)
        requires
            self.wf(),
        ensures
            b == (self.enabled() && exists|pid: u32|
                self.entries().contains_key(pid) && #[trigger] pending_at(
                    self.entries()[pid],
                    now_ms,
                    self.hit_duration_ms(),
                )),
    {
        if !self.enabled {
            return false;
        }
        let n = self.entries.len();
        let mut i: usize = 0;
        while i < n
            invariant
                self.entries.wf(),
                self.enabled,
                n == self.entries.entries().len(),
                self.entries.view() == map_of(self.entries.entries()),
                i <= n,
                forall|j: int| 0 <= j < i ==> !pending_at(
                    #[trigger] self.entries.entries()[j].1,
                    now_ms,
                    self.hit_duration_ms,
                ),
            decreases n - i,
        {
            let e = self.entries.value_at(i);
            if e.has_pending_transition(now_ms, self.hit_duration_ms) {
                let ghost pid = self.entries.entries()[i as int].0;
                assert(self.entries().contains_key(pid) && pending_at(
                    self.entries()[pid],
                    now_ms,
                    self.hit_duration_ms(),
                ));
                return true;
            }
            i = i + 1;
        }
        assert forall|pid: u32| self.entries().contains_key(pid) implies !#[trigger] pending_at(
            self.entries()[pid],
            now_ms,
            self.hit_duration_ms(),
        ) by {
            let j = choose|j: int|
                0 <= j < self.entries.entries().len() && self.entries.entries()[j].0 == pid;
            crate::pid_map::lemma_map_of_at(self.entries.entries(), j);
        }
        false
    }
}

/// A rendered combat key.
#[derive(Clone, Copy, Debug, PartialEq, Eq, Structural)]
pub struct CombatVisualSnapshot {
    pub key: VisualKey,
}

impl CombatVisualSnapshot {
    pub fn status(self) -> (s: Option<CombatStatus>)
        ensures
            s == self.key.status,
    {
        self.key.status
    }

    /// Attention and death frames take over the label border.
    pub fn claims_border(self) -> (b: bool)
        ensures
            b == (self.key.border == Some(BorderKind::Attention) || self.key.border == Some(
                BorderKind::Dead,
            )),
    {
        match self.key.border {
            Some(BorderKind::Attention) | Some(BorderKind::Dead) => true,
            _ => false,
        }
    }
}

/// A dead client shows only its death: the key does not depend on time or
/// settings, and no combat event, nor another death, brings it back to play;
/// only an observed return to play clears it.
pub proof fn law_death_is_durable(e: Entry, event: LogEvent, now: u64, later: u64, hit_duration_ms: u64,
    animations: bool)
    requires
        e.dead,
    ensures
        visual_key_at(e, now, hit_duration_ms, animations) == visual_key_at(e, later, 0, false),
        visual_key_at(e, now, hit_duration_ms, animations).status == Some(CombatStatus::Dead),
        !pending_at(e, now, hit_duration_ms),
        event != LogEvent::Character(CharacterEvent::Revived) ==> event_step(e, event, now, animations).dead,
        event == LogEvent::Character(CharacterEvent::Revived) ==> visual_key_at(
            event_step(e, event, now, animations),
            later,
            hit_duration_ms,
            animations,
        ) == neutral_key(),
        disabled_entry(e).dead && restarted_entry(e).dead,
{
}

/// An attack problem always claims the border, and landing a weapon hit
/// clears it.
pub proof fn law_attack_problems(e: Entry, now: u64, hit_duration_ms: u64, animations: bool)
    ensures
        visual_key_at(e, now, hit_duration_ms, animations).status is Some ==> visual_key_at(
            e,
            now,
            hit_duration_ms,
            animations,
        ).border == Some(BorderKind::Attention) || visual_key_at(e, now, hit_duration_ms, animations).border
            == Some(BorderKind::Dead),
        !e.dead ==> visual_key_at(
            event_step(e, LogEvent::Combat(CombatEvent::WeaponDamageDealt), now, animations),
            now,
            hit_duration_ms,
            animations,
        ).status is None,
{
}

/// A recent attack problem is shown as the status of the same name: for a
/// living client whose last attack problem was observed less than ten
/// seconds ago (or is dated ahead of `now`), the status is "out of range"
/// exactly for an out-of-range problem, "too close" exactly for a too-close
/// one, "line of sight" exactly for a line-of-sight one. A blocked attack
/// logged at `at` is shown so, under its own name, until ten seconds later.
pub proof fn law_attack_problem_shown_by_name(
    e: Entry,
    issue: AttackIssue,
    now: u64,
    at: u64,
    problem: AttackProblem,
    hit_duration_ms: u64,
    animations: bool,
)
    requires
        !e.dead,
    ensures
        e.attack_issue == Some(issue) && (now < issue.observed_at_ms || now - issue.observed_at_ms < 10_000) ==> {
            let status = visual_key_at(e, now, hit_duration_ms, animations).status;
            &&& (status == Some(CombatStatus::OutOfRange) <==> issue.problem == AttackProblem::OutOfRange)
            &&& (status == Some(CombatStatus::TooClose) <==> issue.problem == AttackProblem::TooClose)
            &&& (status == Some(CombatStatus::LineOfSight) <==> issue.problem == AttackProblem::LineOfSight)
        },
        at <= now && now - at < 10_000 ==> {
            let blocked = event_step(e, LogEvent::Combat(CombatEvent::AttackBlocked(problem)), at, animations);
            let status = visual_key_at(blocked, now, hit_duration_ms, animations).status;
            &&& (status == Some(CombatStatus::OutOfRange) <==> problem == AttackProblem::OutOfRange)
            &&& (status == Some(CombatStatus::TooClose) <==> problem == AttackProblem::TooClose)
            &&& (status == Some(CombatStatus::LineOfSight) <==> problem == AttackProblem::LineOfSight)
        },
{
}

/// A translucent fill over a rectangle.
#[derive(Clone, Copy, Debug, PartialEq, Eq, Structural)]
pub struct CombatFill {
    pub bounds: Rect,
    pub color: Color,
    pub alpha: u8,
}

/// Concentric one-pixel frames drawn inward from the canvas edge.
#[derive(Debug)]
pub struct CombatBorderLayout {
    pub frames: Vec<Rect>,
    pub color: Color,
}

#[derive(Clone, Copy, Debug, PartialEq, Eq, Structural)]
pub struct CombatStatusLayout {
    pub status: CombatStatus,
    pub surface: Rect,
    pub text: Rect,
    pub surface_color: Color,
    pub text_color: Color,
    pub alpha: u8,
    pub radius: i32,
}

#[derive(Debug)]
pub struct CombatVisualLayout {
    pub dead_tint: Option<CombatFill>,
    pub blood_tint: Option<CombatFill>,
    pub blood_frames: Vec<CombatFill>,
    pub border: Option<CombatBorderLayout>,
    pub status: Option<CombatStatusLayout>,
}

pub open spec fn border_color(kind: BorderKind) -> u32 {
    match kind {
        BorderKind::Attacking => ATTACK_RED,
        BorderKind::Hit => IMPACT_WHITE,
        BorderKind::Attention => ATTENTION_AMBER,
        BorderKind::Dead => DEATH_RED,
    }
}

pub open spec fn imax(a: int, b: int) -> int {
    if a >= b { a } else { b }
}

pub open spec fn imin(a: int, b: int) -> int {
    if a <= b { a } else { b }
}

/// At least three frames, each one pixel further inside the canvas.
pub fn combat_border(canvas: Rect, border_width: i32, kind: BorderKind) -> (b: CombatBorderLayout)
    ensures
        b.frames@.len() == imax(border_width as int, 3),
        forall|i: int| 0 <= i < b.frames@.len() ==> #[trigger] b.frames@[i] == canvas.spec_inset(i),
        b.color == color_of(border_color(kind)),
{
    let width: i32 = if border_width > 3 { border_width } else { 3 };
    let color = match kind {
        BorderKind::Attacking => Color::from_colorref(ATTACK_RED),
        BorderKind::Hit => Color::from_colorref(IMPACT_WHITE),
        BorderKind::Attention => Color::from_colorref(ATTENTION_AMBER),
        BorderKind::Dead => Color::from_colorref(DEATH_RED),
    };
    let mut frames: Vec<Rect> = Vec::new();
    let mut inset: i32 = 0;
    while inset < width
        invariant
            0 <= inset <= width,
            frames@.len() == inset,
            forall|i: int| 0 <= i < frames@.len() ==> #[trigger] frames@[i] == canvas.spec_inset(i),
        decreases width - inset,
    {
        frames.push(canvas.inset(inset));
        inset = inset + 1;
    }
    CombatBorderLayout { frames, color }
}

/// The vignette depth: ten logical pixels (at least three), at most a
/// quarter of the content's shorter side (at least one).
pub open spec fn vignette_depth(content: Rect, scale: Scale) -> int {
    let m = imin(content.spec_width(), content.spec_height());
    let cap = if m >= 4 { m / 4 } else { 1 };
    imin(imax(scale.spec_pixels(10), 3), cap)
}

pub open spec fn vignette_alphas(phase: DamagePhase) -> (u8, u8) {
    match phase {
        DamagePhase::NoDamage => (0, 0),
        DamagePhase::Faint => (12, 46),
        DamagePhase::Decay => (24, 82),
        DamagePhase::Impact => (36, 122),
    }
}

/// A red tint over the content and concentric frames whose alpha fades
/// linearly from the edge inward; nothing without damage.
pub fn blood_vignette(content: Rect, scale: Scale, phase: DamagePhase) -> (r: (Option<CombatFill>, Vec<CombatFill>))
    requires
        content.in_range(),
    ensures
        phase == DamagePhase::NoDamage ==> r.0 is None && r.1@.len() == 0,
        phase != DamagePhase::NoDamage ==> {
            let (tint, edge) = vignette_alphas(phase);
            let depth = vignette_depth(content, scale);
            &&& r.0 == Some(CombatFill { bounds: content, color: color_of(BLOOD_RED), alpha: tint })
            &&& r.1@.len() == depth
            &&& forall|i: int|
                0 <= i < depth ==> #[trigger] r.1@[i] == (CombatFill {
                    bounds: content.spec_inset(i),
                    color: color_of(BLOOD_RED),
                    alpha: ((edge * (depth - i)) / depth) as u8,
                })
        },
{
    let (tint_alpha, edge_alpha): (u8, u8) = match phase {
        DamagePhase::NoDamage => return (None, Vec::new()),
        DamagePhase::Faint => (12, 46),
        DamagePhase::Decay => (24, 82),
        DamagePhase::Impact => (36, 122),
    };
    let w = content.width();
    let h = content.height();
    let m = if w <= h { w } else { h };
    let cap: i32 = if m >= 4 { m / 4 } else { 1 };
    let p = scale.pixels(10);
    let floor: i32 = if p > 3 { p } else { 3 };
    let depth: i32 = if floor <= cap { floor } else { cap };
    let red = Color::from_colorref(BLOOD_RED);
    let mut frames: Vec<CombatFill> = Vec::new();
    let mut inset: i32 = 0;
    while inset < depth
        invariant
            0 <= inset <= depth,
            depth >= 1,
            depth == vignette_depth(content, scale),
            edge_alpha <= 122,
            red == color_of(BLOOD_RED),
            frames@.len() == inset,
            forall|i: int|
                0 <= i < frames@.len() ==> #[trigger] frames@[i] == (CombatFill {
                    bounds: content.spec_inset(i),
                    color: color_of(BLOOD_RED),
                    alpha: ((edge_alpha * (depth - i)) / (depth as int)) as u8,
                }),
        decreases depth - inset,
    {
        let left = (depth - inset) as u64;
        assert(edge_alpha as u64 * left <= 122 * 0x8000_0000) by (nonlinear_arith)
            requires
                edge_alpha <= 122,
                left <= 0x8000_0000,
        ;
        let alpha = ((edge_alpha as u64 * left) / depth as u64) as u8;
        frames.push(CombatFill { bounds: content.inset(inset), color: red, alpha });
        inset = inset + 1;
    }
    (Some(CombatFill { bounds: content, color: red, alpha: tint_alpha }), frames)
}

/// The banner for a status: a large centered plate for death, a compact
/// plate in the top-right corner for attack problems, always inside the
/// content.
pub open spec fn status_layout_of(content: Rect, scale: Scale, measured: int, status: CombatStatus) -> CombatStatusLayout {
    let dead = status == CombatStatus::Dead;
    let hp = imax(scale.spec_pixels(if dead { 18 } else { 12 }), 4);
    let vm = imax(scale.spec_pixels(8), 2);
    let height = imin(imax(scale.spec_pixels(if dead { 48 } else { 34 }), 20), imax(content.spec_height(), 0));
    let width = imin(
        imax(measured + 2 * hp, scale.spec_pixels(if dead { 104 } else { 92 })),
        imax(content.spec_width() - 2 * vm, 0),
    );
    let placed = if dead {
        let left = content.left + (content.spec_width() - width) / 2;
        let top = content.top + (content.spec_height() - height) / 2;
        Rect { left: left as i32, top: top as i32, right: (left + width) as i32, bottom: (top + height) as i32 }
    } else {
        let right = content.right - vm;
        let top = content.top + vm;
        Rect { left: (right - width) as i32, top: top as i32, right: right as i32, bottom: (top + height) as i32 }
    };
    let surface = placed.spec_intersect(content);
    let inset = imin(hp, imax(surface.spec_width(), 0) / 2);
    CombatStatusLayout {
        status,
        surface,
        text: Rect {
            left: (surface.left + inset) as i32,
            top: surface.top,
            right: (surface.right - inset) as i32,
            bottom: surface.bottom,
        },
        surface_color: color_of(if dead { DEATH_SURFACE } else { ATTENTION_SURFACE }),
        text_color: color_of(if dead { IMPACT_WHITE } else { ATTENTION_AMBER }),
        alpha: if dead { 246 } else { 238 },
        radius: imax(scale.spec_pixels(6), 2) as i32,
    }
}

fn max_i64(a: i64, b: i64) -> (r: i64)
    ensures
        r == imax(a as int, b as int),
{
    if a >= b { a } else { b }
}

fn min_i64(a: i64, b: i64) -> (r: i64)
    ensures
        r == imin(a as int, b as int),
{
    if a <= b { a } else { b }
}

#[verifier::rlimit(40)]
pub fn combat_status_layout(content: Rect, scale: Scale, measured_text_width: i32, status: CombatStatus) -> (l:
    CombatStatusLayout)
    requires
        content.in_range(),
        dpi_ok(scale.dpi as int),
        coord_ok(measured_text_width as int),
    ensures
        l == status_layout_of(content, scale, measured_text_width as int, status),
        l.surface.within(content),
{
    proof {
        lemma_pixels_range(scale, 18);
        lemma_pixels_range(scale, 12);
        lemma_pixels_range(scale, 8);
        lemma_pixels_range(scale, 48);
        lemma_pixels_range(scale, 34);
        lemma_pixels_range(scale, 104);
        lemma_pixels_range(scale, 92);
        lemma_pixels_range(scale, 6);
    }
    let dead = status == CombatStatus::Dead;
    let p_pad = scale.pixels(if dead { 18 } else { 12 });
    let p_margin = scale.pixels(8);
    let p_height = scale.pixels(if dead { 48 } else { 34 });
    let p_width = scale.pixels(if dead { 104 } else { 92 });
    let p_radius = scale.pixels(6);
    assert(-0x400_0000 <= p_pad <= 0x400_0000);
    assert(-0x400_0000 <= p_margin <= 0x400_0000);
    assert(-0x400_0000 <= p_height <= 0x400_0000);
    assert(-0x400_0000 <= p_width <= 0x400_0000);
    let hp = max_i64(p_pad as i64, 4);
    let vm = max_i64(p_margin as i64, 2);
    let cw = content.right as i64 - content.left as i64;
    let ch = content.bottom as i64 - content.top as i64;
    let height = min_i64(max_i64(p_height as i64, 20), max_i64(ch, 0));
    let width = min_i64(max_i64(measured_text_width as i64 + 2 * hp, p_width as i64), max_i64(cw - 2 * vm, 0));
    let placed = if dead {
        let left = content.left as i64 + (cw - width) / 2;
        let top = content.top as i64 + (ch - height) / 2;
        Rect {
            left: left as i32,
            top: top as i32,
            right: (left + width) as i32,
            bottom: (top + height) as i32,
        }
    } else {
        let right = content.right as i64 - vm;
        let top = content.top as i64 + vm;
        Rect { left: (right - width) as i32, top: top as i32, right: right as i32, bottom: (top + height) as i32 }
    };
    let surface = placed.intersect(content);
    let sw = surface.right as i64 - surface.left as i64;
    let inset = min_i64(hp, max_i64(sw, 0) / 2);
    let radius = max_i64(p_radius as i64, 2);
    CombatStatusLayout {
        status,
        surface,
        text: Rect {
            left: (surface.left as i64 + inset) as i32,
            top: surface.top,
            right: (surface.right as i64 - inset) as i32,
            bottom: surface.bottom,
        },
        surface_color: Color::from_colorref(if dead { DEATH_SURFACE } else { ATTENTION_SURFACE }),
        text_color: Color::from_colorref(if dead { IMPACT_WHITE } else { ATTENTION_AMBER }),
        alpha: if dead { 246 } else { 238 },
        radius: radius as i32,
    }
}

impl CombatVisualSnapshot {
    /// Physical-pixel layout of this key on a label: death tint, blood
    /// vignette (never while dead), border frames (when shown) and status
    /// banner.
    pub fn layout(
        self,
        canvas: Rect,
        content: Rect,
        border_width: i32,
        scale: Scale,
        measured_status_width: i32,
        show_border: bool,
    ) -> (l: CombatVisualLayout)
        requires
            content.in_range(),
            dpi_ok(scale.dpi as int),
            coord_ok(measured_status_width as int),
        ensures
            ({
                let dead = self.key.status == Some(CombatStatus::Dead);
                &&& l.dead_tint == (if dead {
                    Some(CombatFill { bounds: content, color: color_of(DEATH_RED), alpha: 166 })
                } else {
                    None
                })
                &&& dead ==> l.blood_tint is None && l.blood_frames@.len() == 0
                &&& !dead && self.key.damage == DamagePhase::NoDamage ==> l.blood_tint is None
                    && l.blood_frames@.len() == 0
                &&& !dead && self.key.damage != DamagePhase::NoDamage ==> {
                    &&& l.blood_tint == Some(CombatFill {
                        bounds: content,
                        color: color_of(BLOOD_RED),
                        alpha: vignette_alphas(self.key.damage).0,
                    })
                    &&& l.blood_frames@.len() == vignette_depth(content, scale)
                }
                &&& (l.border is Some <==> show_border && self.key.border is Some)
                &&& l.border matches Some(b) ==> b.color == color_of(border_color(self.key.border->0))
                    && b.frames@.len() == imax(border_width as int, 3)
                &&& l.status == (match self.key.status {
                    Some(s) => Some(status_layout_of(content, scale, measured_status_width as int, s)),
                    None => None,
                })
            }),
    {
        let dead = self.key.status == Some(CombatStatus::Dead);
        let dead_tint = if dead {
            Some(CombatFill { bounds: content, color: Color::from_colorref(DEATH_RED), alpha: 166 })
        } else {
            None
        };
        let (blood_tint, blood_frames) = if dead {
            (None, Vec::new())
        } else {
            blood_vignette(content, scale, self.key.damage)
        };
        let border = if show_border {
            match self.key.border {
                Some(kind) => Some(combat_border(canvas, border_width, kind)),
                None => None,
            }
        } else {
            None
        };
        let status = match self.key.status {
            Some(s) => Some(combat_status_layout(content, scale, measured_status_width, s)),
            None => None,
        };
        CombatVisualLayout { dead_tint, blood_tint, blood_frames, border, status }
    }
}

} // verus!
