use stonemite::combat_awareness::{
    neutral, BorderKind, CombatAwarenessCenter, CombatStatus, CombatVisualSnapshot, DamagePhase, VisualKey,
};
use stonemite::geometry::{Rect, Scale};
use stonemite::log_events::{AttackProblem, CharacterEvent, CombatEvent, LogEvent};

fn center(hit_duration_ms: u64, animations_enabled: bool) -> CombatAwarenessCenter {
    CombatAwarenessCenter::new(true, hit_duration_ms, animations_enabled)
}

fn border_at(center: &CombatAwarenessCenter, now: u64) -> Option<BorderKind> {
    center.entry(42).unwrap().visual_key(now, 3_000, true).border
}

#[test]
fn outgoing_hits_flash_then_hold_a_red_attack_frame_for_the_configured_duration() {
    let mut center = center(3_000, true);
    assert!(center.apply_event(42, false, &LogEvent::Combat(CombatEvent::WeaponDamageDealt), 1_000));
    assert_eq!(border_at(&center, 1_050), Some(BorderKind::Hit));
    assert_eq!(border_at(&center, 1_200), Some(BorderKind::Attacking));
    assert_eq!(border_at(&center, 3_999), Some(BorderKind::Attacking));
    assert_eq!(border_at(&center, 4_000), None);
}

#[test]
fn rapid_hits_are_coalesced_but_extend_the_attack_hold() {
    let mut center = center(3_000, true);
    center.apply_event(42, false, &LogEvent::Combat(CombatEvent::WeaponDamageDealt), 1_000);
    center.apply_event(42, false, &LogEvent::Combat(CombatEvent::WeaponDamageDealt), 1_100);
    assert_eq!(center.entry(42).unwrap().last_hit_flash_ms, Some(1_000));
    assert_eq!(border_at(&center, 4_099), Some(BorderKind::Attacking));
}

#[test]
fn incoming_damage_steps_down_through_a_bounded_blood_vignette() {
    let mut center = center(3_000, true);
    center.apply_event(42, false, &LogEvent::Combat(CombatEvent::DamageTaken), 1_000);
    let entry = center.entry(42).unwrap();
    assert_eq!(entry.visual_key(1_100, 3_000, true).damage, DamagePhase::Impact);
    assert_eq!(entry.visual_key(1_300, 3_000, true).damage, DamagePhase::Decay);
    assert_eq!(entry.visual_key(1_700, 3_000, true).damage, DamagePhase::Faint);
    assert_eq!(entry.visual_key(1_850, 3_000, true).damage, DamagePhase::NoDamage);
}

#[test]
fn successful_weapon_damage_clears_attack_problems() {
    let mut center = center(3_000, false);
    center.apply_event(42, false, &LogEvent::Combat(CombatEvent::AttackBlocked(AttackProblem::LineOfSight)), 1_000);
    assert_eq!(center.entry(42).unwrap().visual_key(1_001, 3_000, false).status, Some(CombatStatus::LineOfSight));
    center.apply_event(42, false, &LogEvent::Combat(CombatEvent::WeaponDamageDealt), 2_000);
    assert_eq!(center.entry(42).unwrap().visual_key(2_001, 3_000, false).status, None);
}

#[test]
fn dead_state_suppresses_combat_and_clears_only_on_observed_return_to_play() {
    let mut center = center(3_000, true);
    center.apply_event(42, false, &LogEvent::Combat(CombatEvent::WeaponDamageDealt), 1_000);
    center.apply_event(42, false, &LogEvent::Character(CharacterEvent::Died), 1_100);
    let dead = center.entry(42).unwrap().visual_key(1_101, 3_000, true);
    assert_eq!(dead.status, Some(CombatStatus::Dead));
    assert_eq!(dead.damage, DamagePhase::NoDamage);
    center.apply_event(42, false, &LogEvent::Character(CharacterEvent::Revived), 2_000);
    assert_eq!(center.entry(42).unwrap().visual_key(2_001, 3_000, true), neutral());
}

#[test]
fn disabling_and_reenabling_presentation_preserves_durable_death_state() {
    let mut center = CombatAwarenessCenter::new(true, 3_000, false);
    center.apply_event(42, false, &LogEvent::Character(CharacterEvent::Died), 1_000);

    center.apply_config(false, 3_000, false);
    assert!(center.entry(42).unwrap().dead);
    assert!(center.snapshot(42, 1_001).is_none());

    center.apply_config(true, 3_000, false);
    assert_eq!(center.snapshot(42, 1_002).and_then(|snapshot| snapshot.status()), Some(CombatStatus::Dead));
}

#[test]
fn combat_layout_uses_direct_attention_copy_and_scales_inside_tiny_pips() {
    let snapshot = CombatVisualSnapshot {
        key: VisualKey {
            border: Some(BorderKind::Attention),
            damage: DamagePhase::Impact,
            status: Some(CombatStatus::LineOfSight),
        },
    };
    let canvas = Rect::new(0, 0, 160, 90);
    let layout = snapshot.layout(canvas, canvas.inset(3), 3, Scale::from_dpi(144), 180, true);
    let status = layout.status.expect("status banner");
    assert_eq!(status.status.label(), "NO LINE OF SIGHT");
    assert_eq!(status.surface, status.surface.intersect(canvas));
    assert_eq!(status.text.top, status.surface.top);
    assert_eq!(status.text.bottom, status.surface.bottom);
    assert!(layout.border.is_some());
    assert!(!layout.blood_frames.is_empty());
}

#[test]
fn unknown_clients_have_no_presentation() {
    let mut center = center(3_000, true);
    assert!(center.entry(7).is_none());
    assert!(center.snapshot(7, 1_000).is_none());
    center.apply_event(7, false, &LogEvent::Combat(CombatEvent::DamageTaken), 1_000);
    center.remove(7);
    assert!(center.entry(7).is_none());
}
