use stonemite::casting::{estimate_class, ActiveCast, CastBook, CastEntry, CastingOutcome, ResolvedSpell};
use stonemite::clients::EqWindow;

fn cast(name: &str, class: Option<&str>, started_at_ms: u64, estimated_ms: u64) -> ActiveCast {
    ActiveCast {
        spell_name: name.to_string(),
        class: class.map(|c| c.to_string()),
        started_at_ms,
        estimated_ms,
        base_cast_ms: estimated_ms,
    }
}

fn window(pid: u32, class: Option<&str>) -> EqWindow {
    EqWindow {
        hwnd: pid as usize * 16,
        pid,
        number: 1,
        character: None,
        server: None,
        class: class.map(|c| c.to_string()),
    }
}

#[test]
fn finishing_a_cast_keeps_its_spell_with_the_outcome() {
    let mut book = CastBook::new();
    book.start(7, cast("Complete Heal", Some("Cleric"), 1_000, 10_000));
    assert_eq!(book.active_spell_name(7), Some("Complete Heal"));
    let ended = book.finish(7, Some("complete heal"), CastingOutcome::Interrupted, 4_000, 300_000);
    let ended = ended.expect("the cast in progress ends");
    assert_eq!(ended.spell_name, "Complete Heal");
    assert_eq!(ended.started_at_ms, 1_000);
    match book.get(7) {
        Some(CastEntry::Terminal(t)) => {
            assert_eq!(t.spell_name, "Complete Heal");
            assert_eq!(t.outcome, CastingOutcome::Interrupted);
            assert_eq!(t.observed_at_ms, 4_000);
            assert_eq!(t.start_progress_ppm, 300_000);
        },
        _ => panic!("expected a finished cast"),
    }
    assert_eq!(book.active_spell_name(7), None);
}

#[test]
fn an_outcome_for_another_spell_leaves_the_cast_alone() {
    let mut book = CastBook::new();
    book.start(7, cast("Complete Heal", None, 0, 10_000));
    assert!(book.finish(7, Some("Gate"), CastingOutcome::Fizzled, 500, 0).is_none());
    assert_eq!(book.active_spell_name(7), Some("Complete Heal"));
    assert!(book.finish(8, None, CastingOutcome::Fizzled, 500, 0).is_none());
    assert!(book.get(8).is_none());
    assert!(book.finish(7, None, CastingOutcome::Fizzled, 500, 50_000).is_some());
}

#[test]
fn instant_casts_show_as_completed_at_a_full_bar() {
    let mut book = CastBook::new();
    book.start_instant(3, "Gate".to_string(), 2_000);
    match book.get(3) {
        Some(CastEntry::Terminal(t)) => {
            assert_eq!(t.outcome, CastingOutcome::Completed);
            assert_eq!(t.start_progress_ppm, 1_000_000);
            assert_eq!(t.observed_at_ms, 2_000);
        },
        _ => panic!("expected a finished cast"),
    }
    // A finished cast cannot be finished again.
    assert!(book.finish(3, None, CastingOutcome::Fizzled, 2_100, 0).is_none());
}

#[test]
fn prune_drops_casts_past_their_linger_and_grace() {
    let mut book = CastBook::new();
    book.start(1, cast("Slow", None, 0, 1_000));
    book.start_instant(2, "Fast".to_string(), 0);
    // Completed lingers 420 ms; an unconfirmed cast stays 750 ms past its estimate.
    let expired = book.prune(419);
    assert!(expired.is_empty());
    let expired = book.prune(420);
    assert_eq!(expired, vec![2]);
    assert!(book.get(2).is_none());
    assert!(book.get(1).is_some());
    let expired = book.prune(1_749);
    assert!(expired.is_empty());
    let expired = book.prune(1_750);
    assert_eq!(expired, vec![1]);
    assert!(book.get(1).is_none());
}

#[test]
fn reconcile_drops_departed_clients_and_changed_classes() {
    let mut book = CastBook::new();
    book.start(1, cast("Heal", Some("Cleric"), 0, 1_000));
    book.start(2, cast("Nuke", Some("Wizard"), 0, 1_000));
    book.start_instant(3, "Gate".to_string(), 0);
    book.start(4, cast("Root", Some("Druid"), 0, 1_000));
    let windows = vec![window(1, Some("Cleric")), window(2, Some("Magician")), window(3, None)];
    book.reconcile_clients(&windows);
    assert!(book.get(1).is_some());
    assert!(book.get(2).is_none());
    assert!(book.get(3).is_some());
    assert!(book.get(4).is_none());
}

#[test]
fn removing_a_cast_forgets_it() {
    let mut book = CastBook::new();
    book.start(5, cast("Heal", None, 0, 1_000));
    book.remove(5);
    assert!(book.get(5).is_none());
    assert_eq!(book.active_spell_name(5), None);
}

fn resolved(name: &str, base_cast_ms: u64, unique_class: Option<&str>) -> ResolvedSpell {
    ResolvedSpell { name: name.to_string(), base_cast_ms, unique_class: unique_class.map(|c| c.to_string()) }
}

fn active(book: &CastBook, pid: u32) -> (String, Option<String>, u64, u64, u64) {
    match book.get(pid) {
        Some(CastEntry::Active(a)) => {
            (a.spell_name.clone(), a.class.clone(), a.started_at_ms, a.estimated_ms, a.base_cast_ms)
        },
        _ => panic!("expected a cast in progress"),
    }
}

#[test]
fn an_unknown_spell_forgets_the_cast_without_a_change() {
    let mut book = CastBook::new();
    book.start(4, cast("Heal", None, 0, 1_000));
    assert!(!book.begin(4, None, Some("CLR".to_string()), 10, Some(900)));
    assert!(book.get(4).is_none());
}

#[test]
fn an_instant_spell_completes_at_once() {
    let mut book = CastBook::new();
    assert!(book.begin(4, Some(resolved("Gate", 0, None)), Some("BRD".to_string()), 10, Some(900)));
    match book.get(4) {
        Some(CastEntry::Terminal(t)) => {
            assert_eq!(t.spell_name, "Gate");
            assert_eq!(t.outcome, CastingOutcome::Completed);
            assert_eq!(t.start_progress_ppm, 1_000_000);
            assert_eq!(t.observed_at_ms, 10);
        },
        _ => panic!("expected a finished cast"),
    }
}

#[test]
fn a_trained_estimate_sets_the_expected_duration() {
    let mut book = CastBook::new();
    assert!(book.begin(4, Some(resolved("Complete Heal", 10_000, None)), Some("CLR".to_string()), 50, Some(9_400)));
    assert_eq!(active(&book, 4), ("Complete Heal".to_string(), Some("CLR".to_string()), 50, 9_400, 10_000));
    assert!(book.begin(4, Some(resolved("Complete Heal", 10_000, None)), Some("CLR".to_string()), 60, None));
    assert_eq!(active(&book, 4).3, 10_000);
    assert!(book.begin(4, Some(resolved("Complete Heal", 10_000, None)), None, 70, Some(9_400)));
    assert_eq!(active(&book, 4).3, 10_000);
}

#[test]
fn bards_use_the_fixed_song_cycle_and_no_estimate() {
    let mut book = CastBook::new();
    assert!(book.begin(4, Some(resolved("Selo's Accelerando", 2_500, None)), Some("brd".to_string()), 0, Some(1_200)));
    assert_eq!(active(&book, 4), ("Selo's Accelerando".to_string(), Some("brd".to_string()), 0, 3_000, 2_500));
}

#[test]
fn a_class_only_spell_names_the_caster_class() {
    let mut book = CastBook::new();
    assert!(book.begin(4, Some(resolved("Nature's Melody", 2_500, Some("BRD"))), Some("CLR".to_string()), 0, Some(1_000)));
    let (_, class, _, estimated, _) = active(&book, 4);
    assert_eq!(class, Some("BRD".to_string()));
    assert_eq!(estimated, 3_000);
}

#[test]
fn estimates_apply_to_timed_casts_of_a_known_class_other_than_bards() {
    let cleric = Some("CLR".to_string());
    assert_eq!(estimate_class(&resolved("Complete Heal", 10_000, None), &cleric), Some("CLR".to_string()));
    assert_eq!(estimate_class(&resolved("Complete Heal", 10_000, None), &None), None);
    assert_eq!(estimate_class(&resolved("Gate", 0, None), &cleric), None);
    assert_eq!(estimate_class(&resolved("Selo's Accelerando", 2_500, Some("Brd")), &cleric), None);
    assert_eq!(estimate_class(&resolved("Spirit of Wolf", 4_000, None), &Some("brd".to_string())), None);
    assert_eq!(estimate_class(&resolved("Ice Comet", 6_000, Some("WIZ")), &None), Some("WIZ".to_string()));
}
