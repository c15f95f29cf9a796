use stonemite::scope::PresentationTarget;
use stonemite::timers::{TimerFrame, TimerOverlayState, TimerSnapshot};

fn snapshot(character: &str, name: &str, begin_ms: u64, end_ms: u64, target: PresentationTarget) -> TimerSnapshot {
    TimerSnapshot {
        character: character.to_owned(),
        display_name: name.to_owned(),
        begin_ms,
        end_ms,
        duration_ms: end_ms - begin_ms,
        target,
        warned: false,
    }
}

fn frame(origin_ms: u64, snapshots: Vec<TimerSnapshot>) -> TimerFrame {
    TimerFrame { origin_ms, snapshots }
}

const ORIGIN: u64 = 1_000_000;

#[test]
fn frames_replace_the_model_with_deterministic_ordering() {
    let mut state = TimerOverlayState::new();
    assert!(state.replace_frame(&frame(
        ORIGIN,
        vec![
            snapshot("pid:1", "Slow", 0, 30_000, PresentationTarget::Source),
            snapshot("pid:1", "Fast", 0, 10_000, PresentationTarget::Source),
            snapshot("pid:1", "Also fast", 0, 10_000, PresentationTarget::Source),
        ],
    )));
    let labels: Vec<&str> = state.timers().iter().map(|t| t.label.as_str()).collect();
    assert_eq!(labels, vec!["Also fast", "Fast", "Slow"]);
    // Identical frame: no change signal.
    assert!(!state.replace_frame(&frame(
        ORIGIN,
        vec![
            snapshot("pid:1", "Slow", 0, 30_000, PresentationTarget::Source),
            snapshot("pid:1", "Fast", 0, 10_000, PresentationTarget::Source),
            snapshot("pid:1", "Also fast", 0, 10_000, PresentationTarget::Source),
        ],
    )));
    // An empty frame clears everything.
    assert!(state.replace_frame(&frame(ORIGIN, Vec::new())));
    assert!(state.is_empty());
}

#[test]
fn presentation_targets_control_label_visibility() {
    let mut state = TimerOverlayState::new();
    state.replace_frame(&frame(
        ORIGIN,
        vec![
            snapshot("pid:1", "Mine", 0, 10_000, PresentationTarget::Source),
            snapshot("pid:1", "Focus", 0, 11_000, PresentationTarget::ActiveClient),
            snapshot("pid:1", "Everywhere", 0, 12_000, PresentationTarget::AllClients),
            snapshot("pid:1", "World", 0, 13_000, PresentationTarget::Global),
        ],
    ));
    let now = ORIGIN;

    let labels: Vec<&str> = state.visible_all_for(Some("pid:1"), true, now).iter().map(|t| t.label.as_str()).collect();
    assert_eq!(labels, vec!["Mine", "Focus", "Everywhere", "World"]);

    let labels: Vec<&str> = state.visible_all_for(Some("pid:2"), false, now).iter().map(|t| t.label.as_str()).collect();
    assert_eq!(labels, vec!["Everywhere"]);

    let labels: Vec<&str> = state.visible_all_for(Some("pid:2"), true, now).iter().map(|t| t.label.as_str()).collect();
    assert_eq!(labels, vec!["Focus", "Everywhere", "World"]);

    assert_eq!(state.visible_for(Some("pid:1"), true, now).map(|t| t.label.as_str()), Some("Mine"));
}

#[test]
fn expiry_is_local_between_frames() {
    let mut state = TimerOverlayState::new();
    state.replace_frame(&frame(
        ORIGIN,
        vec![
            snapshot("pid:1", "Short", 0, 1_000, PresentationTarget::Source),
            snapshot("pid:1", "Long", 0, 5_000, PresentationTarget::Source),
        ],
    ));
    let later = ORIGIN + 1_500;
    assert!(state.visible_all_for(Some("pid:1"), true, later).iter().all(|timer| timer.label == "Long"));
    assert!(state.remove_expired(later));
    assert_eq!(state.timers().len(), 1);
    assert!(!state.remove_expired(later));
}

#[test]
fn remaining_time_and_progress_are_bounded() {
    let mut state = TimerOverlayState::new();
    state.replace_frame(&frame(ORIGIN, vec![snapshot("pid:1", "Burn", 0, 10_000, PresentationTarget::Source)]));
    let timer = &state.timers()[0];
    assert_eq!(timer.remaining_time(ORIGIN), 10_000);
    assert_eq!(timer.progress(ORIGIN).remaining_of(1_000), 1_000);
    assert_eq!(timer.remaining_time(ORIGIN + 4_000), 6_000);
    assert_eq!(timer.progress(ORIGIN + 4_000).remaining_of(1_000), 600);
    assert_eq!(timer.remaining_time(ORIGIN + 12_000), 0);
    assert_eq!(timer.progress(ORIGIN + 12_000).remaining_of(1_000), 0);
    assert!(timer.is_expired(ORIGIN + 10_000));
    assert!(!timer.is_expired(ORIGIN + 9_999));
}
