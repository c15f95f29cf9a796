use stonemite::scope::PresentationTarget;
use stonemite::trigger_text::{ActionEvent, TriggerAction, TriggerTextState, DEFAULT_VISIBLE_MS, MAX_ENTRIES};

fn display(source: &str, text: &str, target: PresentationTarget) -> ActionEvent {
    ActionEvent {
        character: source.to_owned(),
        trigger_name: "t".to_owned(),
        target,
        priority: 3,
        action: TriggerAction::DisplayText { text: text.to_owned(), font_color: None },
    }
}

fn speak(source: &str) -> ActionEvent {
    ActionEvent {
        character: source.to_owned(),
        trigger_name: "t".to_owned(),
        target: PresentationTarget::Source,
        priority: 3,
        action: TriggerAction::Speak { text: "spoken".to_owned(), rate: None, volume: 4 },
    }
}

const NOW: u64 = 500_000;

#[test]
fn only_display_actions_become_entries() {
    let mut state = TriggerTextState::new();
    let added = state.apply_events(&[display("pid:1", "hello", PresentationTarget::Source), speak("pid:1")], NOW);
    assert_eq!(added, 1);
    assert_eq!(state.visible_for(Some("pid:1"), true, NOW).len(), 1);
}

#[test]
fn scope_and_expiry_filter_the_view() {
    let mut state = TriggerTextState::new();
    state.apply_events(
        &[
            display("pid:1", "mine", PresentationTarget::Source),
            display("pid:1", "everyone", PresentationTarget::AllClients),
            display("pid:1", "focus", PresentationTarget::ActiveClient),
        ],
        NOW,
    );
    let other = state.visible_for(Some("pid:2"), false, NOW);
    assert_eq!(other.len(), 1);
    assert_eq!(other[0].text, "everyone");
    assert_eq!(state.visible_for(Some("pid:1"), true, NOW).len(), 3);

    let later = NOW + DEFAULT_VISIBLE_MS + 1;
    assert!(state.visible_for(Some("pid:1"), true, later).is_empty());
    assert!(state.remove_expired(later));
    assert!(state.is_empty());
}

#[test]
fn capacity_is_bounded_newest_first() {
    let mut state = TriggerTextState::new();
    for index in 0..60u64 {
        state.apply_events(&[display("pid:1", &format!("m{index}"), PresentationTarget::Source)], NOW + index);
    }
    let visible = state.visible_for(Some("pid:1"), true, NOW + 60);
    assert_eq!(visible.len(), MAX_ENTRIES);
    assert_eq!(visible[0].text, "m59");
}
