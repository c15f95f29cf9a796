use stonemite::toast::{advance_fade, publication_allowed, FadeEffect, FadeTransition, Phase, MAX_ALPHA};

#[test]
fn staged_toast_cannot_publish_a_previous_attached_frame() {
    assert!(!publication_allowed(Phase::Hidden, false, true, true));
    assert!(!publication_allowed(Phase::FadingIn, false, true, true));
}

#[test]
fn completed_toast_frame_requires_every_publication_gate() {
    assert!(publication_allowed(Phase::FadingIn, true, true, true));
    assert!(!publication_allowed(Phase::Hidden, true, true, true));
    assert!(!publication_allowed(Phase::FadingIn, true, false, true));
    assert!(!publication_allowed(Phase::FadingIn, true, true, false));
}

#[test]
fn fade_in_saturates_and_starts_visible_duration_at_that_tick() {
    assert_eq!(
        advance_fade(Phase::FadingIn, 25, 10, 2_000, 40),
        FadeTransition {
            phase: Phase::FadingIn,
            alpha: 50,
            phase_start: 10,
            effect: FadeEffect::UpdateOpacity(50),
        }
    );
    assert_eq!(
        advance_fade(Phase::FadingIn, 210, 10, 2_000, 40),
        FadeTransition {
            phase: Phase::Visible,
            alpha: MAX_ALPHA,
            phase_start: 40,
            effect: FadeEffect::UpdateOpacity(MAX_ALPHA),
        }
    );
}

#[test]
fn visible_duration_transitions_at_the_inclusive_threshold() {
    assert_eq!(advance_fade(Phase::Visible, 220, 100, 2_000, 2_099).phase, Phase::Visible);
    let transition = advance_fade(Phase::Visible, 220, 100, 2_000, 2_100);
    assert_eq!(transition.phase, Phase::FadingOut);
    assert_eq!(transition.effect, FadeEffect::NoChange);
}

#[test]
fn fade_out_updates_opacity_then_hides_and_stops_at_zero() {
    assert_eq!(advance_fade(Phase::FadingOut, 50, 100, 2_000, 200).effect, FadeEffect::UpdateOpacity(25));
    assert_eq!(
        advance_fade(Phase::FadingOut, 25, 100, 2_000, 200),
        FadeTransition {
            phase: Phase::Hidden,
            alpha: 0,
            phase_start: 100,
            effect: FadeEffect::HideAndStop,
        }
    );
}

#[test]
fn hidden_toast_always_requests_hide_and_timer_stop() {
    assert_eq!(
        advance_fade(Phase::Hidden, 12, 100, 2_000, 200),
        FadeTransition {
            phase: Phase::Hidden,
            alpha: 0,
            phase_start: 100,
            effect: FadeEffect::HideAndStop,
        }
    );
}

#[test]
fn fade_never_exceeds_the_maximum_alpha() {
    for alpha in [0u8, 100, 200, 219, 220, 255] {
        let t = advance_fade(Phase::FadingIn, alpha, 0, 2_000, 10);
        assert!(t.alpha <= MAX_ALPHA);
    }
}
