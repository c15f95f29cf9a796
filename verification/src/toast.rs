//! Toast banner fade state machine.
//!
//! A toast fades in by fixed alpha steps up to its maximum, stays visible for
//! its configured duration (measured from the tick that reached full alpha),
//! then fades out by the same steps and hides.

use vstd::prelude::*;
use crate::geometry::{Point, Rect, Scale, dpi_ok, lemma_pixels_range};
use crate::layout::{screen_ok, screen_rect_ok};

verus! {

pub const DEFAULT_HEIGHT: i32 = 64;
pub const DEFAULT_DURATION_MS: u32 = 2000;
pub const FADE_STEP_MS: u32 = 30;
pub const MAX_ALPHA: u8 = 220;
pub const BACKGROUND_COLOR: u32 = 0x00403020;
pub const ALPHA_STEP: u8 = 25;

#[derive(Debug, Clone, Copy, PartialEq, Eq, Structural)]
pub enum Phase {
    Hidden,
    FadingIn,
    Visible,
    FadingOut,
}

#[derive(Debug, Clone, Copy, PartialEq, Eq, Structural)]
pub enum FadeEffect {
    NoChange,
    UpdateOpacity(u8),
    HideAndStop,
}

#[derive(Debug, Clone, Copy, PartialEq, Eq, Structural)]
pub struct FadeTransition {
    pub phase: Phase,
    pub alpha: u8,
    pub phase_start: u64,
    pub effect: FadeEffect,
}

/// A staged toast frame may be published only when the toast is showing, its
/// scene finished rendering, the overlay is visible and the surface attached.
pub open spec fn publication_allowed_spec(phase: Phase, scene_ready: bool, overlay_visible: bool, surface_attached: bool) -> bool {
    phase != Phase::Hidden && scene_ready && overlay_visible && surface_attached
}

pub fn publication_allowed(
    phase: Phase,
    scene_ready: bool,
    overlay_visible: bool,
    surface_attached: bool,
) -> (b: bool)
    ensures
        b == publication_allowed_spec(phase, scene_ready, overlay_visible, surface_attached),
{
    phase != Phase::Hidden && scene_ready && overlay_visible && surface_attached
}

/// The alpha reached by one fade-in step.
pub open spec fn faded_in(alpha: u8) -> u8 {
    if alpha + ALPHA_STEP >= MAX_ALPHA { MAX_ALPHA } else { (alpha + ALPHA_STEP) as u8 }
}

/// The alpha reached by one fade-out step.
pub open spec fn faded_out(alpha: u8) -> u8 {
    if alpha <= ALPHA_STEP { 0 } else { (alpha - ALPHA_STEP) as u8 }
}

/// One tick of the fade state machine, as a value.
pub open spec fn spec_advance_fade(phase: Phase, alpha: u8, phase_start: u64, duration_ms: u32, now: u64) -> FadeTransition {
    match phase {
        Phase::FadingIn => {
            let a = faded_in(alpha);
            if a == MAX_ALPHA {
                FadeTransition { phase: Phase::Visible, alpha: a, phase_start: now, effect: FadeEffect::UpdateOpacity(a) }
            } else {
                FadeTransition { phase: Phase::FadingIn, alpha: a, phase_start, effect: FadeEffect::UpdateOpacity(a) }
            }
        },
        Phase::Visible => FadeTransition {
            phase: if (if now >= phase_start { now - phase_start } else { 0 }) >= duration_ms {
                Phase::FadingOut
            } else {
                Phase::Visible
            },
            alpha,
            phase_start,
            effect: FadeEffect::NoChange,
        },
        Phase::FadingOut => {
            let a = faded_out(alpha);
            if a == 0 {
                FadeTransition { phase: Phase::Hidden, alpha: a, phase_start, effect: FadeEffect::HideAndStop }
            } else {
                FadeTransition { phase: Phase::FadingOut, alpha: a, phase_start, effect: FadeEffect::UpdateOpacity(a) }
            }
        },
        Phase::Hidden => FadeTransition { phase: Phase::Hidden, alpha: 0, phase_start, effect: FadeEffect::HideAndStop },
    }
}

/// One timer tick of the fade state machine at time `now` (milliseconds).
pub fn advance_fade(phase: Phase, alpha: u8, phase_start: u64, duration_ms: u32, now: u64) -> (t:
    FadeTransition)
    ensures
        t == spec_advance_fade(phase, alpha, phase_start, duration_ms, now),
        phase == Phase::FadingIn ==> {
            let a = faded_in(alpha);
            &&& t.alpha == a
            &&& t.effect == FadeEffect::UpdateOpacity(a)
            &&& (a == MAX_ALPHA ==> t.phase == Phase::Visible && t.phase_start == now)
            &&& (a != MAX_ALPHA ==> t.phase == Phase::FadingIn && t.phase_start == phase_start)
        },
        phase == Phase::Visible ==> {
            &&& t.alpha == alpha
            &&& t.phase_start == phase_start
            &&& t.effect == FadeEffect::NoChange
            &&& t.phase == (if (if now >= phase_start { now - phase_start } else { 0 }) >= duration_ms {
                Phase::FadingOut
            } else {
                Phase::Visible
            })
        },
        phase == Phase::FadingOut ==> {
            let a = faded_out(alpha);
            &&& t.alpha == a
            &&& t.phase_start == phase_start
            &&& (a == 0 ==> t.phase == Phase::Hidden && t.effect == FadeEffect::HideAndStop)
            &&& (a != 0 ==> t.phase == Phase::FadingOut && t.effect == FadeEffect::UpdateOpacity(a))
        },
        // The fade never raises opacity above the toast maximum, and any
        // opacity it asks the surface to show is the new alpha.
        alpha <= MAX_ALPHA ==> t.alpha <= MAX_ALPHA,
        t.effect matches FadeEffect::UpdateOpacity(a) ==> a == t.alpha && a > 0,
        phase == Phase::Hidden ==> t == (FadeTransition {
            phase: Phase::Hidden,
            alpha: 0,
            phase_start,
            effect: FadeEffect::HideAndStop,
        }),
{
    match phase {
        Phase::FadingIn => {
            let raised: u8 = if alpha > 255 - ALPHA_STEP { 255 } else { alpha + ALPHA_STEP };
            let next_alpha: u8 = if raised < MAX_ALPHA { raised } else { MAX_ALPHA };
            let (next_phase, next_start) = if next_alpha == MAX_ALPHA {
                (Phase::Visible, now)
            } else {
                (Phase::FadingIn, phase_start)
            };
            FadeTransition {
                phase: next_phase,
                alpha: next_alpha,
                phase_start: next_start,
                effect: FadeEffect::UpdateOpacity(next_alpha),
            }
        },
        Phase::Visible => {
            let elapsed: u64 = if now >= phase_start { now - phase_start } else { 0 };
            if elapsed >= duration_ms as u64 {
                FadeTransition { phase: Phase::FadingOut, alpha, phase_start, effect: FadeEffect::NoChange }
            } else {
                FadeTransition { phase, alpha, phase_start, effect: FadeEffect::NoChange }
            }
        },
        Phase::FadingOut => {
            let next_alpha: u8 = if alpha >= ALPHA_STEP { alpha - ALPHA_STEP } else { 0 };
            if next_alpha == 0 {
                FadeTransition {
                    phase: Phase::Hidden,
                    alpha: next_alpha,
                    phase_start,
                    effect: FadeEffect::HideAndStop,
                }
            } else {
                FadeTransition {
                    phase,
                    alpha: next_alpha,
                    phase_start,
                    effect: FadeEffect::UpdateOpacity(next_alpha),
                }
            }
        },
        Phase::Hidden => FadeTransition { phase, alpha: 0, phase_start, effect: FadeEffect::HideAndStop },
    }
}

/// The toast window and what it shows.
#[derive(Debug)]
pub struct ToastState {
    /// The toast window's handle value.
    pub hwnd: usize,
    pub text: String,
    pub phase: Phase,
    /// True only once the staged text has been presented and attached.
    pub scene_ready: bool,
    pub alpha: u8,
    pub phase_start: u64,
    pub duration_ms: u32,
    pub height: i32,
    pub enabled: bool,
}

/// What a fade timer tick asks of the toast window.
#[derive(Debug, Clone, Copy, PartialEq, Eq, Structural)]
pub enum ToastTick {
    /// The frame may no longer be shown: withdraw it.
    Suppress,
    /// Apply the fade's effect (a new opacity, or hide and stop the timer).
    Apply(FadeEffect),
}

/// Where a toast goes over the active client's client area.
#[derive(Debug, Clone, Copy, PartialEq, Eq, Structural)]
pub struct ToastPlacement {
    pub x: i32,
    pub y: i32,
    pub width: i32,
    pub height: i32,
}

/// Integer division rounding toward zero, as `/` on machine integers.
pub open spec fn quot_trunc(a: int, b: int) -> int {
    if a >= 0 { a / b } else { -((-a) / b) }
}

/// The toast is centred horizontally over the client area, a third of the
/// way down, as wide as its text plus 20 logical pixels on each side.
pub open spec fn spec_toast_placement(client: Rect, origin: Point, text_width: int, scale: Scale, height: int) -> ToastPlacement {
    let w = text_width + 2 * scale.spec_pixels(20);
    ToastPlacement {
        x: (origin.x + quot_trunc(client.right - client.left - w, 2)) as i32,
        y: (origin.y + quot_trunc(client.bottom - client.top, 3)) as i32,
        width: w as i32,
        height: scale.spec_pixels(height) as i32,
    }
}

pub fn toast_placement(client: Rect, origin: Point, text_width: i32, scale: Scale, height: i32) -> (p: ToastPlacement)
    requires
        screen_rect_ok(client),
        screen_ok(origin.x as int),
        screen_ok(origin.y as int),
        0 <= text_width <= 0x100_0000,
        dpi_ok(scale.dpi as int),
    ensures
        p == spec_toast_placement(client, origin, text_width as int, scale, height as int),
{
    proof {
        lemma_pixels_range(scale, 20);
    }
    let pad = scale.pixels(20);
    let toast_w = text_width + pad * 2;
    let client_w = client.right - client.left;
    let client_h = client.bottom - client.top;
    let x = origin.x + (client_w - toast_w) / 2;
    let y = origin.y + client_h / 3;
    ToastPlacement { x, y, width: toast_w, height: scale.pixels(height) }
}

impl ToastState {
    /// A hidden toast with no text.
    pub fn new(hwnd: usize, duration_ms: u32, height: i32, enabled: bool) -> (s: ToastState)
        ensures
            s.hwnd == hwnd,
            s.text@ == Seq::<char>::empty(),
            s.phase == Phase::Hidden,
            !s.scene_ready,
            s.alpha == 0,
            s.phase_start == 0,
            s.duration_ms == duration_ms,
            s.height == height,
            s.enabled == enabled,
    {
        ToastState {
            hwnd,
            text: String::new(),
            phase: Phase::Hidden,
            scene_ready: false,
            alpha: 0,
            phase_start: 0,
            duration_ms,
            height,
            enabled,
        }
    }

    /// One fade timer tick: where the frame may no longer be published the
    /// toast hides; otherwise it advances its fade, and once hidden its
    /// scene is no longer ready.
    pub fn tick(&mut self, overlay_visible: bool, surface_attached: bool, now: u64) -> (t: ToastTick)
        ensures
            !publication_allowed_spec(old(self).phase, old(self).scene_ready, overlay_visible, surface_attached) ==> {
                &&& t == ToastTick::Suppress
                &&& final(self).phase == Phase::Hidden
                &&& final(self).alpha == old(self).alpha
                &&& final(self).phase_start == old(self).phase_start
                &&& final(self).scene_ready == old(self).scene_ready
            },
            publication_allowed_spec(old(self).phase, old(self).scene_ready, overlay_visible, surface_attached) ==> {
                let tr = spec_advance_fade(
                    old(self).phase,
                    old(self).alpha,
                    old(self).phase_start,
                    old(self).duration_ms,
                    now,
                );
                &&& t == ToastTick::Apply(tr.effect)
                &&& final(self).phase == tr.phase
                &&& final(self).alpha == tr.alpha
                &&& final(self).phase_start == tr.phase_start
                &&& final(self).scene_ready == (old(self).scene_ready && tr.effect != FadeEffect::HideAndStop)
            },
            final(self).text == old(self).text,
            final(self).hwnd == old(self).hwnd,
            final(self).duration_ms == old(self).duration_ms,
            final(self).height == old(self).height,
            final(self).enabled == old(self).enabled,
    {
        if !publication_allowed(self.phase, self.scene_ready, overlay_visible, surface_attached) {
            self.phase = Phase::Hidden;
            return ToastTick::Suppress;
        }
        let transition = advance_fade(self.phase, self.alpha, self.phase_start, self.duration_ms, now);
        self.phase = transition.phase;
        self.alpha = transition.alpha;
        self.phase_start = transition.phase_start;
        match transition.effect {
            FadeEffect::HideAndStop => {
                self.scene_ready = false;
            },
            _ => {},
        }
        ToastTick::Apply(transition.effect)
    }

    /// Withdraw the shown toast before staging another: hidden, no scene.
    pub fn withdraw(&mut self)
        ensures
            final(self).phase == Phase::Hidden,
            !final(self).scene_ready,
            final(self).text == old(self).text,
            final(self).alpha == old(self).alpha,
            final(self).phase_start == old(self).phase_start,
            final(self).hwnd == old(self).hwnd,
            final(self).duration_ms == old(self).duration_ms,
            final(self).height == old(self).height,
            final(self).enabled == old(self).enabled,
    {
        self.phase = Phase::Hidden;
        self.scene_ready = false;
    }

    /// Stage a new text, fully transparent.
    pub fn stage(&mut self, text: String)
        ensures
            final(self).text == text,
            final(self).alpha == 0,
            final(self).phase_start == 0,
            final(self).phase == old(self).phase,
            final(self).scene_ready == old(self).scene_ready,
            final(self).hwnd == old(self).hwnd,
            final(self).duration_ms == old(self).duration_ms,
            final(self).height == old(self).height,
            final(self).enabled == old(self).enabled,
    {
        self.text = text;
        self.alpha = 0;
        self.phase_start = 0;
    }

    /// Start fading in a staged, presented toast. Returns whether it may be
    /// shown; if not it stays hidden.
    pub fn begin_fade_in(&mut self, now: u64, overlay_visible: bool, surface_attached: bool) -> (shown: bool)
        ensures
            shown == (overlay_visible && old(self).scene_ready && surface_attached),
            shown ==> final(self).phase == Phase::FadingIn,
            !shown ==> final(self).phase == Phase::Hidden,
            final(self).phase_start == (if overlay_visible { now } else { old(self).phase_start }),
            final(self).scene_ready == old(self).scene_ready,
            final(self).text == old(self).text,
            final(self).alpha == old(self).alpha,
            final(self).hwnd == old(self).hwnd,
            final(self).duration_ms == old(self).duration_ms,
            final(self).height == old(self).height,
            final(self).enabled == old(self).enabled,
    {
        if !overlay_visible {
            self.phase = Phase::Hidden;
            return false;
        }
        self.phase = Phase::FadingIn;
        self.phase_start = now;
        if !publication_allowed(self.phase, self.scene_ready, true, surface_attached) {
            self.phase = Phase::Hidden;
            return false;
        }
        true
    }
}

} // verus!
