//! The vertical stack inside a client's picture-in-picture window: the
//! label, then an optional casting panel, then an optional timer panel, each
//! shown only where it fits.

use vstd::prelude::*;
use crate::geometry::{
    Progress, Rect, Scale, clamp_i32, dpi_ok, iclamp, imax, imin, lemma_pixels_range, max_i32,
    min_i32, saturate_i32, saturating_add_i32,
};
use crate::labels::LabelStyle;

verus! {

pub const CASTING_PANEL_GAP: i32 = 3;
pub const CASTING_PANEL_HEIGHT: i32 = 30;
pub const TIMER_PANEL_GAP: i32 = 4;
pub const TIMER_PANEL_HEIGHT: i32 = 42;

/// The largest progress denominator the layouts accept.
pub open spec fn progress_ok(p: Progress) -> bool {
    p.total <= 0x1_0000_0000_0000_0000
}

/// Geometry of a casting panel.
#[derive(Clone, Copy, Debug, PartialEq, Eq, Structural)]
pub struct CastingLayout {
    pub panel: Rect,
    pub track: Rect,
    pub fill: Rect,
    pub spell_text: Rect,
    pub outcome_text: Rect,
    pub corner_radius: i32,
    pub font_height: i32,
}

/// Geometry of a timer panel.
#[derive(Clone, Copy, Debug, PartialEq, Eq, Structural)]
pub struct TimerLayout {
    pub panel: Rect,
    pub track: Rect,
    pub fill: Rect,
    pub label_text: Rect,
    pub remaining_text: Rect,
    pub corner_radius: i32,
    pub font_height: i32,
}

pub open spec fn rect(left: int, top: int, right: int, bottom: int) -> Rect {
    Rect { left: left as i32, top: top as i32, right: right as i32, bottom: bottom as i32 }
}

/// A progress bar track `bar` pixels tall ending at `track_bottom`, inset
/// horizontally by `inset`, clipped to the panel.
pub open spec fn track_of(panel: Rect, inset: int, bar: int, track_bottom: int) -> Rect {
    let left = imin(panel.left + inset, panel.right as int);
    rect(left, imax(track_bottom - bar, panel.top as int), imax(panel.right - inset, left), track_bottom).spec_intersect(
        panel,
    )
}

/// The part of the track still to run: full at the start, empty at the end.
pub open spec fn fill_of(track: Rect, progress: Progress) -> Rect {
    let width = imax(track.spec_width(), 0);
    rect(track.left as int, track.top as int, track.left + progress.spec_remaining_of(width), track.bottom as int)
}

pub open spec fn casting_layout(bounds: Rect, scale: Scale, progress: Progress, outcome_width: int) -> CastingLayout {
    let panel = bounds;
    let inset = imax(scale.spec_pixels(7), 1);
    let gap = imax(scale.spec_pixels(6), 1);
    let bar = imax(scale.spec_pixels(3), 1);
    let track_bottom = imax(panel.bottom - imax(scale.spec_pixels(5), 1), panel.top as int);
    let track = track_of(panel, inset, bar, track_bottom);
    let text_bottom = imax(track.top - scale.spec_pixels(2), panel.top as int);
    let ow = iclamp(outcome_width, 0, imax(panel.spec_width(), 0) / 2);
    let outcome_left = if ow > 0 {
        imax(panel.right - inset - ow, panel.left + inset)
    } else {
        panel.right - inset
    };
    let text_left = imin(panel.left + inset, panel.right as int);
    let outcome_start = imin(outcome_left, panel.right as int);
    CastingLayout {
        panel,
        track,
        fill: fill_of(track, progress),
        spell_text: rect(
            text_left,
            panel.top as int,
            imin(imax(outcome_left - gap, panel.left + inset), panel.right as int),
            text_bottom,
        ).spec_intersect(panel),
        outcome_text: rect(outcome_start, panel.top as int, imax(panel.right - inset, outcome_start), text_bottom).spec_intersect(
            panel,
        ),
        corner_radius: imax(scale.spec_pixels(6), 2) as i32,
        font_height: imax(scale.spec_pixels(14), 1) as i32,
    }
}

pub open spec fn timer_layout(bounds: Rect, scale: Scale, progress: Progress) -> TimerLayout {
    let panel = bounds;
    let inset = imax(scale.spec_pixels(8), 1);
    let bar = imax(scale.spec_pixels(4), 1);
    let track_bottom = imax(panel.bottom - inset, panel.top as int);
    let track = track_of(panel, inset, bar, track_bottom);
    let text_bottom = imax(track.top - scale.spec_pixels(2), panel.top as int);
    let remaining_width = imin(scale.spec_pixels(62), imax(panel.spec_width(), 0));
    let split = imax(panel.right - remaining_width, panel.left + inset);
    let split_left = imin(split, panel.right as int);
    TimerLayout {
        panel,
        track,
        fill: fill_of(track, progress),
        label_text: rect(imin(panel.left + inset, panel.right as int), panel.top as int, split_left, text_bottom).spec_intersect(
            panel,
        ),
        remaining_text: rect(split_left, panel.top as int, imax(panel.right - inset, split_left), text_bottom).spec_intersect(
            panel,
        ),
        corner_radius: imax(scale.spec_pixels(7), 1) as i32,
        font_height: imax(scale.spec_pixels(16), 1) as i32,
    }
}

/// Small logical lengths stay small in pixels at any accepted DPI.
proof fn lemma_small(scale: Scale, logical: int)
    requires
        dpi_ok(scale.dpi as int),
        1 <= logical <= 64,
    ensures
        0 <= scale.spec_pixels(logical) <= 64 * 50 + 1,
{
    lemma_pixels_range(scale, logical);
}

/// The track of a panel and the part of it still to run.
fn track_and_fill(panel: Rect, inset: i32, bar: i32, track_bottom: i32, progress: Progress) -> (r: (Rect, Rect))
    requires
        panel.in_range(),
        1 <= inset <= 0x1_0000,
        1 <= bar <= 0x1_0000,
        panel.top <= track_bottom <= imax(panel.bottom as int, panel.top as int),
        progress_ok(progress),
    ensures
        r.0 == track_of(panel, inset as int, bar as int, track_bottom as int),
        r.1 == fill_of(r.0, progress),
        r.0.within(panel),
{
    let left = min_i32(panel.left + inset, panel.right);
    let track = Rect::new(left, max_i32(track_bottom - bar, panel.top), max_i32(panel.right - inset, left), track_bottom)
        .intersect(panel);
    let width = max_i32(track.width(), 0);
    let fill = Rect::new(track.left, track.top, track.left + progress.remaining_of(width), track.bottom);
    (track, fill)
}

impl CastingLayout {
    pub fn new(bounds: Rect, scale: Scale, progress: Progress, outcome_width: i32) -> (r: CastingLayout)
        requires
            bounds.in_range(),
            dpi_ok(scale.dpi as int),
            progress_ok(progress),
        ensures
            r == casting_layout(bounds, scale, progress, outcome_width as int),
    {
        proof {
            lemma_small(scale, 2);
            lemma_small(scale, 3);
            lemma_small(scale, 5);
            lemma_small(scale, 6);
            lemma_small(scale, 7);
            lemma_small(scale, 14);
        }
        let panel = bounds;
        let inset = max_i32(scale.pixels(7), 1);
        let gap = max_i32(scale.pixels(6), 1);
        let bar_height = max_i32(scale.pixels(3), 1);
        let track_bottom = max_i32(panel.bottom - max_i32(scale.pixels(5), 1), panel.top);
        let (track, fill) = track_and_fill(panel, inset, bar_height, track_bottom, progress);
        let text_bottom = max_i32(track.top - scale.pixels(2), panel.top);
        let outcome_width = clamp_i32(outcome_width, 0, max_i32(panel.width(), 0) / 2);
        let outcome_left = if outcome_width > 0 {
            max_i32(panel.right - inset - outcome_width, panel.left + inset)
        } else {
            panel.right - inset
        };
        let text_left = min_i32(panel.left + inset, panel.right);
        let outcome_start = min_i32(outcome_left, panel.right);
        CastingLayout {
            panel,
            track,
            fill,
            spell_text: Rect::new(
                text_left,
                panel.top,
                min_i32(max_i32(outcome_left - gap, panel.left + inset), panel.right),
                text_bottom,
            ).intersect(panel),
            outcome_text: Rect::new(outcome_start, panel.top, max_i32(panel.right - inset, outcome_start), text_bottom)
                .intersect(panel),
            corner_radius: max_i32(scale.pixels(6), 2),
            font_height: max_i32(scale.pixels(14), 1),
        }
    }
}

impl TimerLayout {
    pub fn new(bounds: Rect, scale: Scale, progress: Progress) -> (r: TimerLayout)
        requires
            bounds.in_range(),
            dpi_ok(scale.dpi as int),
            progress_ok(progress),
        ensures
            r == timer_layout(bounds, scale, progress),
    {
        proof {
            lemma_small(scale, 2);
            lemma_small(scale, 4);
            lemma_small(scale, 7);
            lemma_small(scale, 8);
            lemma_small(scale, 16);
            lemma_small(scale, 62);
        }
        let panel = bounds;
        let inset = max_i32(scale.pixels(8), 1);
        let bar_height = max_i32(scale.pixels(4), 1);
        let track_bottom = max_i32(panel.bottom - inset, panel.top);
        let (track, fill) = track_and_fill(panel, inset, bar_height, track_bottom, progress);
        let text_bottom = max_i32(track.top - scale.pixels(2), panel.top);
        let remaining_width = min_i32(scale.pixels(62), max_i32(panel.width(), 0));
        let split = max_i32(panel.right - remaining_width, panel.left + inset);
        let split_left = min_i32(split, panel.right);
        TimerLayout {
            panel,
            track,
            fill,
            label_text: Rect::new(min_i32(panel.left + inset, panel.right), panel.top, split_left, text_bottom)
                .intersect(panel),
            remaining_text: Rect::new(split_left, panel.top, max_i32(panel.right - inset, split_left), text_bottom)
                .intersect(panel),
            corner_radius: max_i32(scale.pixels(7), 1),
            font_height: max_i32(scale.pixels(16), 1),
        }
    }
}

/// The stacked parts of a picture-in-picture window's content.
#[derive(Clone, Copy, Debug, PartialEq, Eq, Structural)]
pub struct PipContentStackLayout {
    pub content: Rect,
    pub label_bounds: Rect,
    pub casting: Option<CastingLayout>,
    pub timer: Option<TimerLayout>,
    pub content_bottom: i32,
}

/// The label's bounds: at the content's top-left corner, as tall as the
/// style's label (at most the content's height) and as wide as measured (at
/// most the content's width).
pub open spec fn stack_label_bounds(content: Rect, style: LabelStyle, measured_label_width: int) -> Rect {
    let label_height = imax(imin(style.spec_px(style.logical_height as int), content.spec_height()), 0);
    rect(
        content.left as int,
        content.top as int,
        content.left + iclamp(measured_label_width, 0, imax(content.spec_width(), 0)),
        content.top + label_height,
    )
}

/// The casting panel: below the label by the casting gap, as wide as the
/// label or the casting texts need (up to the content width), shown only
/// when its bottom fits inside the content.
pub open spec fn stack_casting(
    content: Rect,
    label_bounds: Rect,
    style: LabelStyle,
    measured_label_width: int,
    casting: Option<(Progress, i32, i32)>,
) -> Option<CastingLayout> {
    match casting {
        None => None,
        Some((progress, spell_width, outcome_width)) => {
            let top = label_bounds.bottom + style.spec_px(CASTING_PANEL_GAP as int);
            let bottom = top + style.spec_px(CASTING_PANEL_HEIGHT as int);
            let desired = imax(
                measured_label_width,
                saturate_i32(saturate_i32(spell_width + outcome_width) + style.spec_px(34)),
            );
            if bottom <= content.bottom {
                Some(
                    casting_layout(
                        rect(
                            label_bounds.left as int,
                            top,
                            label_bounds.left + iclamp(desired, 0, imax(content.spec_width(), 0)),
                            bottom,
                        ),
                        style.scale,
                        progress,
                        outcome_width as int,
                    ),
                )
            } else {
                None
            }
        },
    }
}

/// The timer panel: below the casting panel (or the label) by the timer gap,
/// as wide as the label, shown only when its bottom fits.
pub open spec fn stack_timer(
    content: Rect,
    label_bounds: Rect,
    style: LabelStyle,
    casting: Option<CastingLayout>,
    timer_progress: Option<Progress>,
) -> Option<TimerLayout> {
    match timer_progress {
        None => None,
        Some(progress) => {
            let anchor = match casting {
                Some(c) => c.panel.bottom as int,
                None => label_bounds.bottom as int,
            };
            let top = anchor + style.spec_px(TIMER_PANEL_GAP as int);
            let bottom = top + style.spec_px(TIMER_PANEL_HEIGHT as int);
            if bottom <= content.bottom {
                Some(
                    timer_layout(
                        rect(label_bounds.left as int, top, label_bounds.right as int, bottom),
                        style.scale,
                        progress,
                    ),
                )
            } else {
                None
            }
        },
    }
}

pub open spec fn pip_stack(
    canvas: Rect,
    border_width: int,
    style: LabelStyle,
    measured_label_width: int,
    casting: Option<(Progress, i32, i32)>,
    timer_progress: Option<Progress>,
) -> PipContentStackLayout {
    let content = canvas.spec_inset(imax(border_width, 0));
    let label_bounds = stack_label_bounds(content, style, measured_label_width);
    let c = stack_casting(content, label_bounds, style, measured_label_width, casting);
    let t = stack_timer(content, label_bounds, style, c, timer_progress);
    PipContentStackLayout {
        content,
        label_bounds,
        casting: c,
        timer: t,
        content_bottom: match t {
            Some(t) => t.panel.bottom,
            None => match c {
                Some(c) => c.panel.bottom,
                None => label_bounds.bottom,
            },
        },
    }
}

fn casting_in_stack(
    content: Rect,
    label_bounds: Rect,
    style: LabelStyle,
    measured_label_width: i32,
    casting: Option<(Progress, i32, i32)>,
) -> (r: Option<CastingLayout>)
    requires
        content.in_range(),
        label_bounds.in_range(),
        label_bounds.left == content.left,
        content.top <= label_bounds.bottom,
        style.valid(),
        casting matches Some(c) ==> progress_ok(c.0),
    ensures
        r == stack_casting(content, label_bounds, style, measured_label_width as int, casting),
        r matches Some(c) ==> label_bounds.bottom <= c.panel.top <= c.panel.bottom <= content.bottom,
{
    proof {
        lemma_small(style.scale, 3);
        lemma_small(style.scale, 30);
        lemma_small(style.scale, 34);
    }
    match casting {
        None => None,
        Some((progress, spell_width, outcome_width)) => {
            let top = label_bounds.bottom + style.pixels(CASTING_PANEL_GAP);
            let bottom = top + style.pixels(CASTING_PANEL_HEIGHT);
            let desired_width = max_i32(
                measured_label_width,
                saturating_add_i32(saturating_add_i32(spell_width, outcome_width), style.pixels(34)),
            );
            if bottom <= content.bottom {
                let panel = Rect::new(
                    label_bounds.left,
                    top,
                    label_bounds.left + clamp_i32(desired_width, 0, max_i32(content.width(), 0)),
                    bottom,
                );
                Some(CastingLayout::new(panel, style.scale, progress, outcome_width))
            } else {
                None
            }
        },
    }
}

fn timer_in_stack(
    content: Rect,
    label_bounds: Rect,
    style: LabelStyle,
    casting: Option<CastingLayout>,
    timer_progress: Option<Progress>,
) -> (r: Option<TimerLayout>)
    requires
        content.in_range(),
        label_bounds.in_range(),
        content.top <= label_bounds.bottom,
        casting matches Some(c) ==> label_bounds.bottom <= c.panel.bottom <= content.bottom,
        style.valid(),
        timer_progress matches Some(p) ==> progress_ok(p),
    ensures
        r == stack_timer(content, label_bounds, style, casting, timer_progress),
        r matches Some(t) ==> t.panel.bottom <= content.bottom,
        r matches Some(t) ==> t.panel.top >= label_bounds.bottom,
        r matches Some(t) ==> (casting matches Some(c) ==> t.panel.top >= c.panel.bottom),
{
    proof {
        lemma_small(style.scale, 4);
        lemma_small(style.scale, 42);
    }
    match timer_progress {
        None => None,
        Some(progress) => {
            let anchor = match casting {
                Some(c) => c.panel.bottom,
                None => label_bounds.bottom,
            };
            let top = anchor + style.pixels(TIMER_PANEL_GAP);
            let bottom = top + style.pixels(TIMER_PANEL_HEIGHT);
            if bottom <= content.bottom {
                Some(TimerLayout::new(Rect::new(label_bounds.left, top, label_bounds.right, bottom), style.scale, progress))
            } else {
                None
            }
        },
    }
}

/// Shared vertical layout for drawing and interaction: whether the casting
/// and timer panels fit is decided here and nowhere else.
pub fn pip_content_stack_layout(
    canvas: Rect,
    border_width: i32,
    style: LabelStyle,
    measured_label_width: i32,
    casting: Option<(Progress, i32, i32)>,
    timer_progress: Option<Progress>,
) -> (r: PipContentStackLayout)
    requires
        canvas.in_range(),
        style.valid(),
        casting matches Some(c) ==> progress_ok(c.0),
        timer_progress matches Some(p) ==> progress_ok(p),
    ensures
        r == pip_stack(canvas, border_width as int, style, measured_label_width as int, casting, timer_progress),
        r.casting matches Some(c) ==> c.panel.top >= r.label_bounds.bottom && c.panel.bottom <= r.content.bottom,
        r.timer matches Some(t) ==> t.panel.top >= r.label_bounds.bottom && t.panel.bottom <= r.content.bottom,
        r.casting matches Some(c) ==> (r.timer matches Some(t) ==> t.panel.top >= c.panel.bottom),
        r.content.in_range(),
        r.label_bounds.in_range(),
        -0x1000_0000 <= r.content_bottom <= 0x1000_0000,
{
    proof {
        lemma_pixels_range(style.scale, style.logical_height as int);
    }
    let content = canvas.inset(max_i32(border_width, 0));
    let label_height = max_i32(min_i32(style.height(), content.height()), 0);
    let label_bounds = Rect::new(
        content.left,
        content.top,
        content.left + clamp_i32(measured_label_width, 0, max_i32(content.width(), 0)),
        content.top + label_height,
    );
    let casting_layout = casting_in_stack(content, label_bounds, style, measured_label_width, casting);
    let timer = timer_in_stack(content, label_bounds, style, casting_layout, timer_progress);
    let content_bottom = match timer {
        Some(t) => t.panel.bottom,
        None => match casting_layout {
            Some(c) => c.panel.bottom,
            None => label_bounds.bottom,
        },
    };
    PipContentStackLayout { content, label_bounds, casting: casting_layout, timer, content_bottom }
}

} // verus!
