//! Renderer-neutral overlay scenes and their physical-pixel geometry.
//!
//! These are role-specific snapshots, not a generic drawing API: the window
//! layer owns placement and interaction, and the compositor draws complete
//! scenes.

use vstd::prelude::*;
use vstd::string::StringExecFns;
use crate::geometry::{Color, Progress, Rect, Scale, color_of, imax, imin, max_i32, min_i32};
use crate::labels::LabelStyle;
use crate::notification_layout::{
    NotificationBorderLayout, NotificationContentLayout, border_layout, content_layout, frames_match,
    inset_frames,
};
use crate::notifications::{LABEL_MIN_ALPHA, NotificationVisualSnapshot};
use crate::scene_layout::{
    CastingLayout, TIMER_PANEL_GAP, TimerLayout, pip_content_stack_layout, pip_stack, progress_ok, rect,
    timer_layout,
};

verus! {

/// The drag cue over a thumbnail that the compositor already dims: gray,
/// translucent enough to keep the live image visible.
pub const REORDER_DIM_ALPHA: u8 = 64;
pub const REORDER_DIM_COLOR: u32 = 0x00333333;
pub const DROP_TARGET_COLOR: u32 = 0x0000CCFF;
pub const HOVER_COLOR: u32 = 0x00FFFFFF;
pub const EDIT_MODE_COLOR: u32 = 0x00FFFF00;

/// A color with its alpha.
#[derive(Clone, Copy, Debug, PartialEq, Eq, Structural)]
pub struct SceneColor {
    pub color: Color,
    pub alpha: u8,
}

impl SceneColor {
    pub fn opaque(color: Color) -> (s: SceneColor)
        ensures
            s == (SceneColor { color, alpha: 255 }),
    {
        SceneColor { color, alpha: 255 }
    }

    pub fn with_alpha(color: Color, alpha: u8) -> (s: SceneColor)
        ensures
            s == (SceneColor { color, alpha }),
    {
        SceneColor { color, alpha }
    }

    pub fn from_colorref(value: u32, alpha: u8) -> (s: SceneColor)
        ensures
            s == (SceneColor { color: color_of(value), alpha }),
    {
        SceneColor::with_alpha(Color::from_colorref(value), alpha)
    }
}

/// A font: family, size relative to the role's height, and weight.
#[derive(Debug)]
pub struct FontSpec {
    pub family: String,
    pub scale_percent: u32,
    pub weight: u16,
}

/// The roles of interface text, each with its own font and height.
#[derive(Clone, Copy, Debug, PartialEq, Eq, Structural)]
pub enum UiTextRole {
    Timer,
    NotificationPreview,
    InviteButton,
    StatusBanner,
    Toast,
}

impl UiTextRole {
    /// Banners are the heaviest; every other role is bold.
    pub open spec fn spec_weight(self) -> u16 {
        match self {
            UiTextRole::StatusBanner => 900,
            _ => 700,
        }
    }

    /// Logical text height: fixed for timers, buttons and previews; banners
    /// and toasts follow the configured label height.
    pub open spec fn logical_height(self, role_height: int) -> int {
        match self {
            UiTextRole::Timer | UiTextRole::InviteButton => 16,
            UiTextRole::NotificationPreview => 26,
            UiTextRole::StatusBanner | UiTextRole::Toast => role_height,
        }
    }

    pub fn weight(self) -> (w: u16)
        ensures
            w == self.spec_weight(),
    {
        match self {
            UiTextRole::StatusBanner => 900,
            _ => 700,
        }
    }

    /// The role's font: Segoe UI at full size.
    pub fn font(self) -> (f: FontSpec)
        ensures
            f.family@ == "Segoe UI"@,
            f.scale_percent == 100,
            f.weight == self.spec_weight(),
    {
        FontSpec { family: String::from_str("Segoe UI"), scale_percent: 100, weight: self.weight() }
    }

    /// The text height in physical pixels, at least one.
    pub fn height(self, scale: Scale, role_height: i32) -> (h: i32)
        ensures
            h == imax(scale.spec_pixels(self.logical_height(role_height as int)), 1),
    {
        let logical = match self {
            UiTextRole::Timer | UiTextRole::InviteButton => 16,
            UiTextRole::NotificationPreview => 26,
            UiTextRole::StatusBanner | UiTextRole::Toast => role_height,
        };
        max_i32(scale.pixels(logical), 1)
    }
}

/// The pointer and edit state of one picture-in-picture window.
#[derive(Clone, Copy, Debug, PartialEq, Eq, Structural)]
pub struct PipInteractionScene {
    pub hovered: bool,
    pub edit_mode: bool,
    pub reorder_dragging: bool,
    pub drag_source: bool,
    pub drop_target: bool,
}

impl Default for PipInteractionScene {
    fn default() -> (s: PipInteractionScene)
        ensures
            s == (PipInteractionScene {
                hovered: false,
                edit_mode: false,
                reorder_dragging: false,
                drag_source: false,
                drop_target: false,
            }),
    {
        PipInteractionScene {
            hovered: false,
            edit_mode: false,
            reorder_dragging: false,
            drag_source: false,
            drop_target: false,
        }
    }
}

/// One frame line of an indicator.
#[derive(Clone, Copy, Debug, PartialEq, Eq, Structural)]
pub struct FrameVisual {
    pub bounds: Rect,
    pub color: Color,
}

/// `count` nested frames of one color, the outermost on `bounds`.
pub open spec fn visuals_match(v: Seq<FrameVisual>, bounds: Rect, count: int, color: Color) -> bool {
    &&& v.len() == imax(count, 0)
    &&& forall|k: int| 0 <= k < v.len() ==> #[trigger] v[k] == (FrameVisual { bounds: bounds.spec_inset(k), color })
}

pub fn frame_visuals(bounds: Rect, count: i32, color: Color) -> (v: Vec<FrameVisual>)
    ensures
        visuals_match(v@, bounds, count as int, color),
{
    let frames = inset_frames(bounds, count);
    let mut v: Vec<FrameVisual> = Vec::new();
    let mut i: usize = 0;
    while i < frames.len()
        invariant
            frames_match(frames@, bounds, count as int),
            i <= frames@.len(),
            v@.len() == i,
            forall|k: int| 0 <= k < v@.len() ==> #[trigger] v@[k] == (FrameVisual { bounds: bounds.spec_inset(k), color }),
        decreases frames@.len() - i,
    {
        v.push(FrameVisual { bounds: frames[i], color });
        i = i + 1;
    }
    v
}

/// The four strips between a canvas and the content inset into it: top,
/// bottom, left and right.
pub open spec fn spec_border_strips(canvas: Rect, content: Rect) -> [Rect; 4] {
    [
        Rect { left: canvas.left, top: canvas.top, right: canvas.right, bottom: content.top },
        Rect { left: canvas.left, top: content.bottom, right: canvas.right, bottom: canvas.bottom },
        Rect { left: canvas.left, top: content.top, right: content.left, bottom: content.bottom },
        Rect { left: content.right, top: content.top, right: canvas.right, bottom: content.bottom },
    ]
}

pub fn border_strips(canvas: Rect, content: Rect) -> (s: [Rect; 4])
    ensures
        s == spec_border_strips(canvas, content),
{
    [
        Rect::new(canvas.left, canvas.top, canvas.right, content.top),
        Rect::new(canvas.left, content.bottom, canvas.right, canvas.bottom),
        Rect::new(canvas.left, content.top, content.left, content.bottom),
        Rect::new(content.right, content.top, canvas.right, content.bottom),
    ]
}

/// While a notification shows, the label never fades below the floor that
/// keeps the notification readable.
pub fn content_alpha(label_alpha: u8, has_notification: bool) -> (a: u8)
    ensures
        a == (if has_notification { imax(label_alpha as int, LABEL_MIN_ALPHA as int) } else { label_alpha as int }),
{
    if has_notification && label_alpha < LABEL_MIN_ALPHA {
        LABEL_MIN_ALPHA
    } else {
        label_alpha
    }
}

/// Which indicator frames a window shows: a cyan frame one pixel wider than
/// the border on a drop target, a white border-wide frame on hover outside
/// reordering and edit mode, a two-pixel yellow frame in edit mode.
pub open spec fn spec_indicator(interaction: PipInteractionScene, border: int) -> Option<(int, Color)> {
    if interaction.drop_target {
        Some((border + 1, color_of(DROP_TARGET_COLOR)))
    } else if interaction.hovered && !interaction.reorder_dragging && !interaction.edit_mode {
        Some((border, color_of(HOVER_COLOR)))
    } else if interaction.edit_mode {
        Some((2, color_of(EDIT_MODE_COLOR)))
    } else {
        None
    }
}

pub fn indicator_frames(interaction: PipInteractionScene, canvas: Rect, border: i32) -> (v: Vec<FrameVisual>)
    requires
        border < i32::MAX,
    ensures
        match spec_indicator(interaction, border as int) {
            Some((count, color)) => visuals_match(v@, canvas, count, color),
            None => v@.len() == 0,
        },
{
    if interaction.drop_target {
        frame_visuals(canvas, border + 1, Color::from_colorref(DROP_TARGET_COLOR))
    } else if interaction.hovered && !interaction.reorder_dragging && !interaction.edit_mode {
        frame_visuals(canvas, border, Color::from_colorref(HOVER_COLOR))
    } else if interaction.edit_mode {
        frame_visuals(canvas, 2, Color::from_colorref(EDIT_MODE_COLOR))
    } else {
        Vec::new()
    }
}

/// The gray cue over the window being dragged.
pub fn dim_overlay(interaction: PipInteractionScene) -> (d: Option<SceneColor>)
    ensures
        d == (if interaction.drag_source {
            Some(SceneColor { color: color_of(REORDER_DIM_COLOR), alpha: REORDER_DIM_ALPHA })
        } else {
            None
        }),
{
    if interaction.drag_source {
        Some(SceneColor::from_colorref(REORDER_DIM_COLOR, REORDER_DIM_ALPHA))
    } else {
        None
    }
}

/// Everything a picture-in-picture window draws.
#[derive(Debug)]
pub struct PipSceneLayout {
    pub canvas: Rect,
    pub content: Rect,
    pub black_border_strips: [Rect; 4],
    pub dim_overlay: Option<SceneColor>,
    pub indicator_frames: Vec<FrameVisual>,
    pub label_bounds: Rect,
    pub casting: Option<CastingLayout>,
    pub timer: Option<TimerLayout>,
    pub notification_border: Option<NotificationBorderLayout>,
    pub notification_content: Option<NotificationContentLayout>,
}

/// Lay out a picture-in-picture window: the label stack inside the border,
/// the black strips around it, the drag and hover indicators, and the
/// notification (whose border hides while reordering or editing).
pub fn pip_scene_layout(
    canvas: Rect,
    border_width: i32,
    style: LabelStyle,
    interaction: PipInteractionScene,
    notification: Option<&NotificationVisualSnapshot>,
    casting: Option<(Progress, i32, i32)>,
    timer_progress: Option<Progress>,
    measured_label_width: i32,
    measured_preview_text_width: i32,
) -> (r: PipSceneLayout)
    requires
        canvas.in_range(),
        style.valid(),
        border_width <= 0x1_0000,
        -0x1000_0000 <= measured_preview_text_width <= 0x1000_0000,
        casting matches Some(c) ==> progress_ok(c.0),
        timer_progress matches Some(p) ==> progress_ok(p),
    ensures
        ({
            let stack = pip_stack(canvas, imax(border_width as int, 0), style, measured_label_width as int, casting, timer_progress);
            &&& r.canvas == canvas
            &&& r.content == stack.content
            &&& r.label_bounds == stack.label_bounds
            &&& r.casting == stack.casting
            &&& r.timer == stack.timer
            &&& r.black_border_strips == spec_border_strips(canvas, stack.content)
        }),
        r.dim_overlay == (if interaction.drag_source {
            Some(SceneColor { color: color_of(REORDER_DIM_COLOR), alpha: REORDER_DIM_ALPHA })
        } else {
            None
        }),
        match spec_indicator(interaction, imax(border_width as int, 0)) {
            Some((count, color)) => visuals_match(r.indicator_frames@, canvas, count, color),
            None => r.indicator_frames@.len() == 0,
        },
        r.notification_border is Some <==> (notification is Some && !interaction.reorder_dragging && !interaction.edit_mode),
        r.notification_content is Some <==> notification is Some,
{
    let border = max_i32(border_width, 0);
    let stack = pip_content_stack_layout(canvas, border, style, measured_label_width, casting, timer_progress);
    let content = stack.content;
    let strips = border_strips(canvas, content);
    let notification_border = if !interaction.reorder_dragging && !interaction.edit_mode {
        match notification {
            Some(n) => Some(border_layout(n, canvas, border)),
            None => None,
        }
    } else {
        None
    };
    let notification_content = match notification {
        Some(n) => Some(content_layout(n, content, stack.content_bottom, style.scale, measured_preview_text_width)),
        None => None,
    };
    PipSceneLayout {
        canvas,
        content,
        black_border_strips: strips,
        dim_overlay: dim_overlay(interaction),
        indicator_frames: indicator_frames(interaction, canvas, border),
        label_bounds: stack.label_bounds,
        casting: stack.casting,
        timer: stack.timer,
        notification_border,
        notification_content,
    }
}

/// The notification content of a window as the hit test sees it: laid out
/// under the label stack with the timer that is showing.
pub fn notification_content_layout(
    snapshot: &NotificationVisualSnapshot,
    canvas: Rect,
    border: i32,
    style: LabelStyle,
    timer_progress: Option<Progress>,
    measured_text_width: i32,
) -> (r: NotificationContentLayout)
    requires
        canvas.in_range(),
        style.valid(),
        -0x1000_0000 <= measured_text_width <= 0x1000_0000,
        timer_progress matches Some(p) ==> progress_ok(p),
    ensures
        ({
            let stack = pip_stack(canvas, border as int, style, 0, None, timer_progress);
            r.unread_bottom == crate::notification_layout::spec_unread_row_bottom(stack.content_bottom as int, style.scale)
        }),
{
    let stack = pip_content_stack_layout(canvas, border, style, 0, None, timer_progress);
    content_layout(snapshot, stack.content, stack.content_bottom, style.scale, measured_text_width)
}

/// The always-visible label of the active client, with an optional timer
/// below it.
#[derive(Clone, Copy, Debug, PartialEq, Eq, Structural)]
pub struct ActiveLabelLayout {
    pub label_bounds: Rect,
    pub timer: Option<TimerLayout>,
}

/// The label fills the canvas width at the style's height (at most the
/// canvas's); the timer takes the rest of the canvas after the timer gap,
/// when any is left.
pub open spec fn spec_active_label_layout(canvas: Rect, style: LabelStyle, timer_progress: Option<Progress>) -> ActiveLabelLayout {
    let height = imax(imin(style.spec_px(style.logical_height as int), canvas.spec_height()), 0);
    let label_bounds = rect(canvas.left as int, canvas.top as int, canvas.right as int, canvas.top + height);
    let top = label_bounds.bottom + style.spec_px(TIMER_PANEL_GAP as int);
    ActiveLabelLayout {
        label_bounds,
        timer: match timer_progress {
            Some(p) => if top < canvas.bottom {
                Some(timer_layout(rect(label_bounds.left as int, top, label_bounds.right as int, canvas.bottom as int), style.scale, p))
            } else {
                None
            },
            None => None,
        },
    }
}

impl ActiveLabelLayout {
    pub fn new(canvas: Rect, style: LabelStyle, timer_progress: Option<Progress>) -> (r: ActiveLabelLayout)
        requires
            canvas.in_range(),
            style.valid(),
            timer_progress matches Some(p) ==> progress_ok(p),
        ensures
            r == spec_active_label_layout(canvas, style, timer_progress),
    {
        proof {
            crate::geometry::lemma_pixels_range(style.scale, style.logical_height as int);
            crate::geometry::lemma_pixels_range(style.scale, TIMER_PANEL_GAP as int);
        }
        let height = max_i32(min_i32(style.height(), canvas.height()), 0);
        let label_bounds = Rect::new(canvas.left, canvas.top, canvas.right, canvas.top + height);
        let timer = match timer_progress {
            Some(p) => {
                let top = label_bounds.bottom + style.pixels(TIMER_PANEL_GAP);
                if top < canvas.bottom {
                    Some(TimerLayout::new(Rect::new(label_bounds.left, top, label_bounds.right, canvas.bottom), style.scale, p))
                } else {
                    None
                }
            },
            None => None,
        };
        ActiveLabelLayout { label_bounds, timer }
    }
}

/// One-pixel frame strips along each inner edge of `bounds` (top, bottom,
/// left, right), never reaching outside it.
pub open spec fn spec_inward_frame_strips(b: Rect) -> [Rect; 4] {
    [
        rect(b.left as int, b.top as int, b.right as int, imin(b.top + 1, b.bottom as int)),
        rect(b.left as int, imax(b.bottom - 1, b.top as int), b.right as int, b.bottom as int),
        rect(b.left as int, b.top as int, imin(b.left + 1, b.right as int), b.bottom as int),
        rect(imax(b.right - 1, b.left as int), b.top as int, b.right as int, b.bottom as int),
    ]
}

pub fn inward_frame_strips(bounds: Rect) -> (s: [Rect; 4])
    requires
        bounds.in_range(),
    ensures
        s == spec_inward_frame_strips(bounds),
{
    let bottom_top = max_i32(bounds.bottom - 1, bounds.top);
    let right_left = max_i32(bounds.right - 1, bounds.left);
    [
        Rect::new(bounds.left, bounds.top, bounds.right, min_i32(bounds.top + 1, bounds.bottom)),
        Rect::new(bounds.left, bottom_top, bounds.right, bounds.bottom),
        Rect::new(bounds.left, bounds.top, min_i32(bounds.left + 1, bounds.right), bounds.bottom),
        Rect::new(right_left, bounds.top, bounds.right, bounds.bottom),
    ]
}

/// For a rectangle that is not inverted, every inward strip lies inside it.
pub proof fn law_inward_frames_inside(bounds: Rect)
    requires
        bounds.in_range(),
        bounds.left <= bounds.right,
        bounds.top <= bounds.bottom,
    ensures
        forall|k: int| 0 <= k < 4 ==> (#[trigger] spec_inward_frame_strips(bounds)[k]).within(bounds),
{
    let s = spec_inward_frame_strips(bounds);
    assert(s[0].within(bounds));
    assert(s[1].within(bounds));
    assert(s[2].within(bounds));
    assert(s[3].within(bounds));
}

} // verus!
