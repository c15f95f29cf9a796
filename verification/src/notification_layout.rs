//! Geometry and colors of a notification inside a picture-in-picture window:
//! the row of unread dots under the label, the preview card with its
//! optional invite buttons, and the hit test that matches what is drawn.

use vstd::prelude::*;
use crate::geometry::{
    Color, Rect, Scale, clamp_i32, color_of, colorref, colorref_of, dpi_ok, iclamp, imax, imin,
    lemma_pixels_range, max_i32, min_i32, round_ratio, round_ratio_exec,
};
use crate::notifications::{InviteAction, NotificationVisualSnapshot};

verus! {

pub const PREVIEW_HEIGHT: i32 = 54;
pub const ACTION_PREVIEW_HEIGHT: i32 = 98;
pub const PREVIEW_MIN_WIDTH: i32 = 260;
pub const PREVIEW_PADDING: i32 = 10;
pub const PREVIEW_ICON_SIZE: i32 = 20;
pub const ACTION_BUTTON_HEIGHT: i32 = 30;
pub const ACTION_BUTTON_GAP: i32 = 8;
pub const ACCEPT_BUTTON_WIDTH: i32 = 84;
pub const DISMISS_BUTTON_WIDTH: i32 = 88;
pub const PREVIEW_MARGIN: i32 = 6;
pub const PREVIEW_SHADOW_X: i32 = 3;
pub const PREVIEW_SHADOW_Y: i32 = 4;
pub const PREVIEW_SHADOW_FAR: u32 = 0x00140F0B;
pub const PREVIEW_SHADOW_NEAR: u32 = 0x00241B13;
pub const PREVIEW_BACKGROUND: u32 = 0x00403020;
pub const DISMISS_BUTTON_COLOR: u32 = 0x00605040;
pub const WHITE: u32 = 0x00FFFFFF;
pub const DARK_TEXT: u32 = 0x00201810;
pub const PREVIEW_GAP: i32 = 4;
pub const UNREAD_DOT_DIAMETER: i32 = 9;
pub const UNREAD_DOT_RING: i32 = 2;
pub const UNREAD_DOT_GAP: i32 = 4;
pub const UNREAD_ROW_HEIGHT: i32 = 13;

/// Small logical lengths stay small in pixels at any accepted DPI.
pub proof fn lemma_small_px(scale: Scale, logical: int)
    requires
        dpi_ok(scale.dpi as int),
        1 <= logical <= 512,
    ensures
        0 <= scale.spec_pixels(logical) <= 512 * 50 + 1,
{
    lemma_pixels_range(scale, logical);
}

// ---------------------------------------------------------------- colors

/// A channel moved by `amount`, clamped to a byte.
pub open spec fn adjusted(channel: int, amount: int) -> int {
    iclamp(channel + amount, 0, 255)
}

pub open spec fn spec_adjust_color(color: u32, amount: int) -> u32 {
    let c = color_of(color);
    colorref_of(
        Color {
            red: adjusted(c.red as int, amount) as u8,
            green: adjusted(c.green as int, amount) as u8,
            blue: adjusted(c.blue as int, amount) as u8,
        },
    )
}

fn adjust_channel(channel: u8, amount: i32) -> (r: u8)
    ensures
        r == adjusted(channel as int, amount as int),
{
    let v = channel as i64 + amount as i64;
    if v < 0 {
        0
    } else if v > 255 {
        255
    } else {
        v as u8
    }
}

/// Lighten (positive `amount`) or darken every channel of a COLORREF.
pub fn adjust_color(color: u32, amount: i32) -> (r: u32)
    ensures
        r == spec_adjust_color(color, amount as int),
{
    let c = Color::from_colorref(color);
    colorref(
        Color {
            red: adjust_channel(c.red, amount),
            green: adjust_channel(c.green, amount),
            blue: adjust_channel(c.blue, amount),
        },
    )
}

/// Perceived brightness (ITU-R BT.601 weights, times 1000).
pub open spec fn brightness(color: u32) -> int {
    let c = color_of(color);
    299 * c.red + 587 * c.green + 114 * c.blue
}

/// Dark text on light backgrounds, white text on dark ones.
pub fn contrasting_text_color(background: u32) -> (r: u32)
    ensures
        r == (if brightness(background) >= 145_000 { DARK_TEXT } else { WHITE }),
{
    let c = Color::from_colorref(background);
    if 299 * (c.red as u32) + 587 * (c.green as u32) + 114 * (c.blue as u32) >= 145_000 {
        DARK_TEXT
    } else {
        WHITE
    }
}

/// A channel dimmed to 38%, rounded to the nearest value.
pub open spec fn dimmed(channel: int) -> int {
    imin(round_ratio(channel * 38, 100), 255)
}

pub open spec fn spec_dim_colorref(color: u32) -> u32 {
    let c = color_of(color);
    colorref_of(Color { red: dimmed(c.red as int) as u8, green: dimmed(c.green as int) as u8, blue: dimmed(c.blue as int) as u8 })
}

fn dim_channel(channel: u8) -> (r: u8)
    ensures
        r == dimmed(channel as int),
{
    let v = round_ratio_exec(channel as i128 * 38, 100);
    proof {
        let n = channel as int * 38;
        assert((2 * n + 100) / 200 <= 255) by (nonlinear_arith)
            requires
                0 <= n <= 255 * 38,
        ;
    }
    if v > 255 {
        255
    } else {
        v as u8
    }
}

/// The border color while the highlight runs around it.
pub fn dim_colorref(color: u32) -> (r: u32)
    ensures
        r == spec_dim_colorref(color),
{
    let c = Color::from_colorref(color);
    colorref(Color { red: dim_channel(c.red), green: dim_channel(c.green), blue: dim_channel(c.blue) })
}

// ---------------------------------------------------------------- geometry

/// Coordinates a little beyond the accepted layout range, as derived
/// rectangles may reach.
pub open spec fn near_range(r: Rect) -> bool {
    &&& -0x1100_0000 <= r.left <= 0x1100_0000
    &&& -0x1100_0000 <= r.top <= 0x1100_0000
    &&& -0x1100_0000 <= r.right <= 0x1100_0000
    &&& -0x1100_0000 <= r.bottom <= 0x1100_0000
}

pub open spec fn rect(left: int, top: int, right: int, bottom: int) -> Rect {
    Rect { left: left as i32, top: top as i32, right: right as i32, bottom: bottom as i32 }
}

/// The accept and dismiss buttons along the bottom of a preview, after the
/// icon column, when both fit inside the padding.
#[verifier::opaque]
pub open spec fn spec_invite_buttons(preview: Rect, scale: Scale) -> Option<(Rect, Rect)> {
    let pad = scale.spec_pixels(PREVIEW_PADDING as int);
    let gap = scale.spec_pixels(ACTION_BUTTON_GAP as int);
    let height = scale.spec_pixels(ACTION_BUTTON_HEIGHT as int);
    let accept = scale.spec_pixels(ACCEPT_BUTTON_WIDTH as int);
    let dismiss = scale.spec_pixels(DISMISS_BUTTON_WIDTH as int);
    let left = preview.left + pad + scale.spec_pixels(PREVIEW_ICON_SIZE + 9);
    let top = preview.bottom - pad - height;
    if top <= preview.top + pad || left + accept + gap + dismiss + pad > preview.right {
        None
    } else {
        Some(
            (
                rect(left, top, left + accept, top + height),
                rect(left + accept + gap, top, left + accept + gap + dismiss, top + height),
            ),
        )
    }
}

pub fn invite_button_rects_neutral(preview: Rect, scale: Scale) -> (r: Option<(Rect, Rect)>)
    requires
        near_range(preview),
        dpi_ok(scale.dpi as int),
    ensures
        r == spec_invite_buttons(preview, scale),
        r matches Some(b) ==> preview.top < b.0.top <= preview.bottom,
{
    reveal(spec_invite_buttons);
    proof {
        lemma_small_px(scale, PREVIEW_PADDING as int);
        lemma_small_px(scale, ACTION_BUTTON_GAP as int);
        lemma_small_px(scale, ACTION_BUTTON_HEIGHT as int);
        lemma_small_px(scale, ACCEPT_BUTTON_WIDTH as int);
        lemma_small_px(scale, DISMISS_BUTTON_WIDTH as int);
        lemma_small_px(scale, PREVIEW_ICON_SIZE + 9);
    }
    let pad = scale.pixels(PREVIEW_PADDING);
    let gap = scale.pixels(ACTION_BUTTON_GAP);
    let height = scale.pixels(ACTION_BUTTON_HEIGHT);
    let accept_width = scale.pixels(ACCEPT_BUTTON_WIDTH);
    let dismiss_width = scale.pixels(DISMISS_BUTTON_WIDTH);
    let left = preview.left + pad + scale.pixels(PREVIEW_ICON_SIZE + 9);
    let top = preview.bottom - pad - height;
    if top <= preview.top + pad || left + accept_width + gap + dismiss_width + pad > preview.right {
        return None;
    }
    Some(
        (
            Rect::new(left, top, left + accept_width, top + height),
            Rect::new(left + accept_width + gap, top, left + accept_width + gap + dismiss_width, top + height),
        ),
    )
}

pub open spec fn spec_unread_row_bottom(label_bottom: int, scale: Scale) -> int {
    label_bottom + scale.spec_pixels(PREVIEW_GAP as int) + scale.spec_pixels(UNREAD_ROW_HEIGHT as int)
}

/// The bottom of the unread-dot row under a label.
pub fn unread_row_bottom(label_bottom: i32, scale: Scale) -> (r: i32)
    requires
        -0x1000_0000 <= label_bottom <= 0x1000_0000,
        dpi_ok(scale.dpi as int),
    ensures
        r == spec_unread_row_bottom(label_bottom as int, scale),
{
    proof {
        lemma_small_px(scale, PREVIEW_GAP as int);
        lemma_small_px(scale, UNREAD_ROW_HEIGHT as int);
    }
    label_bottom + scale.pixels(PREVIEW_GAP) + scale.pixels(UNREAD_ROW_HEIGHT)
}

/// A preview of a given logical height, anchored above the client's bottom
/// margin and shadow, never reaching above `minimum_top`.
#[verifier::opaque]
pub open spec fn preview_bounds_for_height(client: Rect, minimum_top: int, scale: Scale, height: int) -> Rect {
    let top_limit = minimum_top + scale.spec_pixels(PREVIEW_GAP as int);
    let margin = scale.spec_pixels(PREVIEW_MARGIN as int);
    let bottom = client.bottom - margin - scale.spec_pixels(PREVIEW_SHADOW_Y as int);
    rect(
        client.left + margin,
        imax(bottom - scale.spec_pixels(height), top_limit),
        client.right - margin - scale.spec_pixels(PREVIEW_SHADOW_X as int),
        bottom,
    )
}

/// The tall action preview where an invite has actions and its buttons fit;
/// the plain preview otherwise.
#[verifier::opaque]
pub open spec fn spec_available_bounds(client: Rect, minimum_top: int, scale: Scale, invite_actions: bool) -> Rect {
    let action = preview_bounds_for_height(client, minimum_top, scale, ACTION_PREVIEW_HEIGHT as int);
    if invite_actions && action.spec_height() >= scale.spec_pixels(84) && spec_invite_buttons(action, scale) is Some {
        action
    } else {
        preview_bounds_for_height(client, minimum_top, scale, PREVIEW_HEIGHT as int)
    }
}

fn bounds_for_height(client: Rect, minimum_top: i32, scale: Scale, height: i32) -> (r: Rect)
    requires
        client.in_range(),
        -0x1080_0000 <= minimum_top <= 0x1080_0000,
        dpi_ok(scale.dpi as int),
        1 <= height <= 512,
    ensures
        r == preview_bounds_for_height(client, minimum_top as int, scale, height as int),
        near_range(r),
{
    reveal(preview_bounds_for_height);
    proof {
        lemma_small_px(scale, PREVIEW_GAP as int);
        lemma_small_px(scale, PREVIEW_MARGIN as int);
        lemma_small_px(scale, PREVIEW_SHADOW_X as int);
        lemma_small_px(scale, PREVIEW_SHADOW_Y as int);
        lemma_small_px(scale, height as int);
    }
    let top_limit = minimum_top + scale.pixels(PREVIEW_GAP);
    let margin = scale.pixels(PREVIEW_MARGIN);
    let bottom = client.bottom - margin - scale.pixels(PREVIEW_SHADOW_Y);
    Rect::new(
        client.left + margin,
        max_i32(bottom - scale.pixels(height), top_limit),
        client.right - margin - scale.pixels(PREVIEW_SHADOW_X),
        bottom,
    )
}

pub fn preview_available_bounds(client: Rect, minimum_top: i32, scale: Scale, invite_actions: bool) -> (r: Rect)
    requires
        client.in_range(),
        -0x1080_0000 <= minimum_top <= 0x1080_0000,
        dpi_ok(scale.dpi as int),
    ensures
        r == spec_available_bounds(client, minimum_top as int, scale, invite_actions),
        near_range(r),
{
    reveal(spec_available_bounds);
    proof {
        lemma_small_px(scale, 84);
        lemma_small_px(scale, PREVIEW_GAP as int);
        lemma_small_px(scale, PREVIEW_MARGIN as int);
        lemma_small_px(scale, PREVIEW_SHADOW_X as int);
        lemma_small_px(scale, PREVIEW_SHADOW_Y as int);
        lemma_small_px(scale, ACTION_PREVIEW_HEIGHT as int);
        lemma_small_px(scale, PREVIEW_HEIGHT as int);
    }
    let action_preview = bounds_for_height(client, minimum_top, scale, ACTION_PREVIEW_HEIGHT);
    if invite_actions && action_preview.height() >= scale.pixels(84) {
        if invite_button_rects_neutral(action_preview, scale).is_some() {
            return action_preview;
        }
    }
    bounds_for_height(client, minimum_top, scale, PREVIEW_HEIGHT)
}

// ---------------------------------------------------------------- preview

/// An invite button as drawn: darker while pressed, lighter while hovered.
#[derive(Clone, Copy, Debug, PartialEq, Eq, Structural)]
pub struct InviteButtonVisual {
    pub action: InviteAction,
    pub bounds: Rect,
    pub fill_color: Color,
    pub border_color: Color,
    pub text_color: Color,
    pub hovered: bool,
    pub pressed: bool,
    pub radius: i32,
}

/// The preview card with its shadows, icon and text areas and buttons.
#[derive(Clone, Debug)]
pub struct NotificationPreviewLayout {
    pub far_shadow: Rect,
    pub near_shadow: Rect,
    pub surface: Rect,
    pub icon: Rect,
    pub text: Rect,
    pub far_shadow_color: Color,
    pub near_shadow_color: Color,
    pub surface_color: Color,
    pub radius: i32,
    pub buttons: Vec<InviteButtonVisual>,
}

pub open spec fn is_action(a: Option<InviteAction>, action: InviteAction) -> bool {
    a == Some(action)
}

pub open spec fn spec_button_visual(
    action: InviteAction,
    bounds: Rect,
    base_color: u32,
    text_color: u32,
    scale: Scale,
    hovered_action: Option<InviteAction>,
    pressed_action: Option<InviteAction>,
) -> InviteButtonVisual {
    let hovered = is_action(hovered_action, action);
    let pressed = is_action(pressed_action, action) && hovered;
    let fill = if pressed {
        spec_adjust_color(base_color, -24)
    } else if hovered {
        spec_adjust_color(base_color, 18)
    } else {
        base_color
    };
    InviteButtonVisual {
        action,
        bounds,
        fill_color: color_of(fill),
        border_color: color_of(spec_adjust_color(fill, 28)),
        text_color: color_of(text_color),
        hovered,
        pressed,
        radius: imax(scale.spec_pixels(7), 3) as i32,
    }
}

fn action_is(a: Option<InviteAction>, action: InviteAction) -> (b: bool)
    ensures
        b == is_action(a, action),
{
    match (a, action) {
        (Some(InviteAction::Accept), InviteAction::Accept) => true,
        (Some(InviteAction::Dismiss), InviteAction::Dismiss) => true,
        _ => false,
    }
}

pub fn button_visual(
    action: InviteAction,
    bounds: Rect,
    base_color: u32,
    text_color: u32,
    scale: Scale,
    snapshot: &NotificationVisualSnapshot,
) -> (r: InviteButtonVisual)
    requires
        dpi_ok(scale.dpi as int),
    ensures
        r == spec_button_visual(action, bounds, base_color, text_color, scale, snapshot.hovered_action, snapshot.pressed_action),
{
    proof {
        lemma_small_px(scale, 7);
    }
    let hovered = action_is(snapshot.hovered_action, action);
    let pressed = action_is(snapshot.pressed_action, action) && hovered;
    let fill = if pressed {
        adjust_color(base_color, -24)
    } else if hovered {
        adjust_color(base_color, 18)
    } else {
        base_color
    };
    InviteButtonVisual {
        action,
        bounds,
        fill_color: Color::from_colorref(fill),
        border_color: Color::from_colorref(adjust_color(fill, 28)),
        text_color: Color::from_colorref(text_color),
        hovered,
        pressed,
        radius: max_i32(scale.pixels(7), 3),
    }
}

/// Halving toward zero, as integer division does.
pub open spec fn half_toward_zero(v: int) -> int {
    if v >= 0 { v / 2 } else { -((-v) / 2) }
}

fn halve(v: i32) -> (r: i32)
    ensures
        r == half_toward_zero(v as int),
{
    if v >= 0 { v / 2 } else { -((-(v as i64)) / 2) as i32 }
}

/// The parts of a preview: surface, icon, text area and buttons; `None`
/// when the space left for it is too small.
#[verifier::opaque]
pub open spec fn spec_preview_parts(
    client: Rect,
    minimum_top: int,
    scale: Scale,
    invite_actions: bool,
    measured_text_width: int,
) -> Option<(Rect, Rect, Rect, Option<(Rect, Rect)>)> {
    let available = spec_available_bounds(client, minimum_top, scale, invite_actions);
    if available.spec_width() < scale.spec_pixels(120) || available.spec_height() < scale.spec_pixels(32) {
        None
    } else {
        let buttons = if invite_actions { spec_invite_buttons(available, scale) } else { None };
        let pad = scale.spec_pixels(PREVIEW_PADDING as int);
        let icon_size = imin(scale.spec_pixels(PREVIEW_ICON_SIZE as int), available.spec_height() - 2 * pad);
        let gap = scale.spec_pixels(9);
        let desired = 2 * pad + icon_size + gap + measured_text_width + scale.spec_pixels(12);
        let width = if buttons is Some || desired >= available.spec_width() - scale.spec_pixels(24) {
            available.spec_width()
        } else {
            imin(imax(desired, scale.spec_pixels(PREVIEW_MIN_WIDTH as int)), available.spec_width())
        };
        let surface = rect(available.left as int, available.top as int, available.left + width, available.bottom as int);
        let content_bottom = match buttons {
            Some((accept, _)) => accept.top - scale.spec_pixels(4),
            None => surface.bottom as int,
        };
        let icon_left = surface.left + pad;
        let icon_top = surface.top + half_toward_zero(content_bottom - surface.top - icon_size);
        Some(
            (
                surface,
                rect(icon_left, icon_top, icon_left + icon_size, icon_top + icon_size),
                rect(icon_left + icon_size + gap, surface.top as int, surface.right - pad, content_bottom),
                buttons,
            ),
        )
    }
}

pub open spec fn spec_buttons(
    buttons: Option<(Rect, Rect)>,
    scale: Scale,
    color: Color,
    hovered_action: Option<InviteAction>,
    pressed_action: Option<InviteAction>,
) -> Seq<InviteButtonVisual> {
    match buttons {
        None => Seq::empty(),
        Some((accept, dismiss)) => {
            let base = colorref_of(color);
            seq![
                spec_button_visual(InviteAction::Accept, accept, base, if brightness(base) >= 145_000 { DARK_TEXT } else { WHITE }, scale, hovered_action, pressed_action),
                spec_button_visual(InviteAction::Dismiss, dismiss, DISMISS_BUTTON_COLOR, WHITE, scale, hovered_action, pressed_action),
            ]
        },
    }
}

/// The whole preview layout as a function of the inputs.
pub open spec fn preview_matches(
    r: Option<NotificationPreviewLayout>,
    client: Rect,
    minimum_top: int,
    scale: Scale,
    snapshot: NotificationVisualSnapshot,
    measured_text_width: int,
) -> bool {
    match spec_preview_parts(client, minimum_top, scale, snapshot.invite_actions, measured_text_width) {
        None => r is None,
        Some((surface, icon, text, buttons)) => {
            let far_x = scale.spec_pixels(PREVIEW_SHADOW_X as int);
            let far_y = scale.spec_pixels(PREVIEW_SHADOW_Y as int);
            &&& r is Some
            &&& r->0.surface == surface
            &&& r->0.icon == icon
            &&& r->0.text == text
            &&& r->0.far_shadow == rect(surface.left + far_x, surface.top + far_y, surface.right + far_x, surface.bottom + far_y)
            &&& r->0.near_shadow == rect(
                surface.left + far_x / 2,
                surface.top + far_y / 2,
                surface.right + far_x / 2,
                surface.bottom + far_y / 2,
            )
            &&& r->0.far_shadow_color == color_of(PREVIEW_SHADOW_FAR)
            &&& r->0.near_shadow_color == color_of(PREVIEW_SHADOW_NEAR)
            &&& r->0.surface_color == color_of(PREVIEW_BACKGROUND)
            &&& r->0.radius == imax(scale.spec_pixels(10), 4)
            &&& r->0.buttons@ == spec_buttons(buttons, scale, snapshot.color, snapshot.hovered_action, snapshot.pressed_action)
        },
    }
}

fn preview_parts(
    client: Rect,
    minimum_top: i32,
    scale: Scale,
    invite_actions: bool,
    measured_text_width: i32,
) -> (r: Option<(Rect, Rect, Rect, Option<(Rect, Rect)>)>)
    requires
        client.in_range(),
        -0x1080_0000 <= minimum_top <= 0x1080_0000,
        -0x1000_0000 <= measured_text_width <= 0x1000_0000,
        dpi_ok(scale.dpi as int),
    ensures
        r == spec_preview_parts(client, minimum_top as int, scale, invite_actions, measured_text_width as int),
        r matches Some(p) ==> near_range(p.0),
{
    reveal(spec_preview_parts);
    proof {
        lemma_small_px(scale, 4);
        lemma_small_px(scale, 9);
        lemma_small_px(scale, 10);
        lemma_small_px(scale, 12);
        lemma_small_px(scale, 20);
        lemma_small_px(scale, 24);
        lemma_small_px(scale, 32);
        lemma_small_px(scale, 120);
        lemma_small_px(scale, 260);
    }
    let available = preview_available_bounds(client, minimum_top, scale, invite_actions);
    if available.width() < scale.pixels(120) || available.height() < scale.pixels(32) {
        return None;
    }
    let available_buttons = if invite_actions {
        invite_button_rects_neutral(available, scale)
    } else {
        None
    };
    let pad = scale.pixels(PREVIEW_PADDING);
    let icon_size = min_i32(scale.pixels(PREVIEW_ICON_SIZE), available.height() - 2 * pad);
    let gap = scale.pixels(9);
    let desired_width = 2 * pad + icon_size + gap + measured_text_width + scale.pixels(12);
    let preview_width = if available_buttons.is_some() || desired_width >= available.width() - scale.pixels(24) {
        available.width()
    } else {
        min_i32(max_i32(desired_width, scale.pixels(PREVIEW_MIN_WIDTH)), available.width())
    };
    let surface = Rect::new(available.left, available.top, available.left + preview_width, available.bottom);
    let content_bottom = match available_buttons {
        Some((accept, _)) => accept.top - scale.pixels(4),
        None => surface.bottom,
    };
    let icon_left = surface.left + pad;
    let icon_top = surface.top + halve(content_bottom - surface.top - icon_size);
    Some(
        (
            surface,
            Rect::new(icon_left, icon_top, icon_left + icon_size, icon_top + icon_size),
            Rect::new(icon_left + icon_size + gap, surface.top, surface.right - pad, content_bottom),
            available_buttons,
        ),
    )
}

fn preview_buttons(
    available_buttons: Option<(Rect, Rect)>,
    scale: Scale,
    snapshot: &NotificationVisualSnapshot,
) -> (v: Vec<InviteButtonVisual>)
    requires
        dpi_ok(scale.dpi as int),
    ensures
        v@ == spec_buttons(available_buttons, scale, snapshot.color, snapshot.hovered_action, snapshot.pressed_action),
{
    match available_buttons {
        Some((accept, dismiss)) => {
            let base = colorref(snapshot.color);
            let text = contrasting_text_color(base);
            let mut v: Vec<InviteButtonVisual> = Vec::new();
            v.push(button_visual(InviteAction::Accept, accept, base, text, scale, snapshot));
            v.push(button_visual(InviteAction::Dismiss, dismiss, DISMISS_BUTTON_COLOR, WHITE, scale, snapshot));
            proof {
                assert(v@ =~= spec_buttons(available_buttons, scale, snapshot.color, snapshot.hovered_action, snapshot.pressed_action));
            }
            v
        },
        None => {
            let v: Vec<InviteButtonVisual> = Vec::new();
            proof {
                assert(v@ =~= spec_buttons(available_buttons, scale, snapshot.color, snapshot.hovered_action, snapshot.pressed_action));
            }
            v
        },
    }
}

pub fn preview_layout(
    client: Rect,
    minimum_top: i32,
    scale: Scale,
    snapshot: &NotificationVisualSnapshot,
    measured_text_width: i32,
) -> (r: Option<NotificationPreviewLayout>)
    requires
        client.in_range(),
        -0x1080_0000 <= minimum_top <= 0x1080_0000,
        -0x1000_0000 <= measured_text_width <= 0x1000_0000,
        dpi_ok(scale.dpi as int),
    ensures
        preview_matches(r, client, minimum_top as int, scale, *snapshot, measured_text_width as int),
{
    proof {
        lemma_small_px(scale, 3);
        lemma_small_px(scale, 4);
        lemma_small_px(scale, 10);
    }
    match preview_parts(client, minimum_top, scale, snapshot.invite_actions, measured_text_width) {
        None => None,
        Some((surface, icon, text, available_buttons)) => {
            let far_x = scale.pixels(PREVIEW_SHADOW_X);
            let far_y = scale.pixels(PREVIEW_SHADOW_Y);
            let buttons = preview_buttons(available_buttons, scale, snapshot);
            Some(
                NotificationPreviewLayout {
                    far_shadow: surface.offset(far_x, far_y),
                    near_shadow: surface.offset(far_x / 2, far_y / 2),
                    surface,
                    icon,
                    text,
                    far_shadow_color: Color::from_colorref(PREVIEW_SHADOW_FAR),
                    near_shadow_color: Color::from_colorref(PREVIEW_SHADOW_NEAR),
                    surface_color: Color::from_colorref(PREVIEW_BACKGROUND),
                    radius: max_i32(scale.pixels(10), 4),
                    buttons,
                },
            )
        },
    }
}

// ---------------------------------------------------------------- content

/// One unread indicator: a dot inside a ring of the preview background.
#[derive(Clone, Copy, Debug, PartialEq, Eq, Structural)]
pub struct UnreadDotLayout {
    pub ring: Rect,
    pub dot: Rect,
    pub ring_color: Color,
    pub color: Color,
}

/// The unread row and the optional preview.
#[derive(Clone, Debug)]
pub struct NotificationContentLayout {
    pub unread_dots: Vec<UnreadDotLayout>,
    pub unread_bottom: i32,
    pub preview: Option<NotificationPreviewLayout>,
}

pub open spec fn dot_diameter(scale: Scale) -> int {
    imax(scale.spec_pixels(UNREAD_DOT_DIAMETER as int), 6)
}

pub open spec fn dot_ring(scale: Scale) -> int {
    imax(scale.spec_pixels(UNREAD_DOT_RING as int), 1)
}

pub open spec fn dot_gap(scale: Scale) -> int {
    imax(scale.spec_pixels(UNREAD_DOT_GAP as int), 1)
}

pub open spec fn dot_stride(scale: Scale) -> int {
    dot_diameter(scale) + 2 * dot_ring(scale) + dot_gap(scale)
}

/// How many dots fit across the client.
pub open spec fn max_dots(client: Rect, scale: Scale) -> int {
    imax((imax(client.spec_width(), 0) + dot_gap(scale)) / dot_stride(scale), 0)
}

/// Only the newest unread events that fit are shown.
pub open spec fn first_visible_dot(count: int, client: Rect, scale: Scale) -> int {
    imax(count - max_dots(client, scale), 0)
}

/// The `index`-th shown dot, left to right, clipped to the client.
pub open spec fn spec_dot(client: Rect, label_bottom: int, scale: Scale, index: int, color: Color) -> UnreadDotLayout {
    let d = dot_diameter(scale);
    let ring = dot_ring(scale);
    let dot_y = label_bottom + scale.spec_pixels(PREVIEW_GAP as int) + ring;
    let dot_x = client.left + ring + index * dot_stride(scale);
    UnreadDotLayout {
        ring: rect(dot_x - ring, dot_y - ring, dot_x + d + ring, dot_y + d + ring).spec_intersect(client),
        dot: rect(dot_x, dot_y, dot_x + d, dot_y + d).spec_intersect(client),
        ring_color: color_of(PREVIEW_BACKGROUND),
        color,
    }
}

pub open spec fn dots_match(
    dots: Seq<UnreadDotLayout>,
    colors: Seq<Color>,
    client: Rect,
    label_bottom: int,
    scale: Scale,
) -> bool {
    let first = first_visible_dot(colors.len() as int, client, scale);
    &&& dots.len() == colors.len() - first
    &&& forall|k: int| 0 <= k < dots.len() ==> #[trigger] dots[k] == spec_dot(client, label_bottom, scale, k, colors[first + k])
}

fn unread_dots(colors: &Vec<Color>, client: Rect, label_bottom: i32, scale: Scale) -> (v: Vec<UnreadDotLayout>)
    requires
        client.in_range(),
        -0x1000_0000 <= label_bottom <= 0x1000_0000,
        dpi_ok(scale.dpi as int),
    ensures
        dots_match(v@, colors@, client, label_bottom as int, scale),
{
    proof {
        lemma_small_px(scale, UNREAD_DOT_DIAMETER as int);
        lemma_small_px(scale, UNREAD_DOT_RING as int);
        lemma_small_px(scale, UNREAD_DOT_GAP as int);
        lemma_small_px(scale, PREVIEW_GAP as int);
    }
    let diameter = max_i32(scale.pixels(UNREAD_DOT_DIAMETER), 6);
    let ring = max_i32(scale.pixels(UNREAD_DOT_RING), 1);
    let gap = max_i32(scale.pixels(UNREAD_DOT_GAP), 1);
    let stride = diameter + 2 * ring + gap;
    let dot_y = label_bottom + scale.pixels(PREVIEW_GAP) + ring;
    let fit = max_i32((max_i32(client.width(), 0) + gap) / stride, 0);
    let fit_count = fit as usize;
    let len = colors.len();
    let first: usize = if len > fit_count { len - fit_count } else { 0 };
    let ghost g_first = first_visible_dot(colors@.len() as int, client, scale);
    assert(first == g_first);
    let mut dots: Vec<UnreadDotLayout> = Vec::new();
    let mut i: usize = first;
    while i < len
        invariant
            len == colors@.len(),
            first <= i <= len,
            first == g_first,
            g_first == first_visible_dot(colors@.len() as int, client, scale),
            len - first <= fit,
            0 <= fit <= (imax(client.spec_width(), 0) + gap) / (stride as int),
            diameter == dot_diameter(scale),
            ring == dot_ring(scale),
            gap == dot_gap(scale),
            stride == dot_stride(scale),
            6 <= diameter <= 512 * 50 + 1,
            1 <= ring <= 512 * 50 + 1,
            1 <= gap <= 512 * 50 + 1,
            dot_y == label_bottom + scale.spec_pixels(PREVIEW_GAP as int) + ring,
            -0x1000_0000 <= label_bottom <= 0x1000_0000,
            0 <= scale.spec_pixels(PREVIEW_GAP as int) <= 512 * 50 + 1,
            client.in_range(),
            dots@.len() == i - first,
            forall|k: int| 0 <= k < dots@.len() ==> #[trigger] dots@[k] == spec_dot(client, label_bottom as int, scale, k, colors@[first + k]),
        decreases len - i,
    {
        let index = (i - first) as i32;
        proof {
            assert(index * stride <= fit * stride) by (nonlinear_arith)
                requires
                    0 <= index < fit,
                    stride > 0,
            ;
            assert(fit * stride <= imax(client.spec_width(), 0) + gap) by (nonlinear_arith)
                requires
                    0 <= fit <= (imax(client.spec_width(), 0) + gap) / (stride as int),
                    stride > 0,
                    imax(client.spec_width(), 0) + gap >= 0,
            ;
            assert(index * stride >= 0) by (nonlinear_arith)
                requires
                    0 <= index,
                    stride > 0,
            ;
        }
        let dot_x = client.left + ring + index * stride;
        let dot = UnreadDotLayout {
            ring: Rect::new(dot_x - ring, dot_y - ring, dot_x + diameter + ring, dot_y + diameter + ring).intersect(client),
            dot: Rect::new(dot_x, dot_y, dot_x + diameter, dot_y + diameter).intersect(client),
            ring_color: Color::from_colorref(PREVIEW_BACKGROUND),
            color: colors[i],
        };
        dots.push(dot);
        i = i + 1;
    }
    dots
}

/// The unread row under the label and, while the preview shows, the preview
/// below it.
pub fn content_layout(
    snapshot: &NotificationVisualSnapshot,
    client: Rect,
    label_bottom: i32,
    scale: Scale,
    measured_text_width: i32,
) -> (r: NotificationContentLayout)
    requires
        client.in_range(),
        -0x1000_0000 <= label_bottom <= 0x1000_0000,
        -0x1000_0000 <= measured_text_width <= 0x1000_0000,
        dpi_ok(scale.dpi as int),
    ensures
        dots_match(r.unread_dots@, snapshot.unread_colors@, client, label_bottom as int, scale),
        r.unread_bottom == spec_unread_row_bottom(label_bottom as int, scale),
        snapshot.preview_visible ==> preview_matches(r.preview, client, r.unread_bottom as int, scale, *snapshot, measured_text_width as int),
        !snapshot.preview_visible ==> r.preview is None,
{
    proof {
        lemma_small_px(scale, PREVIEW_GAP as int);
        lemma_small_px(scale, UNREAD_ROW_HEIGHT as int);
    }
    let unread_dots = unread_dots(&snapshot.unread_colors, client, label_bottom, scale);
    let unread_bottom = unread_row_bottom(label_bottom, scale);
    let preview = if snapshot.preview_visible {
        preview_layout(client, unread_bottom, scale, snapshot, measured_text_width)
    } else {
        None
    };
    NotificationContentLayout { unread_dots, unread_bottom, preview }
}

/// The point lies inside the rectangle (right and bottom edges excluded).
pub open spec fn spec_contains(r: Rect, point: (i32, i32)) -> bool {
    r.left <= point.0 < r.right && r.top <= point.1 < r.bottom
}

pub fn rect_contains(r: Rect, point: (i32, i32)) -> (b: bool)
    ensures
        b == spec_contains(r, point),
{
    point.0 >= r.left && point.0 < r.right && point.1 >= r.top && point.1 < r.bottom
}

/// The action of the first button under the point.
pub open spec fn first_hit(buttons: Seq<InviteButtonVisual>, point: (i32, i32)) -> Option<InviteAction>
    decreases buttons.len(),
{
    if buttons.len() == 0 {
        None
    } else if spec_contains(buttons[0].bounds, point) {
        Some(buttons[0].action)
    } else {
        first_hit(buttons.drop_first(), point)
    }
}

/// What a click at a point hits: nothing outside an action preview (and
/// nothing on a plain preview, whose buttons did not fit); inside one, the
/// button under the point, or no button.
pub open spec fn spec_interaction(layout_preview: Option<NotificationPreviewLayout>, point: (i32, i32)) -> Option<Option<InviteAction>> {
    match layout_preview {
        None => None,
        Some(p) => if p.buttons@.len() == 0 || !spec_contains(p.surface, point) {
            None
        } else {
            Some(first_hit(p.buttons@, point))
        },
    }
}

impl NotificationContentLayout {
    /// Hit-test exactly the button and surface rectangles that were laid
    /// out; `Some(None)` means the preview surface itself was hit, which
    /// consumes the click.
    pub fn invite_interaction_at(&self, point: (i32, i32)) -> (r: Option<Option<InviteAction>>)
        ensures
            r == spec_interaction(self.preview, point),
    {
        match &self.preview {
            None => None,
            Some(preview) => {
                if preview.buttons.len() == 0 || !rect_contains(preview.surface, point) {
                    return None;
                }
                let n = preview.buttons.len();
                let mut i: usize = 0;
                proof {
                    assert(preview.buttons@.skip(0) =~= preview.buttons@);
                }
                while i < n
                    invariant
                        n == preview.buttons@.len(),
                        n > 0,
                        self.preview == Some(*preview),
                        spec_contains(preview.surface, point),
                        i <= n,
                        first_hit(preview.buttons@, point) == first_hit(preview.buttons@.skip(i as int), point),
                    decreases n - i,
                {
                    proof {
                        assert(preview.buttons@.skip(i as int).drop_first() =~= preview.buttons@.skip(i + 1));
                        assert(preview.buttons@.skip(i as int)[0] == preview.buttons@[i as int]);
                    }
                    if rect_contains(preview.buttons[i].bounds, point) {
                        return Some(Some(preview.buttons[i].action));
                    }
                    i = i + 1;
                }
                proof {
                    assert(preview.buttons@.skip(n as int) =~= Seq::<InviteButtonVisual>::empty());
                }
                Some(None)
            },
        }
    }
}

// ---------------------------------------------------------------- border

/// `count` nested one-pixel frames, the outermost on `bounds`.
pub open spec fn frames_match(frames: Seq<Rect>, bounds: Rect, count: int) -> bool {
    &&& frames.len() == imax(count, 0)
    &&& forall|k: int| 0 <= k < frames.len() ==> #[trigger] frames[k] == bounds.spec_inset(k)
}

pub fn inset_frames(bounds: Rect, count: i32) -> (v: Vec<Rect>)
    ensures
        frames_match(v@, bounds, count as int),
{
    let mut v: Vec<Rect> = Vec::new();
    let mut k: i32 = 0;
    while k < count
        invariant
            0 <= k,
            count >= 0 ==> k <= count,
            count < 0 ==> k == 0,
            v@.len() == k,
            forall|j: int| 0 <= j < v@.len() ==> #[trigger] v@[j] == bounds.spec_inset(j),
        decreases count - k,
    {
        v.push(bounds.inset(k));
        k = k + 1;
    }
    v
}

/// The rectangle the animated highlight runs along, relative to which its
/// lines are drawn: inset by half the border, at least one pixel each way.
#[derive(Clone, Copy, Debug, PartialEq, Eq, Structural)]
pub struct HighlightPath {
    pub left: i32,
    pub top: i32,
    pub width: i32,
    pub height: i32,
}

/// A notification's border: the nested frames, their color (dimmed while
/// the highlight animates), and where the highlight runs.
#[derive(Clone, Debug)]
pub struct NotificationBorderLayout {
    pub frames: Vec<Rect>,
    pub frame_color: Color,
    pub highlight_color: Color,
    pub highlight_path: Option<HighlightPath>,
    pub stroke_width: i32,
}

pub open spec fn spec_highlight_path(r: Rect, border: int) -> HighlightPath {
    let inset = imax(border / 2, 1);
    HighlightPath {
        left: (r.left + inset) as i32,
        top: (r.top + inset) as i32,
        width: imax(r.spec_width() - 1 - 2 * inset, 1) as i32,
        height: imax(r.spec_height() - 1 - 2 * inset, 1) as i32,
    }
}

pub fn border_layout(snapshot: &NotificationVisualSnapshot, r: Rect, border: i32) -> (b: NotificationBorderLayout)
    requires
        r.in_range(),
        0 <= border <= 0x1_0000,
    ensures
        frames_match(b.frames@, r, imax(border as int, 1)),
        b.frame_color == (if snapshot.animation is Some {
            color_of(spec_dim_colorref(colorref_of(snapshot.color)))
        } else {
            snapshot.color
        }),
        b.highlight_color == snapshot.color,
        b.stroke_width == imax(border as int, 2),
        b.highlight_path == (if snapshot.animation is Some { Some(spec_highlight_path(r, border as int)) } else { None }),
{
    let frame_color = if snapshot.animation.is_some() {
        Color::from_colorref(dim_colorref(colorref(snapshot.color)))
    } else {
        snapshot.color
    };
    let frames = inset_frames(r, max_i32(border, 1));
    let highlight_path = if snapshot.animation.is_some() {
        let inset = max_i32(border / 2, 1);
        Some(
            HighlightPath {
                left: r.left + inset,
                top: r.top + inset,
                width: max_i32(r.width() - 1 - 2 * inset, 1),
                height: max_i32(r.height() - 1 - 2 * inset, 1),
            },
        )
    } else {
        None
    };
    NotificationBorderLayout {
        frames,
        frame_color,
        highlight_color: snapshot.color,
        highlight_path,
        stroke_width: max_i32(border, 2),
    }
}

} // verus!
