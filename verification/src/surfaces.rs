//! When the overlay's surfaces show, what the input indicator says, and the
//! values a timer scene is drawn from.

use vstd::prelude::*;
use crate::geometry::{Color, Point, Progress, Rect, color_of, imax};
use crate::pip_interaction::low_signed;
use crate::layout::screen_rect_ok;
use crate::timer_controller::{format_remaining, spec_format_remaining};
use crate::timers::TimerOverlay;

verus! {

/// `WM_LBUTTONDOWN`
pub const WM_LBUTTONDOWN: u32 = 0x0201;
/// `WM_LBUTTONUP`
pub const WM_LBUTTONUP: u32 = 0x0202;

/// The overlay shows only when the user has not hidden it, some client is
/// shown as a picture-in-picture window, and either a context menu is open
/// or a game or overlay window owns the foreground.
pub fn overlay_visibility_policy(
    hidden_by_user: bool,
    has_pip: bool,
    context_menu_open: bool,
    foreground_is_eq_or_ours: bool,
) -> (b: bool)
    ensures
        b == (!hidden_by_user && has_pip && (context_menu_open || foreground_is_eq_or_ours)),
{
    !hidden_by_user && has_pip && (context_menu_open || foreground_is_eq_or_ours)
}

/// The active label passes on only the left button's press and release.
pub fn forwards_active_label_mouse_message(message: u32) -> (b: bool)
    ensures
        b == (message == WM_LBUTTONDOWN || message == WM_LBUTTONUP),
{
    message == WM_LBUTTONDOWN || message == WM_LBUTTONUP
}

/// The state of the mouse clutch.
#[derive(Clone, Copy, Debug, PartialEq, Eq, Structural)]
pub enum MouseClutchStatus {
    Inactive,
    Active,
    Releasing,
}

/// The banner text for broadcasting and the mouse clutch; none when
/// neither is on.
pub fn input_indicator_text(broadcasting: bool, clutch: MouseClutchStatus) -> (t: Option<&'static str>)
    ensures
        match (broadcasting, clutch) {
            (false, MouseClutchStatus::Inactive) => t is None,
            (true, MouseClutchStatus::Inactive) => t matches Some(s) && s@ == "Broadcasting"@,
            (false, MouseClutchStatus::Active) => t matches Some(s) && s@ == "Mouse Clutch"@,
            (false, MouseClutchStatus::Releasing) => t matches Some(s) && s@ == "Mouse Clutch · Releasing"@,
            (true, MouseClutchStatus::Active) => t matches Some(s) && s@ == "Broadcasting · Mouse Clutch"@,
            (true, MouseClutchStatus::Releasing) => t matches Some(s) && s@ == "Broadcasting · Mouse Clutch releasing"@,
        },
{
    match (broadcasting, clutch) {
        (false, MouseClutchStatus::Inactive) => None,
        (true, MouseClutchStatus::Inactive) => Some("Broadcasting"),
        (false, MouseClutchStatus::Active) => Some("Mouse Clutch"),
        (false, MouseClutchStatus::Releasing) => Some("Mouse Clutch · Releasing"),
        (true, MouseClutchStatus::Active) => Some("Broadcasting · Mouse Clutch"),
        (true, MouseClutchStatus::Releasing) => Some("Broadcasting · Mouse Clutch releasing"),
    }
}

/// Broadcasting is red whatever the clutch does; the clutch alone is blue
/// while active and amber while releasing.
pub fn input_indicator_background(broadcasting: bool, clutch: MouseClutchStatus) -> (c: Color)
    ensures
        c == color_of(if broadcasting {
            0x002030CCu32
        } else {
            match clutch {
                MouseClutchStatus::Inactive => 0x002030CCu32,
                MouseClutchStatus::Active => 0x00906A28u32,
                MouseClutchStatus::Releasing => 0x002080C8u32,
            }
        }),
{
    let value: u32 = if broadcasting {
        0x002030CC
    } else {
        match clutch {
            MouseClutchStatus::Inactive => 0x002030CC,
            MouseClutchStatus::Active => 0x00906A28,
            MouseClutchStatus::Releasing => 0x002080C8,
        }
    };
    Color::from_colorref(value)
}

/// A window's drawing canvas from its client rectangle: at the origin, and
/// none while it has no area.
pub fn client_scene_rect(client: Rect) -> (r: Option<Rect>)
    requires
        screen_rect_ok(client),
    ensures
        ({
            let w = imax(client.spec_width(), 0);
            let h = imax(client.spec_height(), 0);
            if w > 0 && h > 0 {
                r == Some(Rect { left: 0, top: 0, right: w as i32, bottom: h as i32 })
            } else {
                r is None
            }
        }),
{
    let width = if client.right >= client.left { client.right - client.left } else { 0 };
    let height = if client.bottom >= client.top { client.bottom - client.top } else { 0 };
    if width > 0 && height > 0 {
        Some(Rect::new(0, 0, width, height))
    } else {
        None
    }
}

/// What a timer scene shows: the label, the countdown text and the
/// progress.
pub fn timer_scene_values(timer: &TimerOverlay, now: u64) -> (r: (String, String, Progress))
    ensures
        r.0@ == timer.label@,
        r.1@ == spec_format_remaining((if timer.end_time >= now { timer.end_time - now } else { 0 }) as nat),
        r.2.elapsed == (if now >= timer.start_time { now - timer.start_time } else { 0 }),
        r.2.total == timer.duration,
{
    (timer.label.clone(), format_remaining(timer.remaining_time(now)), timer.progress(now))
}


/// Whether a window already has a placement, so that it need not be moved.
pub fn window_matches(current: Option<Rect>, x: i32, y: i32, width: i32, height: i32) -> (b: bool)
    ensures
        b == (current matches Some(r) && r.left == x && r.top == y && r.right - r.left == width && r.bottom - r.top
            == height),
{
    match current {
        Some(r) => r.left == x && r.top == y && r.right as i64 - r.left as i64 == width as i64 && r.bottom as i64
            - r.top as i64 == height as i64,
        None => false,
    }
}

/// What a surface does when visibility is applied.
#[derive(Clone, Copy, Debug, PartialEq, Eq, Structural)]
pub enum SurfaceVisibility {
    Show,
    Hide,
    /// It should show but has no complete frame yet: hide it and ask for a
    /// redraw.
    HideAndRedraw,
}

/// A surface shows only with a complete frame.
pub fn surface_visibility(visible: bool, ready: bool) -> (v: SurfaceVisibility)
    ensures
        v == (if visible && ready {
            SurfaceVisibility::Show
        } else if visible {
            SurfaceVisibility::HideAndRedraw
        } else {
            SurfaceVisibility::Hide
        }),
{
    if visible && ready {
        SurfaceVisibility::Show
    } else if visible {
        SurfaceVisibility::HideAndRedraw
    } else {
        SurfaceVisibility::Hide
    }
}

/// The active label fades to half its alpha while hovered.
pub fn hover_alpha(label_alpha: u8) -> (a: u8)
    ensures
        a == label_alpha / 2,
{
    label_alpha / 2
}

/// A client point packed as a mouse message's `lparam`: 16-bit x in the low
/// word, 16-bit y in the next.
pub fn pack_point_lparam(p: Point) -> (v: u32)
    ensures
        v == (p.x as int) % 0x1_0000 + ((p.y as int) % 0x1_0000) * 0x1_0000,
{
    let x = p.x;
    let y = p.y;
    let lo = (x as i16) as u16;
    let hi = (y as i16) as u16;
    assert(lo == (x as int) % 0x1_0000) by (bit_vector)
        requires
            lo == (x as i16) as u16,
    ;
    assert(hi == (y as int) % 0x1_0000) by (bit_vector)
        requires
            hi == (y as i16) as u16,
    ;
    let v = (lo as u32) | ((hi as u32) << 16);
    assert(v == lo as u32 + (hi as u32) * 0x1_0000) by (bit_vector)
        requires
            v == (lo as u32) | ((hi as u32) << 16),
    ;
    v
}

/// Packing a point of the 16-bit range and reading it back gives the point.
pub proof fn law_lparam_round_trip(p: Point, v: u32)
    requires
        -0x8000 <= p.x < 0x8000,
        -0x8000 <= p.y < 0x8000,
        v == (p.x as int) % 0x1_0000 + ((p.y as int) % 0x1_0000) * 0x1_0000,
    ensures
        low_signed(v as int) == p.x,
        low_signed((v as int) / 0x1_0000) == p.y,
{
    let lo = (p.x as int) % 0x1_0000;
    let hi = (p.y as int) % 0x1_0000;
    assert(0 <= lo < 0x1_0000 && 0 <= hi < 0x1_0000);
    assert((lo + hi * 0x1_0000) % 0x1_0000 == lo) by (nonlinear_arith)
        requires
            0 <= lo < 0x1_0000,
            0 <= hi < 0x1_0000,
    ;
    assert((lo + hi * 0x1_0000) / 0x1_0000 == hi) by (nonlinear_arith)
        requires
            0 <= lo < 0x1_0000,
            0 <= hi < 0x1_0000,
    ;
    assert(hi % 0x1_0000 == hi);
}

} // verus!
