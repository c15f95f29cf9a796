//! The always-available Stonemite button: where it sits next to the strip,
//! when a press becomes a drag, and when it is shown.

use vstd::prelude::*;
use crate::geometry::{Point, Rect, Scale, dpi_ok, iclamp, imax, lemma_pixels_range};
use crate::pip_interaction::{low_signed, point_from_lparam};
use crate::layout::{PipEdge, screen_ok, screen_rect_ok};

verus! {

pub const LOGICAL_BUTTON_SIZE: i32 = 56;
pub const LOGICAL_BUTTON_GAP: i32 = 4;
/// How far (in logical pixels) a press must move to become a drag.
pub const LOGICAL_DRAG_THRESHOLD: i32 = 4;

/// A square of side `size` at `(x, y)`, moved (if needed) inside the monitor;
/// on a monitor smaller than the button it sticks to the left and top.
pub open spec fn spec_clamp_button(monitor: Rect, size: int, x: int, y: int) -> Rect {
    let s = imax(size, 1);
    let cx = iclamp(x, monitor.left as int, imax(monitor.right - s, monitor.left as int));
    let cy = iclamp(y, monitor.top as int, imax(monitor.bottom - s, monitor.top as int));
    Rect { left: cx as i32, top: cy as i32, right: (cx + s) as i32, bottom: (cy + s) as i32 }
}

pub fn clamp_button_rect(monitor: Rect, size: i32, x: i32, y: i32) -> (r: Rect)
    requires
        screen_rect_ok(monitor),
        1 <= size <= 0x400_0000,
    ensures
        r == spec_clamp_button(monitor, size as int, x as int, y as int),
{
    let hi_x = if monitor.right - size >= monitor.left { monitor.right - size } else { monitor.left };
    let hi_y = if monitor.bottom - size >= monitor.top { monitor.bottom - size } else { monitor.top };
    let cx = if x < monitor.left { monitor.left } else if x > hi_x { hi_x } else { x };
    let cy = if y < monitor.top { monitor.top } else if y > hi_y { hi_y } else { y };
    Rect { left: cx, top: cy, right: cx + size, bottom: cy + size }
}

/// The button's place without a dragged position: beside the strip, one gap
/// inward from it (the top of a side strip's edge, the right of a top or
/// bottom strip's), or at the monitor edge itself without windows.
pub open spec fn spec_button_rect(
    monitor: Rect,
    edge: PipEdge,
    strip_width: int,
    strip_height: int,
    has_pips: bool,
    scale: Scale,
) -> Rect {
    let size = imax(scale.spec_pixels(LOGICAL_BUTTON_SIZE as int), 1);
    let gap = imax(scale.spec_pixels(LOGICAL_BUTTON_GAP as int), 1);
    let sw = if has_pips { imax(strip_width, 0) } else { 0 };
    let sh = if has_pips { imax(strip_height, 0) } else { 0 };
    let (x, y) = match edge {
        PipEdge::Right => (monitor.right - sw - gap - size, monitor.top as int),
        PipEdge::Left => (monitor.left + sw + gap, monitor.top as int),
        PipEdge::Top => (monitor.right - size, monitor.top + sh + gap),
        PipEdge::Bottom => (monitor.right - size, monitor.bottom - sh - gap - size),
    };
    spec_clamp_button(monitor, size, x, y)
}

pub fn button_rect(
    monitor: Rect,
    edge: PipEdge,
    strip_width: i32,
    strip_height: i32,
    has_pips: bool,
    scale: Scale,
) -> (r: Rect)
    requires
        screen_rect_ok(monitor),
        dpi_ok(scale.dpi as int),
        strip_width <= 0x100_0000,
        strip_height <= 0x100_0000,
    ensures
        r == spec_button_rect(monitor, edge, strip_width as int, strip_height as int, has_pips, scale),
{
    proof {
        lemma_pixels_range(scale, LOGICAL_BUTTON_SIZE as int);
        lemma_pixels_range(scale, LOGICAL_BUTTON_GAP as int);
    }
    let px = scale.pixels(LOGICAL_BUTTON_SIZE);
    let size = if px >= 1 { px } else { 1 };
    let pg = scale.pixels(LOGICAL_BUTTON_GAP);
    let gap = if pg >= 1 { pg } else { 1 };
    let sw = if has_pips && strip_width > 0 { strip_width } else { 0 };
    let sh = if has_pips && strip_height > 0 { strip_height } else { 0 };
    let (x, y) = match edge {
        PipEdge::Right => (monitor.right - sw - gap - size, monitor.top),
        PipEdge::Left => (monitor.left + sw + gap, monitor.top),
        PipEdge::Top => (monitor.right - size, monitor.top + sh + gap),
        PipEdge::Bottom => (monitor.right - size, monitor.bottom - sh - gap - size),
    };
    clamp_button_rect(monitor, size, x, y)
}

/// A press becomes a drag once it moved at least the scaled threshold
/// along either axis.
pub fn drag_threshold_exceeded(dx: i32, dy: i32, scale: Scale) -> (b: bool)
    ensures
        b == ({
            let t = imax(scale.spec_pixels(LOGICAL_DRAG_THRESHOLD as int), 1);
            dx >= t || -dx >= t || dy >= t || -dy >= t
        }),
{
    let p = scale.pixels(LOGICAL_DRAG_THRESHOLD);
    let t = if p >= 1 { p as i64 } else { 1 };
    let x = dx as i64;
    let y = dy as i64;
    x >= t || -x >= t || y >= t || -y >= t
}

/// The button shows when enabled, with a client, not hidden by the user,
/// and either its menu is open or a window of the overlay or the game owns
/// the foreground.
pub fn visibility_policy(
    enabled: bool,
    has_client: bool,
    hidden_by_user: bool,
    menu_open: bool,
    foreground_owned: bool,
) -> (b: bool)
    ensures
        b == (enabled && has_client && !hidden_by_user && (menu_open || foreground_owned)),
{
    enabled && has_client && !hidden_by_user && (menu_open || foreground_owned)
}

/// Two rectangles with the same edges.
pub fn rects_match(left: Rect, right: Rect) -> (b: bool)
    ensures
        b == (left == right),
{
    left.left == right.left && left.top == right.top && left.right == right.right && left.bottom == right.bottom
}

/// The button never leaves a monitor that can hold it.
pub proof fn law_button_stays_on_the_monitor(monitor: Rect, size: int, x: int, y: int)
    requires
        screen_rect_ok(monitor),
        1 <= size <= monitor.right - monitor.left,
        size <= monitor.bottom - monitor.top,
    ensures
        spec_clamp_button(monitor, size, x, y).within(monitor),
        spec_clamp_button(monitor, size, x, y).spec_width() == size,
        spec_clamp_button(monitor, size, x, y).spec_height() == size,
{
}


/// A press on the button that may become a drag: where it started, and the
/// monitor and scale it started under.
#[derive(Clone, Copy, Debug, PartialEq, Eq, Structural)]
pub struct ButtonDrag {
    pub start_cursor: Point,
    pub start_rect: Rect,
    pub monitor_rect: Rect,
    pub scale: Scale,
    pub dragging: bool,
}

/// What one cursor movement does to a button drag.
#[derive(Clone, Copy, Debug, PartialEq, Eq, Structural)]
pub enum ButtonDragStep {
    /// The monitor or scale changed: the drag starts over from the cursor
    /// and the button's current rectangle.
    Rebased(ButtonDrag),
    /// Still a press: the cursor has not moved far enough.
    Held(ButtonDrag),
    /// A drag: the button moves to this rectangle.
    Moved(ButtonDrag, Rect),
}

pub open spec fn spec_button_drag_step(drag: ButtonDrag, cursor: Point, monitor: Rect, scale: Scale, current_rect: Rect) -> ButtonDragStep {
    if drag.monitor_rect != monitor || drag.scale != scale {
        ButtonDragStep::Rebased(
            ButtonDrag { start_cursor: cursor, start_rect: current_rect, monitor_rect: monitor, scale, dragging: drag.dragging },
        )
    } else {
        let dx = cursor.x - drag.start_cursor.x;
        let dy = cursor.y - drag.start_cursor.y;
        let t = imax(scale.spec_pixels(LOGICAL_DRAG_THRESHOLD as int), 1);
        let dragging = drag.dragging || dx >= t || -dx >= t || dy >= t || -dy >= t;
        let next = ButtonDrag { dragging, ..drag };
        if !dragging {
            ButtonDragStep::Held(next)
        } else {
            let size = imax(imax(drag.start_rect.spec_width(), drag.start_rect.spec_height()), 1);
            ButtonDragStep::Moved(
                next,
                spec_clamp_button(monitor, size, drag.start_rect.left + dx, drag.start_rect.top + dy),
            )
        }
    }
}

pub fn button_drag_step(drag: ButtonDrag, cursor: Point, monitor: Rect, scale: Scale, current_rect: Rect) -> (step: ButtonDragStep)
    requires
        screen_rect_ok(monitor),
        screen_rect_ok(drag.start_rect),
        screen_ok(cursor.x as int),
        screen_ok(cursor.y as int),
        screen_ok(drag.start_cursor.x as int),
        screen_ok(drag.start_cursor.y as int),
        drag.start_rect.left <= drag.start_rect.right,
        drag.start_rect.top <= drag.start_rect.bottom,
    ensures
        step == spec_button_drag_step(drag, cursor, monitor, scale, current_rect),
{
    if !rects_match(drag.monitor_rect, monitor) || drag.scale.dpi != scale.dpi {
        return ButtonDragStep::Rebased(
            ButtonDrag { start_cursor: cursor, start_rect: current_rect, monitor_rect: monitor, scale, dragging: drag.dragging },
        );
    }
    let dx = cursor.x - drag.start_cursor.x;
    let dy = cursor.y - drag.start_cursor.y;
    let dragging = drag.dragging || drag_threshold_exceeded(dx, dy, scale);
    let next = ButtonDrag { dragging, ..drag };
    if !dragging {
        return ButtonDragStep::Held(next);
    }
    let w = drag.start_rect.right - drag.start_rect.left;
    let h = drag.start_rect.bottom - drag.start_rect.top;
    let wide = if w > h { w } else { h };
    let size = if wide > 1 { wide } else { 1 };
    let rect = clamp_button_rect(monitor, size, drag.start_rect.left + dx, drag.start_rect.top + dy);
    ButtonDragStep::Moved(next, rect)
}

/// Whether a mouse message's point (packed in `lparam`) lies inside a
/// client rectangle.
pub fn point_is_inside(lparam: isize, client: Rect) -> (b: bool)
    ensures
        b == ({
            let x = low_signed(lparam as int);
            let y = low_signed((lparam as int) / 0x1_0000);
            client.left <= x < client.right && client.top <= y < client.bottom
        }),
{
    let p = point_from_lparam(lparam);
    p.x >= client.left && p.x < client.right && p.y >= client.top && p.y < client.bottom
}

} // verus!
