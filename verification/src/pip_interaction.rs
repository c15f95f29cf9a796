//! Decisions of the picture-in-picture windows' pointer handling: when a
//! press becomes a reorder drag, which window is the drop target, which
//! clients a drop exchanges, and how the strip's thickness follows a drag.

use vstd::prelude::*;
use crate::geometry::{Point, Rect, Scale, iclamp, imax};
use crate::interaction::{InteractionState, MoveDragState, PipResizeDragState, ReorderDragState, StripResizeDragState};
use crate::layout::{PipEdge, ResizeEdge, max_thickness, min_thickness, screen_ok, screen_rect_ok};

verus! {

pub const RESIZE_HANDLE_WIDTH: i32 = 12;
pub const THUMB_OPACITY_HOVER: u8 = 255;
pub const THUMB_OPACITY_DRAG_MAX: u8 = 80;
pub const DRAG_THRESHOLD: i32 = 8;
pub const RESIZE_ZONE: i32 = 8;

/// A dragged window's thumbnail dims to at most the drag opacity, never
/// brighter than it was.
pub fn reorder_thumbnail_alpha(normal_alpha: u8) -> (a: u8)
    ensures
        a == (if normal_alpha <= THUMB_OPACITY_DRAG_MAX { normal_alpha } else { THUMB_OPACITY_DRAG_MAX }),
        a <= normal_alpha,
{
    if normal_alpha <= THUMB_OPACITY_DRAG_MAX { normal_alpha } else { THUMB_OPACITY_DRAG_MAX }
}

/// The first position of a pid.
pub open spec fn index_of(pips: Seq<u32>, pid: u32) -> Option<int>
    decreases pips.len(),
{
    if pips.len() == 0 {
        None
    } else if pips[0] == pid {
        Some(0)
    } else {
        match index_of(pips.drop_first(), pid) {
            Some(i) => Some(i + 1),
            None => None,
        }
    }
}

fn position_of_pid(pips: &[u32], pid: u32) -> (r: Option<usize>)
    ensures
        r matches Some(i) ==> index_of(pips@, pid) == Some(i as int),
        r is None ==> index_of(pips@, pid) is None,
{
    let mut i: usize = 0;
    proof {
        assert(pips@.skip(0) =~= pips@);
    }
    while i < pips.len()
        invariant
            i <= pips@.len(),
            forall|j: int| 0 <= j < i ==> pips@[j] != pid,
            index_of(pips@, pid) == match index_of(pips@.skip(i as int), pid) {
                Some(k) => Some(k + i),
                None => None::<int>,
            },
        decreases pips@.len() - i,
    {
        proof {
            assert(pips@.skip(i as int).drop_first() =~= pips@.skip(i + 1));
        }
        if pips[i] == pid {
            return Some(i);
        }
        i = i + 1;
    }
    None
}

/// The client-order positions of the dragged and the target client: a drop
/// exchanges clients by identity, never by the position a window is drawn
/// at.
pub fn client_reorder_indices(client_pips: &[u32], presented_from_pid: u32, presented_to_pid: u32) -> (r: Option<(usize, usize)>)
    ensures
        r matches Some((a, b)) ==> index_of(client_pips@, presented_from_pid) == Some(a as int) && index_of(
            client_pips@,
            presented_to_pid,
        ) == Some(b as int),
        r is None ==> index_of(client_pips@, presented_from_pid) is None || index_of(client_pips@, presented_to_pid) is None,
{
    match (position_of_pid(client_pips, presented_from_pid), position_of_pid(client_pips, presented_to_pid)) {
        (Some(a), Some(b)) => Some((a, b)),
        _ => None,
    }
}

/// A press becomes a reorder drag once it moved farther than the scaled
/// threshold along either axis.
pub fn reorder_drag_starts(start: Point, cursor: Point, scale: Scale) -> (b: bool)
    ensures
        b == ({
            let t = scale.spec_pixels(DRAG_THRESHOLD as int);
            let dx = cursor.x - start.x;
            let dy = cursor.y - start.y;
            dx > t || -dx > t || dy > t || -dy > t
        }),
{
    let t = scale.pixels(DRAG_THRESHOLD) as i64;
    let dx = cursor.x as i64 - start.x as i64;
    let dy = cursor.y as i64 - start.y as i64;
    dx > t || -dx > t || dy > t || -dy > t
}

pub open spec fn contains_point(r: Rect, p: Point) -> bool {
    r.left <= p.x < r.right && r.top <= p.y < r.bottom
}

/// The first window under the cursor.
pub open spec fn first_under(rects: Seq<Rect>, p: Point) -> Option<int>
    decreases rects.len(),
{
    if rects.len() == 0 {
        None
    } else if contains_point(rects[0], p) {
        Some(0)
    } else {
        match first_under(rects.drop_first(), p) {
            Some(i) => Some(i + 1),
            None => None,
        }
    }
}

/// The window a reorder drag would drop on.
pub fn drop_target_at(window_rects: &[Rect], cursor: Point) -> (r: Option<usize>)
    ensures
        r matches Some(i) ==> first_under(window_rects@, cursor) == Some(i as int),
        r is None ==> first_under(window_rects@, cursor) is None,
{
    let mut i: usize = 0;
    proof {
        assert(window_rects@.skip(0) =~= window_rects@);
    }
    while i < window_rects.len()
        invariant
            i <= window_rects@.len(),
            first_under(window_rects@, cursor) == match first_under(window_rects@.skip(i as int), cursor) {
                Some(k) => Some(k + i),
                None => None::<int>,
            },
        decreases window_rects@.len() - i,
    {
        proof {
            assert(window_rects@.skip(i as int).drop_first() =~= window_rects@.skip(i + 1));
            assert(window_rects@.skip(i as int)[0] == window_rects@[i as int]);
        }
        let r = window_rects[i];
        if cursor.x >= r.left && cursor.x < r.right && cursor.y >= r.top && cursor.y < r.bottom {
            return Some(i);
        }
        i = i + 1;
    }
    None
}

/// The clients a finished reorder exchanges: only a real drag dropped on
/// another window showing a different client, both still in the client
/// order.
pub open spec fn spec_reorder_swap(
    presented_pids: Seq<u32>,
    from_index: int,
    dragging: bool,
    drop_target: Option<usize>,
    client_pips: Seq<u32>,
) -> Option<(int, int)> {
    match drop_target {
        Some(to) => if dragging && 0 <= from_index < presented_pids.len() && to < presented_pids.len()
            && presented_pids[from_index] != presented_pids[to as int] {
            match (index_of(client_pips, presented_pids[from_index]), index_of(client_pips, presented_pids[to as int])) {
                (Some(a), Some(b)) => Some((a, b)),
                _ => None,
            }
        } else {
            None
        },
        None => None,
    }
}

pub fn reorder_swap(
    presented_pids: &[u32],
    from_index: usize,
    dragging: bool,
    drop_target: Option<usize>,
    client_pips: &[u32],
) -> (r: Option<(usize, usize)>)
    ensures
        match spec_reorder_swap(presented_pids@, from_index as int, dragging, drop_target, client_pips@) {
            Some((a, b)) => r == Some((a as usize, b as usize)),
            None => r is None,
        },
{
    match drop_target {
        Some(to) => {
            if dragging && from_index < presented_pids.len() && to < presented_pids.len()
                && presented_pids[from_index] != presented_pids[to] {
                client_reorder_indices(client_pips, presented_pids[from_index], presented_pids[to])
            } else {
                None
            }
        },
        None => None,
    }
}

/// The strip thickness while its handle is dragged: the start thickness
/// plus the drag away from the anchored edge, kept between a twentieth and
/// a quarter of the monitor.
pub open spec fn spec_strip_resize(edge: PipEdge, monitor: Rect, start_size: int, start: Point, cursor: Point) -> int {
    match edge {
        PipEdge::Right => iclamp(start_size - (cursor.x - start.x), min_thickness(monitor.right - monitor.left), max_thickness(monitor.right - monitor.left)),
        PipEdge::Left => iclamp(start_size + (cursor.x - start.x), min_thickness(monitor.right - monitor.left), max_thickness(monitor.right - monitor.left)),
        PipEdge::Bottom => iclamp(start_size - (cursor.y - start.y), min_thickness(monitor.bottom - monitor.top), max_thickness(monitor.bottom - monitor.top)),
        PipEdge::Top => iclamp(start_size + (cursor.y - start.y), min_thickness(monitor.bottom - monitor.top), max_thickness(monitor.bottom - monitor.top)),
    }
}

pub fn strip_resize_size(edge: PipEdge, monitor: Rect, start_size: i32, start: Point, cursor: Point) -> (s: i32)
    requires
        screen_rect_ok(monitor),
        monitor.left <= monitor.right,
        monitor.top <= monitor.bottom,
        screen_ok(start_size as int),
        screen_ok(start.x as int),
        screen_ok(start.y as int),
        screen_ok(cursor.x as int),
        screen_ok(cursor.y as int),
    ensures
        s == spec_strip_resize(edge, monitor, start_size as int, start, cursor),
{
    let vertical = edge == PipEdge::Right || edge == PipEdge::Left;
    let extent: i64 = if vertical {
        monitor.right as i64 - monitor.left as i64
    } else {
        monitor.bottom as i64 - monitor.top as i64
    };
    let delta: i64 = if vertical { cursor.x as i64 - start.x as i64 } else { cursor.y as i64 - start.y as i64 };
    let wanted: i64 = if edge == PipEdge::Right || edge == PipEdge::Bottom {
        start_size as i64 - delta
    } else {
        start_size as i64 + delta
    };
    let lo = crate::geometry::round_ratio_exec(extent as i128, 20) as i64;
    let hi = crate::geometry::round_ratio_exec(extent as i128, 4) as i64;
    proof {
        crate::geometry::lemma_round_ratio_bounds(extent as int, 20);
        crate::geometry::lemma_round_ratio_bounds(extent as int, 4);
        assert((2 * extent + 20) / 40 <= (2 * extent + 4) / 8) by (nonlinear_arith)
            requires
                extent >= 0,
        ;
    }
    let a = if wanted >= lo { wanted } else { lo };
    let r = if a <= hi { a } else { hi };
    r as i32
}

proof fn lemma_thickness_bounds(extent: int)
    requires
        extent >= 0,
    ensures
        0 <= min_thickness(extent) <= max_thickness(extent),
{
    crate::geometry::lemma_round_ratio_bounds(extent, 20);
    crate::geometry::lemma_round_ratio_bounds(extent, 4);
    assert((2 * extent + 20) / 40 <= (2 * extent + 4) / 8) by (nonlinear_arith)
        requires
            extent >= 0,
    ;
}

/// Dragging the strip's handle away from the edge the strip is anchored to
/// grows the strip, towards that edge shrinks it: for a strip on the right
/// (bottom) edge a handle dragged further left (up) never gives a thinner
/// strip, for one on the left (top) edge one dragged further right (down)
/// never does. Within the bounds (a twentieth to a quarter of the monitor
/// across the strip) the thickness changes by exactly the drag away from
/// the anchored edge, and it never leaves those bounds.
pub proof fn law_strip_handle_drag_direction(
    edge: PipEdge,
    monitor: Rect,
    start_size: int,
    start: Point,
    cursor: Point,
    other: Point,
)
    requires
        monitor.left <= monitor.right,
        monitor.top <= monitor.bottom,
    ensures
        ({
            let s = spec_strip_resize(edge, monitor, start_size, start, cursor);
            let t = spec_strip_resize(edge, monitor, start_size, start, other);
            let vertical = edge == PipEdge::Right || edge == PipEdge::Left;
            let extent = if vertical { monitor.right - monitor.left } else { monitor.bottom - monitor.top };
            let away = match edge {
                PipEdge::Right => start.x - cursor.x,
                PipEdge::Left => cursor.x - start.x,
                PipEdge::Bottom => start.y - cursor.y,
                PipEdge::Top => cursor.y - start.y,
            };
            &&& min_thickness(extent) <= s <= max_thickness(extent)
            &&& (min_thickness(extent) <= start_size + away <= max_thickness(extent) ==> s == start_size + away)
            &&& (edge == PipEdge::Right && cursor.x <= other.x ==> s >= t)
            &&& (edge == PipEdge::Left && cursor.x <= other.x ==> s <= t)
            &&& (edge == PipEdge::Bottom && cursor.y <= other.y ==> s >= t)
            &&& (edge == PipEdge::Top && cursor.y <= other.y ==> s <= t)
        }),
{
    lemma_thickness_bounds(monitor.right - monitor.left);
    lemma_thickness_bounds(monitor.bottom - monitor.top);
}

/// Whether an interaction still owns the pointer (the game client is then
/// not given the foreground back when the pointer leaves).
pub fn captured_interaction(
    invite_pressed: bool,
    moving: bool,
    resizing: bool,
    resizing_strip: bool,
    reorder_dragging: bool,
) -> (b: bool)
    ensures
        b == (invite_pressed || moving || resizing || resizing_strip || reorder_dragging),
{
    invite_pressed || moving || resizing || resizing_strip || reorder_dragging
}

/// The cursors of the resize edges.
#[derive(Clone, Copy, Debug, PartialEq, Eq, Structural)]
pub enum ResizeCursor {
    NorthSouth,
    WestEast,
    NorthwestSoutheast,
    NortheastSouthwest,
}

pub fn cursor_for_resize_edge(edge: ResizeEdge) -> (c: ResizeCursor)
    ensures
        c == match edge {
            ResizeEdge::N | ResizeEdge::S => ResizeCursor::NorthSouth,
            ResizeEdge::E | ResizeEdge::W => ResizeCursor::WestEast,
            ResizeEdge::NW | ResizeEdge::SE => ResizeCursor::NorthwestSoutheast,
            ResizeEdge::NE | ResizeEdge::SW => ResizeCursor::NortheastSouthwest,
        },
{
    match edge {
        ResizeEdge::N | ResizeEdge::S => ResizeCursor::NorthSouth,
        ResizeEdge::E | ResizeEdge::W => ResizeCursor::WestEast,
        ResizeEdge::NW | ResizeEdge::SE => ResizeCursor::NorthwestSoutheast,
        ResizeEdge::NE | ResizeEdge::SW => ResizeCursor::NortheastSouthwest,
    }
}

/// The signed 16-bit value of the low half of a word.
pub open spec fn low_signed(v: int) -> int {
    let low = v % 0x1_0000;
    if low >= 0x8000 { low - 0x1_0000 } else { low }
}

/// The client point packed in a mouse message's `lparam`: signed 16-bit x
/// in the low word, signed 16-bit y in the next.
pub fn point_from_lparam(lparam: isize) -> (p: Point)
    ensures
        p.x == low_signed(lparam as int),
        p.y == low_signed((lparam as int) / 0x1_0000),
{
    let low = (lparam & 0xFFFF) as u16;
    let high = ((lparam >> 16) & 0xFFFF) as u16;
    assert(lparam & 0xFFFF == lparam % 0x1_0000) by (bit_vector);
    assert((lparam >> 16) & 0xFFFF == (lparam / 0x1_0000) % 0x1_0000) by (bit_vector);
    let x: i32 = if low >= 0x8000 { low as i32 - 0x1_0000 } else { low as i32 };
    let y: i32 = if high >= 0x8000 { high as i32 - 0x1_0000 } else { high as i32 };
    Point { x, y }
}


/// What a left-button press on a PiP window starts.
#[derive(Clone, Copy, Debug, PartialEq, Eq, Structural)]
pub enum PressGesture {
    /// The press is on a notification's invite button.
    InviteButton,
    /// Edit mode, at a window edge or corner: resize the window.
    ResizeWindow(ResizeEdge),
    /// Edit mode elsewhere: move the window.
    MoveWindow,
    /// At the strip's inner edge (automatic layout only): resize the strip.
    ResizeStrip,
    /// Anything else may become a reorder drag.
    Reorder,
}

pub fn press_gesture(
    edit_mode: bool,
    invite_pressed: bool,
    resize_edge: Option<ResizeEdge>,
    has_custom_positions: bool,
    on_strip_handle: bool,
) -> (g: PressGesture)
    ensures
        g == (if !edit_mode && invite_pressed {
            PressGesture::InviteButton
        } else if edit_mode {
            match resize_edge {
                Some(e) => PressGesture::ResizeWindow(e),
                None => PressGesture::MoveWindow,
            }
        } else if !has_custom_positions && on_strip_handle {
            PressGesture::ResizeStrip
        } else {
            PressGesture::Reorder
        }),
{
    if !edit_mode && invite_pressed {
        PressGesture::InviteButton
    } else if edit_mode {
        match resize_edge {
            Some(e) => PressGesture::ResizeWindow(e),
            None => PressGesture::MoveWindow,
        }
    } else if !has_custom_positions && on_strip_handle {
        PressGesture::ResizeStrip
    } else {
        PressGesture::Reorder
    }
}

/// Start the drag a press begins: the gesture's own state, from the cursor
/// and the window's rectangle (or, for the strip, its current thickness
/// across the edge). Any reorder drag in progress is cancelled first.
pub fn start_press(
    state: &mut InteractionState,
    gesture: PressGesture,
    pip_index: usize,
    cursor: Point,
    window_rect: Rect,
    edge: PipEdge,
    strip_width: i32,
    strip_height: i32,
)
    ensures
        final(state).reorder_drag == (if gesture == PressGesture::Reorder {
            Some(ReorderDragState { from_index: pip_index, start_pt: cursor, dragging: false })
        } else {
            None::<ReorderDragState>
        }),
        final(state).drop_target is None,
        match gesture {
            PressGesture::ResizeWindow(e) => final(state).pip_resize_drag == Some(
                PipResizeDragState { pip_index, edge: e, start_cursor: cursor, start_rect: window_rect },
            ) && final(state).move_drag == old(state).move_drag,
            PressGesture::MoveWindow => final(state).move_drag == Some(
                MoveDragState { pip_index, start_cursor: cursor, start_rect: window_rect },
            ) && final(state).pip_resize_drag == old(state).pip_resize_drag,
            _ => final(state).move_drag == old(state).move_drag && final(state).pip_resize_drag == old(
                state,
            ).pip_resize_drag,
        },
        gesture == PressGesture::ResizeStrip ==> final(state).strip_resize_drag == Some(
            StripResizeDragState {
                start_pt: cursor,
                start_size: if edge == PipEdge::Right || edge == PipEdge::Left { strip_width } else { strip_height },
            },
        ),
        gesture != PressGesture::ResizeStrip ==> final(state).strip_resize_drag == old(state).strip_resize_drag,
        final(state).edit_mode == old(state).edit_mode,
        final(state).context_menu_open == old(state).context_menu_open,
        final(state).pending_context_menu == old(state).pending_context_menu,
        final(state).context_menu_target_pid == old(state).context_menu_target_pid,
{
    state.cancel_reorder();
    match gesture {
        PressGesture::ResizeWindow(e) => {
            state.pip_resize_drag = Some(
                PipResizeDragState { pip_index, edge: e, start_cursor: cursor, start_rect: window_rect },
            );
        },
        PressGesture::MoveWindow => {
            state.move_drag = Some(MoveDragState { pip_index, start_cursor: cursor, start_rect: window_rect });
        },
        PressGesture::ResizeStrip => {
            let start_size = if edge == PipEdge::Right || edge == PipEdge::Left { strip_width } else { strip_height };
            state.strip_resize_drag = Some(StripResizeDragState { start_pt: cursor, start_size });
        },
        PressGesture::Reorder => {
            state.reorder_drag = Some(ReorderDragState { from_index: pip_index, start_pt: cursor, dragging: false });
        },
        PressGesture::InviteButton => {},
    }
}

/// A double click on the strip's inner edge (automatic layout, not editing)
/// returns the strip to its automatic thickness.
pub fn double_click_resets_strip(edit_mode: bool, has_custom_positions: bool, on_strip_handle: bool) -> (b: bool)
    ensures
        b == (!edit_mode && !has_custom_positions && on_strip_handle),
{
    !edit_mode && !has_custom_positions && on_strip_handle
}

} // verus!
