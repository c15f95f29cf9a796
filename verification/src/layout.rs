//! Placement of the picture-in-picture windows: the automatic strip along a
//! monitor edge, configured overrides, and the snapping and aspect-keeping
//! rules of moving and resizing a window by hand.
//!
//! Every rectangle here is in screen pixels. Lengths scale with the display
//! scale and 16:9 conversions round to the nearest pixel, halves away from
//! zero.

use vstd::prelude::*;
use crate::geometry::{Rect, Scale, dpi_ok, imax, imin, iclamp, lemma_pixels_range, round_ratio, round_ratio_exec};

verus! {

pub const SNAP_DISTANCE: i32 = 12;
/// Windows narrower than this cannot be made by resizing.
pub const MIN_RESIZE_WIDTH: i32 = 80;

/// The coordinates layouts accept: far beyond any desktop, small enough that
/// no sum of a few of them overflows.
pub open spec fn screen_ok(v: int) -> bool {
    -0x100_0000 <= v <= 0x100_0000
}

pub open spec fn screen_rect_ok(r: Rect) -> bool {
    screen_ok(r.left as int) && screen_ok(r.top as int) && screen_ok(r.right as int) && screen_ok(r.bottom as int)
}

/// The monitor edge the strip of windows is anchored to.
#[derive(Clone, Copy, Debug, PartialEq, Eq, Structural)]
pub enum PipEdge {
    Right,
    Left,
    Top,
    Bottom,
}

#[derive(Clone, Copy, Debug, PartialEq, Eq, Structural)]
pub enum ResizeEdge {
    N,
    S,
    E,
    W,
    NE,
    NW,
    SE,
    SW,
}

pub open spec fn spec_resize_edge(point: (i32, i32), width: int, height: int, zone: int) -> Option<ResizeEdge> {
    let on_left = point.0 < zone;
    let on_right = point.0 >= width - zone;
    let on_top = point.1 < zone;
    let on_bottom = point.1 >= height - zone;
    if on_left && on_top {
        Some(ResizeEdge::NW)
    } else if on_left && on_bottom {
        Some(ResizeEdge::SW)
    } else if on_right && on_top {
        Some(ResizeEdge::NE)
    } else if on_right && on_bottom {
        Some(ResizeEdge::SE)
    } else if on_left {
        Some(ResizeEdge::W)
    } else if on_right {
        Some(ResizeEdge::E)
    } else if on_top {
        Some(ResizeEdge::N)
    } else if on_bottom {
        Some(ResizeEdge::S)
    } else {
        None
    }
}

/// The resize edge or corner under a client-area point: within `zone`
/// pixels of an edge, corners first.
pub fn resize_edge_hit_test(point: (i32, i32), width: i32, height: i32, zone: i32) -> (r: Option<ResizeEdge>)
    ensures
        r == spec_resize_edge(point, width as int, height as int, zone as int),
{
    let on_left = point.0 < zone;
    let on_right = point.0 as i64 >= width as i64 - zone as i64;
    let on_top = point.1 < zone;
    let on_bottom = point.1 as i64 >= height as i64 - zone as i64;
    if on_left && on_top {
        Some(ResizeEdge::NW)
    } else if on_left && on_bottom {
        Some(ResizeEdge::SW)
    } else if on_right && on_top {
        Some(ResizeEdge::NE)
    } else if on_right && on_bottom {
        Some(ResizeEdge::SE)
    } else if on_left {
        Some(ResizeEdge::W)
    } else if on_right {
        Some(ResizeEdge::E)
    } else if on_top {
        Some(ResizeEdge::N)
    } else if on_bottom {
        Some(ResizeEdge::S)
    } else {
        None
    }
}

/// Whether a client point is on the strip's resize handle: the edge that
/// faces away from the monitor edge the strip is anchored to.
pub fn strip_resize_hit_test(point: (i32, i32), width: i32, height: i32, pip_edge: PipEdge, handle_width: i32) -> (b: bool)
    ensures
        b == match pip_edge {
            PipEdge::Right => point.0 < handle_width,
            PipEdge::Left => point.0 >= width - handle_width,
            PipEdge::Top => point.1 >= height - handle_width,
            PipEdge::Bottom => point.1 < handle_width,
        },
{
    match pip_edge {
        PipEdge::Right => point.0 < handle_width,
        PipEdge::Left => point.0 as i64 >= width as i64 - handle_width as i64,
        PipEdge::Top => point.1 as i64 >= height as i64 - handle_width as i64,
        PipEdge::Bottom => point.1 < handle_width,
    }
}

// ---------------------------------------------------------------- snapping

/// A position rounded to the nearest multiple of a positive grid.
pub open spec fn grid_snap(v: int, grid: int) -> int {
    if grid > 0 { round_ratio(v, grid) * grid } else { v }
}

pub open spec fn near(a: int, b: int) -> bool {
    -12 < a - b < 12
}

/// One axis of a window at `pos` with extent `len` snapped to the edges
/// `lo` and `hi`: its near side to `lo`, then its far side to `hi`.
pub open spec fn snap_to_edges(pos: int, len: int, lo: int, hi: int) -> int {
    let p = if near(pos, lo) { lo } else { pos };
    if near(p + len, hi) { hi - len } else { p }
}

/// One axis snapped against another window's edges `lo` and `hi`: the near
/// side to either edge, then the far side to either edge.
pub open spec fn snap_to_window(pos: int, len: int, lo: int, hi: int) -> int {
    let p1 = if near(pos, lo) { lo } else { pos };
    let p2 = if near(p1, hi) { hi } else { p1 };
    let p3 = if near(p2 + len, lo) { lo - len } else { p2 };
    if near(p3 + len, hi) { hi - len } else { p3 }
}

/// The horizontal position after snapping against each other window in
/// turn.
pub open spec fn snap_x_through(x: int, width: int, others: Seq<Rect>) -> int
    decreases others.len(),
{
    if others.len() == 0 {
        x
    } else {
        let o = others.last();
        snap_to_window(snap_x_through(x, width, others.drop_last()), width, o.left as int, o.right as int)
    }
}

pub open spec fn snap_y_through(y: int, height: int, others: Seq<Rect>) -> int
    decreases others.len(),
{
    if others.len() == 0 {
        y
    } else {
        let o = others.last();
        snap_to_window(snap_y_through(y, height, others.drop_last()), height, o.top as int, o.bottom as int)
    }
}

/// A window being moved.
#[derive(Clone, Copy, Debug, PartialEq, Eq, Structural)]
pub struct MoveSnapInput {
    pub x: i32,
    pub y: i32,
    pub width: i32,
    pub height: i32,
    pub monitor: Rect,
    pub grid: i32,
    /// Snapping is bypassed (a modifier key is held).
    pub bypass: bool,
}

impl MoveSnapInput {
    pub open spec fn valid(self) -> bool {
        &&& screen_ok(self.x as int)
        &&& screen_ok(self.y as int)
        &&& 0 <= self.width <= 0x100_0000
        &&& 0 <= self.height <= 0x100_0000
        &&& screen_rect_ok(self.monitor)
        &&& self.grid <= 0x100_0000
    }
}

pub open spec fn spec_snap_point(input: MoveSnapInput, others: Seq<Rect>) -> (int, int) {
    if input.bypass {
        (input.x as int, input.y as int)
    } else {
        let gx = grid_snap(input.x as int, input.grid as int);
        let gy = grid_snap(input.y as int, input.grid as int);
        let mx = snap_to_edges(gx, input.width as int, input.monitor.left as int, input.monitor.right as int);
        let my = snap_to_edges(gy, input.height as int, input.monitor.top as int, input.monitor.bottom as int);
        (snap_x_through(mx, input.width as int, others), snap_y_through(my, input.height as int, others))
    }
}

fn grid_snap_exec(v: i64, grid: i64) -> (r: i64)
    requires
        -0x200_0000 <= v <= 0x200_0000,
        grid <= 0x100_0000,
    ensures
        r == grid_snap(v as int, grid as int),
        -0x400_0000 <= r <= 0x400_0000,
{
    if grid > 0 {
        let q = round_ratio_exec(v as i128, grid as i128);
        proof {
            crate::geometry::lemma_round_ratio_bounds(v as int, grid as int);
            let n = v as int;
            let d = grid as int;
            if n >= 0 {
                assert(q * d <= n + d) by (nonlinear_arith)
                    requires
                        0 <= q <= n / d + 1,
                        d > 0,
                        n >= 0,
                ;
                assert(q * d >= 0) by (nonlinear_arith)
                    requires
                        0 <= q,
                        d > 0,
                ;
            } else {
                assert(q * d >= n - d) by (nonlinear_arith)
                    requires
                        -((-n) / d) - 1 <= q <= 0,
                        d > 0,
                        n < 0,
                ;
                assert(q * d <= 0) by (nonlinear_arith)
                    requires
                        q <= 0,
                        d > 0,
                ;
            }
        }
        (q as i64) * grid
    } else {
        v
    }
}

/// Whether two positions are within snapping distance.
fn is_near(a: i64, b: i64) -> (r: bool)
    requires
        -0x1000_0000 <= a <= 0x1000_0000,
        -0x1000_0000 <= b <= 0x1000_0000,
    ensures
        r == near(a as int, b as int),
{
    -12 < a - b && a - b < 12
}

/// Snap a moved window to the grid, the monitor's edges and the other
/// windows' edges, unless bypassed.
pub fn snap_point(input: MoveSnapInput, others: &[Rect]) -> (r: (i32, i32))
    requires
        input.valid(),
        forall|i: int| 0 <= i < others@.len() ==> screen_rect_ok(#[trigger] others@[i]),
    ensures
        (r.0 as int, r.1 as int) == spec_snap_point(input, others@),
{
    if input.bypass {
        return (input.x, input.y);
    }
    let w = input.width as i64;
    let h = input.height as i64;
    let mon = input.monitor;
    let mut x = grid_snap_exec(input.x as i64, input.grid as i64);
    let mut y = grid_snap_exec(input.y as i64, input.grid as i64);
    if is_near(x, mon.left as i64) {
        x = mon.left as i64;
    }
    if is_near(x + w, mon.right as i64) {
        x = mon.right as i64 - w;
    }
    if is_near(y, mon.top as i64) {
        y = mon.top as i64;
    }
    if is_near(y + h, mon.bottom as i64) {
        y = mon.bottom as i64 - h;
    }
    let ghost x0 = x as int;
    let ghost y0 = y as int;
    proof {
        assert(others@.take(0) =~= Seq::<Rect>::empty());
    }
    let mut i: usize = 0;
    while i < others.len()
        invariant
            i <= others@.len(),
            input.valid(),
            w == input.width,
            h == input.height,
            forall|k: int| 0 <= k < others@.len() ==> screen_rect_ok(#[trigger] others@[k]),
            x as int == snap_x_through(x0, w as int, others@.take(i as int)),
            y as int == snap_y_through(y0, h as int, others@.take(i as int)),
            -0x400_0000 <= x <= 0x400_0000,
            -0x400_0000 <= y <= 0x400_0000,
        decreases others@.len() - i,
    {
        let o = others[i];
        proof {
            assert(others@.take(i + 1).drop_last() =~= others@.take(i as int));
            assert(screen_rect_ok(others@[i as int]));
        }
        if is_near(x, o.left as i64) {
            x = o.left as i64;
        }
        if is_near(x, o.right as i64) {
            x = o.right as i64;
        }
        if is_near(x + w, o.left as i64) {
            x = o.left as i64 - w;
        }
        if is_near(x + w, o.right as i64) {
            x = o.right as i64 - w;
        }
        if is_near(y, o.top as i64) {
            y = o.top as i64;
        }
        if is_near(y, o.bottom as i64) {
            y = o.bottom as i64;
        }
        if is_near(y + h, o.top as i64) {
            y = o.top as i64 - h;
        }
        if is_near(y + h, o.bottom as i64) {
            y = o.bottom as i64 - h;
        }
        i = i + 1;
    }
    proof {
        assert(others@.take(others@.len() as int) =~= others@);
    }
    (x as i32, y as i32)
}

// ---------------------------------------------------------------- resizing

/// The cell height that keeps the thumbnail inside the border at 16:9.
pub open spec fn spec_aspect_height(cell_width: int, border: int) -> int {
    round_ratio((cell_width - 2 * border) * 9, 16) + 2 * border
}

/// The cell width that keeps the thumbnail inside the border at 16:9.
pub open spec fn spec_aspect_width(cell_height: int, border: int) -> int {
    round_ratio((cell_height - 2 * border) * 16, 9) + 2 * border
}

pub fn aspect_height_for_width(cell_width: i32, border: i32) -> (h: i32)
    requires
        -0x1000_0000 <= cell_width <= 0x1000_0000,
        0 <= border <= 0x1_0000,
    ensures
        h == spec_aspect_height(cell_width as int, border as int),
        -0x2000_0000 <= h <= 0x2000_0000,
{
    let t = cell_width as i128 - 2 * border as i128;
    let r = round_ratio_exec(t * 9, 16);
    proof {
        crate::geometry::lemma_round_ratio_bounds(t * 9, 16);
    }
    (r + 2 * border as i128) as i32
}

pub fn aspect_width_for_height(cell_height: i32, border: i32) -> (w: i32)
    requires
        -0x1000_0000 <= cell_height <= 0x1000_0000,
        0 <= border <= 0x1_0000,
    ensures
        w == spec_aspect_width(cell_height as int, border as int),
        -0x2000_0000 <= w <= 0x2000_0000,
{
    let t = cell_height as i128 - 2 * border as i128;
    let r = round_ratio_exec(t * 16, 9);
    proof {
        crate::geometry::lemma_round_ratio_bounds(t * 16, 9);
    }
    (r + 2 * border as i128) as i32
}

pub open spec fn moves_right(e: ResizeEdge) -> bool {
    e == ResizeEdge::E || e == ResizeEdge::NE || e == ResizeEdge::SE
}

pub open spec fn moves_left(e: ResizeEdge) -> bool {
    e == ResizeEdge::W || e == ResizeEdge::NW || e == ResizeEdge::SW
}

pub open spec fn moves_bottom(e: ResizeEdge) -> bool {
    e == ResizeEdge::S || e == ResizeEdge::SE || e == ResizeEdge::SW
}

pub open spec fn moves_top(e: ResizeEdge) -> bool {
    e == ResizeEdge::N || e == ResizeEdge::NE || e == ResizeEdge::NW
}

/// A resize by a drag of `(dx, dy)` on an edge: the dragged edges move (the
/// moved side edges, or a pure top or bottom edge, snap to the grid unless
/// bypassed), the width is kept at least the minimum, and the other axis
/// follows to keep the thumbnail at 16:9: the width for a top or bottom
/// edge, else the height, growing upward for the top corners.
pub open spec fn spec_snap_resize(
    edge: ResizeEdge,
    start: Rect,
    dx: int,
    dy: int,
    grid: int,
    border: int,
    bypass: bool,
) -> Rect {
    let snap = !bypass && grid > 0;
    let r0 = if moves_right(edge) { start.right + dx } else { start.right as int };
    let l0 = if moves_left(edge) { start.left + dx } else { start.left as int };
    let b0 = if moves_bottom(edge) { start.bottom + dy } else { start.bottom as int };
    let t0 = if moves_top(edge) { start.top + dy } else { start.top as int };
    let r1 = if snap && moves_right(edge) { grid_snap(r0, grid) } else { r0 };
    let l1 = if snap && moves_left(edge) { grid_snap(l0, grid) } else { l0 };
    let t1 = if snap && edge == ResizeEdge::N { grid_snap(t0, grid) } else { t0 };
    let b1 = if snap && edge == ResizeEdge::S { grid_snap(b0, grid) } else { b0 };
    let narrow = r1 - l1 < MIN_RESIZE_WIDTH;
    let l2 = if narrow && moves_left(edge) { r1 - MIN_RESIZE_WIDTH } else { l1 };
    let r2 = if narrow && !moves_left(edge) { l1 + MIN_RESIZE_WIDTH } else { r1 };
    if edge == ResizeEdge::N || edge == ResizeEdge::S {
        let r3 = l2 + imax(spec_aspect_width(b1 - t1, border), MIN_RESIZE_WIDTH as int);
        Rect { left: l2 as i32, top: t1 as i32, right: r3 as i32, bottom: b1 as i32 }
    } else {
        let h = spec_aspect_height(r2 - l2, border);
        if edge == ResizeEdge::NW || edge == ResizeEdge::NE {
            Rect { left: l2 as i32, top: (b1 - h) as i32, right: r2 as i32, bottom: b1 as i32 }
        } else {
            Rect { left: l2 as i32, top: t1 as i32, right: r2 as i32, bottom: (t1 + h) as i32 }
        }
    }
}

pub fn snap_resize(
    edge: ResizeEdge,
    start_rect: Rect,
    dx: i32,
    dy: i32,
    grid: i32,
    border: i32,
    bypass: bool,
) -> (r: Rect)
    requires
        screen_rect_ok(start_rect),
        screen_ok(dx as int),
        screen_ok(dy as int),
        grid <= 0x100_0000,
        0 <= border <= 0x1_0000,
    ensures
        r == spec_snap_resize(edge, start_rect, dx as int, dy as int, grid as int, border as int, bypass),
{
    let snap = !bypass && grid > 0;
    let right = if edge == ResizeEdge::E || edge == ResizeEdge::NE || edge == ResizeEdge::SE {
        start_rect.right as i64 + dx as i64
    } else {
        start_rect.right as i64
    };
    let left = if edge == ResizeEdge::W || edge == ResizeEdge::NW || edge == ResizeEdge::SW {
        start_rect.left as i64 + dx as i64
    } else {
        start_rect.left as i64
    };
    let bottom = if edge == ResizeEdge::S || edge == ResizeEdge::SE || edge == ResizeEdge::SW {
        start_rect.bottom as i64 + dy as i64
    } else {
        start_rect.bottom as i64
    };
    let top = if edge == ResizeEdge::N || edge == ResizeEdge::NE || edge == ResizeEdge::NW {
        start_rect.top as i64 + dy as i64
    } else {
        start_rect.top as i64
    };
    let right = if snap && (edge == ResizeEdge::E || edge == ResizeEdge::NE || edge == ResizeEdge::SE) {
        grid_snap_exec(right, grid as i64)
    } else {
        right
    };
    let left = if snap && (edge == ResizeEdge::W || edge == ResizeEdge::NW || edge == ResizeEdge::SW) {
        grid_snap_exec(left, grid as i64)
    } else {
        left
    };
    let top = if snap && edge == ResizeEdge::N { grid_snap_exec(top, grid as i64) } else { top };
    let bottom = if snap && edge == ResizeEdge::S { grid_snap_exec(bottom, grid as i64) } else { bottom };
    let narrow = right - left < MIN_RESIZE_WIDTH as i64;
    let west = edge == ResizeEdge::W || edge == ResizeEdge::NW || edge == ResizeEdge::SW;
    let left2 = if narrow && west { right - MIN_RESIZE_WIDTH as i64 } else { left };
    let right2 = if narrow && !west { left + MIN_RESIZE_WIDTH as i64 } else { right };
    if edge == ResizeEdge::N || edge == ResizeEdge::S {
        let aspect = aspect_width_for_height((bottom - top) as i32, border);
        let width = if aspect >= MIN_RESIZE_WIDTH { aspect } else { MIN_RESIZE_WIDTH };
        Rect { left: left2 as i32, top: top as i32, right: (left2 + width as i64) as i32, bottom: bottom as i32 }
    } else {
        let h = aspect_height_for_width((right2 - left2) as i32, border);
        if edge == ResizeEdge::NW || edge == ResizeEdge::NE {
            Rect { left: left2 as i32, top: (bottom - h as i64) as i32, right: right2 as i32, bottom: bottom as i32 }
        } else {
            Rect { left: left2 as i32, top: top as i32, right: right2 as i32, bottom: (top + h as i64) as i32 }
        }
    }
}


/// Runtime layout configuration and the latest computed strip geometry.
#[derive(Debug)]
pub struct LayoutState {
    pub monitor_rect: Rect,
    pub scale: Scale,
    pub pip_edge: PipEdge,
    pub custom_strip_width: Option<i32>,
    pub snap_grid: i32,
    pub has_custom_positions: bool,
    pub strip_width: i32,
    pub strip_height: i32,
}

impl LayoutState {
    /// The state a configuration starts with: its edge, strip thickness
    /// and snap grid, custom positions where it has any, and no strip yet.
    pub fn new(pip_edge: PipEdge, pip_strip_width: Option<u32>, snap_grid: u32, has_positions: bool, scale: Scale) -> (s: LayoutState)
        ensures
            s.monitor_rect == (Rect { left: 0, top: 0, right: 0, bottom: 0 }),
            s.scale == scale,
            s.pip_edge == pip_edge,
            s.custom_strip_width == match pip_strip_width {
                Some(w) => Some(w as i32),
                None => None::<i32>,
            },
            s.snap_grid == snap_grid as i32,
            s.has_custom_positions == has_positions,
            s.strip_width == 0,
            s.strip_height == 0,
    {
        LayoutState {
            monitor_rect: Rect { left: 0, top: 0, right: 0, bottom: 0 },
            scale,
            pip_edge,
            custom_strip_width: match pip_strip_width {
                Some(w) => Some(w as i32),
                None => None,
            },
            snap_grid: snap_grid as i32,
            has_custom_positions: has_positions,
            strip_width: 0,
            strip_height: 0,
        }
    }

    /// Switch the strip to another edge: back to the automatic strip, with
    /// no custom thickness and no custom positions.
    pub fn assign_edge(&mut self, edge: PipEdge)
        ensures
            final(self).pip_edge == edge,
            final(self).custom_strip_width is None,
            !final(self).has_custom_positions,
            final(self).monitor_rect == old(self).monitor_rect,
            final(self).scale == old(self).scale,
            final(self).snap_grid == old(self).snap_grid,
            final(self).strip_width == old(self).strip_width,
            final(self).strip_height == old(self).strip_height,
    {
        self.pip_edge = edge;
        self.custom_strip_width = None;
        self.has_custom_positions = false;
    }
}

// ---------------------------------------------------------------- strip

/// A configured placement of one window slot.
#[derive(Clone, Copy, Debug, PartialEq, Eq, Structural)]
pub struct PipPosition {
    pub slot: usize,
    pub x: i32,
    pub y: i32,
    pub width: u32,
    pub height: u32,
}

/// Everything one layout computation reads.
pub struct LayoutInput<'a> {
    pub scale: Scale,
    pub monitor_rect: Rect,
    pub pip_count: usize,
    pub pip_edge: PipEdge,
    /// The configured strip thickness (width of a side strip, height of a
    /// top or bottom strip).
    pub custom_strip_width: Option<i32>,
    pub custom_positions: &'a [PipPosition],
    pub gap: i32,
    pub border: i32,
}

/// Where each window goes and the size of the automatic strip.
pub struct LayoutPlan {
    pub rects: Vec<Rect>,
    pub strip_width: i32,
    pub strip_height: i32,
}

pub open spec fn vertical(edge: PipEdge) -> bool {
    edge == PipEdge::Right || edge == PipEdge::Left
}

/// Integer division rounding toward zero, as `/` on machine integers.
pub open spec fn div_trunc(a: int, b: int) -> int {
    if a >= 0 { a / b } else { -((-a) / b) }
}

/// The bounds of the configurable strip thickness: a quarter and a
/// twentieth of the monitor's extent across the strip.
pub open spec fn max_thickness(extent: int) -> int {
    round_ratio(extent, 4)
}

pub open spec fn min_thickness(extent: int) -> int {
    round_ratio(extent, 20)
}

/// Cells of a strip along a side edge: the thickness is the configured one
/// (clamped to the monitor's bounds) or else the one whose 16:9 thumbnails
/// share the monitor's height (at least 40 logical pixels tall, at most as
/// tall as the widest strip allows); cells are as tall as their thumbnails.
/// `None` where the original's clamps have an empty range.
pub open spec fn side_cells(
    scale: Scale,
    mon: Rect,
    count: int,
    left_edge: bool,
    custom: Option<i32>,
    gap: int,
    border: int,
) -> Option<(int, int, int, int)> {
    let mw = mon.right - mon.left;
    let mh = mon.bottom - mon.top;
    let max_w = max_thickness(mw);
    let min_w = min_thickness(mw);
    let auto_max_th = round_ratio((max_w - 2 * border) * 9, 16);
    let auto_max_cell_h = div_trunc(mh - imax(count - 1, 0) * gap, count);
    let lo = scale.spec_pixels(40);
    if lo > auto_max_th || (custom is Some && min_w > max_w) {
        None
    } else {
        let auto_th = iclamp(auto_max_cell_h - 2 * border, lo, auto_max_th);
        let auto_w = round_ratio(auto_th * 16, 9) + 2 * border;
        let w = match custom {
            Some(c) => iclamp(c as int, min_w, max_w),
            None => auto_w,
        };
        let cell_h = round_ratio((w - 2 * border) * 9, 16) + 2 * border;
        let x = if left_edge { mon.left as int } else { mon.right - w };
        Some((x, mon.top as int, w, cell_h))
    }
}

/// Cells of a strip along the top or bottom edge, ending at the monitor's
/// right: the same rule with the axes exchanged (thumbnails at least 60
/// logical pixels wide).
pub open spec fn row_cells(
    scale: Scale,
    mon: Rect,
    count: int,
    top_edge: bool,
    custom: Option<i32>,
    gap: int,
    border: int,
) -> Option<(int, int, int, int)> {
    let mw = mon.right - mon.left;
    let mh = mon.bottom - mon.top;
    let max_h = max_thickness(mh);
    let min_h = min_thickness(mh);
    let auto_max_tw = round_ratio((max_h - 2 * border) * 16, 9);
    let auto_max_cell_w = div_trunc(mw - imax(count - 1, 0) * gap, count);
    let lo = scale.spec_pixels(60);
    if lo > auto_max_tw || (custom is Some && min_h > max_h) {
        None
    } else {
        let auto_tw = iclamp(auto_max_cell_w - 2 * border, lo, auto_max_tw);
        let auto_h = round_ratio(auto_tw * 9, 16) + 2 * border;
        let h = match custom {
            Some(c) => iclamp(c as int, min_h, max_h),
            None => auto_h,
        };
        let cell_w = round_ratio((h - 2 * border) * 16, 9) + 2 * border;
        let total = count * cell_w + imax(count - 1, 0) * gap;
        let y = if top_edge { mon.top as int } else { mon.bottom - h };
        Some((mon.right - total, y, cell_w, h))
    }
}

/// The strip's origin and the size of each cell.
pub open spec fn strip_cells(
    scale: Scale,
    mon: Rect,
    count: int,
    edge: PipEdge,
    custom: Option<i32>,
    gap: int,
    border: int,
) -> Option<(int, int, int, int)> {
    if vertical(edge) {
        side_cells(scale, mon, count, edge == PipEdge::Left, custom, gap, border)
    } else {
        row_cells(scale, mon, count, edge == PipEdge::Top, custom, gap, border)
    }
}

/// The inputs a layout accepts: screen-sized coordinates, at most 64
/// windows, and strip clamps whose ranges are not empty (the original's
/// `clamp` panics on an empty range).
pub open spec fn layout_ok(input: LayoutInput) -> bool {
    &&& dpi_ok(input.scale.dpi as int)
    &&& screen_rect_ok(input.monitor_rect)
    &&& input.pip_count <= 64
    &&& 0 <= input.gap <= 0x1_0000
    &&& 0 <= input.border <= 0x1_0000
    &&& forall|i: int| 0 <= i < input.custom_positions@.len() ==> {
        let p = #[trigger] input.custom_positions@[i];
        screen_ok(p.x as int) && screen_ok(p.y as int) && p.width <= 0x100_0000 && p.height <= 0x100_0000
    }
    &&& input.pip_count > 0 ==> strip_cells(
        input.scale,
        input.monitor_rect,
        input.pip_count as int,
        input.pip_edge,
        input.custom_strip_width,
        input.gap as int,
        input.border as int,
    ) is Some
}

/// The automatic cell of slot `i`: side strips stack down from the top,
/// top and bottom strips run left to right ending at the monitor's right.
pub open spec fn auto_cell(cells: (int, int, int, int), edge: PipEdge, gap: int, i: int) -> Rect {
    let (x, y, w, h) = cells;
    let (xo, yo) = if vertical(edge) { (0, i * (h + gap)) } else { (i * (w + gap), 0) };
    Rect { left: (x + xo) as i32, top: (y + yo) as i32, right: (x + xo + w) as i32, bottom: (y + yo + h) as i32 }
}

/// The configured position of slot `i` that applies: the last one naming
/// it.
pub open spec fn configured_slot(positions: Seq<PipPosition>, i: int) -> Option<PipPosition>
    decreases positions.len(),
{
    if positions.len() == 0 {
        None
    } else if positions.last().slot == i {
        Some(positions.last())
    } else {
        configured_slot(positions.drop_last(), i)
    }
}

pub open spec fn position_rect(p: PipPosition) -> Rect {
    Rect { left: p.x, top: p.y, right: (p.x + p.width) as i32, bottom: (p.y + p.height) as i32 }
}

/// The layout: one rectangle per window, the automatic cell unless a
/// configured position names its slot; the strip's extent is that of the
/// automatic cells, whatever the overrides.
pub open spec fn plan_matches(plan: LayoutPlan, input: LayoutInput) -> bool {
    let count = input.pip_count as int;
    if count == 0 {
        plan.rects@.len() == 0 && plan.strip_width == 0 && plan.strip_height == 0
    } else {
        let cells = strip_cells(
            input.scale,
            input.monitor_rect,
            count,
            input.pip_edge,
            input.custom_strip_width,
            input.gap as int,
            input.border as int,
        )->0;
        let first = auto_cell(cells, input.pip_edge, input.gap as int, 0);
        let last = auto_cell(cells, input.pip_edge, input.gap as int, count - 1);
        &&& plan.rects@.len() == count
        &&& forall|i: int| 0 <= i < count ==> #[trigger] plan.rects@[i] == match configured_slot(input.custom_positions@, i) {
            Some(p) => position_rect(p),
            None => auto_cell(cells, input.pip_edge, input.gap as int, i),
        }
        &&& plan.strip_width == last.right - first.left
        &&& plan.strip_height == last.bottom - first.top
    }
}

proof fn lemma_small_px(scale: Scale, logical: int)
    requires
        dpi_ok(scale.dpi as int),
        1 <= logical <= 64,
    ensures
        0 <= scale.spec_pixels(logical) <= 64 * 50 + 1,
{
    lemma_pixels_range(scale, logical);
}

fn round_i64(n: i64, d: i64) -> (r: i64)
    requires
        0 < d <= 20,
        -0x1000_0000_0000 <= n <= 0x1000_0000_0000,
    ensures
        r == round_ratio(n as int, d as int),
        n >= 0 ==> 0 <= r <= n / d + 1,
        n < 0 ==> -((-n) / (d as int)) - 1 <= r <= 0,
{
    proof {
        crate::geometry::lemma_round_ratio_bounds(n as int, d as int);
    }
    round_ratio_exec(n as i128, d as i128) as i64
}

fn clamp_i64(v: i64, lo: i64, hi: i64) -> (r: i64)
    requires
        lo <= hi,
    ensures
        r == iclamp(v as int, lo as int, hi as int),
{
    let a = if v >= lo { v } else { lo };
    if a <= hi { a } else { hi }
}

fn div_trunc_i64(a: i64, b: i64) -> (r: i64)
    requires
        b > 0,
        -0x1000_0000_0000 <= a <= 0x1000_0000_0000,
    ensures
        r == div_trunc(a as int, b as int),
{
    if a >= 0 { a / b } else { -((-a) / b) }
}

/// Bounds that keep every cell computation inside `i32`.
proof fn lemma_quotient_bounds(a: int, b: int)
    requires
        b >= 1,
        -0x400_0000 <= a <= 0x400_0000,
    ensures
        -0x400_0000 <= div_trunc(a, b) <= 0x400_0000,
{
    if a >= 0 {
        assert(a / b <= a) by (nonlinear_arith)
            requires
                a >= 0,
                b >= 1,
        ;
    } else {
        assert((-a) / b <= -a) by (nonlinear_arith)
            requires
                -a > 0,
                b >= 1,
        ;
    }
}

fn side_cells_exec(
    scale: Scale,
    mon: Rect,
    count: i64,
    left_edge: bool,
    custom: Option<i32>,
    gap: i64,
    border: i64,
) -> (r: (i64, i64, i64, i64))
    requires
        dpi_ok(scale.dpi as int),
        screen_rect_ok(mon),
        1 <= count <= 64,
        0 <= gap <= 0x1_0000,
        0 <= border <= 0x1_0000,
        side_cells(scale, mon, count as int, left_edge, custom, gap as int, border as int) is Some,
    ensures
        side_cells(scale, mon, count as int, left_edge, custom, gap as int, border as int) == Some(
            (r.0 as int, r.1 as int, r.2 as int, r.3 as int),
        ),
        -0x200_0000 <= r.0 <= 0x200_0000,
        r.1 == mon.top,
        -0x100_0000 <= r.2 <= 0x100_0000,
        -0x100_0000 <= r.3 <= 0x100_0000,
{
    proof {
        lemma_small_px(scale, 40);
    }
    let mw = mon.right as i64 - mon.left as i64;
    let mh = mon.bottom as i64 - mon.top as i64;
    assert(0 <= (count - 1) * gap <= 63 * 0x1_0000) by (nonlinear_arith)
        requires
            1 <= count <= 64,
            0 <= gap <= 0x1_0000,
    ;
    let gaps = (count - 1) * gap;
    let max_w = round_i64(mw, 4);
    let min_w = round_i64(mw, 20);
    assert(-0x80_0001 <= max_w <= 0x80_0001);
    let auto_max_th = round_i64((max_w - 2 * border) * 9, 16);
    let q = div_trunc_i64(mh - gaps, count);
    proof {
        lemma_quotient_bounds((mh - gaps) as int, count as int);
    }
    let lo = scale.pixels(40) as i64;
    let auto_th = clamp_i64(q - 2 * border, lo, auto_max_th);
    assert(0 <= auto_th <= 0x48_0000);
    let auto_w = round_i64(auto_th * 16, 9) + 2 * border;
    let w = match custom {
        Some(c) => clamp_i64(c as i64, min_w, max_w),
        None => auto_w,
    };
    assert(-0x90_0000 <= w <= 0x90_0000);
    let cell_h = round_i64((w - 2 * border) * 9, 16) + 2 * border;
    let x = if left_edge { mon.left as i64 } else { mon.right as i64 - w };
    (x, mon.top as i64, w, cell_h)
}

fn row_cells_exec(
    scale: Scale,
    mon: Rect,
    count: i64,
    top_edge: bool,
    custom: Option<i32>,
    gap: i64,
    border: i64,
) -> (r: (i64, i64, i64, i64))
    requires
        dpi_ok(scale.dpi as int),
        screen_rect_ok(mon),
        1 <= count <= 64,
        0 <= gap <= 0x1_0000,
        0 <= border <= 0x1_0000,
        row_cells(scale, mon, count as int, top_edge, custom, gap as int, border as int) is Some,
    ensures
        row_cells(scale, mon, count as int, top_edge, custom, gap as int, border as int) == Some(
            (r.0 as int, r.1 as int, r.2 as int, r.3 as int),
        ),
        -0x100_0000 <= r.2 <= 0x100_0000,
        -0x100_0000 <= r.3 <= 0x100_0000,
        -0x200_0000 <= r.1 <= 0x200_0000,
        r.0 + count * r.2 + (count - 1) * gap == mon.right,
        -0x4800_0000 <= r.0 <= 0x1000_0000,
        r.2 >= -0x20_0000,
{
    proof {
        lemma_small_px(scale, 60);
    }
    let mw = mon.right as i64 - mon.left as i64;
    let mh = mon.bottom as i64 - mon.top as i64;
    assert(0 <= (count - 1) * gap <= 63 * 0x1_0000) by (nonlinear_arith)
        requires
            1 <= count <= 64,
            0 <= gap <= 0x1_0000,
    ;
    let gaps = (count - 1) * gap;
    let max_h = round_i64(mh, 4);
    let min_h = round_i64(mh, 20);
    assert(-0x80_0001 <= max_h <= 0x80_0001);
    let auto_max_tw = round_i64((max_h - 2 * border) * 16, 9);
    let q = div_trunc_i64(mw - gaps, count);
    proof {
        lemma_quotient_bounds((mw - gaps) as int, count as int);
    }
    let lo = scale.pixels(60) as i64;
    let auto_tw = clamp_i64(q - 2 * border, lo, auto_max_tw);
    assert(0 <= auto_tw <= 0xE4_0000);
    let auto_h = round_i64(auto_tw * 9, 16) + 2 * border;
    let h = match custom {
        Some(c) => clamp_i64(c as i64, min_h, max_h),
        None => auto_h,
    };
    assert(-0x82_0001 <= h <= 0x82_0002);
    let cell_w = round_i64((h - 2 * border) * 16, 9) + 2 * border;
    assert(-0x100_0000 <= cell_w <= 0x100_0000);
    assert(h >= 0);
    assert(cell_w >= -0x20_0000);
    assert(-64 * 0x20_0000 <= count * cell_w <= 64 * 0x100_0000) by (nonlinear_arith)
        requires
            1 <= count <= 64,
            -0x20_0000 <= cell_w <= 0x100_0000,
    ;
    let total = count * cell_w + gaps;
    let y = if top_edge { mon.top as i64 } else { mon.bottom as i64 - h };
    (mon.right as i64 - total, y, cell_w, h)
}

fn cell_rect(cells: (i64, i64, i64, i64), is_vertical: bool, gap: i64, i: i64, count: i64) -> (r: Rect)
    requires
        0 <= i < count <= 64,
        0 <= gap <= 0x1_0000,
        -0x100_0000 <= cells.2 <= 0x100_0000,
        -0x100_0000 <= cells.3 <= 0x100_0000,
        is_vertical ==> -0x200_0000 <= cells.0 <= 0x200_0000,
        -0x200_0000 <= cells.1 <= 0x200_0000,
        -0x4800_0000 <= cells.0 <= 0x4800_0000,
        !is_vertical ==> cells.0 <= 0x1000_0000 && cells.2 >= -0x20_0000,
    ensures
        r == auto_cell(
            (cells.0 as int, cells.1 as int, cells.2 as int, cells.3 as int),
            if is_vertical { PipEdge::Right } else { PipEdge::Top },
            gap as int,
            i as int,
        ),
        is_vertical ==> r.left == cells.0 && r.right == cells.0 + cells.2 && r.top == cells.1 + i * (cells.3 + gap)
            && r.bottom == cells.1 + i * (cells.3 + gap) + cells.3,
        !is_vertical ==> r.top == cells.1 && r.bottom == cells.1 + cells.3 && r.left == cells.0 + i * (cells.2 + gap)
            && r.right == cells.0 + i * (cells.2 + gap) + cells.2,
{
    let (x, y, w, h) = cells;
    if is_vertical {
        assert(-64 * 0x101_0000 <= i * (h + gap) <= 64 * 0x101_0000) by (nonlinear_arith)
            requires
                0 <= i <= 64,
                -0x100_0000 <= h + gap <= 0x101_0000,
        ;
        let yo = i * (h + gap);
        Rect { left: x as i32, top: (y + yo) as i32, right: (x + w) as i32, bottom: (y + yo + h) as i32 }
    } else {
        assert(-64 * 0x20_0000 <= i * (w + gap) <= 64 * 0x101_0000) by (nonlinear_arith)
            requires
                0 <= i <= 64,
                -0x20_0000 <= w + gap <= 0x101_0000,
        ;
        let xo = i * (w + gap);
        Rect { left: (x + xo) as i32, top: y as i32, right: (x + xo + w) as i32, bottom: (y + h) as i32 }
    }
}

/// The configured rectangle of a slot.
pub fn position_to_rect(p: PipPosition) -> (r: Rect)
    requires
        screen_ok(p.x as int),
        screen_ok(p.y as int),
        p.width <= 0x100_0000,
        p.height <= 0x100_0000,
    ensures
        r == position_rect(p),
{
    Rect { left: p.x, top: p.y, right: p.x + p.width as i32, bottom: p.y + p.height as i32 }
}

/// Compute the strip and the configured placements, without reading any
/// configuration or window state.
pub fn compute(input: &LayoutInput) -> (plan: LayoutPlan)
    requires
        layout_ok(*input),
    ensures
        plan_matches(plan, *input),
{
    let count = input.pip_count;
    if count == 0 {
        return LayoutPlan { rects: Vec::new(), strip_width: 0, strip_height: 0 };
    }
    let is_vertical = input.pip_edge == PipEdge::Right || input.pip_edge == PipEdge::Left;
    let cells = if is_vertical {
        side_cells_exec(
            input.scale,
            input.monitor_rect,
            count as i64,
            input.pip_edge == PipEdge::Left,
            input.custom_strip_width,
            input.gap as i64,
            input.border as i64,
        )
    } else {
        row_cells_exec(
            input.scale,
            input.monitor_rect,
            count as i64,
            input.pip_edge == PipEdge::Top,
            input.custom_strip_width,
            input.gap as i64,
            input.border as i64,
        )
    };
    let ghost gcells = (cells.0 as int, cells.1 as int, cells.2 as int, cells.3 as int);
    let mut rects: Vec<Rect> = Vec::new();
    let mut i: usize = 0;
    while i < count
        invariant
            layout_ok(*input),
            count == input.pip_count,
            1 <= count <= 64,
            i <= count,
            is_vertical == vertical(input.pip_edge),
            gcells == (cells.0 as int, cells.1 as int, cells.2 as int, cells.3 as int),
            -0x100_0000 <= cells.2 <= 0x100_0000,
            -0x100_0000 <= cells.3 <= 0x100_0000,
            is_vertical ==> -0x200_0000 <= cells.0 <= 0x200_0000,
            -0x200_0000 <= cells.1 <= 0x200_0000,
            -0x4800_0000 <= cells.0 <= 0x4800_0000,
            !is_vertical ==> cells.0 <= 0x1000_0000 && cells.2 >= -0x20_0000,
            0 <= input.gap <= 0x1_0000,
            rects@.len() == i,
            forall|k: int| 0 <= k < i ==> #[trigger] rects@[k] == auto_cell(gcells, input.pip_edge, input.gap as int, k),
        decreases count - i,
    {
        let r = cell_rect(cells, is_vertical, input.gap as i64, i as i64, count as i64);
        rects.push(r);
        i = i + 1;
    }
    let first = rects[0];
    let last = rects[count - 1];
    let (x, y, w, h) = cells;
    let g = input.gap as i64;
    let c = count as i64;
    assert(-64 * 0x20_0000 <= (c - 1) * (w + g) <= 64 * 0x101_0000) by (nonlinear_arith)
        requires
            1 <= c <= 64,
            -0x20_0000 <= w + g <= 0x101_0000,
    ;
    assert(-64 * 0x101_0000 <= (c - 1) * (h + g) <= 64 * 0x101_0000) by (nonlinear_arith)
        requires
            1 <= c <= 64,
            -0x100_0000 <= h + g <= 0x101_0000,
    ;
    let strip_width = if is_vertical { w as i32 } else { ((c - 1) * (w + g) + w) as i32 };
    let strip_height = if is_vertical { ((c - 1) * (h + g) + h) as i32 } else { h as i32 };
    proof {
        let lastc = auto_cell(gcells, input.pip_edge, input.gap as int, count - 1);
        let firstc = auto_cell(gcells, input.pip_edge, input.gap as int, 0);
        assert(rects@[0] == firstc);
        assert(rects@[count - 1] == lastc);
    }
    let positions = input.custom_positions;
    let ghost autos = rects@;
    let mut j: usize = 0;
    proof {
        assert(positions@.take(0) =~= Seq::<PipPosition>::empty());
    }
    while j < positions.len()
        invariant
            layout_ok(*input),
            positions == input.custom_positions,
            count == input.pip_count,
            j <= positions@.len(),
            rects@.len() == count,
            autos.len() == count,
            forall|k: int| 0 <= k < count ==> #[trigger] rects@[k] == match configured_slot(positions@.take(j as int), k) {
                Some(p) => position_rect(p),
                None => autos[k],
            },
        decreases positions@.len() - j,
    {
        let p = positions[j];
        proof {
            assert(positions@.take(j + 1).drop_last() =~= positions@.take(j as int));
            assert(positions@.take(j + 1).last() == p);
        }
        if p.slot < rects.len() {
            rects.set(p.slot, position_to_rect(p));
        }
        j = j + 1;
    }
    proof {
        assert(positions@.take(positions@.len() as int) =~= positions@);
    }
    LayoutPlan { rects, strip_width, strip_height }
}


/// Custom window positions replace cells but never change the strip's
/// metrics: two layouts that differ only in their custom positions have the
/// same strip width and height.
pub proof fn law_custom_positions_keep_strip_metrics(
    first: LayoutPlan,
    first_input: LayoutInput,
    second: LayoutPlan,
    second_input: LayoutInput,
)
    requires
        plan_matches(first, first_input),
        plan_matches(second, second_input),
        first_input.scale == second_input.scale,
        first_input.monitor_rect == second_input.monitor_rect,
        first_input.pip_count == second_input.pip_count,
        first_input.pip_edge == second_input.pip_edge,
        first_input.custom_strip_width == second_input.custom_strip_width,
        first_input.gap == second_input.gap,
        first_input.border == second_input.border,
    ensures
        first.strip_width == second.strip_width,
        first.strip_height == second.strip_height,
{
}

/// The automatic strip is anchored to the selected edge: every window
/// without a custom position touches that monitor edge.
pub proof fn law_strip_anchored_to_edge(plan: LayoutPlan, input: LayoutInput, i: int)
    requires
        layout_ok(input),
        plan_matches(plan, input),
        0 <= i < input.pip_count,
        configured_slot(input.custom_positions@, i) is None,
    ensures
        input.pip_edge == PipEdge::Right ==> plan.rects@[i].right == input.monitor_rect.right,
        input.pip_edge == PipEdge::Left ==> plan.rects@[i].left == input.monitor_rect.left,
        input.pip_edge == PipEdge::Top ==> plan.rects@[i].top == input.monitor_rect.top,
        input.pip_edge == PipEdge::Bottom ==> plan.rects@[i].bottom == input.monitor_rect.bottom,
{
    assert(plan.rects@[i] == auto_cell(
        strip_cells(
            input.scale,
            input.monitor_rect,
            input.pip_count as int,
            input.pip_edge,
            input.custom_strip_width,
            input.gap as int,
            input.border as int,
        )->0,
        input.pip_edge,
        input.gap as int,
        i,
    ));
}


/// A 16:9 thumbnail height survives the round trip through its width.
proof fn lemma_aspect_round_trip(t: int)
    requires
        t >= 0,
    ensures
        round_ratio(round_ratio(t * 16, 9) * 9, 16) == t,
{
    let a = round_ratio(t * 16, 9);
    assert(a == (32 * t + 9) / 18);
    assert(18 * a <= 32 * t + 9 && 32 * t + 9 < 18 * a + 18) by (nonlinear_arith)
        requires
            a == (32 * t + 9) / 18,
            t >= 0,
    ;
    assert(a >= 0);
    assert(round_ratio(a * 9, 16) == (18 * a + 16) / 32);
    assert((18 * a + 16) / 32 == t) by (nonlinear_arith)
        requires
            18 * a <= 32 * t + 9,
            32 * t + 9 < 18 * a + 18,
    ;
}

/// An automatic strip along a side edge fits the monitor's height: where
/// the share of the height per window (less the gaps and the borders) is at
/// least the smallest thumbnail, the stacked cells and their gaps are no
/// taller than the monitor, and the last window, where no configured
/// position moves it, ends above the monitor's bottom.
pub proof fn law_automatic_side_strip_fits(plan: LayoutPlan, input: LayoutInput)
    requires
        layout_ok(input),
        plan_matches(plan, input),
        input.pip_count > 0,
        input.pip_edge == PipEdge::Right || input.pip_edge == PipEdge::Left,
        input.custom_strip_width is None,
        (input.monitor_rect.bottom - input.monitor_rect.top - (input.pip_count - 1) * input.gap) / (
        input.pip_count as int) - 2 * input.border >= input.scale.spec_pixels(40),
    ensures
        plan.strip_height <= input.monitor_rect.bottom - input.monitor_rect.top,
        configured_slot(input.custom_positions@, input.pip_count - 1) is None ==> plan.rects@[input.pip_count
            - 1].bottom <= input.monitor_rect.bottom,
{
    let n = input.pip_count as int;
    let mon = input.monitor_rect;
    let mh = mon.bottom - mon.top;
    let gap = input.gap as int;
    let b = input.border as int;
    let gaps = (n - 1) * gap;
    let q = (mh - gaps) / n;
    let lo = input.scale.spec_pixels(40);
    assert(lo >= 0);
    assert(mh - gaps >= 0) by {
        if mh - gaps < 0 {
            assert((mh - gaps) / n < 0) by (nonlinear_arith)
                requires
                    mh - gaps < 0,
                    n > 0,
            ;
        }
    }
    assert(imax(n - 1, 0) == n - 1);
    assert(div_trunc(mh - imax(n - 1, 0) * gap, n) == q);
    assert(n * q <= mh - gaps) by (nonlinear_arith)
        requires
            q == (mh - gaps) / n,
            n > 0,
            mh - gaps >= 0,
    ;
    let cells = strip_cells(input.scale, mon, n, input.pip_edge, input.custom_strip_width, gap, b)->0;
    let mw = mon.right - mon.left;
    let auto_max_th = round_ratio((max_thickness(mw) - 2 * b) * 9, 16);
    let auto_th = iclamp(q - 2 * b, lo, auto_max_th);
    assert(lo <= auto_max_th);
    assert(lo <= auto_th <= q - 2 * b);
    lemma_aspect_round_trip(auto_th);
    let h = cells.3;
    assert(h == auto_th + 2 * b);
    assert(h <= q);
    assert(h >= 0);
    assert(n * h <= n * q) by (nonlinear_arith)
        requires
            h <= q,
            n > 0,
    ;
    assert((n - 1) * (h + gap) + h == n * h + gaps) by (nonlinear_arith)
        requires
            gaps == (n - 1) * gap,
    ;
    let y = mon.top as int;
    assert(cells.1 == y);
    let bottom = y + (n - 1) * (h + gap) + h;
    assert(y <= bottom <= mon.bottom);
    let first = auto_cell(cells, input.pip_edge, gap, 0);
    let last = auto_cell(cells, input.pip_edge, gap, n - 1);
    assert(first.top == y);
    assert(last.bottom == bottom);
    if configured_slot(input.custom_positions@, n - 1) is None {
        assert(plan.rects@[n - 1] == last);
    }
}


/// `a` and `b` lie at least `margin` apart.
pub open spec fn apart(a: int, b: int, margin: int) -> bool {
    a - b >= margin || b - a >= margin
}

proof fn lemma_grid_rounding(v: int, g: int)
    requires
        g > 0,
    ensures
        (round_ratio(v, g) * g) % g == 0,
        -g <= 2 * (round_ratio(v, g) * g - v) <= g,
{
    vstd::arithmetic::div_mod::lemma_mod_multiples_basic(round_ratio(v, g), g);
    if v >= 0 {
        let q = (2 * v + g) / (2 * g);
        assert(round_ratio(v, g) == q);
        assert(-g <= 2 * (q * g - v) <= g) by (nonlinear_arith)
            requires
                q == (2 * v + g) / (2 * g),
                g > 0,
                v >= 0,
        ;
    } else {
        let q = (2 * (-v) + g) / (2 * g);
        assert(round_ratio(v, g) == -q);
        assert(-g <= 2 * (q * g + v) <= g) by (nonlinear_arith)
            requires
                q == (2 * (-v) + g) / (2 * g),
                g > 0,
                v < 0,
        ;
        assert((-q) * g == -(q * g)) by (nonlinear_arith);
    }
}

proof fn lemma_snap_x_through_keeps(p: int, w: int, others: Seq<Rect>)
    requires
        forall|i: int| 0 <= i < others.len() ==> {
            let o = #[trigger] others[i];
            !near(p, o.left as int) && !near(p, o.right as int) && !near(p + w, o.left as int) && !near(p + w, o.right as int)
        },
    ensures
        snap_x_through(p, w, others) == p,
    decreases others.len(),
{
    if others.len() > 0 {
        let rest = others.drop_last();
        assert forall|i: int| 0 <= i < rest.len() implies {
            let o = #[trigger] rest[i];
            !near(p, o.left as int) && !near(p, o.right as int) && !near(p + w, o.left as int) && !near(p + w, o.right as int)
        } by {
            assert(rest[i] == others[i]);
        }
        lemma_snap_x_through_keeps(p, w, rest);
        assert(others.last() == others[others.len() - 1]);
    }
}

proof fn lemma_snap_y_through_keeps(p: int, h: int, others: Seq<Rect>)
    requires
        forall|i: int| 0 <= i < others.len() ==> {
            let o = #[trigger] others[i];
            !near(p, o.top as int) && !near(p, o.bottom as int) && !near(p + h, o.top as int) && !near(p + h, o.bottom as int)
        },
    ensures
        snap_y_through(p, h, others) == p,
    decreases others.len(),
{
    if others.len() > 0 {
        let rest = others.drop_last();
        assert forall|i: int| 0 <= i < rest.len() implies {
            let o = #[trigger] rest[i];
            !near(p, o.top as int) && !near(p, o.bottom as int) && !near(p + h, o.top as int) && !near(p + h, o.bottom as int)
        } by {
            assert(rest[i] == others[i]);
        }
        lemma_snap_y_through_keeps(p, h, rest);
        assert(others.last() == others[others.len() - 1]);
    }
}

/// Away from every edge it could snap to, a moved window lands on the grid:
/// without bypass and with a positive grid, where the monitor's and the
/// other windows' edges all lie more than the snapping distance plus a
/// grid step from the window's sides, each coordinate of the result is a
/// multiple of the grid at most half a grid step from the requested one.
pub proof fn law_moves_land_on_the_nearest_grid_point(input: MoveSnapInput, others: Seq<Rect>)
    requires
        input.valid(),
        !input.bypass,
        input.grid > 0,
        apart(input.x as int, input.monitor.left as int, 12 + input.grid),
        apart(input.x + input.width, input.monitor.right as int, 12 + input.grid),
        apart(input.y as int, input.monitor.top as int, 12 + input.grid),
        apart(input.y + input.height, input.monitor.bottom as int, 12 + input.grid),
        forall|i: int| 0 <= i < others.len() ==> {
            let o = #[trigger] others[i];
            &&& apart(input.x as int, o.left as int, 12 + input.grid)
            &&& apart(input.x as int, o.right as int, 12 + input.grid)
            &&& apart(input.x + input.width, o.left as int, 12 + input.grid)
            &&& apart(input.x + input.width, o.right as int, 12 + input.grid)
            &&& apart(input.y as int, o.top as int, 12 + input.grid)
            &&& apart(input.y as int, o.bottom as int, 12 + input.grid)
            &&& apart(input.y + input.height, o.top as int, 12 + input.grid)
            &&& apart(input.y + input.height, o.bottom as int, 12 + input.grid)
        },
    ensures
        spec_snap_point(input, others).0 % (input.grid as int) == 0,
        -input.grid <= 2 * (spec_snap_point(input, others).0 - input.x) <= input.grid,
        spec_snap_point(input, others).1 % (input.grid as int) == 0,
        -input.grid <= 2 * (spec_snap_point(input, others).1 - input.y) <= input.grid,
{
    let g = input.grid as int;
    let x = input.x as int;
    let y = input.y as int;
    lemma_grid_rounding(x, g);
    lemma_grid_rounding(y, g);
    let gx = round_ratio(x, g) * g;
    let gy = round_ratio(y, g) * g;
    assert(grid_snap(x, g) == gx);
    assert(grid_snap(y, g) == gy);
    let w = input.width as int;
    let h = input.height as int;
    assert(snap_to_edges(gx, w, input.monitor.left as int, input.monitor.right as int) == gx);
    assert(snap_to_edges(gy, h, input.monitor.top as int, input.monitor.bottom as int) == gy);
    lemma_snap_x_through_keeps(gx, w, others);
    lemma_snap_y_through_keeps(gy, h, others);
}


proof fn lemma_quarter_rounding(n: int)
    ensures
        -8 <= 16 * round_ratio(n, 16) - n <= 8,
{
    if n >= 0 {
        let q = (2 * n + 16) / 32;
        assert(-8 <= 16 * q - n <= 8) by (nonlinear_arith)
            requires
                q == (2 * n + 16) / 32,
                n >= 0,
        ;
    } else {
        let q = (2 * (-n) + 16) / 32;
        assert(-8 <= 16 * q + n <= 8) by (nonlinear_arith)
            requires
                q == (2 * (-n) + 16) / 32,
                n < 0,
        ;
    }
}

proof fn lemma_grid_snap_near(v: int, g: int)
    ensures
        g > 0 ==> -g <= 2 * (grid_snap(v, g) - v) <= g,
        g <= 0 ==> grid_snap(v, g) == v,
{
    if g > 0 {
        lemma_grid_rounding(v, g);
    }
}

/// A resize moves only the dragged side: a drag on a top corner or the top
/// edge keeps the bottom edge where it was, any other drag keeps the top
/// edge; a drag on a right corner, the right edge, or the top or bottom
/// edge keeps the left edge, and a drag on a left corner or the left edge
/// keeps the right edge. A drag on a side or corner leaves the window at
/// least the minimum width, its thumbnail (inside the border) at 16:9 to
/// within the rounding of one pixel of height.
pub proof fn law_resize_moves_only_the_dragged_side(
    edge: ResizeEdge,
    start: Rect,
    dx: int,
    dy: int,
    grid: int,
    border: int,
    bypass: bool,
)
    requires
        screen_rect_ok(start),
        screen_ok(dx),
        screen_ok(dy),
        grid <= 0x100_0000,
        0 <= border <= 0x1_0000,
    ensures
        ({
            let r = spec_snap_resize(edge, start, dx, dy, grid, border, bypass);
            &&& (edge == ResizeEdge::N || edge == ResizeEdge::NE || edge == ResizeEdge::NW) ==> r.bottom == start.bottom
            &&& !(edge == ResizeEdge::N || edge == ResizeEdge::NE || edge == ResizeEdge::NW) ==> r.top == start.top
            &&& (edge == ResizeEdge::E || edge == ResizeEdge::NE || edge == ResizeEdge::SE || edge == ResizeEdge::N
                || edge == ResizeEdge::S) ==> r.left == start.left
            &&& (edge == ResizeEdge::W || edge == ResizeEdge::NW || edge == ResizeEdge::SW) ==> r.right == start.right
            &&& (edge != ResizeEdge::N && edge != ResizeEdge::S) ==> {
                &&& r.right - r.left >= MIN_RESIZE_WIDTH
                &&& -8 <= 16 * (r.bottom - r.top - 2 * border) - 9 * (r.right - r.left - 2 * border) <= 8
            }
        }),
{
    let snap = !bypass && grid > 0;
    let r0 = if moves_right(edge) { start.right + dx } else { start.right as int };
    let l0 = if moves_left(edge) { start.left + dx } else { start.left as int };
    let b0 = if moves_bottom(edge) { start.bottom + dy } else { start.bottom as int };
    let t0 = if moves_top(edge) { start.top + dy } else { start.top as int };
    lemma_grid_snap_near(r0, grid);
    lemma_grid_snap_near(l0, grid);
    lemma_grid_snap_near(t0, grid);
    lemma_grid_snap_near(b0, grid);
    let r1 = if snap && moves_right(edge) { grid_snap(r0, grid) } else { r0 };
    let l1 = if snap && moves_left(edge) { grid_snap(l0, grid) } else { l0 };
    let narrow = r1 - l1 < MIN_RESIZE_WIDTH;
    let l2 = if narrow && moves_left(edge) { r1 - MIN_RESIZE_WIDTH } else { l1 };
    let r2 = if narrow && !moves_left(edge) { l1 + MIN_RESIZE_WIDTH } else { r1 };
    assert(-0x400_0000 <= l2 <= 0x400_0000 && -0x400_0000 <= r2 <= 0x400_0000);
    if edge != ResizeEdge::N && edge != ResizeEdge::S {
        let w = r2 - l2;
        assert(w >= MIN_RESIZE_WIDTH);
        let n = (w - 2 * border) * 9;
        lemma_quarter_rounding(n);
        let h = spec_aspect_height(w, border);
        assert(h == round_ratio(n, 16) + 2 * border);
        assert(-0x800_0000 <= h <= 0x800_0000);
    }
}

} // verus!
