//! Placement of the damage-per-second panel: clamping it to the work area,
//! moving and widening it by hand, and its duration captions.

use vstd::prelude::*;
use vstd::string::StringExecFns;
use crate::geometry::{Rect, Scale, iclamp, imax, imin};
use crate::layout::{screen_ok, screen_rect_ok};
use crate::text::{decimal, digit_char, digit_str, eq_ignore_ascii_case, eq_ignore_case, push_decimal};

verus! {

pub const DEFAULT_OFFSET_DIP: i32 = 24;
pub const RESIZE_ZONE_DIP: i32 = 10;

/// `m:ss`: whole minutes, then two-digit seconds.
pub open spec fn spec_format_duration(seconds: nat) -> Seq<char> {
    let s = seconds % 60;
    decimal(seconds / 60) + seq![':', digit_char((s / 10) as int), digit_char((s % 10) as int)]
}

pub fn format_duration(seconds: u64) -> (s: String)
    ensures
        s@ == spec_format_duration(seconds as nat),
{
    let mut out = String::new();
    push_decimal(&mut out, seconds / 60);
    proof {
        reveal_strlit(":");
    }
    out.append(":");
    let rest = seconds % 60;
    out.append(digit_str(rest / 10));
    out.append(digit_str(rest % 10));
    proof {
        assert(out@ =~= spec_format_duration(seconds as nat));
    }
    out
}

/// A rectangle's width, or zero when inverted.
pub fn monitor_width(r: Rect) -> (w: i32)
    requires
        r.in_range(),
    ensures
        w == imax(r.spec_width(), 0),
{
    if r.right >= r.left { r.right - r.left } else { 0 }
}

pub fn monitor_height(r: Rect) -> (h: i32)
    requires
        r.in_range(),
    ensures
        h == imax(r.spec_height(), 0),
{
    if r.bottom >= r.top { r.bottom - r.top } else { 0 }
}

pub fn same_rect(left: Rect, right: Rect) -> (b: bool)
    ensures
        b == (left == right),
{
    left.left == right.left && left.top == right.top && left.right == right.right && left.bottom == right.bottom
}

/// The panel kept wholly inside the work area: at least `minimum_width`
/// wide (or the whole work width if narrower), no wider or taller than the
/// work area, at least one pixel tall, and moved inside it.
pub open spec fn spec_clamp_panel(r: Rect, work: Rect, minimum_width: int) -> Rect {
    let ww = imax(imax(work.spec_width(), 0), 1);
    let wh = imax(imax(work.spec_height(), 0), 1);
    let width = iclamp(imax(r.spec_width(), 0), imin(minimum_width, ww), ww);
    let height = imax(imin(imax(r.spec_height(), 0), wh), 1);
    let left = iclamp(r.left as int, work.left as int, work.right - width);
    let top = iclamp(r.top as int, work.top as int, work.bottom - height);
    Rect { left: left as i32, top: top as i32, right: (left + width) as i32, bottom: (top + height) as i32 }
}

pub fn clamp_rect(r: Rect, work: Rect, minimum_width: i32) -> (c: Rect)
    requires
        r.in_range(),
        screen_rect_ok(work),
        work.left < work.right,
        work.top < work.bottom,
    ensures
        c == spec_clamp_panel(r, work, minimum_width as int),
        c.within(work),
{
    let ww = monitor_width(work);
    let wh = monitor_height(work);
    let lo = if minimum_width <= ww { minimum_width } else { ww };
    let w0 = monitor_width(r);
    let width = if w0 < lo { lo } else if w0 > ww { ww } else { w0 };
    let h0 = monitor_height(r);
    let h1 = if h0 <= wh { h0 } else { wh };
    let height = if h1 >= 1 { h1 } else { 1 };
    let hi_x = work.right - width;
    let hi_y = work.bottom - height;
    let left = if r.left < work.left { work.left } else if r.left > hi_x { hi_x } else { r.left };
    let top = if r.top < work.top { work.top } else if r.top > hi_y { hi_y } else { r.top };
    Rect { left, top, right: left + width, bottom: top + height }
}

/// What a press on the panel in edit mode starts.
#[derive(Clone, Copy, Debug, PartialEq, Eq, Structural)]
pub enum DragKind {
    Move,
    ResizeRight,
}

/// A press within the scaled zone at the right edge resizes; elsewhere it
/// moves.
pub fn drag_kind(point_x: i32, panel: Rect, scale: Scale) -> (k: DragKind)
    requires
        screen_rect_ok(panel),
    ensures
        k == (if point_x >= imax(panel.spec_width(), 0) - imax(scale.spec_pixels(RESIZE_ZONE_DIP as int), 4) {
            DragKind::ResizeRight
        } else {
            DragKind::Move
        }),
{
    let p = scale.pixels(RESIZE_ZONE_DIP);
    let zone: i64 = if p >= 4 { p as i64 } else { 4 };
    if point_x as i64 >= monitor_width(panel) as i64 - zone {
        DragKind::ResizeRight
    } else {
        DragKind::Move
    }
}

/// The panel dragged by `(dx, dy)`: moved as a whole, or widened at its
/// right edge.
pub fn dragged_rect(kind: DragKind, start: Rect, dx: i32, dy: i32) -> (r: Rect)
    requires
        screen_rect_ok(start),
        screen_ok(dx as int),
        screen_ok(dy as int),
    ensures
        kind == DragKind::Move ==> r == (Rect {
            left: (start.left + dx) as i32,
            top: (start.top + dy) as i32,
            right: (start.right + dx) as i32,
            bottom: (start.bottom + dy) as i32,
        }),
        kind == DragKind::ResizeRight ==> r == (Rect { right: (start.right + dx) as i32, ..start }),
{
    match kind {
        DragKind::Move => start.offset(dx, dy),
        DragKind::ResizeRight => Rect { left: start.left, top: start.top, right: start.right + dx, bottom: start.bottom },
    }
}


/// The panel's saved placement, in logical pixels from the work area's
/// top-left corner.
#[derive(Clone, Copy, Debug, PartialEq, Eq, Structural)]
pub struct DpsPlacement {
    pub x_dip: i32,
    pub y_dip: i32,
    pub width_dip: u32,
}

/// Where the panel starts: at its saved placement (by default 24 logical
/// pixels in from the corner, at the default width), at least the minimum
/// width, one pixel tall until its rows are known.
pub open spec fn spec_restored_rect(
    placement: Option<DpsPlacement>,
    monitor: Rect,
    scale: Scale,
    default_width_dip: u32,
    min_width_dip: u32,
) -> Rect {
    let p = match placement {
        Some(p) => p,
        None => DpsPlacement { x_dip: DEFAULT_OFFSET_DIP, y_dip: DEFAULT_OFFSET_DIP, width_dip: default_width_dip },
    };
    let width_dip = (if p.width_dip >= min_width_dip { p.width_dip } else { min_width_dip }) as i32;
    let left = monitor.left + scale.spec_pixels(p.x_dip as int);
    let top = monitor.top + scale.spec_pixels(p.y_dip as int);
    Rect {
        left: left as i32,
        top: top as i32,
        right: (left + scale.spec_pixels(width_dip as int)) as i32,
        bottom: (top + 1) as i32,
    }
}

pub fn restored_rect(
    placement: Option<DpsPlacement>,
    monitor: Rect,
    scale: Scale,
    default_width_dip: u32,
    min_width_dip: u32,
) -> (r: Rect)
    requires
        ({
            let p = match placement {
                Some(p) => p,
                None => DpsPlacement {
                    x_dip: DEFAULT_OFFSET_DIP,
                    y_dip: DEFAULT_OFFSET_DIP,
                    width_dip: default_width_dip,
                },
            };
            let width_dip = (if p.width_dip >= min_width_dip { p.width_dip } else { min_width_dip }) as i32;
            let left = monitor.left + scale.spec_pixels(p.x_dip as int);
            let top = monitor.top + scale.spec_pixels(p.y_dip as int);
            &&& i32::MIN <= left && left + scale.spec_pixels(width_dip as int) <= i32::MAX
            &&& left <= i32::MAX && left + scale.spec_pixels(width_dip as int) >= i32::MIN
            &&& i32::MIN <= top && top + 1 <= i32::MAX
        }),
    ensures
        r == spec_restored_rect(placement, monitor, scale, default_width_dip, min_width_dip),
{
    let p = match placement {
        Some(p) => p,
        None => DpsPlacement { x_dip: DEFAULT_OFFSET_DIP, y_dip: DEFAULT_OFFSET_DIP, width_dip: default_width_dip },
    };
    let width_dip = (if p.width_dip >= min_width_dip { p.width_dip } else { min_width_dip }) as i32;
    let left = monitor.left + scale.pixels(p.x_dip);
    let top = monitor.top + scale.pixels(p.y_dip);
    Rect { left, top, right: left + scale.pixels(width_dip), bottom: top + 1 }
}

/// The panel at the height of its rows, kept inside the work area.
pub fn panel_rect(r: Rect, work: Rect, content_height: i32, minimum_width: i32) -> (c: Rect)
    requires
        screen_rect_ok(r),
        screen_rect_ok(work),
        work.left < work.right,
        work.top < work.bottom,
        0 <= content_height <= 0x100_0000,
    ensures
        c == spec_clamp_panel(Rect { bottom: (r.top + content_height) as i32, ..r }, work, minimum_width as int),
        c.within(work),
{
    let sized = Rect { left: r.left, top: r.top, right: r.right, bottom: r.top + content_height };
    clamp_rect(sized, work, minimum_width)
}

/// The panel's caption for a participant: pets' damage included, or a
/// provisional pet, is marked.
pub open spec fn row_caption(name: Seq<char>, has_pet_damage: bool, provisional_pet: bool) -> Seq<char> {
    if has_pet_damage {
        name + " +Pets"@
    } else if provisional_pet {
        name + " (Pet)"@
    } else {
        name
    }
}

pub fn dps_row_caption(name: &str, has_pet_damage: bool, provisional_pet: bool) -> (s: String)
    ensures
        s@ == row_caption(name@, has_pet_damage, provisional_pet),
{
    let mut s = String::from_str(name);
    if has_pet_damage {
        s.append(" +Pets");
    } else if provisional_pet {
        s.append(" (Pet)");
    }
    s
}

/// What the panel shows: an encounter, a preview of made-up rows while the
/// layout is edited without one, or nothing.
#[derive(Clone, Copy, Debug, PartialEq, Eq, Structural)]
pub enum PanelContent {
    Encounter,
    Preview,
    Hidden,
}

pub fn panel_content(has_encounter: bool, edit_mode: bool) -> (c: PanelContent)
    ensures
        c == (if has_encounter {
            PanelContent::Encounter
        } else if edit_mode {
            PanelContent::Preview
        } else {
            PanelContent::Hidden
        }),
{
    if has_encounter {
        PanelContent::Encounter
    } else if edit_mode {
        PanelContent::Preview
    } else {
        PanelContent::Hidden
    }
}

/// The panel lets clicks through except while the layout is edited.
pub const WS_EX_TRANSPARENT: u32 = 0x0000_0020;

pub fn edit_mode_ex_style(current: u32, edit_mode: bool) -> (s: u32)
    ensures
        s == (if edit_mode { current & !WS_EX_TRANSPARENT } else { current | WS_EX_TRANSPARENT }),
{
    if edit_mode {
        current & !WS_EX_TRANSPARENT
    } else {
        current | WS_EX_TRANSPARENT
    }
}

/// Whether the cursor shows the resize shape: only in edit mode, within the
/// scaled zone at the panel's right edge.
pub fn resize_cursor_at(edit_mode: bool, point_x: i32, client_right: i32, scale: Scale) -> (b: bool)
    ensures
        b == (edit_mode && point_x >= client_right - scale.spec_pixels(RESIZE_ZONE_DIP as int)),
{
    edit_mode && point_x as i64 >= client_right as i64 - scale.pixels(RESIZE_ZONE_DIP) as i64
}

/// A participant row belongs to the active client when its server and
/// character match the client's identity (ignoring ASCII case).
pub fn row_is_active_client(
    row_server: &str,
    row_character: &str,
    active_server: Option<&str>,
    active_character: Option<&str>,
) -> (b: bool)
    ensures
        b == (active_server is Some && active_character is Some && eq_ignore_case(row_server@, active_server.unwrap()@)
            && eq_ignore_case(row_character@, active_character.unwrap()@)),
{
    match (active_server, active_character) {
        (Some(server), Some(character)) => eq_ignore_ascii_case(row_server, server) && eq_ignore_ascii_case(
            row_character,
            character,
        ),
        _ => false,
    }
}


/// The panel's controller state that survives between reconciliations.
#[derive(Debug)]
pub struct DpsPanelState {
    pub enabled: bool,
    pub top_rows: u8,
    pub placement: Option<DpsPlacement>,
    /// Where the panel is while the overlay runs (reset when the monitor or
    /// the saved placement changes).
    pub runtime_rect: Option<Rect>,
    pub last_monitor: Rect,
}

impl DpsPanelState {
    pub fn new(enabled: bool, top_rows: u8, placement: Option<DpsPlacement>) -> (s: DpsPanelState)
        ensures
            s.enabled == enabled,
            s.top_rows == top_rows,
            s.placement == placement,
            s.runtime_rect is None,
            s.last_monitor == (Rect { left: 0, top: 0, right: 0, bottom: 0 }),
    {
        DpsPanelState { enabled, top_rows, placement, runtime_rect: None, last_monitor: Rect { left: 0, top: 0, right: 0, bottom: 0 } }
    }

    /// Take a new configuration: a different saved placement replaces the
    /// panel's runtime position.
    pub fn apply_config(&mut self, enabled: bool, top_rows: u8, placement: Option<DpsPlacement>)
        ensures
            final(self).enabled == enabled,
            final(self).top_rows == top_rows,
            final(self).placement == placement,
            final(self).runtime_rect == (if old(self).placement != placement {
                None
            } else {
                old(self).runtime_rect
            }),
            final(self).last_monitor == old(self).last_monitor,
    {
        self.enabled = enabled;
        self.top_rows = top_rows;
        let changed = match (self.placement, placement) {
            (Some(a), Some(b)) => a != b,
            (None, None) => false,
            _ => true,
        };
        if changed {
            self.placement = placement;
            self.runtime_rect = None;
        }
    }

    /// Follow the work area: on another monitor the panel returns to its
    /// saved placement.
    pub fn observe_monitor(&mut self, monitor: Rect)
        ensures
            final(self).last_monitor == monitor,
            final(self).runtime_rect == (if old(self).last_monitor != monitor {
                None
            } else {
                old(self).runtime_rect
            }),
            final(self).placement == old(self).placement,
            final(self).enabled == old(self).enabled,
            final(self).top_rows == old(self).top_rows,
    {
        if !same_rect(self.last_monitor, monitor) {
            self.last_monitor = monitor;
            self.runtime_rect = None;
        }
    }
}

} // verus!
