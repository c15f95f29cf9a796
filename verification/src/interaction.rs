//! Transient pointer gestures: moving, resizing and reordering windows, and
//! the pending context menu.

use vstd::prelude::*;
use crate::geometry::{Point, Rect};
use crate::layout::ResizeEdge;

verus! {

#[derive(Clone, Copy, Debug, PartialEq, Eq, Structural)]
pub struct MoveDragState {
    pub pip_index: usize,
    pub start_cursor: Point,
    pub start_rect: Rect,
}

#[derive(Clone, Copy, Debug, PartialEq, Eq, Structural)]
pub struct PipResizeDragState {
    pub pip_index: usize,
    pub edge: ResizeEdge,
    pub start_cursor: Point,
    pub start_rect: Rect,
}

#[derive(Clone, Copy, Debug, PartialEq, Eq, Structural)]
pub struct StripResizeDragState {
    pub start_pt: Point,
    pub start_size: i32,
}

/// A press on a window that becomes a reorder drag once it moves far
/// enough (`dragging`).
#[derive(Clone, Copy, Debug, PartialEq, Eq, Structural)]
pub struct ReorderDragState {
    pub from_index: usize,
    pub start_pt: Point,
    pub dragging: bool,
}

/// A context menu requested for a client at a screen point.
#[derive(Clone, Copy, Debug, PartialEq, Eq, Structural)]
pub struct ContextMenuRequest {
    pub target_pid: u32,
    pub screen_point: Point,
    pub source_hwnd: usize,
}

/// What a cancelled reorder leaves to repaint: the dimmed source window (if
/// the press had become a drag) and the previous drop target.
#[derive(Clone, Copy, Debug, PartialEq, Eq, Structural)]
pub struct ReorderCancellation {
    pub dimmed_source: Option<usize>,
    pub old_target: Option<usize>,
}

/// Cancel a reorder: clear the drag and the drop target together and
/// report what they were.
pub fn take_reorder_cancellation(
    reorder_drag: &mut Option<ReorderDragState>,
    drop_target: &mut Option<usize>,
) -> (c: ReorderCancellation)
    ensures
        *final(reorder_drag) is None,
        *final(drop_target) is None,
        c.old_target == *old(drop_target),
        c.dimmed_source == match *old(reorder_drag) {
            Some(d) => if d.dragging { Some(d.from_index) } else { None },
            None => None,
        },
{
    let drag = reorder_drag.take();
    let dimmed_source = match drag {
        Some(d) => if d.dragging { Some(d.from_index) } else { None },
        None => None,
    };
    ReorderCancellation { dimmed_source, old_target: drop_target.take() }
}

/// Transient user interaction state, kept together so that rendering,
/// client identity and menus do not each grow their own gesture flags.
#[derive(Debug)]
pub struct InteractionState {
    pub pending_context_menu: Option<ContextMenuRequest>,
    pub context_menu_target_pid: Option<u32>,
    pub context_menu_open: bool,
    pub edit_mode: bool,
    pub move_drag: Option<MoveDragState>,
    pub pip_resize_drag: Option<PipResizeDragState>,
    pub strip_resize_drag: Option<StripResizeDragState>,
    pub reorder_drag: Option<ReorderDragState>,
    pub drop_target: Option<usize>,
}

impl InteractionState {
    /// No gesture, no menu, not editing.
    pub fn new() -> (s: InteractionState)
        ensures
            s.pending_context_menu is None,
            s.context_menu_target_pid is None,
            !s.context_menu_open,
            !s.edit_mode,
            s.move_drag is None,
            s.pip_resize_drag is None,
            s.strip_resize_drag is None,
            s.reorder_drag is None,
            s.drop_target is None,
    {
        InteractionState {
            pending_context_menu: None,
            context_menu_target_pid: None,
            context_menu_open: false,
            edit_mode: false,
            move_drag: None,
            pip_resize_drag: None,
            strip_resize_drag: None,
            reorder_drag: None,
            drop_target: None,
        }
    }

    /// Cancel the reorder gesture of this state.
    pub fn cancel_reorder(&mut self) -> (c: ReorderCancellation)
        ensures
            final(self).reorder_drag is None,
            final(self).drop_target is None,
            c.old_target == old(self).drop_target,
            c.dimmed_source == match old(self).reorder_drag {
                Some(d) => if d.dragging { Some(d.from_index) } else { None },
                None => None,
            },
            final(self).edit_mode == old(self).edit_mode,
            final(self).move_drag == old(self).move_drag,
            final(self).pip_resize_drag == old(self).pip_resize_drag,
            final(self).strip_resize_drag == old(self).strip_resize_drag,
            final(self).pending_context_menu == old(self).pending_context_menu,
            final(self).context_menu_open == old(self).context_menu_open,
            final(self).context_menu_target_pid == old(self).context_menu_target_pid,
    {
        take_reorder_cancellation(&mut self.reorder_drag, &mut self.drop_target)
    }
}

} // verus!
