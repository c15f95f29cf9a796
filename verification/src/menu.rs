//! The PiP context menu: which items it offers, what a chosen command means,
//! and what the commands that edit clients and layout change.

use vstd::prelude::*;
use vstd::string::StringExecFns;
use crate::clients::{ClientRegistry, EqWindow, pids_of, renumbered, with_number};
use crate::geometry::Rect;
use crate::interaction::{ContextMenuRequest, InteractionState};
use crate::layout::{LayoutState, PipEdge, PipPosition};

verus! {

pub const IDM_CHAR_BASE: u32 = 5000;
pub const IDM_NUMBER_BASE: u32 = 6000;
pub const IDM_EDGE_BASE: u32 = 7000;
pub const IDM_HIDE_OVERLAY: u32 = 7100;
pub const IDM_EDIT_MODE: u32 = 7200;
pub const IDM_RESET_LAYOUT: u32 = 7300;
pub const IDM_BROADCAST_TOGGLE: u32 = 7400;
pub const IDM_SETTINGS: u32 = 7500;

/// A character recently played on this machine, offered for assignment.
#[derive(Clone, Debug)]
pub struct CharacterCandidate {
    pub server: String,
    pub character: String,
}

/// A chosen menu command.
#[derive(Clone, Copy, Debug, PartialEq, Eq, Structural)]
pub enum MenuCommand {
    BroadcastToggle,
    HideOverlay,
    Settings,
    EditMode,
    ResetLayout,
    Edge(PipEdge),
    /// Assign this window number to the menu's client.
    Number(usize),
    /// Assign the candidate at this position to the menu's client.
    Character(usize),
    Unknown,
}

/// The edges in menu order.
pub open spec fn edge_at(index: int) -> PipEdge {
    if index == 0 {
        PipEdge::Right
    } else if index == 1 {
        PipEdge::Left
    } else if index == 2 {
        PipEdge::Top
    } else {
        PipEdge::Bottom
    }
}

/// What a menu item identifier asks for.
pub open spec fn spec_menu_command(cmd_id: u32) -> MenuCommand {
    if cmd_id == IDM_BROADCAST_TOGGLE {
        MenuCommand::BroadcastToggle
    } else if cmd_id == IDM_HIDE_OVERLAY {
        MenuCommand::HideOverlay
    } else if cmd_id == IDM_SETTINGS {
        MenuCommand::Settings
    } else if cmd_id == IDM_EDIT_MODE {
        MenuCommand::EditMode
    } else if cmd_id == IDM_RESET_LAYOUT {
        MenuCommand::ResetLayout
    } else if IDM_EDGE_BASE <= cmd_id < IDM_EDGE_BASE + 4 {
        MenuCommand::Edge(edge_at(cmd_id - IDM_EDGE_BASE))
    } else if IDM_NUMBER_BASE <= cmd_id < IDM_NUMBER_BASE + 100 {
        MenuCommand::Number((cmd_id - IDM_NUMBER_BASE) as usize)
    } else if IDM_CHAR_BASE <= cmd_id < IDM_CHAR_BASE + 100 {
        MenuCommand::Character((cmd_id - IDM_CHAR_BASE) as usize)
    } else {
        MenuCommand::Unknown
    }
}

pub fn decode_menu_command(cmd_id: u32) -> (c: MenuCommand)
    ensures
        c == spec_menu_command(cmd_id),
{
    if cmd_id == IDM_BROADCAST_TOGGLE {
        MenuCommand::BroadcastToggle
    } else if cmd_id == IDM_HIDE_OVERLAY {
        MenuCommand::HideOverlay
    } else if cmd_id == IDM_SETTINGS {
        MenuCommand::Settings
    } else if cmd_id == IDM_EDIT_MODE {
        MenuCommand::EditMode
    } else if cmd_id == IDM_RESET_LAYOUT {
        MenuCommand::ResetLayout
    } else if IDM_EDGE_BASE <= cmd_id && cmd_id < IDM_EDGE_BASE + 4 {
        let edge = match cmd_id - IDM_EDGE_BASE {
            0 => PipEdge::Right,
            1 => PipEdge::Left,
            2 => PipEdge::Top,
            _ => PipEdge::Bottom,
        };
        MenuCommand::Edge(edge)
    } else if IDM_NUMBER_BASE <= cmd_id && cmd_id < IDM_NUMBER_BASE + 100 {
        MenuCommand::Number((cmd_id - IDM_NUMBER_BASE) as usize)
    } else if IDM_CHAR_BASE <= cmd_id && cmd_id < IDM_CHAR_BASE + 100 {
        MenuCommand::Character((cmd_id - IDM_CHAR_BASE) as usize)
    } else {
        MenuCommand::Unknown
    }
}

/// The menu item identifier of an edge.
pub fn edge_item_id(edge: PipEdge) -> (id: u32)
    ensures
        IDM_EDGE_BASE <= id < IDM_EDGE_BASE + 4,
        edge_at(id - IDM_EDGE_BASE) == edge,
{
    match edge {
        PipEdge::Right => IDM_EDGE_BASE,
        PipEdge::Left => IDM_EDGE_BASE + 1,
        PipEdge::Top => IDM_EDGE_BASE + 2,
        PipEdge::Bottom => IDM_EDGE_BASE + 3,
    }
}

/// Decoding an edge item gives back its edge; decoding a number or
/// character item gives back its value.
pub proof fn law_menu_ids_round_trip(edge: PipEdge, number: u32, index: u32)
    requires
        number < 100,
        index < 100,
    ensures
        spec_menu_command(
            match edge {
                PipEdge::Right => IDM_EDGE_BASE,
                PipEdge::Left => (IDM_EDGE_BASE + 1) as u32,
                PipEdge::Top => (IDM_EDGE_BASE + 2) as u32,
                PipEdge::Bottom => (IDM_EDGE_BASE + 3) as u32,
            },
        ) == MenuCommand::Edge(edge),
        spec_menu_command((IDM_NUMBER_BASE + number) as u32) == MenuCommand::Number(number as usize),
        spec_menu_command((IDM_CHAR_BASE + index) as u32) == MenuCommand::Character(index as usize),
{
}

/// The servers of a candidate list, each once, in order of first appearance.
pub open spec fn distinct_servers(servers: Seq<Seq<char>>) -> Seq<Seq<char>>
    decreases servers.len(),
{
    if servers.len() == 0 {
        Seq::empty()
    } else {
        let rest = distinct_servers(servers.drop_last());
        if rest.contains(servers.last()) {
            rest
        } else {
            rest.push(servers.last())
        }
    }
}

pub open spec fn candidate_server_views(candidates: Seq<CharacterCandidate>) -> Seq<Seq<char>> {
    candidates.map_values(|c: CharacterCandidate| c.server@)
}

pub open spec fn string_views(v: Seq<String>) -> Seq<Seq<char>> {
    v.map_values(|s: String| s@)
}

fn contains_text(v: &Vec<String>, s: &str) -> (b: bool)
    ensures
        b == string_views(v@).contains(s@),
{
    let mut i: usize = 0;
    while i < v.len()
        invariant
            0 <= i <= v@.len(),
            forall|k: int| 0 <= k < i ==> v@[k]@ != s@,
        decreases v@.len() - i,
    {
        if crate::text::str_eq(v[i].as_str(), s) {
            assert(string_views(v@)[i as int] == s@);
            return true;
        }
        i = i + 1;
    }
    assert(!string_views(v@).contains(s@)) by {
        if string_views(v@).contains(s@) {
            let k = choose|k: int| 0 <= k < string_views(v@).len() && string_views(v@)[k] == s@;
            assert(v@[k]@ == s@);
        }
    }
    false
}

/// The servers that group the character submenu.
pub fn candidate_servers(candidates: &[CharacterCandidate]) -> (r: Vec<String>)
    ensures
        string_views(r@) == distinct_servers(candidate_server_views(candidates@)),
{
    let ghost all = candidate_server_views(candidates@);
    let mut servers: Vec<String> = Vec::new();
    let mut i: usize = 0;
    while i < candidates.len()
        invariant
            all == candidate_server_views(candidates@),
            0 <= i <= candidates@.len(),
            string_views(servers@) == distinct_servers(all.take(i as int)),
        decreases candidates@.len() - i,
    {
        proof {
            assert(all.take(i + 1).drop_last() =~= all.take(i as int));
            assert(all.take(i + 1).last() == candidates@[i as int].server@);
        }
        if !contains_text(&servers, candidates[i].server.as_str()) {
            let ghost before = servers@;
            servers.push(candidates[i].server.clone());
            proof {
                assert(string_views(servers@) =~= string_views(before).push(candidates@[i as int].server@));
            }
        }
        i = i + 1;
    }
    proof {
        assert(all.take(candidates@.len() as int) =~= all);
    }
    servers
}

/// What the PiP context menu offers.
#[derive(Debug)]
pub struct CharMenuPlan {
    /// Offer "Assign character" (some candidate exists).
    pub assign_character: bool,
    /// Group the candidates into one submenu per server (unless they all
    /// share one server).
    pub grouped_by_server: bool,
    /// Offer window numbers `#1` up to this many.
    pub number_count: usize,
    /// The edge shown checked.
    pub checked_edge: PipEdge,
    pub edit_label: String,
    /// Offer "Reset to auto layout" (custom positions exist).
    pub reset_layout: bool,
    /// The broadcasting item's label and check mark, offered only when the
    /// input broadcaster is enabled.
    pub broadcast: Option<(String, bool)>,
    pub hide_label: String,
}

pub open spec fn edit_label(edit_mode: bool) -> Seq<char> {
    if edit_mode {
        "Lock layout"@
    } else {
        "Edit layout"@
    }
}

pub open spec fn broadcast_label(broadcasting: bool, hotkey: Seq<char>) -> Seq<char> {
    if broadcasting {
        "Broadcasting: on\t"@ + hotkey
    } else {
        "Broadcasting: off\t"@ + hotkey
    }
}

pub open spec fn hide_label(hotkey: Seq<char>) -> Seq<char> {
    "Hide overlay\t"@ + hotkey
}

/// Decide the PiP context menu's items.
pub fn char_menu_plan(
    candidate_count: usize,
    server_count: usize,
    window_count: usize,
    edge: PipEdge,
    edit_mode: bool,
    has_custom_positions: bool,
    broadcaster_enabled: bool,
    broadcasting: bool,
    broadcast_hotkey: &str,
    hide_hotkey: &str,
) -> (p: CharMenuPlan)
    ensures
        p.assign_character == (candidate_count > 0),
        p.grouped_by_server == (server_count != 1),
        p.number_count == window_count,
        p.checked_edge == edge,
        p.edit_label@ == edit_label(edit_mode),
        p.reset_layout == has_custom_positions,
        broadcaster_enabled ==> (p.broadcast matches Some((label, checked)) && label@ == broadcast_label(
            broadcasting,
            broadcast_hotkey@,
        ) && checked == broadcasting),
        !broadcaster_enabled ==> p.broadcast is None,
        p.hide_label@ == hide_label(hide_hotkey@),
{
    let edit = if edit_mode {
        String::from_str("Lock layout")
    } else {
        String::from_str("Edit layout")
    };
    let broadcast = if broadcaster_enabled {
        let mut label = if broadcasting {
            String::from_str("Broadcasting: on\t")
        } else {
            String::from_str("Broadcasting: off\t")
        };
        label.append(broadcast_hotkey);
        Some((label, broadcasting))
    } else {
        None
    };
    let mut hide_text = String::from_str("Hide overlay\t");
    hide_text.append(hide_hotkey);
    CharMenuPlan {
        assign_character: candidate_count > 0,
        grouped_by_server: server_count != 1,
        number_count: window_count,
        checked_edge: edge,
        edit_label: edit,
        reset_layout: has_custom_positions,
        broadcast,
        hide_label: hide_text,
    }
}

/// Queue a context menu unless one is open or already queued. Returns
/// whether it was queued (if not, the caller hands the foreground back).
pub fn queue_context_menu(state: &mut InteractionState, request: ContextMenuRequest) -> (queued: bool)
    ensures
        queued == (!old(state).context_menu_open && old(state).pending_context_menu is None),
        queued ==> final(state).pending_context_menu == Some(request),
        !queued ==> final(state).pending_context_menu == old(state).pending_context_menu,
        final(state).context_menu_open == old(state).context_menu_open,
        final(state).context_menu_target_pid == old(state).context_menu_target_pid,
        final(state).edit_mode == old(state).edit_mode,
{
    if state.context_menu_open || state.pending_context_menu.is_some() {
        return false;
    }
    state.pending_context_menu = Some(request);
    true
}

/// Open the queued menu for its client, if that client is still loaded.
/// Returns the request (the menu is then open for that client).
pub fn open_context_menu(state: &mut InteractionState, registry: &ClientRegistry) -> (r: Option<ContextMenuRequest>)
    ensures
        final(state).pending_context_menu is None,
        match old(state).pending_context_menu {
            None => r is None && final(state).context_menu_open == old(state).context_menu_open
                && final(state).context_menu_target_pid == old(state).context_menu_target_pid,
            Some(request) => if pids_of(registry.windows_seq()).contains(request.target_pid) {
                &&& r == Some(request)
                &&& final(state).context_menu_open
                &&& final(state).context_menu_target_pid == Some(request.target_pid)
            } else {
                &&& r is None
                &&& final(state).context_menu_open == old(state).context_menu_open
                &&& final(state).context_menu_target_pid == old(state).context_menu_target_pid
            },
        },
        final(state).edit_mode == old(state).edit_mode,
{
    let request = match state.pending_context_menu.take() {
        Some(request) => request,
        None => return None,
    };
    match crate::clients::position_of(registry.windows(), request.target_pid) {
        Some(i) => {
            proof {
                assert(pids_of(registry.windows_seq())[i as int] == request.target_pid);
            }
        },
        None => return None,
    }
    state.context_menu_target_pid = Some(request.target_pid);
    state.context_menu_open = true;
    Some(request)
}

/// Close the menu: no menu open and no menu client.
pub fn close_context_menu(state: &mut InteractionState)
    ensures
        !final(state).context_menu_open,
        final(state).context_menu_target_pid is None,
        final(state).pending_context_menu == old(state).pending_context_menu,
        final(state).edit_mode == old(state).edit_mode,
{
    state.context_menu_open = false;
    state.context_menu_target_pid = None;
}

/// Assign a window number to the menu's client (which the command consumes).
/// Returns whether a loaded client was renumbered.
pub fn assign_number_from_menu(state: &mut InteractionState, registry: &mut ClientRegistry, new_number: usize) -> (b: bool)
    requires
        old(registry).windows_seq().len() + 2 < usize::MAX,
    ensures
        final(state).context_menu_target_pid is None,
        final(state).context_menu_open == old(state).context_menu_open,
        final(state).edit_mode == old(state).edit_mode,
        b == (old(state).context_menu_target_pid matches Some(pid) && pids_of(old(registry).windows_seq()).contains(
            pid,
        )),
        !b ==> final(registry).windows_seq() == old(registry).windows_seq(),
        b ==> exists|i: int| {
            let pid = old(state).context_menu_target_pid.unwrap();
            &&& 0 <= i < old(registry).windows_seq().len() && (#[trigger] old(registry).windows_seq()[i]).pid == pid
            &&& (forall|k: int| 0 <= k < i ==> old(registry).windows_seq()[k].pid != pid)
            &&& final(registry).windows_seq() == renumbered(old(registry).windows_seq(), i, new_number)
        },
        pids_of(final(registry).windows_seq()) == pids_of(old(registry).windows_seq()),
        final(registry).active() == old(registry).active(),
        final(registry).pip_seq() == old(registry).pip_seq(),
        old(registry).wf() ==> final(registry).wf(),
        old(registry).partition_valid() ==> final(registry).partition_valid(),
{
    let target = state.context_menu_target_pid.take();
    match target {
        Some(pid) => registry.assign_number(pid, new_number),
        None => false,
    }
}

/// The candidate chosen from the menu, if the position is valid.
pub fn chosen_candidate(candidates: &[CharacterCandidate], index: usize) -> (r: Option<&CharacterCandidate>)
    ensures
        r == (if index < candidates@.len() { Some(&candidates@[index as int]) } else { None }),
{
    if index < candidates.len() {
        Some(&candidates[index])
    } else {
        None
    }
}

/// Assign a chosen character (with its remembered class) to a client; then
/// renumber from the identity priority and, if that changed a number and
/// automatic ordering is on, order the PiPs by number. Returns whether the
/// client was loaded.
pub fn assign_character(
    registry: &mut ClientRegistry,
    pid: u32,
    candidate: &CharacterCandidate,
    class: Option<String>,
    auto_order: bool,
) -> (b: bool)
    ensures
        b == pids_of(old(registry).windows_seq()).contains(pid),
        !b ==> final(registry).windows_seq() == old(registry).windows_seq() && final(registry).pip_seq() == old(
            registry,
        ).pip_seq(),
        b ==> exists|i: int| {
            &&& 0 <= i < final(registry).windows_seq().len()
            &&& (#[trigger] final(registry).windows_seq()[i]).pid == pid
            &&& (forall|k: int| 0 <= k < i ==> final(registry).windows_seq()[k].pid != pid)
            &&& final(registry).windows_seq()[i].character == Some(candidate.character)
            &&& final(registry).windows_seq()[i].server == Some(candidate.server)
            &&& final(registry).windows_seq()[i].class == class
        },
        pids_of(final(registry).windows_seq()) == pids_of(old(registry).windows_seq()),
        final(registry).active() == old(registry).active(),
        old(registry).wf() ==> final(registry).wf(),
        old(registry).partition_valid() ==> final(registry).partition_valid(),
{
    let ghost ws0 = registry.windows_seq();
    if !registry.set_identity(pid, candidate.character.clone(), candidate.server.clone(), class) {
        return false;
    }
    let ghost ws1 = registry.windows_seq();
    let ghost i = choose|i: int| {
        &&& 0 <= i < ws0.len() && (#[trigger] ws0[i]).pid == pid
        &&& (forall|k: int| 0 <= k < i ==> ws0[k].pid != pid)
        &&& ws1 == ws0.update(
            i,
            EqWindow {
                hwnd: ws0[i].hwnd,
                pid,
                number: ws0[i].number,
                character: Some(candidate.character),
                server: Some(candidate.server),
                class,
            },
        )
    };
    proof {
        assert(ws1[i].pid == pid);
        assert forall|k: int| 0 <= k < i implies ws1[k].pid != pid by {
            assert(ws1[k] == ws0[k]);
        }
    }
    if registry.apply_preferred_order() && auto_order {
        registry.apply_auto_order();
    }
    proof {
        let ws2 = registry.windows_seq();
        assert(ws2[i] == with_number(ws1[i], ws2[i].number));
        assert forall|k: int| 0 <= k < i implies ws2[k].pid != pid by {
            assert(ws2[k] == with_number(ws1[k], ws2[k].number));
        }
    }
    true
}

/// Window placements recorded when editing ends: one per PiP host, slot by
/// slot, from the hosts' screen rectangles.
pub open spec fn recorded_position(slot: int, r: Rect) -> PipPosition {
    PipPosition {
        slot: slot as usize,
        x: r.left,
        y: r.top,
        width: (r.right - r.left) as u32,
        height: (r.bottom - r.top) as u32,
    }
}

/// Toggle layout editing. Leaving edit mode records the hosts' rectangles as
/// custom positions (returned, for the caller to save) and marks the layout
/// custom; entering it records nothing.
pub fn toggle_edit_mode(state: &mut InteractionState, layout: &mut LayoutState, host_rects: &[Rect]) -> (r: Option<
    Vec<PipPosition>,
>)
    requires
        forall|i: int|
            0 <= i < host_rects@.len() ==> i32::MIN <= #[trigger] host_rects@[i].right - host_rects@[i].left
                <= i32::MAX && i32::MIN <= host_rects@[i].bottom - host_rects@[i].top <= i32::MAX,
    ensures
        final(state).edit_mode == !old(state).edit_mode,
        old(state).edit_mode ==> (r matches Some(positions) && positions@.len() == host_rects@.len() && forall|i: int|
            0 <= i < host_rects@.len() ==> positions@[i] == recorded_position(i, #[trigger] host_rects@[i])),
        old(state).edit_mode ==> final(layout).has_custom_positions,
        !old(state).edit_mode ==> r is None && final(layout).has_custom_positions == old(
            layout,
        ).has_custom_positions,
        final(layout).pip_edge == old(layout).pip_edge,
        final(layout).custom_strip_width == old(layout).custom_strip_width,
        final(state).context_menu_open == old(state).context_menu_open,
{
    if state.edit_mode {
        let mut positions: Vec<PipPosition> = Vec::new();
        let mut i: usize = 0;
        while i < host_rects.len()
            invariant
                0 <= i <= host_rects@.len(),
                positions@.len() == i,
                forall|i: int|
                    0 <= i < host_rects@.len() ==> i32::MIN <= #[trigger] host_rects@[i].right - host_rects@[i].left
                        <= i32::MAX && i32::MIN <= host_rects@[i].bottom - host_rects@[i].top <= i32::MAX,
                forall|k: int| 0 <= k < i ==> positions@[k] == recorded_position(k, #[trigger] host_rects@[k]),
            decreases host_rects@.len() - i,
        {
            let r = host_rects[i];
            positions.push(
                PipPosition {
                    slot: i,
                    x: r.left,
                    y: r.top,
                    width: (r.right - r.left) as u32,
                    height: (r.bottom - r.top) as u32,
                },
            );
            i = i + 1;
        }
        layout.has_custom_positions = true;
        state.edit_mode = false;
        Some(positions)
    } else {
        state.edit_mode = true;
        None
    }
}

/// Switch the strip to another edge from the menu: the automatic strip on
/// that edge, and editing ends.
pub fn assign_edge_from_menu(state: &mut InteractionState, layout: &mut LayoutState, edge: PipEdge)
    ensures
        final(layout).pip_edge == edge,
        final(layout).custom_strip_width is None,
        !final(layout).has_custom_positions,
        !final(state).edit_mode,
        final(state).context_menu_open == old(state).context_menu_open,
{
    layout.assign_edge(edge);
    state.edit_mode = false;
}

/// Back to the automatic layout: no custom positions, and editing ends.
pub fn reset_layout(state: &mut InteractionState, layout: &mut LayoutState)
    ensures
        !final(layout).has_custom_positions,
        final(layout).pip_edge == old(layout).pip_edge,
        final(layout).custom_strip_width == old(layout).custom_strip_width,
        !final(state).edit_mode,
        final(state).context_menu_open == old(state).context_menu_open,
{
    layout.has_custom_positions = false;
    state.edit_mode = false;
}

} // verus!
