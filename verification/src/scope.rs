//! Which client labels show a trigger's timer or text.

use vstd::prelude::*;
use crate::text::str_eq;

verus! {

/// Where a trigger's presentation appears.
#[derive(Clone, Copy, Debug, PartialEq, Eq, Structural)]
pub enum PresentationTarget {
    /// Only on the label of the character whose log fired the trigger.
    Source,
    /// Only on the focused client's label.
    ActiveClient,
    /// On every client's label.
    AllClients,
    /// Shown once, on the focused client's label.
    Global,
}

/// The characters of an optional label source.
pub open spec fn source_view(source_id: Option<&str>) -> Option<Seq<char>> {
    match source_id {
        Some(s) => Some(s@),
        None => None,
    }
}

/// Whether an item owned by `owner` with `target` shows on the label of
/// `source` (`is_active` marks the focused client's label).
pub open spec fn shown_on(
    target: PresentationTarget,
    owner: Seq<char>,
    source: Option<Seq<char>>,
    is_active: bool,
) -> bool {
    match target {
        PresentationTarget::Source => source == Some(owner),
        PresentationTarget::ActiveClient | PresentationTarget::Global => is_active,
        PresentationTarget::AllClients => true,
    }
}

/// Executable form of [`shown_on`].
pub fn visible_on(
    target: PresentationTarget,
    owner: &String,
    source_id: Option<&str>,
    is_active: bool,
) -> (b: bool)
    ensures
        b == shown_on(target, owner@, source_view(source_id), is_active),
{
    match target {
        PresentationTarget::Source => match source_id {
            Some(source) => str_eq(owner.as_str(), source),
            None => false,
        },
        PresentationTarget::ActiveClient | PresentationTarget::Global => is_active,
        PresentationTarget::AllClients => true,
    }
}

} // verus!
