//! Settings read at start-up and on a configuration reload, and what a
//! reload has to undo or restart.

use vstd::prelude::*;
use crate::appearance::{DEFAULT_LABEL_HEIGHT, DEFAULT_LABEL_OPACITY, opacity_percent_to_alpha, spec_alpha};
use crate::toast::DEFAULT_HEIGHT;

verus! {

/// The label alpha for a configured opacity percentage (capped at 100;
/// the default where none is configured).
pub fn configured_label_alpha(opacity_percent: Option<u32>) -> (a: u8)
    ensures
        a == spec_alpha(
            match opacity_percent {
                Some(p) => if p < 100 { p as int } else { 100 },
                None => DEFAULT_LABEL_OPACITY as int,
            },
        ),
{
    let percent = match opacity_percent {
        Some(p) => if p < 100 { p } else { 100 },
        None => DEFAULT_LABEL_OPACITY,
    };
    opacity_percent_to_alpha(percent)
}

/// The logical label height: the configured one, or the default.
pub fn configured_label_height(height: Option<u32>) -> (h: i32)
    ensures
        h == match height {
            Some(v) => v as i32,
            None => DEFAULT_LABEL_HEIGHT,
        },
{
    match height {
        Some(v) => v as i32,
        None => DEFAULT_LABEL_HEIGHT,
    }
}

/// The logical toast height: the configured one, or the default.
pub fn configured_toast_height(height: Option<u32>) -> (h: i32)
    ensures
        h == match height {
            Some(v) => v as i32,
            None => DEFAULT_HEIGHT,
        },
{
    match height {
        Some(v) => v as i32,
        None => DEFAULT_HEIGHT,
    }
}

/// What a reload does to the clients' window styles.
#[derive(Clone, Copy, Debug, PartialEq, Eq, Structural)]
pub enum StyleRefresh {
    /// Hiding background clients was switched off: restore every original
    /// style.
    RestoreAll,
    /// Hiding is on: apply it to the current clients.
    Apply,
    Keep,
}

/// What a configuration reload must undo or restart.
#[derive(Clone, Copy, Debug, PartialEq, Eq, Structural)]
pub struct ReloadPlan {
    pub styles: StyleRefresh,
    /// Drop every notification (and stop their timer).
    pub clear_notifications: bool,
    /// Stop the combat-awareness timer.
    pub stop_combat_timer: bool,
    /// Withdraw the shown toast at once.
    pub withdraw_toast: bool,
}

pub fn reload_plan(
    was_hiding_background: bool,
    hiding_background: bool,
    notification_visuals_enabled: bool,
    notification_selection_changed: bool,
    combat_appearance_changed: bool,
    combat_awareness_enabled: bool,
    toast_was_enabled: bool,
    toast_enabled: bool,
) -> (p: ReloadPlan)
    ensures
        p.styles == (if was_hiding_background && !hiding_background {
            StyleRefresh::RestoreAll
        } else if hiding_background {
            StyleRefresh::Apply
        } else {
            StyleRefresh::Keep
        }),
        p.clear_notifications == (!notification_visuals_enabled || notification_selection_changed),
        p.stop_combat_timer == (combat_appearance_changed && !combat_awareness_enabled),
        p.withdraw_toast == (toast_was_enabled && !toast_enabled),
{
    let styles = if was_hiding_background && !hiding_background {
        StyleRefresh::RestoreAll
    } else if hiding_background {
        StyleRefresh::Apply
    } else {
        StyleRefresh::Keep
    };
    ReloadPlan {
        styles,
        clear_notifications: !notification_visuals_enabled || notification_selection_changed,
        stop_combat_timer: combat_appearance_changed && !combat_awareness_enabled,
        withdraw_toast: toast_was_enabled && !toast_enabled,
    }
}

} // verus!
