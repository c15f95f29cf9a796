//! Label colors, font weights and opacity.

use vstd::prelude::*;
use crate::clients::EqWindow;
use crate::geometry::{Color, color_of};
use crate::labels::LabelModel;

verus! {

pub const BORDER_WIDTH: i32 = 3;
pub const DEFAULT_LABEL_HEIGHT: i32 = 48;
pub const DEFAULT_LABEL_OPACITY: u32 = 80;

/// Background colors for per-number labels (COLORREF `0x00BBGGRR`): medium
/// blue, forest green, warm rose, amber, orchid, teal.
pub open spec fn label_palette() -> Seq<u32> {
    seq![0x00D4864Au32, 0x0060B06Au32, 0x005858D8u32, 0x0048B8E0u32, 0x00C87CA0u32, 0x00A8C858u32]
}

/// Badge colors, a deeper shade of each label color.
pub open spec fn badge_palette() -> Seq<u32> {
    seq![0x00B06830u32, 0x00409048u32, 0x003838B8u32, 0x002898C0u32, 0x00A85C80u32, 0x0088A838u32]
}

/// Numbers cycle through a palette from 1; number 0 takes the first color.
pub open spec fn palette_index(number: int) -> int {
    if number == 0 { 0 } else { (number - 1) % 6 }
}

fn palette_slot(number: usize) -> (i: usize)
    ensures
        i == palette_index(number as int),
        i < 6,
{
    if number == 0 { 0 } else { (number - 1) % 6 }
}

/// The label background for a client number.
pub fn color_for_number(number: usize) -> (c: u32)
    ensures
        c == label_palette()[palette_index(number as int)],
{
    match palette_slot(number) {
        0 => 0x00D4864A,
        1 => 0x0060B06A,
        2 => 0x005858D8,
        3 => 0x0048B8E0,
        4 => 0x00C87CA0,
        _ => 0x00A8C858,
    }
}

/// The badge background for a client number.
pub fn badge_color_for_number(number: usize) -> (c: u32)
    ensures
        c == badge_palette()[palette_index(number as int)],
{
    match palette_slot(number) {
        0 => 0x00B06830,
        1 => 0x00409048,
        2 => 0x003838B8,
        3 => 0x002898C0,
        4 => 0x00A85C80,
        _ => 0x0088A838,
    }
}

/// The content of a client's label; the badge takes the number's badge color.
pub fn label_model<'a>(text: &'a str, class: Option<&'a str>, number: usize, background: u32) -> (m: LabelModel<'a>)
    ensures
        m.text == text,
        m.class == class,
        m.number == number,
        m.background == color_of(background),
        m.badge_background == color_of(badge_palette()[palette_index(number as int)]),
{
    LabelModel {
        text,
        class,
        number,
        background: Color::from_colorref(background),
        badge_background: Color::from_colorref(badge_color_for_number(number)),
    }
}

/// The configured weight of a label's name font.
#[derive(Clone, Copy, Debug, PartialEq, Eq, Structural)]
pub enum LabelFontWeight {
    Regular,
    Semibold,
    Bold,
    Heavy,
}

/// The font weight (as Win32 and Direct2D number it) of a configured weight.
pub fn label_font_weight(weight: LabelFontWeight) -> (w: u16)
    ensures
        w == match weight {
            LabelFontWeight::Regular => 400u16,
            LabelFontWeight::Semibold => 600u16,
            LabelFontWeight::Bold => 700u16,
            LabelFontWeight::Heavy => 900u16,
        },
{
    match weight {
        LabelFontWeight::Regular => 400,
        LabelFontWeight::Semibold => 600,
        LabelFontWeight::Bold => 700,
        LabelFontWeight::Heavy => 900,
    }
}

/// An opacity percentage, capped at 100, as an 8-bit alpha (rounded down).
pub open spec fn spec_alpha(percent: int) -> int {
    let p = if percent > 100 { 100 } else { percent };
    p * 255 / 100
}

pub fn opacity_percent_to_alpha(percent: u32) -> (a: u8)
    ensures
        a == spec_alpha(percent as int),
{
    let p: u16 = if percent > 100 { 100 } else { percent as u16 };
    ((p * 255) / 100) as u8
}

/// A window's label text: its character name, or nothing before login.
pub fn format_label(window: &EqWindow) -> (s: String)
    ensures
        s@ == match window.character {
            Some(c) => c@,
            None => Seq::<char>::empty(),
        },
{
    match &window.character {
        Some(c) => c.clone(),
        None => String::new(),
    }
}

} // verus!
