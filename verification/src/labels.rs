//! Renderer-independent label content, style and geometry.
//!
//! The window layer decides where a label lives; renderers consume these
//! values, so label state and hit geometry do not depend on a backend.

use vstd::prelude::*;
use crate::geometry::{Color, Rect, Scale, dpi_ok, lemma_pixels_range};

verus! {

/// What a label shows: the name, an optional class, the client number and
/// the two background colors.
#[derive(Clone, Copy, Debug)]
pub struct LabelModel<'a> {
    pub text: &'a str,
    pub class: Option<&'a str>,
    pub number: usize,
    pub background: Color,
    pub badge_background: Color,
}

/// A label's display scale and its height in logical pixels.
#[derive(Clone, Copy, Debug, PartialEq, Eq, Structural)]
pub struct LabelStyle {
    pub scale: Scale,
    pub logical_height: i32,
}

impl LabelStyle {
    /// The styles that layouts accept: a sane DPI and a logical height far
    /// beyond any real label.
    pub open spec fn valid(self) -> bool {
        &&& dpi_ok(self.scale.dpi as int)
        &&& -0x10_0000 <= self.logical_height <= 0x10_0000
    }

    pub open spec fn spec_px(self, logical: int) -> int {
        self.scale.spec_pixels(logical)
    }

    pub fn new(scale: Scale, logical_height: i32) -> (s: LabelStyle)
        ensures
            s == (LabelStyle { scale, logical_height }),
    {
        LabelStyle { scale, logical_height }
    }

    /// A logical length in physical pixels.
    pub fn pixels(self, logical: i32) -> (p: i32)
        ensures
            p == self.spec_px(logical as int),
    {
        self.scale.pixels(logical)
    }

    /// The label's height in physical pixels.
    pub fn height(self) -> (h: i32)
        ensures
            h == self.spec_px(self.logical_height as int),
    {
        self.pixels(self.logical_height)
    }

    /// The font height of the number badge.
    pub fn badge_font_height(self) -> (h: i32)
        requires
            self.logical_height >= i32::MIN + 14,
        ensures
            h == self.spec_px(self.logical_height - 14),
    {
        self.pixels(self.logical_height - 14)
    }

    /// The font height of the character name.
    pub fn name_font_height(self) -> (h: i32)
        requires
            self.logical_height >= i32::MIN + 12,
        ensures
            h == self.spec_px(self.logical_height - 12),
    {
        self.pixels(self.logical_height - 12)
    }
}

/// Where each part of a label is drawn.
#[derive(Clone, Copy, Debug, PartialEq, Eq, Structural)]
pub struct LabelLayout {
    pub background: Rect,
    pub badge: Rect,
    pub icon: Option<Rect>,
    pub text: Rect,
    pub text_shadow: Rect,
    pub corner_radius: i32,
}

/// The label layout: a round badge as tall as the label less six logical
/// pixels, centred vertically four logical pixels from the left edge; an
/// optional class icon of the badge's size six pixels after it; the text
/// from six pixels after the last of them to the right edge, with a shadow
/// one pixel down and right.
pub open spec fn is_label_layout(r: LabelLayout, bounds: Rect, style: LabelStyle, has_class: bool) -> bool {
    let diameter = bounds.spec_height() - style.spec_px(6);
    let badge_left = bounds.left + style.spec_px(4);
    let badge_top = bounds.top + style.spec_px(6) / 2;
    let after_badge = badge_left + diameter + style.spec_px(6);
    let text_left = if has_class { after_badge + diameter + style.spec_px(6) } else { after_badge };
    &&& r.background == bounds
    &&& r.badge.left == badge_left
    &&& r.badge.top == badge_top
    &&& r.badge.right == badge_left + diameter
    &&& r.badge.bottom == badge_top + diameter
    &&& (if has_class {
        r.icon matches Some(icon) && icon.left == after_badge && icon.top == r.badge.top
            && icon.right == after_badge + diameter && icon.bottom == r.badge.bottom
    } else {
        r.icon is None
    })
    &&& r.text == (Rect { left: text_left as i32, top: bounds.top, right: bounds.right, bottom: bounds.bottom })
    &&& r.text_shadow == (Rect {
        left: (text_left + style.spec_px(1)) as i32,
        top: (bounds.top + style.spec_px(1)) as i32,
        right: bounds.right,
        bottom: bounds.bottom,
    })
    &&& r.corner_radius == style.spec_px(8)
}

/// Small logical lengths stay small in pixels at any accepted DPI.
proof fn lemma_small_pixels(style: LabelStyle, logical: int)
    requires
        style.valid(),
        1 <= logical <= 64,
    ensures
        0 <= style.spec_px(logical) <= 64 * 50 + 1,
{
    lemma_pixels_range(style.scale, logical);
}

impl LabelLayout {
    pub fn new(bounds: Rect, style: LabelStyle, has_class: bool) -> (r: LabelLayout)
        requires
            bounds.in_range(),
            style.valid(),
        ensures
            is_label_layout(r, bounds, style, has_class),
    {
        proof {
            lemma_small_pixels(style, 1);
            lemma_small_pixels(style, 4);
            lemma_small_pixels(style, 6);
            lemma_small_pixels(style, 8);
        }
        let label_height = bounds.height();
        let six = style.pixels(6);
        let badge_diameter = label_height - six;
        let badge_left = bounds.left + style.pixels(4);
        let badge_top = bounds.top + (label_height - badge_diameter) / 2;
        let badge = Rect::new(badge_left, badge_top, badge_left + badge_diameter, badge_top + badge_diameter);
        let after_badge = badge.right + six;
        let icon = if has_class {
            Some(Rect::new(after_badge, badge.top, after_badge + badge_diameter, badge.bottom))
        } else {
            None
        };
        let text_left = match icon {
            Some(i) => i.right + six,
            None => after_badge,
        };
        let text = Rect::new(text_left, bounds.top, bounds.right, bounds.bottom);
        let one = style.pixels(1);
        LabelLayout {
            background: bounds,
            badge,
            icon,
            text,
            text_shadow: text.offset_origin(one, one),
            corner_radius: style.pixels(8),
        }
    }
}

/// The width a label needs: badge, gap, optional icon and gap, text and
/// trailing padding, capped at `max_width`.
pub open spec fn spec_required_width(text_width: int, style: LabelStyle, has_class: bool, max_width: int) -> int {
    let badge_width = style.spec_px(style.logical_height as int);
    let icon_width = if has_class { badge_width + style.spec_px(6) } else { 0 };
    let natural = badge_width + style.spec_px(6) + icon_width + text_width + style.spec_px(10);
    if natural <= max_width { natural } else { max_width }
}

pub fn required_width(text_width: i32, style: LabelStyle, has_class: bool, max_width: i32) -> (w: i32)
    requires
        style.valid(),
        -0x1000_0000 <= text_width <= 0x1000_0000,
    ensures
        w == spec_required_width(text_width as int, style, has_class, max_width as int),
{
    proof {
        lemma_pixels_range(style.scale, style.logical_height as int);
        lemma_small_pixels(style, 6);
        lemma_small_pixels(style, 10);
    }
    let badge_width = style.height();
    let icon_width = if has_class { badge_width + style.pixels(6) } else { 0 };
    let natural = badge_width + style.pixels(6) + icon_width + text_width + style.pixels(10);
    if natural <= max_width {
        natural
    } else {
        max_width
    }
}

} // verus!
