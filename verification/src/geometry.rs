//! Integer rectangles, colors and display scaling shared by every overlay
//! layout.
//!
//! A display scale is the monitor's effective DPI over 96. Scaled lengths are
//! rounded to the nearest pixel with halves rounded away from zero, and a
//! result beyond the `i32` range saturates, as a float-to-integer cast would.

use vstd::prelude::*;

verus! {

/// Coordinates that every layout in this crate accepts: far beyond any
/// virtual desktop, yet small enough that no intermediate sum overflows.
pub open spec fn coord_ok(v: int) -> bool {
    -0x1000_0000 <= v <= 0x1000_0000
}

/// Nearest integer to `n / d` (for `d > 0`), halves rounded away from zero.
pub open spec fn round_ratio(n: int, d: int) -> int {
    if n >= 0 {
        (2 * n + d) / (2 * d)
    } else {
        -((2 * (-n) + d) / (2 * d))
    }
}

/// An `int` saturated into the `i32` range.
pub open spec fn saturate_i32(v: int) -> int {
    if v < i32::MIN {
        i32::MIN as int
    } else if v > i32::MAX {
        i32::MAX as int
    } else {
        v
    }
}

pub proof fn lemma_round_ratio_bounds(n: int, d: int)
    requires
        d > 0,
    ensures
        n >= 0 ==> 0 <= round_ratio(n, d) <= n / d + 1,
        n >= 0 && n <= d * 0x1000_0000 ==> round_ratio(n, d) <= 0x1000_0000,
        n < 0 ==> round_ratio(n, d) <= 0,
        n < 0 ==> round_ratio(n, d) >= -((-n) / d) - 1,
{
    if n >= 0 {
        assert((2 * n + d) / (2 * d) <= n / d + 1) by (nonlinear_arith)
            requires
                n >= 0,
                d > 0,
        ;
        assert(0 <= (2 * n + d) / (2 * d)) by (nonlinear_arith)
            requires
                n >= 0,
                d > 0,
        ;
        if n <= d * 0x1000_0000 {
            assert((2 * n + d) / (2 * d) <= 0x1000_0000) by (nonlinear_arith)
                requires
                    n >= 0,
                    d > 0,
                    n <= d * 0x1000_0000,
            ;
        }
    } else {
        let m = -n;
        assert((2 * m + d) / (2 * d) <= m / d + 1) by (nonlinear_arith)
            requires
                m > 0,
                d > 0,
        ;
        assert(0 <= (2 * m + d) / (2 * d)) by (nonlinear_arith)
            requires
                m > 0,
                d > 0,
        ;
    }
}

/// Exact rounding of `n / d` on machine integers.
pub fn round_ratio_exec(n: i128, d: i128) -> (r: i128)
    requires
        0 < d <= 0x1_0000_0000_0000_0000,
        -0x10_0000_0000_0000_0000_0000_0000 <= n <= 0x10_0000_0000_0000_0000_0000_0000,
    ensures
        r == round_ratio(n as int, d as int),
{
    if n >= 0 {
        (2 * n + d) / (2 * d)
    } else {
        let m = -n;
        -((2 * m + d) / (2 * d))
    }
}

/// Saturating conversion into `i32`.
pub fn saturate_to_i32(v: i128) -> (r: i32)
    ensures
        r as int == saturate_i32(v as int),
{
    if v < i32::MIN as i128 {
        i32::MIN
    } else if v > i32::MAX as i128 {
        i32::MAX
    } else {
        v as i32
    }
}

pub open spec fn imax(a: int, b: int) -> int {
    if a >= b { a } else { b }
}

pub open spec fn imin(a: int, b: int) -> int {
    if a <= b { a } else { b }
}

/// `v` clamped to `[lo, hi]` (for `lo <= hi`).
pub open spec fn iclamp(v: int, lo: int, hi: int) -> int {
    imin(imax(v, lo), hi)
}

pub fn max_i32(a: i32, b: i32) -> (r: i32)
    ensures
        r == imax(a as int, b as int),
{
    if a >= b { a } else { b }
}

pub fn min_i32(a: i32, b: i32) -> (r: i32)
    ensures
        r == imin(a as int, b as int),
{
    if a <= b { a } else { b }
}

/// `v` clamped to `[lo, hi]`; `i32::clamp` panics when `lo > hi`.
pub fn clamp_i32(v: i32, lo: i32, hi: i32) -> (r: i32)
    requires
        lo <= hi,
    ensures
        r == iclamp(v as int, lo as int, hi as int),
        lo <= r <= hi,
{
    min_i32(max_i32(v, lo), hi)
}

/// `i32::saturating_add`.
pub fn saturating_add_i32(a: i32, b: i32) -> (r: i32)
    ensures
        r == saturate_i32(a + b),
{
    saturate_to_i32(a as i128 + b as i128)
}

/// A point in pixels.
#[derive(Clone, Copy, Debug, Default, PartialEq, Eq, Structural)]
pub struct Point {
    pub x: i32,
    pub y: i32,
}

/// Win32-style rectangle: `left`/`top` inclusive, `right`/`bottom` exclusive.
#[derive(Clone, Copy, Debug, Default, PartialEq, Eq, Structural)]
pub struct Rect {
    pub left: i32,
    pub top: i32,
    pub right: i32,
    pub bottom: i32,
}

impl Rect {
    /// Every coordinate lies in the range that layouts accept.
    pub open spec fn in_range(self) -> bool {
        &&& coord_ok(self.left as int)
        &&& coord_ok(self.top as int)
        &&& coord_ok(self.right as int)
        &&& coord_ok(self.bottom as int)
    }

    pub open spec fn spec_width(self) -> int {
        self.right - self.left
    }

    pub open spec fn spec_height(self) -> int {
        self.bottom - self.top
    }

    /// The amount by which `inset` moves each vertical and each horizontal edge.
    pub open spec fn inset_x(self, amount: int) -> int {
        let half = if self.spec_width() > 0 { self.spec_width() / 2 } else { 0 };
        if amount < 0 { 0 } else if amount > half { half } else { amount }
    }

    pub open spec fn inset_y(self, amount: int) -> int {
        let half = if self.spec_height() > 0 { self.spec_height() / 2 } else { 0 };
        if amount < 0 { 0 } else if amount > half { half } else { amount }
    }

    pub open spec fn spec_inset(self, amount: int) -> Rect {
        Rect {
            left: (self.left + self.inset_x(amount)) as i32,
            top: (self.top + self.inset_y(amount)) as i32,
            right: (self.right - self.inset_x(amount)) as i32,
            bottom: (self.bottom - self.inset_y(amount)) as i32,
        }
    }

    pub open spec fn spec_intersect(self, other: Rect) -> Rect {
        let left = if self.left >= other.left { self.left } else { other.left };
        let top = if self.top >= other.top { self.top } else { other.top };
        let min_right = if self.right <= other.right { self.right } else { other.right };
        let min_bottom = if self.bottom <= other.bottom { self.bottom } else { other.bottom };
        Rect {
            left,
            top,
            right: if min_right >= left { min_right } else { left },
            bottom: if min_bottom >= top { min_bottom } else { top },
        }
    }

    /// `self` lies inside `outer` (its intersection with `outer` is itself).
    pub open spec fn within(self, outer: Rect) -> bool {
        self.spec_intersect(outer) == self
    }

    pub fn new(left: i32, top: i32, right: i32, bottom: i32) -> (r: Rect)
        ensures
            r == (Rect { left, top, right, bottom }),
    {
        Rect { left, top, right, bottom }
    }

    pub fn width(self) -> (w: i32)
        requires
            i32::MIN <= self.spec_width() <= i32::MAX,
        ensures
            w == self.spec_width(),
    {
        self.right - self.left
    }

    pub fn height(self) -> (h: i32)
        requires
            i32::MIN <= self.spec_height() <= i32::MAX,
        ensures
            h == self.spec_height(),
    {
        self.bottom - self.top
    }

    /// True when the rectangle covers no pixel.
    pub fn is_empty(self) -> (b: bool)
        ensures
            b == (self.right <= self.left || self.bottom <= self.top),
    {
        self.right <= self.left || self.bottom <= self.top
    }

    /// Move the top-left corner, keeping the bottom-right corner.
    pub fn offset_origin(self, x: i32, y: i32) -> (r: Rect)
        requires
            i32::MIN <= self.left + x <= i32::MAX,
            i32::MIN <= self.top + y <= i32::MAX,
        ensures
            r == (Rect {
                left: (self.left + x) as i32,
                top: (self.top + y) as i32,
                right: self.right,
                bottom: self.bottom,
            }),
    {
        Rect::new(self.left + x, self.top + y, self.right, self.bottom)
    }

    /// Translate every edge.
    pub fn offset(self, dx: i32, dy: i32) -> (r: Rect)
        requires
            i32::MIN <= self.left + dx <= i32::MAX,
            i32::MIN <= self.right + dx <= i32::MAX,
            i32::MIN <= self.top + dy <= i32::MAX,
            i32::MIN <= self.bottom + dy <= i32::MAX,
        ensures
            r == (Rect {
                left: (self.left + dx) as i32,
                top: (self.top + dy) as i32,
                right: (self.right + dx) as i32,
                bottom: (self.bottom + dy) as i32,
            }),
    {
        Rect::new(self.left + dx, self.top + dy, self.right + dx, self.bottom + dy)
    }

    /// Shrink every edge inward by `amount`, never past the center: each axis
    /// moves by at most half its extent, so the result never inverts.
    pub fn inset(self, amount: i32) -> (r: Rect)
        ensures
            r == self.spec_inset(amount as int),
    {
        let width = self.right as i64 - self.left as i64;
        let height = self.bottom as i64 - self.top as i64;
        let half_w: i64 = if width > 0 { width / 2 } else { 0 };
        let half_h: i64 = if height > 0 { height / 2 } else { 0 };
        let a = amount as i64;
        let dx: i64 = if a < 0 { 0 } else if a > half_w { half_w } else { a };
        let dy: i64 = if a < 0 { 0 } else if a > half_h { half_h } else { a };
        Rect {
            left: (self.left as i64 + dx) as i32,
            top: (self.top as i64 + dy) as i32,
            right: (self.right as i64 - dx) as i32,
            bottom: (self.bottom as i64 - dy) as i32,
        }
    }

    /// The overlap of two rectangles; a disjoint pair yields an empty
    /// rectangle anchored at the larger left/top edges.
    pub fn intersect(self, other: Rect) -> (r: Rect)
        ensures
            r == self.spec_intersect(other),
    {
        let left = if self.left >= other.left { self.left } else { other.left };
        let top = if self.top >= other.top { self.top } else { other.top };
        let min_right = if self.right <= other.right { self.right } else { other.right };
        let min_bottom = if self.bottom <= other.bottom { self.bottom } else { other.bottom };
        Rect {
            left,
            top,
            right: if min_right >= left { min_right } else { left },
            bottom: if min_bottom >= top { min_bottom } else { top },
        }
    }
}

/// Intersection is idempotent: a rectangle clipped to `outer` lies within it.
pub proof fn lemma_intersect_within(r: Rect, outer: Rect)
    ensures
        r.spec_intersect(outer).within(outer),
{
}

/// An opaque RGB color.
#[derive(Clone, Copy, Debug, PartialEq, Eq, Structural)]
pub struct Color {
    pub red: u8,
    pub green: u8,
    pub blue: u8,
}

/// The channels of a Win32 COLORREF (`0x00BBGGRR`).
pub open spec fn color_of(value: u32) -> Color {
    Color {
        red: (value % 256) as u8,
        green: ((value / 256) % 256) as u8,
        blue: ((value / 65536) % 256) as u8,
    }
}

/// The COLORREF holding a color's channels.
pub open spec fn colorref_of(color: Color) -> u32 {
    (color.red + 256 * color.green + 65536 * color.blue) as u32
}

impl Color {
    /// Convert a Win32 COLORREF value (`0x00BBGGRR`) into explicit channels.
    pub fn from_colorref(value: u32) -> (c: Color)
        ensures
            c == color_of(value),
    {
        let red = (value & 0xff) as u8;
        let green = ((value >> 8) & 0xff) as u8;
        let blue = ((value >> 16) & 0xff) as u8;
        assert(value & 0xff == value % 256) by (bit_vector);
        assert((value >> 8) & 0xff == (value / 256) % 256) by (bit_vector);
        assert((value >> 16) & 0xff == (value / 65536) % 256) by (bit_vector);
        Color { red, green, blue }
    }
}

/// Pack a color back into a COLORREF.
pub fn colorref(color: Color) -> (v: u32)
    ensures
        v == colorref_of(color),
{
    let r = color.red as u32;
    let g = color.green as u32;
    let b = color.blue as u32;
    assert(r | (g << 8) | (b << 16) == r + 256 * g + 65536 * b) by (bit_vector)
        requires
            r < 256,
            g < 256,
            b < 256,
    ;
    r | (g << 8) | (b << 16)
}

/// Converting a color to a COLORREF and back gives the same color.
pub proof fn lemma_colorref_round_trip(color: Color)
    ensures
        color_of(colorref_of(color)) == color,
{
    let r = color.red as int;
    let g = color.green as int;
    let b = color.blue as int;
    let v = r + 256 * g + 65536 * b;
    assert(v % 256 == r) by (nonlinear_arith)
        requires
            0 <= r < 256,
            0 <= g < 256,
            0 <= b < 256,
            v == r + 256 * g + 65536 * b,
    ;
    assert((v / 256) % 256 == g) by (nonlinear_arith)
        requires
            0 <= r < 256,
            0 <= g < 256,
            0 <= b < 256,
            v == r + 256 * g + 65536 * b,
    ;
    assert((v / 65536) % 256 == b) by (nonlinear_arith)
        requires
            0 <= r < 256,
            0 <= g < 256,
            0 <= b < 256,
            v == r + 256 * g + 65536 * b,
    ;
}

/// A display scale: the monitor's effective DPI over 96.
#[derive(Clone, Copy, Debug, PartialEq, Eq, Structural)]
pub struct Scale {
    pub dpi: u32,
}

/// The largest DPI that layouts accept (fifty times the 96-DPI baseline).
pub open spec fn dpi_ok(dpi: int) -> bool {
    0 < dpi <= 4800
}

impl Scale {
    /// A logical length in physical pixels, unsaturated.
    pub open spec fn spec_pixels(self, logical: int) -> int {
        saturate_i32(round_ratio(logical * self.dpi, 96))
    }

    /// The 100% scale.
    pub fn unit() -> (s: Scale)
        ensures
            s.dpi == 96,
    {
        Scale { dpi: 96 }
    }

    pub fn from_dpi(dpi: u32) -> (s: Scale)
        ensures
            s.dpi == dpi,
    {
        Scale { dpi }
    }

    /// Scale a logical length to physical pixels.
    pub fn pixels(self, logical: i32) -> (p: i32)
        ensures
            p == self.spec_pixels(logical as int),
    {
        let l = logical as i128;
        let d = self.dpi as i128;
        assert(-0x8000_0000 * 0x1_0000_0000 <= l * d <= 0x8000_0000 * 0x1_0000_0000)
            by (nonlinear_arith)
            requires
                -0x8000_0000 <= l < 0x8000_0000,
                0 <= d < 0x1_0000_0000,
        ;
        let n = l * d;
        let r = round_ratio_exec(n, 96);
        saturate_to_i32(r)
    }
}

/// Bounds on scaled lengths: nonnegative lengths stay nonnegative and at most
/// `ceil`-ish of the exact product; in-range lengths at sane DPI stay in range.
pub proof fn lemma_pixels_range(s: Scale, logical: int)
    requires
        dpi_ok(s.dpi as int),
        -0x10_0000 <= logical <= 0x10_0000,
    ensures
        -0x400_0000 <= s.spec_pixels(logical) <= 0x400_0000,
        logical >= 0 ==> s.spec_pixels(logical) >= 0,
        logical > 0 ==> s.spec_pixels(logical) <= logical * 50 + 1,
{
    let n = logical * s.dpi;
    assert(-0x10_0000 * 4800 <= n <= 0x10_0000 * 4800) by (nonlinear_arith)
        requires
            -0x10_0000 <= logical <= 0x10_0000,
            0 < s.dpi <= 4800,
            n == logical * s.dpi,
    ;
    lemma_round_ratio_bounds(n, 96);
    if logical >= 0 {
        assert(n >= 0) by (nonlinear_arith)
            requires
                logical >= 0,
                s.dpi > 0,
                n == logical * s.dpi,
        ;
        assert(n / 96 <= logical * 50) by (nonlinear_arith)
            requires
                logical >= 0,
                s.dpi <= 4800,
                n == logical * s.dpi,
        ;
        assert(n / 96 <= 0x10_0000 * 50) by (nonlinear_arith)
            requires
                n <= 0x10_0000 * 4800,
                n >= 0,
        ;
    } else {
        assert(n < 0) by (nonlinear_arith)
            requires
                logical < 0,
                s.dpi > 0,
                n == logical * s.dpi,
        ;
        assert((-n) / 96 <= 0x10_0000 * 50) by (nonlinear_arith)
            requires
                -n <= 0x10_0000 * 4800,
                -n > 0,
        ;
    }
}

} // verus!

verus! {

/// Elapsed progress `elapsed / total`, clamped to `[0, 1]`; a nonpositive
/// total means the work is complete.
#[derive(Clone, Copy, Debug, PartialEq, Eq, Structural)]
pub struct Progress {
    pub elapsed: i128,
    pub total: i128,
}

impl Progress {
    /// The clamped numerator over `total`: `0 <= done <= total`.
    pub open spec fn done(self) -> int {
        if self.elapsed < 0 {
            0
        } else if self.elapsed > self.total {
            self.total as int
        } else {
            self.elapsed as int
        }
    }

    /// The part of `length` left after this progress, rounded to the nearest
    /// pixel: `round(length * (1 - progress))`.
    pub open spec fn spec_remaining_of(self, length: int) -> int {
        if self.total <= 0 {
            0
        } else {
            round_ratio(length * (self.total - self.done()), self.total as int)
        }
    }

    pub fn new(elapsed: i128, total: i128) -> (p: Progress)
        ensures
            p == (Progress { elapsed, total }),
    {
        Progress { elapsed, total }
    }

    /// The remaining part of a nonnegative pixel length.
    pub fn remaining_of(self, length: i32) -> (r: i32)
        requires
            0 <= length,
            self.total <= 0x1_0000_0000_0000_0000,
        ensures
            r == self.spec_remaining_of(length as int),
            0 <= r <= length,
    {
        if self.total <= 0 {
            return 0;
        }
        let done: i128 = if self.elapsed < 0 {
            0
        } else if self.elapsed > self.total {
            self.total
        } else {
            self.elapsed
        };
        let left = self.total - done;
        let l = length as i128;
        assert(0 <= l * left <= l * self.total) by (nonlinear_arith)
            requires
                0 <= l,
                0 <= left <= self.total,
        ;
        assert(l * self.total <= 0x8000_0000 * 0x1_0000_0000_0000_0000) by (nonlinear_arith)
            requires
                0 <= l < 0x8000_0000,
                0 < self.total <= 0x1_0000_0000_0000_0000,
        ;
        let r = round_ratio_exec(l * left, self.total);
        proof {
            let n = (l * left) as int;
            let d = self.total as int;
            assert((2 * n + d) / (2 * d) <= l) by (nonlinear_arith)
                requires
                    0 <= n <= l * d,
                    d > 0,
                    l >= 0,
            ;
            assert((2 * n + d) / (2 * d) >= 0) by (nonlinear_arith)
                requires
                    0 <= n,
                    d > 0,
            ;
        }
        r as i32
    }
}

} // verus!
