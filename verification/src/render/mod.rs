//! Software rendering: rectangles, render settings, and the render target.

pub mod blend;
pub mod cache;
pub mod context;
pub mod glyphs;
pub mod pixmap;

use crate::number::{Single, SINGLE_SIXTEEN};
use crate::text;
use vstd::prelude::*;

pub use context::RenderContext;

verus! {

/// The visual settings a render target paints with: theme colors and font.
///
/// One value resolved once (from configuration, or [`RenderSettings::default`]
/// for the built-in theme), so widgets read the active colors through the target
/// rather than baking in constants.
#[derive(Debug, PartialEq, Eq)]
pub struct RenderSettings {
    /// Background fill behind every widget. A non-opaque alpha lets the desktop
    /// show through, which is what makes a "floating pills" bar possible.
    pub background: (u8, u8, u8, u8),
    /// Default text color.
    pub foreground: (u8, u8, u8, u8),
    /// Emphasis color (e.g. the active workspace).
    pub accent: (u8, u8, u8, u8),
    /// Text size in pixels.
    pub font_size: Single,
    /// Font family name, or `None` for the system default.
    pub font_family: Option<String>,
    /// Integer output scale (HiDPI). The font is *pre-scaled* into `font_size`;
    /// this factor scales the *geometry* widgets author in logical pixels
    /// (pill radius, padding, inter-pill gap, bar margin) at render/layout time.
    pub scale: u32,
}

/// The contents of [`RenderSettings`].
#[verifier::ext_equal]
pub struct RenderSettingsView {
    pub background: (u8, u8, u8, u8),
    pub foreground: (u8, u8, u8, u8),
    pub accent: (u8, u8, u8, u8),
    pub font_size: Single,
    pub font_family: Option<Seq<char>>,
    pub scale: u32,
}

impl View for RenderSettings {
    type V = RenderSettingsView;

    open spec fn view(&self) -> RenderSettingsView {
        RenderSettingsView {
            background: self.background,
            foreground: self.foreground,
            accent: self.accent,
            font_size: self.font_size,
            font_family: text::optional(self.font_family),
            scale: self.scale,
        }
    }
}

impl RenderSettingsView {
    /// The built-in theme: light on opaque dark, the system font at sixteen
    /// pixels, unscaled.
    pub open spec fn builtin() -> RenderSettingsView {
        RenderSettingsView {
            background: (0x18, 0x18, 0x18, 0xFF),
            foreground: (0xEA, 0xEA, 0xEA, 0xFF),
            accent: (0xEA, 0xEA, 0xEA, 0xFF),
            font_size: Single { bits: SINGLE_SIXTEEN },
            font_family: None,
            scale: 1,
        }
    }
}

impl Default for RenderSettings {
    fn default() -> (settings: Self)
        ensures
            settings@ == RenderSettingsView::builtin(),
    {
        RenderSettings {
            background: (0x18, 0x18, 0x18, 0xFF),
            foreground: (0xEA, 0xEA, 0xEA, 0xFF),
            accent: (0xEA, 0xEA, 0xEA, 0xFF),
            font_size: Single { bits: SINGLE_SIXTEEN },
            font_family: None,
            scale: 1,
        }
    }
}

/// Byte `c` of a pixel filled with a straight-alpha color: the alpha, or a channel
/// multiplied by it, to the nearest step.
pub open spec fn filled_byte(color: (u8, u8, u8, u8), c: int) -> u8 {
    if c == 3 {
        color.3
    } else {
        blend::rounded_255th(pixmap::straight_byte(color, c) * color.3) as u8
    }
}

/// An axis-aligned rectangle in surface pixel coordinates.
///
/// Carries the layout slot a widget occupies: where it draws and how much room
/// it has.
#[derive(Debug, Clone, Copy, PartialEq, Eq, Structural)]
pub struct Bounds {
    pub x: u32,
    pub y: u32,
    pub width: u32,
    pub height: u32,
}

impl Bounds {
    /// Whether the rectangle claims the pixel `(px, py)`: half-open on the far
    /// edges, so adjacent rectangles never both claim a pixel.
    pub open spec fn claims(self, px: int, py: int) -> bool {
        self.x <= px < self.x + self.width && self.y <= py < self.y + self.height
    }

    /// Construct bounds from an origin and size.
    pub fn new(x: u32, y: u32, width: u32, height: u32) -> (bounds: Self)
        ensures
            bounds == (Bounds { x, y, width, height }),
    {
        Bounds { x, y, width, height }
    }

    /// True if `(px, py)` (surface pixel coordinates) falls within the rectangle.
    ///
    /// Half-open on the far edges, so adjacent bounds never both claim a pixel.
    pub fn contains(&self, px: u32, py: u32) -> (inside: bool)
        ensures
            inside == self.claims(px as int, py as int),
    {
        px >= self.x && px - self.x < self.width && py >= self.y && py - self.y < self.height
    }

    /// The smallest rectangle covering both `self` and `other`.
    pub fn union(&self, other: &Self) -> (hull: Self)
        requires
            self.x + self.width <= u32::MAX,
            self.y + self.height <= u32::MAX,
            other.x + other.width <= u32::MAX,
            other.y + other.height <= u32::MAX,
        ensures
            is_union(*self, *other, hull),
    {
        let x: u32 = if self.x <= other.x {
            self.x
        } else {
            other.x
        };
        let y: u32 = if self.y <= other.y {
            self.y
        } else {
            other.y
        };
        let right: u32 = if self.x + self.width >= other.x + other.width {
            self.x + self.width
        } else {
            other.x + other.width
        };
        let bottom: u32 = if self.y + self.height >= other.y + other.height {
            self.y + self.height
        } else {
            other.y + other.height
        };
        Bounds::new(x, y, right - x, bottom - y)
    }
}

/// Work counters for the frames painted since they were last taken.
///
/// The diagnostics logger reads them to attribute a frame's cost to shaping or
/// glyph blitting without reading the clock inside the text primitives. A counter
/// that reaches its largest value stays there.
#[derive(Debug, Clone, Copy, PartialEq, Eq, Structural)]
pub struct RenderStats {
    /// Strings shaped from scratch (a text-cache miss).
    pub text_shapes: u32,
    /// Strings served from the text cache without shaping.
    pub text_cache_hits: u32,
    /// Glyph coverage pixels blended into the target.
    pub glyph_pixels: u32,
}

impl RenderStats {
    /// Nothing counted.
    pub open spec fn zero() -> RenderStats {
        RenderStats { text_shapes: 0, text_cache_hits: 0, glyph_pixels: 0 }
    }
}

impl Default for RenderStats {
    fn default() -> (stats: Self)
        ensures
            stats == RenderStats::zero(),
    {
        RenderStats { text_shapes: 0, text_cache_hits: 0, glyph_pixels: 0 }
    }
}

/// The lesser of two numbers.
pub open spec fn least(a: int, b: int) -> int {
    if a <= b {
        a
    } else {
        b
    }
}

/// The greater of two numbers.
pub open spec fn greatest(a: int, b: int) -> int {
    if a >= b {
        a
    } else {
        b
    }
}

/// Whether `hull` spans exactly from the nearer to the farther edges of `a` and
/// `b`.
pub open spec fn is_union(a: Bounds, b: Bounds, hull: Bounds) -> bool {
    &&& hull.x == least(a.x as int, b.x as int)
    &&& hull.y == least(a.y as int, b.y as int)
    &&& hull.x + hull.width == greatest(a.x + a.width, b.x + b.width)
    &&& hull.y + hull.height == greatest(a.y + a.height, b.y + b.height)
}

/// The union claims every pixel that either rectangle claims.
pub proof fn lemma_union_covers_both(a: Bounds, b: Bounds, hull: Bounds, px: int, py: int)
    requires
        is_union(a, b, hull),
    ensures
        a.claims(px, py) ==> hull.claims(px, py),
        b.claims(px, py) ==> hull.claims(px, py),
{
}

/// The union is the smallest such rectangle: one that reaches around both
/// reaches around the union.
pub proof fn lemma_union_is_smallest(a: Bounds, b: Bounds, hull: Bounds, other: Bounds)
    requires
        is_union(a, b, hull),
        other.x <= a.x && other.x <= b.x,
        other.y <= a.y && other.y <= b.y,
        other.x + other.width >= a.x + a.width,
        other.x + other.width >= b.x + b.width,
        other.y + other.height >= a.y + a.height,
        other.y + other.height >= b.y + b.height,
    ensures
        other.x <= hull.x,
        other.y <= hull.y,
        other.x + other.width >= hull.x + hull.width,
        other.y + other.height >= hull.y + hull.height,
{
}

/// Rectangles side by side never both claim a pixel.
pub proof fn lemma_adjacent_bounds_share_no_pixel(a: Bounds, b: Bounds, px: int, py: int)
    requires
        a.x + a.width <= b.x || a.y + a.height <= b.y,
    ensures
        !(a.claims(px, py) && b.claims(px, py)),
{
}

/// A rectangle claims the pixels from its near edges up to its far ones, which it does not.
pub proof fn lemma_a_rectangle_claims_its_pixels(bounds: Bounds, px: u32, py: u32, inside: bool)
    requires
        call_ensures(Bounds::contains, (&bounds, px, py), inside),
    ensures
        inside <==> bounds.x <= px && px < bounds.x + bounds.width && bounds.y <= py && py
            < bounds.y + bounds.height,
{
}

/// The union of two rectangles begins where the first of them does and ends where the last
/// does, on both axes, whichever comes first.
pub proof fn lemma_a_union_spans_both(a: Bounds, b: Bounds, hull: Bounds, other: Bounds)
    requires
        call_ensures(Bounds::union, (&a, &b), hull),
        call_ensures(Bounds::union, (&b, &a), other),
    ensures
        hull == other,
        hull.x <= a.x && hull.x <= b.x && (hull.x == a.x || hull.x == b.x),
        hull.y <= a.y && hull.y <= b.y && (hull.y == a.y || hull.y == b.y),
        hull.x + hull.width >= a.x + a.width && hull.x + hull.width >= b.x + b.width,
        hull.x + hull.width == a.x + a.width || hull.x + hull.width == b.x + b.width,
        hull.y + hull.height >= a.y + a.height && hull.y + hull.height >= b.y + b.height,
        hull.y + hull.height == a.y + a.height || hull.y + hull.height == b.y + b.height,
{
}

/// A pixel that is filled has the color's alpha, and its channels by it to the nearest step.
pub proof fn lemma_a_filled_pixel_has_the_color(color: (u8, u8, u8, u8))
    ensures
        filled_byte(color, 3) == color.3,
        -255 <= 2 * (255 * filled_byte(color, 0) - color.0 * color.3) <= 255,
        -255 <= 2 * (255 * filled_byte(color, 1) - color.1 * color.3) <= 255,
        -255 <= 2 * (255 * filled_byte(color, 2) - color.2 * color.3) <= 255,
{
    assert(0 <= color.0 * color.3 <= 255 * 255) by (nonlinear_arith)
        requires
            0 <= color.0 <= 255,
            0 <= color.3 <= 255,
    ;
    assert(0 <= color.1 * color.3 <= 255 * 255) by (nonlinear_arith)
        requires
            0 <= color.1 <= 255,
            0 <= color.3 <= 255,
    ;
    assert(0 <= color.2 * color.3 <= 255 * 255) by (nonlinear_arith)
        requires
            0 <= color.2 <= 255,
            0 <= color.3 <= 255,
    ;
}

} // verus!
