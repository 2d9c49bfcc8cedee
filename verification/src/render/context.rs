//! The reusable render target: a pixel buffer with its settings, its caches and
//! its work counters.

use super::cache::{IconKey, ShapeKey, ShapedText, TextCache, ICON_CACHE_LIMIT};
use super::glyphs::{self, GlyphRect};
use super::pixmap;
use super::{Bounds, RenderSettings, RenderStats};
use crate::icon::BuiltinIcon;
use crate::table::Table;
use crate::text;
use tiny_skia::Pixmap;
use vstd::prelude::*;
use vstd::slice::slice_to_vec;

verus! {

/// A reusable software-render target shared across widgets within one frame.
///
/// Holds a destination pixel buffer and a cache of shaped strings so a redraw
/// neither reallocates them nor re-shapes unchanged labels every tick. Widgets
/// clear the background once, then each draws into its own [`Bounds`]; the
/// finished frame is read back as premultiplied RGBA8888 via
/// [`pixels`](RenderContext::pixels). `B` is the form in which shaped glyphs are
/// kept.
pub struct RenderContext<B> {
    pixmap: Pixmap,
    settings: RenderSettings,
    text_cache: TextCache<B>,
    icon_cache: Table<IconKey, Pixmap>,
    stats: RenderStats,
}

/// The side a target gets: at least one pixel.
pub open spec fn side(length: u32) -> u32 {
    if length == 0 {
        1
    } else {
        length
    }
}

/// Whether an icon in this slot and color shows at all: there are pixels, a raster can
/// have that many, and the color is not clear.
pub open spec fn icon_shows(bounds: Bounds, color: (u8, u8, u8, u8)) -> bool {
    color.3 > 0 && pixmap::is_pixmap_size(bounds.width as int, bounds.height as int)
}

impl<B> RenderContext<B> {
    /// The caches are within their bounds, and every cached icon has the size it
    /// is found by.
    pub closed spec fn wf(&self) -> bool {
        &&& self.text_cache.wf()
        &&& self.icon_cache.wf()
        &&& self.icon_cache@.dom().finite()
        &&& self.icon_cache@.dom().len() <= ICON_CACHE_LIMIT
        &&& forall|k: IconKey| #[trigger]
            self.icon_cache@.dom().contains(k) ==> pixmap::pixmap_size(self.icon_cache@[k])
                == k.size && pixmap::is_pixmap_size(k.size.0 as int, k.size.1 as int)
    }

    /// The width and height of the target.
    pub closed spec fn size(&self) -> (u32, u32) {
        pixmap::pixmap_size(self.pixmap)
    }

    /// The bytes of the frame.
    pub closed spec fn frame(&self) -> Seq<u8> {
        pixmap::pixmap_bytes(self.pixmap)
    }

    /// What the context paints with.
    pub closed spec fn look(&self) -> RenderSettings {
        self.settings
    }

    /// The cached strings.
    pub closed spec fn texts(&self) -> Map<(ShapeKey, Seq<char>), ShapedText<B>> {
        self.text_cache@
    }

    /// The cached icons.
    pub closed spec fn icons(&self) -> Map<IconKey, Pixmap> {
        self.icon_cache@
    }

    /// The work counted so far.
    pub closed spec fn work(&self) -> RenderStats {
        self.stats
    }

    /// The caches never exceed their bounds.
    pub proof fn lemma_caches_are_bounded(&self)
        requires
            self.wf(),
        ensures
            self.texts().dom().finite(),
            self.texts().dom().len() <= super::cache::TEXT_CACHE_LIMIT,
            self.icons().dom().finite(),
            self.icons().dom().len() <= ICON_CACHE_LIMIT,
    {
        self.text_cache.lemma_bounded();
    }

    /// Create a context targeting a `width * height` pixel surface, painting with
    /// the supplied [`RenderSettings`]. A zero side becomes one pixel.
    pub fn with_settings(width: u32, height: u32, settings: RenderSettings) -> (context: Self)
        requires
            pixmap::fits_memory(side(width) as int, side(height) as int),
            pixmap::is_pixmap_size(side(width) as int, side(height) as int),
        ensures
            context.wf(),
            context.size() == (side(width), side(height)),
            context.frame() == Seq::new(
                (4 * side(width) * side(height)) as nat,
                |i: int| 0u8,
            ),
            context.look() == settings,
            context.texts() == Map::<(ShapeKey, Seq<char>), ShapedText<B>>::empty(),
            context.icons() == Map::<IconKey, Pixmap>::empty(),
            context.work() == RenderStats::zero(),
    {
        let w: u32 = if width == 0 {
            1
        } else {
            width
        };
        let h: u32 = if height == 0 {
            1
        } else {
            height
        };
        let pixmap: Pixmap = Pixmap::new(w, h).unwrap();
        RenderContext {
            pixmap,
            settings,
            text_cache: TextCache::new(),
            icon_cache: Table::new(),
            stats: RenderStats::default(),
        }
    }

    /// Create a context with the built-in theme.
    pub fn new(width: u32, height: u32) -> (context: Self)
        requires
            pixmap::fits_memory(side(width) as int, side(height) as int),
            pixmap::is_pixmap_size(side(width) as int, side(height) as int),
        ensures
            context.wf(),
            context.size() == (side(width), side(height)),
            context.frame() == Seq::new(
                (4 * side(width) * side(height)) as nat,
                |i: int| 0u8,
            ),
            context.look()@ == super::RenderSettingsView::builtin(),
            context.texts() == Map::<(ShapeKey, Seq<char>), ShapedText<B>>::empty(),
            context.icons() == Map::<IconKey, Pixmap>::empty(),
            context.work() == RenderStats::zero(),
    {
        RenderContext::with_settings(width, height, RenderSettings::default())
    }

    /// The active foreground (default text) color.
    pub fn foreground(&self) -> (color: (u8, u8, u8, u8))
        ensures
            color == self.look().foreground,
    {
        self.settings.foreground
    }

    /// The active accent (emphasis) color.
    pub fn accent(&self) -> (color: (u8, u8, u8, u8))
        ensures
            color == self.look().accent,
    {
        self.settings.accent
    }

    /// The settings this context paints with.
    pub fn settings(&self) -> (settings: &RenderSettings)
        ensures
            *settings == self.look(),
    {
        &self.settings
    }

    /// Replace the settings this context paints with.
    ///
    /// Shaped text depends on the font, so the text cache is dropped when the
    /// font size or family changes, and kept otherwise. Sizes are compared as
    /// numbers.
    pub fn set_settings(&mut self, settings: RenderSettings)
        requires
            old(self).wf(),
        ensures
            final(self).wf(),
            final(self).look() == settings,
            final(self).texts() == if settings@.font_size.equals(old(self).look()@.font_size)
                && settings@.font_family == old(self).look()@.font_family {
                old(self).texts()
            } else {
                Map::empty()
            },
            final(self).size() == old(self).size(),
            final(self).frame() == old(self).frame(),
            final(self).icons() == old(self).icons(),
            final(self).work() == old(self).work(),
    {
        let same_family: bool = match (&settings.font_family, &self.settings.font_family) {
            (Some(a), Some(b)) => text::same(a.as_str(), b.as_str()),
            (None, None) => true,
            _ => false,
        };
        if !settings.font_size.same(self.settings.font_size) || !same_family {
            self.text_cache.clear();
        }
        self.settings = settings;
    }

    /// Return the work counters accumulated since the last call and reset them.
    pub fn take_stats(&mut self) -> (stats: RenderStats)
        requires
            old(self).wf(),
        ensures
            final(self).wf(),
            stats == old(self).work(),
            final(self).work() == RenderStats::zero(),
            final(self).size() == old(self).size(),
            final(self).frame() == old(self).frame(),
            final(self).look() == old(self).look(),
            final(self).texts() == old(self).texts(),
            final(self).icons() == old(self).icons(),
    {
        let stats: RenderStats = self.stats;
        self.stats = RenderStats::default();
        stats
    }

    /// Current target width in pixels.
    pub fn width(&self) -> (width: u32)
        ensures
            width == self.size().0,
    {
        self.pixmap.width()
    }

    /// Current target height in pixels.
    pub fn height(&self) -> (height: u32)
        ensures
            height == self.size().1,
    {
        self.pixmap.height()
    }

    /// The active integer output scale (always at least 1).
    ///
    /// Widgets multiply logical geometry (radius, padding, gap, margin) by this
    /// to land physical pixels. The font is already scaled into the font size, so
    /// it must *not* be multiplied again.
    pub fn scale_factor(&self) -> (factor: u32)
        ensures
            factor == side(self.look().scale),
    {
        if self.settings.scale == 0 {
            1
        } else {
            self.settings.scale
        }
    }

    /// Resize the target to `width * height`, reallocating only when the size
    /// actually changed. A zero dimension is ignored (the protocol uses zero to
    /// mean "keep your current value").
    pub fn resize(&mut self, width: u32, height: u32)
        requires
            old(self).wf(),
            pixmap::fits_memory(width as int, height as int),
            width > 0 && height > 0 ==> pixmap::is_pixmap_size(width as int, height as int),
        ensures
            final(self).wf(),
            width == 0 || height == 0 || (width, height) == old(self).size() ==> {
                &&& final(self).size() == old(self).size()
                &&& final(self).frame() == old(self).frame()
            },
            width > 0 && height > 0 && (width, height) != old(self).size() ==> {
                &&& final(self).size() == (width, height)
                &&& final(self).frame() == Seq::new((4 * width * height) as nat, |i: int| 0u8)
            },
            final(self).look() == old(self).look(),
            final(self).texts() == old(self).texts(),
            final(self).icons() == old(self).icons(),
            final(self).work() == old(self).work(),
    {
        if width == 0 || height == 0 {
            return;
        }
        if self.pixmap.width() != width || self.pixmap.height() != height {
            self.pixmap = Pixmap::new(width, height).unwrap();
        }
    }

    /// Fill the whole target with the configured background color, honoring its
    /// alpha (a transparent background lets the desktop show through).
    pub fn fill_background(&mut self)
        requires
            old(self).wf(),
        ensures
            final(self).wf(),
            final(self).size() == old(self).size(),
            final(self).frame() == Seq::new(
                old(self).frame().len(),
                |i: int| super::filled_byte(old(self).look().background, i % 4),
            ),
            old(self).look().background.3 == 0 ==> forall|i: int|
                0 <= i < final(self).frame().len() ==> #[trigger] final(self).frame()[i] == 0,
            old(self).look().background.3 == 0xFF ==> forall|i: int|
                0 <= i < final(self).frame().len() ==> #[trigger] final(self).frame()[i]
                    == pixmap::straight_byte(old(self).look().background, i % 4),
            final(self).look() == old(self).look(),
            final(self).texts() == old(self).texts(),
            final(self).icons() == old(self).icons(),
            final(self).work() == old(self).work(),
    {
        pixmap::fill(&mut self.pixmap, self.settings.background);
    }

    /// Blend a string's coverage into the target, with its buffer origin at
    /// `offset`, and count the pixels.
    pub fn blit_text(&mut self, coverage: &[GlyphRect], offset: (i64, i64))
        requires
            old(self).wf(),
            glyphs::is_offset(offset),
        ensures
            final(self).wf(),
            final(self).size() == old(self).size(),
            final(self).frame() == glyphs::blended_glyphs(
                old(self).frame(),
                old(self).size().0 as int,
                coverage@,
                offset,
            ),
            final(self).work() == (RenderStats {
                glyph_pixels: glyphs::counted_glyphs(
                    old(self).work().glyph_pixels,
                    old(self).size().0 as int,
                    old(self).size().1 as int,
                    coverage@,
                    offset,
                ),
                ..old(self).work()
            }),
            final(self).look() == old(self).look(),
            final(self).texts() == old(self).texts(),
            final(self).icons() == old(self).icons(),
    {
        let width: u32 = self.pixmap.width();
        let height: u32 = self.pixmap.height();
        let data: &mut [u8] = self.pixmap.data_mut();
        let counted: u32 = glyphs::blend_glyphs(
            data,
            width,
            height,
            coverage,
            offset,
            self.stats.glyph_pixels,
        );
        self.stats.glyph_pixels = counted;
    }

    /// Draw a string's coverage left-aligned within `bounds`. Nothing is drawn
    /// into an empty slot.
    pub fn draw_text(&mut self, coverage: &[GlyphRect], bounds: Bounds)
        requires
            old(self).wf(),
        ensures
            final(self).wf(),
            final(self).size() == old(self).size(),
            final(self).frame() == if bounds.width == 0 || bounds.height == 0 {
                old(self).frame()
            } else {
                glyphs::blended_glyphs(
                    old(self).frame(),
                    old(self).size().0 as int,
                    coverage@,
                    (bounds.x as i64, bounds.y as i64),
                )
            },
            final(self).work() == if bounds.width == 0 || bounds.height == 0 {
                old(self).work()
            } else {
                (RenderStats {
                    glyph_pixels: glyphs::counted_glyphs(
                        old(self).work().glyph_pixels,
                        old(self).size().0 as int,
                        old(self).size().1 as int,
                        coverage@,
                        (bounds.x as i64, bounds.y as i64),
                    ),
                    ..old(self).work()
                })
            },
            final(self).look() == old(self).look(),
            final(self).texts() == old(self).texts(),
            final(self).icons() == old(self).icons(),
    {
        if bounds.width == 0 || bounds.height == 0 {
            return;
        }
        self.blit_text(coverage, (bounds.x as i64, bounds.y as i64));
    }

    /// Draw a string's coverage with its visible ink centered within `bounds`.
    /// Nothing is drawn into an empty slot, nor of a string without ink.
    ///
    /// Intended for standalone icon glyphs whose font bearings can make the
    /// normal line-box alignment look off-center.
    pub fn draw_text_centered(&mut self, coverage: &[GlyphRect], bounds: Bounds)
        requires
            old(self).wf(),
        ensures
            final(self).wf(),
            final(self).size() == old(self).size(),
            final(self).frame() == if bounds.width == 0 || bounds.height == 0
                || coverage@.len() == 0 {
                old(self).frame()
            } else {
                glyphs::blended_glyphs(
                    old(self).frame(),
                    old(self).size().0 as int,
                    coverage@,
                    glyphs::centered_at(bounds, coverage@),
                )
            },
            final(self).work() == if bounds.width == 0 || bounds.height == 0 || coverage@.len()
                == 0 {
                old(self).work()
            } else {
                (RenderStats {
                    glyph_pixels: glyphs::counted_glyphs(
                        old(self).work().glyph_pixels,
                        old(self).size().0 as int,
                        old(self).size().1 as int,
                        coverage@,
                        glyphs::centered_at(bounds, coverage@),
                    ),
                    ..old(self).work()
                })
            },
            final(self).look() == old(self).look(),
            final(self).texts() == old(self).texts(),
            final(self).icons() == old(self).icons(),
    {
        if bounds.width == 0 || bounds.height == 0 {
            return;
        }
        match glyphs::centered_offset(bounds, glyphs::ink_bounds(coverage)) {
            Some(offset) => {
                self.blit_text(coverage, offset);
            },
            None => {},
        }
    }

    /// The shaped form of `text` in the `key` box, shaping it on a miss.
    pub fn shaped<F: FnOnce() -> ShapedText<B>>(
        &mut self,
        text: &str,
        key: ShapeKey,
        shape: F,
    ) -> (shaped: &mut ShapedText<B>)
        requires
            old(self).wf(),
            call_requires(shape, ()),
        ensures
            final(self).wf(),
            old(self).texts().dom().contains((key, text@)) ==> {
                &&& *shaped == old(self).texts()[(key, text@)]
                &&& final(self).texts() == old(self).texts().insert((key, text@), *final(shaped))
                &&& final(self).work() == (RenderStats {
                    text_cache_hits: super::cache::counted(old(self).work().text_cache_hits, 1),
                    ..old(self).work()
                })
            },
            !old(self).texts().dom().contains((key, text@)) ==> {
                &&& call_ensures(shape, (), *shaped)
                &&& final(self).texts() == super::cache::room_made(
                    old(self).texts(),
                    super::cache::TEXT_CACHE_LIMIT as int,
                ).insert((key, text@), *final(shaped))
                &&& final(self).work() == (RenderStats {
                    text_shapes: super::cache::counted(old(self).work().text_shapes, 1),
                    ..old(self).work()
                })
            },
            final(self).size() == old(self).size(),
            final(self).frame() == old(self).frame(),
            final(self).look() == old(self).look(),
            final(self).icons() == old(self).icons(),
    {
        self.text_cache.get_or_shape(&mut self.stats, text, key, shape)
    }

    /// The width in pixels `text` would occupy when shaped with the active font,
    /// unconstrained (single line, no wrapping), rounded up.
    ///
    /// Empty text measures zero without being shaped, so an empty widget reserves
    /// no slot.
    pub fn measure_text<F: FnOnce() -> ShapedText<B>>(&mut self, text: &str, shape: F) -> (width:
        u32)
        requires
            old(self).wf(),
            call_requires(shape, ()),
        ensures
            final(self).wf(),
            text@.len() == 0 ==> width == 0 && *final(self) == *old(self),
            text@.len() > 0 ==> ({
                let key = (
                    ShapeKey { line_height: old(self).look().font_size.bits, size: None },
                    text@,
                );
                &&& final(self).texts().dom().contains(key)
                &&& final(self).texts()[key].width == width
                &&& old(self).texts().dom().contains(key) ==> width
                    == old(self).texts()[key].width && final(self).texts() == old(self).texts()
                    && final(self).work() == (RenderStats {
                    text_cache_hits: super::cache::counted(old(self).work().text_cache_hits, 1),
                    ..old(self).work()
                })
                &&& !old(self).texts().dom().contains(key) ==> call_ensures(
                    shape,
                    (),
                    final(self).texts()[key],
                ) && final(self).texts() == super::cache::room_made(
                    old(self).texts(),
                    super::cache::TEXT_CACHE_LIMIT as int,
                ).insert(key, final(self).texts()[key]) && final(self).work() == (RenderStats {
                    text_shapes: super::cache::counted(old(self).work().text_shapes, 1),
                    ..old(self).work()
                })
            }),
            final(self).size() == old(self).size(),
            final(self).frame() == old(self).frame(),
            final(self).look() == old(self).look(),
            final(self).icons() == old(self).icons(),
    {
        if text.is_empty() {
            return 0;
        }
        let key = ShapeKey { line_height: self.settings.font_size.bits, size: None };
        let ghost before = self.texts();
        let shaped: &mut ShapedText<B> = self.shaped(text, key, shape);
        let width: u32 = shaped.width;
        proof {
            if before.dom().contains((key, text@)) {
                assert(before.insert((key, text@), before[(key, text@)]) =~= before);
            }
        }
        width
    }

    /// Fill a semantic [`BuiltinIcon`] into `bounds` in straight-alpha `color`.
    ///
    /// `paint` draws the icon into a transparent raster of the slot's size; a
    /// raster is kept and composited again while the same icon comes in the same
    /// size and color. A no-op for a zero-area slot, one too wide for a raster, or a
    /// fully transparent color. How the raster is composited is stated for coordinates
    /// that single precision holds exactly.
    pub fn draw_builtin_icon<F: FnOnce(Pixmap) -> Pixmap>(
        &mut self,
        icon: BuiltinIcon,
        bounds: Bounds,
        color: (u8, u8, u8, u8),
        paint: F,
    )
        requires
            old(self).wf(),
            icon_shows(bounds, color) ==> {
                &&& pixmap::fits_memory(bounds.width as int, bounds.height as int)
                &&& bounds.x <= i32::MAX && bounds.y <= i32::MAX ==> bounds.x + bounds.width
                    <= i32::MAX && bounds.y + bounds.height <= i32::MAX
                &&& forall|p: Pixmap| #[trigger] call_requires(paint, (p,))
                &&& forall|p: Pixmap, q: Pixmap| #[trigger]
                    call_ensures(paint, (p,), q) ==> pixmap::pixmap_size(q)
                        == pixmap::pixmap_size(p)
            },
        ensures
            final(self).wf(),
            final(self).size() == old(self).size(),
            final(self).frame().len() == old(self).frame().len(),
            final(self).look() == old(self).look(),
            final(self).texts() == old(self).texts(),
            final(self).work() == old(self).work(),
            ({
                let key = IconKey { icon, size: (bounds.width, bounds.height), color };
                if !icon_shows(bounds, color) {
                    &&& final(self).icons() == old(self).icons()
                    &&& final(self).frame() == old(self).frame()
                } else if old(self).icons().dom().contains(key) {
                    final(self).icons() == old(self).icons()
                } else {
                    &&& final(self).icons().dom().contains(key)
                    &&& final(self).icons() == super::cache::room_made(
                        old(self).icons(),
                        ICON_CACHE_LIMIT as int,
                    ).insert(key, final(self).icons()[key])
                    &&& exists|blank: Pixmap|
                        #![trigger pixmap::pixmap_size(blank)]
                        pixmap::pixmap_size(blank) == key.size && pixmap::pixmap_bytes(blank)
                            == Seq::new(
                            (4 * bounds.width * bounds.height) as nat,
                            |i: int| 0u8,
                        ) && call_ensures(paint, (blank,), final(self).icons()[key])
                }
            }),
            ({
                let key = IconKey { icon, size: (bounds.width, bounds.height), color };
                let exact = pixmap::is_exact(
                    old(self).size(),
                    bounds.x as int,
                    bounds.y as int,
                    key.size,
                );
                icon_shows(bounds, color) && bounds.x <= i32::MAX && bounds.y <= i32::MAX && exact
                    ==> pixmap::is_composited(
                    old(self).frame(),
                    old(self).size(),
                    bounds.x as int,
                    bounds.y as int,
                    pixmap::pixmap_bytes(final(self).icons()[key]),
                    key.size,
                    final(self).frame(),
                )
            }),
            bounds.x > i32::MAX || bounds.y > i32::MAX ==> final(self).frame()
                == old(self).frame(),
    {
        if bounds.width == 0 || bounds.height == 0 || color.3 == 0 {
            return;
        }
        let key = IconKey { icon, size: (bounds.width, bounds.height), color };
        assert(self.icon_cache@.dom().contains(key) ==> icon_shows(bounds, color));
        if !self.icon_cache.contains(&key) {
            let blank: Pixmap = match Pixmap::new(bounds.width, bounds.height) {
                Some(blank) => blank,
                None => {
                    return;
                },
            };
            let ghost sheet = blank;
            let raster: Pixmap = paint(blank);
            assert(pixmap::pixmap_size(sheet) == key.size);
            if self.icon_cache.len() >= ICON_CACHE_LIMIT {
                self.icon_cache.clear();
            }
            self.icon_cache.insert(key, raster);
        }
        if bounds.x > i32::MAX as u32 || bounds.y > i32::MAX as u32 {
            return;
        }
        match self.icon_cache.get(&key) {
            Some(raster) => {
                pixmap::draw_pixmap(&mut self.pixmap, bounds.x as i32, bounds.y as i32, raster);
            },
            None => {},
        }
    }

    /// The target itself, for painting shapes on it.
    pub fn canvas(&mut self) -> (canvas: &mut Pixmap)
        requires
            old(self).wf(),
        ensures
            pixmap::pixmap_size(*canvas) == old(self).size(),
            pixmap::pixmap_bytes(*canvas) == old(self).frame(),
            final(self).wf(),
            final(self).size() == pixmap::pixmap_size(*final(canvas)),
            final(self).frame() == pixmap::pixmap_bytes(*final(canvas)),
            final(self).look() == old(self).look(),
            final(self).texts() == old(self).texts(),
            final(self).icons() == old(self).icons(),
            final(self).work() == old(self).work(),
    {
        &mut self.pixmap
    }

    /// Premultiplied RGBA8888 bytes of the current frame (`[R, G, B, A]` per
    /// pixel). Convert to the Wayland shared-memory layout with
    /// [`write_argb8888`](crate::blit::write_argb8888) before committing.
    pub fn pixels(&self) -> (pixels: &[u8])
        ensures
            pixels@ == self.frame(),
            pixels@.len() == 4 * self.size().0 * self.size().1,
    {
        self.pixmap.data()
    }
}

/// A frame of the built-in background.
pub open spec fn backdrop(width: u32, height: u32) -> Seq<u8> {
    Seq::new(
        (4 * width * height) as nat,
        |i: int|
            pixmap::straight_byte(super::RenderSettingsView::builtin().background, i % 4),
    )
}

/// Render a string's coverage over the built-in background into a
/// `width * height` pixel buffer.
///
/// Returns premultiplied RGBA8888 bytes (each pixel is `[R, G, B, A]`), of length
/// `width * height * 4`: none when there are no pixels. Convert to the Wayland
/// shared-memory layout with [`write_argb8888`](crate::blit::write_argb8888) before
/// committing the buffer. This is a one-shot; long-lived render loops hold a
/// [`RenderContext`] and reuse it instead.
pub fn render_text(coverage: &[GlyphRect], width: u32, height: u32) -> (pixels: Vec<u8>)
    requires
        width > 0 && height > 0 ==> pixmap::fits_memory(width as int, height as int)
            && pixmap::is_pixmap_size(width as int, height as int),
    ensures
        pixels@ == if width == 0 || height == 0 {
            Seq::<u8>::empty()
        } else {
            glyphs::blended_glyphs(backdrop(width, height), width as int, coverage@, (0, 0))
        },
        pixels@.len() == 4 * width * height,
{
    if width == 0 || height == 0 {
        assert(4 * width * height == 0) by (nonlinear_arith)
            requires
                width == 0 || height == 0,
        ;
        return Vec::new();
    }
    let mut context: RenderContext<()> = RenderContext::new(width, height);
    context.fill_background();
    assert(context.frame() =~= backdrop(width, height));
    context.draw_text(coverage, Bounds::new(0, 0, width, height));
    slice_to_vec(context.pixels())
}

/// A context paints with the settings it was given, on a target of its size, a side of none
/// being one pixel.
pub proof fn lemma_a_context_is_as_it_was_set_up<B>(
    width: u32,
    height: u32,
    settings: RenderSettings,
    context: RenderContext<B>,
    told: ((u8, u8, u8, u8), (u8, u8, u8, u8), u32, u32, u32),
)
    requires
        call_ensures(RenderContext::<B>::with_settings, (width, height, settings), context),
        call_ensures(RenderContext::<B>::foreground, (&context,), told.0),
        call_ensures(RenderContext::<B>::accent, (&context,), told.1),
        call_ensures(RenderContext::<B>::width, (&context,), told.2),
        call_ensures(RenderContext::<B>::height, (&context,), told.3),
        call_ensures(RenderContext::<B>::scale_factor, (&context,), told.4),
    ensures
        told.0 == settings.foreground,
        told.1 == settings.accent,
        width > 0 ==> told.2 == width,
        width == 0 ==> told.2 == 1,
        height > 0 ==> told.3 == height,
        height == 0 ==> told.3 == 1,
        settings.scale > 0 ==> told.4 == settings.scale,
        settings.scale == 0 ==> told.4 == 1,
        context.work().text_shapes == 0 && context.work().text_cache_hits == 0
            && context.work().glyph_pixels == 0,
{
}

/// Shaped text is kept through a change of colors and of the scale, and dropped with
/// another font.
pub proof fn lemma_shaped_text_goes_with_its_font<B>(
    context: &mut RenderContext<B>,
    settings: RenderSettings,
    key: ShapeKey,
    text: Seq<char>,
)
    requires
        old(context).wf(),
        call_ensures(RenderContext::<B>::set_settings, (context, settings), ()),
        0x3F80_0000 <= old(context).look().font_size.bits <= 0x4400_0000,
    ensures
        final(context).look() == settings,
        settings.font_size == old(context).look().font_size && settings@.font_family == old(context).look()@.font_family ==> final(context).texts() == old(context).texts(),
        settings.font_size != old(context).look().font_size || settings@.font_family != old(context).look()@.font_family ==> !final(context).texts().dom().contains((key, text)),
        final(context).icons() == old(context).icons(),
        final(context).frame() == old(context).frame(),
{
}

/// The work that is told is what was done since it was told last.
pub proof fn lemma_work_is_told_once<B>(context: &mut RenderContext<B>, stats: RenderStats)
    requires
        old(context).wf(),
        call_ensures(RenderContext::<B>::take_stats, (context,), stats),
    ensures
        stats == old(context).work(),
        final(context).work().text_shapes == 0,
        final(context).work().text_cache_hits == 0,
        final(context).work().glyph_pixels == 0,
        final(context).frame() == old(context).frame(),
        final(context).texts() == old(context).texts(),
{
}

/// A target takes another size where both sides have a length, and is clear then; else it
/// stays as it is.
pub proof fn lemma_a_target_takes_another_size<B>(
    context: &mut RenderContext<B>,
    width: u32,
    height: u32,
    i: int,
)
    requires
        old(context).wf(),
        call_ensures(RenderContext::<B>::resize, (context, width, height), ()),
    ensures
        width > 0 && height > 0 ==> final(context).size() == (width, height),
        width == 0 || height == 0 ==> final(context).size() == old(context).size() && final(context).frame() == old(context).frame(),
        (width, height) == old(context).size() ==> final(context).frame() == old(context).frame(),
        width > 0 && height > 0 && (width, height) != old(context).size() && 0 <= i < 4 * width
            * height ==> final(context).frame()[i] == 0,
        final(context).look() == old(context).look(),
{
}

/// Nothing is drawn into an empty slot, and a string is drawn from the corner of its slot:
/// an opaque rectangle of it colors the pixels it is put on, and no other pixel changes.
pub proof fn lemma_a_string_is_drawn_from_its_corner<B>(
    context: &mut RenderContext<B>,
    coverage: &[GlyphRect],
    bounds: Bounds,
    px: int,
    py: int,
    c: int,
)
    requires
        old(context).wf(),
        call_ensures(RenderContext::<B>::draw_text, (context, coverage, bounds), ()),
        coverage@.len() == 1,
        coverage@[0].rgba@[3] == 255,
        0 <= px < old(context).size().0,
        0 <= py < old(context).size().1,
        0 <= c < 4,
        old(context).frame().len() == 4 * old(context).size().0 * old(context).size().1,
    ensures
        bounds.width == 0 || bounds.height == 0 ==> final(context).frame() == old(context).frame(),
        bounds.width > 0 && bounds.height > 0 ==> {
            let g = coverage@[0];
            let i = (py * old(context).size().0 + px) * 4 + c;
            let inside = bounds.x + g.x <= px < bounds.x + g.x + g.width && bounds.y + g.y <= py
                < bounds.y + g.y + g.height;
            &&& inside ==> final(context).frame()[i] == g.rgba@[c]
            &&& !inside ==> final(context).frame()[i] == old(context).frame()[i]
        },
        final(context).look() == old(context).look(),
{
    let before = context.frame();
    let w = context.size().0 as int;
    let h = context.size().1 as int;
    let g = coverage@[0];
    let offset = (bounds.x as i64, bounds.y as i64);
    let i = (py * w + px) * 4 + c;
    reveal_with_fuel(glyphs::blended_glyphs, 2);
    assert(coverage@.drop_last().len() == 0);
    assert(coverage@.last() == g);
    assert(0 <= i < 4 * w * h && i % 4 == c && (i / 4) % w == px && (i / 4) / w == py) by {
        lemma_pixel_place(w, h, px, py, c);
    }
    assert(before[i] * (255 - 255) == 0);
    assert(c < 3 ==> g.rgba@[c] * 255 == 255 * g.rgba@[c]);
}

proof fn lemma_pixel_place(w: int, h: int, px: int, py: int, c: int)
    requires
        0 <= px < w,
        0 <= py < h,
        0 <= c < 4,
    ensures
        ({
            let i = (py * w + px) * 4 + c;
            0 <= i < 4 * w * h && i % 4 == c && (i / 4) % w == px && (i / 4) / w == py
        }),
{
    let i = (py * w + px) * 4 + c;
    let q = py * w + px;
    assert(0 <= q < w * h) by (nonlinear_arith)
        requires
            q == py * w + px,
            0 <= px < w,
            0 <= py < h,
    ;
    assert(4 * w * h == 4 * (w * h)) by (nonlinear_arith);
    assert(i / 4 == q && i % 4 == c);
    vstd::arithmetic::div_mod::lemma_fundamental_div_mod_converse(q, w, py, px);
}

/// A string without ink is drawn nowhere, and one with ink in the middle of its slot: each
/// of its pixels is moved by the same offset, which leaves the same room on both sides.
pub proof fn lemma_a_centered_string_is_drawn_in_the_middle<B>(
    context: &mut RenderContext<B>,
    coverage: &[GlyphRect],
    bounds: Bounds,
    ink: Option<super::cache::InkBounds>,
    offset: Option<(i64, i64)>,
)
    requires
        old(context).wf(),
        call_ensures(RenderContext::<B>::draw_text_centered, (context, coverage, bounds), ()),
        call_ensures(glyphs::ink_bounds, (coverage,), ink),
        call_ensures(glyphs::centered_offset, (bounds, ink), offset),
    ensures
        coverage@.len() == 0 || bounds.width == 0 || bounds.height == 0 ==> final(context).frame()
            == old(context).frame(),
        coverage@.len() > 0 && bounds.width > 0 && bounds.height > 0 ==> offset is Some && final(context).frame() == glyphs::blended_glyphs(
            old(context).frame(),
            old(context).size().0 as int,
            coverage@,
            offset->0,
        ),
{
    if coverage@.len() > 0 {
        glyphs::lemma_ink_spans_every_glyph(coverage@, 0);
    }
}

/// A text is shaped once for its box: asked for again it is what was shaped, and counts as
/// found.
pub proof fn lemma_a_text_is_shaped_once<B, F: FnOnce() -> ShapedText<B>>(
    context: &mut RenderContext<B>,
    text: &str,
    shape: F,
    width: u32,
    key: (ShapeKey, Seq<char>),
)
    requires
        old(context).wf(),
        call_ensures(RenderContext::<B>::measure_text::<F>, (context, text, shape), width),
        key.0.line_height == old(context).look().font_size.bits,
        key.0.size is None,
        key.1 == text@,
    ensures
        text@.len() == 0 ==> width == 0 && *final(context) == *old(context),
        text@.len() > 0 ==> {
            let known = old(context).texts().dom().contains(key);
            &&& final(context).texts().dom().contains(key)
            &&& final(context).texts()[key].width == width
            &&& known ==> width == old(context).texts()[key].width
            &&& known && old(context).work().text_cache_hits < u32::MAX ==> final(context).work().text_cache_hits == old(context).work().text_cache_hits + 1
            &&& known ==> final(context).work().text_shapes == old(context).work().text_shapes
            &&& !known && old(context).work().text_shapes < u32::MAX ==> final(context).work().text_shapes == old(context).work().text_shapes + 1
            &&& !known ==> final(context).work().text_cache_hits == old(context).work().text_cache_hits
        },
        final(context).frame() == old(context).frame(),
{
}

/// An icon that cannot show changes nothing. One that shows is kept for its size and its
/// color, and other icons stay kept while there is room.
pub proof fn lemma_an_icon_is_kept_for_its_size_and_color<B, F: FnOnce(Pixmap) -> Pixmap>(
    context: &mut RenderContext<B>,
    icon: BuiltinIcon,
    bounds: Bounds,
    color: (u8, u8, u8, u8),
    paint: F,
    other: IconKey,
)
    requires
        old(context).wf(),
        call_ensures(
            RenderContext::<B>::draw_builtin_icon::<F>,
            (context, icon, bounds, color, paint),
            (),
        ),
    ensures
        color.3 == 0 || bounds.width == 0 || bounds.height == 0 ==> final(context).frame() == old(context).frame() && final(context).icons() == old(context).icons(),
        color.3 > 0 && bounds.width > 0 && bounds.height > 0 && 4 * bounds.width <= i32::MAX ==> {
            let key = IconKey { icon, size: (bounds.width, bounds.height), color };
            &&& final(context).icons().dom().contains(key)
            &&& old(context).icons().dom().contains(key) ==> final(context).icons() == old(context).icons()
            &&& other != key && old(context).icons().dom().contains(other) && old(context).icons().dom().len() < 64 ==> final(context).icons().dom().contains(other) && final(context).icons()[other] == old(context).icons()[other]
        },
        final(context).texts() == old(context).texts(),
        final(context).size() == old(context).size(),
{
}

/// The background is the configured color on every pixel of the target, by its alpha.
pub proof fn lemma_the_background_fills_the_target<B>(
    context: &mut RenderContext<B>,
    pixel: int,
)
    requires
        old(context).wf(),
        call_ensures(RenderContext::<B>::fill_background, (context,), ()),
        0 <= 4 * pixel,
        4 * pixel + 3 < old(context).frame().len(),
    ensures
        ({
            let color = old(context).look().background;
            let frame = final(context).frame();
            &&& frame.len() == old(context).frame().len()
            &&& frame[4 * pixel + 3] == color.3
            &&& color.3 == 255 ==> frame[4 * pixel] == color.0 && frame[4 * pixel + 1] == color.1
                && frame[4 * pixel + 2] == color.2
            &&& color.3 == 0 ==> frame[4 * pixel] == 0 && frame[4 * pixel + 1] == 0 && frame[4
                * pixel + 2] == 0
            &&& -255 <= 2 * (255 * frame[4 * pixel] - color.0 * color.3) <= 255
            &&& -255 <= 2 * (255 * frame[4 * pixel + 1] - color.1 * color.3) <= 255
            &&& -255 <= 2 * (255 * frame[4 * pixel + 2] - color.2 * color.3) <= 255
        }),
{
    let color = context.look().background;
    super::lemma_a_filled_pixel_has_the_color(color);
    assert((4 * pixel) % 4 == 0 && (4 * pixel + 1) % 4 == 1 && (4 * pixel + 2) % 4 == 2 && (4
        * pixel + 3) % 4 == 3);
}

/// A text that is rendered alone stands on the dark built-in background, which every pixel
/// keeps that the text does not cover.
pub proof fn lemma_a_text_stands_on_the_dark_background(
    coverage: &[GlyphRect],
    width: u32,
    height: u32,
    pixels: Vec<u8>,
    pixel: int,
)
    requires
        call_ensures(render_text, (coverage, width, height), pixels),
        coverage@.len() == 0,
        0 <= 4 * pixel,
        4 * pixel + 3 < 4 * width * height,
    ensures
        pixels@.len() == 4 * width * height,
        pixels@[4 * pixel] == 0x18,
        pixels@[4 * pixel + 1] == 0x18,
        pixels@[4 * pixel + 2] == 0x18,
        pixels@[4 * pixel + 3] == 0xFF,
{
    assert((4 * pixel) % 4 == 0 && (4 * pixel + 1) % 4 == 1 && (4 * pixel + 2) % 4 == 2 && (4
        * pixel + 3) % 4 == 3);
    if width == 0 {
        assert(4 * width * height == 0) by (nonlinear_arith)
            requires
                width == 0,
        ;
    }
    if height == 0 {
        assert(4 * width * height == 0) by (nonlinear_arith)
            requires
                height == 0,
        ;
    }
}

/// The pixels that are read are those of the frame, four bytes to each.
pub proof fn lemma_the_frame_is_read_as_it_is<B>(context: RenderContext<B>, pixels: &[u8])
    requires
        call_ensures(RenderContext::<B>::pixels, (&context,), pixels),
    ensures
        pixels@ == context.frame(),
        pixels@.len() == 4 * context.size().0 * context.size().1,
{
}

/// A text that is new comes to those that are kept while there are fewer than 256 of them,
/// and else takes their place.
pub proof fn lemma_a_full_cache_is_dropped<B, F: FnOnce() -> ShapedText<B>>(
    context: &mut RenderContext<B>,
    text: &str,
    shape: F,
    width: u32,
    key: (ShapeKey, Seq<char>),
    other: (ShapeKey, Seq<char>),
)
    requires
        old(context).wf(),
        call_ensures(RenderContext::<B>::measure_text::<F>, (context, text, shape), width),
        text@.len() > 0,
        key.0.line_height == old(context).look().font_size.bits,
        key.0.size is None,
        key.1 == text@,
        !old(context).texts().dom().contains(key),
        other != key,
    ensures
        old(context).texts().dom().len() < 256 ==> (final(context).texts().dom().contains(other)
            <==> old(context).texts().dom().contains(other)),
        old(context).texts().dom().len() >= 256 ==> !final(context).texts().dom().contains(other),
{
}

/// An icon that is new takes the place of those that are kept once there are 64 of them.
pub proof fn lemma_a_full_cache_of_icons_is_dropped<B, F: FnOnce(Pixmap) -> Pixmap>(
    context: &mut RenderContext<B>,
    icon: BuiltinIcon,
    bounds: Bounds,
    color: (u8, u8, u8, u8),
    paint: F,
    other: IconKey,
)
    requires
        old(context).wf(),
        call_ensures(
            RenderContext::<B>::draw_builtin_icon::<F>,
            (context, icon, bounds, color, paint),
            (),
        ),
        color.3 > 0 && bounds.width > 0 && bounds.height > 0 && 4 * bounds.width <= i32::MAX,
        !old(context).icons().dom().contains(
            IconKey { icon, size: (bounds.width, bounds.height), color },
        ),
        other != (IconKey { icon, size: (bounds.width, bounds.height), color }),
    ensures
        old(context).icons().dom().len() >= 64 ==> !final(context).icons().dom().contains(other),
        old(context).icons().dom().len() < 64 ==> (final(context).icons().dom().contains(other)
            <==> old(context).icons().dom().contains(other)),
{
}

} // verus!
