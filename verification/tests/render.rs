use std::cell::Cell;
use tablero::icon::BuiltinIcon;
use tablero::number::Single;
use tablero::render::blend::blend_rect;
use tablero::render::cache::{ShapeKey, ShapedText, TextCache, ICON_CACHE_LIMIT, TEXT_CACHE_LIMIT};
use tablero::render::context::{render_text, RenderContext};
use tablero::render::glyphs::{centered_offset, ink_bounds, GlyphRect};
use tablero::render::{Bounds, RenderSettings, RenderStats};
use tiny_skia::Pixmap;

const FG: (u8, u8, u8, u8) = (0xEA, 0xEA, 0xEA, 0xFF);

fn settings(background: (u8, u8, u8, u8)) -> RenderSettings {
    RenderSettings {
        background,
        ..RenderSettings::default()
    }
}

fn context(width: u32, height: u32) -> RenderContext<String> {
    RenderContext::new(width, height)
}

/// A string laid out six pixels a character.
fn shape(text: &str) -> ShapedText<String> {
    ShapedText {
        buffer: text.to_string(),
        width: 6 * text.len() as u32,
        ink: None,
    }
}

fn measure(ctx: &mut RenderContext<String>, text: &str) -> u32 {
    ctx.measure_text(text, || shape(text))
}

fn glyph(x: i32, y: i32, width: u32, height: u32) -> GlyphRect {
    GlyphRect {
        x,
        y,
        width,
        height,
        rgba: [255, 255, 255, 255],
    }
}

/// A string in the foreground color, six pixels a character and left-aligned.
fn spelled(text: &str) -> Vec<GlyphRect> {
    (0..text.len() as i32)
        .map(|i| GlyphRect {
            rgba: [FG.0, FG.1, FG.2, FG.3],
            ..glyph(6 * i, 10, 5, 12)
        })
        .collect()
}

#[test]
fn render_text_has_rgba_length() {
    let px = render_text(&spelled("12:00:00"), 320, 32);
    assert_eq!(px.len(), 320 * 32 * 4);
}

#[test]
fn a_frame_without_pixels_has_no_bytes() {
    assert!(render_text(&spelled("12:00:00"), 0, 32).is_empty());
    assert!(render_text(&spelled("12:00:00"), 320, 0).is_empty());
}

#[test]
fn render_text_fills_dark_opaque_background() {
    let px = render_text(&spelled("12:00:00"), 320, 32);
    // The bottom-right corner is well clear of the left-aligned glyphs, so
    // it must still be the opaque dark background we filled.
    let last = &px[px.len() - 4..];
    assert!(
        last[0] < 0x30 && last[1] < 0x30 && last[2] < 0x30,
        "corner not dark: {last:?}"
    );
    assert_eq!(last[3], 0xFF, "corner not opaque");
}

#[test]
fn render_text_draws_some_foreground() {
    // Somewhere in the buffer a glyph must have lightened pixels above the
    // background level, proving text is actually rendered.
    let px = render_text(&spelled("12:00:00"), 320, 32);
    assert!(
        px.chunks(4).any(|p| p[0] > 0x60),
        "no foreground pixels found"
    );
    assert_eq!(&px[(10 * 320) * 4..][..4], &[0xEA, 0xEA, 0xEA, 0xFF]);
}

#[test]
fn fill_background_alpha_is_transparent() {
    // A background color with zero alpha clears to fully transparent pixels,
    // so a transparent bar lets the desktop show through. The stored bytes are
    // premultiplied, so zero alpha zeroes every channel.
    let mut ctx: RenderContext<String> =
        RenderContext::with_settings(8, 4, settings((0x80, 0x40, 0x20, 0x00)));
    ctx.fill_background();
    assert_eq!(
        &ctx.pixels()[0..4],
        &[0, 0, 0, 0],
        "background not transparent"
    );
}

#[test]
fn a_background_is_multiplied_by_its_alpha() {
    // Every channel under every alpha, two channels at a time.
    for alpha in 0..=255_u8 {
        for channel in 0..=255_u8 {
            let mut ctx: RenderContext<String> =
                RenderContext::with_settings(1, 1, settings((channel, 255 - channel, 0, alpha)));
            ctx.fill_background();
            let product = |c: u8| ((u32::from(c) * u32::from(alpha) + 127) / 255) as u8;
            assert_eq!(
                ctx.pixels(),
                &[product(channel), product(255 - channel), 0, alpha]
            );
        }
    }
}

#[test]
fn an_opaque_background_is_stored_as_it_is() {
    let mut ctx: RenderContext<String> =
        RenderContext::with_settings(3, 2, settings((1, 2, 3, 0xFF)));
    assert_eq!(ctx.pixels(), &[0; 24]);
    ctx.fill_background();
    for pixel in ctx.pixels().chunks(4) {
        assert_eq!(pixel, &[1, 2, 3, 0xFF]);
    }
}

#[test]
fn scale_factor_defaults_to_one_and_follows_settings() {
    let ctx = context(10, 10);
    assert_eq!(ctx.scale_factor(), 1);
    let scaled: RenderContext<String> = RenderContext::with_settings(
        10,
        10,
        RenderSettings {
            scale: 2,
            ..RenderSettings::default()
        },
    );
    assert_eq!(scaled.scale_factor(), 2);
}

#[test]
fn measure_text_grows_with_content_and_is_zero_for_empty() {
    let mut ctx = context(200, 32);
    assert_eq!(measure(&mut ctx, ""), 0, "empty text has zero width");
    assert_eq!(ctx.take_stats().text_shapes, 0);
    let one = measure(&mut ctx, "8");
    let many = measure(&mut ctx, "88:88:88");
    assert!(one > 0, "a single glyph has nonzero width");
    assert!(many > one, "more text is wider: {many} !> {one}");
}

#[test]
fn centered_text_centers_visible_ink_on_both_axes() {
    let mut ctx: RenderContext<String> =
        RenderContext::with_settings(60, 40, settings((0, 0, 0, 0)));
    let bounds = Bounds::new(7, 3, 40, 30);
    // A tall glyph with a dot above it, off the origin.
    ctx.draw_text_centered(&[glyph(11, -4, 5, 13), glyph(12, -8, 2, 2)], bounds);

    let mut min_x = u32::MAX;
    let mut min_y = u32::MAX;
    let mut max_x = 0;
    let mut max_y = 0;
    for (index, pixel) in ctx.pixels().chunks(4).enumerate() {
        if pixel[3] == 0 {
            continue;
        }
        let x = index as u32 % ctx.width();
        let y = index as u32 / ctx.width();
        min_x = min_x.min(x);
        min_y = min_y.min(y);
        max_x = max_x.max(x);
        max_y = max_y.max(y);
    }

    assert_ne!(min_x, u32::MAX, "centered glyph painted no pixels");
    let ink_center_x_twice = min_x + max_x + 1;
    let ink_center_y_twice = min_y + max_y + 1;
    let bounds_center_x_twice = 2 * bounds.x + bounds.width;
    let bounds_center_y_twice = 2 * bounds.y + bounds.height;
    assert!(ink_center_x_twice.abs_diff(bounds_center_x_twice) <= 1);
    assert!(ink_center_y_twice.abs_diff(bounds_center_y_twice) <= 1);
}

#[test]
fn the_ink_of_a_string_is_the_hull_of_its_coverage() {
    assert_eq!(ink_bounds(&[]), None);
    let ink = ink_bounds(&[glyph(2, 3, 4, 5), glyph(-1, 4, 2, 9)]);
    assert_eq!(ink, Some((-1, 3, 6, 13)));
    assert_eq!(
        centered_offset(Bounds::new(10, 20, 27, 30), ink),
        Some((21, 27))
    );
    assert_eq!(centered_offset(Bounds::new(10, 20, 27, 30), None), None);
}

#[test]
fn bounds_contains_is_half_open() {
    let b = Bounds::new(10, 5, 100, 20);
    assert!(b.contains(10, 5), "top-left corner is inside");
    assert!(b.contains(109, 24), "last interior pixel is inside");
    assert!(!b.contains(110, 24), "right edge is exclusive");
    assert!(!b.contains(109, 25), "bottom edge is exclusive");
    assert!(!b.contains(9, 5), "left of origin is outside");
}

#[test]
fn the_union_of_bounds_is_their_hull() {
    let a = Bounds::new(10, 5, 10, 10);
    let b = Bounds::new(15, 0, 20, 8);
    assert_eq!(a.union(&b), Bounds::new(10, 0, 25, 15));
    assert_eq!(a.union(&b), b.union(&a));
}

#[test]
fn render_context_reuses_pixmap_on_same_size_resize() {
    let mut ctx = context(64, 16);
    ctx.fill_background();
    ctx.resize(64, 16); // no-op
    assert_eq!((ctx.width(), ctx.height()), (64, 16));
    ctx.resize(128, 16); // grows
    assert_eq!((ctx.width(), ctx.height()), (128, 16));
    // Zero dimensions are ignored, leaving the last good size in place.
    ctx.resize(0, 16);
    assert_eq!((ctx.width(), ctx.height()), (128, 16));
    assert_eq!(ctx.pixels().len(), 128 * 16 * 4);
}

#[test]
fn draw_text_offsets_glyphs_by_bounds_origin() {
    // Text drawn into a bound that starts low and to the right must leave the
    // top-left of the surface untouched (still background).
    let mut ctx = context(200, 40);
    ctx.fill_background();
    ctx.draw_text(&[glyph(2, 10, 8, 12)], Bounds::new(150, 0, 40, 40));
    let px = ctx.pixels();
    // Top-left pixel is far from the glyph: must remain dark background.
    assert!(
        px[0] < 0x30 && px[1] < 0x30 && px[2] < 0x30,
        "top-left not bg"
    );
    // The glyph was drawn where it belongs.
    assert_eq!(&px[(10 * 200 + 152) * 4..][..4], &[255; 4]);
    assert!(px[(10 * 200 + 151) * 4] < 0x30);
}

#[test]
fn blend_rect_skips_transparent_coverage() {
    let mut data = [9_u8; 4];
    assert_eq!(
        blend_rect(&mut data, 1, 1, (0, 0), (1, 1), [255, 255, 255, 0]),
        0
    );
    assert_eq!(data, [9; 4]);
}

#[test]
fn blend_rect_composites_source_over_premultiplied() {
    // Opaque source replaces the destination outright.
    let mut data = [10, 20, 30, 255];
    blend_rect(&mut data, 1, 1, (0, 0), (1, 1), [200, 100, 50, 255]);
    assert_eq!(data, [200, 100, 50, 255]);

    // Half coverage over transparent stores the premultiplied source.
    let mut data = [0; 4];
    blend_rect(&mut data, 1, 1, (0, 0), (1, 1), [255, 255, 255, 128]);
    assert_eq!(data, [128; 4]);
}

#[test]
fn blend_rect_clips_to_the_target_without_panicking() {
    let mut data = [0_u8; 2 * 2 * 4];
    let white = [255; 4];
    // Overhangs the top-left corner: only pixel (0, 0) is inside.
    assert_eq!(blend_rect(&mut data, 2, 2, (-3, -3), (4, 4), white), 1);
    assert_eq!(data[..4], [255; 4]);
    assert_eq!(data[4..], [0; 12]);
    // Entirely outside, on every side and at the numeric extremes.
    for origin in [
        (2, 0),
        (0, 2),
        (-1, 0),
        (0, -1),
        (i64::MAX, 0),
        (i64::MIN, 0),
    ] {
        assert_eq!(blend_rect(&mut data, 2, 2, origin, (1, 1), white), 0);
    }
}

#[test]
fn text_overhanging_the_surface_is_clipped() {
    let mut ctx = context(20, 10);
    ctx.fill_background();
    ctx.draw_text(
        &[glyph(0, 0, 80, 30), glyph(i32::MAX, i32::MIN, u32::MAX, 7)],
        Bounds::new(15, 8, 400, 40),
    );
    ctx.draw_text_centered(&[glyph(-9, 0, 30, 30)], Bounds::new(10, 2, 400, 40));
    assert!(ctx.take_stats().glyph_pixels > 0);
}

#[test]
fn repeated_text_is_shaped_once_per_shaping_box() {
    let mut ctx = context(200, 40);
    let draw_box = ShapeKey {
        line_height: 40_f32.to_bits(),
        size: Some((200, 40)),
    };

    let first = measure(&mut ctx, "42%");
    ctx.shaped("42%", draw_box, || shape("42%"));
    // One shape for the unconstrained measurement, one for the draw box.
    assert_eq!(ctx.take_stats().text_shapes, 2);

    assert_eq!(measure(&mut ctx, "42%"), first);
    ctx.shaped("42%", draw_box, || shape("42%"));
    ctx.shaped("42%", draw_box, || panic!("the string is shaped already"));
    let stats = ctx.take_stats();
    assert_eq!((stats.text_shapes, stats.text_cache_hits), (0, 3));
}

#[test]
fn changing_the_font_drops_shaped_text_but_a_recolor_keeps_it() {
    let mut ctx = context(200, 40);
    let small = measure(&mut ctx, "resize me");

    ctx.set_settings(RenderSettings {
        accent: (1, 2, 3, 255),
        ..RenderSettings::default()
    });
    measure(&mut ctx, "resize me");
    assert_eq!(ctx.take_stats().text_cache_hits, 1);

    ctx.set_settings(RenderSettings {
        font_size: Single {
            bits: 32_f32.to_bits(),
        },
        ..RenderSettings::default()
    });
    let large = ctx.measure_text("resize me", || ShapedText {
        width: 2 * small,
        ..shape("resize me")
    });
    assert!(large > small);
    assert_eq!(ctx.take_stats().text_shapes, 1);
}

#[test]
fn font_sizes_are_compared_as_numbers() {
    let sized = |size: f32| RenderSettings {
        font_size: Single {
            bits: size.to_bits(),
        },
        ..RenderSettings::default()
    };
    let key = ShapeKey {
        line_height: 0,
        size: None,
    };
    let kept = |from: f32, to: f32| {
        let mut ctx: RenderContext<String> = RenderContext::with_settings(4, 4, sized(from));
        ctx.shaped("text", key, || shape("text"));
        ctx.set_settings(sized(to));
        ctx.shaped("text", key, || shape("text"));
        ctx.take_stats().text_cache_hits == 1
    };
    for (from, to) in [
        (16.0, 16.0),
        (16.0, 16.5),
        (0.0, -0.0),
        (-0.0, 0.0),
        (1.5, -1.5),
        (f32::NAN, f32::NAN),
        (-f32::NAN, -f32::NAN),
        (f32::INFINITY, f32::INFINITY),
        (f32::INFINITY, f32::NEG_INFINITY),
        (f32::MIN_POSITIVE, 0.0),
    ] {
        assert_eq!(kept(from, to), from == to, "{from} to {to}");
        let single = |size: f32| sized(size).font_size;
        assert_eq!(single(from).same(single(to)), from == to);
    }
}

#[test]
fn text_cache_never_exceeds_its_bound() {
    let mut cache: TextCache<String> = TextCache::new();
    let mut stats = RenderStats::default();
    let key = ShapeKey {
        line_height: 0,
        size: None,
    };
    for value in 0..TEXT_CACHE_LIMIT * 2 + 1 {
        let text = value.to_string();
        cache.get_or_shape(&mut stats, &text, key, || shape(&text));
        assert!(cache.len() <= TEXT_CACHE_LIMIT);
    }
    assert_eq!(stats.text_shapes as usize, TEXT_CACHE_LIMIT * 2 + 1);
    assert_eq!(cache.len(), 1);
}

fn paint_blank(mut raster: Pixmap) -> Pixmap {
    for pixel in raster.data_mut().chunks_mut(4) {
        pixel.copy_from_slice(&[0xEA, 0xEA, 0xEA, 0xFF]);
    }
    raster
}

#[test]
fn cached_builtin_icon_matches_the_direct_vector_fill() {
    let bounds = Bounds::new(9, 5, 24, 24);
    let mut ctx = context(48, 36);
    // Twice: the first call rasterises, the second composites the cache.
    for round in 0..2 {
        ctx.fill_background();
        if round == 0 {
            ctx.draw_builtin_icon(BuiltinIcon::Clock, bounds, FG, paint_blank);
        } else {
            ctx.draw_builtin_icon(BuiltinIcon::Clock, bounds, FG, |_: Pixmap| {
                panic!("the icon is painted already")
            });
        }
        for (i, pixel) in ctx.pixels().chunks(4).enumerate() {
            let (x, y) = (i as u32 % 48, i as u32 / 48);
            if bounds.contains(x, y) {
                assert_eq!(pixel, &[0xEA, 0xEA, 0xEA, 0xFF]);
            } else {
                assert_eq!(pixel, &[0x18, 0x18, 0x18, 0xFF]);
            }
        }
    }
}

#[test]
fn a_half_transparent_icon_is_laid_over_what_is_there() {
    let mut ctx: RenderContext<String> =
        RenderContext::with_settings(4, 4, settings((200, 100, 0, 0xFF)));
    ctx.fill_background();
    ctx.draw_builtin_icon(
        BuiltinIcon::Clock,
        Bounds::new(1, 1, 1, 1),
        FG,
        |mut raster: Pixmap| {
            raster.data_mut().copy_from_slice(&[128, 0, 64, 128]);
            raster
        },
    );
    let over = |src: i32, dst: i32| 255 * src + dst * (255 - 128);
    let pixel = &ctx.pixels()[(4 + 1) * 4..][..4];
    for (out, exact) in pixel
        .iter()
        .zip([over(128, 200), over(0, 100), over(64, 0), over(128, 255)])
    {
        assert!((255 * i32::from(*out) - exact).abs() <= 128);
    }
    assert_eq!(&ctx.pixels()[..4], &[200, 100, 0, 0xFF]);
}

/// Draw a raster whose opaque pixels tell their place, and look at every pixel.
fn shows_each_pixel(size: (u32, u32), slot: Bounds) {
    let mark = |column: u32, row: u32| [column as u8, (column >> 8) as u8, row as u8, 0xFF];
    let mut ctx: RenderContext<String> =
        RenderContext::with_settings(size.0, size.1, settings((0, 0, 0, 0)));
    ctx.draw_builtin_icon(BuiltinIcon::Clock, slot, FG, |mut raster: Pixmap| {
        let width = raster.width();
        for (i, pixel) in raster.data_mut().chunks_mut(4).enumerate() {
            pixel.copy_from_slice(&mark(i as u32 % width, i as u32 / width));
        }
        raster
    });
    for (i, pixel) in ctx.pixels().chunks(4).enumerate() {
        let (x, y) = (i as u32 % size.0, i as u32 / size.0);
        if slot.contains(x, y) {
            assert_eq!(pixel, &mark(x - slot.x, y - slot.y), "at {x}, {y}");
        } else {
            assert_eq!(pixel, &[0, 0, 0, 0], "at {x}, {y}");
        }
    }
}

#[test]
fn icons_are_composited_pixel_by_pixel_on_large_targets() {
    // Across the corner where four tiles meet, beside it, and over all of them.
    shows_each_pixel((8200, 8195), Bounds::new(8180, 8188, 15, 6));
    shows_each_pixel((8200, 3), Bounds::new(8191, 1, 4, 1));
    shows_each_pixel((8200, 3), Bounds::new(8187, 1, 4, 1));
    shows_each_pixel((3, 16400), Bounds::new(1, 0, 1, 16390));
    shows_each_pixel((17000, 2), Bounds::new(3, 0, 16990, 1));
    // Larger than its target, and past its edges.
    shows_each_pixel((40, 4), Bounds::new(7, 2, 9000, 3));
    shows_each_pixel((4, 40), Bounds::new(2, 7, 3, 9000));
    shows_each_pixel((8200, 2), Bounds::new(8190, 1, 9000, 2));
    shows_each_pixel((8200, 2), Bounds::new(8200, 0, 5, 2));
}

#[test]
fn an_icon_that_does_not_show_can_stand_anywhere() {
    let mut ctx = context(4, 4);
    let before = ctx.pixels().to_vec();
    let nothing = |_: Pixmap| -> Pixmap { panic!("nothing is painted") };
    for (bounds, color) in [
        (Bounds::new(i32::MAX as u32, 0, 9, 9), (1, 2, 3, 0)),
        (Bounds::new(i32::MAX as u32, 1, 5, 0), FG),
        (Bounds::new(0, i32::MAX as u32, 0, u32::MAX), FG),
        (Bounds::new(1, 1, u32::MAX, 1), FG),
    ] {
        ctx.draw_builtin_icon(BuiltinIcon::Clock, bounds, color, nothing);
        assert_eq!(ctx.pixels(), before);
    }
}

#[test]
fn builtin_icon_cache_distinguishes_color_and_size_and_stays_bounded() {
    let mut ctx = context(64, 64);
    let painted = Cell::new(0);
    let mut draw = |edge: u32, color: (u8, u8, u8, u8)| {
        ctx.draw_builtin_icon(
            BuiltinIcon::Clock,
            Bounds::new(0, 0, edge, edge),
            color,
            |raster: Pixmap| {
                painted.set(painted.get() + 1);
                raster
            },
        );
    };
    draw(16, FG);
    draw(16, (1, 2, 3, 255));
    draw(20, FG);
    assert_eq!(painted.get(), 3);
    draw(16, FG);
    draw(20, FG);
    assert_eq!(painted.get(), 3, "each is painted once");
    // Nothing shows of a clear color or an empty slot.
    draw(16, (1, 2, 3, 0));
    draw(0, FG);
    assert_eq!(painted.get(), 3);

    for edge in 1..=(ICON_CACHE_LIMIT as u32 * 2) {
        draw(edge, FG);
    }
    assert!(painted.get() > ICON_CACHE_LIMIT);
}
