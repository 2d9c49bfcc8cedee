//! The glyph blitter: source-over blending of plain rectangles into a
//! premultiplied RGBA8888 target.

use vstd::prelude::*;

verus! {

/// `value / 255`, rounded.
pub open spec fn rounded_255th(value: int) -> int {
    (value + 127) / 255
}

/// Rounded `value / 255` for `value <= 255 * 255`.
pub fn div255(value: u32) -> (quotient: u32)
    requires
        value <= 255 * 255,
    ensures
        quotient == rounded_255th(value as int),
        quotient <= 255,
{
    (value + 127) / 255
}

/// Where channel `c` of the pixel in column `px` and row `py` stands in a target
/// of `width` columns.
pub open spec fn channel_index(width: int, px: int, py: int, c: int) -> int {
    (py * width + px) * 4 + c
}

/// Whether a rectangle at `(x, y)` of size `w * h` covers column `px`, row `py`.
pub open spec fn covers(x: int, y: int, w: int, h: int, px: int, py: int) -> bool {
    x <= px < x + w && y <= py < y + h
}

/// `v` brought into `0..=limit`.
pub open spec fn clipped(v: int, limit: int) -> int {
    if v < 0 {
        0
    } else if v > limit {
        limit
    } else {
        v
    }
}

/// How many of the columns (or rows) `at..at + len` lie in `0..limit`.
pub open spec fn clipped_span(at: int, len: int, limit: int) -> int {
    clipped(at + len, limit) - clipped(at, limit)
}

/// Channel `c` of the straight-alpha color `rgba`, premultiplied.
pub open spec fn premultiplied(rgba: Seq<u8>, c: int) -> int {
    if c == 3 {
        rgba[3] as int
    } else {
        rounded_255th(rgba[c] * rgba[3])
    }
}

/// Channel value `dst` under channel `c` of the straight-alpha color `rgba`.
pub open spec fn source_over(rgba: Seq<u8>, c: int, dst: u8) -> int {
    premultiplied(rgba, c) + rounded_255th(dst * (255 - rgba[3]))
}

/// Whether `after` is `before`, a target of `width * height` pixels, with the
/// rectangle blended into it.
pub open spec fn is_blended(
    before: Seq<u8>,
    after: Seq<u8>,
    width: int,
    height: int,
    at: (i64, i64),
    size: (u32, u32),
    rgba: Seq<u8>,
) -> bool {
    &&& after.len() == before.len()
    &&& forall|px: int, py: int, c: int|
        0 <= px < width && 0 <= py < height && 0 <= c < 4 ==> {
            let i = #[trigger] channel_index(width, px, py, c);
            after[i] == if rgba[3] != 0 && covers(
                at.0 as int,
                at.1 as int,
                size.0 as int,
                size.1 as int,
                px,
                py,
            ) {
                source_over(rgba, c, before[i])
            } else {
                before[i] as int
            }
        }
}

/// A target of `width` columns with the rectangle blended into it.
pub open spec fn blended(
    before: Seq<u8>,
    width: int,
    at: (i64, i64),
    size: (u32, u32),
    rgba: Seq<u8>,
) -> Seq<u8> {
    Seq::new(
        before.len(),
        |i: int|
            if rgba[3] != 0 && covers(
                at.0 as int,
                at.1 as int,
                size.0 as int,
                size.1 as int,
                (i / 4) % width,
                (i / 4) / width,
            ) {
                source_over(rgba, i % 4, before[i]) as u8
            } else {
                before[i]
            },
    )
}

/// How many pixels of a `width * height` target the rectangle covers.
pub open spec fn covered_pixels(
    width: int,
    height: int,
    at: (i64, i64),
    size: (u32, u32),
    rgba: Seq<u8>,
) -> int {
    if rgba[3] == 0 {
        0
    } else {
        clipped_span(at.0 as int, size.0 as int, width) * clipped_span(
            at.1 as int,
            size.1 as int,
            height,
        )
    }
}

/// What holds pixel by pixel holds of the target as a whole.
pub proof fn lemma_blended(
    before: Seq<u8>,
    after: Seq<u8>,
    width: int,
    height: int,
    at: (i64, i64),
    size: (u32, u32),
    rgba: Seq<u8>,
)
    requires
        is_blended(before, after, width, height, at, size, rgba),
        0 <= width,
        0 <= height,
        before.len() == 4 * width * height,
    ensures
        after == blended(before, width, at, size, rgba),
{
    let whole = blended(before, width, at, size, rgba);
    assert forall|i: int| 0 <= i < before.len() implies after[i] == whole[i] by {
        let p = i / 4;
        assert(4 * width * height == 4 * (width * height)) by (nonlinear_arith);
        assert(0 <= p < width * height);
        assert(width > 0 && height > 0) by (nonlinear_arith)
            requires
                0 < width * height,
                0 <= width,
                0 <= height,
        ;
        let px = p % width;
        let py = p / width;
        vstd::arithmetic::div_mod::lemma_fundamental_div_mod(p, width);
        assert(py * width == width * py) by (nonlinear_arith);
        assert(0 <= py < height) by (nonlinear_arith)
            requires
                0 <= p < width * height,
                p == width * py + px,
                0 <= px < width,
        ;
        assert(channel_index(width, px, py, i % 4) == i);
    }
    assert(after =~= whole);
}

proof fn lemma_premultiplied_fits(channel: u8, alpha: u8)
    ensures
        0 <= channel * alpha <= 255 * 255,
        rounded_255th(channel * alpha) <= alpha,
{
    assert(0 <= channel * alpha <= 255 * alpha) by (nonlinear_arith)
        requires
            0 <= channel <= 255,
            0 <= alpha,
    ;
}

proof fn lemma_channel_index_bounds(width: int, height: int, px: int, py: int, c: int)
    requires
        0 <= px < width,
        0 <= py < height,
        0 <= c < 4,
    ensures
        0 <= py * width + px < width * height,
        0 <= channel_index(width, px, py, c) < 4 * width * height,
        channel_index(width, px, py, c) == channel_index(width, px, py, 0) + c,
{
    assert(0 <= py * width + px < width * height) by (nonlinear_arith)
        requires
            0 <= px < width,
            0 <= py < height,
    ;
    assert(4 * width * height == 4 * (width * height)) by (nonlinear_arith);
}

proof fn lemma_pixels_are_apart(width: int, px: int, py: int, qx: int, qy: int)
    requires
        0 <= px < width,
        0 <= qx < width,
        py * width + px == qy * width + qx,
    ensures
        px == qx,
        py == qy,
{
    assert(py == qy) by (nonlinear_arith)
        requires
            0 <= px < width,
            0 <= qx < width,
            py * width + px == qy * width + qx,
    ;
}

/// Blend one premultiplied source pixel into the pixel whose channels begin at
/// `at`.
fn blend_pixel(data: &mut [u8], at: usize, rgba: [u8; 4])
    requires
        at + 4 <= old(data)@.len(),
    ensures
        final(data)@.len() == old(data)@.len(),
        forall|i: int|
            0 <= i < old(data)@.len() && !(at <= i < at + 4) ==> #[trigger] final(data)@[i]
                == old(data)@[i],
        forall|c: int|
            0 <= c < 4 ==> #[trigger] final(data)@[at + c] == source_over(
                rgba@,
                c,
                old(data)@[at + c],
            ),
{
    let len: usize = data.len();
    let alpha: u32 = rgba[3] as u32;
    let inverse: u32 = 255 - alpha;
    let mut c: usize = 0;
    while c < 4
        invariant
            c <= 4,
            at + 4 <= len,
            len == old(data)@.len(),
            data@.len() == old(data)@.len(),
            alpha == rgba@[3],
            inverse == 255 - rgba@[3],
            forall|i: int|
                0 <= i < old(data)@.len() && !(at <= i < at + c) ==> #[trigger] data@[i] == old(
                    data,
                )@[i],
            forall|k: int|
                0 <= k < c ==> #[trigger] data@[at + k] == source_over(
                    rgba@,
                    k,
                    old(data)@[at + k],
                ),
        decreases 4 - c,
    {
        let dst: u8 = data[at + c];
        proof {
            lemma_premultiplied_fits(rgba@[c as int], rgba@[3]);
            lemma_premultiplied_fits(dst, inverse as u8);
        }
        let src: u32 = if c == 3 {
            alpha
        } else {
            div255(rgba[c] as u32 * alpha)
        };
        let kept: u32 = div255(dst as u32 * inverse);
        data[at + c] = (src + kept) as u8;
        assert(data@[at + c] == source_over(rgba@, c as int, dst));
        c += 1;
    }
}

fn clip(v: i64, limit: u32) -> (clip: u32)
    ensures
        clip == clipped(v as int, limit as int),
{
    if v < 0 {
        0
    } else if v > limit as i64 {
        limit
    } else {
        v as u32
    }
}

fn clip_end(v: i64, len: u32, limit: u32) -> (clip_at: u32)
    ensures
        clip_at == clipped(v + len, limit as int),
{
    match v.checked_add(len as i64) {
        Some(end) => clip(end, limit),
        None => limit,
    }
}

/// Source-over blend a straight-alpha `rgba` rectangle into premultiplied
/// RGBA8888 `data` (`width * height` pixels), clipped to the target.
///
/// Glyph coverage arrives as 1x1 rectangles, including fully transparent ones
/// across each glyph's bounding box, so a zero alpha leaves early. Returns the
/// number of pixels written.
pub fn blend_rect(
    data: &mut [u8],
    width: u32,
    height: u32,
    at: (i64, i64),
    size: (u32, u32),
    rgba: [u8; 4],
) -> (written: u32)
    requires
        old(data)@.len() == 4 * width * height,
    ensures
        is_blended(old(data)@, final(data)@, width as int, height as int, at, size, rgba@),
        final(data)@ == blended(old(data)@, width as int, at, size, rgba@),
        written == covered_pixels(width as int, height as int, at, size, rgba@) % 0x1_0000_0000,
{
    if rgba[3] == 0 {
        proof {
            lemma_blended(data@, data@, width as int, height as int, at, size, rgba@);
        }
        return 0;
    }
    let x0: u32 = clip(at.0, width);
    let y0: u32 = clip(at.1, height);
    let x1: u32 = clip_end(at.0, size.0, width);
    let y1: u32 = clip_end(at.1, size.1, height);
    if x0 >= x1 || y0 >= y1 {
        proof {
            lemma_empty_span(x0, x1, y0, y1);
            lemma_blended(data@, data@, width as int, height as int, at, size, rgba@);
        }
        return 0;
    }
    let len: usize = data.len();
    let ghost before = data@;
    let ghost w = width as int;
    let ghost h = height as int;
    let mut row: u32 = y0;
    while row < y1
        invariant
            x0 < x1 <= width,
            y0 <= row <= y1 <= height,
            w == width,
            h == height,
            before.len() == 4 * width * height,
            len == before.len(),
            data@.len() == before.len(),
            forall|px: int, py: int, c: int|
                0 <= px < w && 0 <= py < h && 0 <= c < 4 ==> {
                    let i = #[trigger] channel_index(w, px, py, c);
                    data@[i] == if x0 <= px < x1 && y0 <= py < row {
                        source_over(rgba@, c, before[i])
                    } else {
                        before[i] as int
                    }
                },
        decreases y1 - row,
    {
        let mut col: u32 = x0;
        while col < x1
            invariant
                x0 <= col <= x1 <= width,
                y0 <= row < y1 <= height,
                w == width,
                h == height,
                before.len() == 4 * width * height,
                len == before.len(),
                data@.len() == before.len(),
                forall|px: int, py: int, c: int|
                    0 <= px < w && 0 <= py < h && 0 <= c < 4 ==> {
                        let i = #[trigger] channel_index(w, px, py, c);
                        data@[i] == if x0 <= px < x1 && y0 <= py < row || (py == row && x0 <= px
                            < col) {
                            source_over(rgba@, c, before[i])
                        } else {
                            before[i] as int
                        }
                    },
            decreases x1 - col,
        {
            proof {
                lemma_channel_index_bounds(w, h, col as int, row as int, 3);
                assert(4 * width * height == 4 * (width * height)) by (nonlinear_arith);
                assert(0 <= row * width) by (nonlinear_arith);
                assert((row as int * w + col as int) * 4 + 3 < len);
            }
            let at_pixel: usize = (row as usize * width as usize + col as usize) * 4;
            assert(at_pixel == channel_index(w, col as int, row as int, 0));
            let ghost now = data@;
            blend_pixel(data, at_pixel, rgba);
            proof {
                assert forall|px: int, py: int, c: int|
                    0 <= px < w && 0 <= py < h && 0 <= c < 4 implies {
                    let i = #[trigger] channel_index(w, px, py, c);
                    data@[i] == if x0 <= px < x1 && y0 <= py < row || (py == row && x0 <= px < col
                        + 1) {
                        source_over(rgba@, c, before[i])
                    } else {
                        before[i] as int
                    }
                } by {
                    let i = channel_index(w, px, py, c);
                    lemma_channel_index_bounds(w, h, px, py, c);
                    if px == col && py == row {
                        assert(now[i] == before[i]);
                        assert(data@[at_pixel + c] == source_over(rgba@, c, now[at_pixel + c]));
                    } else {
                        if at_pixel <= i < at_pixel + 4 {
                            assert(py * w + px == row * w + col);
                            lemma_pixels_are_apart(w, px, py, col as int, row as int);
                        }
                        assert(data@[i] == now[i]);
                    }
                }
            }
            col += 1;
        }
        row += 1;
    }
    proof {
        assert forall|px: int, py: int, c: int|
            0 <= px < w && 0 <= py < h && 0 <= c < 4 implies {
            let i = #[trigger] channel_index(w, px, py, c);
            data@[i] == if rgba@[3] != 0 && covers(
                at.0 as int,
                at.1 as int,
                size.0 as int,
                size.1 as int,
                px,
                py,
            ) {
                source_over(rgba@, c, before[i])
            } else {
                before[i] as int
            }
        } by {
            assert(covers(at.0 as int, at.1 as int, size.0 as int, size.1 as int, px, py) <==> (x0
                <= px < x1 && y0 <= py < y1));
        }
    }
    proof {
        lemma_blended(before, data@, w, h, at, size, rgba@);
    }
    let columns: u64 = (x1 - x0) as u64;
    let rows: u64 = (y1 - y0) as u64;
    assert(columns * rows <= 0xFFFF_FFFF * 0xFFFF_FFFF) by (nonlinear_arith)
        requires
            columns <= 0xFFFF_FFFF,
            rows <= 0xFFFF_FFFF,
    ;
    let area: u64 = columns * rows;
    assert(area as u32 == area % 0x1_0000_0000) by (bit_vector);
    area as u32
}

proof fn lemma_empty_span(x0: u32, x1: u32, y0: u32, y1: u32)
    requires
        x0 <= x1,
        y0 <= y1,
        x0 >= x1 || y0 >= y1,
    ensures
        ((x1 - x0) * (y1 - y0)) % 0x1_0000_0000 == 0,
{
    assert((x1 - x0) * (y1 - y0) == 0) by (nonlinear_arith)
        requires
            x1 - x0 == 0 || y1 - y0 == 0,
    ;
}

/// A fully transparent rectangle changes nothing.
pub proof fn lemma_transparent_coverage_changes_nothing(
    before: Seq<u8>,
    after: Seq<u8>,
    width: int,
    height: int,
    at: (i64, i64),
    size: (u32, u32),
    rgba: Seq<u8>,
    px: int,
    py: int,
    c: int,
)
    requires
        is_blended(before, after, width, height, at, size, rgba),
        rgba[3] == 0,
        0 <= px < width,
        0 <= py < height,
        0 <= c < 4,
    ensures
        after[channel_index(width, px, py, c)] == before[channel_index(width, px, py, c)],
{
}

/// An opaque rectangle replaces what it covers by its own color.
pub proof fn lemma_opaque_source_replaces(
    before: Seq<u8>,
    after: Seq<u8>,
    width: int,
    height: int,
    at: (i64, i64),
    size: (u32, u32),
    rgba: Seq<u8>,
    px: int,
    py: int,
    c: int,
)
    requires
        is_blended(before, after, width, height, at, size, rgba),
        rgba.len() == 4,
        rgba[3] == 255,
        covers(at.0 as int, at.1 as int, size.0 as int, size.1 as int, px, py),
        0 <= px < width,
        0 <= py < height,
        0 <= c < 4,
    ensures
        after[channel_index(width, px, py, c)] == rgba[c],
{
    let i = channel_index(width, px, py, c);
    assert(before[i] * (255 - rgba[3]) == 0) by (nonlinear_arith)
        requires
            rgba[3] == 255,
    ;
    assert(rgba[c] * rgba[3] == 255 * rgba[c]) by (nonlinear_arith)
        requires
            rgba[3] == 255,
    ;
}

/// Division by 255 is to the nearest whole number.
pub proof fn lemma_division_is_to_the_nearest(value: u32, quotient: u32)
    requires
        value <= 255 * 255,
        call_ensures(div255, (value,), quotient),
    ensures
        -255 <= 2 * (255 * quotient - value) <= 255,
{
}

/// A pixel outside the rectangle stays. One inside it becomes the color where that is
/// opaque, stays where it is clear, and is otherwise between the two by the alpha, less
/// than a step from the exact value.
pub proof fn lemma_a_rectangle_is_blended_over_its_pixels(
    data: &mut [u8],
    width: u32,
    height: u32,
    at: (i64, i64),
    size: (u32, u32),
    rgba: [u8; 4],
    written: u32,
    px: int,
    py: int,
    c: int,
)
    requires
        old(data)@.len() == 4 * width * height,
        call_ensures(blend_rect, (data, width, height, at, size, rgba), written),
        0 <= px < width,
        0 <= py < height,
        0 <= c < 4,
    ensures
        ({
            let i = (py * width + px) * 4 + c;
            let inside = at.0 <= px < at.0 + size.0 && at.1 <= py < at.1 + size.1;
            let alpha = rgba@[3];
            let straight = if c == 3 {
                255u8
            } else {
                rgba@[c]
            };
            let under = old(data)@[i];
            let after = final(data)@[i];
            &&& !inside ==> after == under
            &&& inside && alpha == 255 ==> after == rgba@[c]
            &&& alpha == 0 ==> after == under
            &&& inside && alpha > 0 ==> -255 < 255 * after - (straight * alpha + under * (255
                - alpha)) < 255
        }),
        final(data)@.len() == old(data)@.len(),
{
    let i = channel_index(width as int, px, py, c);
    let under = data@[i];
    let alpha = rgba@[3];
    let straight = if c == 3 {
        255u8
    } else {
        rgba@[c]
    };
    assert(i == (py * width + px) * 4 + c);
    assert(0 <= straight * alpha <= 255 * 255) by (nonlinear_arith)
        requires
            0 <= straight <= 255,
            0 <= alpha <= 255,
    ;
    assert(0 <= under * (255 - alpha) <= 255 * 255) by (nonlinear_arith)
        requires
            0 <= under <= 255,
            0 <= alpha <= 255,
    ;
    assert(alpha == 255 ==> under * (255 - alpha) == 0) by (nonlinear_arith);
    assert(alpha == 255 ==> straight * alpha == 255 * straight) by (nonlinear_arith);
    assert(c == 3 ==> straight * alpha == 255 * alpha);
}

/// The number that is told is that of the pixels of the rectangle that are on the target,
/// where the rectangle is not clear, as far as it can be counted.
pub proof fn lemma_the_pixels_on_the_target_are_counted(
    data: &mut [u8],
    width: u32,
    height: u32,
    at: (i64, i64),
    size: (u32, u32),
    rgba: [u8; 4],
    written: u32,
)
    requires
        old(data)@.len() == 4 * width * height,
        call_ensures(blend_rect, (data, width, height, at, size, rgba), written),
        0 <= at.0,
        0 <= at.1,
        at.0 + size.0 <= width,
        at.1 + size.1 <= height,
        size.0 * size.1 <= u32::MAX,
    ensures
        rgba@[3] > 0 ==> written == size.0 * size.1,
        rgba@[3] == 0 ==> written == 0,
{
    assert(size.0 * size.1 >= 0) by (nonlinear_arith)
        requires
            size.0 >= 0,
            size.1 >= 0,
    ;
}

} // verus!
