//! Glyph coverage: the rectangles a shaped string paints, their extents, and
//! where a string is placed.

use super::blend;
use super::cache::InkBounds;
use super::Bounds;
use vstd::prelude::*;

verus! {

/// One coverage rectangle of a shaped string, in buffer coordinates, with its
/// straight-alpha color.
#[derive(Debug, Clone, Copy, PartialEq, Eq)]
pub struct GlyphRect {
    /// Left edge.
    pub x: i32,
    /// Top edge.
    pub y: i32,
    /// Width.
    pub width: u32,
    /// Height.
    pub height: u32,
    /// Straight-alpha color.
    pub rgba: [u8; 4],
}

/// The far edge of a span, pinned at the largest `i32`.
pub open spec fn far_edge(at: int, len: int) -> int {
    if at + len > i32::MAX {
        i32::MAX as int
    } else {
        at + len
    }
}

/// The extents of all rectangles: nothing without one.
pub open spec fn ink_of(glyphs: Seq<GlyphRect>) -> Option<InkBounds>
    decreases glyphs.len(),
{
    if glyphs.len() == 0 {
        None
    } else {
        let g = glyphs.last();
        let right = far_edge(g.x as int, g.width as int) as i32;
        let bottom = far_edge(g.y as int, g.height as int) as i32;
        Some(
            match ink_of(glyphs.drop_last()) {
                None => (g.x, g.y, right, bottom),
                Some((left, top, old_right, old_bottom)) => (
                    super::least(left as int, g.x as int) as i32,
                    super::least(top as int, g.y as int) as i32,
                    super::greatest(old_right as int, right as int) as i32,
                    super::greatest(old_bottom as int, bottom as int) as i32,
                ),
            },
        )
    }
}

fn edge(at: i32, len: u32) -> (edge: i32)
    ensures
        edge == far_edge(at as int, len as int),
{
    let far: i64 = at as i64 + len as i64;
    if far > i32::MAX as i64 {
        i32::MAX
    } else {
        far as i32
    }
}

fn lesser(a: i32, b: i32) -> (m: i32)
    ensures
        m == super::least(a as int, b as int),
{
    if a <= b {
        a
    } else {
        b
    }
}

fn greater(a: i32, b: i32) -> (m: i32)
    ensures
        m == super::greatest(a as int, b as int),
{
    if a >= b {
        a
    } else {
        b
    }
}

/// The visible-ink extents of a string's coverage.
pub fn ink_bounds(glyphs: &[GlyphRect]) -> (ink: Option<InkBounds>)
    ensures
        ink == ink_of(glyphs@),
{
    let mut ink: Option<InkBounds> = None;
    let mut i: usize = 0;
    while i < glyphs.len()
        invariant
            i <= glyphs@.len(),
            ink == ink_of(glyphs@.take(i as int)),
        decreases glyphs@.len() - i,
    {
        let g: GlyphRect = glyphs[i];
        let right: i32 = edge(g.x, g.width);
        let bottom: i32 = edge(g.y, g.height);
        assert(glyphs@.take(i + 1).drop_last() =~= glyphs@.take(i as int));
        assert(glyphs@.take(i + 1).last() == g);
        ink = Some(
            match ink {
                Some((left, top, old_right, old_bottom)) => (
                    lesser(left, g.x),
                    lesser(top, g.y),
                    greater(old_right, right),
                    greater(old_bottom, bottom),
                ),
                None => (g.x, g.y, right, bottom),
            },
        );
        i += 1;
    }
    assert(glyphs@.take(i as int) =~= glyphs@);
    ink
}

/// Half of `n`, rounded towards zero.
pub open spec fn half_towards_zero(n: int) -> int {
    if n >= 0 {
        n / 2
    } else {
        -((-n) / 2)
    }
}

fn half(n: i64) -> (h: i64)
    requires
        n > i64::MIN,
    ensures
        h == half_towards_zero(n as int),
{
    if n >= 0 {
        n / 2
    } else {
        -((-n) / 2)
    }
}

/// The offset that puts the middle of the ink `from..to` in the middle of the
/// slot of `len` that begins at `at`.
pub open spec fn centering_offset(at: int, len: int, from: int, to: int) -> int {
    at + half_towards_zero(len - (to - from)) - from
}

/// The offset that centers the ink of `glyphs` within `bounds`.
pub open spec fn centered_at(bounds: Bounds, glyphs: Seq<GlyphRect>) -> (i64, i64) {
    let ink = ink_of(glyphs)->0;
    (
        centering_offset(
            bounds.x as int,
            bounds.width as int,
            ink.0 as int,
            ink.2 as int,
        ) as i64,
        centering_offset(
            bounds.y as int,
            bounds.height as int,
            ink.1 as int,
            ink.3 as int,
        ) as i64,
    )
}

/// Where a string goes so that its visible ink is centered within `bounds`;
/// `None` for a string without ink.
pub fn centered_offset(bounds: Bounds, ink: Option<InkBounds>) -> (offset: Option<(i64, i64)>)
    ensures
        match ink {
            None => offset is None,
            Some((left, top, right, bottom)) => {
                &&& offset is Some
                &&& (offset->0).0 == centering_offset(
                    bounds.x as int,
                    bounds.width as int,
                    left as int,
                    right as int,
                )
                &&& (offset->0).1 == centering_offset(
                    bounds.y as int,
                    bounds.height as int,
                    top as int,
                    bottom as int,
                )
            },
        },
{
    match ink {
        None => None,
        Some((left, top, right, bottom)) => {
            let ink_width: i64 = right as i64 - left as i64;
            let ink_height: i64 = bottom as i64 - top as i64;
            Some(
                (
                    bounds.x as i64 + half(bounds.width as i64 - ink_width) - left as i64,
                    bounds.y as i64 + half(bounds.height as i64 - ink_height) - top as i64,
                ),
            )
        },
    }
}

/// Centered ink is centered: the room left over on its two sides differs by at
/// most one pixel.
pub proof fn lemma_ink_is_centered(at: int, len: int, from: int, to: int)
    ensures
        ({
            let placed = centering_offset(at, len, from, to) + from;
            let before = placed - at;
            let after = (at + len) - (placed + (to - from));
            -1 <= before - after <= 1
        }),
{
}

/// Every rectangle lies within the extents of the string.
pub proof fn lemma_ink_spans_every_glyph(glyphs: Seq<GlyphRect>, i: int)
    requires
        0 <= i < glyphs.len(),
    ensures
        ink_of(glyphs) is Some,
        (ink_of(glyphs)->0).0 <= glyphs[i].x,
        (ink_of(glyphs)->0).1 <= glyphs[i].y,
        (ink_of(glyphs)->0).2 >= far_edge(glyphs[i].x as int, glyphs[i].width as int),
        (ink_of(glyphs)->0).3 >= far_edge(glyphs[i].y as int, glyphs[i].height as int),
    decreases glyphs.len(),
{
    if i < glyphs.len() - 1 {
        lemma_ink_spans_every_glyph(glyphs.drop_last(), i);
    }
}

/// Where the rectangle `g` goes in a target when its string goes to `offset`.
pub open spec fn placed(g: GlyphRect, offset: (i64, i64)) -> (i64, i64) {
    ((offset.0 + g.x) as i64, (offset.1 + g.y) as i64)
}

/// A target of `width` columns with each rectangle blended into it in turn.
pub open spec fn blended_glyphs(
    data: Seq<u8>,
    width: int,
    glyphs: Seq<GlyphRect>,
    offset: (i64, i64),
) -> Seq<u8>
    decreases glyphs.len(),
{
    if glyphs.len() == 0 {
        data
    } else {
        let g = glyphs.last();
        blend::blended(
            blended_glyphs(data, width, glyphs.drop_last(), offset),
            width,
            placed(g, offset),
            (g.width, g.height),
            g.rgba@,
        )
    }
}

/// A counter after the pixels of each rectangle were counted in turn.
pub open spec fn counted_glyphs(
    count: u32,
    width: int,
    height: int,
    glyphs: Seq<GlyphRect>,
    offset: (i64, i64),
) -> u32
    decreases glyphs.len(),
{
    if glyphs.len() == 0 {
        count
    } else {
        let g = glyphs.last();
        super::cache::counted(
            counted_glyphs(count, width, height, glyphs.drop_last(), offset),
            blend::covered_pixels(
                width,
                height,
                placed(g, offset),
                (g.width, g.height),
                g.rgba@,
            ) % 0x1_0000_0000,
        )
    }
}

/// Whether adding any buffer coordinate to `offset` stays in range.
pub open spec fn is_offset(offset: (i64, i64)) -> bool {
    &&& i64::MIN - i32::MIN <= offset.0 <= i64::MAX - i32::MAX
    &&& i64::MIN - i32::MIN <= offset.1 <= i64::MAX - i32::MAX
}

/// Blend a string's coverage into a target at `offset`, counting the pixels.
pub fn blend_glyphs(
    data: &mut [u8],
    width: u32,
    height: u32,
    glyphs: &[GlyphRect],
    offset: (i64, i64),
    count: u32,
) -> (counted: u32)
    requires
        old(data)@.len() == 4 * width * height,
        is_offset(offset),
    ensures
        final(data)@ == blended_glyphs(old(data)@, width as int, glyphs@, offset),
        final(data)@.len() == old(data)@.len(),
        counted == counted_glyphs(count, width as int, height as int, glyphs@, offset),
{
    let mut counted: u32 = count;
    let mut i: usize = 0;
    while i < glyphs.len()
        invariant
            i <= glyphs@.len(),
            old(data)@.len() == 4 * width * height,
            data@.len() == old(data)@.len(),
            is_offset(offset),
            data@ == blended_glyphs(
                old(data)@,
                width as int,
                glyphs@.take(i as int),
                offset,
            ),
            counted == counted_glyphs(
                count,
                width as int,
                height as int,
                glyphs@.take(i as int),
                offset,
            ),
        decreases glyphs@.len() - i,
    {
        let g: GlyphRect = glyphs[i];
        assert(glyphs@.take(i + 1).drop_last() =~= glyphs@.take(i as int));
        assert(glyphs@.take(i + 1).last() == g);
        let written: u32 = blend::blend_rect(
            data,
            width,
            height,
            (offset.0 + g.x as i64, offset.1 + g.y as i64),
            (g.width, g.height),
            g.rgba,
        );
        counted = counted.saturating_add(written);
        i += 1;
    }
    assert(glyphs@.take(i as int) =~= glyphs@);
    counted
}

/// The extents of a string reach around each of its rectangles and no farther than some of
/// them do; without one there are none.
pub proof fn lemma_the_ink_is_that_of_the_glyphs(
    glyphs: &[GlyphRect],
    ink: Option<InkBounds>,
    i: int,
)
    requires
        call_ensures(ink_bounds, (glyphs,), ink),
        forall|k: int|
            0 <= k < glyphs@.len() ==> (#[trigger] glyphs@[k]).x + glyphs@[k].width <= i32::MAX
                && glyphs@[k].y + glyphs@[k].height <= i32::MAX,
    ensures
        ink is Some <==> glyphs@.len() > 0,
        ink matches Some((left, top, right, bottom)) ==> {
            &&& 0 <= i < glyphs@.len() ==> left <= glyphs@[i].x && top <= glyphs@[i].y && right
                >= glyphs@[i].x + glyphs@[i].width && bottom >= glyphs@[i].y + glyphs@[i].height
            &&& exists|k: int| 0 <= k < glyphs@.len() && (#[trigger] glyphs@[k]).x == left
            &&& exists|k: int| 0 <= k < glyphs@.len() && (#[trigger] glyphs@[k]).y == top
            &&& exists|k: int|
                0 <= k < glyphs@.len() && (#[trigger] glyphs@[k]).x + glyphs@[k].width == right
            &&& exists|k: int|
                0 <= k < glyphs@.len() && (#[trigger] glyphs@[k]).y + glyphs@[k].height == bottom
        },
{
    if glyphs@.len() > 0 {
        lemma_ink_is_tight(glyphs@);
        if 0 <= i < glyphs@.len() {
            lemma_ink_spans_every_glyph(glyphs@, i);
        }
    }
}

proof fn lemma_ink_is_tight(glyphs: Seq<GlyphRect>)
    requires
        glyphs.len() > 0,
        forall|k: int|
            0 <= k < glyphs.len() ==> (#[trigger] glyphs[k]).x + glyphs[k].width <= i32::MAX
                && glyphs[k].y + glyphs[k].height <= i32::MAX,
    ensures
        ink_of(glyphs) is Some,
        ({
            let (left, top, right, bottom) = ink_of(glyphs)->0;
            &&& exists|k: int| 0 <= k < glyphs.len() && (#[trigger] glyphs[k]).x == left
            &&& exists|k: int| 0 <= k < glyphs.len() && (#[trigger] glyphs[k]).y == top
            &&& exists|k: int|
                0 <= k < glyphs.len() && (#[trigger] glyphs[k]).x + glyphs[k].width == right
            &&& exists|k: int|
                0 <= k < glyphs.len() && (#[trigger] glyphs[k]).y + glyphs[k].height == bottom
        }),
    decreases glyphs.len(),
{
    let init = glyphs.drop_last();
    let last = glyphs[glyphs.len() - 1];
    assert(last == glyphs.last());
    assert(last.x + last.width <= i32::MAX && last.y + last.height <= i32::MAX);
    if init.len() > 0 {
        assert forall|k: int| 0 <= k < init.len() implies (#[trigger] init[k]).x + init[k].width
            <= i32::MAX && init[k].y + init[k].height <= i32::MAX by {
            assert(init[k] == glyphs[k]);
        }
        lemma_ink_is_tight(init);
        let (left, top, right, bottom) = ink_of(init)->0;
        let a = choose|k: int| 0 <= k < init.len() && (#[trigger] init[k]).x == left;
        let b = choose|k: int| 0 <= k < init.len() && (#[trigger] init[k]).y == top;
        let c = choose|k: int|
            0 <= k < init.len() && (#[trigger] init[k]).x + init[k].width == right;
        let d = choose|k: int|
            0 <= k < init.len() && (#[trigger] init[k]).y + init[k].height == bottom;
        assert(glyphs[a] == init[a] && glyphs[b] == init[b] && glyphs[c] == init[c] && glyphs[d]
            == init[d]);
    } else {
        assert(ink_of(init) is None);
    }
}

/// A string is put so that the room on both sides of its ink, and above and below it, is
/// the same to a pixel.
pub proof fn lemma_a_string_is_put_in_the_middle(
    bounds: Bounds,
    ink: InkBounds,
    offset: Option<(i64, i64)>,
)
    requires
        call_ensures(centered_offset, (bounds, Some(ink)), offset),
    ensures
        offset matches Some((across, down)) && {
            let before = across + ink.0 - bounds.x;
            let behind = bounds.x + bounds.width - (across + ink.2);
            let above = down + ink.1 - bounds.y;
            let below = bounds.y + bounds.height - (down + ink.3);
            -1 <= before - behind <= 1 && -1 <= above - below <= 1
        },
{
    lemma_ink_is_centered(bounds.x as int, bounds.width as int, ink.0 as int, ink.2 as int);
    lemma_ink_is_centered(bounds.y as int, bounds.height as int, ink.1 as int, ink.3 as int);
}

/// A string is painted glyph by glyph: painting it is painting what comes before its last
/// rectangle, and then that one where the string puts it. Without one nothing changes.
pub proof fn lemma_a_string_is_painted_glyph_by_glyph(
    whole: &mut [u8],
    part: &mut [u8],
    one: &mut [u8],
    width: u32,
    height: u32,
    glyphs: &[GlyphRect],
    init: &[GlyphRect],
    last: GlyphRect,
    offset: (i64, i64),
    count: u32,
    counted: (u32, u32, u32),
)
    requires
        old(whole)@.len() == 4 * width * height,
        old(part)@ == old(whole)@,
        old(one)@ == final(part)@,
        is_offset(offset),
        glyphs@ == init@.push(last),
        call_ensures(blend_glyphs, (whole, width, height, glyphs, offset, count), counted.0),
        call_ensures(blend_glyphs, (part, width, height, init, offset, count), counted.1),
        call_ensures(
            blend::blend_rect,
            (
                one,
                width,
                height,
                ((offset.0 + last.x) as i64, (offset.1 + last.y) as i64),
                (last.width, last.height),
                last.rgba,
            ),
            counted.2,
        ),
    ensures
        final(whole)@ == final(one)@,
        init@.len() == 0 ==> final(part)@ == old(part)@ && counted.1 == count,
        counted.1 + counted.2 <= u32::MAX ==> counted.0 == counted.1 + counted.2,
{
    assert(glyphs@.drop_last() =~= init@);
    assert(glyphs@.last() == last);
}

} // verus!
