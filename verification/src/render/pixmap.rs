//! The pixel buffer, kept by `tiny_skia`.
//!
//! Nothing here is proved: each item states what `tiny_skia`'s `Pixmap` does, as
//! its source shows it.

use tiny_skia::Pixmap;
use vstd::prelude::*;

verus! {

/// `tiny_skia::Pixmap`: a rectangle of premultiplied RGBA8888 pixels.
#[verifier::external_type_specification]
#[verifier::external_body]
pub struct ExPixmap(tiny_skia::Pixmap);

/// The bytes of a pixmap, four per pixel, row by row from the top.
pub uninterp spec fn pixmap_bytes(pixmap: Pixmap) -> Seq<u8>;

/// The width and height of a pixmap in pixels.
pub uninterp spec fn pixmap_size(pixmap: Pixmap) -> (u32, u32);

/// Whether a pixmap of this size can be asked for: its bytes fit in an
/// allocation.
pub open spec fn fits_memory(width: int, height: int) -> bool {
    4 * width * height <= isize::MAX
}

/// Whether `tiny_skia` has pixmaps of this size: no side is zero, and a row
/// takes at most `i32::MAX` bytes.
pub open spec fn is_pixmap_size(width: int, height: int) -> bool {
    0 < width && 0 < height && 4 * width <= i32::MAX
}

/// `tiny_skia::Pixmap::new`: a pixmap of the size, all bytes zero; `None` for a
/// zero side or an over-wide row.
pub assume_specification[ tiny_skia::Pixmap::new ](width: u32, height: u32) -> (made: Option<
    Pixmap,
>)
    requires
        is_pixmap_size(width as int, height as int) ==> fits_memory(width as int, height as int),
    ensures
        made is Some <==> is_pixmap_size(width as int, height as int),
        made is Some ==> pixmap_size(made->0) == (width, height),
        made is Some ==> pixmap_bytes(made->0) == Seq::new(
            (4 * width * height) as nat,
            |i: int| 0u8,
        ),
;

/// `tiny_skia::Pixmap::width`.
pub assume_specification[ tiny_skia::Pixmap::width ](target: &Pixmap) -> (width: u32)
    ensures
        width == pixmap_size(*target).0,
        width > 0,
;

/// `tiny_skia::Pixmap::height`.
pub assume_specification[ tiny_skia::Pixmap::height ](target: &Pixmap) -> (height: u32)
    ensures
        height == pixmap_size(*target).1,
        height > 0,
;

/// `tiny_skia::Pixmap::data`: the bytes, four for each pixel.
pub assume_specification[ tiny_skia::Pixmap::data ](target: &Pixmap) -> (data: &[u8])
    ensures
        data@ == pixmap_bytes(*target),
        data@.len() == 4 * pixmap_size(*target).0 * pixmap_size(*target).1,
;

/// `tiny_skia::Pixmap::data_mut`: the bytes, for changing them in place. The size
/// stays.
pub assume_specification[ tiny_skia::Pixmap::data_mut ](target: &mut Pixmap) -> (data: &mut [u8])
    ensures
        data@ == pixmap_bytes(*old(target)),
        data@.len() == 4 * pixmap_size(*old(target)).0 * pixmap_size(*old(target)).1,
        final(data)@ == pixmap_bytes(*final(target)),
        pixmap_size(*final(target)) == pixmap_size(*old(target)),
;

/// `tiny_skia::Pixmap::fill` with a straight-alpha color: every pixel gets the alpha
/// and the channels multiplied by it, each to the nearest step. The multiplication is
/// made in single precision, whose error is far smaller than the distance of any of
/// the products from the middle between two steps.
#[verifier::external_body]
pub(crate) fn fill(pixmap: &mut Pixmap, color: (u8, u8, u8, u8))
    ensures
        pixmap_size(*final(pixmap)) == pixmap_size(*old(pixmap)),
        pixmap_bytes(*final(pixmap)) == Seq::new(
            pixmap_bytes(*old(pixmap)).len(),
            |i: int| super::filled_byte(color, i % 4),
        ),
{
    pixmap.fill(tiny_skia::Color::from_rgba8(color.0, color.1, color.2, color.3));
}

/// Channel `c` of a color.
pub open spec fn straight_byte(color: (u8, u8, u8, u8), c: int) -> u8 {
    if c == 0 {
        color.0
    } else if c == 1 {
        color.1
    } else if c == 2 {
        color.2
    } else {
        color.3
    }
}

/// Whether `out` is a channel `src` of a premultiplied pixel with that alpha laid
/// over a channel `dst`, to the nearest step: `src + dst * (1 - alpha)`, at most full.
pub open spec fn is_laid_over(dst: u8, src: u8, alpha: u8, out: u8) -> bool {
    let exact = 255 * src + dst * (255 - alpha);
    let kept = if exact > 65025 {
        65025int
    } else {
        exact
    };
    -128 <= 255 * out - kept <= 128
}

/// An opaque pixel replaces what is below it, and a clear one leaves it.
pub proof fn lemma_opaque_replaces_and_clear_leaves(dst: u8, src: u8, out: u8)
    ensures
        is_laid_over(dst, src, 255, out) ==> out == src,
        is_laid_over(dst, 0, 0, out) ==> out == dst,
{
}

/// Whether `after` is the frame `before`, of the size `size`, with `src`, of the
/// size `src_size`, composited with its top-left corner at `(x, y)`: each covered
/// pixel has the source's pixel laid over it, and every other one stays.
pub open spec fn is_composited(
    before: Seq<u8>,
    size: (u32, u32),
    x: int,
    y: int,
    src: Seq<u8>,
    src_size: (u32, u32),
    after: Seq<u8>,
) -> bool {
    &&& after.len() == before.len()
    &&& forall|i: int|
        0 <= i < after.len() ==> {
            let column = i / 4 % size.0 as int - x;
            let row = i / 4 / size.0 as int - y;
            let place = 4 * (row * src_size.0 + column);
            let out = #[trigger] after[i];
            if 0 <= column < src_size.0 && 0 <= row < src_size.1 {
                is_laid_over(before[i], src[place + i % 4], src[place + 3], out)
            } else {
                out == before[i]
            }
        }
}

/// Whether `tiny_skia` draws on a pixmap of this size in one piece, not by tiles.
pub open spec fn is_one_piece(size: (u32, u32)) -> bool {
    size.0 <= 8191 && size.1 <= 8191
}

/// Whether the coordinates that come up in drawing tile by tile on a pixmap of the size
/// `size` are exact in single precision, which holds every whole number up to 2^24, and
/// every middle of a pixel up to 2^23.
pub open spec fn is_exact_by_tiles(size: (u32, u32), x: int, y: int, src_size: (u32, u32)) -> bool {
    &&& size.0 <= 0x100_0000 && size.1 <= 0x100_0000
    &&& x + src_size.0 <= 0x100_0000 && y + src_size.1 <= 0x100_0000
    &&& src_size.0 <= 0x80_0000 && src_size.1 <= 0x80_0000
}

/// Whether a pixmap of the size `src_size`, drawn at `(x, y)` on one of the size `size`,
/// comes out pixel by pixel: its pixels can be counted in an `i32`, and the coordinates
/// are exact. On a pixmap that is drawn on in one piece those that matter always are.
pub open spec fn is_exact(size: (u32, u32), x: int, y: int, src_size: (u32, u32)) -> bool {
    &&& src_size.0 * src_size.1 <= i32::MAX
    &&& is_one_piece(size) || is_exact_by_tiles(size, x, y, src_size)
}

/// `tiny_skia::Pixmap::draw_pixmap` with the default paint and no transform:
/// composites `src` with its top-left corner at `(x, y)`. The size stays.
///
/// A larger target is drawn on by tiles of at most 8191 pixels a side: the rectangle and
/// the source are moved by the corner of each tile, clipped to it, and moved back. What
/// the pixels become is stated where that arithmetic, which is in single precision, is
/// exact; elsewhere edges and samples are rounded, and nothing is stated of them.
#[verifier::external_body]
pub(crate) fn draw_pixmap(pixmap: &mut Pixmap, x: i32, y: i32, src: &Pixmap)
    requires
        0 <= x,
        0 <= y,
        x + pixmap_size(*src).0 <= i32::MAX,
        y + pixmap_size(*src).1 <= i32::MAX,
    ensures
        pixmap_size(*final(pixmap)) == pixmap_size(*old(pixmap)),
        pixmap_bytes(*final(pixmap)).len() == pixmap_bytes(*old(pixmap)).len(),
        is_exact(pixmap_size(*old(pixmap)), x as int, y as int, pixmap_size(*src))
            ==> is_composited(
            pixmap_bytes(*old(pixmap)),
            pixmap_size(*old(pixmap)),
            x as int,
            y as int,
            pixmap_bytes(*src),
            pixmap_size(*src),
            pixmap_bytes(*final(pixmap)),
        ),
{
    pixmap.draw_pixmap(
        x,
        y,
        src.as_ref(),
        &tiny_skia::PixmapPaint::default(),
        tiny_skia::Transform::identity(),
        None,
    );
}

} // verus!
