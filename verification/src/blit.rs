//! RGBA to Wayland shared-memory byte-order conversion.
//!
//! A rendered frame holds premultiplied RGBA8888, where each pixel is the byte
//! sequence `[R, G, B, A]`. A `wl_shm` buffer in the `Argb8888` format stores
//! each pixel as the native-endian 32-bit value `0xAARRGGBB`, which on
//! little-endian platforms is the byte sequence `[B, G, R, A]`.
//!
//! So committing a software-rendered frame requires swapping the red and blue
//! channels of every pixel; that is exactly what these helpers do.

use vstd::prelude::*;

verus! {

/// The position inside its pixel from which byte `i` of the converted buffer is
/// taken: red and blue change places, green and alpha stay.
pub open spec fn swapped_index(i: int) -> int {
    if i % 4 == 0 {
        i + 2
    } else if i % 4 == 2 {
        i - 2
    } else {
        i
    }
}

/// How many whole pixels fit both in `src_len` and in `dst_len` bytes.
pub open spec fn shared_pixels(src_len: int, dst_len: int) -> int {
    if src_len / 4 <= dst_len / 4 {
        src_len / 4
    } else {
        dst_len / 4
    }
}

/// `dst` after the whole pixels that `rgba` and `dst` share were converted.
pub open spec fn argb8888_over(rgba: Seq<u8>, dst: Seq<u8>) -> Seq<u8> {
    Seq::new(
        dst.len(),
        |i: int|
            if i < 4 * shared_pixels(rgba.len() as int, dst.len() as int) {
                rgba[swapped_index(i)]
            } else {
                dst[i]
            },
    )
}

/// Convert premultiplied RGBA8888 bytes into little-endian `ARGB8888` bytes,
/// returning a freshly allocated buffer.
///
/// Bytes past the last whole pixel come out as zero.
pub fn rgba_to_argb8888(rgba: &[u8]) -> (out: Vec<u8>)
    ensures
        out@ == argb8888_over(rgba@, Seq::new(rgba@.len(), |i: int| 0u8)),
{
    let mut out: Vec<u8> = vec![0u8; rgba.len()];
    assert(out@ =~= Seq::new(rgba@.len(), |i: int| 0u8));
    write_argb8888(rgba, out.as_mut_slice());
    out
}

/// Convert premultiplied RGBA8888 bytes into little-endian `ARGB8888` bytes,
/// writing into `dst` (typically an `mmap`'d shared-memory canvas).
///
/// Converts `min(rgba.len(), dst.len())` rounded down to whole pixels; any
/// trailing bytes in `dst` are left untouched.
pub fn write_argb8888(rgba: &[u8], dst: &mut [u8])
    ensures
        final(dst)@ == argb8888_over(rgba@, old(dst)@),
{
    let mut pixels: usize = rgba.len() / 4;
    if dst.len() / 4 < pixels {
        pixels = dst.len() / 4;
    }
    let mut p: usize = 0;
    while p < pixels
        invariant
            p <= pixels,
            pixels == shared_pixels(rgba@.len() as int, old(dst)@.len() as int),
            dst@.len() == old(dst)@.len(),
            rgba.len() == rgba@.len(),
            forall|i: int|
                #![trigger dst@[i]]
                0 <= i < dst@.len() ==> dst@[i] == if i < 4 * p {
                    rgba@[swapped_index(i)]
                } else {
                    old(dst)@[i]
                },
        decreases pixels - p,
    {
        dst[4 * p] = rgba[4 * p + 2];
        dst[4 * p + 1] = rgba[4 * p + 1];
        dst[4 * p + 2] = rgba[4 * p];
        dst[4 * p + 3] = rgba[4 * p + 3];
        p += 1;
    }
}

/// Converting a buffer twice gives back its whole pixels: the conversion is its
/// own inverse.
pub proof fn lemma_conversion_is_an_involution(rgba: Seq<u8>)
    requires
        rgba.len() % 4 == 0,
    ensures
        argb8888_over(argb8888_over(rgba, rgba), rgba) == rgba,
{
    let once = argb8888_over(rgba, rgba);
    assert forall|i: int| 0 <= i < rgba.len() implies argb8888_over(once, rgba)[i] == rgba[i] by {
        assert(0 <= swapped_index(i) < rgba.len());
        assert(swapped_index(swapped_index(i)) == i);
    }
    assert(argb8888_over(once, rgba) =~= rgba);
}

/// Of each pixel that is converted, red and blue change places, and green and alpha stay.
pub proof fn lemma_red_and_blue_change_places(rgba: &[u8], out: Vec<u8>, pixel: int)
    requires
        call_ensures(rgba_to_argb8888, (rgba,), out),
        0 <= 4 * pixel,
        4 * pixel + 3 < rgba@.len(),
    ensures
        out@.len() == rgba@.len(),
        out@[4 * pixel] == rgba@[4 * pixel + 2],
        out@[4 * pixel + 1] == rgba@[4 * pixel + 1],
        out@[4 * pixel + 2] == rgba@[4 * pixel],
        out@[4 * pixel + 3] == rgba@[4 * pixel + 3],
{
}

/// Writing over a canvas converts the pixels that both have and leaves the rest.
pub proof fn lemma_a_canvas_takes_the_pixels_it_has(rgba: &[u8], dst: &mut [u8], pixel: int)
    requires
        call_ensures(write_argb8888, (rgba, dst), ()),
        0 <= 4 * pixel,
        4 * pixel + 3 < old(dst)@.len(),
    ensures
        final(dst)@.len() == old(dst)@.len(),
        4 * pixel + 3 < rgba@.len() ==> final(dst)@[4 * pixel] == rgba@[4 * pixel + 2] && final(dst)@[4 * pixel + 1] == rgba@[4 * pixel + 1] && final(dst)@[4 * pixel + 2] == rgba@[4 * pixel]
            && final(dst)@[4 * pixel + 3] == rgba@[4 * pixel + 3],
        4 * pixel + 3 >= rgba@.len() ==> final(dst)@[4 * pixel] == old(dst)@[4 * pixel] && final(dst)@[4 * pixel + 3] == old(dst)@[4 * pixel + 3],
{
}

} // verus!
