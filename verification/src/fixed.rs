//! Surface coordinates as the compositor reports them: in 256ths of a pixel.

use crate::scale::Scale;
use vstd::prelude::*;

verus! {

/// A surface coordinate, in 256ths of a logical pixel.
#[derive(Debug, Clone, Copy, PartialEq, Eq, Structural)]
pub struct Fixed {
    /// The number of 256ths.
    pub raw: i32,
}

/// `n`, pinned at the largest `u32`.
pub open spec fn pin(n: int) -> u32 {
    if n > u32::MAX {
        u32::MAX
    } else {
        n as u32
    }
}

/// `n`, pinned at the largest `u32`.
pub fn pinned(n: u128) -> (pinned: u32)
    ensures
        pinned == pin(n as int),
{
    if n > u32::MAX as u128 {
        u32::MAX
    } else {
        n as u32
    }
}

impl Fixed {
    /// The pixel the coordinate is in, on an output of `scale` device pixels per
    /// logical pixel: none before the edge.
    pub open spec fn physical_spec(self, scale: int) -> Option<u32> {
        if self.raw < 0 {
            None
        } else {
            Some(pin(self.raw * scale / 256))
        }
    }

    /// The device pixel the coordinate is in: none before the edge.
    pub fn physical(self, scale: Scale) -> (pixel: Option<u32>)
        ensures
            pixel == self.physical_spec(scale@),
    {
        if self.raw < 0 {
            return None;
        }
        let factor: u32 = scale.get();
        proof {
            assert(0 <= self.raw * factor <= 0x7FFF_FFFF * 0xFFFF_FFFF) by (nonlinear_arith)
                requires
                    0 <= self.raw <= 0x7FFF_FFFF,
                    0 <= factor <= 0xFFFF_FFFF,
            ;
        }
        let units: u128 = self.raw as u128 * factor as u128;
        Some(pinned(units / 256))
    }

    /// The logical pixel the coordinate is in: none before the edge.
    pub open spec fn logical_spec(self) -> Option<u32> {
        if self.raw < 0 {
            None
        } else {
            Some((self.raw / 256) as u32)
        }
    }

    /// The logical pixel the coordinate is in: none before the edge.
    pub fn logical(self) -> (pixel: Option<u32>)
        ensures
            pixel == self.logical_spec(),
    {
        if self.raw < 0 {
            None
        } else {
            Some((self.raw / 256) as u32)
        }
    }

    /// The coordinate without its fraction, rounded towards zero.
    pub open spec fn whole_spec(self) -> int {
        if self.raw >= 0 {
            self.raw as int / 256
        } else {
            -((-self.raw) as int / 256)
        }
    }

    /// The coordinate without its fraction, rounded towards zero.
    pub fn whole(self) -> (pixels: i32)
        ensures
            pixels == self.whole_spec(),
    {
        if self.raw >= 0 {
            self.raw / 256
        } else {
            let magnitude: i64 = -(self.raw as i64);
            (-(magnitude / 256)) as i32
        }
    }
}

/// The device pixel of a coordinate holds it: the coordinate is at or behind the pixel's
/// left edge and before its right one, as far as pixels can be counted.
pub proof fn lemma_a_coordinate_is_in_its_pixel(at: Fixed, scale: Scale, pixel: Option<u32>)
    requires
        call_ensures(Fixed::physical, (at, scale), pixel),
        scale@ >= 1,
    ensures
        pixel is Some <==> at.raw >= 0,
        pixel is Some ==> 256 * pixel->0 <= at.raw * scale@ || pixel->0 == u32::MAX,
        pixel is Some && pixel->0 < u32::MAX ==> at.raw * scale@ < 256 * (pixel->0 + 1),
{
    assert(at.raw >= 0 ==> at.raw * scale@ >= 0) by (nonlinear_arith)
        requires
            scale@ >= 1,
    ;
}

/// The logical pixel of a coordinate is its number of 256ths, without the rest.
pub proof fn lemma_a_logical_pixel_is_256_parts(at: Fixed, pixel: Option<u32>)
    requires
        call_ensures(Fixed::logical, (at,), pixel),
    ensures
        pixel is Some <==> at.raw >= 0,
        pixel is Some ==> 256 * pixel->0 <= at.raw < 256 * (pixel->0 + 1),
{
}

/// The whole part of a coordinate is no farther from zero than it, by less than a pixel.
pub proof fn lemma_the_whole_part_is_towards_zero(at: Fixed, pixels: i32)
    requires
        call_ensures(Fixed::whole, (at,), pixels),
    ensures
        at.raw >= 0 ==> 256 * pixels <= at.raw < 256 * (pixels + 1),
        at.raw < 0 ==> 256 * (pixels - 1) < at.raw <= 256 * pixels,
{
}

/// A pinned number is the number, or the largest one there is.
pub proof fn lemma_pinning_keeps_small_numbers(n: u128, pinned_n: u32)
    requires
        call_ensures(pinned, (n,), pinned_n),
    ensures
        n <= u32::MAX ==> pinned_n == n,
        n > u32::MAX ==> pinned_n == u32::MAX,
{
}

} // verus!
