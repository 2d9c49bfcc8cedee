//! Output scale: the single conversion between logical and physical pixels.
//!
//! A Wayland surface is sized in *logical* coordinates, but a shared-memory
//! buffer must hold *physical* device pixels to stay crisp on a scaled (HiDPI)
//! output. [`Scale`] is the one place that conversion happens, so layout math
//! scales exactly once: the surface request and exclusive zone stay logical,
//! while the buffer, render target, and layout slots go physical through this
//! type.
//!
//! The factor is an integer, because compositors advertise an integer buffer
//! scale per surface.

use vstd::prelude::*;

verus! {

/// An integer output scale factor: physical device pixels per logical pixel.
///
/// Always at least `1`. Construct from a compositor-reported factor with
/// [`Scale::new`] (which clamps), or use [`Scale::one`] for the unscaled case.
#[derive(Debug, Clone, Copy, PartialEq, Eq, Structural)]
pub struct Scale(u32);

/// `logical * factor`, pinned at the largest `u32`.
pub open spec fn scaled_length(factor: int, logical: int) -> int {
    if logical * factor > u32::MAX {
        u32::MAX as int
    } else {
        logical * factor
    }
}

impl View for Scale {
    type V = int;

    closed spec fn view(&self) -> int {
        self.0 as int
    }
}

impl Scale {
    #[verifier::type_invariant]
    closed spec fn well_formed(self) -> bool {
        self.0 >= 1
    }

    /// The identity scale: physical pixels equal logical pixels.
    pub fn one() -> (scale: Scale)
        ensures
            scale@ == 1,
    {
        Scale(1)
    }

    /// Build a scale from a compositor-reported factor, clamping to a sane
    /// minimum of `1`.
    ///
    /// A stray `0` or negative value (such as one reported before the first
    /// `enter`) never collapses the surface: it falls back to [`Scale::one`].
    pub fn new(factor: i32) -> (scale: Scale)
        ensures
            scale@ == if factor < 1 { 1int } else { factor as int },
    {
        if factor < 1 {
            Scale(1)
        } else {
            Scale(factor as u32)
        }
    }

    /// The integer factor.
    pub fn get(self) -> (factor: u32)
        ensures
            factor == self@,
            factor >= 1,
    {
        proof {
            use_type_invariant(&self);
        }
        self.0
    }

    /// Convert a logical pixel length to physical device pixels: never fewer than
    /// there are logical ones.
    pub fn to_physical(self, logical: u32) -> (physical: u32)
        ensures
            physical == scaled_length(self@, logical as int),
            physical >= logical,
    {
        proof {
            use_type_invariant(&self);
            assert(logical * self.0 >= logical) by (nonlinear_arith)
                requires
                    self.0 >= 1,
            ;
        }
        match logical.checked_mul(self.0) {
            Some(physical) => physical,
            None => u32::MAX,
        }
    }

    /// Convert a logical `width * height` to its physical pixel dimensions.
    ///
    /// This is the buffer size for a surface that occupies `(width, height)`
    /// logical pixels on an output at this scale.
    pub fn to_physical_size(self, width: u32, height: u32) -> (size: (u32, u32))
        ensures
            size.0 == scaled_length(self@, width as int),
            size.1 == scaled_length(self@, height as int),
    {
        (self.to_physical(width), self.to_physical(height))
    }
}

impl Default for Scale {
    fn default() -> (scale: Self)
        ensures
            scale@ == 1,
    {
        Scale::one()
    }
}

/// Device pixels are logical ones times the factor, as far as they can be counted.
pub proof fn lemma_lengths_scale_by_the_factor(
    factor: i32,
    scale: Scale,
    logical: u32,
    physical: u32,
)
    requires
        call_ensures(Scale::new, (factor,), scale),
        call_ensures(Scale::to_physical, (scale, logical), physical),
    ensures
        factor >= 1 && logical * factor <= u32::MAX ==> physical == logical * factor,
        factor >= 1 && logical * factor > u32::MAX ==> physical == u32::MAX,
        factor < 1 ==> physical == logical,
{
    assert(logical * 1 == logical);
}

/// The size of a surface scales side by side: each side as it does alone.
pub proof fn lemma_sizes_scale_side_by_side(
    scale: Scale,
    width: u32,
    height: u32,
    wide: u32,
    tall: u32,
    size: (u32, u32),
)
    requires
        call_ensures(Scale::to_physical, (scale, width), wide),
        call_ensures(Scale::to_physical, (scale, height), tall),
        call_ensures(Scale::to_physical_size, (scale, width, height), size),
    ensures
        size == (wide, tall),
{
}

} // verus!
