//! The boundary to the `rand` crate: the thread-local generator type and a
//! single trusted draw. Everything else the library derives from this one
//! uniform range draw in verified code.

use vstd::prelude::*;
use crate::pixel::Color;

verus! {

/// The thread-local generator type of the `rand` crate, declared so that
/// values of it can cross the library's signatures. The library never looks
/// inside one; it only hands it to `rand_range`.
#[verifier::external_type_specification]
#[verifier::external_body]
pub struct ExThreadRng(rand::rngs::ThreadRng);

/// Relies on rand's `Rng::gen_range` with a half-open integer range: it
/// returns a value in `[lo, hi)` and panics only when the range is empty,
/// which the precondition rules out. Nothing is assumed about which value
/// comes back beyond the bounds.
#[verifier::external_body]
pub(crate) fn rand_range(rng: &mut rand::rngs::ThreadRng, lo: u64, hi: u64) -> (r: u64)
    requires
        lo < hi,
    ensures
        lo <= r < hi,
{
    rand::Rng::gen_range(rng, lo..hi)
}

/// A colour with each channel drawn uniformly from `[0, 255)`. The upper
/// bound is exclusive, so channel value 255 never occurs.
pub fn random_color(rng: &mut rand::rngs::ThreadRng) -> (c: Color)
    ensures
        c.r < 255,
        c.g < 255,
        c.b < 255,
{
    let r = rand_range(rng, 0, 255);
    let g = rand_range(rng, 0, 255);
    let b = rand_range(rng, 0, 255);
    Color { r: r as u8, g: g as u8, b: b as u8 }
}

} // verus!
