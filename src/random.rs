//! The random source: rand's seedable standard generator, drawn from
//! through one wrapper, so that sampling is reproducible from a seed.
use vstd::prelude::*;
use rand::Rng;
use rand::rngs::StdRng;
use crate::fixed::ONE;

verus! {

#[verifier::external_type_specification]
#[verifier::external_body]
pub struct ExStdRng(StdRng);

/// Relies on rand::Rng::random_range on an `i64` range: a value drawn
/// uniformly from `lo..hi`, which must not be empty (it panics there).
#[verifier::external_body]
fn draw(rng: &mut StdRng, lo: i64, hi: i64) -> (r: i64)
    requires
        lo < hi,
    ensures
        lo <= r < hi,
{
    rng.random_range(lo..hi)
}

/// A scalar drawn uniformly from `[0, 1)`.
pub fn random_scalar(rng: &mut StdRng) -> (r: i64)
    ensures
        0 <= r < ONE,
{
    draw(rng, 0, ONE)
}

/// A scalar drawn uniformly from `[min, max)`.
pub fn random_scalar_in_range(rng: &mut StdRng, min: i64, max: i64) -> (r: i64)
    requires
        min < max,
    ensures
        min <= r < max,
{
    draw(rng, min, max)
}

} // verus!
