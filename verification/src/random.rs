//! The random numbers the game draws: a seedable generator and the draws
//! made from it. What a draw gives depends on chance; the contracts say only
//! what holds of every outcome.

use vstd::prelude::*;
use rand::rngs::StdRng;
use rand::{Rng, SeedableRng};

verus! {

/// The standard generator of `rand`, carried as an opaque value.
#[verifier::external_type_specification]
#[verifier::external_body]
pub struct ExStdRng(rand::rngs::StdRng);

/// `StdRng::seed_from_u64`: a generator whose draws are fixed by `seed`.
/// Nothing is stated of the generator; two generators made from the same
/// seed give the same draws, which only the tests check.
#[verifier::external_body]
pub(crate) fn rng_from_seed(seed: u64) -> StdRng {
    StdRng::seed_from_u64(seed)
}

/// `StdRng::from_entropy`: a generator seeded from the operating system.
#[verifier::external_body]
pub(crate) fn rng_from_entropy() -> StdRng {
    StdRng::from_entropy()
}

/// `Rng::gen_ratio`: `true` with probability `numerator / denominator`. Its
/// documentation promises `false` for a zero numerator and `true` when the
/// numerator equals the denominator; it panics on a zero denominator or a
/// numerator above the denominator, which `requires` leaves out.
#[verifier::external_body]
pub(crate) fn rng_ratio(rng: &mut StdRng, numerator: u32, denominator: u32) -> (r: bool)
    requires
        0 < denominator,
        numerator <= denominator,
    ensures
        numerator == 0 ==> !r,
        numerator == denominator ==> r,
{
    rng.gen_ratio(numerator, denominator)
}

/// `rand::thread_rng().gen_range(low..=high)`: a number between `low` and
/// `high`, both included. It panics on an empty range, which `requires`
/// leaves out.
#[verifier::external_body]
pub(crate) fn thread_range_inclusive(low: i32, high: i32) -> (r: i32)
    requires
        low <= high,
    ensures
        low <= r <= high,
{
    rand::thread_rng().gen_range(low..=high)
}

} // verus!
