//! The source of randomness, and the uniform draws taken from it.
//!
//! Nothing is claimed about which value a draw returns, only that it lies
//! in the range asked for.

use crate::fixed::ONE;
use rand::distributions::IndependentSample;
use rand::distributions::Range;
use rand::XorShiftRng;
use vstd::prelude::*;

verus! {

/// A random number generator as the optimizer uses it: a source of uniform
/// draws from intervals of reals and from ranges of indices.
pub trait Sampler {
    /// Draws a fixed-point real uniformly from `[low, high)`.
    fn sample_between(&mut self, low: i64, high: i64) -> (r: i64)
        requires
            low < high,
        ensures
            low <= r < high,
    ;

    /// Draws an index uniformly from `[0, n)`.
    fn sample_index(&mut self, n: usize) -> (r: usize)
        requires
            0 < n,
        ensures
            r < n,
    ;
}

/// Declares `rand::XorShiftRng` as a type whose fields are not looked into.
#[verifier::external_type_specification]
#[verifier::external_body]
pub struct ExXorShiftRng(XorShiftRng);

/// Calls `rand::weak_rng`, which seeds a fresh xorshift generator from the
/// thread-local generator. Nothing is claimed about its state.
#[verifier::external_body]
pub(crate) fn weak_generator() -> XorShiftRng {
    rand::weak_rng()
}

/// Calls `Range::new(low, high).ind_sample(rng)` on `i64`. The range panics
/// unless `low < high`; for integers the sample lies in `[low, high)`.
#[verifier::external_body]
pub(crate) fn xorshift_between(rng: &mut XorShiftRng, low: i64, high: i64) -> (r: i64)
    requires
        low < high,
    ensures
        low <= r < high,
{
    Range::new(low, high).ind_sample(rng)
}

/// Calls `Range::new(0, n).ind_sample(rng)` on `usize`. The range panics
/// unless `0 < n`; for integers the sample lies in `[0, n)`.
#[verifier::external_body]
pub(crate) fn xorshift_index(rng: &mut XorShiftRng, n: usize) -> (r: usize)
    requires
        0 < n,
    ensures
        r < n,
{
    Range::new(0, n).ind_sample(rng)
}

impl Sampler for XorShiftRng {
    fn sample_between(&mut self, low: i64, high: i64) -> (r: i64) {
        xorshift_between(self, low, high)
    }

    fn sample_index(&mut self, n: usize) -> (r: usize) {
        xorshift_index(self, n)
    }
}

/// Draws a fixed-point real uniformly from `[0, 1)`.
pub(crate) fn sample_unit<R: Sampler>(rng: &mut R) -> (r: i64)
    ensures
        0 <= r < ONE,
{
    rng.sample_between(0, ONE)
}

} // verus!
