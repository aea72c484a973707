//! Fixed-point reals and the arithmetic of the differential mutation.
//!
//! A real number `x` is held as the integer `x * ONE`, rounded; positions,
//! costs, control parameters and probabilities all use this representation.

use vstd::arithmetic::div_mod::lemma_fundamental_div_mod;
use vstd::arithmetic::div_mod::lemma_fundamental_div_mod_converse;
use vstd::prelude::*;

verus! {

/// The fixed-point representation of the real number one.
pub const ONE: i64 = 1_000_000;

/// The fixed-point representation of the real number one tenth.
pub const TENTH: i64 = 100_000;

/// The product of the fixed-point factor `f` and the quantity `x`, rounded
/// towards negative infinity.
pub open spec fn scaled(f: int, x: int) -> int {
    (f * x) / (ONE as int)
}

/// The value of `i64` nearest to `x`.
pub open spec fn saturated(x: int) -> i64 {
    if x < i64::MIN {
        i64::MIN
    } else if x > i64::MAX {
        i64::MAX
    } else {
        x as i64
    }
}

/// The mutated coordinate `b3 + f * (b1 - b2)` of differential evolution,
/// computed exactly and then brought back into the range of `i64`.
pub open spec fn mutation(b1: i64, b2: i64, b3: i64, f: i64) -> i64 {
    saturated(b3 + scaled(f as int, b1 - b2))
}

/// Division rounding towards negative infinity, which is how `/` divides
/// mathematical integers.
fn floor_div(x: i128, d: i128) -> (q: i128)
    requires
        d > 0,
    ensures
        q == x / d,
{
    if x >= 0 {
        x / d
    } else {
        let y: i128 = -1 - x;
        let p: i128 = y / d;
        proof {
            lemma_fundamental_div_mod(y as int, d as int);
            let m: int = (y as int) % (d as int);
            assert(x == (-1 - p) * d + (d - 1 - m)) by (nonlinear_arith)
                requires
                    y == d * p + m,
                    x == -1 - y,
            ;
            lemma_fundamental_div_mod_converse(x as int, d as int, -1 - p, d - 1 - m);
        }
        -1 - p
    }
}

/// Computes the mutated coordinate from the three donor coordinates and the
/// differential weight `f`.
pub fn mutate(b1: i64, b2: i64, b3: i64, f: i64) -> (r: i64)
    ensures
        r == mutation(b1, b2, b3, f),
{
    let diff: i128 = b1 as i128 - b2 as i128;
    assert(-0x8000_0000_0000_0000_0000_0000_0000_0000 < (f as int) * (diff as int)
        < 0x8000_0000_0000_0000_0000_0000_0000_0000) by (nonlinear_arith)
        requires
            -0x8000_0000_0000_0000 <= f <= 0x7fff_ffff_ffff_ffff,
            -0xffff_ffff_ffff_ffff <= diff <= 0xffff_ffff_ffff_ffff,
    ;
    let prod: i128 = f as i128 * diff;
    let step: i128 = floor_div(prod, ONE as i128);
    assert(-0x4000_0000_0000_0000_0000_0000_0000_0000 <= (prod as int) / (ONE as int)
        <= 0x4000_0000_0000_0000_0000_0000_0000_0000) by (nonlinear_arith)
        requires
            -0x8000_0000_0000_0000_0000_0000_0000_0000 < prod
                < 0x8000_0000_0000_0000_0000_0000_0000_0000,
            ONE == 1_000_000,
    ;
    let sum: i128 = b3 as i128 + step;
    if sum < i64::MIN as i128 {
        i64::MIN
    } else if sum > i64::MAX as i128 {
        i64::MAX
    } else {
        sum as i64
    }
}

} // verus!
