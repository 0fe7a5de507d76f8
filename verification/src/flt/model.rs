//! The mathematical model of binary32: what a bit pattern stands for, and to
//! which pattern a rational number is rounded.

use vstd::arithmetic::power2::pow2;
use vstd::prelude::*;

verus! {

/// 2^23: the number of fraction patterns for one exponent.
pub const BINADE: u32 = 0x0080_0000;

/// Magnitude of infinity: every larger magnitude is a NaN.
pub const INFINITY_BITS: u32 = 0x7F80_0000;

/// The sign bit.
pub const SIGN_BIT: u32 = 0x8000_0000;

/// How many units of 2^-149 the magnitude `m` (the pattern without its sign
/// bit) stands for. Below 2^24 the spacing is one unit; from there on each
/// further binade doubles it. Infinity counts as the value that would follow
/// the largest finite one.
pub open spec fn units(m: nat) -> nat
    decreases m,
{
    if m < 0x0100_0000 {
        m
    } else {
        2 * units((m - 0x0080_0000) as nat)
    }
}

/// The whole number nearest to `p / q`; of two equally near, the even one.
pub open spec fn half_even(p: nat, q: nat) -> nat {
    let t = p / q;
    let r = p % q;
    if 2 * r < q {
        t
    } else if 2 * r > q {
        t + 1
    } else if t % 2 == 0 {
        t
    } else {
        t + 1
    }
}

/// The magnitude that `p / q` units are rounded to when the exponent is not
/// bounded above: round to nearest, ties to even. Below 2^24 the result counts
/// units; above it the quotient is first halved until it fits, one binade each.
pub open spec fn nearest(p: nat, q: nat) -> nat
    recommends
        q > 0,
    decreases p / q,
    when q > 0
{
    if p < q * 0x0100_0000 {
        half_even(p, q)
    } else {
        proof {
            crate::flt::lemmas::lemma_halving_decreases(p, q);
        }
        0x0080_0000 + nearest(p, 2 * q)
    }
}

/// The magnitude that `p / q` units are rounded to: beyond the largest finite
/// value it is infinity.
pub open spec fn round_magnitude(p: nat, q: nat) -> nat {
    if nearest(p, q) < INFINITY_BITS {
        nearest(p, q)
    } else {
        INFINITY_BITS as nat
    }
}

/// One, in units.
pub open spec fn one() -> nat {
    pow2(149)
}

} // verus!
