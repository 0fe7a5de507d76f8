//! IEEE 754 binary32 values (`flt`, the number format of the SMC), held as
//! their bit patterns, with correctly rounded arithmetic.
//!
//! A finite value is a whole number of units of 2^-149, the smallest positive
//! value of the format. All statements are made in these units.

pub mod arith;
pub mod decimal;
pub mod errors;
pub mod facts;
pub mod lemmas;
pub mod model;
pub mod pack;

use lemmas::{lemma_units_at_least, lemma_units_decoded, lemma_units_increasing};
use model::{one, round_magnitude, units, BINADE, INFINITY_BITS, SIGN_BIT};
use vstd::arithmetic::power2::{lemma2_to64, pow2};
use vstd::prelude::*;

verus! {

/// A binary32 value.
#[derive(Clone, Copy, Debug, PartialEq, Eq, Structural)]
pub struct Flt {
    pub bits: u32,
}

/// The pattern of every NaN that arithmetic produces.
pub const NAN_BITS: u32 = 0x7FC0_0000;

/// 1.0
pub const ONE_BITS: u32 = 0x3F80_0000;

/// 2.0
pub const TWO_BITS: u32 = 0x4000_0000;

/// 2^-23, the distance from 1.0 to the next value.
pub const EPSILON_BITS: u32 = 0x3400_0000;

/// Negative infinity.
pub const NEG_INFINITY_BITS: u32 = 0xFF80_0000;

/// The value with the magnitude `m` and the given sign.
pub open spec fn signed(negative: bool, m: nat) -> Flt {
    Flt { bits: (if negative { m + SIGN_BIT } else { m as int }) as u32 }
}

/// `p / q` units, rounded.
pub open spec fn rounded(negative: bool, p: nat, q: nat) -> Flt {
    signed(negative, round_magnitude(p, q))
}

/// The value nearest to a whole number.
pub open spec fn whole(n: nat) -> Flt {
    rounded(false, n * one(), 1)
}

/// The size of a whole number.
pub open spec fn size(n: int) -> nat {
    if n < 0 {
        (-n) as nat
    } else {
        n as nat
    }
}

pub open spec fn nan() -> Flt {
    Flt { bits: NAN_BITS }
}

impl Flt {
    /// The pattern without its sign bit.
    pub open spec fn magnitude(self) -> nat {
        (self.bits % SIGN_BIT) as nat
    }

    /// The sign bit is set.
    pub open spec fn negative(self) -> bool {
        self.bits >= SIGN_BIT
    }

    pub open spec fn nan(self) -> bool {
        self.magnitude() > INFINITY_BITS
    }

    pub open spec fn infinite(self) -> bool {
        self.magnitude() == INFINITY_BITS
    }

    pub open spec fn finite(self) -> bool {
        self.magnitude() < INFINITY_BITS
    }

    /// The value in units; infinities lie beyond every finite value.
    pub open spec fn value(self) -> int {
        if self.negative() {
            -(units(self.magnitude()) as int)
        } else {
            units(self.magnitude()) as int
        }
    }

    /// `self < other`; false when either is a NaN.
    pub open spec fn less(self, other: Flt) -> bool {
        !self.nan() && !other.nan() && self.value() < other.value()
    }

    /// `self <= other`; false when either is a NaN.
    pub open spec fn at_most(self, other: Flt) -> bool {
        !self.nan() && !other.nan() && self.value() <= other.value()
    }

    /// The value with the other sign.
    pub open spec fn negated(self) -> Flt {
        signed(!self.negative(), self.magnitude())
    }

    /// The value without its sign.
    pub open spec fn absolute(self) -> Flt {
        signed(false, self.magnitude())
    }

    /// `self + other`.
    pub open spec fn plus(self, other: Flt) -> Flt {
        if self.nan() || other.nan() {
            nan()
        } else if self.infinite() {
            if other.infinite() && self.negative() != other.negative() {
                nan()
            } else {
                self
            }
        } else if other.infinite() {
            other
        } else {
            let sum = self.value() + other.value();
            if sum == 0 {
                signed(self.negative() && other.negative(), 0)
            } else {
                rounded(sum < 0, size(sum), 1)
            }
        }
    }

    /// `self - other`.
    pub open spec fn minus(self, other: Flt) -> Flt {
        if other.nan() {
            nan()
        } else {
            self.plus(other.negated())
        }
    }

    /// `self * other`.
    pub open spec fn times(self, other: Flt) -> Flt {
        let negative = self.negative() != other.negative();
        if self.nan() || other.nan() {
            nan()
        } else if self.infinite() || other.infinite() {
            if self.magnitude() == 0 || other.magnitude() == 0 {
                nan()
            } else {
                signed(negative, INFINITY_BITS as nat)
            }
        } else {
            rounded(negative, units(self.magnitude()) * units(other.magnitude()), one())
        }
    }

    /// `self / other`.
    pub open spec fn over(self, other: Flt) -> Flt {
        let negative = self.negative() != other.negative();
        if self.nan() || other.nan() {
            nan()
        } else if self.infinite() {
            if other.infinite() {
                nan()
            } else {
                signed(negative, INFINITY_BITS as nat)
            }
        } else if other.infinite() {
            signed(negative, 0)
        } else if other.magnitude() == 0 {
            if self.magnitude() == 0 {
                nan()
            } else {
                signed(negative, INFINITY_BITS as nat)
            }
        } else {
            rounded(negative, units(self.magnitude()) * one(), units(other.magnitude()))
        }
    }

    /// The larger of the two; the other one when one is a NaN.
    pub open spec fn larger(self, other: Flt) -> Flt {
        if other.nan() {
            self
        } else if self.nan() || self.less(other) {
            other
        } else {
            self
        }
    }

    /// The smaller of the two; the other one when one is a NaN.
    pub open spec fn smaller(self, other: Flt) -> Flt {
        if other.nan() {
            self
        } else if self.nan() || other.less(self) {
            other
        } else {
            self
        }
    }

    /// `self`, moved to the nearer end when it lies outside `low ..= high`.
    pub open spec fn clamped(self, low: Flt, high: Flt) -> Flt {
        if self.less(low) {
            low
        } else if high.less(self) {
            high
        } else {
            self
        }
    }

    /// The whole number nearest to the value, halves away from zero.
    pub open spec fn rounded_units(self) -> nat {
        (2 * units(self.magnitude()) + one()) / (2 * one())
    }

    /// The largest whole number that is not above the value, in the range of
    /// `u32`; 0 for a NaN and for every negative value.
    pub open spec fn truncated(self) -> u32 {
        let n = units(self.magnitude()) / one();
        if self.nan() || self.negative() {
            0
        } else if self.infinite() || n > u32::MAX {
            u32::MAX
        } else {
            n as u32
        }
    }

    /// Rounded to a whole number and brought into the range of `u32`; 0 for a
    /// NaN and for every negative value.
    pub open spec fn to_whole(self) -> u32 {
        if self.nan() || self.negative() {
            0
        } else if self.infinite() || self.rounded_units() > u32::MAX {
            u32::MAX
        } else {
            self.rounded_units() as u32
        }
    }

    pub fn from_bits(bits: u32) -> (r: Flt)
        ensures
            r.bits == bits,
    {
        Flt { bits }
    }

    pub fn to_bits(self) -> (r: u32)
        ensures
            r == self.bits,
    {
        self.bits
    }

    pub(crate) fn parts(self) -> (r: (bool, u32))
        ensures
            r.0 == self.negative(),
            r.1 == self.magnitude(),
            r.1 < SIGN_BIT,
    {
        (self.bits >= SIGN_BIT, self.bits % SIGN_BIT)
    }

    pub(crate) fn with_sign(negative: bool, m: u32) -> (r: Flt)
        requires
            m < SIGN_BIT,
        ensures
            r == signed(negative, m as nat),
            r.magnitude() == m,
            r.negative() == negative,
    {
        if negative {
            Flt { bits: m + SIGN_BIT }
        } else {
            Flt { bits: m }
        }
    }

    pub fn is_nan(self) -> (r: bool)
        ensures
            r == self.nan(),
    {
        self.bits % SIGN_BIT > INFINITY_BITS
    }

    pub fn is_finite(self) -> (r: bool)
        ensures
            r == self.finite(),
    {
        self.bits % SIGN_BIT < INFINITY_BITS
    }

    pub fn lt(self, other: Flt) -> (r: bool)
        ensures
            r == self.less(other),
    {
        if self.is_nan() || other.is_nan() {
            return false;
        }
        let (na, ma) = self.parts();
        let (nb, mb) = other.parts();
        proof {
            lemma_units_at_least(ma as nat);
            lemma_units_at_least(mb as nat);
            if ma < mb {
                lemma_units_increasing(ma as nat, mb as nat);
            } else if mb < ma {
                lemma_units_increasing(mb as nat, ma as nat);
            }
        }
        if na {
            if nb {
                mb < ma
            } else {
                ma > 0 || mb > 0
            }
        } else {
            !nb && ma < mb
        }
    }

    pub fn le(self, other: Flt) -> (r: bool)
        ensures
            r == self.at_most(other),
    {
        if self.is_nan() || other.is_nan() {
            return false;
        }
        !other.lt(self)
    }

    pub fn neg(self) -> (r: Flt)
        ensures
            r == self.negated(),
            r.value() == -self.value(),
            r.nan() == self.nan(),
    {
        let (n, m) = self.parts();
        Flt::with_sign(!n, m)
    }

    pub fn abs(self) -> (r: Flt)
        ensures
            r == self.absolute(),
    {
        let (_n, m) = self.parts();
        Flt::with_sign(false, m)
    }

    pub fn max(self, other: Flt) -> (r: Flt)
        ensures
            r == self.larger(other),
    {
        if other.is_nan() {
            self
        } else if self.is_nan() || self.lt(other) {
            other
        } else {
            self
        }
    }

    pub fn min(self, other: Flt) -> (r: Flt)
        ensures
            r == self.smaller(other),
    {
        if other.is_nan() {
            self
        } else if self.is_nan() || other.lt(self) {
            other
        } else {
            self
        }
    }

    pub fn clamp(self, low: Flt, high: Flt) -> (r: Flt)
        requires
            low.at_most(high),
        ensures
            r == self.clamped(low, high),
    {
        if self.lt(low) {
            low
        } else if high.lt(self) {
            high
        } else {
            self
        }
    }
}

/// Significand and exponent of a finite magnitude.
pub(crate) fn decode(m: u32) -> (r: (u64, u32))
    requires
        m < INFINITY_BITS,
    ensures
        units(m as nat) == r.0 * pow2(r.1 as nat),
        r.0 < 0x0100_0000,
        r.1 <= 253,
        r.1 > 0 ==> r.0 >= 0x0080_0000,
        m > 0 <==> r.0 > 0,
{
    if m < BINADE {
        proof {
            lemma2_to64();
            assert(m * pow2(0) == m) by (nonlinear_arith)
                requires
                    pow2(0) == 1,
            ;
        }
        (m as u64, 0)
    } else {
        let e: u32 = m / BINADE - 1;
        let s: u32 = m % BINADE + BINADE;
        proof {
            lemma_units_decoded(m as nat, s as nat, e as nat);
        }
        (s as u64, e)
    }
}

} // verus!
