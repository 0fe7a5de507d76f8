//! Laws of the arithmetic: it is monotone, and exact where the result is a
//! value of the format.

use super::lemmas::{
    lemma_halving_decreases, lemma_nearest_of_units, lemma_nearest_scaled, lemma_units_at_least,
    lemma_units_decoded, lemma_units_increasing,
};
use super::model::{half_even, nearest, one, round_magnitude, units, INFINITY_BITS, SIGN_BIT};
use super::{rounded, signed, size, whole, Flt, ONE_BITS};
use vstd::arithmetic::div_mod::{
    lemma_div_is_ordered, lemma_fundamental_div_mod, lemma_fundamental_div_mod_converse,
};
use vstd::arithmetic::power2::{lemma2_to64, lemma_pow2_adds, lemma_pow2_pos};
use vstd::prelude::*;

verus! {

proof fn lemma_half_even_monotone(p1: nat, p2: nat, q: nat)
    requires
        q > 0,
        p1 <= p2,
    ensures
        half_even(p1, q) <= half_even(p2, q),
{
    lemma_div_is_ordered(p1 as int, p2 as int, q as int);
    lemma_fundamental_div_mod(p1 as int, q as int);
    lemma_fundamental_div_mod(p2 as int, q as int);
}

proof fn lemma_half_even_bounds(p: nat, q: nat, n: nat)
    requires
        q > 0,
    ensures
        p <= q * n ==> half_even(p, q) <= n,
        p >= q * n ==> half_even(p, q) >= n,
{
    assert(q * n == n * q) by (nonlinear_arith);
    lemma_fundamental_div_mod_converse((q * n) as int, q as int, n as int, 0);
    if p <= q * n {
        lemma_half_even_monotone(p, q * n, q);
    }
    if p >= q * n {
        lemma_half_even_monotone(q * n, p, q);
    }
}

proof fn lemma_nearest_at_least(p: nat, q: nat)
    requires
        q > 0,
        p >= q * 0x0080_0000,
    ensures
        nearest(p, q) >= 0x0080_0000,
{
    if p < q * 0x0100_0000 {
        lemma_half_even_bounds(p, q, 0x0080_0000);
    }
}

/// A larger number is not rounded to a smaller one.
pub proof fn law_rounding_is_monotone(p1: nat, p2: nat, q: nat)
    requires
        q > 0,
        p1 <= p2,
    ensures
        nearest(p1, q) <= nearest(p2, q),
    decreases p2 / q,
{
    if p2 < q * 0x0100_0000 {
        lemma_half_even_monotone(p1, p2, q);
    } else {
        lemma_halving_decreases(p2, q);
        if p1 >= q * 0x0100_0000 {
            law_rounding_is_monotone(p1, p2, 2 * q);
        } else {
            lemma_half_even_bounds(p1, q, 0x0100_0000);
            lemma_nearest_at_least(p2, 2 * q);
        }
    }
}

/// Rounding moves a number by at most one part in 2^24, or by half a unit if that
/// is more.
pub proof fn law_rounding_error(p: nat, q: nat)
    requires
        q > 0,
    ensures
        ({
            let most = if p > 0x0080_0000 * q {
                p
            } else {
                0x0080_0000 * q
            };
            &&& 0x0100_0000 * (units(nearest(p, q)) * q - p) <= most
            &&& 0x0100_0000 * (p - units(nearest(p, q)) * q) <= most
        }),
    decreases p / q,
{
    if p < q * 0x0100_0000 {
        lemma_fundamental_div_mod(p as int, q as int);
        let t = p / q;
        let m = half_even(p, q);
        assert(t < 0x0100_0000) by (nonlinear_arith)
            requires
                p < q * 0x0100_0000,
                p == q * t + p % q,
                p % q >= 0,
        ;
        assert(units(m) == m) by {
            assert(units(0x0080_0000) == 0x0080_0000);
        }
        assert((t + 1) * q == t * q + q) by (nonlinear_arith);
        assert(t * q == q * t) by (nonlinear_arith);
    } else {
        lemma_halving_decreases(p, q);
        law_rounding_error(p, 2 * q);
        assert(p >= (2 * q) * 0x0080_0000);
        lemma_nearest_at_least(p, 2 * q);
        let m = nearest(p, 2 * q);
        assert(units((m + 0x0080_0000) as nat) == 2 * units(m));
        assert(units(m) * (2 * q) == (2 * units(m)) * q) by (nonlinear_arith);
    }
}

/// A magnitude and the value with it.
pub proof fn lemma_signed(negative: bool, m: nat)
    requires
        m < SIGN_BIT,
    ensures
        signed(negative, m).magnitude() == m,
        signed(negative, m).negative() == negative,
        signed(negative, m).value() == (if negative { -(units(m) as int) } else { units(m) as int }),
{
}

/// Every finite value is rounded to itself.
pub proof fn law_values_round_to_themselves(x: Flt)
    requires
        x.finite(),
    ensures
        rounded(x.negative(), units(x.magnitude()), 1) == x,
{
    lemma_nearest_of_units(x.magnitude());
}

/// The value of one.
pub proof fn lemma_one()
    ensures
        units(ONE_BITS as nat) == one(),
        (Flt { bits: ONE_BITS }).value() == one(),
        (Flt { bits: ONE_BITS }).finite(),
        one() > 0,
{
    lemma_units_decoded(ONE_BITS as nat, 0x0080_0000, 126);
    lemma2_to64();
    lemma_pow2_adds(23, 126);
    lemma_pow2_pos(149);
}

/// A finite value times one is itself.
pub proof fn law_times_one(x: Flt)
    requires
        x.finite(),
    ensures
        (Flt { bits: ONE_BITS }).times(x) == x,
        x.times(Flt { bits: ONE_BITS }) == x,
{
    lemma_one();
    let u = units(x.magnitude());
    lemma_nearest_scaled(one(), u, 1);
    assert(one() * 1 == one());
    assert(u * one() == one() * u) by (nonlinear_arith);
    law_values_round_to_themselves(x);
}

/// A finite value other than zero over itself is one.
pub proof fn law_over_itself(x: Flt)
    requires
        x.finite(),
        x.magnitude() > 0,
    ensures
        x.over(x) == (Flt { bits: ONE_BITS }),
{
    lemma_one();
    let u = units(x.magnitude());
    lemma_units_at_least(x.magnitude());
    lemma_nearest_scaled(u, one(), 1);
    assert(u * 1 == u);
    law_values_round_to_themselves(Flt { bits: ONE_BITS });
}

/// Zero times a finite value is zero, with the sign of that value.
pub proof fn law_zero_times(x: Flt)
    requires
        x.finite(),
    ensures
        (Flt { bits: 0 }).times(x) == signed(x.negative(), 0),
{
    lemma_pow2_pos(149);
    assert(0 * units(x.magnitude()) == 0);
    lemma_half_even_bounds(0, one(), 0);
    assert(0 < one() * 0x0100_0000) by (nonlinear_arith)
        requires
            one() > 0,
    ;
}

/// A zero of either sign plus a finite value is that value, save that zero and
/// minus zero make zero.
pub proof fn law_zero_plus(negative: bool, x: Flt)
    requires
        x.finite(),
        x.magnitude() > 0 || !x.negative() || negative,
    ensures
        signed(negative, 0).plus(x) == x,
        x.plus(signed(negative, 0)) == x,
{
    lemma_units_at_least(x.magnitude());
    lemma_signed(negative, 0);
    law_values_round_to_themselves(x);
}

/// A finite value minus itself is zero.
pub proof fn law_minus_itself(x: Flt)
    requires
        x.finite(),
    ensures
        x.minus(x) == (Flt { bits: 0 }),
{
    lemma_signed(!x.negative(), x.magnitude());
}

/// A number of 32 bits is rounded to a finite value that is not negative.
pub proof fn law_whole_is_finite(n: nat)
    requires
        n <= u32::MAX,
    ensures
        whole(n).finite(),
        !whole(n).negative(),
        n == 0 ==> whole(n) == (Flt { bits: 0 }),
{
    let m: nat = 0x4F80_0000;
    lemma_units_decoded(m, 0x0080_0000, 158);
    lemma2_to64();
    lemma_pow2_adds(23, 158);
    lemma_pow2_adds(32, 149);
    assert(n * one() <= 0x1_0000_0000 * one()) by (nonlinear_arith)
        requires
            n <= 0x1_0000_0000,
    ;
    lemma_nearest_of_units(m);
    law_rounding_is_monotone(n * one(), units(m), 1);
    if n == 0 {
        assert(0 * one() == 0);
        lemma_half_even_bounds(0, 1, 0);
    }
}

/// A larger value is not rounded to a smaller whole number.
pub proof fn law_to_whole_is_monotone(a: Flt, b: Flt)
    requires
        a.at_most(b),
    ensures
        a.to_whole() <= b.to_whole(),
{
    lemma_pow2_pos(149);
    let ua = units(a.magnitude());
    let ub = units(b.magnitude());
    if !a.negative() {
        if b.negative() {
            assert(ua == 0);
            lemma_units_at_least(a.magnitude());
            assert(a.rounded_units() == 0) by {
                lemma_fundamental_div_mod_converse(
                    one() as int,
                    (2 * one()) as int,
                    0,
                    one() as int,
                );
            }
        } else {
            assert(ua <= ub);
            lemma_div_is_ordered(
                (2 * ua + one()) as int,
                (2 * ub + one()) as int,
                (2 * one()) as int,
            );
            if a.infinite() && !b.infinite() {
                lemma_units_increasing(b.magnitude(), a.magnitude());
            }
        }
    }
}

/// A sum that is at most a finite value is rounded to at most that value.
pub proof fn lemma_rounded_at_most(s: int, x: Flt)
    requires
        x.finite(),
        s != 0,
        s <= x.value(),
    ensures
        rounded(s < 0, size(s), 1).at_most(x),
{
    let m = x.magnitude();
    let u = units(m);
    let k = nearest(size(s), 1);
    lemma_nearest_of_units(m);
    let r = round_magnitude(size(s), 1);
    lemma_signed(s < 0, r);
    if s > 0 {
        law_rounding_is_monotone(size(s), u, 1);
        if k < m {
            lemma_units_increasing(k, m);
        }
    } else if x.negative() {
        law_rounding_is_monotone(u, size(s), 1);
        if m < r {
            lemma_units_increasing(m, r);
        }
    }
}

/// Taking something that is not negative away does not make a value larger.
pub proof fn law_minus_is_at_most(x: Flt, y: Flt)
    requires
        x.finite(),
        !y.nan(),
        !y.negative(),
    ensures
        x.minus(y).at_most(x),
{
    lemma_signed(!y.negative(), y.magnitude());
    let n = y.negated();
    if y.infinite() {
        lemma_units_increasing(x.magnitude(), INFINITY_BITS as nat);
        assert(x.minus(y) == n);
    } else {
        let s = x.value() + n.value();
        if s == 0 {
            lemma_signed(false, 0);
            lemma_signed(true, 0);
        } else {
            lemma_rounded_at_most(s, x);
        }
    }
}

/// A product of values that are not negative is not negative.
pub proof fn law_times_is_not_negative(x: Flt, y: Flt)
    requires
        x.finite(),
        y.finite(),
        !x.negative(),
        !y.negative(),
    ensures
        !x.times(y).nan(),
        !x.times(y).negative(),
{
    lemma_signed(false, round_magnitude(units(x.magnitude()) * units(y.magnitude()), one()));
}

} // verus!
