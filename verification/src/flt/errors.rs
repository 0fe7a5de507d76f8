//! How far the result of an operation lies from the exact one.

use super::facts::{law_rounding_error, law_rounding_is_monotone, lemma_signed};
use super::lemmas::{lemma_nearest_of_units, lemma_units_at_least, lemma_units_decoded};
use super::model::{nearest, one, round_magnitude, units, INFINITY_BITS};
use super::{size, whole, Flt};
use vstd::arithmetic::power2::{lemma2_to64, lemma_pow2_adds, lemma_pow2_pos, pow2};
use vstd::prelude::*;

verus! {

/// Two numbers differ by at most `e`.
pub open spec fn within(a: int, b: int, e: nat) -> bool {
    a - b <= e && b - a <= e
}

/// Up to this size, in units, a sum is always finite: 2^127.
pub open spec fn safe_size() -> nat {
    pow2(276)
}

/// A number of this size is rounded to a finite value.
pub proof fn lemma_safe_is_finite(p: nat)
    requires
        p <= safe_size(),
    ensures
        nearest(p, 1) < INFINITY_BITS,
{
    let m: nat = 0x7F00_0000;
    lemma_units_decoded(m, 0x0080_0000, 253);
    lemma2_to64();
    lemma_pow2_adds(23, 253);
    lemma_nearest_of_units(m);
    law_rounding_is_monotone(p, units(m), 1);
}

/// A sum that does not overflow is exact but for one part in 2^24.
pub proof fn law_plus_error(x: Flt, y: Flt)
    requires
        x.finite(),
        y.finite(),
    ensures
        x.plus(y).finite() ==> within(
            0x0100_0000 * x.plus(y).value(),
            0x0100_0000 * (x.value() + y.value()),
            size(x.value() + y.value()),
        ),
        size(x.value() + y.value()) <= safe_size() ==> x.plus(y).finite(),
        x.value() + y.value() >= 0 ==> x.plus(y).value() >= 0,
        x.value() + y.value() <= 0 ==> x.plus(y).value() <= 0,
{
    let s = x.value() + y.value();
    if s == 0 {
        lemma_signed(x.negative() && y.negative(), 0);
    } else {
        let p = size(s);
        law_rounding_error(p, 1);
        lemma_signed(s < 0, round_magnitude(p, 1));
        if p <= safe_size() {
            lemma_safe_is_finite(p);
        }
    }
}

/// The same of a difference.
pub proof fn law_minus_error(x: Flt, y: Flt)
    requires
        x.finite(),
        y.finite(),
    ensures
        x.minus(y).finite() ==> within(
            0x0100_0000 * x.minus(y).value(),
            0x0100_0000 * (x.value() - y.value()),
            size(x.value() - y.value()),
        ),
        size(x.value() - y.value()) <= safe_size() ==> x.minus(y).finite(),
        x.value() - y.value() >= 0 ==> x.minus(y).value() >= 0,
        x.value() - y.value() <= 0 ==> x.minus(y).value() <= 0,
{
    lemma_signed(!y.negative(), y.magnitude());
    law_plus_error(x, y.negated());
}

/// A product that does not overflow is exact but for one part in 2^24, or half a
/// unit if that is more.
pub proof fn law_times_error(x: Flt, y: Flt)
    requires
        x.finite(),
        y.finite(),
    ensures
        x.times(y).finite() ==> within(
            0x0100_0000 * (x.times(y).value() * one()),
            0x0100_0000 * (x.value() * y.value()),
            size(x.value() * y.value()) + 0x0080_0000 * one(),
        ),
        size(x.value() * y.value()) <= safe_size() * one() ==> x.times(y).finite(),
{
    lemma_pow2_pos(149);
    let (a, b) = (units(x.magnitude()) as int, units(y.magnitude()) as int);
    let p = (a * b) as nat;
    assert(a * b >= 0) by (nonlinear_arith)
        requires
            a >= 0,
            b >= 0,
    ;
    assert((-a) * b == -(a * b)) by (nonlinear_arith);
    assert(a * (-b) == -(a * b)) by (nonlinear_arith);
    assert((-a) * (-b) == a * b) by (nonlinear_arith);
    let r = x.times(y);
    let k = round_magnitude(p, one());
    let negative = x.negative() != y.negative();
    lemma_signed(negative, k);
    law_rounding_error(p, one());
    assert((-(units(k) as int)) * one() == -(units(k) * one())) by (nonlinear_arith);
    assert(size(x.value() * y.value()) == p);
    if p <= safe_size() * one() {
        law_rounding_is_monotone(p, one() * safe_size(), one());
        super::lemmas::lemma_nearest_scaled(one(), safe_size(), 1);
        assert(one() * 1 == one());
        assert(one() * safe_size() == safe_size() * one()) by (nonlinear_arith);
        lemma_safe_is_finite(safe_size());
    }
}

/// A quotient that does not overflow is exact but for one part in 2^24, or half a
/// unit if that is more.
pub proof fn law_over_error(x: Flt, y: Flt)
    requires
        x.finite(),
        y.finite(),
        y.value() != 0,
    ensures
        x.over(y).finite() ==> within(
            0x0100_0000 * (x.over(y).value() * y.value()),
            0x0100_0000 * (x.value() * one()),
            size(x.value()) * one() + 0x0080_0000 * size(y.value()),
        ),
        size(x.value()) * one() <= safe_size() * size(y.value()) ==> x.over(y).finite(),
{
    lemma_pow2_pos(149);
    let (a, b) = (units(x.magnitude()) as int, units(y.magnitude()) as int);
    assert(y.magnitude() > 0) by {
        if y.magnitude() == 0 {
            assert(units(0) == 0);
        }
    }
    lemma_units_at_least(y.magnitude());
    let p = units(x.magnitude()) * one();
    let q = units(y.magnitude());
    let k = round_magnitude(p, q);
    let negative = x.negative() != y.negative();
    lemma_signed(negative, k);
    law_rounding_error(p, q);
    let u = units(k) as int;
    assert((-u) * b == -(u * b)) by (nonlinear_arith);
    assert(u * (-b) == -(u * b)) by (nonlinear_arith);
    assert((-u) * (-b) == u * b) by (nonlinear_arith);
    assert((-a) * one() == -(a * one())) by (nonlinear_arith);
    assert(size(x.value()) == a && size(y.value()) == b);
    if p <= safe_size() * q {
        assert(q * safe_size() == safe_size() * q) by (nonlinear_arith);
        law_rounding_is_monotone(p, q * safe_size(), q);
        super::lemmas::lemma_nearest_scaled(q, safe_size(), 1);
        assert(q * 1 == q);
        lemma_safe_is_finite(safe_size());
    }
}

/// A whole number of 32 bits is exact but for one part in 2^24, and exact up to
/// 2^24.
pub proof fn law_whole_error(n: nat)
    requires
        n <= u32::MAX,
    ensures
        whole(n).finite(),
        !whole(n).negative(),
        whole(n).value() >= 0,
        within(0x0100_0000 * whole(n).value(), (0x0100_0000 * (n * one())) as int, n * one()),
        n <= 0x0100_0000 ==> whole(n).value() == n * one(),
{
    super::facts::law_whole_is_finite(n);
    lemma_pow2_pos(149);
    let p = n * one();
    assert(p >= 0);
    let k = nearest(p, 1);
    let m: nat = 0x4F80_0000;
    lemma_units_decoded(m, 0x0080_0000, 158);
    lemma2_to64();
    lemma_pow2_adds(23, 158);
    lemma_pow2_adds(32, 149);
    assert(n * one() <= 0x1_0000_0000 * one()) by (nonlinear_arith)
        requires
            n <= 0x1_0000_0000,
    ;
    lemma_nearest_of_units(m);
    law_rounding_is_monotone(p, units(m), 1);
    law_rounding_error(p, 1);
    lemma_signed(false, k);
    if n <= 0x0100_0000 {
        lemma_small_whole(n);
    }
}

/// Up to 2^24 every whole number is a value.
proof fn lemma_small_whole(n: nat)
    requires
        n <= 0x0100_0000,
    ensures
        units(nearest(n * one(), 1)) == n * one(),
{
    lemma_pow2_pos(149);
    if n == 0 {
        assert(0 * one() == 0);
        lemma_nearest_of_units(0);
        assert(units(0) == 0);
    } else {
        lemma_whole_magnitude(n, 149);
        let m = choose|m: nat| units(m) == n * pow2(149);
        lemma_nearest_of_units(m);
    }
}

/// A number of at most 24 bits, shifted, is the size of some magnitude.
proof fn lemma_whole_magnitude(n: nat, e: nat)
    requires
        0 < n <= 0x0100_0000,
    ensures
        exists|m: nat| units(m) == n * pow2(e),
    decreases 0x0100_0000 - n,
{
    lemma2_to64();
    lemma_pow2_pos(e);
    if n >= 0x0100_0000 {
        vstd::arithmetic::power2::lemma_pow2_unfold(e + 1);
        let m = (e + 1) * 0x0080_0000 + 0x0080_0000;
        lemma_units_decoded(m as nat, 0x0080_0000, e + 1);
        assert(units(m as nat) == n * pow2(e)) by (nonlinear_arith)
            requires
                units(m as nat) == 0x0080_0000 * pow2(e + 1),
                pow2(e + 1) == 2 * pow2(e),
                n == 0x0100_0000,
        ;
    } else if n >= 0x0080_0000 {
        let m = e * 0x0080_0000 + n;
        lemma_units_decoded(m as nat, n, e);
        assert(units(m as nat) == n * pow2(e));
    } else if e > 0 {
        vstd::arithmetic::power2::lemma_pow2_unfold(e);
        lemma_whole_magnitude(2 * n, (e - 1) as nat);
        let m = choose|m: nat| units(m) == (2 * n) * pow2((e - 1) as nat);
        assert((2 * n) * pow2((e - 1) as nat) == n * pow2(e)) by (nonlinear_arith)
            requires
                pow2(e) == 2 * pow2((e - 1) as nat),
        ;
        assert(units(m) == n * pow2(e));
    } else {
        assert(n * 1 == n);
        assert(units(n) == n * pow2(e));
    }
}

/// The size of a product is the product of the sizes.
pub proof fn lemma_size_of_product(x: int, y: int)
    ensures
        size(x * y) == size(x) * size(y),
{
    assert(size(x * y) == size(x) * size(y)) by (nonlinear_arith);
}

/// Bounds of two factors bound the product.
pub proof fn lemma_size_bounds(x: int, y: int, bx: nat, by: nat)
    requires
        size(x) <= bx,
        size(y) <= by,
    ensures
        size(x * y) <= bx * by,
{
    lemma_size_of_product(x, y);
    let (a, b) = (size(x), size(y));
    assert(a * b <= bx * by) by (nonlinear_arith)
        requires
            a <= bx,
            b <= by,
    ;
}

} // verus!
