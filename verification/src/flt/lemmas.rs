//! Facts about rounding that the arithmetic rests on.

use super::model::{half_even, nearest, units};
use vstd::arithmetic::div_mod::{lemma_div_denominator, lemma_fundamental_div_mod, lemma_fundamental_div_mod_converse};
use vstd::arithmetic::power2::{lemma_pow2_pos, lemma_pow2_unfold, pow2};
use vstd::prelude::*;

verus! {

pub proof fn lemma_halving_decreases(p: nat, q: nat)
    requires
        q > 0,
        p >= q * 0x0100_0000,
    ensures
        p / (2 * q) < p / q,
{
    lemma_div_denominator(p as int, q as int, 2);
    assert(q * 2 == 2 * q);
    lemma_fundamental_div_mod(p as int, q as int);
    assert(p / q > 0) by (nonlinear_arith)
        requires
            p == q * (p / q) + p % q,
            p % q < q,
            p >= q * 0x0100_0000,
            q > 0,
    ;
}

/// `m` stands for `p / q`: either exactly, or, when `m` is odd, for some value
/// strictly between the two even neighbours of `m`. This is what is left of a
/// quotient when the bits that were shifted out are folded into the lowest one.
pub open spec fn stands_for(m: nat, p: nat, q: nat) -> bool {
    p == m * q || (m % 2 == 1 && (m - 1) * q < p && p < (m + 1) * q)
}

/// One right shift that keeps a lost bit in the lowest place.
pub open spec fn sticky_half(m: nat) -> nat {
    if m % 2 == 1 && (m / 2) % 2 == 0 {
        m / 2 + 1
    } else {
        m / 2
    }
}

pub proof fn lemma_sticky_half(m: nat, p: nat, q: nat)
    requires
        q > 0,
        stands_for(m, p, q),
    ensures
        stands_for(sticky_half(m), p, 2 * q),
{
    let h = m / 2;
    if m % 2 == 0 {
        assert(m == 2 * h);
        assert(m * q == h * (2 * q)) by (nonlinear_arith)
            requires
                m == 2 * h,
        ;
    } else {
        assert(m == 2 * h + 1);
        let t = sticky_half(m);
        assert((m - 1) * q < p && p < (m + 1) * q) by (nonlinear_arith)
            requires
                q > 0,
                p == m * q || ((m - 1) * q < p && p < (m + 1) * q),
        ;
        assert((t - 1) * (2 * q) <= (m - 1) * q) by (nonlinear_arith)
            requires
                m == 2 * h + 1,
                t == h || t == h + 1,
                q > 0,
        ;
        assert((m + 1) * q <= (t + 1) * (2 * q)) by (nonlinear_arith)
            requires
                m == 2 * h + 1,
                t == h || t == h + 1,
                q > 0,
        ;
    }
}

proof fn lemma_cancel_less(a: int, b: int, q: int)
    by (nonlinear_arith)
    requires
        q > 0,
        a * q < b * q,
    ensures
        a < b,
{
}

/// What `m` stands for depends on the quotient only, not on how it is written.
pub proof fn lemma_stands_for_same_quotient(m: nat, p1: nat, q1: nat, p2: nat, q2: nat)
    requires
        q1 > 0,
        q2 > 0,
        p1 * q2 == p2 * q1,
        stands_for(m, p1, q1),
    ensures
        stands_for(m, p2, q2),
{
    if p1 == m * q1 {
        assert((m * q2) * q1 == p2 * q1) by (nonlinear_arith)
            requires
                p1 == m * q1,
                p1 * q2 == p2 * q1,
        ;
        assert(p2 == m * q2) by (nonlinear_arith)
            requires
                (m * q2) * q1 == p2 * q1,
                q1 > 0,
        ;
    } else {
        assert(((m - 1) * q2) * q1 < p2 * q1) by (nonlinear_arith)
            requires
                (m - 1) * q1 < p1,
                p1 * q2 == p2 * q1,
                q2 > 0,
        ;
        lemma_cancel_less((m - 1) * q2, p2 as int, q1 as int);
        assert(p2 * q1 < ((m + 1) * q2) * q1) by (nonlinear_arith)
            requires
                p1 < (m + 1) * q1,
                p1 * q2 == p2 * q1,
                q2 > 0,
        ;
        lemma_cancel_less(p2 as int, ((m + 1) * q2) as int, q1 as int);
    }
}

/// Rounding a count of quarters to a whole number, ties to even.
pub open spec fn round_quarters(m: nat) -> nat {
    let t = m / 4;
    let r = m % 4;
    if r < 2 || (r == 2 && t % 2 == 0) {
        t
    } else {
        t + 1
    }
}

pub proof fn lemma_round_quarters(m: nat, p: nat, q: nat)
    requires
        q > 0,
        m < 0x0400_0000,
        stands_for(m, 4 * p, q),
    ensures
        nearest(p, q) == round_quarters(m),
{
    let t = m / 4;
    let r = m % 4;
    assert(m == 4 * t + r);
    assert(4 * p < 4 * (q * 0x0100_0000)) by (nonlinear_arith)
        requires
            m < 0x0400_0000,
            q > 0,
            4 * p == m * q || (m % 2 == 1 && 4 * p < (m + 1) * q),
    {
        assert(m + 1 <= 0x0400_0000);
        assert((m + 1) * q <= 0x0400_0000 * q);
        if 4 * p == m * q {
            assert(m * q < 0x0400_0000 * q);
        }
        if m % 2 == 1 && 4 * p < (m + 1) * q {
            assert(4 * p < 0x0400_0000 * q);
        }
    }
    assert(p < q * 0x0100_0000);
    let rem = p - t * q;
    assert(4 * rem == 4 * p - 4 * (t * q)) by (nonlinear_arith)
        requires
            rem == p - t * q,
    ;
    assert(m * q == 4 * (t * q) + r * q) by (nonlinear_arith)
        requires
            m == 4 * t + r,
    ;
    assert((m - 1) * q == 4 * (t * q) + r * q - q) by (nonlinear_arith)
        requires
            m == 4 * t + r,
    ;
    assert((m + 1) * q == 4 * (t * q) + r * q + q) by (nonlinear_arith)
        requires
            m == 4 * t + r,
    ;
    assert(r == 0 ==> r * q == 0) by (nonlinear_arith);
    assert(r == 1 ==> r * q == q) by (nonlinear_arith);
    assert(r == 2 ==> r * q == 2 * q) by (nonlinear_arith);
    assert(r == 3 ==> r * q == 3 * q) by (nonlinear_arith);
    assert(0 <= rem < q);
    assert(t * q == q * t) by (nonlinear_arith);
    lemma_fundamental_div_mod_converse(p as int, q as int, t as int, rem);
}

/// Scaling numerator and denominator alike does not change the result.
pub proof fn lemma_nearest_doubled(p: nat, q: nat)
    requires
        q > 0,
        p >= q * 0x0100_0000,
    ensures
        nearest(p, q) == 0x0080_0000 + nearest(p, 2 * q),
{
}

pub proof fn lemma_half_even_scaled(c: nat, p: nat, q: nat)
    requires
        q > 0,
        c > 0,
    ensures
        c * q > 0,
        half_even(c * p, c * q) == half_even(p, q),
{
    let t = p / q;
    let r = p % q;
    lemma_fundamental_div_mod(p as int, q as int);
    assert(c * q > 0) by (nonlinear_arith)
        requires
            c > 0,
            q > 0,
    ;
    assert(c * p == (c * q) * t + c * r) by (nonlinear_arith)
        requires
            p == q * t + r,
    ;
    assert(c * r < c * q) by (nonlinear_arith)
        requires
            r < q,
            c > 0,
    ;
    assert(0 <= c * r) by (nonlinear_arith);
    assert((c * q) * t == t * (c * q)) by (nonlinear_arith);
    lemma_fundamental_div_mod_converse((c * p) as int, (c * q) as int, t as int, (c * r) as int);
    assert(2 * (c * r) < c * q <==> 2 * r < q) by (nonlinear_arith)
        requires
            c > 0,
    ;
    assert(2 * (c * r) > c * q <==> 2 * r > q) by (nonlinear_arith)
        requires
            c > 0,
    ;
}

pub proof fn lemma_nearest_scaled(c: nat, p: nat, q: nat)
    requires
        q > 0,
        c > 0,
    ensures
        c * q > 0,
        nearest(c * p, c * q) == nearest(p, q),
    decreases p / q,
{
    lemma_half_even_scaled(c, p, q);
    assert(c * p < (c * q) * 0x0100_0000 <==> p < q * 0x0100_0000) by (nonlinear_arith)
        requires
            c > 0,
    ;
    if p >= q * 0x0100_0000 {
        lemma_halving_decreases(p, q);
        lemma_nearest_scaled(c, p, 2 * q);
        assert(c * (2 * q) == 2 * (c * q)) by (nonlinear_arith);
    }
}

/// `f` halvings of a quotient that stays at or above 2^23 add `f` binades.
pub proof fn lemma_nearest_binades(p: nat, q: nat, f: nat)
    requires
        q > 0,
        f > 0 ==> p >= (q * pow2(f)) * 0x0080_0000,
    ensures
        q * pow2(f) > 0,
        nearest(p, q) == f * 0x0080_0000 + nearest(p, q * pow2(f)),
    decreases f,
{
    lemma_pow2_pos(f);
    assert(q * pow2(f) > 0) by (nonlinear_arith)
        requires
            q > 0,
            pow2(f) > 0,
    ;
    if f == 0 {
        vstd::arithmetic::power2::lemma2_to64();
        assert(q * pow2(0) == q) by (nonlinear_arith)
            requires
                pow2(0) == 1,
        ;
    } else {
        let g = (f - 1) as nat;
        lemma_pow2_unfold(f);
        lemma_pow2_pos(g);
        assert(q * pow2(f) == 2 * (q * pow2(g))) by (nonlinear_arith)
            requires
                pow2(f) == 2 * pow2(g),
        ;
        assert(q * pow2(g) >= 0) by (nonlinear_arith);
        lemma_nearest_binades(p, q, g);
    }
}

/// A larger magnitude stands for a larger value.
pub proof fn lemma_units_increasing(a: nat, b: nat)
    requires
        a < b,
    ensures
        units(a) < units(b),
    decreases b,
{
    if b >= 0x0100_0000 {
        let c = (b - 0x0080_0000) as nat;
        if a >= 0x0100_0000 {
            lemma_units_increasing((a - 0x0080_0000) as nat, c);
        } else {
            if c >= 0x0100_0000 {
                lemma_units_increasing(0x00FF_FFFF, c);
            }
        }
    }
}

/// Rounding gives every value of the format back.
pub proof fn lemma_nearest_of_units(m: nat)
    ensures
        nearest(units(m), 1) == m,
    decreases m,
{
    if m < 0x0100_0000 {
        assert(units(m) % 1 == 0);
        assert(units(m) / 1 == m);
    } else {
        let n = (m - 0x0080_0000) as nat;
        lemma_nearest_of_units(n);
        lemma_units_at_least(n);
        lemma_nearest_scaled(2, units(n), 1);
    }
}

/// From 2^23 on a magnitude stands for at least 2^23 units.
pub proof fn lemma_units_at_least(m: nat)
    ensures
        m >= 0x0080_0000 ==> units(m) >= 0x0080_0000,
        m > 0 ==> units(m) > 0,
    decreases m,
{
    if m >= 0x0100_0000 {
        lemma_units_at_least((m - 0x0080_0000) as nat);
    }
}

/// The usual reading of a magnitude: significand times a power of two.
pub proof fn lemma_units_decoded(m: nat, s: nat, e: nat)
    requires
        m >= 0x0080_0000,
        m == e * 0x0080_0000 + s,
        0x0080_0000 <= s < 0x0100_0000,
    ensures
        units(m) == s * pow2(e),
    decreases e,
{
    if e == 0 {
        vstd::arithmetic::power2::lemma2_to64();
    } else {
        lemma_units_decoded((m - 0x0080_0000) as nat, s, (e - 1) as nat);
        lemma_pow2_unfold(e);
        assert(s * pow2(e) == 2 * (s * pow2((e - 1) as nat))) by (nonlinear_arith)
            requires
                pow2(e) == 2 * pow2((e - 1) as nat),
        ;
    }
}

} // verus!
