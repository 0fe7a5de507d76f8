//! Exponential smoothing of the driver temperature.

use crate::flt::facts::{law_minus_itself, law_times_one, law_zero_plus, law_zero_times, lemma_one};
use crate::flt::errors::{
    law_minus_error, law_plus_error, law_times_error, lemma_size_bounds, safe_size, within,
};
use crate::flt::model::one;
use crate::flt::{size, Flt, ONE_BITS};
use vstd::arithmetic::power2::{lemma_pow2_adds, lemma_pow2_pos, lemma_pow2_strictly_increases, pow2};
use vstd::prelude::*;

verus! {

/// `alpha * raw + (1 - alpha) * prev`.
pub open spec fn smoothed(prev: Flt, raw: Flt, alpha: Flt) -> Flt {
    alpha.times(raw).plus((Flt { bits: ONE_BITS }).minus(alpha).times(prev))
}

/// One smoothing step: `alpha` of the new reading, the rest of the old value.
pub fn smooth(prev_smoothed: Flt, raw: Flt, alpha: Flt) -> (r: Flt)
    ensures
        r == smoothed(prev_smoothed, raw, alpha),
{
    let one: Flt = Flt { bits: ONE_BITS };
    alpha.mul(raw).add(one.sub(alpha).mul(prev_smoothed))
}

/// With the full weight on the new reading, the reading passes unchanged, save
/// that minus zero loses its sign where the old value has none.
pub proof fn law_full_weight_passes_the_reading(prev: Flt, raw: Flt)
    requires
        prev.finite(),
        raw.finite(),
        raw.magnitude() > 0 || !raw.negative() || prev.negative(),
    ensures
        smoothed(prev, raw, Flt { bits: ONE_BITS }) == raw,
{
    lemma_one();
    law_times_one(raw);
    law_minus_itself(Flt { bits: ONE_BITS });
    law_zero_times(prev);
    law_zero_plus(prev.negative(), raw);
}

/// The errors of a smoothing step, put together. All numbers are in units: `o` is
/// one, `c` the weight of the reading `r`, `u` what it leaves of one, `p` the old
/// value, `x` and `y` are the shares and `v` is their sum.
proof fn lemma_smoothing_error(
    o: int,
    c: int,
    u: int,
    r: int,
    p: int,
    x: int,
    y: int,
    v: int,
)
    requires
        o > 0,
        0 <= c <= o,
        within(0x0100_0000 * u, 0x0100_0000 * (o - c), size(o - c)),
        within(
            0x0100_0000 * (x * o),
            0x0100_0000 * (c * r),
            (size(c * r) + 0x0080_0000 * o) as nat,
        ),
        within(
            0x0100_0000 * (y * o),
            0x0100_0000 * (u * p),
            (size(u * p) + 0x0080_0000 * o) as nat,
        ),
        within(0x0100_0000 * v, 0x0100_0000 * (x + y), size(x + y)),
    ensures
        within(
            0x20_0000 * (v * o),
            0x20_0000 * (c * r + (o - c) * p),
            (o * (size(r) + size(p) + 0x40_0000)) as nat,
        ),
{
    let k: int = 0x0100_0000;
    let (mr, mp) = (size(r) as int, size(p) as int);
    lemma_size_bounds(c, r, o as nat, mr as nat);
    lemma_size_bounds(u, p, (2 * o) as nat, mp as nat);
    assert((2 * o) * mp == 2 * (o * mp)) by (nonlinear_arith);
    let e = u - (o - c);
    assert(size(k * e) <= o);
    lemma_size_bounds(k * e, p, o as nat, mp as nat);
    assert((k * e) * p == k * (u * p) - k * ((o - c) * p)) by (nonlinear_arith)
        requires
            e == u - (o - c),
    ;
    let (a, b) = (o * mr, o * mp);
    assert(size(x) <= 2 * mr + 1) by {
        let m = size(x) as int;
        crate::flt::errors::lemma_size_of_product(x, o);
        assert(k * (m * o) <= k * a + a + 0x0080_0000 * o);
        assert(m <= 2 * mr + 1) by (nonlinear_arith)
            requires
                o > 0,
                mr >= 0,
                a == o * mr,
                k == 0x0100_0000,
                k * (m * o) <= k * a + a + 0x0080_0000 * o,
        ;
    }
    assert(size(y) <= 4 * mp + 1) by {
        let m = size(y) as int;
        crate::flt::errors::lemma_size_of_product(y, o);
        assert(k * (m * o) <= k * (2 * b) + 2 * b + 0x0080_0000 * o);
        assert(m <= 4 * mp + 1) by (nonlinear_arith)
            requires
                o > 0,
                mp >= 0,
                b == o * mp,
                k == 0x0100_0000,
                k * (m * o) <= k * (2 * b) + 2 * b + 0x0080_0000 * o,
        ;
    }
    let g = v - (x + y);
    assert(size(k * g) <= 2 * mr + 4 * mp + 2);
    lemma_size_bounds(k * g, o, (2 * mr + 4 * mp + 2) as nat, o as nat);
    assert((k * g) * o == k * (v * o) - k * (x * o) - k * (y * o)) by (nonlinear_arith)
        requires
            g == v - (x + y),
    ;
    assert((2 * mr + 4 * mp + 2) * o == 2 * a + 4 * b + 2 * o) by (nonlinear_arith)
        requires
            a == o * mr,
            b == o * mp,
    ;
    assert(o * (mr + mp + 0x40_0000) == a + b + 0x40_0000 * o) by (nonlinear_arith)
        requires
            a == o * mr,
            b == o * mp,
    ;
    assert(a >= 0 && b >= 0) by (nonlinear_arith)
        requires
            a == o * mr,
            b == o * mp,
            o > 0,
            mr >= 0,
            mp >= 0,
    ;
    lemma_smoothing_sum(x * o, c * r, y * o, u * p, (o - c) * p, v * o, a, b, o);
}

proof fn lemma_smoothing_sum(
    xo: int,
    cr: int,
    yo: int,
    up: int,
    op: int,
    vo: int,
    a: int,
    b: int,
    o: int,
)
    requires
        a >= 0,
        b >= 0,
        o > 0,
        size(0x0100_0000 * xo - 0x0100_0000 * cr) <= a + 0x0080_0000 * o,
        size(0x0100_0000 * yo - 0x0100_0000 * up) <= 2 * b + 0x0080_0000 * o,
        size(0x0100_0000 * up - 0x0100_0000 * op) <= b,
        size(0x0100_0000 * vo - 0x0100_0000 * xo - 0x0100_0000 * yo) <= 2 * a + 4 * b + 2 * o,
    ensures
        within(0x20_0000 * vo, 0x20_0000 * (cr + op), (a + b + 0x40_0000 * o) as nat),
{
}

/// A smoothed temperature is the mean of reading and old value with the weights
/// `alpha` and `1 - alpha`, but for one part in 2^21 of their sizes and a few
/// units. The weight lies between 0 and 1, and nothing overflows.
pub proof fn law_smoothing_is_the_weighted_mean(prev: Flt, raw: Flt, alpha: Flt)
    requires
        prev.finite(),
        raw.finite(),
        alpha.finite(),
        0 <= alpha.value() <= one(),
        (size(prev.value()) <= pow2(270) && size(raw.value()) <= pow2(270)) || smoothed(
            prev,
            raw,
            alpha,
        ).finite(),
    ensures
        smoothed(prev, raw, alpha).finite(),
        within(
            0x20_0000 * (smoothed(prev, raw, alpha).value() * one()),
            0x20_0000 * (alpha.value() * raw.value() + (one() - alpha.value()) * prev.value()),
            one() * (size(raw.value()) + size(prev.value()) + 0x40_0000),
        ),
{
    lemma_one();
    lemma_pow2_pos(149);
    let full = Flt { bits: ONE_BITS };
    law_minus_error(full, alpha);
    lemma_pow2_strictly_increases(149, 276);
    let u = full.minus(alpha);
    let (x, y) = (alpha.times(raw), u.times(prev));
    law_times_error(alpha, raw);
    law_times_error(u, prev);
    let o = one() as int;
    assert(size(u.value()) <= 2 * o);
    if size(prev.value()) <= pow2(270) && size(raw.value()) <= pow2(270) {
        lemma_size_bounds(alpha.value(), raw.value(), one(), pow2(270));
        lemma_size_bounds(u.value(), prev.value(), 2 * one(), pow2(270));
        lemma_pow2_adds(6, 270);
        vstd::arithmetic::power2::lemma2_to64();
        assert(safe_size() == 64 * pow2(270));
        lemma_pow2_pos(270);
        assert(one() * pow2(270) <= safe_size() * one() && (2 * one()) * pow2(270) <= safe_size()
            * one()) by (nonlinear_arith)
            requires
                safe_size() == 64 * pow2(270),
        ;
        assert(x.finite() && y.finite());
        lemma_share_size(alpha.value(), raw.value(), x.value(), o, pow2(270) as int);
        lemma_share_size(u.value(), prev.value(), y.value(), o, pow2(270) as int);
    }
    law_plus_error(x, y);
    lemma_smoothing_error(
        o,
        alpha.value(),
        u.value(),
        raw.value(),
        prev.value(),
        x.value(),
        y.value(),
        x.plus(y).value(),
    );
}

/// A share of a bounded value is bounded.
proof fn lemma_share_size(c: int, r: int, x: int, o: int, m: int)
    requires
        o > 0,
        m >= 1,
        size(c) <= 2 * o,
        size(r) <= m,
        within(
            0x0100_0000 * (x * o),
            0x0100_0000 * (c * r),
            (size(c * r) + 0x0080_0000 * o) as nat,
        ),
    ensures
        size(x) <= 5 * m,
{
    lemma_size_bounds(c, r, (2 * o) as nat, m as nat);
    crate::flt::errors::lemma_size_of_product(x, o);
    let s = size(x) as int;
    let b = o * m;
    assert((2 * o) * m == 2 * b) by (nonlinear_arith)
        requires
            b == o * m,
    ;
    assert(0x0100_0000 * (s * o) <= 0x0100_0000 * (2 * b) + 2 * b + 0x0080_0000 * o);
    assert(s <= 5 * m) by (nonlinear_arith)
        requires
            o > 0,
            m >= 1,
            b == o * m,
            0x0100_0000 * (s * o) <= 0x0100_0000 * (2 * b) + 2 * b + 0x0080_0000 * o,
    ;
}

} // verus!
