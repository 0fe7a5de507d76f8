//! What the time of a tick is worth, in seconds.

use super::daemon::{seconds, time_step, MIN_DT_BITS, NANOS_BITS};
use crate::flt::errors::{
    law_over_error, law_plus_error, law_whole_error, safe_size, within,
};
use crate::flt::lemmas::lemma_units_decoded;
use crate::flt::model::one;
use crate::flt::{whole, Flt};
use vstd::arithmetic::power2::{lemma2_to64, lemma_pow2_adds, lemma_pow2_pos, pow2};
use vstd::prelude::*;

verus! {

/// The errors put together: `a` the rounded seconds, `b` the rounded nanoseconds
/// behind them, `q` those as seconds, `r` the sum.
proof fn lemma_seconds_error(o: int, s: int, n: int, a: int, b: int, q: int, r: int)
    requires
        o > 0,
        0 <= s,
        0 <= n,
        0 <= a,
        0 <= b,
        0 <= q,
        within(0x0100_0000 * a, 0x0100_0000 * (s * o), (s * o) as nat),
        within(0x0100_0000 * b, 0x0100_0000 * (n * o), (n * o) as nat),
        within(
            0x0100_0000 * (q * (1_000_000_000 * o)),
            0x0100_0000 * (b * o),
            (b * o + 0x0080_0000 * (1_000_000_000 * o)) as nat,
        ),
        within(0x0100_0000 * r, 0x0100_0000 * (a + q), (a + q) as nat),
    ensures
        within(
            0x20_0000 * (1_000_000_000 * r),
            0x20_0000 * ((1_000_000_000 * s + n) * o),
            ((1_000_000_000 * s + n) * o + 0x40_0000 * 1_000_000_000) as nat,
        ),
{
    let k: int = 0x0100_0000;
    let g: int = 1_000_000_000;
    let (x, y) = (s * o, n * o);
    assert(x >= 0 && y >= 0 && b * o >= 0) by (nonlinear_arith)
        requires
            x == s * o,
            y == n * o,
            s >= 0,
            n >= 0,
            b >= 0,
            o > 0,
    ;
    assert(q * (g * o) == (g * q) * o) by (nonlinear_arith);
    let e = k * (g * q) - k * b;
    assert(-(b + 0x0080_0000 * g) <= e <= b + 0x0080_0000 * g) by (nonlinear_arith)
        requires
            o > 0,
            e == k * (g * q) - k * b,
            k * ((g * q) * o) - k * (b * o) <= b * o + 0x0080_0000 * (g * o),
            k * (b * o) - k * ((g * q) * o) <= b * o + 0x0080_0000 * (g * o),
    ;
    assert((g * s + n) * o == g * x + y) by (nonlinear_arith)
        requires
            x == s * o,
            y == n * o,
    ;
}

/// A number of nanoseconds is that many seconds, but for one part in 2^21 and a few
/// units. More than 2^32 seconds are left out.
pub proof fn law_seconds_by_values(ns: u64)
    requires
        ns < 0x1_0000_0000 * 1_000_000_000,
    ensures
        seconds(ns).finite(),
        within(
            0x20_0000 * (1_000_000_000 * seconds(ns).value()),
            0x20_0000 * (ns * one()),
            (ns * one() + 0x40_0000 * 1_000_000_000) as nat,
        ),
{
    let g: int = 1_000_000_000;
    let (s, n) = ((ns / 1_000_000_000) as nat, (ns % 1_000_000_000) as nat);
    let o = one() as int;
    lemma_pow2_pos(149);
    lemma2_to64();
    lemma_units_decoded(NANOS_BITS as nat, 0x00EE_6B28, 155);
    lemma_pow2_adds(6, 149);
    let giga = Flt { bits: NANOS_BITS };
    assert(giga.value() == g * o) by (nonlinear_arith)
        requires
            giga.value() == 0x00EE_6B28 * pow2(155),
            pow2(155) == 64 * one(),
            g == 1_000_000_000,
            o == one(),
    ;
    law_whole_error(s);
    law_whole_error(n);
    let (a, b) = (whole(s), whole(n));
    lemma_pow2_adds(32, 149);
    lemma_pow2_adds(181, 95);
    lemma_pow2_adds(2, 93);
    lemma_pow2_pos(93);
    let big = 4 * pow2(181);
    assert(big <= safe_size()) by (nonlinear_arith)
        requires
            safe_size() == pow2(181) * pow2(95),
            pow2(95) == 4 * pow2(93),
            pow2(93) >= 1,
            big == 4 * pow2(181),
    ;
    assert(s * one() <= 0x1_0000_0000 * one() && n * one() <= 0x1_0000_0000 * one())
        by (nonlinear_arith)
        requires
            s <= 0x1_0000_0000,
            n <= 0x1_0000_0000,
    ;
    assert(0 <= a.value() <= big / 2 && 0 <= b.value() <= big / 2);
    law_over_error(b, giga);
    let bv = b.value();
    assert(bv * o <= safe_size() * (g * o)) by (nonlinear_arith)
        requires
            bv <= safe_size(),
            o > 0,
            g >= 1,
            bv >= 0,
    ;
    let q = b.over(giga);
    assert(q.finite());
    assert(q.value() >= 0) by {
        assert(!giga.negative());
        if q.value() < 0 {
            let v = q.value();
            assert(v * (g * o) <= -(g * o)) by (nonlinear_arith)
                requires
                    v <= -1,
                    g * o >= 0,
            ;
            assert(bv * o >= 0) by (nonlinear_arith)
                requires
                    bv >= 0,
                    o > 0,
            ;
            lemma_not_negative(b, giga);
        }
    }
    lemma_quotient_is_small(bv, q.value(), g, o);
    law_plus_error(a, q);
    let r = a.plus(q);
    lemma_seconds_error(o, s as int, n as int, a.value(), bv, q.value(), r.value());
    assert(1_000_000_000 * s + n == ns);
}

proof fn lemma_quotient_is_small(b: int, q: int, g: int, o: int)
    requires
        0 <= b,
        0 <= q,
        o > 0,
        g == 1_000_000_000,
        within(
            0x0100_0000 * (q * (g * o)),
            0x0100_0000 * (b * o),
            (b * o + 0x0080_0000 * (g * o)) as nat,
        ),
    ensures
        q <= b + 1,
{
    assert(b * o >= 0) by (nonlinear_arith)
        requires
            b >= 0,
            o > 0,
    ;
    assert(q <= b + 1) by (nonlinear_arith)
        requires
            0 <= b,
            0 <= q,
            o > 0,
            g == 1_000_000_000,
            0x0100_0000 * (q * (g * o)) <= 0x0100_0000 * (b * o) + b * o + 0x0080_0000 * (g * o),
    ;
}

/// A quotient of values that are not negative is not negative.
proof fn lemma_not_negative(x: Flt, y: Flt)
    requires
        x.finite(),
        y.finite(),
        !x.negative(),
        !y.negative(),
        y.value() > 0,
    ensures
        x.over(y).value() >= 0,
{
    assert(y.magnitude() > 0) by {
        if y.magnitude() == 0 {
            assert(crate::flt::model::units(0) == 0);
        }
    }
    crate::flt::facts::lemma_signed(
        false,
        crate::flt::model::round_magnitude(
            crate::flt::model::units(x.magnitude()) * one(),
            crate::flt::model::units(y.magnitude()),
        ),
    );
}

/// A thousandth of a second, but for one part in 2^24.
pub proof fn law_least_step()
    ensures
        (Flt { bits: MIN_DT_BITS }).finite(),
        within(
            0x0100_0000 * (1000 * (Flt { bits: MIN_DT_BITS }).value()),
            (0x0100_0000 * one()) as int,
            one(),
        ),
{
    lemma_units_decoded(MIN_DT_BITS as nat, 0x0083_126F, 116);
    lemma2_to64();
    lemma_pow2_adds(32, 117);
    lemma_pow2_adds(1, 116);
    lemma_pow2_pos(116);
}

/// The time of a tick is the time since it began, in seconds, up to rounding, and a
/// thousandth of a second if that is more.
pub proof fn law_time_step_by_values(start: u64, now: u64)
    requires
        start <= now,
        now - start < 0x1_0000_0000 * 1_000_000_000,
    ensures
        ({
            let t = time_step(start, now);
            let ns = (now - start) as u64;
            let least = (Flt { bits: MIN_DT_BITS }).value();
            &&& t.finite()
            &&& t.value() >= least
            &&& t.value() == least || within(
                0x20_0000 * (1_000_000_000 * t.value()),
                0x20_0000 * (ns * one()),
                (ns * one() + 0x40_0000 * 1_000_000_000) as nat,
            )
            &&& 0x20_0000 * (1_000_000_000 * least) < 0x20_0000 * (ns * one()) - (ns * one()
                + 0x40_0000 * 1_000_000_000) ==> t.value() > least
        }),
{
    law_seconds_by_values((now - start) as u64);
    law_least_step();
}

} // verus!
