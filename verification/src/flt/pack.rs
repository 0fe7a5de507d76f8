//! From an intermediate significand to the rounded bit pattern.

use super::lemmas::{
    lemma_nearest_binades, lemma_nearest_doubled, lemma_round_quarters,
    lemma_stands_for_same_quotient, lemma_sticky_half, round_quarters, stands_for, sticky_half,
};
use super::model::{nearest, round_magnitude, BINADE, INFINITY_BITS};
use vstd::arithmetic::power2::{lemma2_to64, lemma_pow2_pos, lemma_pow2_unfold, pow2};
use vstd::prelude::*;

verus! {

/// The positive part of an exponent.
pub open spec fn up(f: int) -> nat {
    if f > 0 {
        f as nat
    } else {
        0
    }
}

/// The intermediate result `m * 2^f` in quarters of a unit stands for `p / q`.
/// A multiple of more than one quarter is either exact or has enough bits left
/// to tell a half from what lies next to it.
pub open spec fn significand_of(m: nat, f: int, p: nat, q: nat) -> bool {
    &&& stands_for(m, 4 * p * pow2(up(-f)), q * pow2(up(f)))
    &&& f > 0 ==> (m >= 0x0200_0000 || 4 * p == m * (q * pow2(up(f))))
}

pub(crate) fn halve_sticky(m: u64) -> (h: u64)
    ensures
        h == sticky_half(m as nat),
{
    let t: u64 = m / 2;
    if m % 2 == 1 && t % 2 == 0 {
        t + 1
    } else {
        t
    }
}

/// Removes a negative exponent.
fn drop_fraction(m0: u64, f0: i32, Ghost(p): Ghost<nat>, Ghost(q): Ghost<nat>) -> (m: u64)
    requires
        q > 0,
        m0 < 0x4000_0000_0000_0000,
        -1000 <= f0 <= 0,
        stands_for(m0 as nat, 4 * p * pow2((-f0) as nat), q),
    ensures
        m < 0x4000_0000_0000_0000,
        stands_for(m as nat, 4 * p, q),
{
    let mut m: u64 = m0;
    let mut f: i32 = f0;
    while f < 0
        invariant
            q > 0,
            m < 0x4000_0000_0000_0000,
            -1000 <= f <= 0,
            stands_for(m as nat, 4 * p * pow2((-f) as nat), q),
        decreases -f,
    {
        proof {
            let big = pow2((-f) as nat);
            let small = pow2((-f - 1) as nat);
            lemma_pow2_unfold((-f) as nat);
            lemma_sticky_half(m as nat, 4 * p * big, q);
            assert((4 * p * big) * q == (4 * p * small) * (2 * q)) by (nonlinear_arith)
                requires
                    big == 2 * small,
            ;
            lemma_stands_for_same_quotient(
                sticky_half(m as nat),
                4 * p * big,
                2 * q,
                4 * p * small,
                q,
            );
        }
        m = halve_sticky(m);
        f = f + 1;
    }
    proof {
        lemma2_to64();
        assert(4 * p * pow2(0) == 4 * p) by (nonlinear_arith)
            requires
                pow2(0) == 1,
        ;
    }
    m
}

proof fn lemma_enough_for_binades(m: nat, p: nat, q: nat)
    requires
        q > 0,
        m >= 0x0200_0000,
        stands_for(m, 4 * p, q),
    ensures
        p >= q * 0x0080_0000,
{
    assert(4 * p >= 0x0200_0000 * q) by (nonlinear_arith)
        requires
            q > 0,
            m >= 0x0200_0000,
            4 * p == m * q || (m % 2 == 1 && (m - 1) * q < 4 * p),
    {
        if 4 * p == m * q {
            assert(m * q >= 0x0200_0000 * q);
        } else {
            assert(m - 1 >= 0x0200_0000);
            assert((m - 1) * q >= 0x0200_0000 * q);
        }
    }
}

/// Rounds `m * 2^f` quarters of a unit to a magnitude.
pub fn pack(m0: u64, f0: i32, Ghost(p): Ghost<nat>, Ghost(q): Ghost<nat>) -> (r: u32)
    requires
        q > 0,
        m0 < 0x4000_0000_0000_0000,
        -1000 <= f0 <= 1000,
        significand_of(m0 as nat, f0 as int, p, q),
    ensures
        r == round_magnitude(p, q),
{
    let mut m: u64 = m0;
    let mut f: i32 = f0;
    proof {
        lemma2_to64();
        assert(q * pow2(0) == q) by (nonlinear_arith)
            requires
                pow2(0) == 1,
        ;
        assert(4 * p * pow2(0) == 4 * p) by (nonlinear_arith)
            requires
                pow2(0) == 1,
        ;
    }
    if f <= 0 {
        m = drop_fraction(m0, f0, Ghost(p), Ghost(q));
        f = 0;
    }
    while f > 0 && m < 0x0200_0000
        invariant
            q > 0,
            m < 0x4000_0000_0000_0000,
            0 <= f <= 1000,
            stands_for(m as nat, 4 * p, q * pow2(f as nat)),
            f > 0 ==> (m >= 0x0200_0000 || 4 * p == m * (q * pow2(f as nat))),
        decreases f,
    {
        proof {
            let big = pow2(f as nat);
            let small = pow2((f - 1) as nat);
            lemma_pow2_unfold(f as nat);
            assert(m * (q * big) == (2 * m) * (q * small)) by (nonlinear_arith)
                requires
                    big == 2 * small,
            ;
        }
        m = m * 2;
        f = f - 1;
    }
    let ghost step = q * pow2(f as nat);
    proof {
        lemma_pow2_pos(f as nat);
        assert(q * pow2(f as nat) > 0) by (nonlinear_arith)
            requires
                q > 0,
                pow2(f as nat) > 0,
        ;
        if f > 0 {
            lemma_enough_for_binades(m as nat, p, step);
        }
        lemma_nearest_binades(p, q, f as nat);
    }
    let ghost mut wide: nat = step;
    let mut k: u64 = f as u64;
    while m >= 0x0400_0000
        invariant
            q > 0,
            wide > 0,
            m < 0x4000_0000_0000_0000,
            k + m <= 0x4000_0000_0000_1000,
            stands_for(m as nat, 4 * p, wide),
            nearest(p, q) == k * 0x0080_0000 + nearest(p, wide),
        decreases m,
    {
        proof {
            lemma_enough_for_binades(m as nat, p, wide);
            assert(p >= wide * 0x0100_0000) by (nonlinear_arith)
                requires
                    wide > 0,
                    m >= 0x0400_0000,
                    4 * p == m * wide || (m % 2 == 1 && (m - 1) * wide < 4 * p),
            {
                if 4 * p == m * wide {
                    assert(m * wide >= 0x0400_0000 * wide);
                } else {
                    assert(m - 1 >= 0x0400_0000);
                    assert((m - 1) * wide >= 0x0400_0000 * wide);
                }
            }
            lemma_nearest_doubled(p, wide);
            lemma_sticky_half(m as nat, 4 * p, wide);
            wide = 2 * wide;
        }
        m = halve_sticky(m);
        k = k + 1;
    }
    let t: u64 = m / 4;
    let r: u64 = m % 4;
    let n: u64 = if r < 2 || (r == 2 && t % 2 == 0) {
        t
    } else {
        t + 1
    };
    proof {
        lemma_round_quarters(m as nat, p, wide);
        assert(n == round_quarters(m as nat));
    }
    if k >= 255 {
        return INFINITY_BITS;
    }
    let bits: u64 = k * (BINADE as u64) + n;
    if bits >= INFINITY_BITS as u64 {
        INFINITY_BITS
    } else {
        bits as u32
    }
}

} // verus!
