//! Sum, product, quotient and conversions.

use super::lemmas::{lemma_sticky_half, stands_for, sticky_half};
use super::model::{one, round_magnitude, units, INFINITY_BITS};
use super::pack::{halve_sticky, pack, significand_of, up};
use super::{decode, rounded, signed, size, whole, Flt, NAN_BITS};
use vstd::arithmetic::power2::{
    lemma2_to64, lemma2_to64_rest, lemma_pow2_adds, lemma_pow2_pos, lemma_pow2_strictly_increases, lemma_pow2_unfold, pow2,
};
use vstd::prelude::*;

verus! {

/// An exact intermediate result.
proof fn lemma_exact(m: nat, f: int, p: nat, q: nat)
    requires
        4 * p * pow2(up(-f)) == m * (q * pow2(up(f))),
    ensures
        significand_of(m, f, p, q),
{
    lemma2_to64();
    if f > 0 {
        assert(4 * p * pow2(0) == 4 * p) by (nonlinear_arith)
            requires
                pow2(0) == 1,
        ;
    }
}

/// `s * 2^e` units, as quarters.
proof fn lemma_exact_units(s: nat, e: nat, p: nat)
    requires
        p == s * pow2(e),
    ensures
        significand_of(s, (e + 2) as int, p, 1),
{
    lemma2_to64();
    lemma_pow2_adds(e, 2);
    assert(4 * p * pow2(0) == s * (1 * pow2(e + 2))) by (nonlinear_arith)
        requires
            p == s * pow2(e),
            pow2(e + 2) == pow2(e) * 4,
            pow2(0) == 1,
    ;
    lemma_exact(s, (e + 2) as int, p, 1);
}

/// A much smaller second operand only disturbs the lowest bit.
proof fn lemma_far_apart(sa: nat, ea: nat, sb: nat, eb: nat, add: bool, p: nat)
    requires
        0x0080_0000 <= sa < 0x0100_0000,
        0 < sb < 0x0100_0000,
        ea >= eb + 37,
        add ==> p == sa * pow2(ea) + sb * pow2(eb),
        !add ==> p == sa * pow2(ea) - sb * pow2(eb),
    ensures
        significand_of(
            (sa * 16384 + (if add { 1int } else { -1int })) as nat,
            ea - 12,
            p,
            1,
        ),
{
    let f = (ea - 12) as nat;
    let wide = pow2(f);
    lemma2_to64();
    lemma_pow2_pos(f);
    lemma_pow2_pos(eb);
    lemma_pow2_adds(f, 12);
    assert(pow2(ea) == wide * 4096);
    lemma_pow2_adds(eb, 26);
    lemma_pow2_adds(f, 1);
    if eb + 26 < f + 1 {
        lemma_pow2_strictly_increases(eb + 26, f + 1);
    }
    let small = 4 * (sb * pow2(eb));
    assert(0 < small < 2 * wide) by (nonlinear_arith)
        requires
            small == 4 * (sb * pow2(eb)),
            0 < sb < 0x0100_0000,
            pow2(eb) > 0,
            pow2(eb) * 0x0400_0000 <= wide * 2,
    ;
    assert(4 * (sa * pow2(ea)) == (sa * 16384) * wide) by (nonlinear_arith)
        requires
            pow2(ea) == wide * 4096,
    ;
    let base = sa * 16384;
    assert((base + 2) * wide == base * wide + 2 * wide) by (nonlinear_arith);
    assert((base - 2) * wide == base * wide - 2 * wide) by (nonlinear_arith);
    assert(4 * p * pow2(0) == 4 * p) by (nonlinear_arith)
        requires
            pow2(0) == 1,
    ;
    assert(1 * pow2(up(ea - 12)) == wide);
    let m = (base + (if add { 1int } else { -1int })) as nat;
    assert(m % 2 == 1);
    assert(stands_for(m, 4 * p, wide));
}

/// The sum of two finite values of which the first has the larger exponent.
fn add_ordered(
    na: bool,
    sa: u64,
    ea: u32,
    nb: bool,
    sb: u64,
    eb: u32,
    Ghost(a): Ghost<int>,
    Ghost(b): Ghost<int>,
) -> (r: Flt)
    requires
        sa < 0x0100_0000,
        sb < 0x0100_0000,
        eb <= ea <= 253,
        ea > 0 ==> sa >= 0x0080_0000,
        a == (if na { -(sa * pow2(ea as nat)) } else { sa * pow2(ea as nat) }),
        b == (if nb { -(sb * pow2(eb as nat)) } else { sb * pow2(eb as nat) }),
    ensures
        r == (if a + b == 0 { signed(na && nb, 0) } else { rounded(a + b < 0, size(a + b), 1) }),
{
    let d: u32 = ea - eb;
    let ghost sum = a + b;
    proof {
        lemma_pow2_pos(ea as nat);
        lemma_pow2_pos(eb as nat);
    }
    if d <= 36 {
        proof {
            lemma2_to64();
            lemma2_to64_rest();
            lemma_pow2_adds(d as nat, eb as nat);
            if d < 36 {
                lemma_pow2_strictly_increases(d as nat, 36);
            }
            lemma_pow2_pos(d as nat);
            assert(sa * pow2(d as nat) < 0x1000_0000_0000_0000) by (nonlinear_arith)
                requires
                    sa < 0x0100_0000,
                    0 < pow2(d as nat) <= 0x10_0000_0000,
            ;
            vstd::bits::lemma_u64_shl_is_mul(sa, d as u64);
        }
        let x: u64 = sa << (d as u64);
        let y: u64 = sb;
        let ghost unit = pow2(eb as nat);
        assert(sa * pow2(ea as nat) == x * unit) by (nonlinear_arith)
            requires
                x == sa * pow2(d as nat),
                pow2(ea as nat) == pow2(d as nat) * unit,
        ;
        assert((x + y) * unit == x * unit + y * unit) by (nonlinear_arith);
        assert((x - y) * unit == x * unit - y * unit) by (nonlinear_arith);
        assert((y - x) * unit == y * unit - x * unit) by (nonlinear_arith);
        assert(x > y ==> x * unit > y * unit) by (nonlinear_arith)
            requires
                unit > 0,
        ;
        assert(x < y ==> x * unit < y * unit) by (nonlinear_arith)
            requires
                unit > 0,
        ;
        assert(x >= 0 && y >= 0 ==> x * unit >= 0 && y * unit >= 0) by (nonlinear_arith)
            requires
                unit > 0,
        ;
        assert(x + y > 0 ==> (x + y) * unit > 0) by (nonlinear_arith)
            requires
                unit > 0,
        ;
        let negative: bool;
        let s: u64;
        if na == nb {
            negative = na;
            s = x + y;
        } else if x > y {
            negative = na;
            s = x - y;
        } else {
            negative = nb;
            s = y - x;
        }
        assert(size(sum) == s * unit);
        if s == 0 {
            assert(0 * unit == 0);
            return Flt::with_sign(na && nb, 0);
        }
        assert(s * unit > 0) by (nonlinear_arith)
            requires
                s > 0,
                unit > 0,
        ;
        proof {
            lemma_exact_units(s as nat, eb as nat, size(sum));
        }
        let m: u32 = pack(s, eb as i32 + 2, Ghost(size(sum)), Ghost(1));
        Flt::with_sign(negative, m)
    } else {
        assert(sa * pow2(ea as nat) > 0) by (nonlinear_arith)
            requires
                sa >= 0x0080_0000,
                pow2(ea as nat) > 0,
        ;
        if sb == 0 {
            assert(0 * pow2(eb as nat) == 0);
            proof {
                lemma_exact_units(sa as nat, ea as nat, size(sum));
            }
            let m: u32 = pack(sa, ea as i32 + 2, Ghost(size(sum)), Ghost(1));
            return Flt::with_sign(na, m);
        }
        let add: bool = na == nb;
        proof {
            lemma_pow2_strictly_increases(eb as nat, ea as nat);
            assert(sb * pow2(eb as nat) < sa * pow2(ea as nat)) by {
                lemma2_to64_rest();
                lemma_pow2_adds((ea - 37) as nat, 37);
                if eb < ea - 37 {
                    lemma_pow2_strictly_increases(eb as nat, (ea - 37) as nat);
                }
                assert(sb * pow2(eb as nat) < sa * pow2(ea as nat)) by (nonlinear_arith)
                    requires
                        0 < sb < 0x0100_0000,
                        sa >= 0x0080_0000,
                        pow2(eb as nat) > 0,
                        pow2(ea as nat) >= pow2(eb as nat) * 0x20_0000_0000,
                ;
            }
            lemma_far_apart(sa as nat, ea as nat, sb as nat, eb as nat, add, size(sum));
        }
        let s: u64 = if add {
            sa * 16384 + 1
        } else {
            sa * 16384 - 1
        };
        let m: u32 = pack(s, ea as i32 - 12, Ghost(size(sum)), Ghost(1));
        Flt::with_sign(na, m)
    }
}

impl Flt {
    pub fn add(self, other: Flt) -> (r: Flt)
        ensures
            r == self.plus(other),
    {
        if self.is_nan() || other.is_nan() {
            return Flt { bits: NAN_BITS };
        }
        let (na, ma) = self.parts();
        let (nb, mb) = other.parts();
        if ma == INFINITY_BITS {
            if mb == INFINITY_BITS && na != nb {
                return Flt { bits: NAN_BITS };
            }
            return self;
        }
        if mb == INFINITY_BITS {
            return other;
        }
        let (sa, ea) = decode(ma);
        let (sb, eb) = decode(mb);
        if ea >= eb {
            add_ordered(na, sa, ea, nb, sb, eb, Ghost(self.value()), Ghost(other.value()))
        } else {
            add_ordered(nb, sb, eb, na, sa, ea, Ghost(other.value()), Ghost(self.value()))
        }
    }

    pub fn sub(self, other: Flt) -> (r: Flt)
        ensures
            r == self.minus(other),
    {
        if other.is_nan() {
            return Flt { bits: NAN_BITS };
        }
        self.add(other.neg())
    }

    pub fn mul(self, other: Flt) -> (r: Flt)
        ensures
            r == self.times(other),
    {
        if self.is_nan() || other.is_nan() {
            return Flt { bits: NAN_BITS };
        }
        let (na, ma) = self.parts();
        let (nb, mb) = other.parts();
        let negative: bool = na != nb;
        if ma == INFINITY_BITS || mb == INFINITY_BITS {
            if ma == 0 || mb == 0 {
                return Flt { bits: NAN_BITS };
            }
            return Flt::with_sign(negative, INFINITY_BITS);
        }
        let (sa, ea) = decode(ma);
        let (sb, eb) = decode(mb);
        assert(sa * sb < 0x1_0000_0000_0000) by (nonlinear_arith)
            requires
                sa < 0x0100_0000,
                sb < 0x0100_0000,
        ;
        let s: u64 = sa * sb;
        let f: i32 = ea as i32 + eb as i32 - 147;
        let ghost p = units(ma as nat) * units(mb as nat);
        proof {
            lemma2_to64();
            lemma_pow2_pos(149);
            lemma_pow2_adds(ea as nat, eb as nat);
            lemma_pow2_adds((ea + eb) as nat, 2);
            let low = up(-f);
            let high = up(f as int);
            lemma_pow2_adds((ea + eb + 2) as nat, low);
            lemma_pow2_adds(149, high);
            assert(ea + eb + 2 + low == 149 + high);
            assert(4 * p * pow2(low) == s * (one() * pow2(high))) by (nonlinear_arith)
                requires
                    p == (sa * pow2(ea as nat)) * (sb * pow2(eb as nat)),
                    s == sa * sb,
                    pow2((ea + eb) as nat) == pow2(ea as nat) * pow2(eb as nat),
                    pow2((ea + eb + 2) as nat) == pow2((ea + eb) as nat) * 4,
                    pow2((ea + eb + 2) as nat) * pow2(low) == one() * pow2(high),
            {
                let x = pow2(ea as nat);
                let y = pow2(eb as nat);
                assert((sa * x) * (sb * y) == (sa * sb) * (x * y));
                let t = x * y;
                assert(4 * (s * t) * pow2(low) == s * ((t * 4) * pow2(low)));
            }
            lemma_exact(s as nat, f as int, p, one());
        }
        let m: u32 = pack(s, f, Ghost(p), Ghost(one()));
        Flt::with_sign(negative, m)
    }

    pub fn div(self, other: Flt) -> (r: Flt)
        ensures
            r == self.over(other),
    {
        if self.is_nan() || other.is_nan() {
            return Flt { bits: NAN_BITS };
        }
        let (na, ma) = self.parts();
        let (nb, mb) = other.parts();
        let negative: bool = na != nb;
        if ma == INFINITY_BITS {
            if mb == INFINITY_BITS {
                return Flt { bits: NAN_BITS };
            }
            return Flt::with_sign(negative, INFINITY_BITS);
        }
        if mb == INFINITY_BITS {
            return Flt::with_sign(negative, 0);
        }
        if mb == 0 {
            if ma == 0 {
                return Flt { bits: NAN_BITS };
            }
            return Flt::with_sign(negative, INFINITY_BITS);
        }
        let m: u32 = quotient(ma, mb);
        Flt::with_sign(negative, m)
    }

    /// The value nearest to a whole number.
    pub fn from_u64(n: u64) -> (r: Flt)
        ensures
            r == whole(n as nat),
    {
        let ghost p = n as nat * one();
        if n < 0x4000_0000_0000_0000 {
            proof {
                lemma_exact_units(n as nat, 149, p);
            }
            let m: u32 = pack(n, 151, Ghost(p), Ghost(1));
            return Flt::with_sign(false, m);
        }
        let h: u64 = halve_sticky(n);
        let q: u64 = halve_sticky(h);
        proof {
            lemma_large_whole(n as nat, p);
        }
        let m: u32 = pack(q, 153, Ghost(p), Ghost(1));
        Flt::with_sign(false, m)
    }

    /// The value nearest to a whole number.
    pub fn from_u32(n: u32) -> (r: Flt)
        ensures
            r == whole(n as nat),
    {
        Flt::from_u64(n as u64)
    }

    /// The whole number without its fraction, kept in range.
    pub fn trunc_to_u32(self) -> (r: u32)
        ensures
            r == self.truncated(),
    {
        if self.is_nan() {
            return 0;
        }
        let (n, m) = self.parts();
        if n {
            return 0;
        }
        if m == INFINITY_BITS {
            return u32::MAX;
        }
        let (s, e) = decode(m);
        proof {
            lemma2_to64();
            lemma_pow2_pos(149);
        }
        if e >= 149 {
            let d: u32 = e - 149;
            proof {
                lemma_pow2_adds(149, d as nat);
                lemma_pow2_pos(d as nat);
                let w = s * pow2(d as nat);
                assert(units(m as nat) == one() * w) by (nonlinear_arith)
                    requires
                        units(m as nat) == s * pow2(e as nat),
                        pow2(e as nat) == one() * pow2(d as nat),
                        w == s * pow2(d as nat),
                ;
                vstd::arithmetic::div_mod::lemma_div_multiples_vanish(w as int, one() as int);
            }
            if d > 8 {
                proof {
                    if d > 9 {
                        lemma_pow2_strictly_increases(9, d as nat);
                    }
                    assert(s * pow2(d as nat) > u32::MAX) by (nonlinear_arith)
                        requires
                            s >= 0x0080_0000,
                            pow2(d as nat) >= 512,
                    ;
                }
                return u32::MAX;
            }
            proof {
                if d < 8 {
                    lemma_pow2_strictly_increases(d as nat, 8);
                }
                assert(s * pow2(d as nat) <= 0x0100_0000 * 256) by (nonlinear_arith)
                    requires
                        s < 0x0100_0000,
                        pow2(d as nat) <= 256,
                ;
                vstd::bits::lemma_u64_shl_is_mul(s, d as u64);
            }
            let w: u64 = s << (d as u64);
            if w > u32::MAX as u64 {
                u32::MAX
            } else {
                w as u32
            }
        } else {
            let d: u32 = 149 - e;
            proof {
                lemma_pow2_adds(e as nat, d as nat);
                lemma_pow2_pos(e as nat);
                lemma_pow2_pos(d as nat);
                let x = pow2(e as nat);
                assert(s * x == x * s) by (nonlinear_arith);
                vstd::arithmetic::div_mod::lemma_div_multiples_vanish_quotient(
                    x as int,
                    s as int,
                    pow2(d as nat) as int,
                );
            }
            if d > 24 {
                proof {
                    lemma_pow2_strictly_increases(24, d as nat);
                    vstd::arithmetic::div_mod::lemma_basic_div(s as int, pow2(d as nat) as int);
                }
                return 0;
            }
            proof {
                vstd::bits::lemma_u64_shr_is_div(s, d as u64);
                assert(s / (pow2(d as nat) as u64) <= s) by {
                    vstd::arithmetic::div_mod::lemma_div_is_ordered_by_denominator(
                        s as int,
                        1,
                        pow2(d as nat) as int,
                    );
                }
            }
            (s >> (d as u64)) as u32
        }
    }

    /// The nearest whole number, halves away from zero, kept in range.
    pub fn round_to_u32(self) -> (r: u32)
        ensures
            r == self.to_whole(),
    {
        if self.is_nan() {
            return 0;
        }
        let (n, m) = self.parts();
        if n {
            return 0;
        }
        if m == INFINITY_BITS {
            return u32::MAX;
        }
        let (s, e) = decode(m);
        proof {
            lemma2_to64();
            lemma_pow2_pos(149);
        }
        if e >= 149 {
            let d: u32 = e - 149;
            proof {
                lemma_pow2_adds(149, d as nat);
                lemma_whole_multiple(s as nat, d as nat, units(m as nat));
                lemma_pow2_pos(d as nat);
            }
            if d > 8 {
                proof {
                    if d > 9 {
                        lemma_pow2_strictly_increases(9, d as nat);
                    }
                    assert(s * pow2(d as nat) > u32::MAX) by (nonlinear_arith)
                        requires
                            s >= 0x0080_0000,
                            pow2(d as nat) >= 512,
                    ;
                }
                return u32::MAX;
            }
            proof {
                if d < 8 {
                    lemma_pow2_strictly_increases(d as nat, 8);
                }
                assert(s * pow2(d as nat) <= 0x0100_0000 * 256) by (nonlinear_arith)
                    requires
                        s < 0x0100_0000,
                        pow2(d as nat) <= 256,
                ;
                vstd::bits::lemma_u64_shl_is_mul(s, d as u64);
            }
            let w: u64 = s << (d as u64);
            if w > u32::MAX as u64 {
                u32::MAX
            } else {
                w as u32
            }
        } else {
            let d: u32 = 149 - e;
            proof {
                lemma_rounded_fraction(s as nat, e as nat, d as nat, units(m as nat));
            }
            if d > 30 {
                proof {
                    lemma_pow2_strictly_increases(30, d as nat);
                    lemma_pow2_unfold(d as nat);
                    lemma_pow2_unfold((d - 1) as nat);
                    assert((2 * s + pow2(d as nat)) / (2 * pow2(d as nat)) as int == 0) by {
                        assert(2 * s + pow2(d as nat) < 2 * pow2(d as nat));
                        vstd::arithmetic::div_mod::lemma_basic_div(
                            (2 * s + pow2(d as nat)) as int,
                            (2 * pow2(d as nat)) as int,
                        );
                    }
                }
                return 0;
            }
            proof {
                if d < 30 {
                    lemma_pow2_strictly_increases(d as nat, 30);
                }
                assert(1 * pow2(d as nat) == pow2(d as nat));
                vstd::bits::lemma_u64_shl_is_mul(1, d as u64);
                lemma_pow2_pos(d as nat);
            }
            let half: u64 = 1u64 << (d as u64);
            let w: u64 = (2 * s + half) / (2 * half);
            proof {
                assert(w <= 2 * s + half) by (nonlinear_arith)
                    requires
                        w == (2 * s + half) / (2 * half as int),
                        half >= 1,
                        s >= 0,
                ;
            }
            w as u32
        }
    }
}

/// A whole number too large to be shifted as it is.
proof fn lemma_large_whole(n: nat, p: nat)
    requires
        0x4000_0000_0000_0000 <= n <= u64::MAX,
        p == n * one(),
    ensures
        significand_of(sticky_half(sticky_half(n)), 153, p, 1),
{
    let m = sticky_half(sticky_half(n));
    assert(stands_for(n, n, 1));
    lemma_sticky_half(n, n, 1);
    lemma_sticky_half(sticky_half(n), n, 2);
    lemma2_to64();
    lemma_pow2_pos(153);
    lemma_pow2_adds(149, 4);
    let wide = pow2(153);
    assert(n * (1 * wide) == (4 * p * pow2(0)) * 4) by (nonlinear_arith)
        requires
            p == n * one(),
            wide == one() * 16,
            pow2(0) == 1,
    ;
    super::lemmas::lemma_stands_for_same_quotient(m, n, 4, 4 * p * pow2(0), 1 * wide);
}

/// The rounded quotient of two finite magnitudes.
fn quotient(ma: u32, mb: u32) -> (r: u32)
    requires
        ma < INFINITY_BITS,
        0 < mb < INFINITY_BITS,
    ensures
        r == round_magnitude(units(ma as nat) * one(), units(mb as nat)),
{
    let (sa0, ea) = decode(ma);
    let (sb, eb) = decode(mb);
    let ghost p = units(ma as nat) * one();
    let ghost q = units(mb as nat);
    proof {
        lemma2_to64();
        lemma_pow2_pos(ea as nat);
        lemma_pow2_pos(eb as nat);
        lemma_pow2_pos(149);
        assert(sb * pow2(eb as nat) > 0) by (nonlinear_arith)
            requires
                sb > 0,
                pow2(eb as nat) > 0,
        ;
    }
    if sa0 == 0 {
        proof {
            assert(0 * pow2(ea as nat) == 0);
            assert(0 * one() == 0);
            assert(4 * p * pow2(0) == 0 * (q * pow2(0))) by (nonlinear_arith)
                requires
                    p == 0,
            ;
            lemma_exact(0, 0, p, q);
        }
        return pack(0, 0, Ghost(p), Ghost(q));
    }
    let mut sa: u64 = sa0;
    let mut n: u32 = 0;
    proof {
        assert(sa0 * pow2(0) == sa0) by (nonlinear_arith)
            requires
                pow2(0) == 1,
        ;
    }
    while sa < 0x0080_0000
        invariant
            0 < sa < 0x0100_0000,
            n <= sa,
            sa == sa0 * pow2(n as nat),
        decreases 0x0100_0000 - sa,
    {
        proof {
            lemma_pow2_unfold((n + 1) as nat);
            assert(2 * sa == sa0 * pow2((n + 1) as nat)) by (nonlinear_arith)
                requires
                    sa == sa0 * pow2(n as nat),
                    pow2((n + 1) as nat) == 2 * pow2(n as nat),
            ;
        }
        sa = sa * 2;
        n = n + 1;
    }
    proof {
        if n >= 24 {
            if n > 24 {
                lemma_pow2_strictly_increases(24, n as nat);
            }
            assert(sa0 * pow2(n as nat) >= 0x0100_0000) by (nonlinear_arith)
                requires
                    sa0 >= 1,
                    pow2(n as nat) >= 0x0100_0000,
            ;
        }
    }
    let num: u64 = sa * 0x40_0000_0000;
    let whole: u64 = num / sb;
    let rest: u64 = num % sb;
    let m: u64 = if rest != 0 && whole % 2 == 0 {
        whole + 1
    } else {
        whole
    };
    let f: i32 = ea as i32 - n as i32 - eb as i32 + 113;
    proof {
        assert(num == whole * sb + rest) by {
            vstd::arithmetic::div_mod::lemma_fundamental_div_mod(num as int, sb as int);
            assert(sb * whole == whole * sb) by (nonlinear_arith);
        }
        assert(whole >= 0x0200_0000) by (nonlinear_arith)
            requires
                num == whole * sb + rest,
                rest < sb,
                sb < 0x0100_0000,
                num >= 0x0080_0000 * 0x40_0000_0000,
        ;
        assert(whole <= num) by (nonlinear_arith)
            requires
                num == whole * sb + rest,
                sb >= 1,
                rest >= 0,
                whole >= 0,
        ;
        assert((m - 1) * sb == m * sb - sb) by (nonlinear_arith);
        assert((m + 1) * sb == m * sb + sb) by (nonlinear_arith);
        assert(m == whole + 1 ==> m * sb == whole * sb + sb) by (nonlinear_arith);
        assert(stands_for(m as nat, num as nat, sb as nat));
        let low = up(-f);
        let high = up(f as int);
        lemma_quotient_scaled(
            sa0 as nat,
            ea as nat,
            n as nat,
            sb as nat,
            eb as nat,
            low,
            high,
        );
        lemma_pow2_pos(high);
        assert(q * pow2(high) > 0) by (nonlinear_arith)
            requires
                q > 0,
                pow2(high) > 0,
        ;
        assert(num as nat == (sa0 * pow2(n as nat)) * pow2(38)) by {
            lemma2_to64_rest();
        }
        super::lemmas::lemma_stands_for_same_quotient(
            m as nat,
            num as nat,
            sb as nat,
            4 * p * pow2(low),
            q * pow2(high),
        );
    }
    pack(m, f, Ghost(p), Ghost(q))
}

proof fn lemma_quotient_scaled(sa: nat, ea: nat, n: nat, sb: nat, eb: nat, low: nat, high: nat)
    requires
        ea + 113 + low == n + eb + high,
    ensures
        ((sa * pow2(n)) * pow2(38)) * ((sb * pow2(eb)) * pow2(high)) == (4 * (
        (sa * pow2(ea)) * one()) * pow2(low)) * sb,
{
    lemma2_to64();
    let left = n + 38 + eb + high;
    let right = 2 + ea + 149 + low;
    assert(left == right);
    lemma_pow2_adds(n, 38);
    lemma_pow2_adds(n + 38, eb);
    lemma_pow2_adds(n + 38 + eb, high);
    lemma_pow2_adds(2, ea);
    lemma_pow2_adds(2 + ea, 149);
    lemma_pow2_adds(2 + ea + 149, low);
    lemma_regroup(sa, sb, pow2(n), pow2(38), pow2(eb), pow2(high), pow2(left));
    lemma_regroup(sa, sb, 4, pow2(ea), pow2(149), pow2(low), pow2(right));
    let a = pow2(n);
    let b = pow2(38);
    let c = pow2(eb);
    let d = pow2(high);
    assert(((sa * a) * b) * ((sb * c) * d) == ((((sa * sb) * a) * b) * c) * d) by (nonlinear_arith);
    let a2 = pow2(ea);
    let b2 = one();
    let c2 = pow2(low);
    assert((4 * ((sa * a2) * b2) * c2) * sb == ((((sa * sb) * 4) * a2) * b2) * c2) by (nonlinear_arith);
}

proof fn lemma_regroup(x: nat, y: nat, a: nat, b: nat, c: nat, d: nat, all: nat)
    requires
        all == ((a * b) * c) * d,
    ensures
        ((((x * y) * a) * b) * c) * d == (x * y) * all,
{
    let z = x * y;
    assert((((z * a) * b) * c) * d == z * (((a * b) * c) * d)) by (nonlinear_arith);
}

/// A whole number of units of one rounds to itself.
proof fn lemma_whole_multiple(s: nat, d: nat, u: nat)
    requires
        u == s * pow2(149 + d),
    ensures
        (2 * u + one()) / (2 * one()) == s * pow2(d),
{
    lemma_pow2_pos(149);
    lemma_pow2_adds(149, d);
    let w = s * pow2(d);
    assert(u == w * one()) by (nonlinear_arith)
        requires
            u == s * (one() * pow2(d)),
            w == s * pow2(d),
    ;
    assert(2 * u + one() == w * (2 * one()) + one()) by (nonlinear_arith)
        requires
            u == w * one(),
    ;
    vstd::arithmetic::div_mod::lemma_fundamental_div_mod_converse(
        (2 * u + one()) as int,
        (2 * one()) as int,
        w as int,
        one() as int,
    );
}

/// Rounding below one only needs the significand.
proof fn lemma_rounded_fraction(s: nat, e: nat, d: nat, u: nat)
    requires
        u == s * pow2(e),
        e + d == 149,
    ensures
        (2 * u + one()) / (2 * one()) == (2 * s + pow2(d)) / (2 * pow2(d)),
{
    lemma_pow2_adds(e, d);
    lemma_pow2_pos(e);
    lemma_pow2_pos(d);
    let k = pow2(e);
    let h = pow2(d);
    assert(2 * u + one() == k * (2 * s + h)) by (nonlinear_arith)
        requires
            u == s * k,
            one() == k * h,
    ;
    assert(2 * one() == k * (2 * h)) by (nonlinear_arith)
        requires
            one() == k * h,
    ;
    vstd::arithmetic::div_mod::lemma_div_denominator((k * (2 * s + h)) as int, k as int, (2 * h) as int);
    vstd::arithmetic::div_mod::lemma_div_by_multiple((2 * s + h) as int, k as int);
    assert(k * (2 * s + h) == (2 * s + h) * k) by (nonlinear_arith);
}

} // verus!
