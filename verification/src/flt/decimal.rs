//! Decimal numbers of any length, rounded to the nearest value.

use super::model::{half_even, nearest, one, round_magnitude, INFINITY_BITS};
use super::{rounded, Flt};
use crate::text::{all_digits, is_digit, number};
use vstd::arithmetic::div_mod::lemma_fundamental_div_mod_converse;
use vstd::arithmetic::power2::{lemma2_to64, lemma_pow2_pos, lemma_pow2_unfold, pow2};
use vstd::prelude::*;

verus! {

/// A power of ten.
pub open spec fn pow10(k: nat) -> nat
    decreases k,
{
    if k == 0 {
        1
    } else {
        10 * pow10((k - 1) as nat)
    }
}

/// The number that decimal digits spell, the lowest digit first.
pub open spec fn digits_value(s: Seq<u8>) -> nat
    decreases s.len(),
{
    if s.len() == 0 {
        0
    } else {
        digits_value(s.drop_last()) + (s.last() as nat) * pow10((s.len() - 1) as nat)
    }
}

/// Each digit is below ten.
pub open spec fn proper(s: Seq<u8>) -> bool {
    forall|i: int| 0 <= i < s.len() ==> #[trigger] s[i] < 10
}

proof fn lemma_push(s: Seq<u8>, d: u8)
    ensures
        digits_value(s.push(d)) == digits_value(s) + d * pow10(s.len()),
{
    assert(s.push(d).drop_last() =~= s);
}

proof fn lemma_take(s: Seq<u8>, i: int)
    requires
        0 <= i < s.len(),
    ensures
        digits_value(s.take(i + 1)) == digits_value(s.take(i)) + s[i] * pow10(i as nat),
{
    assert(s.take(i + 1) =~= s.take(i).push(s[i]));
    lemma_push(s.take(i), s[i]);
}

proof fn lemma_pow10_pos(k: nat)
    ensures
        pow10(k) > 0,
    decreases k,
{
    if k > 0 {
        lemma_pow10_pos((k - 1) as nat);
    }
}

/// Proper digits spell a number below the power of ten of their count.
proof fn lemma_bound(s: Seq<u8>)
    requires
        proper(s),
    ensures
        digits_value(s) < pow10(s.len()),
    decreases s.len(),
{
    if s.len() > 0 {
        let t = s.drop_last();
        assert forall|i: int| 0 <= i < t.len() implies #[trigger] t[i] < 10 by {
            assert(t[i] == s[i]);
        }
        lemma_bound(t);
        let p = pow10(t.len());
        let d = s[s.len() - 1];
        assert(d * p <= 9 * p) by (nonlinear_arith)
            requires
                d <= 9,
        ;
    }
}

/// Where the digits from `i` on are equal, the difference is that of the digits
/// below.
proof fn lemma_equal_above(a: Seq<u8>, b: Seq<u8>, i: int)
    requires
        a.len() == b.len(),
        0 <= i <= a.len(),
        forall|j: int| i <= j < a.len() ==> a[j] == b[j],
    ensures
        digits_value(a) - digits_value(b) == digits_value(a.take(i)) - digits_value(b.take(i)),
    decreases a.len() - i,
{
    if i == a.len() {
        assert(a.take(i) =~= a);
        assert(b.take(i) =~= b);
    } else {
        lemma_equal_above(a, b, i + 1);
        lemma_take(a, i);
        lemma_take(b, i);
    }
}

proof fn lemma_proper_take(s: Seq<u8>, i: int)
    requires
        proper(s),
        0 <= i <= s.len(),
    ensures
        proper(s.take(i)),
{
    assert forall|j: int| 0 <= j < i implies #[trigger] s.take(i)[j] < 10 by {
        assert(s.take(i)[j] == s[j]);
    }
}

/// The digits with zeros in front, up to a count.
fn padded(v: &Vec<u8>, n: usize) -> (r: Vec<u8>)
    requires
        proper(v@),
        v@.len() <= n,
    ensures
        proper(r@),
        r@.len() == n,
        digits_value(r@) == digits_value(v@),
{
    let mut r: Vec<u8> = Vec::new();
    let mut i: usize = 0;
    while i < v.len()
        invariant
            i <= v@.len() <= n,
            proper(v@),
            r@ == v@.take(i as int),
        decreases v@.len() - i,
    {
        r.push(v[i]);
        assert(r@ =~= v@.take(i + 1));
        i = i + 1;
    }
    assert(r@ =~= v@);
    while r.len() < n
        invariant
            r@.len() <= n,
            proper(r@),
            digits_value(r@) == digits_value(v@),
        decreases n - r@.len(),
    {
        proof {
            lemma_push(r@, 0);
        }
        r.push(0);
    }
    r
}

/// Twice the number.
fn double(v: &Vec<u8>) -> (r: Vec<u8>)
    requires
        proper(v@),
    ensures
        proper(r@),
        digits_value(r@) == 2 * digits_value(v@),
{
    let mut r: Vec<u8> = Vec::new();
    let mut carry: u8 = 0;
    let mut i: usize = 0;
    assert(v@.take(0) =~= Seq::<u8>::empty());
    while i < v.len()
        invariant
            i <= v@.len(),
            proper(v@),
            proper(r@),
            r@.len() == i,
            carry <= 1,
            digits_value(r@) + carry * pow10(i as nat) == 2 * digits_value(v@.take(i as int)),
        decreases v@.len() - i,
    {
        let d: u8 = v[i];
        assert(v@[i as int] < 10);
        let t: u8 = 2 * d + carry;
        let low: u8 = t % 10;
        proof {
            let p = pow10(i as nat);
            lemma_take(v@, i as int);
            lemma_push(r@, low);
            let high = t / 10;
            assert(low * p + high * (10 * p) == t * p) by (nonlinear_arith)
                requires
                    t == 10 * high + low,
            ;
            assert(t * p == 2 * (d * p) + carry * p) by (nonlinear_arith)
                requires
                    t == 2 * d + carry,
            ;
        }
        r.push(low);
        carry = t / 10;
        i = i + 1;
    }
    assert(v@.take(v@.len() as int) =~= v@);
    if carry > 0 {
        proof {
            lemma_push(r@, carry);
        }
        r.push(carry);
    }
    r
}

/// Whether one number is at least another.
fn at_least(a: &Vec<u8>, b: &Vec<u8>) -> (r: bool)
    requires
        proper(a@),
        proper(b@),
    ensures
        r == (digits_value(a@) >= digits_value(b@)),
{
    let n: usize = if a.len() < b.len() {
        b.len()
    } else {
        a.len()
    };
    let x: Vec<u8> = padded(a, n);
    let y: Vec<u8> = padded(b, n);
    let mut i: usize = n;
    while i > 0
        invariant
            i <= n,
            x@.len() == n,
            y@.len() == n,
            proper(x@),
            proper(y@),
            digits_value(x@) == digits_value(a@),
            digits_value(y@) == digits_value(b@),
            forall|j: int| i <= j < n ==> x@[j] == y@[j],
        decreases i,
    {
        let k: usize = i - 1;
        if x[k] != y[k] {
            proof {
                lemma_equal_above(x@, y@, i as int);
                lemma_take(x@, k as int);
                lemma_take(y@, k as int);
                lemma_proper_take(x@, k as int);
                lemma_proper_take(y@, k as int);
                lemma_bound(x@.take(k as int));
                lemma_bound(y@.take(k as int));
                let p = pow10(k as nat);
                let dx = x@[k as int];
                let dy = y@[k as int];
                assert(dx > dy ==> dx * p >= dy * p + p) by (nonlinear_arith);
                assert(dx < dy ==> dy * p >= dx * p + p) by (nonlinear_arith);
            }
            return x[k] > y[k];
        }
        i = k;
    }
    proof {
        lemma_equal_above(x@, y@, 0);
        assert(x@.take(0) =~= y@.take(0));
    }
    true
}

/// The difference of two numbers.
fn minus(a: &Vec<u8>, b: &Vec<u8>) -> (r: Vec<u8>)
    requires
        proper(a@),
        proper(b@),
        digits_value(a@) >= digits_value(b@),
    ensures
        proper(r@),
        digits_value(r@) == digits_value(a@) - digits_value(b@),
{
    let n: usize = if a.len() < b.len() {
        b.len()
    } else {
        a.len()
    };
    let x: Vec<u8> = padded(a, n);
    let y: Vec<u8> = padded(b, n);
    let mut r: Vec<u8> = Vec::new();
    let mut borrow: u8 = 0;
    let mut i: usize = 0;
    assert(x@.take(0) =~= y@.take(0));
    while i < n
        invariant
            i <= n,
            x@.len() == n,
            y@.len() == n,
            proper(x@),
            proper(y@),
            proper(r@),
            r@.len() == i,
            borrow <= 1,
            digits_value(r@) - borrow * pow10(i as nat) == digits_value(x@.take(i as int))
                - digits_value(y@.take(i as int)),
        decreases n - i,
    {
        let dx: u8 = x[i];
        let dy: u8 = y[i];
        assert(x@[i as int] < 10 && y@[i as int] < 10);
        let take: u8 = dy + borrow;
        let less: bool = dx < take;
        let d: u8 = if less {
            dx + 10 - take
        } else {
            dx - take
        };
        let next: u8 = if less {
            1
        } else {
            0
        };
        proof {
            let p = pow10(i as nat);
            lemma_take(x@, i as int);
            lemma_take(y@, i as int);
            lemma_push(r@, d);
            assert(d * p - next * (10 * p) == dx * p - dy * p - borrow * p) by (nonlinear_arith)
                requires
                    d - next * 10 == dx - dy - borrow,
            ;
        }
        r.push(d);
        borrow = next;
        i = i + 1;
    }
    proof {
        assert(x@.take(n as int) =~= x@);
        assert(y@.take(n as int) =~= y@);
        lemma_bound(r@);
        if borrow == 1 {
            assert(borrow * pow10(n as nat) == pow10(n as nat)) by (nonlinear_arith)
                requires
                    borrow == 1,
            ;
        } else {
            assert(borrow * pow10(n as nat) == 0) by (nonlinear_arith)
                requires
                    borrow == 0,
            ;
        }
    }
    r
}

/// The number times two to the power of `k`.
fn shifted(v: &Vec<u8>, k: u32) -> (r: Vec<u8>)
    requires
        proper(v@),
    ensures
        proper(r@),
        digits_value(r@) == digits_value(v@) * pow2(k as nat),
{
    let mut r: Vec<u8> = padded(v, v.len());
    let mut i: u32 = 0;
    proof {
        lemma2_to64();
        assert(digits_value(v@) * pow2(0) == digits_value(v@));
    }
    while i < k
        invariant
            i <= k,
            proper(r@),
            digits_value(r@) == digits_value(v@) * pow2(i as nat),
        decreases k - i,
    {
        r = double(&r);
        proof {
            lemma_pow2_unfold((i + 1) as nat);
            let v0 = digits_value(v@);
            let p = pow2(i as nat);
            assert(2 * (v0 * p) == v0 * (2 * p)) by (nonlinear_arith);
        }
        i = i + 1;
    }
    r
}

/// The digits of a text, the lowest first.
fn digits_of(cs: &Vec<char>) -> (r: Vec<u8>)
    requires
        all_digits(cs@),
    ensures
        proper(r@),
        digits_value(r@) == number(cs@),
{
    let mut r: Vec<u8> = Vec::new();
    let mut i: usize = cs.len();
    proof {
        assert(cs@.take(cs@.len() as int) =~= cs@);
        assert(number(cs@) * pow10(0) == number(cs@)) by (nonlinear_arith)
            requires
                pow10(0) == 1,
        ;
    }
    while i > 0
        invariant
            i <= cs@.len(),
            all_digits(cs@),
            proper(r@),
            r@.len() == cs@.len() - i,
            number(cs@) == number(cs@.take(i as int)) * pow10((cs@.len() - i) as nat)
                + digits_value(r@),
        decreases i,
    {
        let k: usize = i - 1;
        let c: char = cs[k];
        assert(is_digit(cs@[k as int]));
        let d: u8 = (c as u32 - 48) as u8;
        proof {
            let t = cs@.take(i as int);
            assert(t.drop_last() =~= cs@.take(k as int));
            assert(t.last() == c);
            let n = number(cs@.take(k as int));
            let p = pow10((cs@.len() - i) as nat);
            assert((n * 10 + d) * p == n * (10 * p) + d * p) by (nonlinear_arith);
            lemma_push(r@, d);
        }
        r.push(d);
        i = k;
    }
    proof {
        let p = pow10(cs@.len());
        assert(cs@.take(0) =~= Seq::<char>::empty());
        assert(0 * p == 0);
    }
    r
}

/// A power of ten.
fn power_of_ten(k: usize) -> (r: Vec<u8>)
    ensures
        proper(r@),
        digits_value(r@) == pow10(k as nat),
{
    let mut r: Vec<u8> = Vec::new();
    while r.len() < k
        invariant
            r@.len() <= k,
            proper(r@),
            digits_value(r@) == 0,
        decreases k - r@.len(),
    {
        proof {
            lemma_push(r@, 0);
        }
        r.push(0);
    }
    proof {
        lemma_push(r@, 1);
        assert(1 * pow10(k as nat) == pow10(k as nat));
    }
    r.push(1);
    r
}

/// Quotient and remainder, if the quotient is below 2^24.
fn divided(a: &Vec<u8>, b: &Vec<u8>) -> (r: (u32, Vec<u8>))
    requires
        proper(a@),
        proper(b@),
        digits_value(b@) > 0,
        digits_value(a@) < digits_value(b@) * 0x0100_0000,
    ensures
        r.0 < 0x0100_0000,
        proper(r.1@),
        r.0 == digits_value(a@) / digits_value(b@),
        digits_value(r.1@) == digits_value(a@) % digits_value(b@),
{
    let ghost p = digits_value(a@);
    let ghost q = digits_value(b@);
    let mut rest: Vec<u8> = padded(a, a.len());
    let mut t: u32 = 0;
    let mut k: u32 = 24;
    let mut bit: u32 = 0x0100_0000;
    proof {
        lemma2_to64();
        assert(0 * q == 0);
    }
    while k > 0
        invariant
            k <= 24,
            bit == pow2(k as nat),
            t + bit <= 0x0100_0000,
            proper(rest@),
            proper(b@),
            q == digits_value(b@),
            digits_value(rest@) < q * pow2(k as nat),
            p == t * q + digits_value(rest@),
        decreases k,
    {
        let ghost w = digits_value(rest@);
        proof {
            lemma_pow2_unfold(k as nat);
            lemma_pow2_pos((k - 1) as nat);
        }
        let ghost h = pow2((k - 1) as nat);
        proof {
            assert(q * (2 * h) == 2 * (q * h)) by (nonlinear_arith);
        }
        k = k - 1;
        bit = bit / 2;
        let part: Vec<u8> = shifted(b, k);
        if at_least(&rest, &part) {
            proof {
                assert((t + h) * q == t * q + q * h) by (nonlinear_arith);
            }
            rest = minus(&rest, &part);
            t = t + bit;
        }
    }
    proof {
        lemma2_to64();
        assert(q * 1 == q);
        lemma_fundamental_div_mod_converse(p as int, q as int, t as int, digits_value(rest@) as int);
    }
    (t, rest)
}

/// The value nearest to `digits` / 10^`places`; of two equally near, the even
/// one.
pub fn from_decimal(digits: &Vec<char>, places: usize) -> (r: Flt)
    requires
        all_digits(digits@),
    ensures
        r == rounded(false, number(digits@) * one(), pow10(places as nat)),
{
    let n: Vec<u8> = digits_of(digits);
    let a: Vec<u8> = shifted(&n, 149);
    let mut b: Vec<u8> = power_of_ten(places);
    let ghost p = digits_value(a@);
    let ghost q0 = digits_value(b@);
    proof {
        lemma_pow10_pos(places as nat);
        lemma2_to64();
    }
    let mut limit: Vec<u8> = shifted(&b, 24);
    let mut m: u32 = 0;
    while at_least(&a, &limit)
        invariant
            p == digits_value(a@),
            q0 > 0,
            proper(a@),
            proper(b@),
            proper(limit@),
            digits_value(b@) > 0,
            digits_value(limit@) == digits_value(b@) * 0x0100_0000,
            nearest(p, q0) == m + nearest(p, digits_value(b@)),
            p == number(digits@) * one(),
            q0 == pow10(places as nat),
            m <= INFINITY_BITS,
            m % 0x0080_0000 == 0,
        decreases INFINITY_BITS - m,
    {
        let ghost q = digits_value(b@);
        if m >= INFINITY_BITS {
            assert(round_magnitude(p, q0) == INFINITY_BITS);
            return Flt { bits: INFINITY_BITS };
        }
        proof {
            super::lemmas::lemma_nearest_doubled(p, q);
        }
        b = double(&b);
        limit = double(&limit);
        m = m + 0x0080_0000;
    }
    let ghost q = digits_value(b@);
    let (t, rest) = divided(&a, &b);
    let twice: Vec<u8> = double(&rest);
    let below: bool = !at_least(&twice, &b);
    let above: bool = !at_least(&b, &twice);
    let rounded_up: u32 = if below || (!above && t % 2 == 0) {
        t
    } else {
        t + 1
    };
    assert(rounded_up == half_even(p, q));
    let sum: u32 = m + rounded_up;
    if sum < INFINITY_BITS {
        Flt { bits: sum }
    } else {
        Flt { bits: INFINITY_BITS }
    }
}

} // verus!
