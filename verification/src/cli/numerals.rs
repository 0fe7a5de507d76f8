//! Numbers on the command line mean what they say.

use super::parse::{
    decimal_fault, decimal_value, fan_index, float_fault, law_strict_integers_are_digits, places,
    rpm_value, without_point, ParseError, RPM_SANITY_CEILING_BITS,
};
use crate::flt::errors::law_whole_error;
use crate::flt::lemmas::lemma_units_decoded;
use crate::flt::model::{one, units};
use crate::flt::{whole, Flt};
use crate::text::{all_digits, decimal, digit, is_digit, number};
use vstd::arithmetic::power2::{lemma2_to64, lemma_pow2_adds, lemma_pow2_pos, pow2};
use vstd::prelude::*;

verus! {

/// The decimal notation of a number spells it, without a leading zero.
pub proof fn law_notation_spells_the_number(n: nat)
    ensures
        decimal(n).len() > 0,
        all_digits(decimal(n)),
        number(decimal(n)) == n,
        n > 0 ==> decimal(n)[0] != '0',
        n >= 10 ==> decimal(n).len() > 1,
        n < 10 ==> decimal(n).len() == 1,
    decreases n,
{
    let s = decimal(n);
    if n < 10 {
        assert(s.drop_last() =~= Seq::<char>::empty());
        assert(number(s.drop_last()) == 0);
        assert(s.last() == digit(n));
    } else {
        let front = decimal(n / 10);
        law_notation_spells_the_number(n / 10);
        assert(s.drop_last() =~= front);
        assert(s.last() == digit(n % 10));
        assert forall|i: int| 0 <= i < s.len() implies is_digit(#[trigger] s[i]) by {
            if i < front.len() {
                assert(s[i] == front[i]);
            }
        }
        assert(s[0] == front[0]);
    }
}

/// A character that is a digit.
proof fn lemma_digit(c: char)
    requires
        is_digit(c),
    ensures
        digit((c as nat - 48) as nat) == c,
{
}

/// Digits without a leading zero are the decimal notation of what they spell.
pub proof fn law_digits_are_the_notation(s: Seq<char>)
    requires
        s.len() > 0,
        all_digits(s),
        s.len() == 1 || s[0] != '0',
    ensures
        s == decimal(number(s)),
    decreases s.len(),
{
    let front = s.drop_last();
    let c = s.last();
    assert(is_digit(s[s.len() - 1]));
    lemma_digit(c);
    let d = (c as nat - 48) as nat;
    assert(d < 10);
    if s.len() == 1 {
        assert(number(front) == 0);
        assert(s =~= seq![digit(d)]);
    } else {
        assert forall|i: int| 0 <= i < front.len() implies is_digit(#[trigger] front[i]) by {
            assert(front[i] == s[i]);
        }
        assert(front[0] == s[0]);
        law_digits_are_the_notation(front);
        let m = number(front);
        if m == 0 {
            assert(decimal(0)[0] == '0');
        }
        assert((m * 10 + d) / 10 == m && (m * 10 + d) % 10 == d);
        assert(s =~= front.push(c));
    }
}

/// A fan index is accepted exactly if it is the decimal notation of a number up to
/// 255, and means that number.
pub proof fn law_fan_indices_mean_what_they_say(s: Seq<char>, n: u8)
    ensures
        fan_index(s) == Ok::<u8, ParseError>(n) <==> s == decimal(n as nat),
{
    law_strict_integers_are_digits(s);
    law_notation_spells_the_number(n as nat);
    if fan_index(s) == Ok::<u8, ParseError>(n) {
        law_digits_are_the_notation(s);
    }
}

/// A number above 255 is no fan index.
pub proof fn law_large_fan_indices_overflow(n: nat)
    requires
        n > 255,
    ensures
        fan_index(decimal(n)) == Err::<u8, ParseError>(ParseError::Overflow),
{
    law_notation_spells_the_number(n);
    law_strict_integers_are_digits(decimal(n));
}

proof fn lemma_digits_have_no_point(s: Seq<char>)
    requires
        all_digits(s),
    ensures
        decimal_fault(s) is None,
        without_point(s) == s,
        places(s) == 0,
        !s.contains('.'),
    decreases s.len(),
{
    if s.len() > 0 {
        let front = s.drop_last();
        assert forall|i: int| 0 <= i < front.len() implies is_digit(#[trigger] front[i]) by {
            assert(front[i] == s[i]);
        }
        lemma_digits_have_no_point(front);
        assert(is_digit(s[s.len() - 1]));
        assert(front.push(s.last()) =~= s);
    } else {
        assert(without_point(s) =~= s);
    }
}

/// A whole speed is accepted up to 50000, as the value of that number; above it, it
/// is out of range.
pub proof fn law_whole_speeds_mean_what_they_say(n: u32)
    ensures
        n <= 50000 ==> rpm_value(decimal(n as nat)) == Ok::<Flt, ParseError>(whole(n as nat))
            && whole(n as nat).value() == n * one(),
        n > 50000 ==> rpm_value(decimal(n as nat)) == Err::<Flt, ParseError>(
            ParseError::OutOfRange,
        ),
{
    let s = decimal(n as nat);
    law_notation_spells_the_number(n as nat);
    lemma_digits_have_no_point(s);
    assert(is_digit(s[0]) && is_digit(s[s.len() - 1]));
    assert(float_fault(s) is None);
    assert(crate::flt::decimal::pow10(0) == 1);
    assert(decimal_value(s) == whole(n as nat));
    law_whole_error(n as nat);
    lemma_pow2_pos(149);
    lemma_units_decoded(RPM_SANITY_CEILING_BITS as nat, 0x00C3_5000, 141);
    lemma2_to64();
    lemma_pow2_adds(8, 141);
    let top = Flt { bits: RPM_SANITY_CEILING_BITS };
    assert(top.value() == 50000 * one()) by {
        assert(0x00C3_5000 * pow2(141) == 50000 * (0x100 * pow2(141)));
    }
    assert((Flt { bits: 0 }).value() == 0) by {
        assert(units(0) == 0);
    }
    let (v, o) = (whole(n as nat).value(), one() as int);
    let exact = n * o;
    if n <= 50000 {
        assert(exact <= 50000 * o) by (nonlinear_arith)
            requires
                exact == n * o,
                n <= 50000,
                o > 0,
        ;
    } else if n <= 0x0100_0000 {
        assert(exact > 50000 * o) by (nonlinear_arith)
            requires
                exact == n * o,
                n > 50000,
                o > 0,
        ;
    } else {
        assert(exact >= 0x0100_0000 * o) by (nonlinear_arith)
            requires
                exact == n * o,
                n >= 0x0100_0000,
                o > 0,
        ;
    }
}

} // verus!
