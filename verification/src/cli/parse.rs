//! Strict numbers on the command line: plain decimal digits, and nothing else.

use crate::flt::decimal::{from_decimal, pow10};
use crate::flt::model::one;
use crate::flt::{rounded, Flt};
use crate::text::{all_digits, chars_of, is_digit, number, parse_digits};
use vstd::prelude::*;

verus! {

/// 50000.0, the largest speed that is accepted.
pub const RPM_SANITY_CEILING_BITS: u32 = 0x4743_5000;

/// Why a value is no number.
#[derive(Debug, Clone, Copy, PartialEq, Eq, Structural)]
pub enum ParseError {
    Empty,
    NonAsciiDigit,
    LeadingSign,
    Whitespace,
    LocaleDigit,
    Hex,
    Exponent,
    Underscore,
    MultipleDots,
    Overflow,
    NotFinite,
    OutOfRange,
}

impl ParseError {
    /// The error in words.
    pub open spec fn words(self) -> Seq<char> {
        match self {
            ParseError::Empty => "value is empty"@,
            ParseError::NonAsciiDigit => "value contains non-ASCII digits"@,
            ParseError::LeadingSign => "leading '+' or '-' is not allowed"@,
            ParseError::Whitespace => "whitespace is not allowed"@,
            ParseError::LocaleDigit => "locale-variant digits are not allowed"@,
            ParseError::Hex => "hexadecimal literals are not allowed"@,
            ParseError::Exponent => "exponent notation is not allowed"@,
            ParseError::Underscore => "underscores in numbers are not allowed"@,
            ParseError::MultipleDots => "value has more than one decimal point"@,
            ParseError::Overflow => "value overflows u8 or f32"@,
            ParseError::NotFinite => "value is NaN or infinity"@,
            ParseError::OutOfRange => "value is outside the valid range"@,
        }
    }

    /// The error in words.
    pub fn message(self) -> (r: &'static str)
        ensures
            r@ == self.words(),
    {
        match self {
            ParseError::Empty => "value is empty",
            ParseError::NonAsciiDigit => "value contains non-ASCII digits",
            ParseError::LeadingSign => "leading '+' or '-' is not allowed",
            ParseError::Whitespace => "whitespace is not allowed",
            ParseError::LocaleDigit => "locale-variant digits are not allowed",
            ParseError::Hex => "hexadecimal literals are not allowed",
            ParseError::Exponent => "exponent notation is not allowed",
            ParseError::Underscore => "underscores in numbers are not allowed",
            ParseError::MultipleDots => "value has more than one decimal point",
            ParseError::Overflow => "value overflows u8 or f32",
            ParseError::NotFinite => "value is NaN or infinity",
            ParseError::OutOfRange => "value is outside the valid range",
        }
    }
}

/// What is wrong with a character in a whole number. An `e` is taken for an
/// exponent, not for a hexadecimal digit.
pub open spec fn fault(c: char) -> Option<ParseError> {
    if is_digit(c) {
        None
    } else if c == '+' || c == '-' {
        Some(ParseError::LeadingSign)
    } else if c == ' ' || c == '\t' || c == '\n' || c == '\r' {
        Some(ParseError::Whitespace)
    } else if c == '_' {
        Some(ParseError::Underscore)
    } else if c == '.' {
        Some(ParseError::MultipleDots)
    } else if c == 'e' || c == 'E' {
        Some(ParseError::Exponent)
    } else if c == 'x' || c == 'X' || 'a' <= c <= 'f' || 'A' <= c <= 'F' {
        Some(ParseError::Hex)
    } else {
        Some(ParseError::NonAsciiDigit)
    }
}

/// The first thing that is wrong with a whole number.
pub open spec fn integer_fault(s: Seq<char>) -> Option<ParseError>
    decreases s.len(),
{
    if s.len() == 0 {
        None
    } else {
        match integer_fault(s.drop_last()) {
            Some(e) => Some(e),
            None => fault(s.last()),
        }
    }
}

/// The first thing that is wrong with the characters of a decimal number. One
/// point is allowed.
pub open spec fn decimal_fault(s: Seq<char>) -> Option<ParseError>
    decreases s.len(),
{
    if s.len() == 0 {
        None
    } else {
        match decimal_fault(s.drop_last()) {
            Some(e) => Some(e),
            None => if s.last() == '.' && !s.drop_last().contains('.') {
                None
            } else {
                fault(s.last())
            },
        }
    }
}

/// The first thing that is wrong with a decimal number. A point stands neither
/// at its front nor at its end.
pub open spec fn float_fault(s: Seq<char>) -> Option<ParseError> {
    if s.len() > 0 && s[0] == '.' {
        Some(ParseError::MultipleDots)
    } else {
        match decimal_fault(s) {
            Some(e) => Some(e),
            None => if s.len() > 0 && s.last() == '.' {
                Some(ParseError::MultipleDots)
            } else {
                None
            },
        }
    }
}

/// Success, or what was found.
pub open spec fn unless(fault: Option<ParseError>) -> Result<(), ParseError> {
    match fault {
        Some(e) => Err(e),
        None => Ok(()),
    }
}

/// A fan index: a number from 0 to 255, without a leading zero.
pub open spec fn fan_index(s: Seq<char>) -> Result<u8, ParseError> {
    if s.len() == 0 {
        Err(ParseError::Empty)
    } else {
        match integer_fault(s) {
            Some(e) => Err(e),
            None => if number(s) > 255 {
                Err(ParseError::Overflow)
            } else if s.len() > 1 && s[0] == '0' {
                Err(ParseError::OutOfRange)
            } else {
                Ok(number(s) as u8)
            },
        }
    }
}

fn find_fault(c: char) -> (r: Option<ParseError>)
    ensures
        r == fault(c),
{
    if '0' <= c && c <= '9' {
        None
    } else if c == '+' || c == '-' {
        Some(ParseError::LeadingSign)
    } else if c == ' ' || c == '\t' || c == '\n' || c == '\r' {
        Some(ParseError::Whitespace)
    } else if c == '_' {
        Some(ParseError::Underscore)
    } else if c == '.' {
        Some(ParseError::MultipleDots)
    } else if c == 'e' || c == 'E' {
        Some(ParseError::Exponent)
    } else if c == 'x' || c == 'X' || ('a' <= c && c <= 'f') || ('A' <= c && c <= 'F') {
        Some(ParseError::Hex)
    } else {
        Some(ParseError::NonAsciiDigit)
    }
}

proof fn lemma_integer_fault(s: Seq<char>, i: int)
    requires
        0 <= i < s.len(),
        integer_fault(s.take(i + 1)) is Some,
    ensures
        integer_fault(s) == integer_fault(s.take(i + 1)),
    decreases s.len(),
{
    if i + 1 == s.len() {
        assert(s.take(i + 1) =~= s);
    } else {
        assert(s.drop_last().take(i + 1) =~= s.take(i + 1));
        lemma_integer_fault(s.drop_last(), i);
    }
}

proof fn lemma_decimal_fault(s: Seq<char>, i: int)
    requires
        0 <= i < s.len(),
        decimal_fault(s.take(i + 1)) is Some,
    ensures
        decimal_fault(s) == decimal_fault(s.take(i + 1)),
    decreases s.len(),
{
    if i + 1 == s.len() {
        assert(s.take(i + 1) =~= s);
    } else {
        assert(s.drop_last().take(i + 1) =~= s.take(i + 1));
        lemma_decimal_fault(s.drop_last(), i);
    }
}

/// Takes one or more decimal digits.
pub fn validate_strict_integer(s: &str) -> (r: Result<(), ParseError>)
    ensures
        r == unless(integer_fault(s@)),
{
    let cs: Vec<char> = chars_of(s);
    let mut i: usize = 0;
    assert(s@.take(0) =~= Seq::<char>::empty());
    while i < cs.len()
        invariant
            i <= cs@.len(),
            cs@ == s@,
            integer_fault(s@.take(i as int)) is None,
        decreases cs@.len() - i,
    {
        assert(s@.take(i + 1).drop_last() =~= s@.take(i as int));
        if let Some(e) = find_fault(cs[i]) {
            proof {
                lemma_integer_fault(s@, i as int);
            }
            return Err(e);
        }
        i = i + 1;
    }
    assert(s@.take(s@.len() as int) =~= s@);
    Ok(())
}

/// Takes one or more decimal digits, and perhaps a point with one or more
/// digits behind it.
pub fn validate_strict_float(s: &str) -> (r: Result<(), ParseError>)
    ensures
        r == unless(float_fault(s@)),
{
    let cs: Vec<char> = chars_of(s);
    if cs.len() > 0 && cs[0] == '.' {
        return Err(ParseError::MultipleDots);
    }
    let mut dotted: bool = false;
    let mut i: usize = 0;
    assert(s@.take(0) =~= Seq::<char>::empty());
    while i < cs.len()
        invariant
            i <= cs@.len(),
            cs@ == s@,
            s@.len() > 0 ==> s@[0] != '.',
            dotted == s@.take(i as int).contains('.'),
            decimal_fault(s@.take(i as int)) is None,
        decreases cs@.len() - i,
    {
        let ghost before = s@.take(i as int);
        let ghost next = s@.take(i + 1);
        proof {
            assert(next.drop_last() =~= before);
            if before.contains('.') {
                let k = choose|k: int| 0 <= k < before.len() && before[k] == '.';
                assert(next[k] == '.');
            }
            assert(next[i as int] == cs@[i as int]);
            if next.contains('.') && cs@[i as int] != '.' {
                let k = choose|k: int| 0 <= k < next.len() && next[k] == '.';
                assert(before[k] == '.');
            }
        }
        if cs[i] == '.' && !dotted {
            dotted = true;
        } else if let Some(e) = find_fault(cs[i]) {
            proof {
                lemma_decimal_fault(s@, i as int);
            }
            return Err(e);
        }
        i = i + 1;
    }
    assert(s@.take(s@.len() as int) =~= s@);
    if cs.len() > 0 && cs[cs.len() - 1] == '.' {
        return Err(ParseError::MultipleDots);
    }
    Ok(())
}

proof fn lemma_digits(s: Seq<char>)
    ensures
        integer_fault(s) is None <==> all_digits(s),
    decreases s.len(),
{
    if s.len() > 0 {
        let front = s.drop_last();
        lemma_digits(front);
        assert(s[s.len() - 1] == s.last());
        if all_digits(front) && is_digit(s.last()) {
            assert forall|i: int| 0 <= i < s.len() implies is_digit(#[trigger] s[i]) by {
                if i < front.len() {
                    assert(s[i] == front[i]);
                }
            }
        }
        if all_digits(s) {
            assert forall|i: int| 0 <= i < front.len() implies is_digit(#[trigger] front[i]) by {
                assert(s[i] == front[i]);
            }
        }
    }
}

/// A whole number that is accepted consists of decimal digits, and every text
/// of decimal digits is accepted.
pub proof fn law_strict_integers_are_digits(s: Seq<char>)
    ensures
        unless(integer_fault(s)) is Ok <==> all_digits(s),
{
    lemma_digits(s);
}

/// Parses a fan index.
pub fn parse_fan_index(s: &str) -> (r: Result<u8, ParseError>)
    ensures
        r == fan_index(s@),
{
    let cs: Vec<char> = chars_of(s);
    if cs.len() == 0 {
        return Err(ParseError::Empty);
    }
    if let Err(e) = validate_strict_integer(s) {
        return Err(e);
    }
    proof {
        lemma_digits(s@);
        assert(cs@.skip(0) =~= cs@);
    }
    match parse_digits(&cs, 0, 255) {
        Some(n) => if cs.len() > 1 && cs[0] == '0' {
            Err(ParseError::OutOfRange)
        } else {
            Ok(n as u8)
        },
        None => Err(ParseError::Overflow),
    }
}

/// The characters of a decimal number without its point.
pub open spec fn without_point(s: Seq<char>) -> Seq<char>
    decreases s.len(),
{
    if s.len() == 0 {
        Seq::empty()
    } else if s.last() == '.' {
        without_point(s.drop_last())
    } else {
        without_point(s.drop_last()).push(s.last())
    }
}

/// How many digits stand behind the point.
pub open spec fn places(s: Seq<char>) -> nat
    decreases s.len(),
{
    if s.len() == 0 || s.last() == '.' || !s.drop_last().contains('.') {
        0
    } else {
        places(s.drop_last()) + 1
    }
}

/// The value nearest to a decimal number.
pub open spec fn decimal_value(s: Seq<char>) -> Flt {
    rounded(false, number(without_point(s)) * one(), pow10(places(s)))
}

/// A speed: a decimal number from 0 to 50000.
pub open spec fn rpm_value(s: Seq<char>) -> Result<Flt, ParseError> {
    let v = decimal_value(s);
    if s.len() == 0 {
        Err(ParseError::Empty)
    } else {
        match float_fault(s) {
            Some(e) => Err(e),
            None => if !v.finite() {
                Err(ParseError::NotFinite)
            } else if v.less(Flt { bits: 0 }) || (Flt { bits: RPM_SANITY_CEILING_BITS }).less(v) {
                Err(ParseError::OutOfRange)
            } else {
                Ok(v)
            },
        }
    }
}

proof fn lemma_decimal_chars(s: Seq<char>)
    requires
        decimal_fault(s) is None,
    ensures
        forall|i: int| 0 <= i < s.len() ==> #[trigger] s[i] == '.' || is_digit(s[i]),
    decreases s.len(),
{
    if s.len() > 0 {
        let front = s.drop_last();
        lemma_decimal_chars(front);
        assert forall|i: int| 0 <= i < s.len() implies #[trigger] s[i] == '.' || is_digit(
            s[i],
        ) by {
            if i < front.len() {
                assert(s[i] == front[i]);
            }
        }
    }
}

/// Parses a speed.
pub fn parse_rpm(s: &str) -> (r: Result<Flt, ParseError>)
    ensures
        r == rpm_value(s@),
{
    let cs: Vec<char> = chars_of(s);
    if cs.len() == 0 {
        return Err(ParseError::Empty);
    }
    if let Err(e) = validate_strict_float(s) {
        return Err(e);
    }
    let mut digits: Vec<char> = Vec::new();
    let mut dotted: bool = false;
    let mut behind: usize = 0;
    let mut i: usize = 0;
    proof {
        lemma_decimal_chars(s@);
        assert(s@.take(0) =~= Seq::<char>::empty());
    }
    while i < cs.len()
        invariant
            i <= cs@.len(),
            cs@ == s@,
            forall|k: int| 0 <= k < s@.len() ==> #[trigger] s@[k] == '.' || is_digit(s@[k]),
            digits@ == without_point(s@.take(i as int)),
            all_digits(digits@),
            dotted == s@.take(i as int).contains('.'),
            behind == places(s@.take(i as int)),
            behind <= i,
        decreases cs@.len() - i,
    {
        let c: char = cs[i];
        let ghost before = s@.take(i as int);
        let ghost next = s@.take(i + 1);
        proof {
            assert(next.drop_last() =~= before);
            assert(next.last() == c);
            assert(s@[i as int] == c);
            if before.contains('.') {
                let k = choose|k: int| 0 <= k < before.len() && before[k] == '.';
                assert(next[k] == '.');
            }
            assert(next[i as int] == c);
            if next.contains('.') && c != '.' {
                let k = choose|k: int| 0 <= k < next.len() && next[k] == '.';
                assert(before[k] == '.');
            }
        }
        if c == '.' {
            dotted = true;
            behind = 0;
        } else {
            digits.push(c);
            if dotted {
                behind = behind + 1;
            }
        }
        i = i + 1;
    }
    assert(s@.take(s@.len() as int) =~= s@);
    let value: Flt = from_decimal(&digits, behind);
    if !value.is_finite() {
        return Err(ParseError::NotFinite);
    }
    let zero: Flt = Flt { bits: 0 };
    let ceiling: Flt = Flt { bits: RPM_SANITY_CEILING_BITS };
    if value.lt(zero) || ceiling.lt(value) {
        return Err(ParseError::OutOfRange);
    }
    Ok(value)
}

/// One or more digits, and perhaps a point with one or more digits behind it.
pub open spec fn strict_decimal(s: Seq<char>) -> bool {
    (s.len() > 0 && all_digits(s)) || exists|k: int|
        0 < k < s.len() - 1 && #[trigger] s[k] == '.' && all_digits(s.take(k)) && all_digits(
            s.skip(k + 1),
        )
}

proof fn lemma_one_point(s: Seq<char>, k: int)
    requires
        decimal_fault(s) is None,
        0 <= k < s.len(),
        s[k] == '.',
    ensures
        all_digits(s.take(k)),
        all_digits(s.skip(k + 1)),
    decreases s.len(),
{
    let front = s.drop_last();
    if k == s.len() - 1 {
        lemma_decimal_chars(front);
        assert(s.take(k) =~= front);
        assert forall|i: int| 0 <= i < k implies is_digit(#[trigger] s.take(k)[i]) by {
            assert(front[i] == s[i]);
            assert(!front.contains('.'));
        }
    } else {
        assert(front[k] == '.');
        lemma_one_point(front, k);
        assert(front.take(k) =~= s.take(k));
        let tail = s.skip(k + 1);
        assert(front.contains('.'));
        assert forall|i: int| 0 <= i < tail.len() implies is_digit(#[trigger] tail[i]) by {
            if i < tail.len() - 1 {
                assert(front.skip(k + 1)[i] == tail[i]);
            } else {
                assert(tail[i] == s.last());
            }
        }
    }
}

proof fn lemma_decimal_from_parts(s: Seq<char>, k: int)
    requires
        0 <= k <= s.len(),
        all_digits(s.take(k)),
        k < s.len() ==> s[k] == '.' && all_digits(s.skip(k + 1)),
    ensures
        decimal_fault(s) is None,
        s.contains('.') <==> k < s.len(),
    decreases s.len(),
{
    assert forall|i: int| 0 <= i < k implies is_digit(#[trigger] s[i]) by {
        assert(s.take(k)[i] == s[i]);
    }
    if k < s.len() {
        assert(s[k] == '.');
        assert forall|i: int| k < i < s.len() implies is_digit(#[trigger] s[i]) by {
            assert(s.skip(k + 1)[i - k - 1] == s[i]);
        }
    }
    if s.len() > 0 {
        let front = s.drop_last();
        if k == s.len() {
            assert(front.take(k - 1) =~= front);
            assert forall|i: int| 0 <= i < front.len() implies is_digit(#[trigger] front[i]) by {
                assert(front[i] == s[i]);
            }
            lemma_decimal_from_parts(front, k - 1);
            assert(is_digit(s[s.len() - 1]));
        } else {
            assert(front.take(k) =~= s.take(k));
            if k < front.len() {
                assert(front[k] == s[k]);
                assert forall|i: int| 0 <= i < front.skip(k + 1).len() implies is_digit(
                    #[trigger] front.skip(k + 1)[i],
                ) by {
                    assert(front.skip(k + 1)[i] == s[i + k + 1]);
                }
            }
            lemma_decimal_from_parts(front, k);
        }
    }
}

/// A text that is not empty and is accepted as a decimal number has one or more
/// digits, and perhaps a point with one or more digits behind it; every such
/// text is accepted.
pub proof fn law_strict_floats_are_decimals(s: Seq<char>)
    requires
        s.len() > 0,
    ensures
        unless(float_fault(s)) is Ok <==> strict_decimal(s),
{
    if float_fault(s) is None {
        lemma_decimal_chars(s);
        if s.contains('.') {
            let k = choose|k: int| 0 <= k < s.len() && s[k] == '.';
            lemma_one_point(s, k);
        } else {
            assert forall|i: int| 0 <= i < s.len() implies is_digit(#[trigger] s[i]) by {
                assert(s[i] != '.');
            }
        }
    }
    if strict_decimal(s) {
        if all_digits(s) {
            assert(s.take(s.len() as int) =~= s);
            lemma_decimal_from_parts(s, s.len() as int);
            assert(is_digit(s[0]));
            assert(is_digit(s[s.len() - 1]));
        } else {
            let k = choose|k: int|
                0 < k < s.len() - 1 && #[trigger] s[k] == '.' && all_digits(s.take(k))
                    && all_digits(s.skip(k + 1));
            lemma_decimal_from_parts(s, k);
            assert(is_digit(s.take(k)[0]));
            assert(is_digit(s.skip(k + 1)[s.len() - k - 2]));
        }
    }
}

} // verus!
