//! Text: comparing it, taking it apart, and writing numbers into it.

use vstd::prelude::*;
use vstd::string::StringExecFns;

verus! {

/// `String::push` puts one character behind the text that was there.
pub assume_specification[ String::push ](s: &mut String, c: char)
    ensures
        final(s)@ == old(s)@.push(c),
;

/// The characters of a text, in order.
pub fn chars_of(s: &str) -> (r: Vec<char>)
    ensures
        r@ == s@,
{
    let mut r: Vec<char> = Vec::new();
    for c in it: s.chars()
        invariant
            it.seq() == s@,
            r@ == s@.take(it.index() as int),
    {
        assert(s@.take(it.index() as int).push(c) =~= s@.take(it.index() + 1));
        r.push(c);
    }
    assert(s@.take(s@.len() as int) =~= s@);
    r
}

/// The text of a sequence of characters.
pub fn text_of(cs: &Vec<char>) -> (r: String)
    ensures
        r@ == cs@,
{
    let mut r: String = String::new();
    let mut i: usize = 0;
    while i < cs.len()
        invariant
            i <= cs.len(),
            r@ == cs@.take(i as int),
        decreases cs.len() - i,
    {
        assert(cs@.take(i as int).push(cs@[i as int]) =~= cs@.take(i + 1));
        r.push(cs[i]);
        i = i + 1;
    }
    assert(cs@.take(cs@.len() as int) =~= cs@);
    r
}

/// Equality of two texts.
pub fn same_text(a: &str, b: &str) -> (r: bool)
    ensures
        r == (a@ == b@),
{
    let x = a.as_bytes();
    let y = b.as_bytes();
    proof {
        vstd::utf8::encode_utf8_decode_utf8(a@);
        vstd::utf8::encode_utf8_decode_utf8(b@);
    }
    if x.len() != y.len() {
        return false;
    }
    let mut i: usize = 0;
    while i < x.len()
        invariant
            x@.len() == y@.len(),
            i <= x.len(),
            x@ == vstd::utf8::encode_utf8(a@),
            y@ == vstd::utf8::encode_utf8(b@),
            forall|j: int| 0 <= j < i ==> x@[j] == y@[j],
        decreases x.len() - i,
    {
        if x[i] != y[i] {
            return false;
        }
        i = i + 1;
    }
    assert(x@ =~= y@);
    true
}

/// The digit `d` (below 16) in lower case.
pub open spec fn digit(d: nat) -> char {
    if d < 10 {
        (48 + d) as char
    } else {
        (87 + d) as char
    }
}

/// The digit `d` (below 16) in upper case.
pub open spec fn digit_upper(d: nat) -> char {
    if d < 10 {
        (48 + d) as char
    } else {
        (55 + d) as char
    }
}

/// Decimal notation.
pub open spec fn decimal(n: nat) -> Seq<char>
    decreases n,
{
    if n < 10 {
        seq![digit(n)]
    } else {
        decimal(n / 10).push(digit(n % 10))
    }
}

/// Decimal notation with a sign.
pub open spec fn signed_decimal(n: int) -> Seq<char> {
    if n < 0 {
        "-"@ + decimal((-n) as nat)
    } else {
        decimal(n as nat)
    }
}

/// Notation in the base `b` (2 to 16) with at least `width` digits, in lower case.
pub open spec fn digits(n: nat, b: nat, width: nat) -> Seq<char>
    decreases n, width,
{
    if b < 2 || (n == 0 && width == 0) {
        Seq::empty()
    } else {
        proof {
            vstd::arithmetic::div_mod::lemma_div_is_ordered_by_denominator(n as int, 2, b as int);
        }
        digits(n / b, b, (if width > 0 { width - 1 } else { 0 }) as nat).push(digit(n % b))
    }
}

/// Hexadecimal notation with at least `width` digits, in upper case.
pub open spec fn hex_upper(n: nat, width: nat) -> Seq<char>
    decreases n, width,
{
    if n == 0 && width == 0 {
        Seq::empty()
    } else {
        hex_upper(n / 16, (if width > 0 { width - 1 } else { 0 }) as nat).push(digit_upper(n % 16))
    }
}

fn digit_char(d: u8, upper: bool) -> (c: char)
    requires
        d < 16,
    ensures
        c == if upper { digit_upper(d as nat) } else { digit(d as nat) },
{
    if d < 10 {
        (48 + d) as char
    } else if upper {
        (55 + d) as char
    } else {
        (87 + d) as char
    }
}

pub fn push_decimal(s: &mut String, n: u64)
    ensures
        final(s)@ == old(s)@ + decimal(n as nat),
    decreases n,
{
    if n >= 10 {
        push_decimal(s, n / 10);
    }
    s.push(digit_char((n % 10) as u8, false));
}

pub fn push_signed(s: &mut String, n: i64)
    ensures
        final(s)@ == old(s)@ + signed_decimal(n as int),
{
    if n < 0 {
        s.append("-");
        let m: u64 = if n == i64::MIN {
            0x8000_0000_0000_0000
        } else {
            (-n) as u64
        };
        push_decimal(s, m);
        assert(s@ =~= old(s)@ + ("-"@ + decimal((-n) as nat)));
    } else {
        push_decimal(s, n as u64);
    }
}

pub fn push_digits(s: &mut String, n: u64, b: u64, width: u8)
    requires
        2 <= b <= 16,
    ensures
        final(s)@ == old(s)@ + digits(n as nat, b as nat, width as nat),
    decreases n, width,
{
    if n == 0 && width == 0 {
        assert(s@ =~= old(s)@ + Seq::<char>::empty());
        return;
    }
    let w: u8 = if width > 0 {
        width - 1
    } else {
        0
    };
    proof {
        vstd::arithmetic::div_mod::lemma_div_is_ordered_by_denominator(n as int, 2, b as int);
        assert(n % b < 16) by (nonlinear_arith)
            requires
                2 <= b <= 16,
        ;
    }
    push_digits(s, n / b, b, w);
    s.push(digit_char((n % b) as u8, false));
}

pub fn push_hex_upper(s: &mut String, n: u64, width: u8)
    ensures
        final(s)@ == old(s)@ + hex_upper(n as nat, width as nat),
    decreases n, width,
{
    if n == 0 && width == 0 {
        assert(s@ =~= old(s)@ + Seq::<char>::empty());
        return;
    }
    let w: u8 = if width > 0 {
        width - 1
    } else {
        0
    };
    push_hex_upper(s, n / 16, w);
    s.push(digit_char((n % 16) as u8, true));
}

/// Bytes in hexadecimal, two digits each, as `[0a, ff]`.
pub open spec fn hex_list(bytes: Seq<u8>, upper: bool) -> Seq<char> {
    "["@ + hex_items(bytes, upper) + "]"@
}

/// The bytes of a list, with commas between them.
pub open spec fn hex_items(bytes: Seq<u8>, upper: bool) -> Seq<char>
    decreases bytes.len(),
{
    if bytes.len() == 0 {
        Seq::empty()
    } else {
        hex_items(bytes.drop_last(), upper) + (if bytes.len() > 1 {
            ", "@
        } else {
            Seq::empty()
        }) + hex_byte(bytes.last(), upper)
    }
}

/// A byte as two hexadecimal digits.
pub open spec fn hex_byte(b: u8, upper: bool) -> Seq<char> {
    if upper {
        hex_upper(b as nat, 2)
    } else {
        digits(b as nat, 16, 2)
    }
}

pub fn push_hex_list(s: &mut String, bytes: &[u8], len: usize, upper: bool)
    requires
        len <= bytes@.len(),
    ensures
        final(s)@ == old(s)@ + hex_list(bytes@.take(len as int), upper),
{
    s.append("[");
    let mut i: usize = 0;
    assert(s@ =~= old(s)@ + "["@ + hex_items(bytes@.take(0), upper));
    while i < len
        invariant
            i <= len <= bytes@.len(),
            s@ == old(s)@ + "["@ + hex_items(bytes@.take(i as int), upper),
        decreases len - i,
    {
        let ghost before = s@;
        if i > 0 {
            s.append(", ");
        }
        if upper {
            push_hex_upper(s, bytes[i] as u64, 2);
        } else {
            push_digits(s, bytes[i] as u64, 16, 2);
        }
        proof {
            let next = bytes@.take(i + 1);
            assert(next.drop_last() =~= bytes@.take(i as int));
            assert(s@ =~= before + (if i > 0 {
                ", "@
            } else {
                Seq::empty()
            }) + hex_byte(bytes@[i as int], upper));
            assert(s@ =~= old(s)@ + "["@ + hex_items(next, upper));
        }
        i = i + 1;
    }
    s.append("]");
    assert(s@ =~= old(s)@ + hex_list(bytes@.take(len as int), upper));
}

/// White space, as Unicode has it.
pub open spec fn whitespace(c: char) -> bool {
    let n = c as u32;
    9 <= n <= 13 || n == 0x20 || n == 0x85 || n == 0xA0 || n == 0x1680 || 0x2000 <= n <= 0x200A || n
        == 0x2028 || n == 0x2029 || n == 0x202F || n == 0x205F || n == 0x3000
}

pub fn is_whitespace(c: char) -> (r: bool)
    ensures
        r == whitespace(c),
{
    let n: u32 = c as u32;
    (9 <= n && n <= 13) || n == 0x20 || n == 0x85 || n == 0xA0 || n == 0x1680 || (0x2000 <= n && n
        <= 0x200A) || n == 0x2028 || n == 0x2029 || n == 0x202F || n == 0x205F || n == 0x3000
}

/// The text without white space in front.
pub open spec fn trimmed_front(s: Seq<char>) -> Seq<char>
    decreases s.len(),
{
    if s.len() > 0 && whitespace(s[0]) {
        trimmed_front(s.drop_first())
    } else {
        s
    }
}

/// The text without white space behind.
pub open spec fn trimmed_back(s: Seq<char>) -> Seq<char>
    decreases s.len(),
{
    if s.len() > 0 && whitespace(s.last()) {
        trimmed_back(s.drop_last())
    } else {
        s
    }
}

/// The text without white space around it.
pub open spec fn trimmed(s: Seq<char>) -> Seq<char> {
    trimmed_back(trimmed_front(s))
}

/// The part of a text from `from` to `to`.
pub fn part(cs: &Vec<char>, from: usize, to: usize) -> (r: Vec<char>)
    requires
        from <= to <= cs@.len(),
    ensures
        r@ == cs@.subrange(from as int, to as int),
{
    let mut r: Vec<char> = Vec::new();
    let mut i: usize = from;
    while i < to
        invariant
            from <= i <= to <= cs@.len(),
            r@ == cs@.subrange(from as int, i as int),
        decreases to - i,
    {
        r.push(cs[i]);
        assert(r@ =~= cs@.subrange(from as int, i + 1));
        i = i + 1;
    }
    r
}

/// Takes the white space around a text away.
pub fn trim_chars(cs: &Vec<char>) -> (r: Vec<char>)
    ensures
        r@ == trimmed(cs@),
{
    let mut a: usize = 0;
    assert(cs@.subrange(0, cs@.len() as int) =~= cs@);
    while a < cs.len() && is_whitespace(cs[a])
        invariant
            a <= cs@.len(),
            trimmed_front(cs@) == trimmed_front(cs@.subrange(a as int, cs@.len() as int)),
        decreases cs@.len() - a,
    {
        assert(cs@.subrange(a as int, cs@.len() as int).drop_first() =~= cs@.subrange(
            a + 1,
            cs@.len() as int,
        ));
        a = a + 1;
    }
    let mut b: usize = cs.len();
    while b > a && is_whitespace(cs[b - 1])
        invariant
            a <= b <= cs@.len(),
            trimmed(cs@) == trimmed_back(cs@.subrange(a as int, b as int)),
        decreases b,
    {
        assert(cs@.subrange(a as int, b as int).drop_last() =~= cs@.subrange(a as int, b - 1));
        b = b - 1;
    }
    part(cs, a, b)
}

/// The texts of a list.
pub open spec fn texts(v: Seq<String>) -> Seq<Seq<char>> {
    Seq::new(v.len(), |i: int| v[i]@)
}

/// A decimal digit.
pub open spec fn is_digit(c: char) -> bool {
    '0' <= c <= '9'
}

/// Only decimal digits.
pub open spec fn all_digits(s: Seq<char>) -> bool {
    forall|i: int| 0 <= i < s.len() ==> is_digit(#[trigger] s[i])
}

/// The number that decimal digits spell.
pub open spec fn number(s: Seq<char>) -> nat
    decreases s.len(),
{
    if s.len() == 0 {
        0
    } else {
        number(s.drop_last()) * 10 + (s.last() as nat - 48) as nat
    }
}

/// A whole number of at least one digit, no larger than `max`.
pub open spec fn parsed_digits(s: Seq<char>, max: nat) -> Option<nat> {
    if s.len() > 0 && all_digits(s) && number(s) <= max {
        Some(number(s))
    } else {
        None
    }
}

proof fn lemma_number_grows(s: Seq<char>, i: int)
    requires
        0 <= i <= s.len(),
        all_digits(s),
    ensures
        number(s.take(i)) <= number(s),
    decreases s.len() - i,
{
    if i < s.len() {
        assert(s.take(i + 1).drop_last() =~= s.take(i));
        assert(is_digit(s[i]));
        lemma_number_grows(s, i + 1);
    } else {
        assert(s.take(i) =~= s);
    }
}

/// Reads `cs[from ..]` as a whole number of at least one digit, no larger than
/// `max`.
pub fn parse_digits(cs: &Vec<char>, from: usize, max: u64) -> (r: Option<u64>)
    requires
        from <= cs@.len(),
        max <= 0x0FFF_FFFF_FFFF_FFFF,
    ensures
        match r {
            Some(n) => parsed_digits(cs@.skip(from as int), max as nat) == Some(n as nat),
            None => parsed_digits(cs@.skip(from as int), max as nat) is None,
        },
{
    let ghost s = cs@.skip(from as int);
    if from >= cs.len() {
        return None;
    }
    let mut n: u64 = 0;
    let mut i: usize = from;
    assert(s.take(0) =~= Seq::<char>::empty());
    while i < cs.len()
        invariant
            from <= i <= cs@.len(),
            from < cs@.len(),
            max <= 0x0FFF_FFFF_FFFF_FFFF,
            s == cs@.skip(from as int),
            n == number(s.take(i - from)),
            n <= max,
            forall|k: int| 0 <= k < i - from ==> is_digit(#[trigger] s[k]),
        decreases cs@.len() - i,
    {
        let c: char = cs[i];
        assert(s[i - from] == c);
        if !('0' <= c && c <= '9') {
            assert(!is_digit(s[i - from]));
            return None;
        }
        assert(s.take(i + 1 - from).drop_last() =~= s.take(i - from));
        assert(s.take(i + 1 - from).last() == c);
        n = n * 10 + (c as u32 - 48) as u64;
        if n > max {
            proof {
                if all_digits(s) {
                    lemma_number_grows(s, i + 1 - from);
                }
            }
            return None;
        }
        i = i + 1;
    }
    assert(s.take(s.len() as int) =~= s);
    Some(n)
}

/// A signed number of 32 bits: an optional sign, and digits.
pub open spec fn parsed_i32(s: Seq<char>) -> Option<i32> {
    if s.len() > 0 && s[0] == '-' {
        match parsed_digits(s.skip(1), 0x8000_0000) {
            Some(n) => Some((-n) as i32),
            None => None,
        }
    } else {
        let t = if s.len() > 0 && s[0] == '+' {
            s.skip(1)
        } else {
            s.skip(0)
        };
        match parsed_digits(t, 0x7FFF_FFFF) {
            Some(n) => Some(n as i32),
            None => None,
        }
    }
}

pub fn parse_i32(cs: &Vec<char>) -> (r: Option<i32>)
    ensures
        r == parsed_i32(cs@),
{
    if cs.len() > 0 && cs[0] == '-' {
        match parse_digits(cs, 1, 0x8000_0000) {
            Some(n) => Some((-(n as i64)) as i32),
            None => None,
        }
    } else {
        let from: usize = if cs.len() > 0 && cs[0] == '+' {
            1
        } else {
            0
        };
        match parse_digits(cs, from, 0x7FFF_FFFF) {
            Some(n) => Some(n as i32),
            None => None,
        }
    }
}

/// A letter of ASCII in lower case; every other character as it is.
pub open spec fn lower(c: char) -> char {
    if 'A' <= c <= 'Z' {
        (c as u32 + 32) as char
    } else {
        c
    }
}

/// A text with its ASCII letters in lower case.
pub open spec fn lowered(s: Seq<char>) -> Seq<char> {
    Seq::new(s.len(), |i: int| lower(s[i]))
}

fn lower_char(c: char) -> (r: char)
    ensures
        r == lower(c),
{
    if 'A' <= c && c <= 'Z' {
        (c as u8 + 32) as char
    } else {
        c
    }
}

/// Puts the ASCII letters of a text in lower case.
pub fn lower_chars(cs: &Vec<char>) -> (r: Vec<char>)
    ensures
        r@ == lowered(cs@),
{
    let mut r: Vec<char> = Vec::new();
    let mut i: usize = 0;
    while i < cs.len()
        invariant
            i <= cs@.len(),
            r@ == lowered(cs@).take(i as int),
        decreases cs@.len() - i,
    {
        r.push(lower_char(cs[i]));
        assert(r@ =~= lowered(cs@).take(i + 1));
        i = i + 1;
    }
    assert(r@ =~= lowered(cs@));
    r
}

/// `needle` stands in `haystack` at `i`.
pub open spec fn stands_at(needle: Seq<char>, haystack: Seq<char>, i: int) -> bool {
    0 <= i && i + needle.len() <= haystack.len() && haystack.subrange(i, i + needle.len()) == needle
}

/// `needle` stands somewhere in `haystack`.
pub open spec fn occurs(needle: Seq<char>, haystack: Seq<char>) -> bool {
    exists|i: int| #[trigger] stands_at(needle, haystack, i)
}

fn is_at(haystack: &Vec<char>, needle: &Vec<char>, at: usize) -> (r: bool)
    requires
        at + needle@.len() <= haystack@.len(),
    ensures
        r == stands_at(needle@, haystack@, at as int),
{
    let size: usize = haystack.len();
    let mut k: usize = 0;
    while k < needle.len()
        invariant
            k <= needle@.len(),
            at + needle@.len() <= size,
            size == haystack@.len(),
            forall|j: int| 0 <= j < k ==> haystack@[at + j] == needle@[j],
        decreases needle@.len() - k,
    {
        if haystack[at + k] != needle[k] {
            assert(haystack@.subrange(at as int, at + needle@.len())[k as int] != needle@[k as int]);
            return false;
        }
        k = k + 1;
    }
    assert(haystack@.subrange(at as int, at + needle@.len()) =~= needle@);
    true
}

/// Does `needle` stand somewhere in `haystack`?
pub fn contains_text(haystack: &Vec<char>, needle: &Vec<char>) -> (r: bool)
    ensures
        r == occurs(needle@, haystack@),
{
    if needle.len() > haystack.len() {
        return false;
    }
    let last: usize = haystack.len() - needle.len();
    let mut i: usize = 0;
    while i <= last
        invariant
            i <= last + 1,
            last + needle@.len() == haystack@.len(),
            forall|j: int| 0 <= j < i ==> !#[trigger] stands_at(needle@, haystack@, j),
        decreases last + 1 - i,
    {
        if is_at(haystack, needle, i) {
            return true;
        }
        if i == last {
            return false;
        }
        i = i + 1;
    }
    false
}

} // verus!
