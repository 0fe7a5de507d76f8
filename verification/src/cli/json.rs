//! What the body of a JSON string stands for, and that escaping a text can be
//! undone.

use super::keys::{escaped, json_text};
use crate::text::{digit, digits};
use vstd::prelude::*;

verus! {

/// The value of a hexadecimal digit.
pub open spec fn hex_value(c: char) -> Option<nat> {
    if '0' <= c <= '9' {
        Some((c as nat - 48) as nat)
    } else if 'a' <= c <= 'f' {
        Some((c as nat - 87) as nat)
    } else if 'A' <= c <= 'F' {
        Some((c as nat - 55) as nat)
    } else {
        None
    }
}

/// The number behind `\u` at the beginning of a text: four hexadecimal digits.
pub open spec fn code_unit(s: Seq<char>) -> Option<nat> {
    if s.len() < 6 || s[0] != '\\' || s[1] != 'u' {
        None
    } else {
        match (hex_value(s[2]), hex_value(s[3]), hex_value(s[4]), hex_value(s[5])) {
            (Some(a), Some(b), Some(c), Some(d)) => Some(a * 4096 + b * 256 + c * 16 + d),
            _ => None,
        }
    }
}

/// The first character that the body of a JSON string stands for, and how many
/// characters of the body spell it. `None` if the body is malformed there.
pub open spec fn first(s: Seq<char>) -> Option<(char, nat)> {
    if s.len() == 0 || s[0] == '"' || (s[0] as u32) < 0x20 {
        None
    } else if s[0] != '\\' {
        Some((s[0], 1))
    } else if s.len() < 2 {
        None
    } else if s[1] == '"' || s[1] == '\\' || s[1] == '/' {
        Some((s[1], 2))
    } else if s[1] == 'b' {
        Some(('\x08', 2))
    } else if s[1] == 'f' {
        Some(('\x0C', 2))
    } else if s[1] == 'n' {
        Some(('\n', 2))
    } else if s[1] == 'r' {
        Some(('\r', 2))
    } else if s[1] == 't' {
        Some(('\t', 2))
    } else {
        match code_unit(s) {
            None => None,
            Some(u) => if u < 0xD800 || u >= 0xE000 {
                Some((u as char, 6))
            } else if u >= 0xDC00 {
                None
            } else {
                match code_unit(s.skip(6)) {
                    Some(v) => if 0xDC00 <= v < 0xE000 {
                        Some(((0x1_0000 + (u - 0xD800) * 0x400 + (v - 0xDC00)) as char, 12))
                    } else {
                        None
                    },
                    None => None,
                }
            },
        }
    }
}

/// The text that the body of a JSON string stands for. `None` if the body is
/// malformed: it holds a control character, a quotation mark that is not
/// escaped, or an escape that there is not.
pub open spec fn json_decoded(s: Seq<char>) -> Option<Seq<char>>
    decreases s.len(),
{
    if s.len() == 0 {
        Some(Seq::empty())
    } else {
        match first(s) {
            None => None,
            Some((c, n)) => if n == 0 || n > s.len() {
                None
            } else {
                match json_decoded(s.skip(n as int)) {
                    None => None,
                    Some(rest) => Some(seq![c] + rest),
                }
            },
        }
    }
}

/// A character that cannot stand in a JSON string as it is.
pub open spec fn special(c: char) -> bool {
    c == '"' || c == '\\' || (c as u32) < 0x20
}

proof fn lemma_front(s: Seq<char>)
    requires
        s.len() > 0,
    ensures
        json_text(s) == escaped(s[0]) + json_text(s.skip(1)),
    decreases s.len(),
{
    let t = s.drop_last();
    if t.len() > 0 {
        lemma_front(t);
        assert(s.skip(1).drop_last() =~= t.skip(1));
        assert(s.skip(1).last() == s.last());
        assert(json_text(s) =~= escaped(s[0]) + json_text(s.skip(1)));
    } else {
        assert(s.skip(1) =~= Seq::<char>::empty());
        assert(t =~= Seq::<char>::empty());
        assert(json_text(s) =~= escaped(s[0]) + json_text(s.skip(1)));
    }
}

proof fn lemma_control_digits(n: nat)
    requires
        n < 0x20,
    ensures
        digits(n, 16, 4) == seq!['0', '0', digit(n / 16), digit(n % 16)],
{
    reveal_with_fuel(digits, 5);
    assert(n / 16 / 16 == 0);
    assert(digits(n, 16, 4) =~= seq!['0', '0', digit(n / 16), digit(n % 16)]);
}

proof fn lemma_first(c: char, rest: Seq<char>)
    ensures
        first(escaped(c) + rest) == Some((c, escaped(c).len())),
        escaped(c).len() > 0,
{
    let s = escaped(c) + rest;
    if !special(c) {
        assert(s[0] == c);
    } else if c == '"' || c == '\\' || c == '\n' || c == '\r' || c == '\t' {
        assert(s[0] == '\\');
        assert(s[1] == escaped(c)[1]);
    } else {
        let n = c as nat;
        lemma_control_digits(n);
        let e = seq!['\\', 'u'] + digits(n, 16, 4);
        assert(escaped(c) == e);
        assert(s[0] == '\\' && s[1] == 'u');
        assert(s[2] == '0' && s[3] == '0' && s[4] == digit(n / 16) && s[5] == digit(n % 16));
        assert(hex_value(digit(n / 16)) == Some(n / 16));
        assert(hex_value(digit(n % 16)) == Some(n % 16));
        assert(code_unit(s) == Some(n));
    }
}

/// Decoding an escaped text as the body of a JSON string gives the text back.
pub proof fn law_json_round_trip(s: Seq<char>)
    ensures
        json_decoded(json_text(s)) == Some(s),
    decreases s.len(),
{
    if s.len() == 0 {
        assert(s =~= Seq::<char>::empty());
    } else {
        lemma_front(s);
        let rest = json_text(s.skip(1));
        lemma_first(s[0], rest);
        let whole = escaped(s[0]) + rest;
        assert(whole.skip(escaped(s[0]).len() as int) =~= rest);
        law_json_round_trip(s.skip(1));
        assert(seq![s[0]] + s.skip(1) =~= s);
    }
}

proof fn lemma_no_control(c: char, k: int)
    requires
        0 <= k < escaped(c).len(),
    ensures
        escaped(c)[k] as u32 >= 0x20,
{
    if special(c) && c != '"' && c != '\\' && c != '\n' && c != '\r' && c != '\t' {
        lemma_control_digits(c as nat);
    }
}

/// An escaped text holds no control character.
pub proof fn law_json_has_no_controls(s: Seq<char>, i: int)
    requires
        0 <= i < json_text(s).len(),
    ensures
        json_text(s)[i] as u32 >= 0x20,
    decreases s.len(),
{
    if s.len() > 0 {
        let front = json_text(s.drop_last());
        if i < front.len() {
            law_json_has_no_controls(s.drop_last(), i);
        } else {
            lemma_no_control(s.last(), i - front.len());
        }
    }
}

proof fn lemma_longer(s: Seq<char>)
    ensures
        json_text(s).len() >= s.len(),
        json_text(s).len() == s.len() ==> forall|i: int|
            0 <= i < s.len() ==> !special(#[trigger] s[i]),
    decreases s.len(),
{
    if s.len() > 0 {
        lemma_longer(s.drop_last());
        lemma_first(s.last(), Seq::empty());
        if json_text(s).len() == s.len() {
            assert forall|i: int| 0 <= i < s.len() implies !special(#[trigger] s[i]) by {
                if i < s.len() - 1 {
                    assert(s.drop_last()[i] == s[i]);
                }
            }
        }
    }
}

/// Escaping leaves a text as it is if and only if there is nothing to escape.
pub proof fn law_plain_text_stays(s: Seq<char>)
    ensures
        json_text(s) == s <==> forall|i: int| 0 <= i < s.len() ==> !special(#[trigger] s[i]),
    decreases s.len(),
{
    if json_text(s) == s {
        lemma_longer(s);
    }
    if s.len() == 0 {
        assert(json_text(s) =~= s);
    } else if forall|i: int| 0 <= i < s.len() ==> !special(#[trigger] s[i]) {
        let t = s.drop_last();
        assert forall|i: int| 0 <= i < t.len() implies !special(#[trigger] t[i]) by {
            assert(t[i] == s[i]);
        }
        law_plain_text_stays(t);
        assert(escaped(s[s.len() - 1]) == seq![s.last()]);
        assert(json_text(s) =~= s);
    }
}

} // verus!
