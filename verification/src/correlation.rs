//! Correlation IDs: every write session carries one, and every record and
//! error of that session names it.
//!
//! An ID is a ULID: 48 bits of milliseconds since the Unix epoch and 80 bits
//! of entropy, written as 26 characters of Crockford's base 32.

use vstd::prelude::*;

verus! {

/// The character for the value `v` (below 32) in Crockford's alphabet, which
/// leaves out I, L, O and U.
pub open spec fn crockford(v: nat) -> u8 {
    (if v < 10 {
        48 + v
    } else if v < 18 {
        55 + v
    } else if v < 20 {
        56 + v
    } else if v < 22 {
        57 + v
    } else if v < 27 {
        58 + v
    } else {
        59 + v
    }) as u8
}

/// The lowest `len` base 32 digits of `n`, most significant first.
pub open spec fn base32(n: nat, len: nat) -> Seq<u8>
    decreases len,
{
    if len == 0 {
        Seq::empty()
    } else {
        base32(n / 32, (len - 1) as nat).push(crockford(n % 32))
    }
}

/// The number that a sequence of bytes spells, most significant first.
pub open spec fn big_endian(s: Seq<u8>) -> nat
    decreases s.len(),
{
    if s.len() == 0 {
        0
    } else {
        big_endian(s.drop_last()) * 256 + s.last() as nat
    }
}

/// A per-session correlation ID.
#[derive(Debug, Clone, Copy, PartialEq, Eq)]
pub struct SessionId {
    bytes: [u8; 26],
}

fn crockford_char(v: u8) -> (c: u8)
    requires
        v < 32,
    ensures
        c == crockford(v as nat),
{
    if v < 10 {
        48 + v
    } else if v < 18 {
        55 + v
    } else if v < 20 {
        56 + v
    } else if v < 22 {
        57 + v
    } else if v < 27 {
        58 + v
    } else {
        59 + v
    }
}

/// Writes the lowest `len` base 32 digits of `n` to `out[at ..]`.
fn put_base32(out: &mut [u8; 26], at: usize, len: usize, n: u128)
    requires
        at + len <= 26,
    ensures
        forall|i: int| 0 <= i < at || at + len <= i < 26 ==> final(out)@[i] == old(out)@[i],
        final(out)@.subrange(at as int, at + len) == base32(n as nat, len as nat),
    decreases len,
{
    if len > 0 {
        put_base32(out, at, len - 1, n / 32);
        let ghost before = out@;
        out[at + len - 1] = crockford_char((n % 32) as u8);
        assert(out@.subrange(at as int, at + len) =~= before.subrange(at as int, at + len - 1).push(
            crockford((n % 32) as nat),
        ));
    } else {
        assert(out@.subrange(at as int, at as int) =~= Seq::<u8>::empty());
    }
}

/// 2^80: the tail of an ID is below it.
pub const TAIL_LIMIT: u128 = 0x1_0000_0000_0000_0000_0000;

/// What an ID is made of: the milliseconds since the Unix epoch, and a tail of
/// 80 bits.
#[derive(Debug, Clone, Copy, PartialEq, Eq)]
pub struct Stamp {
    pub ms: u64,
    pub tail: u128,
}

impl Stamp {
    /// The tail has 80 bits.
    pub open spec fn valid(self) -> bool {
        self.tail < TAIL_LIMIT
    }

    /// The characters of the ID.
    pub open spec fn id(self) -> Seq<u8> {
        base32(self.ms as nat, 10) + base32(self.tail as nat, 16)
    }
}

/// The stamp after a previous one: fresh if the time has moved on, else the
/// previous one counted up.
pub open spec fn following(previous: Option<Stamp>, ms: u64, tail: nat) -> Stamp {
    match previous {
        None => Stamp { ms, tail: tail as u128 },
        Some(p) => if p.ms < ms {
            Stamp { ms, tail: tail as u128 }
        } else if p.tail < TAIL_LIMIT - 1 {
            Stamp { ms: p.ms, tail: (p.tail + 1) as u128 }
        } else {
            Stamp {
                ms: if p.ms < u64::MAX {
                    (p.ms + 1) as u64
                } else {
                    u64::MAX
                },
                tail: 0,
            }
        },
    }
}

fn number_of(entropy: &[u8; 10]) -> (n: u128)
    ensures
        n == big_endian(entropy@),
        n < TAIL_LIMIT,
{
    let mut n: u128 = 0;
    let mut i: usize = 0;
    assert(entropy@.take(0) =~= Seq::<u8>::empty());
    while i < 10
        invariant
            i <= 10,
            entropy@.len() == 10,
            n == big_endian(entropy@.take(i as int)),
            i == 0 ==> n == 0,
            i == 1 ==> n < 0x100,
            i == 2 ==> n < 0x1_0000,
            i == 3 ==> n < 0x100_0000,
            i == 4 ==> n < 0x1_0000_0000,
            i == 5 ==> n < 0x100_0000_0000,
            i == 6 ==> n < 0x1_0000_0000_0000,
            i == 7 ==> n < 0x100_0000_0000_0000,
            i == 8 ==> n < 0x1_0000_0000_0000_0000,
            i == 9 ==> n < 0x100_0000_0000_0000_0000,
            i == 10 ==> n < 0x1_0000_0000_0000_0000_0000,
        decreases 10 - i,
    {
        assert(entropy@.take(i + 1).drop_last() =~= entropy@.take(i as int));
        n = n * 256 + entropy[i] as u128;
        i = i + 1;
    }
    assert(entropy@.take(10) =~= entropy@);
    n
}

impl SessionId {
    /// The 26 characters.
    pub closed spec fn view(&self) -> Seq<u8> {
        self.bytes@
    }

    /// The ID as text.
    pub open spec fn text(&self) -> Seq<char> {
        Seq::new(26, |i: int| self@[i] as char)
    }

    /// The ID of a session that starts `ms` milliseconds after the Unix epoch,
    /// with ten bytes of entropy, where none was made before.
    #[must_use]
    pub fn new(ms: u64, entropy: [u8; 10]) -> (id: SessionId)
        ensures
            id@.len() == 26,
            id@ == id_bytes(ms as nat, entropy@),
    {
        SessionId::stamped(Stamp { ms, tail: number_of(&entropy) })
    }

    /// The ID after a previous one, and the stamp to go on from. It is made of
    /// the time and the entropy, but for a time that is not later than that of
    /// the previous ID: then it is the one that follows the previous ID.
    #[must_use]
    pub fn next(previous: Option<Stamp>, ms: u64, entropy: [u8; 10]) -> (r: (SessionId, Stamp))
        ensures
            r.1 == following(previous, ms, big_endian(entropy@)),
            r.1.valid(),
            r.0@.len() == 26,
            r.0@ == r.1.id(),
    {
        let fresh: Stamp = Stamp { ms, tail: number_of(&entropy) };
        let stamp: Stamp = match previous {
            None => fresh,
            Some(p) => if p.ms < ms {
                fresh
            } else if p.tail < TAIL_LIMIT - 1 {
                Stamp { ms: p.ms, tail: p.tail + 1 }
            } else {
                Stamp { ms: p.ms.saturating_add(1), tail: 0 }
            },
        };
        (SessionId::stamped(stamp), stamp)
    }

    fn stamped(stamp: Stamp) -> (id: SessionId)
        ensures
            id@.len() == 26,
            id@ == stamp.id(),
    {
        let mut out: [u8; 26] = [0; 26];
        put_base32(&mut out, 0, 10, stamp.ms as u128);
        let ghost time = out@.subrange(0, 10);
        put_base32(&mut out, 10, 16, stamp.tail);
        assert(out@.subrange(0, 10) =~= time);
        assert(out@ =~= out@.subrange(0, 10) + out@.subrange(10, 26));
        SessionId { bytes: out }
    }

    /// The 26 characters as bytes.
    #[must_use]
    pub fn as_bytes(&self) -> (r: &[u8; 26])
        ensures
            r@ == self@,
    {
        &self.bytes
    }

    /// The ID as text.
    #[must_use]
    pub fn as_str(&self) -> (r: String)
        ensures
            r@ == self.text(),
    {
        let mut s: String = String::new();
        let mut i: usize = 0;
        while i < 26
            invariant
                i <= 26,
                self@.len() == 26,
                s@ == self.text().take(i as int),
            decreases 26 - i,
        {
            assert(self.text().take(i as int).push(self@[i as int] as char) =~= self.text().take(
                i + 1,
            ));
            s.push(self.bytes[i] as char);
            i = i + 1;
        }
        assert(self.text().take(26) =~= self.text());
        s
    }
}

/// `n` has at most `len` base 32 digits.
pub open spec fn fits(n: nat, len: nat) -> bool
    decreases len,
{
    if len == 0 {
        n == 0
    } else {
        fits(n / 32, (len - 1) as nat)
    }
}

/// At the first difference, `a` has the smaller byte.
pub open spec fn lexicographically_less(a: Seq<u8>, b: Seq<u8>) -> bool {
    exists|k: int|
        0 <= k < a.len() && k < b.len() && #[trigger] a[k] < b[k] && a.take(k) == b.take(k)
}

proof fn lemma_base32_len(n: nat, len: nat)
    ensures
        base32(n, len).len() == len,
    decreases len,
{
    if len > 0 {
        lemma_base32_len(n / 32, (len - 1) as nat);
    }
}

proof fn lemma_base32_injective(a: nat, b: nat, len: nat)
    requires
        fits(a, len),
        fits(b, len),
        base32(a, len) == base32(b, len),
    ensures
        a == b,
    decreases len,
{
    if len > 0 {
        let x = base32(a / 32, (len - 1) as nat);
        let y = base32(b / 32, (len - 1) as nat);
        lemma_base32_len(a / 32, (len - 1) as nat);
        lemma_base32_len(b / 32, (len - 1) as nat);
        assert(base32(a, len).drop_last() =~= x);
        assert(base32(b, len).drop_last() =~= y);
        assert(base32(a, len).last() == crockford(a % 32));
        assert(base32(b, len).last() == crockford(b % 32));
        lemma_base32_injective(a / 32, b / 32, (len - 1) as nat);
    }
}

proof fn lemma_base32_ordered(a: nat, b: nat, len: nat)
    requires
        fits(a, len),
        fits(b, len),
        a < b,
    ensures
        lexicographically_less(base32(a, len), base32(b, len)),
    decreases len,
{
    if len > 0 {
        let m = (len - 1) as nat;
        let x = base32(a / 32, m);
        let y = base32(b / 32, m);
        lemma_base32_len(a / 32, m);
        lemma_base32_len(b / 32, m);
        let s = base32(a, len);
        let t = base32(b, len);
        if a / 32 < b / 32 {
            lemma_base32_ordered(a / 32, b / 32, m);
            let k = choose|k: int|
                0 <= k < x.len() && k < y.len() && #[trigger] x[k] < y[k] && x.take(k) == y.take(k);
            assert(s.take(k) =~= x.take(k));
            assert(t.take(k) =~= y.take(k));
            assert(s[k] < t[k]);
        } else {
            assert(x == y);
            assert(s.take(m as int) =~= x);
            assert(t.take(m as int) =~= y);
            assert(s[m as int] < t[m as int]);
        }
    }
}

proof fn lemma_big_endian_injective(a: Seq<u8>, b: Seq<u8>)
    requires
        a.len() == b.len(),
        big_endian(a) == big_endian(b),
    ensures
        a == b,
    decreases a.len(),
{
    if a.len() > 0 {
        lemma_big_endian_injective(a.drop_last(), b.drop_last());
        assert(a =~= a.drop_last().push(a.last()));
        assert(b =~= b.drop_last().push(b.last()));
    } else {
        assert(a =~= b);
    }
}

proof fn lemma_entropy_fits(s: Seq<u8>)
    requires
        s.len() == 10,
    ensures
        fits(big_endian(s), 16),
{
    reveal_with_fuel(big_endian, 11);
    reveal_with_fuel(fits, 17);
}

proof fn lemma_time_fits(ms: nat)
    requires
        ms < 0x4_0000_0000_0000,
    ensures
        fits(ms, 10),
{
    reveal_with_fuel(fits, 11);
}

/// The ID for a start time and ten bytes of entropy.
pub open spec fn id_bytes(ms: nat, entropy: Seq<u8>) -> Seq<u8> {
    base32(ms, 10) + base32(big_endian(entropy), 16)
}

/// Two sessions share an ID only when they share both the millisecond and the
/// entropy (up to the year 37648, when the time no longer fits).
pub proof fn law_ids_are_distinct(ms1: nat, e1: Seq<u8>, ms2: nat, e2: Seq<u8>)
    requires
        ms1 < 0x4_0000_0000_0000,
        ms2 < 0x4_0000_0000_0000,
        e1.len() == 10,
        e2.len() == 10,
        id_bytes(ms1, e1) == id_bytes(ms2, e2),
    ensures
        ms1 == ms2,
        e1 == e2,
{
    lemma_base32_len(ms1, 10);
    lemma_base32_len(ms2, 10);
    assert(id_bytes(ms1, e1).subrange(0, 10) =~= base32(ms1, 10));
    assert(id_bytes(ms2, e2).subrange(0, 10) =~= base32(ms2, 10));
    lemma_base32_len(big_endian(e1), 16);
    lemma_base32_len(big_endian(e2), 16);
    assert(id_bytes(ms1, e1).subrange(10, 26) =~= base32(big_endian(e1), 16));
    assert(id_bytes(ms2, e2).subrange(10, 26) =~= base32(big_endian(e2), 16));
    lemma_time_fits(ms1);
    lemma_time_fits(ms2);
    lemma_base32_injective(ms1, ms2, 10);
    lemma_entropy_fits(e1);
    lemma_entropy_fits(e2);
    lemma_base32_injective(big_endian(e1), big_endian(e2), 16);
    lemma_big_endian_injective(e1, e2);
}

/// IDs sort by their start time.
pub proof fn law_ids_sort_by_time(ms1: nat, e1: Seq<u8>, ms2: nat, e2: Seq<u8>)
    requires
        ms1 < ms2 < 0x4_0000_0000_0000,
    ensures
        lexicographically_less(id_bytes(ms1, e1), id_bytes(ms2, e2)),
{
    lemma_time_fits(ms1);
    lemma_time_fits(ms2);
    lemma_base32_ordered(ms1, ms2, 10);
    lemma_base32_len(ms1, 10);
    lemma_base32_len(ms2, 10);
    let x = base32(ms1, 10);
    let y = base32(ms2, 10);
    let s = id_bytes(ms1, e1);
    let t = id_bytes(ms2, e2);
    let k = choose|k: int|
        0 <= k < x.len() && k < y.len() && #[trigger] x[k] < y[k] && x.take(k) == y.take(k);
    assert(s.take(k) =~= x.take(k));
    assert(t.take(k) =~= y.take(k));
    assert(s[k] < t[k]);
}

proof fn lemma_tail_fits(n: nat)
    requires
        n < TAIL_LIMIT,
    ensures
        fits(n, 16),
{
    reveal_with_fuel(fits, 17);
}

/// IDs increase, also within one millisecond: the ID that follows another one is
/// the larger one, whatever the clock and the entropy are (up to the year 37648,
/// when the time no longer fits).
pub proof fn law_ids_increase(previous: Stamp, ms: u64, entropy: Seq<u8>)
    requires
        previous.valid(),
        entropy.len() == 10,
        previous.ms < 0x3_FFFF_FFFF_FFFF,
        ms < 0x4_0000_0000_0000,
    ensures
        lexicographically_less(
            previous.id(),
            following(Some(previous), ms, big_endian(entropy)).id(),
        ),
{
    let next = following(Some(previous), ms, big_endian(entropy));
    let (a, b) = (previous.ms as nat, next.ms as nat);
    let s = previous.id();
    let t = next.id();
    lemma_base32_len(a, 10);
    lemma_base32_len(b, 10);
    lemma_base32_len(previous.tail as nat, 16);
    lemma_base32_len(next.tail as nat, 16);
    if a < b {
        lemma_time_fits(a);
        lemma_time_fits(b);
        lemma_base32_ordered(a, b, 10);
        let x = base32(a, 10);
        let y = base32(b, 10);
        let k = choose|k: int|
            0 <= k < x.len() && k < y.len() && #[trigger] x[k] < y[k] && x.take(k) == y.take(k);
        assert(s.take(k) =~= x.take(k));
        assert(t.take(k) =~= y.take(k));
        assert(s[k] < t[k]);
    } else {
        let x = base32(previous.tail as nat, 16);
        let y = base32(next.tail as nat, 16);
        lemma_tail_fits(previous.tail as nat);
        lemma_tail_fits(next.tail as nat);
        lemma_base32_ordered(previous.tail as nat, next.tail as nat, 16);
        let k = choose|k: int|
            0 <= k < x.len() && k < y.len() && #[trigger] x[k] < y[k] && x.take(k) == y.take(k);
        assert(s.take(10 + k) =~= base32(a, 10) + x.take(k));
        assert(t.take(10 + k) =~= base32(b, 10) + y.take(k));
        assert(s[10 + k] < t[10 + k]);
    }
}

/// A character of Crockford's alphabet.
pub open spec fn crockford_alphabet(b: u8) -> bool {
    (48 <= b <= 57 || 65 <= b <= 90) && b != 73 && b != 76 && b != 79 && b != 85
}

proof fn lemma_base32_alphabet(n: nat, len: nat, i: int)
    requires
        0 <= i < len,
    ensures
        base32(n, len).len() == len,
        crockford_alphabet(base32(n, len)[i]),
    decreases len,
{
    lemma_base32_len(n, len);
    lemma_base32_len(n / 32, (len - 1) as nat);
    if i < len - 1 {
        lemma_base32_alphabet(n / 32, (len - 1) as nat, i);
    }
}

/// Every character of an ID is a digit or a capital letter other than I, L, O
/// and U.
pub proof fn law_ids_are_crockford(ms: nat, entropy: Seq<u8>, i: int)
    requires
        0 <= i < 26,
    ensures
        id_bytes(ms, entropy).len() == 26,
        crockford_alphabet(id_bytes(ms, entropy)[i]),
{
    lemma_base32_len(ms, 10);
    lemma_base32_len(big_endian(entropy), 16);
    if i < 10 {
        lemma_base32_alphabet(ms, 10, i);
    } else {
        lemma_base32_alphabet(big_endian(entropy), 16, i - 10);
    }
}

} // verus!
