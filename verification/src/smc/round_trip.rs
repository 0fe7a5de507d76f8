//! The record of every write and its readback: a ring of the last 256.

use super::types::byte_at;
use crate::correlation::SessionId;
use crate::text::{decimal, digits, hex_list, push_decimal, push_digits, push_hex_list};
use vstd::prelude::*;
use vstd::string::StringExecFns;

verus! {

/// How a write and its readback ended.
#[derive(Debug, Clone, Copy, PartialEq, Eq, Structural)]
pub enum RoundTripOutcome {
    /// The readback is what was written, byte for byte.
    Match,
    /// The write failed.
    WriteFailed,
    /// The write succeeded, the readback failed.
    ReadbackFailed,
    /// The readback differs from what was written.
    Mismatch,
}

impl RoundTripOutcome {
    /// The name of the outcome.
    pub open spec fn name(self) -> Seq<char> {
        match self {
            RoundTripOutcome::Match => "Match"@,
            RoundTripOutcome::WriteFailed => "WriteFailed"@,
            RoundTripOutcome::ReadbackFailed => "ReadbackFailed"@,
            RoundTripOutcome::Mismatch => "Mismatch"@,
        }
    }

    /// The name of the outcome.
    pub fn as_str(self) -> (r: &'static str)
        ensures
            r@ == self.name(),
    {
        match self {
            RoundTripOutcome::Match => "Match",
            RoundTripOutcome::WriteFailed => "WriteFailed",
            RoundTripOutcome::ReadbackFailed => "ReadbackFailed",
            RoundTripOutcome::Mismatch => "Mismatch",
        }
    }
}

/// One write and its readback, in 24 bytes.
#[derive(Debug, Clone, Copy, PartialEq, Eq)]
pub struct RoundTripRecord {
    /// When the write was started, in nanoseconds.
    pub timestamp_ns: u64,
    /// The key.
    pub fourcc: u32,
    /// What was written, padded with zeros.
    pub written_bytes: [u8; 4],
    /// What was read back, padded with zeros.
    pub readback_bytes: [u8; 4],
    /// How many bytes were written.
    pub written_len: u8,
    /// How many bytes were read back.
    pub readback_len: u8,
    /// How it ended.
    pub outcome: RoundTripOutcome,
    /// Always zero.
    pub _pad: u8,
}

/// At most four bytes, padded with zeros.
pub open spec fn padded(s: Seq<u8>) -> [u8; 4] {
    [byte_at(s, 0), byte_at(s, 1), byte_at(s, 2), byte_at(s, 3)]
}

/// A length, at most four.
pub open spec fn at_most_four(n: nat) -> nat {
    if n < 4 {
        n
    } else {
        4
    }
}

/// The record of a write at `timestamp_ns`.
pub open spec fn record_of(
    timestamp_ns: u64,
    fourcc: u32,
    written: Seq<u8>,
    readback: Seq<u8>,
    outcome: RoundTripOutcome,
) -> RoundTripRecord {
    RoundTripRecord {
        timestamp_ns,
        fourcc,
        written_bytes: padded(written),
        readback_bytes: padded(readback),
        written_len: at_most_four(written.len()) as u8,
        readback_len: at_most_four(readback.len()) as u8,
        outcome,
        _pad: 0,
    }
}

fn pad(s: &[u8]) -> (r: ([u8; 4], u8))
    ensures
        r.0 == padded(s@),
        r.1 == at_most_four(s@.len()),
{
    let mut out: [u8; 4] = [0; 4];
    let len: usize = if s.len() < 4 {
        s.len()
    } else {
        4
    };
    let mut i: usize = 0;
    while i < len
        invariant
            i <= len <= 4,
            len == at_most_four(s@.len()),
            forall|j: int| 0 <= j < i ==> out@[j] == s@[j],
            forall|j: int| i <= j < 4 ==> out@[j] == 0,
        decreases len - i,
    {
        out[i] = s[i];
        i = i + 1;
    }
    proof {
        assert(out@ =~= padded(s@)@);
        assert(out =~= padded(s@));
    }
    (out, len as u8)
}

impl RoundTripRecord {
    /// The record of a readback that matched.
    #[must_use]
    pub fn new_match(timestamp_ns: u64, fourcc: u32, written: &[u8], readback: &[u8]) -> (r: Self)
        ensures
            r == record_of(timestamp_ns, fourcc, written@, readback@, RoundTripOutcome::Match),
    {
        Self::new(timestamp_ns, fourcc, written, readback, RoundTripOutcome::Match)
    }

    /// The record of a write with a given outcome.
    #[must_use]
    pub fn new(
        timestamp_ns: u64,
        fourcc: u32,
        written: &[u8],
        readback: &[u8],
        outcome: RoundTripOutcome,
    ) -> (r: Self)
        ensures
            r == record_of(timestamp_ns, fourcc, written@, readback@, outcome),
    {
        let (written_bytes, written_len) = pad(written);
        let (readback_bytes, readback_len) = pad(readback);
        RoundTripRecord {
            timestamp_ns,
            fourcc,
            written_bytes,
            readback_bytes,
            written_len,
            readback_len,
            outcome,
            _pad: 0,
        }
    }

    /// The line of the record in a drain.
    pub open spec fn line(self) -> Seq<char> {
        decimal(self.timestamp_ns as nat) + " fourcc=0x"@ + digits(self.fourcc as nat, 16, 8)
            + " wrote="@ + hex_list(
            self.written_bytes@.take(at_most_four(self.written_len as nat) as int),
            false,
        ) + " read="@ + hex_list(
            self.readback_bytes@.take(at_most_four(self.readback_len as nat) as int),
            false,
        ) + " outcome="@ + self.outcome.name() + "\n"@
    }

    /// Appends the line of the record to a text.
    pub fn push_line(&self, sink: &mut String)
        ensures
            final(sink)@ == old(sink)@ + self.line(),
    {
        let wl: usize = if self.written_len < 4 {
            self.written_len as usize
        } else {
            4
        };
        let rl: usize = if self.readback_len < 4 {
            self.readback_len as usize
        } else {
            4
        };
        let mut s: String = String::new();
        push_decimal(&mut s, self.timestamp_ns);
        assert(s@ =~= decimal(self.timestamp_ns as nat));
        s.append(" fourcc=0x");
        push_digits(&mut s, self.fourcc as u64, 16, 8);
        s.append(" wrote=");
        push_hex_list(&mut s, self.written_bytes.as_slice(), wl, false);
        s.append(" read=");
        push_hex_list(&mut s, self.readback_bytes.as_slice(), rl, false);
        s.append(" outcome=");
        s.append(self.outcome.as_str());
        s.append("\n");
        sink.append(s.as_str());
    }
}

/// The slot that was written `back` records before the slot `next`.
pub open spec fn slot_back(next: int, back: int) -> int {
    if next >= back {
        next - back
    } else {
        next + 256 - back
    }
}

/// The last 256 records of a session, its correlation ID, and the number of
/// all records it ever took.
pub struct RoundTripRing {
    session_id: SessionId,
    records: [RoundTripRecord; 256],
    next: usize,
    count: u64,
}

impl RoundTripRing {
    /// The next record goes to a slot of the buffer; until the buffer is full
    /// that slot is the number of records taken.
    pub closed spec fn wf(&self) -> bool {
        &&& self.next < 256
        &&& self.count < 256 ==> self.next == self.count
    }

    /// How many records were taken.
    pub closed spec fn taken(&self) -> u64 {
        self.count
    }

    /// The correlation ID of the session.
    pub closed spec fn session(&self) -> SessionId {
        self.session_id
    }

    /// The records that are still there, oldest first.
    pub closed spec fn view(&self) -> Seq<RoundTripRecord> {
        let k: int = if self.count < 256 {
            self.count as int
        } else {
            256
        };
        Seq::new(k as nat, |i: int| self.records@[slot_back(self.next as int, k - i)])
    }

    /// A ring holds every record that it took, or the last 256.
    pub proof fn law_size(&self)
        ensures
            self@.len() == (if self.taken() < 256 {
                self.taken() as nat
            } else {
                256
            }),
    {
    }

    /// An empty ring.
    #[must_use]
    pub fn new(session_id: SessionId) -> (r: Self)
        ensures
            r.wf(),
            r@ == Seq::<RoundTripRecord>::empty(),
            r.taken() == 0,
            r.session() == session_id,
    {
        let blank: RoundTripRecord = RoundTripRecord {
            timestamp_ns: 0,
            fourcc: 0,
            written_bytes: [0; 4],
            readback_bytes: [0; 4],
            written_len: 0,
            readback_len: 0,
            outcome: RoundTripOutcome::Match,
            _pad: 0,
        };
        let r: RoundTripRing = RoundTripRing {
            session_id,
            records: [blank; 256],
            next: 0,
            count: 0,
        };
        assert(r@ =~= Seq::<RoundTripRecord>::empty());
        r
    }

    /// The correlation ID of the session.
    #[must_use]
    pub fn session_id(&self) -> (r: SessionId)
        ensures
            r == self.session(),
    {
        self.session_id
    }

    /// Takes a record; a full ring gives up its oldest one.
    pub fn push(&mut self, record: RoundTripRecord)
        requires
            old(self).wf(),
        ensures
            final(self).wf(),
            final(self)@ == pushed(old(self)@, record),
            final(self).taken() == one_more(old(self).taken()),
            final(self).session() == old(self).session(),
    {
        self.records[self.next] = record;
        self.next = (self.next + 1) % 256;
        self.count = self.count.saturating_add(1);
        assert(self@ =~= pushed(old(self)@, record));
    }

    /// How many records were taken; it never falls.
    #[must_use]
    pub fn count(&self) -> (r: u64)
        ensures
            r == self.taken(),
    {
        self.count
    }

    /// The most recent `n` records, or as many as there are, oldest first.
    pub fn recent(&self, n: usize) -> (r: Vec<RoundTripRecord>)
        requires
            self.wf(),
        ensures
            r@ == last(self@, n as nat),
    {
        let available: usize = if self.count < 256 {
            self.count as usize
        } else {
            256
        };
        let take: usize = if n < available {
            n
        } else {
            available
        };
        let mut out: Vec<RoundTripRecord> = Vec::new();
        let mut i: usize = 0;
        while i < take
            invariant
                self.wf(),
                i <= take <= available <= 256,
                self@.len() == available,
                available == (if self.count < 256 { self.count as int } else { 256 }),
                out@ == self@.subrange(available - take, available - take + i),
            decreases take - i,
        {
            let back: usize = take - i;
            let at: usize = if self.next >= back {
                self.next - back
            } else {
                self.next + 256 - back
            };
            out.push(self.records[at]);
            assert(out@ =~= self@.subrange(available - take, available - take + i + 1));
            i = i + 1;
        }
        assert(out@ =~= last(self@, n as nat));
        out
    }

    /// Appends the most recent `n` records to a text, one line for each, oldest
    /// first. The ring stays as it is.
    pub fn drain_recent(&self, n: usize, sink: &mut String)
        requires
            self.wf(),
        ensures
            final(sink)@ == old(sink)@ + lines(last(self@, n as nat)),
    {
        let recs: Vec<RoundTripRecord> = self.recent(n);
        let mut i: usize = 0;
        assert(sink@ =~= old(sink)@ + lines(recs@.take(0)));
        while i < recs.len()
            invariant
                i <= recs.len(),
                sink@ == old(sink)@ + lines(recs@.take(i as int)),
            decreases recs.len() - i,
        {
            let rec: RoundTripRecord = recs[i];
            rec.push_line(sink);
            proof {
                assert(recs@.take(i + 1).drop_last() =~= recs@.take(i as int));
                assert(sink@ =~= old(sink)@ + lines(recs@.take(i + 1)));
            }
            i = i + 1;
        }
        assert(recs@.take(recs@.len() as int) =~= recs@);
    }

    /// The ring as text, one line for each record, behind two header lines.
    pub open spec fn drained(&self) -> Seq<char> {
        drain_text(self.session(), self.taken(), self@)
    }

    /// Appends the ring to a text. The ring stays as it is.
    pub fn drain_to(&self, sink: &mut String)
        requires
            self.wf(),
        ensures
            final(sink)@ == old(sink)@ + self.drained(),
    {
        sink.append("# fand round-trip drain session=");
        let id: String = self.session_id.as_str();
        sink.append(id.as_str());
        sink.append("\n# count=");
        push_decimal(sink, self.count);
        sink.append(" capacity=256\n");
        self.drain_recent(256, sink);
        assert(last(self@, 256) =~= self@);
        assert(sink@ =~= old(sink)@ + self.drained());
    }
}

impl Clone for RoundTripRing {
    fn clone(&self) -> (r: Self)
        ensures
            r == *self,
    {
        RoundTripRing {
            session_id: self.session_id,
            records: self.records,
            next: self.next,
            count: self.count,
        }
    }
}

/// Records as text, one line for each, behind two header lines.
pub open spec fn drain_text(session: SessionId, taken: u64, records: Seq<RoundTripRecord>) -> Seq<
    char,
> {
    "# fand round-trip drain session="@ + session.text() + "\n# count="@ + decimal(taken as nat)
        + " capacity=256\n"@ + lines(records)
}

/// A count after one more record; it does not go beyond what it can hold.
pub open spec fn one_more(taken: u64) -> u64 {
    if taken < u64::MAX {
        (taken + 1) as u64
    } else {
        u64::MAX
    }
}

/// The records after one more was taken.
pub open spec fn pushed(s: Seq<RoundTripRecord>, r: RoundTripRecord) -> Seq<RoundTripRecord> {
    if s.len() < 256 {
        s.push(r)
    } else {
        s.drop_first().push(r)
    }
}

/// The last `n` items, or as many as there are.
pub open spec fn last(s: Seq<RoundTripRecord>, n: nat) -> Seq<RoundTripRecord> {
    if n < s.len() {
        s.subrange(s.len() - n, s.len() as int)
    } else {
        s
    }
}

/// The lines of records, in order.
pub open spec fn lines(s: Seq<RoundTripRecord>) -> Seq<char>
    decreases s.len(),
{
    if s.len() == 0 {
        Seq::empty()
    } else {
        lines(s.drop_last()) + s.last().line()
    }
}

/// The records after a sequence of pushes.
pub open spec fn pushed_all(s: Seq<RoundTripRecord>, rs: Seq<RoundTripRecord>) -> Seq<
    RoundTripRecord,
>
    decreases rs.len(),
{
    if rs.len() == 0 {
        s
    } else {
        pushed(pushed_all(s, rs.drop_last()), rs.last())
    }
}

/// After any pushes into an empty ring the ring holds the last 256 of them, in
/// order.
pub proof fn law_ring_keeps_the_last(rs: Seq<RoundTripRecord>)
    ensures
        pushed_all(Seq::empty(), rs) == last(rs, 256),
    decreases rs.len(),
{
    if rs.len() > 0 {
        law_ring_keeps_the_last(rs.drop_last());
        assert(pushed_all(Seq::empty(), rs) =~= last(rs, 256));
    } else {
        assert(pushed_all(Seq::empty(), rs) =~= last(rs, 256));
    }
}

} // verus!
