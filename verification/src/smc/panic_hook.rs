//! What a panic does: a diagnostic into a buffer that cannot grow, and the fans
//! are given back over a connection that nobody else uses.

use super::connection::{Conn, SmcConnection};
use super::exchange::Exchange;
use super::write_session::{give_back, releasing_all};
use vstd::prelude::*;

verus! {

/// Appends text to a buffer of fixed size and drops what does not fit.
pub struct SliceWriter<'a> {
    /// The buffer.
    pub buf: &'a mut [u8],
    /// How many bytes were written.
    pub pos: usize,
}

impl<'a> SliceWriter<'a> {
    /// The bytes of the buffer.
    pub open spec fn bytes(&self) -> Seq<u8> {
        self.buf@
    }

    /// The position is inside the buffer.
    pub open spec fn wf(&self) -> bool {
        self.pos <= self.buf@.len()
    }

    /// How many bytes were written.
    pub open spec fn count(&self) -> nat {
        self.pos as nat
    }

    /// A writer into a buffer. What the writer leaves in it is what the buffer
    /// holds afterwards.
    pub fn new(buf: &'a mut [u8]) -> (r: SliceWriter<'a>)
        ensures
            r.wf(),
            r.count() == 0,
            r.bytes() == old(buf)@,
            final(buf)@ == final(r.buf)@,
    {
        SliceWriter { buf, pos: 0 }
    }

    /// How many bytes were written.
    pub fn written(&self) -> (r: usize)
        ensures
            r == self.count(),
    {
        self.pos
    }

    /// Appends as much of a text as fits.
    pub fn write_str(&mut self, s: &str)
        requires
            old(self).wf(),
        ensures
            final(self).wf(),
            final(self).bytes().len() == old(self).bytes().len(),
            final(final(self).buf)@ == final(old(self).buf)@,
            ({
                let text = vstd::utf8::encode_utf8(s@);
                let room = old(self).bytes().len() - old(self).count();
                let take = if text.len() < room {
                    text.len() as int
                } else {
                    room
                };
                &&& final(self).count() == old(self).count() + take
                &&& final(self).bytes() == old(self).bytes().subrange(
                    0,
                    old(self).count() as int,
                ) + text.take(take) + old(self).bytes().subrange(
                    old(self).count() + take,
                    old(self).bytes().len() as int,
                )
            }),
    {
        let text = s.as_bytes();
        let size: usize = self.buf.len();
        let room: usize = size - self.pos;
        let take: usize = if text.len() < room {
            text.len()
        } else {
            room
        };
        let start: usize = self.pos;
        let mut i: usize = 0;
        while i < take
            invariant
                i <= take <= text@.len(),
                start + take <= size,
                size == self.buf@.len(),
                self.buf@.len() == old(self).buf@.len(),
                self.pos == start,
                final(self.buf)@ == final(old(self).buf)@,
                forall|k: int|
                    0 <= k < self.buf@.len() ==> #[trigger] self.buf@[k] == (if start <= k < start
                        + i {
                        text@[k - start]
                    } else {
                        old(self).buf@[k]
                    }),
            decreases take - i,
        {
            self.buf[start + i] = text[i];
            i = i + 1;
        }
        self.pos = start + take;
        assert(self.buf@ =~= old(self).buf@.subrange(0, start as int) + text@.take(take as int)
            + old(self).buf@.subrange(start + take, old(self).buf@.len() as int));
    }
}

/// What is kept for a panic: a connection and the fans, once they are sealed,
/// and whether the hook has run.
pub struct PanicSeal {
    conn: Option<SmcConnection>,
    fans: Vec<u8>,
    active: bool,
}

/// What is kept for a panic.
#[verifier::ext_equal]
pub struct Sealed {
    pub conn: Option<Conn>,
    pub fans: Seq<u8>,
    pub active: bool,
}

impl PanicSeal {
    pub closed spec fn view(&self) -> Sealed {
        Sealed {
            conn: match self.conn {
                Some(c) => Some(c@),
                None => None,
            },
            fans: self.fans@,
            active: self.active,
        }
    }

    /// The connection is in order, if there is one.
    pub closed spec fn wf(&self) -> bool {
        self.conn matches Some(c) ==> c.wf()
    }

    /// Nothing is kept yet.
    pub fn new() -> (r: PanicSeal)
        ensures
            r.wf(),
            r@ == (Sealed { conn: None, fans: Seq::empty(), active: false }),
    {
        let r: PanicSeal = PanicSeal { conn: None, fans: Vec::new(), active: false };
        assert(r@.fans =~= Seq::<u8>::empty());
        r
    }

    /// The connection, if there is one.
    pub fn connection(&mut self) -> (r: Option<&mut SmcConnection>)
        requires
            old(self).wf(),
        ensures
            match r {
                Some(c) => {
                    &&& old(self)@.conn == Some(c@)
                    &&& c.wf()
                    &&& final(self)@ == (Sealed { conn: Some(final(c)@), ..old(self)@ })
                    &&& final(c).wf() ==> final(self).wf()
                },
                None => old(self)@.conn is None && final(self)@ == old(self)@ && final(self).wf(),
            },
    {
        self.conn.as_mut()
    }

    /// Begins the work of the hook. A panic within the hook finds it begun.
    pub fn begin(&mut self) -> (r: bool)
        ensures
            r == !old(self)@.active,
            final(self)@ == (Sealed { active: true, ..old(self)@ }),
            old(self).wf() ==> final(self).wf(),
    {
        let r: bool = !self.active;
        self.active = true;
        r
    }

    /// Gives the fans back, if there is a connection.
    pub fn give_back(&mut self, io: &mut Exchange)
        requires
            old(self).wf(),
        ensures
            final(self).wf(),
            match old(self)@.conn {
                Some(c) => {
                    let (c1, d1) = releasing_all(c, old(self)@.fans, 0, old(io)@);
                    &&& final(self)@ == (Sealed { conn: Some(c1), ..old(self)@ })
                    &&& final(io)@ == d1
                },
                None => final(self)@ == old(self)@ && final(io)@ == old(io)@,
            },
    {
        if let Some(c) = &mut self.conn {
            give_back(c, &self.fans, io);
        }
    }
}

/// Keeps a connection and fans for a panic. The first that were kept stay.
pub fn seal_for_panic(seal: &mut PanicSeal, conn: SmcConnection, fan_indices: Vec<u8>)
    requires
        old(seal).wf(),
        conn.wf(),
    ensures
        final(seal).wf(),
        final(seal)@ == (if old(seal)@.conn is Some {
            old(seal)@
        } else {
            Sealed { conn: Some(conn@), fans: fan_indices@, ..old(seal)@ }
        }),
{
    if seal.conn.is_none() {
        seal.conn = Some(conn);
        seal.fans = fan_indices;
    }
}

} // verus!
