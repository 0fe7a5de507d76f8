//! Log levels, and a limit on how often one place may speak.

use crate::text::{decimal, push_decimal, same_text};
use vstd::prelude::*;
use vstd::string::StringExecFns;

verus! {

/// How important a line is; the most important come first.
#[derive(Debug, Clone, Copy, PartialEq, Eq, PartialOrd, Ord, Structural)]
pub enum LogLevel {
    Error,
    Warn,
    Info,
    Debug,
    Trace,
}

impl LogLevel {
    /// The level as a number.
    pub open spec fn rank(self) -> u8 {
        match self {
            LogLevel::Error => 0,
            LogLevel::Warn => 1,
            LogLevel::Info => 2,
            LogLevel::Debug => 3,
            LogLevel::Trace => 4,
        }
    }

    fn number(self) -> (r: u8)
        ensures
            r == self.rank(),
    {
        match self {
            LogLevel::Error => 0,
            LogLevel::Warn => 1,
            LogLevel::Info => 2,
            LogLevel::Debug => 3,
            LogLevel::Trace => 4,
        }
    }

    /// The level that a word names; `Info` for every other word.
    pub open spec fn named(s: Seq<char>) -> LogLevel {
        if s == "error"@ {
            LogLevel::Error
        } else if s == "warn"@ {
            LogLevel::Warn
        } else if s == "info"@ {
            LogLevel::Info
        } else if s == "debug"@ {
            LogLevel::Debug
        } else if s == "trace"@ {
            LogLevel::Trace
        } else {
            LogLevel::Info
        }
    }

    /// The level that a word names; `Info` for every other word.
    #[must_use]
    pub fn from_str_lossy(s: &str) -> (r: LogLevel)
        ensures
            r == LogLevel::named(s@),
    {
        if same_text(s, "error") {
            LogLevel::Error
        } else if same_text(s, "warn") {
            LogLevel::Warn
        } else if same_text(s, "info") {
            LogLevel::Info
        } else if same_text(s, "debug") {
            LogLevel::Debug
        } else if same_text(s, "trace") {
            LogLevel::Trace
        } else {
            LogLevel::Info
        }
    }

    /// The name of the level.
    pub open spec fn name(self) -> Seq<char> {
        match self {
            LogLevel::Error => "ERROR"@,
            LogLevel::Warn => "WARN"@,
            LogLevel::Info => "INFO"@,
            LogLevel::Debug => "DEBUG"@,
            LogLevel::Trace => "TRACE"@,
        }
    }

    /// The name of the level.
    #[must_use]
    pub fn as_str(self) -> (r: &'static str)
        ensures
            r@ == self.name(),
    {
        match self {
            LogLevel::Error => "ERROR",
            LogLevel::Warn => "WARN",
            LogLevel::Info => "INFO",
            LogLevel::Debug => "DEBUG",
            LogLevel::Trace => "TRACE",
        }
    }
}

/// How many lines a place may write in a row.
pub const BUCKET_SIZE: u32 = 3;

/// The level in force, and for each of 64 classes of places the lines that it
/// may still write and those that it did not get to write.
pub struct Logger {
    level: LogLevel,
    buckets: [u32; 64],
    suppressed: [u32; 64],
}

/// The state of a logger.
#[verifier::ext_equal]
pub struct Limits {
    pub level: LogLevel,
    pub buckets: Seq<u32>,
    pub suppressed: Seq<u32>,
}

/// A line of the log. The time comes as text, in seconds.
pub open spec fn line_text(elapsed: Seq<char>, level: LogLevel, msg: Seq<char>) -> Seq<char> {
    "["@ + elapsed + "s] "@ + level.name() + " "@ + msg
}

/// A number plus one, starting over behind the largest.
pub open spec fn next_number(n: u32) -> u32 {
    if n < u32::MAX {
        (n + 1) as u32
    } else {
        0
    }
}

/// A bucket after a refill.
pub open spec fn refilled(n: u32) -> u32 {
    if n < BUCKET_SIZE {
        (n + 1) as u32
    } else {
        n
    }
}

/// A place asks to write a line: what is written, and the limits afterwards. A
/// line that follows suppressed ones says how many there were.
pub open spec fn emitting(l: Limits, site_hash: usize, line: Seq<char>) -> (
    Option<Seq<char>>,
    Limits,
) {
    let i = site_hash as int % 64;
    let b = l.buckets[i];
    let n = l.suppressed[i];
    if b == 0 {
        (None, Limits { suppressed: l.suppressed.update(i, next_number(n)), ..l })
    } else {
        (
            Some(
                if n > 0 {
                    line + " (suppressed "@ + decimal(n as nat) + " similar)"@
                } else {
                    line
                },
            ),
            Limits {
                buckets: l.buckets.update(i, (b - 1) as u32),
                suppressed: l.suppressed.update(i, 0),
                ..l
            },
        )
    }
}

/// How many lines a place writes that asks again and again.
pub open spec fn lines_written(l: Limits, site_hash: usize, lines: Seq<Seq<char>>) -> nat
    decreases lines.len(),
{
    if lines.len() == 0 {
        0
    } else {
        let (r, l1) = emitting(l, site_hash, lines[0]);
        lines_written(l1, site_hash, lines.drop_first()) + (if r is Some {
            1nat
        } else {
            0nat
        })
    }
}

fn line(elapsed: &str, level: LogLevel, msg: &str) -> (r: String)
    ensures
        r@ == line_text(elapsed@, level, msg@),
{
    let mut s: String = String::from_str("[");
    s.append(elapsed);
    s.append("s] ");
    s.append(level.as_str());
    s.append(" ");
    s.append(msg);
    s
}

impl Logger {
    pub closed spec fn view(&self) -> Limits {
        Limits { level: self.level, buckets: self.buckets@, suppressed: self.suppressed@ }
    }

    /// Level `Info`, with every bucket full.
    pub fn new() -> (r: Logger)
        ensures
            r@.level == LogLevel::Info,
            r@.buckets == Seq::new(64, |i: int| BUCKET_SIZE),
            r@.suppressed == Seq::new(64, |i: int| 0u32),
    {
        let r: Logger = Logger { level: LogLevel::Info, buckets: [3; 64], suppressed: [0; 64] };
        assert(r@.buckets =~= Seq::new(64, |i: int| BUCKET_SIZE));
        assert(r@.suppressed =~= Seq::new(64, |i: int| 0u32));
        r
    }

    /// Changes the level.
    pub fn set_level(&mut self, level: LogLevel)
        ensures
            final(self)@ == (Limits { level, ..old(self)@ }),
    {
        self.level = level;
    }

    /// The level.
    #[must_use]
    pub fn current_level(&self) -> (r: LogLevel)
        ensures
            r == self@.level,
    {
        self.level
    }

    /// Are lines of a level written?
    #[must_use]
    pub fn is_enabled(&self, level: LogLevel) -> (r: bool)
        ensures
            r == (level.rank() <= self@.level.rank()),
    {
        level.number() <= self.level.number()
    }

    /// The line to write for a place, if it may write one. A line that follows
    /// suppressed ones says how many there were.
    pub fn rate_limited_emit(
        &mut self,
        site_hash: usize,
        level: LogLevel,
        msg: &str,
        elapsed: &str,
    ) -> (r: Option<String>)
        ensures
            match r {
                Some(s) => emitting(
                    old(self)@,
                    site_hash,
                    line_text(elapsed@, level, msg@),
                ) == (Some(s@), final(self)@),
                None => emitting(
                    old(self)@,
                    site_hash,
                    line_text(elapsed@, level, msg@),
                ) == (None::<Seq<char>>, final(self)@),
            },
    {
        let idx: usize = site_hash % 64;
        let remaining: u32 = self.buckets[idx];
        let n: u32 = self.suppressed[idx];
        if remaining == 0 {
            self.suppressed[idx] = n.wrapping_add(1);
            return None;
        }
        self.buckets[idx] = remaining - 1;
        self.suppressed[idx] = 0;
        let mut s: String = line(elapsed, level, msg);
        if n > 0 {
            s.append(" (suppressed ");
            push_decimal(&mut s, n as u64);
            s.append(" similar)");
        }
        Some(s)
    }

    /// Allows every place one line more, up to a full bucket.
    pub fn refill_buckets(&mut self)
        ensures
            final(self)@.level == old(self)@.level,
            final(self)@.suppressed == old(self)@.suppressed,
            final(self)@.buckets == Seq::new(64, |i: int| refilled(old(self)@.buckets[i])),
    {
        let mut i: usize = 0;
        while i < 64
            invariant
                i <= 64,
                self.level == old(self).level,
                self.suppressed == old(self).suppressed,
                forall|k: int| 0 <= k < i ==> self.buckets@[k] == refilled(old(self).buckets@[k]),
                forall|k: int| i <= k < 64 ==> self.buckets@[k] == old(self).buckets@[k],
            decreases 64 - i,
        {
            let current: u32 = self.buckets[i];
            if current < BUCKET_SIZE {
                self.buckets[i] = current + 1;
            }
            i = i + 1;
        }
        assert(self@.buckets =~= Seq::new(64, |i: int| refilled(old(self)@.buckets[i])));
    }

    /// The line to write without a limit, if the level is in force.
    pub fn emit_raw(&self, level: LogLevel, msg: &str, elapsed: &str) -> (r: Option<String>)
        ensures
            match r {
                Some(s) => level.rank() <= self@.level.rank() && s@ == line_text(
                    elapsed@,
                    level,
                    msg@,
                ),
                None => level.rank() > self@.level.rank(),
            },
    {
        if !self.is_enabled(level) {
            return None;
        }
        Some(line(elapsed, level, msg))
    }
}

/// The class of a place in the source, before the line is added.
pub open spec fn file_hash(bytes: Seq<u8>) -> usize
    decreases bytes.len(),
{
    if bytes.len() == 0 {
        5381
    } else {
        file_hash(bytes.drop_last()).wrapping_mul(33).wrapping_add(bytes.last() as usize)
    }
}

/// A number for a place in the source.
pub fn site_hash(file: &str, line: usize) -> (r: usize)
    ensures
        r == file_hash(vstd::utf8::encode_utf8(file@)).wrapping_add(line),
{
    let bytes = file.as_bytes();
    let mut h: usize = 5381;
    let mut i: usize = 0;
    assert(bytes@.take(0) =~= Seq::<u8>::empty());
    while i < bytes.len()
        invariant
            i <= bytes@.len(),
            h == file_hash(bytes@.take(i as int)),
        decreases bytes@.len() - i,
    {
        assert(bytes@.take(i + 1).drop_last() =~= bytes@.take(i as int));
        h = h.wrapping_mul(33).wrapping_add(bytes[i] as usize);
        i = i + 1;
    }
    assert(bytes@.take(bytes@.len() as int) =~= bytes@);
    h.wrapping_add(line)
}

/// Between two refills a place writes as many lines as its bucket holds, which
/// is never more than three: a refill keeps a bucket within that bound.
pub proof fn law_a_place_writes_at_most_three_lines(
    l: Limits,
    site_hash: usize,
    lines: Seq<Seq<char>>,
)
    requires
        l.buckets.len() == 64,
        l.suppressed.len() == 64,
        l.buckets[site_hash as int % 64] <= BUCKET_SIZE,
    ensures
        lines_written(l, site_hash, lines) == (if lines.len() < l.buckets[site_hash as int % 64] {
            lines.len()
        } else {
            l.buckets[site_hash as int % 64] as nat
        }),
        lines_written(l, site_hash, lines) <= BUCKET_SIZE,
        refilled(l.buckets[site_hash as int % 64]) <= BUCKET_SIZE,
    decreases lines.len(),
{
    if lines.len() > 0 {
        let l1 = emitting(l, site_hash, lines[0]).1;
        law_a_place_writes_at_most_three_lines(l1, site_hash, lines.drop_first());
    }
}

} // verus!
