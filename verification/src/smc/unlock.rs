//! The diagnostic unlock: its heartbeat, its watchdog, and the one release.
//!
//! Several parties may have to release the fans: the session itself, the
//! signal thread, the panic hook. They share one [`ReleaseFlag`]; whoever
//! claims it first does the work.

use crate::correlation::SessionId;
use vstd::prelude::*;

verus! {

/// Without a round trip for this long the watchdog fires.
pub const WATCHDOG_DEADLINE_MS: u64 = 4000;

/// How often the watchdog looks.
pub const WATCHDOG_POLL_INTERVAL_MS: u64 = 250;

/// Has somebody begun to release the fans?
#[derive(Debug, Clone, Copy, PartialEq, Eq)]
pub struct ReleaseFlag {
    claimed: bool,
}

impl ReleaseFlag {
    pub closed spec fn view(&self) -> bool {
        self.claimed
    }

    /// Nobody has.
    pub fn new() -> (r: ReleaseFlag)
        ensures
            !r@,
    {
        ReleaseFlag { claimed: false }
    }

    /// Has somebody?
    pub fn is_claimed(&self) -> (r: bool)
        ensures
            r == self@,
    {
        self.claimed
    }

    /// Claims the release. Only the first claim succeeds.
    pub fn claim(&mut self) -> (won: bool)
        ensures
            won == !old(self)@,
            final(self)@,
    {
        let won: bool = !self.claimed;
        self.claimed = true;
        won
    }
}

/// Milliseconds between two times in nanoseconds.
pub open spec fn ms_between(from: u64, to: u64) -> u64 {
    if to < from {
        0
    } else {
        ((to - from) / 1_000_000) as u64
    }
}

fn elapsed_ms(from: u64, to: u64) -> (r: u64)
    ensures
        r == ms_between(from, to),
{
    if to < from {
        0
    } else {
        (to - from) / 1_000_000
    }
}

/// What the watchdog does next.
#[derive(Debug, Clone, Copy, PartialEq, Eq, Structural)]
pub enum WatchdogStep {
    /// Nothing is left to watch.
    Exit,
    /// Look again later.
    Wait,
    /// The heartbeat stopped: have the fans released.
    Fire,
}

/// One look at the heartbeat.
pub fn watchdog_step(stop: bool, releasing: bool, last_heartbeat_ns: u64, now_ns: u64) -> (r:
    WatchdogStep)
    ensures
        r == (if stop || releasing {
            WatchdogStep::Exit
        } else if ms_between(last_heartbeat_ns, now_ns) >= WATCHDOG_DEADLINE_MS {
            WatchdogStep::Fire
        } else {
            WatchdogStep::Wait
        }),
{
    if stop {
        return WatchdogStep::Exit;
    }
    if releasing {
        return WatchdogStep::Exit;
    }
    if elapsed_ms(last_heartbeat_ns, now_ns) >= WATCHDOG_DEADLINE_MS {
        return WatchdogStep::Fire;
    }
    WatchdogStep::Wait
}

/// A held unlock. Heartbeats are wall clock times, in nanoseconds since the
/// Unix epoch; the time of acquisition is one of a clock that never goes back.
#[derive(Debug, Clone, Copy, PartialEq, Eq)]
pub struct DiagnosticUnlockSession {
    pub session_id: SessionId,
    pub acquired_at: u64,
    pub last_heartbeat_ns: u64,
    pub released: bool,
    pub watching: bool,
    pub watchdog_stop: bool,
}

impl DiagnosticUnlockSession {
    /// A session that was acquired now. Nothing is written, and the watchdog
    /// does not run yet.
    #[must_use]
    pub fn new(session_id: SessionId, acquired_at: u64, now_ns: u64) -> (r: DiagnosticUnlockSession)
        ensures
            r == (DiagnosticUnlockSession {
                session_id,
                acquired_at,
                last_heartbeat_ns: now_ns,
                released: false,
                watching: false,
                watchdog_stop: false,
            }),
    {
        DiagnosticUnlockSession {
            session_id,
            acquired_at,
            last_heartbeat_ns: now_ns,
            released: false,
            watching: false,
            watchdog_stop: false,
        }
    }

    /// Marks the watchdog as running. True if it has to be started; a running
    /// watchdog is not started again.
    pub fn start_watchdog(&mut self) -> (r: bool)
        ensures
            r == !old(self).watching,
            *final(self) == (DiagnosticUnlockSession { watching: true, ..*old(self) }),
    {
        if self.watching {
            return false;
        }
        self.watching = true;
        true
    }

    /// Tells the watchdog to stop.
    pub fn stop_watchdog(&mut self)
        ensures
            *final(self) == (DiagnosticUnlockSession {
                watching: false,
                watchdog_stop: true,
                ..*old(self)
            }),
    {
        self.watchdog_stop = true;
        self.watching = false;
    }

    /// The correlation ID of the session.
    #[must_use]
    pub fn session_id(&self) -> (r: SessionId)
        ensures
            r == self.session_id,
    {
        self.session_id
    }

    /// A round trip succeeded: the watchdog starts to count anew.
    pub fn heartbeat(&mut self, now_ns: u64)
        ensures
            *final(self) == (DiagnosticUnlockSession { last_heartbeat_ns: now_ns, ..*old(self) }),
    {
        self.last_heartbeat_ns = now_ns;
    }

    /// Milliseconds since the last heartbeat.
    #[must_use]
    pub fn ms_since_last_heartbeat(&self, now_ns: u64) -> (r: u64)
        ensures
            r == ms_between(self.last_heartbeat_ns, now_ns),
    {
        elapsed_ms(self.last_heartbeat_ns, now_ns)
    }

    /// Has the heartbeat stopped for too long?
    #[must_use]
    pub fn watchdog_fired(&self, now_ns: u64) -> (r: bool)
        ensures
            r == (ms_between(self.last_heartbeat_ns, now_ns) >= WATCHDOG_DEADLINE_MS),
    {
        self.ms_since_last_heartbeat(now_ns) >= WATCHDOG_DEADLINE_MS
    }

    /// Nanoseconds since the session was acquired.
    #[must_use]
    pub fn acquired_elapsed(&self, now: u64) -> (r: u64)
        ensures
            r == (if now < self.acquired_at { 0 } else { (now - self.acquired_at) as u64 }),
    {
        now.saturating_sub(self.acquired_at)
    }

    /// Claims the release for this session. True for the one caller, among all
    /// that share the flag, that gets to do it.
    pub fn try_begin_release(&mut self, flag: &mut ReleaseFlag) -> (won: bool)
        ensures
            won == (!old(self).released && !old(flag)@),
            *final(self) == (DiagnosticUnlockSession {
                released: old(self).released || won,
                ..*old(self)
            }),
            final(flag)@ == (old(flag)@ || !old(self).released),
    {
        if self.released {
            return false;
        }
        let won: bool = flag.claim();
        if won {
            self.released = true;
        }
        won
    }
}

/// A heartbeat keeps the watchdog quiet for its full deadline.
pub proof fn law_heartbeat_rearms(beat: u64, now: u64)
    requires
        beat <= now,
        now - beat < WATCHDOG_DEADLINE_MS * 1_000_000,
    ensures
        ms_between(beat, now) < WATCHDOG_DEADLINE_MS,
{
}

/// Milliseconds are counted in full: after a heartbeat at or before now, `ms` of
/// them have passed exactly if that many million nanoseconds have.
pub proof fn law_milliseconds_by_values(beat: u64, now: u64, ms: u64)
    requires
        beat <= now,
    ensures
        ms_between(beat, now) >= ms <==> now - beat >= ms * 1_000_000,
{
}

/// The watchdog counts four seconds.
pub proof fn law_watchdog_deadline(beat: u64, now: u64)
    requires
        beat <= now,
    ensures
        ms_between(beat, now) >= WATCHDOG_DEADLINE_MS <==> now - beat >= 4_000_000_000,
{
}

} // verus!
