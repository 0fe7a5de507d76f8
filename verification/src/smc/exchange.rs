//! The dialogue with the machine.
//!
//! An operation of this library never touches the machine. It states a
//! request, takes the reply that was supplied for it, and goes on. A host runs
//! an operation, performs the first request that has no reply yet, supplies
//! what came back, and runs the operation again from the state it started in,
//! until every request of the run has its reply. Operations are deterministic:
//! with the same replies they state the same requests.

use super::error::KernReturnT;
use super::param::{Frame, SMCParamStruct};
use super::warning::Warning;
use vstd::prelude::*;

verus! {

/// What an operation asks the machine to do.
#[derive(Debug, Clone, Copy, PartialEq, Eq)]
pub enum Request {
    /// Find the SMC service; the value is its port, 0 if there is none.
    FindService,
    /// Is this service an SMC? The value is 0 if not.
    ConformsTo(u32),
    /// Open a user client of the service; the value is its port.
    OpenService(u32),
    /// Give the service back.
    ReleaseService(u32),
    /// Close a user client.
    CloseService(u32),
    /// Eight random bytes, as the value.
    Entropy,
    /// Guard the port of a user client with a cookie.
    GuardPort(u32, u64),
    /// Remove the guard from a port.
    UnguardPort(u32, u64),
    /// Call the user client behind a port.
    Call(u32, SMCParamStruct),
    /// Wait for a number of milliseconds.
    Sleep(u64),
    /// The wall clock, in nanoseconds since the Unix epoch, as the value.
    Clock,
    /// A clock that never goes back, in nanoseconds, as the value.
    Timer,
    /// Tell the watchdog of a heartbeat, in nanoseconds since the Unix epoch.
    Heartbeat(u64),
    /// Start to watch the heartbeat.
    StartWatchdog,
    /// Stop to watch the heartbeat.
    StopWatchdog,
    /// Log a warning.
    Warn(Warning),
}

/// What came back. Each request uses the parts that it needs.
#[derive(Debug, Clone, Copy, PartialEq, Eq)]
pub struct Reply {
    /// Return code of the kernel.
    pub kr: KernReturnT,
    /// A number.
    pub value: u64,
    /// A parameter block.
    pub output: SMCParamStruct,
}

/// A request, with its parameter block read as a frame.
pub enum Action {
    FindService,
    ConformsTo(u32),
    OpenService(u32),
    ReleaseService(u32),
    CloseService(u32),
    Entropy,
    GuardPort(u32, u64),
    UnguardPort(u32, u64),
    Call(u32, Frame),
    Sleep(u64),
    Clock,
    Timer,
    Heartbeat(u64),
    StartWatchdog,
    StopWatchdog,
    Warn(Warning),
}

impl Request {
    pub open spec fn view(&self) -> Action {
        match *self {
            Request::FindService => Action::FindService,
            Request::ConformsTo(s) => Action::ConformsTo(s),
            Request::OpenService(s) => Action::OpenService(s),
            Request::ReleaseService(s) => Action::ReleaseService(s),
            Request::CloseService(c) => Action::CloseService(c),
            Request::Entropy => Action::Entropy,
            Request::GuardPort(c, g) => Action::GuardPort(c, g),
            Request::UnguardPort(c, g) => Action::UnguardPort(c, g),
            Request::Call(c, p) => Action::Call(c, p@),
            Request::Sleep(ms) => Action::Sleep(ms),
            Request::Clock => Action::Clock,
            Request::Timer => Action::Timer,
            Request::Heartbeat(ns) => Action::Heartbeat(ns),
            Request::StartWatchdog => Action::StartWatchdog,
            Request::StopWatchdog => Action::StopWatchdog,
            Request::Warn(w) => Action::Warn(w),
        }
    }
}

/// The replies that are there, the reply that stands in for those that are
/// not, and what was asked so far.
#[verifier::ext_equal]
pub struct Dialog {
    pub replies: Seq<Reply>,
    pub silence: Reply,
    pub asked: Seq<Action>,
}

impl Dialog {
    /// The reply to the next request.
    pub open spec fn answer(self) -> Reply {
        if self.asked.len() < self.replies.len() {
            self.replies[self.asked.len() as int]
        } else {
            self.silence
        }
    }

    /// The dialogue after one more request.
    pub open spec fn after(self, a: Action) -> Dialog {
        Dialog { asked: self.asked.push(a), ..self }
    }
}

/// The dialogue of one run.
pub struct Exchange {
    replies: Vec<Reply>,
    silence: Reply,
    asked: Vec<Request>,
}

impl Exchange {
    pub closed spec fn view(&self) -> Dialog {
        Dialog {
            replies: self.replies@,
            silence: self.silence,
            asked: Seq::new(self.asked@.len(), |i: int| self.asked@[i]@),
        }
    }

    /// The requests of this run.
    pub closed spec fn requests(&self) -> Seq<Request> {
        self.asked@
    }

    /// A dialogue without replies.
    pub fn new() -> (r: Exchange)
        ensures
            r@.replies == Seq::<Reply>::empty(),
            r@.asked == Seq::<Action>::empty(),
            r.requests() == Seq::<Request>::empty(),
    {
        let silence: Reply = Reply { kr: -1, value: 0, output: SMCParamStruct::zeroed() };
        let r: Exchange = Exchange { replies: Vec::new(), silence, asked: Vec::new() };
        assert(r@.asked =~= Seq::<Action>::empty());
        r
    }

    /// States a request and takes its reply.
    pub fn ask(&mut self, request: Request) -> (r: Reply)
        ensures
            r == old(self)@.answer(),
            final(self)@ == old(self)@.after(request@),
            final(self).requests() == old(self).requests().push(request),
    {
        let n: usize = self.asked.len();
        let reply: Reply = if n < self.replies.len() {
            self.replies[n]
        } else {
            self.silence
        };
        self.asked.push(request);
        assert(self@.asked =~= old(self)@.asked.push(request@));
        reply
    }

    /// The first request of this run that has no reply yet.
    pub fn pending(&self) -> (r: Option<Request>)
        ensures
            r == (if self@.asked.len() > self@.replies.len() {
                Some(self.requests()[self@.replies.len() as int])
            } else {
                None
            }),
    {
        let n: usize = self.replies.len();
        if self.asked.len() > n {
            Some(self.asked[n])
        } else {
            None
        }
    }

    /// Supplies the reply to the first request that had none, and makes ready
    /// for another run.
    pub fn supply(&mut self, reply: Reply)
        ensures
            final(self)@.replies == old(self)@.replies.push(reply),
            final(self)@.silence == old(self)@.silence,
            final(self)@.asked == Seq::<Action>::empty(),
            final(self).requests() == Seq::<Request>::empty(),
    {
        self.replies.push(reply);
        self.asked = Vec::new();
        assert(self@.asked =~= Seq::<Action>::empty());
    }
}

} // verus!
