//! What a signal asks for.

use vstd::prelude::*;

verus! {

/// How many of the most recent round trips are shown when they are asked for.
pub const DRAIN_RECORDS: usize = 32;

/// The signals that are handled.
#[derive(Debug, Clone, Copy, PartialEq, Eq, Structural)]
pub enum Signal {
    Term,
    Int,
    Hup,
    Info,
    Other,
}

/// What the signal thread does.
#[derive(Debug, Clone, Copy, PartialEq, Eq, Structural)]
pub enum SignalAction {
    /// Give the fans back and leave.
    Teardown,
    /// Have the configuration read again.
    RequestReload,
    /// Show the most recent round trips.
    Drain,
    /// Say that they are not shown to this sink.
    SuppressDrain,
    /// Nothing.
    Ignore,
}

/// What a signal asks for.
pub fn on_signal(signal: Signal, stderr_trusted: bool) -> (r: SignalAction)
    ensures
        r == (match signal {
            Signal::Term => SignalAction::Teardown,
            Signal::Int => SignalAction::Teardown,
            Signal::Hup => SignalAction::RequestReload,
            Signal::Info => if stderr_trusted {
                SignalAction::Drain
            } else {
                SignalAction::SuppressDrain
            },
            Signal::Other => SignalAction::Ignore,
        }),
{
    match signal {
        Signal::Term => SignalAction::Teardown,
        Signal::Int => SignalAction::Teardown,
        Signal::Hup => SignalAction::RequestReload,
        Signal::Info => if stderr_trusted {
            SignalAction::Drain
        } else {
            SignalAction::SuppressDrain
        },
        Signal::Other => SignalAction::Ignore,
    }
}

/// The exit code after a teardown by signal: whoever did the teardown leaves
/// with 0, whoever came too late leaves with 1.
pub fn teardown_exit_code(won: bool) -> (r: i32)
    ensures
        r == (if won { 0i32 } else { 1i32 }),
{
    if won {
        0
    } else {
        1
    }
}

/// What is known of the file behind a descriptor.
#[derive(Debug, Clone, Copy, PartialEq, Eq)]
pub struct FileStatus {
    pub is_tty: bool,
    pub is_regular: bool,
    pub uid: u32,
    pub mode: u32,
}

/// May the round trips be shown there? On a terminal, or in a regular file of
/// root that nobody else can write and at most its group can read.
pub open spec fn trusted(status: Option<FileStatus>) -> bool {
    match status {
        None => false,
        Some(s) => s.is_tty || (s.is_regular && s.uid == 0 && (s.mode % 512 == 0o600 || s.mode % 512
            == 0o640)),
    }
}

/// May the round trips be shown on the standard error stream? `None` if its
/// status could not be read.
pub fn stderr_is_trusted(status: Option<FileStatus>) -> (r: bool)
    ensures
        r == trusted(status),
{
    match status {
        None => false,
        Some(s) => {
            if s.is_tty {
                return true;
            }
            if !s.is_regular {
                return false;
            }
            if s.uid != 0 {
                return false;
            }
            let perm: u32 = s.mode % 512;
            perm == 0o600 || perm == 0o640
        },
    }
}

/// What the signal thread shares with the session.
#[derive(Debug, Clone, PartialEq, Eq)]
pub struct SignalThreadState {
    pub fans: Vec<u8>,
    pub reload_requested: bool,
}

} // verus!
