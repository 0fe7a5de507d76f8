//! The lock that keeps a second instance from writing.

use super::error::SmcError;
use crate::text::{
    chars_of, decimal, parse_i32, parsed_i32, push_decimal, same_text, trim_chars, trimmed,
};
use vstd::prelude::*;
use vstd::string::StringExecFns;

verus! {

/// Where the lock file is.
pub const DEFAULT_LOCKFILE_PATH: &'static str = "/var/run/fand-smc.lock";

/// `ELOOP` on macOS: the path is a symbolic link.
pub const ELOOP: i32 = 62;

/// Why the lock could not be taken. An error of the file system comes as the
/// words it has for itself.
#[derive(Debug, Clone, PartialEq, Eq)]
pub enum FlockError {
    /// Locks are not reliable on this file system.
    UnreliableFilesystem(String),
    /// The file could not be created.
    CreateFailed { permission_denied: bool, words: String },
    /// Another instance holds the lock.
    AlreadyHeld { holder_pid: Option<i32> },
    /// The path is a symbolic link.
    SymlinkRejected,
    /// The directory could not be resolved.
    CanonicalizationFailed(String),
    /// The file could not be written.
    WriteFailed(String),
}

/// File systems on which locks are not reliable.
pub open spec fn unreliable(name: Seq<char>) -> bool {
    name == "nfs"@ || name == "smbfs"@ || name == "msdos"@ || name == "exfat"@ || name == "cd9660"@
}

/// Refuses a file system on which locks are not reliable.
pub fn check_filesystem(name: &str) -> (r: Result<(), FlockError>)
    ensures
        match r {
            Ok(_) => !unreliable(name@),
            Err(FlockError::UnreliableFilesystem(s)) => unreliable(name@) && s@ == name@,
            Err(_) => false,
        },
{
    if same_text(name, "nfs") || same_text(name, "smbfs") || same_text(name, "msdos") || same_text(
        name,
        "exfat",
    ) || same_text(name, "cd9660") {
        return Err(FlockError::UnreliableFilesystem(String::from_str(name)));
    }
    Ok(())
}

/// What a failed open means.
pub fn classify_open_error(errno: i32, permission_denied: bool, words: String) -> (r: FlockError)
    ensures
        r == (if errno == ELOOP {
            FlockError::SymlinkRejected
        } else {
            FlockError::CreateFailed { permission_denied, words }
        }),
{
    if errno == ELOOP {
        FlockError::SymlinkRejected
    } else {
        FlockError::CreateFailed { permission_denied, words }
    }
}

/// The PID in the text of a lock file, if it is one. It is a hint only: the
/// file may be stale, and the number may have been given to another process.
pub fn holder_pid_in(contents: &str) -> (r: Option<i32>)
    ensures
        r == parsed_i32(trimmed(contents@)),
{
    let cs: Vec<char> = chars_of(contents);
    let t: Vec<char> = trim_chars(&cs);
    parse_i32(&t)
}

/// What a holder writes into the lock file.
pub fn lockfile_contents(pid: u32) -> (r: String)
    ensures
        r@ == decimal(pid as nat) + "\n"@,
{
    let mut s: String = String::new();
    push_decimal(&mut s, pid as u64);
    s.append("\n");
    assert(s@ =~= decimal(pid as nat) + "\n"@);
    s
}

/// The path of a conflict, with a reason behind it.
pub open spec fn path_with(before: Seq<char>, words: Seq<char>, after: Seq<char>) -> Seq<char> {
    DEFAULT_LOCKFILE_PATH@ + before + words + after
}

fn path_and(before: &str, words: &str, after: &str) -> (r: String)
    ensures
        r@ == path_with(before@, words@, after@),
{
    let mut s: String = String::from_str(DEFAULT_LOCKFILE_PATH);
    s.append(before);
    s.append(words);
    s.append(after);
    s
}

/// The error `e` reports as `r`: a conflict with a holder and a path.
pub open spec fn is_conflict(r: SmcError, pid: i32, path: Seq<char>) -> bool {
    r matches SmcError::ConflictDetected { holder_pid, lockfile_path } && holder_pid == pid
        && lockfile_path@ == path
}

/// `r` is what a failed lock means for the user. Not being allowed to create the
/// file is reported as a missing service, which is what an unprivileged user
/// sees; everything else is a conflict that says what happened to the path.
pub open spec fn reports_lock_failure(e: FlockError, r: SmcError) -> bool {
    match e {
        FlockError::AlreadyHeld { holder_pid } => is_conflict(
            r,
            match holder_pid {
                Some(p) => p,
                None => 0,
            },
            DEFAULT_LOCKFILE_PATH@,
        ),
        FlockError::SymlinkRejected => is_conflict(
            r,
            0,
            DEFAULT_LOCKFILE_PATH@
                + " (rejected — path is a symlink, FR-050 O_NOFOLLOW)"@,
        ),
        FlockError::UnreliableFilesystem(fs) => is_conflict(
            r,
            0,
            path_with(
                " (refused — filesystem '"@,
                fs@,
                "' unreliable for flock, FR-102)"@,
            ),
        ),
        FlockError::CreateFailed { permission_denied, words } => if permission_denied {
            r == SmcError::ServiceNotFound
        } else {
            is_conflict(r, 0, path_with(" (create failed: "@, words@, ")"@))
        },
        FlockError::CanonicalizationFailed(words) => is_conflict(
            r,
            0,
            path_with(" (realpath failed: "@, words@, ")"@),
        ),
        FlockError::WriteFailed(words) => is_conflict(
            r,
            0,
            path_with(" (write failed: "@, words@, ")"@),
        ),
    }
}

/// What a failed lock means for the user.
pub fn flock_error_to_smc_error(e: FlockError) -> (r: SmcError)
    ensures
        reports_lock_failure(e, r),
{
    match e {
        FlockError::AlreadyHeld { holder_pid } => SmcError::ConflictDetected {
            holder_pid: match holder_pid {
                Some(p) => p,
                None => 0,
            },
            lockfile_path: String::from_str(DEFAULT_LOCKFILE_PATH),
        },
        FlockError::SymlinkRejected => {
            let mut s: String = String::from_str(DEFAULT_LOCKFILE_PATH);
            s.append(" (rejected — path is a symlink, FR-050 O_NOFOLLOW)");
            SmcError::ConflictDetected { holder_pid: 0, lockfile_path: s }
        },
        FlockError::UnreliableFilesystem(fs) => SmcError::ConflictDetected {
            holder_pid: 0,
            lockfile_path: path_and(
                " (refused — filesystem '",
                fs.as_str(),
                "' unreliable for flock, FR-102)",
            ),
        },
        FlockError::CreateFailed { permission_denied, words } => {
            if permission_denied {
                SmcError::ServiceNotFound
            } else {
                SmcError::ConflictDetected {
                    holder_pid: 0,
                    lockfile_path: path_and(" (create failed: ", words.as_str(), ")"),
                }
            }
        },
        FlockError::CanonicalizationFailed(words) => SmcError::ConflictDetected {
            holder_pid: 0,
            lockfile_path: path_and(" (realpath failed: ", words.as_str(), ")"),
        },
        FlockError::WriteFailed(words) => SmcError::ConflictDetected {
            holder_pid: 0,
            lockfile_path: path_and(" (write failed: ", words.as_str(), ")"),
        },
    }
}

} // verus!
