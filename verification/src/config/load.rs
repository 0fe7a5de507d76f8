//! Which configuration files are taken in.
//!
//! The file is opened once; its owner, mode and size are those of the open
//! file, and what is read comes from it too.

use super::schema::{Config, ValidationError, Violation};
use crate::text::{chars_of, decimal, push_decimal};
use vstd::prelude::*;
use vstd::string::StringExecFns;

verus! {

/// The largest configuration file, in bytes.
pub const MAX_CONFIG_SIZE: u64 = 65536;

/// What is known of an open file.
#[derive(Debug, Clone, PartialEq, Eq)]
pub struct FileFacts {
    pub owner: u32,
    /// The file's mode, with the bits of its type.
    pub mode: u32,
    pub size: u64,
    /// Where the file is, links resolved. `None` where that is not asked.
    pub resolved: Option<String>,
}

/// Why nothing is known of a file.
#[derive(Debug, Clone, PartialEq, Eq)]
pub enum OpenError {
    /// It could not be opened, and why.
    NotOpened(String),
    /// Its owner, mode and size could not be had.
    NoStatus,
}

/// Why a file that was taken in gave no configuration.
#[derive(Debug, Clone, PartialEq, Eq)]
pub enum ContentError {
    /// It could not be read, and why.
    NotRead(String),
    /// It is not of the right form: where, and how.
    NotParsed { at: usize, message: String },
}

/// A text stands at the front of another.
pub open spec fn begins(s: Seq<char>, with: Seq<char>) -> bool {
    with.len() <= s.len() && s.take(with.len() as int) == with
}

/// A place where anyone can put a file.
pub open spec fn shared_place(path: Seq<char>) -> bool {
    begins(path, "/tmp"@) || begins(path, "/var/tmp"@) || begins(path, "/private/tmp"@) || begins(
        path,
        "/private/var/tmp"@,
    )
}

/// The mode lets the group or everyone write.
pub open spec fn open_to_others(mode: nat) -> bool {
    (mode / 16) % 2 == 1 || (mode / 2) % 2 == 1
}

/// Why an open file is not taken in, if it is not.
pub open spec fn refusal(path: Seq<char>, file: FileFacts) -> Option<Violation> {
    let mode = file.mode % 4096;
    if open_to_others(mode as nat) {
        Some(Violation::UnsafePermissions { path, owner: file.owner, mode })
    } else if file.size > MAX_CONFIG_SIZE {
        Some(Violation::FileTooLarge { size_bytes: file.size })
    } else if file.resolved is Some && shared_place(file.resolved->0@) {
        Some(
            Violation::UnsafePermissions { path: file.resolved->0@, owner: file.owner, mode },
        )
    } else {
        None
    }
}

fn begins_with(s: &str, with: &str) -> (r: bool)
    ensures
        r == begins(s@, with@),
{
    let a: Vec<char> = chars_of(s);
    let b: Vec<char> = chars_of(with);
    if b.len() > a.len() {
        return false;
    }
    let mut i: usize = 0;
    while i < b.len()
        invariant
            i <= b@.len() <= a@.len(),
            a@ == s@,
            b@ == with@,
            forall|j: int| 0 <= j < i ==> a@[j] == b@[j],
        decreases b@.len() - i,
    {
        if a[i] != b[i] {
            assert(s@.take(with@.len() as int)[i as int] != with@[i as int]);
            return false;
        }
        i = i + 1;
    }
    assert(s@.take(with@.len() as int) =~= with@);
    true
}

/// Whether an open file may be read: not if others can write it, if it is too
/// large, or if it lies where anyone can put a file.
pub fn check_file(path: &str, file: &FileFacts) -> (r: Result<(), ValidationError>)
    ensures
        r is Ok <==> refusal(path@, *file) is None,
        r is Err ==> Some(r->Err_0@) == refusal(path@, *file),
{
    let mode: u32 = file.mode & 0o7777;
    let write: u32 = mode & 0o022;
    proof {
        let m = file.mode;
        assert(m & 0o7777 == m % 4096) by (bit_vector);
        assert((mode & 0o022 != 0) == ((mode / 16) % 2 == 1 || (mode / 2) % 2 == 1))
            by (bit_vector);
    }
    if write != 0 {
        return Err(
            ValidationError::UnsafePermissions { path: path.to_owned(), owner: file.owner, mode },
        );
    }
    if file.size > MAX_CONFIG_SIZE {
        return Err(ValidationError::FileTooLarge { size_bytes: file.size });
    }
    if let Some(resolved) = &file.resolved {
        let at: &str = resolved.as_str();
        if begins_with(at, "/tmp") || begins_with(at, "/var/tmp") || begins_with(at, "/private/tmp")
            || begins_with(at, "/private/var/tmp") {
            return Err(
                ValidationError::UnsafePermissions { path: at.to_owned(), owner: file.owner, mode },
            );
        }
    }
    Ok(())
}

/// What loading gives: the configuration, or why there is none. The content
/// counts only if the file may be read.
pub open spec fn loaded(
    path: Seq<char>,
    opened: Result<FileFacts, OpenError>,
    content: Result<Config, ContentError>,
) -> Result<Config, Violation> {
    match opened {
        Err(OpenError::NotOpened(why)) => Err(
            Violation::MissingRequired {
                field: "config file at "@ + path + ": "@ + why@,
                fan_index: None,
            },
        ),
        Err(OpenError::NoStatus) => Err(
            Violation::MissingRequired { field: "fstat failed on "@ + path, fan_index: None },
        ),
        Ok(file) => match refusal(path, file) {
            Some(v) => Err(v),
            None => match content {
                Err(ContentError::NotRead(why)) => Err(
                    Violation::MissingRequired {
                        field: "read failed on "@ + path + ": "@ + why@,
                        fan_index: None,
                    },
                ),
                Err(ContentError::NotParsed { at, message }) => Err(
                    Violation::TomlSyntax { line: at as nat, col: 0, message: message@ },
                ),
                Ok(config) => if config.config_version == 1 {
                    Ok(config)
                } else {
                    Err(
                        Violation::MissingRequired {
                            field: "config_version must be 1, got "@ + decimal(
                                config.config_version as nat,
                            ),
                            fan_index: None,
                        },
                    )
                },
            },
        },
    }
}

/// A result is the one that a function of the errors' texts gives.
pub open spec fn agrees(
    r: Result<Config, ValidationError>,
    with: Result<Config, Violation>,
) -> bool {
    match r {
        Ok(config) => with == Ok::<Config, Violation>(config),
        Err(e) => with == Err::<Config, Violation>(e@),
    }
}

/// Takes a configuration in.
pub fn load_config(
    path: &str,
    opened: Result<FileFacts, OpenError>,
    content: Result<Config, ContentError>,
) -> (r: Result<Config, ValidationError>)
    ensures
        agrees(r, loaded(path@, opened, content)),
{
    match opened {
        Err(OpenError::NotOpened(why)) => {
            let mut field: String = "config file at ".to_owned();
            field.append(path);
            field.append(": ");
            field.append(why.as_str());
            Err(ValidationError::MissingRequired { field, fan_index: None })
        },
        Err(OpenError::NoStatus) => {
            let mut field: String = "fstat failed on ".to_owned();
            field.append(path);
            Err(ValidationError::MissingRequired { field, fan_index: None })
        },
        Ok(file) => {
            match check_file(path, &file) {
                Err(e) => {
                    return Err(e);
                },
                Ok(()) => {},
            }
            match content {
                Err(ContentError::NotRead(why)) => {
                    let mut field: String = "read failed on ".to_owned();
                    field.append(path);
                    field.append(": ");
                    field.append(why.as_str());
                    Err(ValidationError::MissingRequired { field, fan_index: None })
                },
                Err(ContentError::NotParsed { at, message }) => Err(
                    ValidationError::TomlSyntax { line: at, col: 0, message },
                ),
                Ok(config) => {
                    if config.config_version != 1 {
                        let mut field: String = "config_version must be 1, got ".to_owned();
                        push_decimal(&mut field, config.config_version as u64);
                        return Err(ValidationError::MissingRequired { field, fan_index: None });
                    }
                    Ok(config)
                },
            }
        },
    }
}

/// A configuration that was taken in is of the known version, and came from a
/// file that no one but its owner can write, that is not too large, and that
/// does not lie where anyone can put a file.
pub proof fn law_only_safe_files_are_taken_in(
    path: Seq<char>,
    opened: Result<FileFacts, OpenError>,
    content: Result<Config, ContentError>,
)
    requires
        loaded(path, opened, content) is Ok,
    ensures
        opened is Ok,
        !open_to_others((opened->Ok_0.mode % 4096) as nat),
        opened->Ok_0.size <= MAX_CONFIG_SIZE,
        opened->Ok_0.resolved is Some ==> !shared_place(opened->Ok_0.resolved->0@),
        content is Ok,
        content->Ok_0.config_version == 1,
        loaded(path, opened, content) == Ok::<Config, Violation>(content->Ok_0),
{
}

} // verus!
