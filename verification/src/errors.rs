//! Typed errors of the resolution and synchronization core.
//!
//! Collaborator failures (network, build, install, filesystem) carry their
//! description as text; the incompatibility errors carry the offending
//! version and the bound it failed, so callers can report both.
use vstd::prelude::*;
use vstd::string::StringExecFns;
use crate::strutil::append_chars;
use crate::version::{version_chars, push_version_chars, RequiresPython, Version};

verus! {

/// The kind of a low-level I/O failure, as far as the logic reads it.
#[derive(Debug)]
pub enum IoErrorKind {
    NotFound,
    Other,
}

/// A low-level I/O failure.
#[derive(Debug)]
pub struct IoError {
    pub kind: IoErrorKind,
    pub message: String,
}

/// An error of the project pipeline.
#[derive(Debug)]
pub enum ProjectError {
    /// The lockfile needs updating but updating was forbidden.
    LockMismatch,
    /// No lockfile was found where one was demanded.
    MissingLockfile,
    /// The current interpreter fails the locked Python requirement.
    LockedPythonIncompatibility(Version, RequiresPython),
    /// The discovered interpreter fails the project's Python requirement.
    RequestedPythonIncompatibility(Version, RequiresPython),
    /// Interpreter discovery failed.
    Python(String),
    /// Virtual environment creation failed.
    Virtualenv(String),
    /// The hashing policy could not be honored.
    HashStrategy(String),
    /// The platform tags of the interpreter could not be determined.
    Tags(String),
    /// A flat index could not be fetched or read.
    FlatIndex(String),
    /// The lockfile could not be read or written.
    Lock(String),
    /// Formatting user output failed.
    Fmt(String),
    /// A filesystem operation failed.
    Io(IoError),
    /// Resolution or installation failed.
    Operation(String),
    /// The members' Python requirements could not be combined.
    RequiresPython(String),
}

/// The text of the requested-interpreter incompatibility report.
pub open spec fn requested_incompatibility_text(v: Seq<u64>, floor: Seq<u64>) -> Seq<char> {
    "The requested Python interpreter ("@ + version_chars(v)
        + ") is incompatible with the project Python requirement: `>="@ + version_chars(floor)
        + "`"@
}

/// The text of the locked-requirement incompatibility report.
pub open spec fn locked_incompatibility_text(v: Seq<u64>, floor: Seq<u64>) -> Seq<char> {
    "The current Python version ("@ + version_chars(v)
        + ") is not compatible with the locked Python requirement: `>="@ + version_chars(floor)
        + "`"@
}

/// Build the requested-interpreter incompatibility report.
pub fn requested_incompatibility_message(v: &Version, bound: &RequiresPython) -> (r: String)
    ensures
        r@ == requested_incompatibility_text(v@, bound@),
{
    let mut s = String::new();
    s.append("The requested Python interpreter (");
    let mut chars: Vec<char> = Vec::new();
    push_version_chars(&mut chars, &v.parts);
    append_chars(&mut s, &chars);
    s.append(") is incompatible with the project Python requirement: `>=");
    let mut floor_chars: Vec<char> = Vec::new();
    push_version_chars(&mut floor_chars, &bound.floor.parts);
    append_chars(&mut s, &floor_chars);
    s.append("`");
    proof {
        assert(s@ =~= requested_incompatibility_text(v@, bound@));
    }
    s
}

/// Build the locked-requirement incompatibility report.
pub fn locked_incompatibility_message(v: &Version, bound: &RequiresPython) -> (r: String)
    ensures
        r@ == locked_incompatibility_text(v@, bound@),
{
    let mut s = String::new();
    s.append("The current Python version (");
    let mut chars: Vec<char> = Vec::new();
    push_version_chars(&mut chars, &v.parts);
    append_chars(&mut s, &chars);
    s.append(") is not compatible with the locked Python requirement: `>=");
    let mut floor_chars: Vec<char> = Vec::new();
    push_version_chars(&mut floor_chars, &bound.floor.parts);
    append_chars(&mut s, &floor_chars);
    s.append("`");
    proof {
        assert(s@ =~= locked_incompatibility_text(v@, bound@));
    }
    s
}

} // verus!
