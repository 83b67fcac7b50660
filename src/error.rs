use vstd::prelude::*;

use crate::setup::Role;

verus! {

/// Every way an operation of a session, a track or a group can fail.
#[derive(Debug, Clone, PartialEq, Eq)]
pub enum ServeError {
    /// A handle was dropped or a task aborted.
    Cancel,
    /// Unknown broadcast, track or subscription id.
    NotFound,
    /// A group with this sequence is already the latest.
    Duplicate,
    /// A frame received more or fewer bytes than it declared.
    WrongSize,
    /// The peer offered these versions (first), none of which is the one
    /// supported (second).
    Version(Vec<u64>, u64),
    /// No role can be agreed on: (client, server).
    RoleIncompatible(Role, Role),
    /// A stream opened with an unexpected tag.
    UnexpectedStream(u64),
    /// The transport reset a stream with this code.
    Transport(u32),
    /// A message could not be decoded.
    Decode,
    /// A message could not be encoded.
    Encode,
}

/// The reset code that carries an error to the peer.
pub open spec fn error_code(e: ServeError) -> u32 {
    match e {
        ServeError::Cancel => 0,
        ServeError::NotFound => 404,
        ServeError::Duplicate => 409,
        ServeError::WrongSize => 413,
        ServeError::Version(_, _) => 406,
        ServeError::RoleIncompatible(_, _) => 405,
        ServeError::UnexpectedStream(_) => 400,
        ServeError::Transport(c) => c,
        ServeError::Decode => 500,
        ServeError::Encode => 501,
    }
}

/// Two errors that say the same thing: equal, with a version error compared
/// by the versions it holds.
pub open spec fn same_error(a: ServeError, b: ServeError) -> bool {
    match (a, b) {
        (ServeError::Version(x, a), ServeError::Version(y, b)) => x@ == y@ && a == b,
        _ => a == b,
    }
}

impl ServeError {
    /// A copy of the error.
    pub fn cloned(&self) -> (r: ServeError)
        ensures
            same_error(r, *self),
    {
        match self {
            ServeError::Cancel => ServeError::Cancel,
            ServeError::NotFound => ServeError::NotFound,
            ServeError::Duplicate => ServeError::Duplicate,
            ServeError::WrongSize => ServeError::WrongSize,
            ServeError::Version(v, want) => {
                let mut out: Vec<u64> = Vec::new();
                let mut i: usize = 0;
                while i < v.len()
                    invariant
                        0 <= i <= v.len(),
                        out@ == v@.subrange(0, i as int),
                    decreases v.len() - i,
                {
                    out.push(v[i]);
                    i = i + 1;
                }
                assert(out@ == v@);
                ServeError::Version(out, *want)
            },
            ServeError::RoleIncompatible(c, s) => ServeError::RoleIncompatible(*c, *s),
            ServeError::UnexpectedStream(t) => ServeError::UnexpectedStream(*t),
            ServeError::Transport(c) => ServeError::Transport(*c),
            ServeError::Decode => ServeError::Decode,
            ServeError::Encode => ServeError::Encode,
        }
    }

    /// The stream reset code for this error.
    pub fn to_code(&self) -> (r: u32)
        ensures
            r == error_code(*self),
    {
        match self {
            ServeError::Cancel => 0,
            ServeError::NotFound => 404,
            ServeError::Duplicate => 409,
            ServeError::WrongSize => 413,
            ServeError::Version(_, _) => 406,
            ServeError::RoleIncompatible(_, _) => 405,
            ServeError::UnexpectedStream(_) => 400,
            ServeError::Transport(c) => *c,
            ServeError::Decode => 500,
            ServeError::Encode => 501,
        }
    }

    /// Whether the error ends the whole session rather than one stream.
    pub fn is_fatal(&self) -> (r: bool)
        ensures
            r == (self is Version || self is RoleIncompatible),
    {
        match self {
            ServeError::Version(_, _) | ServeError::RoleIncompatible(_, _) => true,
            _ => false,
        }
    }
}

} // verus!
