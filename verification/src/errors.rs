//! Failure conditions of the library.
//!
//! Every fallible operation surfaces exactly one of these.  None is handled
//! or retried internally: a stream that raises a format or protocol error is
//! unusable and should be closed by the caller.

use vstd::prelude::*;

verus! {

/// One concrete failure of a library operation.
#[derive(Clone, Copy, Debug, PartialEq, Eq, Structural)]
pub enum Error {
    /// The file service reported an open/read/write/seek failure.  Never
    /// produced by the verified core itself; reserved for the I/O layer.
    Transport,
    /// A numeric field's digit run was not followed by a single space.
    BadNumber,
    /// A record's character count exceeds the fixed maximum.
    TooLong,
    /// The mandatory newline after a record's text body was missing.
    BadFrame,
    /// The input ended in the middle of a record.
    Exhausted,
    /// A line held fewer whitespace-separated fields than required.
    ShortRead,
    /// A log record did not split into its three fields.
    Malformed,
}

/// The broad kinds of failure, as callers usually dispatch on them.
#[derive(Clone, Copy, Debug, PartialEq, Eq, Structural)]
pub enum ErrorKind {
    /// The underlying file service failed.
    Transport,
    /// The input was syntactically malformed.
    Format,
    /// The input ended before a complete record or field arrived.
    Protocol,
}

impl Error {
    /// The kind this error belongs to.
    pub open spec fn spec_kind(self) -> ErrorKind {
        match self {
            Error::Transport => ErrorKind::Transport,
            Error::BadNumber => ErrorKind::Format,
            Error::TooLong => ErrorKind::Format,
            Error::BadFrame => ErrorKind::Format,
            Error::Malformed => ErrorKind::Format,
            Error::Exhausted => ErrorKind::Protocol,
            Error::ShortRead => ErrorKind::Protocol,
        }
    }

    /// The kind this error belongs to.
    pub fn kind(&self) -> (k: ErrorKind)
        ensures
            k == self.spec_kind(),
    {
        match self {
            Error::Transport => ErrorKind::Transport,
            Error::BadNumber => ErrorKind::Format,
            Error::TooLong => ErrorKind::Format,
            Error::BadFrame => ErrorKind::Format,
            Error::Malformed => ErrorKind::Format,
            Error::Exhausted => ErrorKind::Protocol,
            Error::ShortRead => ErrorKind::Protocol,
        }
    }
}

} // verus!
