//! What can go wrong while a command is served.

use vstd::prelude::*;

verus! {

/// The kinds of failure that a command can end in.
#[derive(Clone, Copy, Debug, PartialEq, Eq, Structural)]
pub enum Error {
    /// A repository or a blob is absent from the remote store.
    NotFound,
    /// The network or the ledger could not be reached.
    Unavailable,
    /// The signer may not author the transaction.
    Unauthorized,
    /// The ledger rejected a swap because the repository has moved.
    Conflict,
    /// The remote holds objects that the local repository lacks.
    Behind,
    /// A command or an address is malformed.
    Protocol,
    /// The manifest, a container and the objects do not fit together.
    Integrity,
    /// The local object database failed.
    Local,
}

impl Error {
    /// The text shown to the user for this failure.
    pub fn message(&self) -> (text: &'static str)
        ensures
            text@ == self.message_text(),
    {
        match self {
            Error::NotFound => "repository or blob not found",
            Error::Unavailable => "remote store unavailable",
            Error::Unauthorized => "signer is not authorized",
            Error::Conflict => "repository moved on the ledger; read the manifest again",
            Error::Behind => "local is behind remote; fetch first or use force",
            Error::Protocol => "malformed command",
            Error::Integrity => "object graph inconsistency",
            Error::Local => "local object database failure",
        }
    }

    /// The text of each kind.
    pub open spec fn message_text(self) -> Seq<char> {
        match self {
            Error::NotFound => "repository or blob not found"@,
            Error::Unavailable => "remote store unavailable"@,
            Error::Unauthorized => "signer is not authorized"@,
            Error::Conflict => "repository moved on the ledger; read the manifest again"@,
            Error::Behind => "local is behind remote; fetch first or use force"@,
            Error::Protocol => "malformed command"@,
            Error::Integrity => "object graph inconsistency"@,
            Error::Local => "local object database failure"@,
        }
    }
}

/// Carries a value of any printable type as an internal error.
#[derive(Debug)]
pub struct ErrorWrap<T: std::fmt::Debug>(pub T);

} // verus!
