//! The ways a sync request or an append can fail.

use vstd::prelude::*;

verus! {

/// Why a request was given up.
#[derive(Clone, Copy, Debug, PartialEq, Eq, Structural)]
pub enum SyncError {
    /// The request's `since` token is no position.
    MalformedToken,
    /// A joined room has no current state snapshot.
    MissingSnapshot,
    /// A writer died while holding a room's lock.
    LockPoisoned,
    /// The content of a new event could not be written as JSON.
    UnwritableContent,
}

impl SyncError {
    /// Whether the caller, not the server's data, is at fault.
    pub open spec fn is_caller_error(self) -> bool {
        self == SyncError::MalformedToken
    }

    /// Whether the caller is at fault: only a malformed token is.
    pub fn caller_at_fault(&self) -> (r: bool)
        ensures
            r == self.is_caller_error(),
    {
        match self {
            SyncError::MalformedToken => true,
            _ => false,
        }
    }

    /// What to tell the log or the client.
    pub fn message(&self) -> (r: &'static str)
        ensures
            r@ == self.message_text(),
    {
        match self {
            SyncError::MalformedToken => "Invalid since token.",
            SyncError::MissingSnapshot => "All rooms have state.",
            SyncError::LockPoisoned => "A room lock is poisoned.",
            SyncError::UnwritableContent => "The event content cannot be written.",
        }
    }

    /// The text of each error.
    pub open spec fn message_text(self) -> Seq<char> {
        match self {
            SyncError::MalformedToken => "Invalid since token."@,
            SyncError::MissingSnapshot => "All rooms have state."@,
            SyncError::LockPoisoned => "A room lock is poisoned."@,
            SyncError::UnwritableContent => "The event content cannot be written."@,
        }
    }
}

} // verus!
