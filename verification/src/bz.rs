//! Issue-tracker records: the bug reference a revision carries, the bug's
//! lifecycle status, and its discussion comments.
//!
//! Fetching these records over HTTP is the surrounding program's job; the
//! types here hold what the decision logic reads of them.

use vstd::prelude::*;

verus! {

/// A reference to a tracked bug, carried by a revision subject.
#[derive(Debug)]
pub struct Bug {
    /// The ID of the bug.
    pub id: String,
}

impl Bug {
    /// Create a new bug.
    pub fn new(id: String) -> (r: Self)
        ensures
            r.id@ == id@,
    {
        Self { id }
    }
}

/// The lifecycle status of a bug, such as RESOLVED, or NEW.
#[derive(Copy, Clone, Debug, PartialEq, Eq, Structural)]
pub enum BugStatus {
    /// This bug has recently been added to the list of bugs.
    New,
    /// A resolution has been performed, and it is awaiting verification.
    Resolved,
    /// The resolution of the bug has been verified.
    Verified,
}

/// Whether a status marks the bug's work as finished: only a resolved or
/// verified bug can have had its fix land upstream.
pub open spec fn status_complete(s: BugStatus) -> bool {
    s is Resolved || s is Verified
}

impl BugStatus {
    /// Whether this status marks the bug's work as finished.
    pub fn is_complete(&self) -> (r: bool)
        ensures
            r == status_complete(*self),
    {
        match self {
            BugStatus::Resolved => true,
            BugStatus::Verified => true,
            BugStatus::New => false,
        }
    }
}

/// More detailed information about a bug.
#[derive(Debug)]
pub struct BugDetail {
    /// The status of the bug.
    pub status: BugStatus,
}

/// A comment posted on a bug, in chronological discussion order.
#[derive(Debug)]
pub struct Comment {
    /// The global ID of the comment.
    pub id: u32,
    /// The unformatted text of the comment.
    pub raw_text: String,
}

} // verus!
