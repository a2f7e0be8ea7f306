//! Local repository revisions and the convention by which a revision subject
//! references a tracked bug.
//!
//! Listing revisions and retiring them are repository commands run by the
//! surrounding program; this module holds the revision data and the parsing
//! of its description.

use vstd::prelude::*;
use vstd::string::StrSliceExecFns;
use crate::bz::Bug;
use crate::text::{line_end, next_non_ws, next_ws, scan_line_end, scan_non_ws, scan_ws};

verus! {

/// A revision in a local repository.
#[derive(Debug)]
pub struct Revision {
    /// The entire body of the revision comment.
    pub description: String,
    /// The global identifying hash of the revision.
    pub hash: String,
}

/// The subject of a description: its first line.
pub open spec fn first_line(s: Seq<char>) -> Seq<char> {
    s.subrange(0, line_end(s, 0))
}

/// Start of the first whitespace-separated token of `s`.
pub open spec fn first_token_start(s: Seq<char>) -> int {
    next_non_ws(s, 0)
}

/// End of the first whitespace-separated token of `s`.
pub open spec fn first_token_end(s: Seq<char>) -> int {
    next_ws(s, first_token_start(s))
}

/// The first whitespace-separated token of `s`; empty if `s` is all
/// whitespace.
pub open spec fn first_token(s: Seq<char>) -> Seq<char> {
    s.subrange(first_token_start(s), first_token_end(s))
}

/// Start of the second whitespace-separated token of `s`; the length of `s`
/// if there is no second token.
pub open spec fn second_token_start(s: Seq<char>) -> int {
    next_non_ws(s, first_token_end(s))
}

/// End of the second whitespace-separated token of `s`.
pub open spec fn second_token_end(s: Seq<char>) -> int {
    next_ws(s, second_token_start(s))
}

/// The second whitespace-separated token of `s`.
pub open spec fn second_token(s: Seq<char>) -> Seq<char> {
    s.subrange(second_token_start(s), second_token_end(s))
}

/// Whether a token is the issue keyword: the word "bug", compared
/// case-insensitively.
pub open spec fn is_issue_keyword(t: Seq<char>) -> bool {
    t.len() == 3
    && (t[0] == 'b' || t[0] == 'B')
    && (t[1] == 'u' || t[1] == 'U')
    && (t[2] == 'g' || t[2] == 'G')
}

/// The issue a description references, by the subject convention: the
/// subject's first token must be the issue keyword, and its second token, if
/// any, is the issue identifier.
pub open spec fn issue_of(desc: Seq<char>) -> Option<Seq<char>> {
    let subj = first_line(desc);
    if !is_issue_keyword(first_token(subj)) {
        None
    } else if second_token_start(subj) >= subj.len() {
        None
    } else {
        Some(second_token(subj))
    }
}

impl Revision {
    /// Extract the subject of the revision from the description, defined as
    /// the first line of the description.
    pub fn subject(&self) -> (r: Option<&str>)
        ensures
            r is Some,
            r matches Some(s) ==> s@ == first_line(self.description@),
    {
        let s = self.description.as_str();
        let e = scan_line_end(s);
        Some(s.substring_char(0, e))
    }

    /// Get the bug listed in the revision subject, if any.
    pub fn bug(&self) -> (r: Option<Bug>)
        ensures
            r is Some == issue_of(self.description@) is Some,
            r matches Some(b) ==> issue_of(self.description@) matches Some(t) && b.id@ == t,
    {
        let s = self.description.as_str();
        let e = scan_line_end(s);
        let subj = s.substring_char(0, e);
        let n = subj.unicode_len();

        let a1 = scan_non_ws(subj, 0);
        let b1 = scan_ws(subj, a1);
        let ghost t1 = first_token(subj@);
        proof {
            assert(t1.len() == b1 - a1);
        }
        if b1 - a1 != 3 {
            return None;
        }
        let c0 = subj.get_char(a1);
        let c1 = subj.get_char(a1 + 1);
        let c2 = subj.get_char(a1 + 2);
        proof {
            assert(t1[0] == subj@[a1 as int]);
            assert(t1[1] == subj@[a1 + 1 as int]);
            assert(t1[2] == subj@[a1 + 2 as int]);
        }
        if !(c0 == 'b' || c0 == 'B') || !(c1 == 'u' || c1 == 'U') || !(c2 == 'g' || c2 == 'G') {
            return None;
        }

        let a2 = scan_non_ws(subj, b1);
        if a2 == n {
            return None;
        }
        let b2 = scan_ws(subj, a2);
        let id = subj.substring_char(a2, b2).to_owned();
        Some(Bug::new(id))
    }
}

} // verus!
