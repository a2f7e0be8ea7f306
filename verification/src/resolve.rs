//! The landing resolver: deciding, from a bug's discussion, whether a draft
//! revision has already landed upstream and under which identifier.
//!
//! A comment announces a landing when its text starts with the upstream
//! landing URL prefix; the candidate identifier is the final path segment of
//! the comment text, accepted only if it is entirely hexadecimal. The scan
//! walks the discussion from the most recent comment backwards, so the first
//! qualifying comment found is the most recent one.

use vstd::prelude::*;
use vstd::string::StrSliceExecFns;
use crate::bz::{BugStatus, Comment, status_complete};
use crate::hg::{Revision, issue_of};
use crate::text::{has_prefix, hex_char, is_hex_digit};

verus! {

/// A draft revision paired with the upstream identifier it landed as.
#[derive(Debug)]
pub struct Candidate {
    /// The local revision that appears to have landed.
    pub revision: Revision,
    /// The upstream identifier of the landing.
    pub successor: String,
}

/// The URL prefix by which a comment announces an upstream landing.
pub open spec fn landing_prefix() -> Seq<char> {
    "https://hg.mozilla.org/mozilla-central/rev/"@
}

/// The suffix of `s` after its last `/`, or all of `s` if it has none.
pub open spec fn last_segment(s: Seq<char>) -> Seq<char>
    decreases s.len(),
{
    if s.len() == 0 {
        s
    } else if s.last() == '/' {
        Seq::empty()
    } else {
        last_segment(s.drop_last()).push(s.last())
    }
}

/// Whether every character of `s` is a hexadecimal digit.
pub open spec fn hex_only(s: Seq<char>) -> bool {
    forall|i: int| 0 <= i < s.len() ==> is_hex_digit(s[i])
}

/// The landing identifier a single comment announces, if any.
pub open spec fn comment_landing(t: Seq<char>) -> Option<Seq<char>> {
    if landing_prefix().is_prefix_of(t) && hex_only(last_segment(t)) {
        Some(last_segment(t))
    } else {
        None
    }
}

/// The landing identifier a discussion announces: that of the most recent
/// comment announcing one, the discussion being in chronological order.
pub open spec fn scan_landing(texts: Seq<Seq<char>>) -> Option<Seq<char>>
    decreases texts.len(),
{
    if texts.len() == 0 {
        None
    } else if comment_landing(texts.last()) is Some {
        comment_landing(texts.last())
    } else {
        scan_landing(texts.drop_last())
    }
}

/// The texts of a discussion's comments, in discussion order.
pub open spec fn comment_texts(cs: Seq<Comment>) -> Seq<Seq<char>> {
    cs.map_values(|c: Comment| c.raw_text@)
}

/// The whole resolution of one revision: the upstream identifier it landed
/// as, given its description, the referenced bug's status and the texts of
/// the bug's discussion. No candidate arises unless the description
/// references an issue, that issue's work is complete, and its discussion
/// announces a landing.
pub open spec fn resolution(desc: Seq<char>, status: BugStatus, texts: Seq<Seq<char>>) -> Option<
    Seq<char>,
> {
    if issue_of(desc) is None {
        None
    } else if !status_complete(status) {
        None
    } else {
        scan_landing(texts)
    }
}

pub proof fn lemma_last_segment_after_slash(s: Seq<char>, k: int)
    requires
        0 <= k < s.len(),
        s[k] == '/',
        forall|j: int| k < j < s.len() ==> s[j] != '/',
    ensures
        last_segment(s) == s.subrange(k + 1, s.len() as int),
    decreases s.len(),
{
    if k == s.len() - 1 {
        assert(last_segment(s) =~= s.subrange(k + 1, s.len() as int));
    } else {
        lemma_last_segment_after_slash(s.drop_last(), k);
        assert(last_segment(s.drop_last()).push(s.last()) =~= s.subrange(k + 1, s.len() as int));
    }
}

pub proof fn lemma_last_segment_no_slash(s: Seq<char>)
    requires
        forall|j: int| 0 <= j < s.len() ==> s[j] != '/',
    ensures
        last_segment(s) == s,
    decreases s.len(),
{
    if s.len() > 0 {
        lemma_last_segment_no_slash(s.drop_last());
        assert(last_segment(s.drop_last()).push(s.last()) =~= s);
    }
}

/// Extract the landing identifier a comment text announces, if any.
pub fn landing_in_comment(text: &str) -> (r: Option<String>)
    ensures
        r is Some == comment_landing(text@) is Some,
        r matches Some(h) ==> comment_landing(text@) matches Some(t) && h@ == t,
{
    if !has_prefix(text, "https://hg.mozilla.org/mozilla-central/rev/") {
        return None;
    }
    let n = text.unicode_len();

    // Find the start of the final path segment: just past the last '/'.
    let mut i: usize = 0;
    let mut seg: usize = 0;
    while i < n
        invariant
            i <= n,
            n == text@.len(),
            seg == 0 || (1 <= seg <= i && text@[seg - 1] == '/'),
            forall|j: int| seg <= j < i ==> text@[j] != '/',
        decreases n - i,
    {
        if text.get_char(i) == '/' {
            seg = i + 1;
        }
        i = i + 1;
    }
    proof {
        if seg == 0 {
            lemma_last_segment_no_slash(text@);
        } else {
            lemma_last_segment_after_slash(text@, seg - 1);
        }
        assert(last_segment(text@) =~= text@.subrange(seg as int, n as int));
    }

    // Accept the segment only if it is entirely hexadecimal.
    let mut j = seg;
    let mut ok = true;
    while j < n
        invariant
            seg <= j <= n,
            n == text@.len(),
            ok == (forall|t: int| seg <= t < j ==> is_hex_digit(text@[t])),
        decreases n - j,
    {
        if !hex_char(text.get_char(j)) {
            ok = false;
        }
        j = j + 1;
    }
    proof {
        let ls = last_segment(text@);
        if ok {
            assert forall|t: int| 0 <= t < ls.len() implies is_hex_digit(ls[t]) by {
                assert(ls[t] == text@[seg + t]);
            }
            assert(hex_only(ls));
        } else {
            let t0 = choose|t: int| seg <= t < n && !is_hex_digit(text@[t]);
            assert(ls[t0 - seg] == text@[t0]);
            assert(!hex_only(ls));
        }
    }
    if ok {
        Some(text.substring_char(seg, n).to_owned())
    } else {
        None
    }
}

/// Scan a discussion, most recent comment first, for a landing reference.
pub fn landing_reference(comments: &Vec<Comment>) -> (r: Option<String>)
    ensures
        r is Some == scan_landing(comment_texts(comments@)) is Some,
        r matches Some(h) ==> scan_landing(comment_texts(comments@)) matches Some(t) && h@ == t,
{
    let ghost texts = comment_texts(comments@);
    let mut i = comments.len();
    assert(texts.take(i as int) =~= texts);
    while i > 0
        invariant
            i <= comments@.len(),
            texts == comment_texts(comments@),
            texts.len() == comments@.len(),
            scan_landing(texts) == scan_landing(texts.take(i as int)),
        decreases i,
    {
        let found = landing_in_comment(comments[i - 1].raw_text.as_str());
        proof {
            assert(texts.take(i as int).last() == texts[i - 1]);
            assert(texts[i - 1] == comments@[i - 1].raw_text@);
        }
        if let Some(h) = found {
            return Some(h);
        }
        proof {
            assert(texts.take(i as int).drop_last() =~= texts.take(i - 1));
        }
        i = i - 1;
    }
    assert(texts.take(0) =~= Seq::<Seq<char>>::empty());
    None
}

/// A revision whose subject does not carry the issue keyword as its first
/// token resolves to no candidate, whatever the tracker would answer.
pub proof fn lemma_no_issue_reference_no_candidate(
    desc: Seq<char>,
    status: BugStatus,
    texts: Seq<Seq<char>>,
)
    requires
        !crate::hg::is_issue_keyword(crate::hg::first_token(crate::hg::first_line(desc))),
    ensures
        resolution(desc, status, texts) is None,
{
}

/// A revision referencing a bug whose work is not complete resolves to no
/// candidate, whatever the bug's discussion holds.
pub proof fn lemma_incomplete_status_no_candidate(
    desc: Seq<char>,
    status: BugStatus,
    texts: Seq<Seq<char>>,
)
    requires
        !status_complete(status),
    ensures
        resolution(desc, status, texts) is None,
{
}

/// The scan answers with the most recent qualifying comment: if comment `i`
/// announces a landing and no later comment does, the scan returns comment
/// `i`'s landing.
pub proof fn lemma_scan_finds_most_recent(texts: Seq<Seq<char>>, i: int)
    requires
        0 <= i < texts.len(),
        comment_landing(texts[i]) is Some,
        forall|j: int| i < j < texts.len() ==> comment_landing(texts[j]) is None,
    ensures
        scan_landing(texts) == comment_landing(texts[i]),
    decreases texts.len(),
{
    if i < texts.len() - 1 {
        lemma_scan_finds_most_recent(texts.drop_last(), i);
    }
}

/// A discussion in which no comment announces a landing yields no
/// candidate.
pub proof fn lemma_no_qualifying_comment_no_candidate(texts: Seq<Seq<char>>)
    requires
        forall|j: int| 0 <= j < texts.len() ==> comment_landing(texts[j]) is None,
    ensures
        scan_landing(texts) is None,
    decreases texts.len(),
{
    if texts.len() > 0 {
        lemma_no_qualifying_comment_no_candidate(texts.drop_last());
    }
}

/// A comment whose final path segment holds a character that is not a
/// hexadecimal digit announces no landing.
pub proof fn lemma_non_hex_segment_no_landing(t: Seq<char>, k: int)
    requires
        0 <= k < last_segment(t).len(),
        !is_hex_digit(last_segment(t)[k]),
    ensures
        comment_landing(t) is None,
{
}

} // verus!
