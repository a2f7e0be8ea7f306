//! The confirmation loop: turning operator replies into accept/reject
//! decisions, one candidate at a time and strictly in order.
//!
//! A reply is trimmed of surrounding whitespace; an empty reply or a `y`
//! accepts, an `n` rejects, anything else is indecisive and asks for the
//! prompt to be repeated. Reading the replies from the terminal is the
//! surrounding program's job.

use vstd::prelude::*;
use vstd::string::StrSliceExecFns;
use crate::resolve::Candidate;
use crate::text::{next_non_ws, scan_non_ws, scan_trim_end, trim_end_idx};

verus! {

/// An operator's decision on one candidate.
#[derive(Copy, Clone, Debug, PartialEq, Eq, Structural)]
pub enum Decision {
    /// Retire the candidate's revision.
    Accept,
    /// Keep the candidate's revision.
    Reject,
}

/// A reply with its surrounding whitespace removed.
pub open spec fn trimmed(s: Seq<char>) -> Seq<char> {
    let a = next_non_ws(s, 0);
    let b = trim_end_idx(s, s.len() as int);
    if a <= b {
        s.subrange(a, b)
    } else {
        Seq::empty()
    }
}

/// What a reply decides: empty or `y` accepts, `n` rejects (both
/// case-insensitively, after trimming), and anything else decides nothing.
pub open spec fn reply_of(s: Seq<char>) -> Option<Decision> {
    let t = trimmed(s);
    if t.len() == 0 {
        Some(Decision::Accept)
    } else if t.len() == 1 && (t[0] == 'y' || t[0] == 'Y') {
        Some(Decision::Accept)
    } else if t.len() == 1 && (t[0] == 'n' || t[0] == 'N') {
        Some(Decision::Reject)
    } else {
        None
    }
}

/// Parse one operator reply.
pub fn parse_reply(input: &str) -> (r: Option<Decision>)
    ensures
        r == reply_of(input@),
{
    let n = input.unicode_len();
    let a = scan_non_ws(input, 0);
    let b = scan_trim_end(input);
    if a >= b {
        return Some(Decision::Accept);
    }
    if b - a == 1 {
        let c = input.get_char(a);
        proof {
            assert(trimmed(input@)[0] == input@[a as int]);
        }
        if c == 'y' || c == 'Y' {
            return Some(Decision::Accept);
        }
        if c == 'n' || c == 'N' {
            return Some(Decision::Reject);
        }
    }
    None
}

/// The first decisive reply in `inputs` at or after `start`, with the index
/// just past it; `None` if every remaining reply is indecisive.
pub open spec fn decision_at(inputs: Seq<Seq<char>>, start: int) -> Option<(Decision, int)>
    decreases inputs.len() - start,
{
    if start < 0 || start >= inputs.len() {
        None
    } else {
        match reply_of(inputs[start]) {
            Some(d) => Some((d, start + 1)),
            None => decision_at(inputs, start + 1),
        }
    }
}

/// The views of a sequence of reply lines.
pub open spec fn line_views(v: Seq<String>) -> Seq<Seq<char>> {
    v.map_values(|s: String| s@)
}

/// Consume replies from `inputs`, starting at `start`, until one is
/// decisive; return the decision and the index just past the replies
/// consumed, or `None` if the replies run out first.
pub fn next_decision(inputs: &Vec<String>, start: usize) -> (r: Option<(Decision, usize)>)
    requires
        start <= inputs@.len(),
    ensures
        r is Some == decision_at(line_views(inputs@), start as int) is Some,
        r matches Some(p) ==> decision_at(line_views(inputs@), start as int) matches Some(q)
            && p.0 == q.0 && p.1 == q.1,
        r matches Some(p) ==> start < p.1 <= inputs@.len(),
{
    let ghost views = line_views(inputs@);
    let mut i = start;
    while i < inputs.len()
        invariant
            start <= i <= inputs@.len(),
            views == line_views(inputs@),
            views.len() == inputs@.len(),
            decision_at(views, start as int) == decision_at(views, i as int),
        decreases inputs@.len() - i,
    {
        proof {
            assert(views[i as int] == inputs@[i as int]@);
        }
        let reply = parse_reply(inputs[i].as_str());
        if let Some(d) = reply {
            return Some((d, i + 1));
        }
        i = i + 1;
    }
    None
}

/// The pairs a retirement acts on: each candidate's revision hash and its
/// upstream successor.
pub open spec fn candidate_pairs(cs: Seq<Candidate>) -> Seq<(Seq<char>, Seq<char>)> {
    cs.map_values(|c: Candidate| (c.revision.hash@, c.successor@))
}

/// The views of a sequence of retirement pairs.
pub open spec fn pair_views(v: Seq<(String, String)>) -> Seq<(Seq<char>, Seq<char>)> {
    v.map_values(|p: (String, String)| (p.0@, p.1@))
}

/// The outcome of confirming `cands` in order against the replies in
/// `inputs` from `start` on: the retirements to perform, in order, and the
/// index just past the replies consumed. Confirmation stops early when the
/// replies run out while a candidate is still undecided.
pub open spec fn confirm_outcome(
    cands: Seq<(Seq<char>, Seq<char>)>,
    inputs: Seq<Seq<char>>,
    start: int,
) -> (Seq<(Seq<char>, Seq<char>)>, int)
    decreases cands.len(),
{
    if cands.len() == 0 {
        (Seq::empty(), start)
    } else {
        match decision_at(inputs, start) {
            None => (Seq::empty(), start),
            Some(step) => {
                let rest = confirm_outcome(cands.drop_first(), inputs, step.1);
                if step.0 is Accept {
                    (seq![cands[0]] + rest.0, rest.1)
                } else {
                    rest
                }
            },
        }
    }
}

/// Confirm every candidate in order against a fixed sequence of replies;
/// return the retirements to perform, in order, and the number of replies
/// consumed. Each accepted candidate appears exactly once, as its revision
/// hash paired with its upstream successor.
pub fn confirm_all(cands: &Vec<Candidate>, inputs: &Vec<String>) -> (r: (
    Vec<(String, String)>,
    usize,
))
    ensures
        pair_views(r.0@) == confirm_outcome(candidate_pairs(cands@), line_views(inputs@), 0).0,
        r.1 as int == confirm_outcome(candidate_pairs(cands@), line_views(inputs@), 0).1,
{
    let ghost pairs = candidate_pairs(cands@);
    let ghost views = line_views(inputs@);
    let mut out: Vec<(String, String)> = Vec::new();
    let mut ci: usize = 0;
    let mut ii: usize = 0;
    let mut stuck = false;
    proof {
        assert(pairs.skip(0) =~= pairs);
        assert(pair_views(out@) =~= Seq::<(Seq<char>, Seq<char>)>::empty());
    }
    while ci < cands.len() && !stuck
        invariant
            ci <= cands@.len(),
            ii <= inputs@.len(),
            pairs == candidate_pairs(cands@),
            views == line_views(inputs@),
            pairs.len() == cands@.len(),
            confirm_outcome(pairs, views, 0).0 == pair_views(out@) + confirm_outcome(
                pairs.skip(ci as int),
                views,
                ii as int,
            ).0,
            confirm_outcome(pairs, views, 0).1 == confirm_outcome(
                pairs.skip(ci as int),
                views,
                ii as int,
            ).1,
            stuck ==> confirm_outcome(pairs.skip(ci as int), views, ii as int) == (
                Seq::<(Seq<char>, Seq<char>)>::empty(),
                ii as int,
            ),
        decreases cands@.len() - ci + (if stuck { 0int } else { 1int }),
    {
        let ghost suffix = pairs.skip(ci as int);
        proof {
            assert(suffix[0] == pairs[ci as int]);
            assert(suffix.drop_first() =~= pairs.skip(ci + 1));
        }
        match next_decision(inputs, ii) {
            None => {
                stuck = true;
            },
            Some((d, next)) => {
                if let Decision::Accept = d {
                    let hash = cands[ci].revision.hash.clone();
                    let succ = cands[ci].successor.clone();
                    let ghost old_out = out@;
                    out.push((hash, succ));
                    proof {
                        assert(pair_views(out@) =~= pair_views(old_out).push(
                            (cands@[ci as int].revision.hash@, cands@[ci as int].successor@),
                        ));
                        assert(pair_views(old_out).push(pairs[ci as int]) =~= pair_views(old_out)
                            + seq![pairs[ci as int]]);
                    }
                }
                ci = ci + 1;
                ii = next;
            },
        }
    }
    proof {
        if !stuck {
            assert(pairs.skip(ci as int) =~= Seq::<(Seq<char>, Seq<char>)>::empty());
        }
    }
    (out, ii)
}

} // verus!
