//! Character classes and index scans shared by the subject tokenizer, the
//! landing-reference scan and the reply parser.

use vstd::prelude::*;
use vstd::string::StrSliceExecFns;

verus! {

/// ASCII whitespace: the characters on which subjects are split into tokens
/// and on which operator replies are trimmed.
pub open spec fn is_ws(c: char) -> bool {
    c == ' ' || c == '\t' || c == '\n' || c == '\r' || c == '\u{c}'
}

/// ASCII hexadecimal digit.
pub open spec fn is_hex_digit(c: char) -> bool {
    (48 <= c as u32 && c as u32 <= 57)  // '0' ..= '9'
    || (97 <= c as u32 && c as u32 <= 102)  // 'a' ..= 'f'
    || (65 <= c as u32 && c as u32 <= 70)  // 'A' ..= 'F'
}

pub fn ws_char(c: char) -> (r: bool)
    ensures
        r == is_ws(c),
{
    c == ' ' || c == '\t' || c == '\n' || c == '\r' || c == '\u{c}'
}

pub fn hex_char(c: char) -> (r: bool)
    ensures
        r == is_hex_digit(c),
{
    let u = c as u32;
    (48 <= u && u <= 57) || (97 <= u && u <= 102) || (65 <= u && u <= 70)
}

/// Index of the first character at or after `i` that is not whitespace, or
/// the length of `s` if every remaining character is whitespace.
pub open spec fn next_non_ws(s: Seq<char>, i: int) -> int
    decreases s.len() - i,
{
    if i >= s.len() {
        s.len() as int
    } else if 0 <= i && is_ws(s[i]) {
        next_non_ws(s, i + 1)
    } else {
        i
    }
}

/// Index of the first character at or after `i` that is whitespace, or the
/// length of `s` if no remaining character is whitespace.
pub open spec fn next_ws(s: Seq<char>, i: int) -> int
    decreases s.len() - i,
{
    if i >= s.len() {
        s.len() as int
    } else if 0 <= i && !is_ws(s[i]) {
        next_ws(s, i + 1)
    } else {
        i
    }
}

/// Index of the first line break in `s`, or the length of `s` if it has none.
pub open spec fn line_end(s: Seq<char>, i: int) -> int
    decreases s.len() - i,
{
    if i >= s.len() {
        s.len() as int
    } else if 0 <= i && s[i] != '\n' {
        line_end(s, i + 1)
    } else {
        i
    }
}

/// Index just past the last non-whitespace character strictly before `j`,
/// or 0 if everything before `j` is whitespace.
pub open spec fn trim_end_idx(s: Seq<char>, j: int) -> int
    decreases j,
{
    if j <= 0 {
        0
    } else if j <= s.len() && is_ws(s[j - 1]) {
        trim_end_idx(s, j - 1)
    } else {
        j
    }
}

pub fn scan_non_ws(s: &str, from: usize) -> (r: usize)
    requires
        from <= s@.len(),
    ensures
        r == next_non_ws(s@, from as int),
        from <= r <= s@.len(),
{
    let n = s.unicode_len();
    let mut i = from;
    while i < n && ws_char(s.get_char(i))
        invariant
            from <= i <= n,
            n == s@.len(),
            next_non_ws(s@, from as int) == next_non_ws(s@, i as int),
        decreases n - i,
    {
        i = i + 1;
    }
    i
}

pub fn scan_ws(s: &str, from: usize) -> (r: usize)
    requires
        from <= s@.len(),
    ensures
        r == next_ws(s@, from as int),
        from <= r <= s@.len(),
{
    let n = s.unicode_len();
    let mut i = from;
    while i < n && !ws_char(s.get_char(i))
        invariant
            from <= i <= n,
            n == s@.len(),
            next_ws(s@, from as int) == next_ws(s@, i as int),
        decreases n - i,
    {
        i = i + 1;
    }
    i
}

pub fn scan_line_end(s: &str) -> (r: usize)
    ensures
        r == line_end(s@, 0),
        r <= s@.len(),
{
    let n = s.unicode_len();
    let mut i: usize = 0;
    while i < n && s.get_char(i) != '\n'
        invariant
            i <= n,
            n == s@.len(),
            line_end(s@, 0) == line_end(s@, i as int),
        decreases n - i,
    {
        i = i + 1;
    }
    i
}

pub fn scan_trim_end(s: &str) -> (r: usize)
    ensures
        r == trim_end_idx(s@, s@.len() as int),
        r <= s@.len(),
{
    let n = s.unicode_len();
    let mut j = n;
    while j > 0 && ws_char(s.get_char(j - 1))
        invariant
            j <= n,
            n == s@.len(),
            trim_end_idx(s@, n as int) == trim_end_idx(s@, j as int),
        decreases j,
    {
        j = j - 1;
    }
    j
}

/// Whether `s` begins with `prefix`.
pub fn has_prefix(s: &str, prefix: &str) -> (r: bool)
    ensures
        r == prefix@.is_prefix_of(s@),
{
    let pn = prefix.unicode_len();
    let n = s.unicode_len();
    if pn > n {
        return false;
    }
    let mut i: usize = 0;
    while i < pn
        invariant
            i <= pn <= n,
            n == s@.len(),
            pn == prefix@.len(),
            forall|j: int| 0 <= j < i ==> s@[j] == prefix@[j],
        decreases pn - i,
    {
        if s.get_char(i) != prefix.get_char(i) {
            assert(!prefix@.is_prefix_of(s@)) by {
                assert(s@.subrange(0, pn as int)[i as int] == s@[i as int]);
            }
            return false;
        }
        i = i + 1;
    }
    assert(prefix@ =~= s@.subrange(0, pn as int));
    true
}

} // verus!
