//! Byte scans shared by the delimiter-spacing rules.
//!
//! RuboCop implements these cops over tokens; the scans here recover the same
//! facts from the bytes: where the next token starts after a delimiter
//! (whitespace and `\`-newline continuations are not tokens, comments are),
//! where the previous token ends on the same line, and the `[ \t]` and
//! `[ \t]`-then-`\n` runs that RuboCop's range helpers measure. Every class
//! involved is ASCII, so byte offsets match the parser's.

use vstd::prelude::*;

verus! {

/// Ruby's `\s`: space, tab, newline, vertical tab, form feed, carriage return.
pub open spec fn spec_is_ruby_space(b: u8) -> bool {
    b == 32 || b == 9 || b == 10 || b == 11 || b == 12 || b == 13
}

/// A space or a tab.
pub open spec fn is_blank(b: u8) -> bool {
    b == 32 || b == 9
}

/// A space, a tab or a newline.
pub open spec fn is_blank_or_nl(b: u8) -> bool {
    b == 32 || b == 9 || b == 10
}

/// Ruby `/\s/` on one byte.
#[verifier::when_used_as_spec(spec_is_ruby_space)]
pub fn is_ruby_space(b: u8) -> (r: bool)
    ensures
        r == spec_is_ruby_space(b),
{
    b == 32 || b == 9 || b == 10 || b == 11 || b == 12 || b == 13
}

/// The end of the `[ \t]` run that starts at `p`.
pub open spec fn blank_run_end(s: Seq<u8>, p: int) -> int
    decreases s.len() - p,
{
    if 0 <= p < s.len() && is_blank(s[p]) { blank_run_end(s, p + 1) } else { p }
}

/// The start of the `[ \t]` run that ends at `p`.
pub open spec fn blank_run_start(s: Seq<u8>, p: int) -> int
    decreases p,
{
    if 0 < p <= s.len() && is_blank(s[p - 1]) { blank_run_start(s, p - 1) } else { p }
}

/// The end of the `[ \t\n]` run that starts at `p`.
pub open spec fn blank_nl_run_end(s: Seq<u8>, p: int) -> int
    decreases s.len() - p,
{
    if 0 <= p < s.len() && is_blank_or_nl(s[p]) { blank_nl_run_end(s, p + 1) } else { p }
}

/// The start of the `[ \t\n]` run that ends at `p`.
pub open spec fn blank_nl_run_start(s: Seq<u8>, p: int) -> int
    decreases p,
{
    if 0 < p <= s.len() && is_blank_or_nl(s[p - 1]) { blank_nl_run_start(s, p - 1) } else { p }
}

/// The start of the `\n` run that ends at `p`.
pub open spec fn nl_run_start(s: Seq<u8>, p: int) -> int
    decreases p,
{
    if 0 < p <= s.len() && s[p - 1] == 10u8 { nl_run_start(s, p - 1) } else { p }
}

/// Where the next token starts at or after `p`: Ruby whitespace and
/// `\`-newline continuations are skipped.
pub open spec fn next_token(s: Seq<u8>, p: int) -> int
    decreases s.len() - p,
{
    if p < 0 || p >= s.len() {
        p
    } else if spec_is_ruby_space(s[p]) {
        next_token(s, p + 1)
    } else if continuation_at(s, p, 2) {
        next_token(s, p + 2)
    } else if continuation_at(s, p, 3) {
        next_token(s, p + 3)
    } else {
        p
    }
}

/// The end of the last non-whitespace byte before `p`, if any.
pub open spec fn prev_nonspace(s: Seq<u8>, p: int) -> Option<int>
    decreases p,
{
    if p <= 0 || p > s.len() {
        None
    } else if spec_is_ruby_space(s[p - 1]) {
        prev_nonspace(s, p - 1)
    } else {
        Some(p)
    }
}

/// The end of the `[ \t]` run that starts at `pos`.
pub fn skip_space_right(source: &[u8], pos: usize) -> (r: usize)
    ensures
        pos <= r,
        r > pos ==> r <= source@.len(),
        forall|k: int| pos <= k < r ==> is_blank(#[trigger] source@[k]),
        r < source@.len() ==> !is_blank(source@[r as int]),
        r == blank_run_end(source@, pos as int),
{
    let mut p = pos;
    while p < source.len() && (source[p] == 32 || source[p] == 9)
        invariant
            blank_run_end(source@, p as int) == blank_run_end(source@, pos as int),
            pos <= p,
            p > pos ==> p <= source@.len(),
            forall|k: int| pos <= k < p ==> is_blank(#[trigger] source@[k]),
        decreases source@.len() - p,
    {
        p += 1;
    }
    p
}

/// The start of the `[ \t]` run that ends at `pos`.
pub fn skip_space_left(source: &[u8], pos: usize) -> (r: usize)
    ensures
        r <= pos,
        r < pos ==> pos <= source@.len(),
        forall|k: int| r <= k < pos ==> is_blank(#[trigger] source@[k]),
        r > 0 && r <= source@.len() ==> !is_blank(source@[r - 1]),
        r == blank_run_start(source@, pos as int),
{
    let mut p = pos;
    while p > 0 && p <= source.len() && (source[p - 1] == 32 || source[p - 1] == 9)
        invariant
            blank_run_start(source@, p as int) == blank_run_start(source@, pos as int),
            p <= pos,
            p < pos ==> pos <= source@.len(),
            forall|k: int| p <= k < pos ==> is_blank(#[trigger] source@[k]),
        decreases p,
    {
        p -= 1;
    }
    p
}

/// The start of the `[ \t\n]` run that ends at `pos`.
pub fn skip_space_and_newlines_left(source: &[u8], pos: usize) -> (r: usize)
    ensures
        r <= pos,
        r < pos ==> pos <= source@.len(),
        forall|k: int| r <= k < pos ==> is_blank_or_nl(#[trigger] source@[k]),
        r > 0 && r <= source@.len() ==> !is_blank_or_nl(source@[r - 1]),
        r == blank_nl_run_start(source@, pos as int),
{
    let mut p = pos;
    while p > 0 && p <= source.len() && (source[p - 1] == 32 || source[p - 1] == 9 || source[p - 1] == 10)
        invariant
            blank_nl_run_start(source@, p as int) == blank_nl_run_start(source@, pos as int),
            p <= pos,
            p < pos ==> pos <= source@.len(),
            forall|k: int| p <= k < pos ==> is_blank_or_nl(#[trigger] source@[k]),
        decreases p,
    {
        p -= 1;
    }
    p
}

/// The end of the `[ \t\n]` run that starts at `pos`.
pub fn skip_space_and_newlines_right(source: &[u8], pos: usize) -> (r: usize)
    ensures
        pos <= r,
        r > pos ==> r <= source@.len(),
        forall|k: int| pos <= k < r ==> is_blank_or_nl(#[trigger] source@[k]),
        r < source@.len() ==> !is_blank_or_nl(source@[r as int]),
        r == blank_nl_run_end(source@, pos as int),
{
    let mut p = pos;
    while p < source.len() && (source[p] == 32 || source[p] == 9 || source[p] == 10)
        invariant
            blank_nl_run_end(source@, p as int) == blank_nl_run_end(source@, pos as int),
            pos <= p,
            p > pos ==> p <= source@.len(),
            forall|k: int| pos <= k < p ==> is_blank_or_nl(#[trigger] source@[k]),
        decreases source@.len() - p,
    {
        p += 1;
    }
    p
}

/// `range_with_surrounding_space(side: :left)`: the `[ \t]` run before `pos`,
/// then the `\n` run before that.
pub fn surrounding_space_left(source: &[u8], pos: usize) -> (r: usize)
    ensures
        r <= pos,
        r < pos ==> pos <= source@.len(),
        forall|k: int| r <= k < pos ==> is_blank_or_nl(#[trigger] source@[k]),
        r == nl_run_start(source@, blank_run_start(source@, pos as int)),
{
    let mut p = skip_space_left(source, pos);
    let ghost p0 = p as int;
    while p > 0 && p <= source.len() && source[p - 1] == 10
        invariant
            nl_run_start(source@, p as int) == nl_run_start(source@, p0),
            p <= pos,
            p < pos ==> pos <= source@.len(),
            forall|k: int| p <= k < pos ==> is_blank_or_nl(#[trigger] source@[k]),
        decreases p,
    {
        p -= 1;
    }
    p
}

/// A `\`-newline (or `\`-CR-LF) continuation of `w` bytes starts at `p`.
pub open spec fn continuation_at(s: Seq<u8>, p: int, w: int) -> bool {
    &&& 0 <= p
    &&& s.len() > p
    &&& s[p] == 92u8
    &&& (w == 2 && p + 1 < s.len() && s[p + 1] == 10u8)
        || (w == 3 && p + 2 < s.len() && s[p + 1] == 13u8 && s[p + 2] == 10u8)
}

/// The start of the next token at or after `pos`, and whether a line break
/// lies between: whitespace and `\`-newline continuations are skipped, a
/// comment's `#` stops the scan.
pub fn next_token_start(source: &[u8], pos: usize) -> (r: (usize, bool))
    ensures
        pos <= r.0,
        r.0 > pos ==> r.0 <= source@.len(),
        r.0 < source@.len() ==> !spec_is_ruby_space(source@[r.0 as int])
            && !continuation_at(source@, r.0 as int, 2) && !continuation_at(source@, r.0 as int, 3),
        r.1 == (exists|k: int| pos <= k < r.0 && #[trigger] source@[k] == 10u8),
        r.0 == next_token(source@, pos as int),
{
    let mut p = pos;
    let mut crossed = false;
    loop
        invariant
            next_token(source@, p as int) == next_token(source@, pos as int),
            pos <= p,
            p > pos ==> p <= source@.len(),
            crossed == (exists|k: int| pos <= k < p && #[trigger] source@[k] == 10u8),
        decreases source@.len() - p,
    {
        if p >= source.len() {
            return (p, crossed);
        }
        let b = source[p];
        if is_ruby_space(b) {
            if b == 10 {
                crossed = true;
            }
            proof {
                if !crossed {
                    assert forall|k: int| pos <= k < p + 1 implies #[trigger] source@[k] != 10u8 by {
                        if k < p {
                            assert(!(pos <= k < p && source@[k] == 10u8));
                        }
                    }
                }
            }
            p += 1;
        } else if b == 92 && p + 1 < source.len() && source[p + 1] == 10 {
            crossed = true;
            assert(source@[p + 1] == 10u8);
            p += 2;
        } else if b == 92 && source.len() - p > 2 && source[p + 1] == 13 && source[p + 2] == 10 {
            crossed = true;
            assert(source@[p + 2] == 10u8);
            p += 3;
        } else {
            return (p, crossed);
        }
    }
}

/// The end of the token before `p` when it is on the same line; `p` itself
/// at the start of the source.
pub open spec fn prev_token_end(s: Seq<u8>, p: int) -> Option<int>
    decreases p,
{
    if p <= 0 || p > s.len() {
        Some(p)
    } else if s[p - 1] == 10u8 {
        None
    } else if spec_is_ruby_space(s[p - 1]) {
        prev_token_end(s, p - 1)
    } else {
        Some(p)
    }
}

/// The end of the previous token before `pos` when it is on the same line:
/// `[ \t\f\v\r]` is skipped going left, a `\n` gives `None`.
pub fn prev_token_end_same_line(source: &[u8], pos: usize) -> (r: Option<usize>)
    requires
        pos <= source@.len(),
    ensures
        match r {
            Some(m) => m <= pos
                && (forall|k: int| m <= k < pos ==> spec_is_ruby_space(#[trigger] source@[k]) && source@[k] != 10u8)
                && (m > 0 ==> !spec_is_ruby_space(source@[m - 1])),
            None => exists|k: int| 0 <= k < pos && source@[k] == 10u8
                && (forall|q: int| k < q < pos ==> spec_is_ruby_space(#[trigger] source@[q])),
        },
        match r {
            Some(m) => prev_token_end(source@, pos as int) == Some(m as int),
            None => prev_token_end(source@, pos as int) is None,
        },
{
    let mut p = pos;
    while p > 0
        invariant
            prev_token_end(source@, p as int) == prev_token_end(source@, pos as int),
            p <= pos <= source@.len(),
            forall|k: int| p <= k < pos ==> spec_is_ruby_space(#[trigger] source@[k]) && source@[k] != 10u8,
        decreases p,
    {
        let b = source[p - 1];
        if b == 10 {
            assert(0 <= p - 1 < pos && source@[p - 1] == 10u8);
            return None;
        }
        if is_ruby_space(b) {
            p -= 1;
        } else {
            return Some(p);
        }
    }
    Some(p)
}

/// The end of the previous non-whitespace byte run before `pos`, across lines;
/// `None` when only whitespace precedes.
pub fn prev_non_space(source: &[u8], pos: usize) -> (r: Option<usize>)
    requires
        pos <= source@.len(),
    ensures
        match r {
            Some(m) => 0 < m <= pos && !spec_is_ruby_space(source@[m - 1])
                && (forall|k: int| m <= k < pos ==> spec_is_ruby_space(#[trigger] source@[k])),
            None => forall|k: int| 0 <= k < pos ==> spec_is_ruby_space(#[trigger] source@[k]),
        },
        match r {
            Some(m) => prev_nonspace(source@, pos as int) == Some(m as int),
            None => prev_nonspace(source@, pos as int) is None,
        },
{
    let mut p = pos;
    while p > 0
        invariant
            prev_nonspace(source@, p as int) == prev_nonspace(source@, pos as int),
            p <= pos <= source@.len(),
            forall|k: int| p <= k < pos ==> spec_is_ruby_space(#[trigger] source@[k]),
        decreases p,
    {
        if is_ruby_space(source[p - 1]) {
            p -= 1;
        } else {
            return Some(p);
        }
    }
    None
}

} // verus!
