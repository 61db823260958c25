//! What the `Style/TrailingCommaIn*` rules share: the styles, messages and
//! fixes, where the comma after the last item is, whether an item is a
//! heredoc, where a missing comma goes, and the check of bracketed array and
//! hash literals.
//!
//! A comma after the last item is found through whitespace (not through a
//! newline when an item is a heredoc); a comma inside a comment on that line
//! is no comma. Whether one is wanted depends on `EnforcedStyleForMultiline`:
//! never (`no_comma`), for a multi-line literal whose items and closing
//! bracket all sit on lines of their own (`comma`), for any multi-line
//! literal (`consistent_comma`), or when the last item ends its line
//! (`diff_comma`). A literal with one item whose closing bracket does not
//! begin its line counts as one line.

use vstd::prelude::*;
use crate::syntax::{SyntaxTree, tree_wf, node_wf, indices_in};
use crate::syntax::kinds;
use crate::syntax::access::{child, range, children, child_at, range_at, list_at, args_of, args_of_node};
use crate::rules::lines::{no_newline, line_start, line_start_of};

verus! {

/// `EnforcedStyleForMultiline: no_comma`.
pub const STYLE_NO_COMMA: u8 = 0;
/// `EnforcedStyleForMultiline: comma`.
pub const STYLE_COMMA: u8 = 1;
/// `EnforcedStyleForMultiline: consistent_comma`.
pub const STYLE_CONSISTENT_COMMA: u8 = 2;
/// `EnforcedStyleForMultiline: diff_comma`.
pub const STYLE_DIFF_COMMA: u8 = 3;

/// "Avoid comma ..." under `no_comma`.
pub const MSG_AVOID_NO_COMMA: u8 = 0;
/// "Avoid comma ..." under `comma`.
pub const MSG_AVOID_COMMA: u8 = 1;
/// "Avoid comma ..." under `consistent_comma`.
pub const MSG_AVOID_CONSISTENT_COMMA: u8 = 2;
/// "Avoid comma ..." under `diff_comma`.
pub const MSG_AVOID_DIFF_COMMA: u8 = 3;
/// "Put a comma ...".
pub const MSG_PUT: u8 = 4;

/// Remove the comma at the range.
pub const FIX_AVOID: u8 = 0;
/// Insert a comma after the range.
pub const FIX_PUT: u8 = 1;

/// `EnforcedStyleForMultiline` of the literal rules.
#[derive(Clone, Copy)]
pub struct Config {
    pub style: u8,
}

/// One offense: the range the fix works on, the message and the fix.
#[derive(Clone, Copy)]
pub struct TrailingCommaOffense {
    pub start_offset: usize,
    pub end_offset: usize,
    pub message: u8,
    pub fix: u8,
}

/// Ruby `\s`.
pub open spec fn is_space(b: u8) -> bool {
    b == 32u8 || b == 9u8 || b == 10u8 || b == 13u8 || b == 11u8 || b == 12u8
}

/// Positions `a` and `b` lie on one line.
pub open spec fn same_line(s: Seq<u8>, a: int, b: int) -> bool {
    if a <= b { no_newline(s, a, b) } else { no_newline(s, b, a) }
}

/// Whether `a` and `b` lie on one line.
pub fn same_line_of(s: &[u8], a: usize, b: usize) -> (r: bool)
    requires
        a <= s@.len(),
        b <= s@.len(),
    ensures
        r == same_line(s@, a as int, b as int),
{
    if a <= b { crate::rules::lines::same_line(s, a, b) } else { crate::rules::lines::same_line(s, b, a) }
}

/// The first comma of `r` from `i` on, reached through whitespace (not
/// through a newline when `heredoc`).
pub open spec fn comma_from(r: Seq<u8>, i: int, heredoc: bool) -> Option<int>
    decreases r.len() - i,
{
    if i < 0 || i >= r.len() {
        None
    } else if r[i] == 44u8 {
        Some(i)
    } else if r[i] == 10u8 && heredoc {
        None
    } else if is_space(r[i]) {
        comma_from(r, i + 1, heredoc)
    } else {
        None
    }
}

/// The position of the comma in `s[a..b]` reached through whitespace.
pub fn comma_offset(s: &[u8], a: usize, b: usize, heredoc: bool) -> (r: Option<usize>)
    requires
        a <= b <= s@.len(),
    ensures
        match comma_from(s@.subrange(a as int, b as int), 0, heredoc) {
            Some(k) => r matches Some(p) && p == a + k,
            None => r is None,
        },
        r matches Some(p) ==> a <= p < b,
{
    let ghost rr = s@.subrange(a as int, b as int);
    let mut i = a;
    while i < b
        invariant
            a <= i <= b <= s@.len(),
            rr == s@.subrange(a as int, b as int),
            comma_from(rr, 0, heredoc) == comma_from(rr, i - a, heredoc),
        decreases b - i,
    {
        let c = s[i];
        assert(rr[i - a] == c);
        if c == 44u8 {
            return Some(i);
        }
        if c == 10u8 && heredoc {
            return None;
        }
        if !(c == 32u8 || c == 9u8 || c == 10u8 || c == 13u8 || c == 11u8 || c == 12u8) {
            return None;
        }
        i += 1;
    }
    None
}

/// A comment starts on the line of `begin` before `comma`.
pub open spec fn inside_comment(s: Seq<u8>, comments: Seq<(usize, usize)>, begin: int, comma: int) -> bool {
    exists|c: int| 0 <= c < comments.len() && same_line(s, begin, #[trigger] comments[c].0 as int)
        && comments[c].0 < comma
}

/// Whether a comment starts on the line of `begin` before `comma`.
pub fn inside_comment_of(s: &[u8], comments: &Vec<(usize, usize)>, begin: usize, comma: usize) -> (r: bool)
    requires
        begin <= s@.len(),
        forall|c: int| 0 <= c < comments@.len() ==> #[trigger] comments@[c].0 <= s@.len(),
    ensures
        r == inside_comment(s@, comments@, begin as int, comma as int),
{
    let mut c: usize = 0;
    while c < comments.len()
        invariant
            c <= comments@.len(),
            begin <= s@.len(),
            forall|x: int| 0 <= x < comments@.len() ==> #[trigger] comments@[x].0 <= s@.len(),
            forall|x: int| 0 <= x < c ==> !(same_line(s@, begin as int, #[trigger] comments@[x].0 as int)
                && comments@[x].0 < comma),
        decreases comments.len() - c,
    {
        let (cs, _) = comments[c];
        if cs < comma && same_line_of(s, begin, cs) {
            return true;
        }
        c += 1;
    }
    false
}

/// The last newline of `s[a..b]`, as an offset from `a`; `0` when there is
/// none.
pub open spec fn last_newline(s: Seq<u8>, a: int, b: int) -> int
    decreases b - a,
{
    if b <= a { 0 } else if s[b - 1] == 10u8 { b - 1 - a } else { last_newline(s, a, b - 1) }
}

/// Where a missing comma goes after the item `[a, b)`: from the first
/// non-space of its last line (past its last newline) to its end.
pub open spec fn autocorrect_start(s: Seq<u8>, a: int, b: int) -> int {
    let ix = last_newline(s, a, b);
    let tail_start = a + ix;
    match first_nonspace_at(s, tail_start, b) {
        Some(q) => q,
        None => tail_start,
    }
}

/// The first position in `[p, b)` holding a non-space.
pub open spec fn first_nonspace_at(s: Seq<u8>, p: int, b: int) -> Option<int>
    decreases b - p,
{
    if p >= b { None } else if !is_space(s[p]) { Some(p) } else { first_nonspace_at(s, p + 1, b) }
}

/// Where a missing comma goes after the item `[a, b)` ([`autocorrect_start`]).
pub fn autocorrect_start_of(s: &[u8], a: usize, b: usize) -> (r: usize)
    requires
        a <= b <= s@.len(),
    ensures
        r == autocorrect_start(s@, a as int, b as int),
        a <= r <= b,
{
    let mut q = b;
    while q > a && s[q - 1] != 10u8
        invariant
            a <= q <= b <= s@.len(),
            last_newline(s@, a as int, b as int) == last_newline(s@, a as int, q as int),
        decreases q,
    {
        q -= 1;
    }
    let tail = if q > a { q - 1 } else { a };
    assert(tail == a + last_newline(s@, a as int, b as int));
    let mut p = tail;
    while p < b && (s[p] == 32u8 || s[p] == 9u8 || s[p] == 10u8 || s[p] == 13u8 || s[p] == 11u8 || s[p] == 12u8)
        invariant
            tail <= p <= b <= s@.len(),
            first_nonspace_at(s@, tail as int, b as int) == first_nonspace_at(s@, p as int, b as int),
        decreases b - p,
    {
        p += 1;
    }
    if p < b { p } else { tail }
}

/// Only spaces (not newlines) lie between the start of the line of `off` and
/// `off`.
pub open spec fn begins_its_line(s: Seq<u8>, off: int) -> bool {
    skip_line_spaces(s, line_start(s, off)) == off
}

/// Past the spaces (not newlines) from `p`.
pub open spec fn skip_line_spaces(s: Seq<u8>, p: int) -> int
    decreases s.len() - p,
{
    if 0 <= p < s.len() && s[p] != 10u8 && is_space(s[p]) { skip_line_spaces(s, p + 1) } else { p }
}

/// Whether only spaces lie between the start of the line of `off` and `off`.
pub fn begins_its_line_of(s: &[u8], off: usize) -> (r: bool)
    requires
        off <= s@.len(),
    ensures
        r == begins_its_line(s@, off as int),
{
    let ls = line_start_of(s, off);
    let mut p = ls;
    while p < s.len() && s[p] != 10u8 && (s[p] == 32u8 || s[p] == 9u8 || s[p] == 13u8 || s[p] == 11u8 || s[p] == 12u8)
        invariant
            p <= s@.len(),
            skip_line_spaces(s@, p as int) == skip_line_spaces(s@, ls as int),
            ls == line_start(s@, off as int),
        decreases s@.len() - p,
    {
        p += 1;
    }
    p == off
}

/// `/\A,?\s*(#.*)?\n/`: an optional comma, whitespace, an optional comment,
/// then a newline.
pub open spec fn comma_to_newline(r: Seq<u8>) -> bool {
    let i = if r.len() > 0 && r[0] == 44u8 { 1int } else { 0int };
    let j = skip_line_spaces(r, i);
    ||| j < r.len() && r[j] == 10u8
    ||| j < r.len() && r[j] == 35u8 && exists|q: int| j < q < r.len() && r[q] == 10u8
    ||| exists|q: int| i <= q < r.len() && r[q] == 10u8 && forall|x: int| i <= x <= q ==> is_space(#[trigger] r[x])
}

/// [`comma_to_newline`] of `s[a..b]`.
pub fn comma_to_newline_of(s: &[u8], a: usize, b: usize) -> (r: bool)
    requires
        a <= b <= s@.len(),
    ensures
        r == comma_to_newline(s@.subrange(a as int, b as int)),
{
    let ghost rr = s@.subrange(a as int, b as int);
    let i = if a < b && s[a] == 44u8 { a + 1 } else { a };
    assert(rr.len() > 0 ==> rr[0] == s@[a as int]);
    let mut j = i;
    while j < b && s[j] != 10u8 && (s[j] == 32u8 || s[j] == 9u8 || s[j] == 13u8 || s[j] == 11u8 || s[j] == 12u8)
        invariant
            a <= i <= j <= b <= s@.len(),
            rr == s@.subrange(a as int, b as int),
            skip_line_spaces(rr, (i - a) as int) == skip_line_spaces(rr, (j - a) as int),
            forall|x: int| i <= x < j ==> is_space(#[trigger] s@[x]) && s@[x] != 10u8,
        decreases b - j,
    {
        assert(rr[j - a] == s@[j as int]);
        j += 1;
    }
    assert(j < b ==> rr[j - a] == s@[j as int]);
    if j < b && s[j] == 10u8 {
        return true;
    }
    if j < b && s[j] == 35u8 {
        let mut q = j;
        while q < b && s[q] != 10u8
            invariant
                j <= q <= b <= s@.len(),
                forall|x: int| j <= x < q ==> s@[x] != 10u8,
            decreases b - q,
        {
            q += 1;
        }
        if q < b {
            assert(rr[q - a] == 10u8);
            assert(rr[j - a] == 35u8);
            assert(skip_line_spaces(rr, (j - a) as int) == (j - a) as int);
            assert((j - a) < (q - a) < rr.len());
            return true;
        }
        assert forall|x: int| (j - a) < x < rr.len() implies rr[x] != 10u8 by {
            assert(rr[x] == s@[a + x]);
        }
        // A comment with no newline after it; the whitespace run ends at `j`
        // on a `#`, so it holds no newline either.
        assert forall|x: int| (i - a) <= x < rr.len() && rr[x] == 10u8 implies
            !(forall|y: int| (i - a) <= y <= x ==> is_space(#[trigger] rr[y])) by {
            assert(x > j - a);
            assert(rr[j - a] == 35u8);
        }
        return false;
    }
    // The run of whitespace from `i` may hold a newline.
    let mut k = i;
    while k < b && (s[k] == 32u8 || s[k] == 9u8 || s[k] == 10u8 || s[k] == 13u8 || s[k] == 11u8 || s[k] == 12u8)
        invariant
            a <= i <= k <= b <= s@.len(),
            rr == s@.subrange(a as int, b as int),
            (i - a) as int == (if rr.len() > 0 && rr[0] == 44u8 { 1int } else { 0int }),
            forall|x: int| i <= x < k ==> is_space(#[trigger] s@[x]) && s@[x] != 10u8,
        decreases b - k,
    {
        if s[k] == 10u8 {
            assert(rr[k - a] == 10u8);
            assert forall|x: int| (i - a) <= x <= (k - a) implies is_space(#[trigger] rr[x]) by {
                assert(rr[x] == s@[a + x]);
            }
            return true;
        }
        k += 1;
    }
    assert forall|x: int| (i - a) <= x < rr.len() && rr[x] == 10u8 implies
        !(forall|y: int| (i - a) <= y <= x ==> is_space(#[trigger] rr[y])) by {
        assert(rr[x] == s@[a + x]);
        if x < k - a {
            assert(s@[a + x] != 10u8);
        } else {
            assert(!is_space(rr[k - a]));
        }
    }
    false
}

/// The opening of node `i`, when it is a string or command literal.
pub open spec fn literal_opening(t: SyntaxTree, i: int) -> Option<(usize, usize)> {
    let k = t.nodes@[i].kind;
    if k == kinds::STRING_NODE {
        range_at(t, i, kinds::STRING_NODE_OPENING_LOC as int)
    } else if k == kinds::INTERPOLATED_STRING_NODE {
        range_at(t, i, kinds::INTERPOLATED_STRING_NODE_OPENING_LOC as int)
    } else if k == kinds::X_STRING_NODE {
        range_at(t, i, kinds::X_STRING_NODE_OPENING_LOC as int)
    } else if k == kinds::INTERPOLATED_X_STRING_NODE {
        range_at(t, i, kinds::INTERPOLATED_X_STRING_NODE_OPENING_LOC as int)
    } else {
        None
    }
}

/// Node `i` is a heredoc literal (its opening starts `<<`).
pub open spec fn is_heredoc_literal(s: Seq<u8>, t: SyntaxTree, i: int) -> bool {
    literal_opening(t, i) matches Some((o0, o1)) && o0 + 2 <= o1 && o1 <= s.len() && s[o0 as int] == 60u8
        && s[o0 + 1] == 60u8
}

/// Node `i` is or ends in a heredoc: a heredoc literal; a call (not `&.`)
/// whose last argument, or receiver when it has no arguments, is one; a hash
/// or keyword hash whose last pair's value is one; a pair whose value is
/// one. `fuel` bounds the descent.
pub open spec fn heredoc(s: Seq<u8>, t: SyntaxTree, i: int, fuel: nat) -> bool
    decreases fuel,
{
    if fuel == 0 || !(0 <= i < t.nodes@.len()) {
        false
    } else if is_heredoc_literal(s, t, i) {
        true
    } else {
        let k = t.nodes@[i].kind;
        let f = (fuel - 1) as nat;
        if k == kinds::CALL_NODE {
            if t.nodes@[i].flags & 4u16 != 0 {
                false
            } else {
                let args = args_of(t, i, kinds::CALL_NODE_ARGUMENTS as int);
                if args.len() > 0 {
                    heredoc(s, t, args.last() as int, f)
                } else {
                    match child_at(t, i, kinds::CALL_NODE_RECEIVER as int) {
                        Some(r) => heredoc(s, t, r as int, f),
                        None => false,
                    }
                }
            }
        } else if k == kinds::HASH_NODE || k == kinds::KEYWORD_HASH_NODE {
            let els = list_at(t, i, if k == kinds::HASH_NODE { kinds::HASH_NODE_ELEMENTS as int } else {
                kinds::KEYWORD_HASH_NODE_ELEMENTS as int });
            if els.len() == 0 {
                false
            } else if t.nodes@[els.last() as int].kind == kinds::ASSOC_NODE {
                match child_at(t, els.last() as int, kinds::ASSOC_NODE_VALUE as int) {
                    Some(v) => heredoc(s, t, v as int, f),
                    None => false,
                }
            } else {
                heredoc(s, t, els.last() as int, f)
            }
        } else if k == kinds::ASSOC_NODE {
            match child_at(t, i, kinds::ASSOC_NODE_VALUE as int) {
                Some(v) => heredoc(s, t, v as int, f),
                None => false,
            }
        } else {
            false
        }
    }
}

/// [`heredoc`].
pub fn heredoc_of(s: &[u8], t: &SyntaxTree, i: usize, fuel: usize) -> (r: bool)
    requires
        tree_wf(*t),
        t.source_len == s@.len(),
    ensures
        r == heredoc(s@, *t, i as int, fuel as nat),
    decreases fuel,
{
    if fuel == 0 || i >= t.nodes.len() {
        return false;
    }
    let k = t.nodes[i].kind;
    let opening = if k == kinds::STRING_NODE {
        range(t, i, kinds::STRING_NODE_OPENING_LOC)
    } else if k == kinds::INTERPOLATED_STRING_NODE {
        range(t, i, kinds::INTERPOLATED_STRING_NODE_OPENING_LOC)
    } else if k == kinds::X_STRING_NODE {
        range(t, i, kinds::X_STRING_NODE_OPENING_LOC)
    } else if k == kinds::INTERPOLATED_X_STRING_NODE {
        range(t, i, kinds::INTERPOLATED_X_STRING_NODE_OPENING_LOC)
    } else {
        None
    };
    assert(opening == literal_opening(*t, i as int));
    match opening {
        Some((o0, o1)) => {
            if o1 >= 2 && o0 <= o1 - 2 && o1 <= s.len() && s[o0] == 60u8 && s[o0 + 1] == 60u8 {
                return true;
            }
        },
        None => {},
    }
    let f = fuel - 1;
    if k == kinds::CALL_NODE {
        if t.nodes[i].flags & 4u16 != 0 {
            false
        } else {
            match args_of_node(t, i, kinds::CALL_NODE_ARGUMENTS) {
                Some(args) => {
                    if args.len() > 0 {
                        heredoc_of(s, t, args[args.len() - 1], f)
                    } else {
                        match child(t, i, kinds::CALL_NODE_RECEIVER) {
                            Some(r) => heredoc_of(s, t, r, f),
                            None => false,
                        }
                    }
                },
                None => match child(t, i, kinds::CALL_NODE_RECEIVER) {
                    Some(r) => heredoc_of(s, t, r, f),
                    None => false,
                },
            }
        }
    } else if k == kinds::HASH_NODE || k == kinds::KEYWORD_HASH_NODE {
        let ef = if k == kinds::HASH_NODE { kinds::HASH_NODE_ELEMENTS } else { kinds::KEYWORD_HASH_NODE_ELEMENTS };
        match children(t, i, ef) {
            Some(els) => {
                if els.len() == 0 {
                    false
                } else {
                    let l = els[els.len() - 1];
                    if t.nodes[l].kind == kinds::ASSOC_NODE {
                        match child(t, l, kinds::ASSOC_NODE_VALUE) {
                            Some(v) => heredoc_of(s, t, v, f),
                            None => false,
                        }
                    } else {
                        heredoc_of(s, t, l, f)
                    }
                }
            },
            None => false,
        }
    } else if k == kinds::ASSOC_NODE {
        match child(t, i, kinds::ASSOC_NODE_VALUE) {
            Some(v) => heredoc_of(s, t, v, f),
            None => false,
        }
    } else {
        false
    }
}

/// Some item of `items` is or ends in a heredoc.
pub open spec fn any_heredoc(s: Seq<u8>, t: SyntaxTree, items: Seq<usize>) -> bool {
    exists|j: int| 0 <= j < items.len() && #[trigger] heredoc(s, t, items[j] as int, t.nodes@.len() as nat)
}

/// [`any_heredoc`].
pub fn any_heredoc_of(s: &[u8], t: &SyntaxTree, items: &Vec<usize>) -> (r: bool)
    requires
        tree_wf(*t),
        t.source_len == s@.len(),
    ensures
        r == any_heredoc(s@, *t, items@),
{
    let mut j: usize = 0;
    while j < items.len()
        invariant
            tree_wf(*t),
            t.source_len == s@.len(),
            j <= items@.len(),
            forall|x: int| 0 <= x < j ==> !#[trigger] heredoc(s@, *t, items@[x] as int, t.nodes@.len() as nat),
        decreases items.len() - j,
    {
        if heredoc_of(s, t, items[j], t.nodes.len()) {
            return true;
        }
        j += 1;
    }
    false
}

/// The message of an unwanted comma under `style`.
pub open spec fn avoid_message(style: u8) -> u8 {
    if style == STYLE_COMMA {
        MSG_AVOID_COMMA
    } else if style == STYLE_CONSISTENT_COMMA {
        MSG_AVOID_CONSISTENT_COMMA
    } else if style == STYLE_DIFF_COMMA {
        MSG_AVOID_DIFF_COMMA
    } else {
        MSG_AVOID_NO_COMMA
    }
}

/// [`avoid_message`].
pub fn avoid_message_of(style: u8) -> (r: u8)
    ensures
        r == avoid_message(style),
{
    if style == STYLE_COMMA {
        MSG_AVOID_COMMA
    } else if style == STYLE_CONSISTENT_COMMA {
        MSG_AVOID_CONSISTENT_COMMA
    } else if style == STYLE_DIFF_COMMA {
        MSG_AVOID_DIFF_COMMA
    } else {
        MSG_AVOID_NO_COMMA
    }
}

/// The items of a literal lie in the source and its closing bracket at `cs`
/// after them.
pub open spec fn literal_fits(s: Seq<u8>, t: SyntaxTree, elems: Seq<usize>, ns: usize, ne: usize, cs: usize) -> bool {
    &&& elems.len() > 0
    &&& indices_in(elems, t.nodes@.len() as nat)
    &&& ns <= ne <= s.len()
    &&& t.nodes@[elems.last() as int].end <= cs <= s.len()
}

/// The literal `[ns, ne)` with items `elems` and closing bracket at `cs`
/// spans lines (and is not a single item whose bracket trails it).
pub open spec fn literal_multiline(s: Seq<u8>, t: SyntaxTree, elems: Seq<usize>, ns: usize, ne: usize, cs: usize)
    -> bool
{
    !same_line(s, ns as int, ne as int) && !(elems.len() == 1 && !begins_its_line(s, cs as int))
}

/// No two consecutive items, nor the last item and the closing bracket at
/// `cs`, share a line.
pub open spec fn literal_items_apart(s: Seq<u8>, t: SyntaxTree, elems: Seq<usize>, cs: usize) -> bool {
    &&& forall|j: int| 0 <= j < elems.len() - 1 ==> !same_line(s, t.nodes@[#[trigger] elems[j] as int].end as int,
        t.nodes@[elems[j + 1] as int].start as int)
    &&& !same_line(s, t.nodes@[elems.last() as int].end as int, cs as int)
}

/// The style wants a comma after the last item of the literal.
pub open spec fn literal_wants_comma(s: Seq<u8>, t: SyntaxTree, style: u8, elems: Seq<usize>, ns: usize, ne: usize,
    cs: usize) -> bool
{
    let ml = literal_multiline(s, t, elems, ns, ne, cs);
    if style == STYLE_COMMA {
        ml && literal_items_apart(s, t, elems, cs)
    } else if style == STYLE_CONSISTENT_COMMA {
        ml
    } else if style == STYLE_DIFF_COMMA {
        let last_end = t.nodes@[elems.last() as int].end;
        ml && last_end <= ne && comma_to_newline(s.subrange(last_end as int, ne as int))
    } else {
        false
    }
}

/// The "put a comma" offense after the item `l`.
pub open spec fn put_offense(s: Seq<u8>, t: SyntaxTree, l: int) -> TrailingCommaOffense {
    let nd = t.nodes@[l];
    TrailingCommaOffense {
        start_offset: autocorrect_start(s, nd.start as int, nd.end as int) as usize,
        end_offset: nd.end,
        message: MSG_PUT,
        fix: FIX_PUT,
    }
}

/// The offense of a bracketed literal `[ns, ne)` with items `elems` and
/// closing bracket at `cs`, if any.
pub open spec fn literal_offense(s: Seq<u8>, t: SyntaxTree, style: u8, elems: Seq<usize>, ns: usize, ne: usize,
    cs: usize) -> Option<TrailingCommaOffense>
{
    if !literal_fits(s, t, elems, ns, ne, cs) {
        None
    } else {
        let last = elems.last() as int;
        let begin = t.nodes@[last].end;
        let wants = literal_wants_comma(s, t, style, elems, ns, ne, cs);
        match comma_from(s.subrange(begin as int, cs as int), 0, any_heredoc(s, t, elems)) {
            Some(off) => {
                let cp = begin + off;
                if !inside_comment(s, t.comments@, begin as int, cp) {
                    if wants {
                        None
                    } else {
                        Some(TrailingCommaOffense {
                            start_offset: cp as usize, end_offset: (cp + 1) as usize, message: avoid_message(style),
                            fix: FIX_AVOID,
                        })
                    }
                } else if wants {
                    Some(put_offense(s, t, last))
                } else {
                    None
                }
            },
            None => if wants { Some(put_offense(s, t, last)) } else { None },
        }
    }
}

/// Whether the literal's items and closing bracket sit on lines of their own
/// ([`literal_items_apart`]).
fn items_apart_of(s: &[u8], t: &SyntaxTree, elems: &Vec<usize>, cs: usize) -> (r: bool)
    requires
        tree_wf(*t),
        t.source_len == s@.len(),
        elems@.len() > 0,
        indices_in(elems@, t.nodes@.len() as nat),
        cs <= s@.len(),
    ensures
        r == literal_items_apart(s@, *t, elems@, cs),
{
    let n = elems.len();
    let mut j: usize = 0;
    while j + 1 < n
        invariant
            tree_wf(*t),
            t.source_len == s@.len(),
            n == elems@.len(),
            n > 0,
            j < n,
            indices_in(elems@, t.nodes@.len() as nat),
            forall|x: int| 0 <= x < j ==> !same_line(s@, t.nodes@[#[trigger] elems@[x] as int].end as int,
                t.nodes@[elems@[x + 1] as int].start as int),
        decreases n - j,
    {
        let a = elems[j];
        let b = elems[j + 1];
        assert(node_wf(*t, a as int, t.source_len as nat));
        assert(node_wf(*t, b as int, t.source_len as nat));
        if same_line_of(s, t.nodes[a].end, t.nodes[b].start) {
            return false;
        }
        j += 1;
    }
    let l = elems[n - 1];
    assert(node_wf(*t, l as int, t.source_len as nat));
    !same_line_of(s, t.nodes[l].end, cs)
}

/// [`put_offense`].
pub fn put_offense_of(s: &[u8], t: &SyntaxTree, l: usize) -> (r: TrailingCommaOffense)
    requires
        tree_wf(*t),
        t.source_len == s@.len(),
        l < t.nodes@.len(),
    ensures
        r == put_offense(s@, *t, l as int),
{
    assert(node_wf(*t, l as int, t.source_len as nat));
    let a = autocorrect_start_of(s, t.nodes[l].start, t.nodes[l].end);
    TrailingCommaOffense { start_offset: a, end_offset: t.nodes[l].end, message: MSG_PUT, fix: FIX_PUT }
}

/// [`literal_offense`].
pub fn literal_offense_of(s: &[u8], t: &SyntaxTree, style: u8, elems: &Vec<usize>, ns: usize, ne: usize, cs: usize)
    -> (r: Option<TrailingCommaOffense>)
    requires
        tree_wf(*t),
        t.source_len == s@.len(),
        indices_in(elems@, t.nodes@.len() as nat),
    ensures
        r == literal_offense(s@, *t, style, elems@, ns, ne, cs),
{
    if elems.len() == 0 || !(ns <= ne && ne <= s.len()) {
        return None;
    }
    let last = elems[elems.len() - 1];
    assert(node_wf(*t, last as int, t.source_len as nat));
    let begin = t.nodes[last].end;
    if !(begin <= cs && cs <= s.len()) {
        return None;
    }
    let ml = !same_line_of(s, ns, ne) && !(elems.len() == 1 && !begins_its_line_of(s, cs));
    let wants = if style == STYLE_COMMA {
        ml && items_apart_of(s, t, elems, cs)
    } else if style == STYLE_CONSISTENT_COMMA {
        ml
    } else if style == STYLE_DIFF_COMMA {
        ml && begin <= ne && comma_to_newline_of(s, begin, ne)
    } else {
        false
    };
    assert(wants == literal_wants_comma(s@, *t, style, elems@, ns, ne, cs));
    let h = any_heredoc_of(s, t, elems);
    match comma_offset(s, begin, cs, h) {
        Some(cp) => {
            proof {
                assert forall|c: int| 0 <= c < t.comments@.len() implies #[trigger] t.comments@[c].0 <= s@.len() by {}
            }
            if !inside_comment_of(s, &t.comments, begin, cp) {
                if wants {
                    None
                } else {
                    Some(TrailingCommaOffense { start_offset: cp, end_offset: cp + 1, message: avoid_message_of(style),
                        fix: FIX_AVOID })
                }
            } else if wants {
                Some(put_offense_of(s, t, last))
            } else {
                None
            }
        },
        None => if wants { Some(put_offense_of(s, t, last)) } else { None },
    }
}

/// Whatever the style, a comma after the last item of a literal that lies
/// on one line, and not inside a comment, is an offense whose fix removes
/// it.
pub proof fn one_line_literal_comma_is_offense(s: Seq<u8>, t: SyntaxTree, style: u8, elems: Seq<usize>, ns: usize,
    ne: usize, cs: usize)
    requires
        literal_fits(s, t, elems, ns, ne, cs),
        same_line(s, ns as int, ne as int),
        comma_from(s.subrange(t.nodes@[elems.last() as int].end as int, cs as int), 0, any_heredoc(s, t, elems)) is Some,
        !inside_comment(s, t.comments@, t.nodes@[elems.last() as int].end as int, t.nodes@[elems.last() as int].end
            + comma_from(s.subrange(t.nodes@[elems.last() as int].end as int, cs as int), 0, any_heredoc(s, t,
            elems))->0),
    ensures
        literal_offense(s, t, style, elems, ns, ne, cs) matches Some(o) && o.fix == FIX_AVOID && o.message
            == avoid_message(style) && o.end_offset == o.start_offset + 1,
{
    let begin = t.nodes@[elems.last() as int].end;
    lemma_comma_from_bounds(s.subrange(begin as int, cs as int), 0, any_heredoc(s, t, elems));
}

/// The comma found from `i` lies at or after `i`, inside `r`.
proof fn lemma_comma_from_bounds(r: Seq<u8>, i: int, h: bool)
    requires
        comma_from(r, i, h) is Some,
    ensures
        i <= comma_from(r, i, h)->0 < r.len(),
    decreases r.len() - i,
{
    if r[i] != 44u8 {
        lemma_comma_from_bounds(r, i + 1, h);
    }
}

/// Under `no_comma` the only offense of a literal is a comma to remove.
pub proof fn no_comma_literal_only_removes(s: Seq<u8>, t: SyntaxTree, elems: Seq<usize>, ns: usize, ne: usize,
    cs: usize)
    ensures
        literal_offense(s, t, STYLE_NO_COMMA, elems, ns, ne, cs) matches Some(o) ==> o.fix == FIX_AVOID && o.message
            == MSG_AVOID_NO_COMMA,
{
}

/// With a heredoc among the items, the comma after the last item is found
/// on that item's line only: no newline lies between them.
pub proof fn heredoc_comma_stays_on_its_line(r: Seq<u8>, i: int)
    requires
        comma_from(r, i, true) is Some,
    ensures
        i <= comma_from(r, i, true)->0 < r.len(),
        r[comma_from(r, i, true)->0] == 44u8,
        forall|q: int| i <= q < comma_from(r, i, true)->0 ==> r[q] != 10u8,
    decreases r.len() - i,
{
    if r[i] != 44u8 {
        heredoc_comma_stays_on_its_line(r, i + 1);
    }
}

} // verus!
