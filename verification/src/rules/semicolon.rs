//! `Style/Semicolon`: the semicolons found line by line.
//!
//! A semicolon token is a `;` byte outside the opaque regions (comments, the
//! `__END__` section and the regions a caller passes). Each line gets at
//! most one offense, the first of these patterns that applies:
//!
//! 1. the last non-space byte of the line is a `;` (the last token);
//! 2. the first non-space byte of the line is a `;`;
//! 3. the line ends in `; }` where the `}` closes no interpolation;
//! 4. a `;` follows, through spaces, a `{` or `#{` that opens a block, a
//!    lambda, `BEGIN`/`END` or an interpolation whose head is the first
//!    token(s) of the line;
//! 5. a `;` precedes, through spaces, an interpolation's `}` that is
//!    directly followed by its string's closing delimiter and the end of the
//!    line.

use vstd::prelude::*;
use crate::syntax::{SyntaxTree, tree_wf};
use crate::syntax::kinds;
use crate::syntax::access::{child, range, children, args_of_node, child_at, range_at, list_at, args_of};
use crate::syntax::flatten::{parse_tree, check_tree, tree_of};
use crate::syntax::walk::{walk_events, walk, Event, events_in};
use crate::rules::lines::{line_start, line_start_of};
use crate::rules::space_inside_parens::{masked, tree_masks};

verus! {

/// One semicolon offense: its offset, and whether it is the last token of
/// its line (pattern 1).
#[derive(Clone, Copy)]
pub struct PathAOffense {
    pub offset: usize,
    pub last_token: bool,
}

/// A space within a line: `[ \t\f\v\r]`.
pub open spec fn is_line_space(b: u8) -> bool {
    b == 32u8 || b == 9u8 || b == 12u8 || b == 11u8 || b == 13u8
}

/// Past the spaces from `p`, within the source.
pub open spec fn skip_spaces(s: Seq<u8>, p: int) -> int
    decreases s.len() - p,
{
    if 0 <= p < s.len() && is_line_space(s[p]) { skip_spaces(s, p + 1) } else { p }
}

/// The first non-space byte of the line of `pos`.
pub open spec fn line_first_nonspace(s: Seq<u8>, pos: int) -> int {
    skip_spaces(s, line_start(s, pos))
}

/// `[a, b)` holds spaces only.
pub open spec fn all_spaces(s: Seq<u8>, a: int, b: int) -> bool {
    a <= b && forall|k: int| a <= k < b ==> is_line_space(#[trigger] s[k])
}

/// The byte at `o` is a `{`.
pub open spec fn brace_at(s: Seq<u8>, o: int) -> bool {
    0 <= o < s.len() && s[o] == 123u8
}

/// The openers that call `i` puts at the head of its line: a `foo {` block
/// or a `foo -> {` lambda argument, for a call without receiver nor
/// parentheses whose name starts its line.
pub open spec fn call_openers(s: Seq<u8>, t: SyntaxTree, i: int) -> Seq<usize> {
    if child_at(t, i, kinds::CALL_NODE_RECEIVER as int) is Some || range_at(t, i, kinds::CALL_NODE_OPENING_LOC as int)
        is Some {
        Seq::empty()
    } else {
        match range_at(t, i, kinds::CALL_NODE_MESSAGE_LOC as int) {
            Some((m0, m1)) => if m0 != line_first_nonspace(s, m0 as int) {
                Seq::empty()
            } else if child_at(t, i, kinds::CALL_NODE_ARGUMENTS as int) is None {
                match child_at(t, i, kinds::CALL_NODE_BLOCK as int) {
                    Some(b) => if t.nodes@[b as int].kind == kinds::BLOCK_NODE {
                        match range_at(t, b as int, kinds::BLOCK_NODE_OPENING_LOC as int) {
                            Some((o0, o1)) => if brace_at(s, o0 as int) && all_spaces(s, m1 as int, o0 as int) {
                                seq![o1]
                            } else {
                                Seq::empty()
                            },
                            None => Seq::empty(),
                        }
                    } else {
                        Seq::empty()
                    },
                    None => Seq::empty(),
                }
            } else {
                let a = args_of(t, i, kinds::CALL_NODE_ARGUMENTS as int);
                if a.len() > 0 && t.nodes@[a[0] as int].kind == kinds::LAMBDA_NODE {
                    match (range_at(t, a[0] as int, kinds::LAMBDA_NODE_OPERATOR_LOC as int), range_at(t, a[0] as int,
                        kinds::LAMBDA_NODE_OPENING_LOC as int)) {
                        (Some((p0, p1)), Some((o0, o1))) => if brace_at(s, o0 as int) && all_spaces(s, m1 as int,
                            p0 as int) && all_spaces(s, p1 as int, o0 as int) {
                            seq![o1]
                        } else {
                            Seq::empty()
                        },
                        _ => Seq::empty(),
                    }
                } else {
                    Seq::empty()
                }
            },
            None => Seq::empty(),
        }
    }
}

/// The opener of a `-> {` lambda or a `BEGIN {` / `END {` block whose
/// keyword starts its line.
pub open spec fn keyword_opener(s: Seq<u8>, kw: Option<(usize, usize)>, open: Option<(usize, usize)>) -> Seq<usize> {
    match (kw, open) {
        (Some((k0, k1)), Some((o0, o1))) => if brace_at(s, o0 as int) && k0 == line_first_nonspace(s, k0 as int)
            && all_spaces(s, k1 as int, o0 as int) {
            seq![o1]
        } else {
            Seq::empty()
        },
        _ => Seq::empty(),
    }
}

/// The `#{` opener of an interpolated string that starts its line with an
/// interpolation.
pub open spec fn istring_opener(s: Seq<u8>, t: SyntaxTree, i: int) -> Seq<usize> {
    let parts = list_at(t, i, kinds::INTERPOLATED_STRING_NODE_PARTS as int);
    match range_at(t, i, kinds::INTERPOLATED_STRING_NODE_OPENING_LOC as int) {
        Some((o0, o1)) => if o0 == line_first_nonspace(s, o0 as int) && parts.len() > 0 && t.nodes@[parts[0] as int].kind
            == kinds::EMBEDDED_STATEMENTS_NODE {
            match range_at(t, parts[0] as int, kinds::EMBEDDED_STATEMENTS_NODE_OPENING_LOC as int) {
                Some((e0, e1)) => if e0 == o1 { seq![e1] } else { Seq::empty() },
                None => Seq::empty(),
            }
        } else {
            Seq::empty()
        },
        None => Seq::empty(),
    }
}

/// The openers node `i` contributes.
pub open spec fn node_openers(s: Seq<u8>, t: SyntaxTree, i: int) -> Seq<usize> {
    let k = t.nodes@[i].kind;
    if k == kinds::CALL_NODE {
        call_openers(s, t, i)
    } else if k == kinds::LAMBDA_NODE {
        keyword_opener(s, range_at(t, i, kinds::LAMBDA_NODE_OPERATOR_LOC as int), range_at(t, i,
            kinds::LAMBDA_NODE_OPENING_LOC as int))
    } else if k == kinds::PRE_EXECUTION_NODE {
        keyword_opener(s, range_at(t, i, kinds::PRE_EXECUTION_NODE_KEYWORD_LOC as int), range_at(t, i,
            kinds::PRE_EXECUTION_NODE_OPENING_LOC as int))
    } else if k == kinds::POST_EXECUTION_NODE {
        keyword_opener(s, range_at(t, i, kinds::POST_EXECUTION_NODE_KEYWORD_LOC as int), range_at(t, i,
            kinds::POST_EXECUTION_NODE_OPENING_LOC as int))
    } else if k == kinds::INTERPOLATED_STRING_NODE {
        istring_opener(s, t, i)
    } else {
        Seq::empty()
    }
}

/// The position of the `}` of interpolation `i`.
pub open spec fn node_dends(t: SyntaxTree, i: int) -> Seq<usize> {
    if t.nodes@[i].kind == kinds::EMBEDDED_STATEMENTS_NODE {
        match range_at(t, i, kinds::EMBEDDED_STATEMENTS_NODE_CLOSING_LOC as int) {
            Some((c0, _)) => seq![c0],
            None => Seq::empty(),
        }
    } else {
        Seq::empty()
    }
}

/// For an interpolated string whose last part is an interpolation closed
/// right before the string's closing delimiter: that `}` and the end of the
/// delimiter.
pub open spec fn node_closers(t: SyntaxTree, i: int) -> Seq<(usize, usize)> {
    let parts = list_at(t, i, kinds::INTERPOLATED_STRING_NODE_PARTS as int);
    if t.nodes@[i].kind != kinds::INTERPOLATED_STRING_NODE {
        Seq::empty()
    } else {
        match range_at(t, i, kinds::INTERPOLATED_STRING_NODE_CLOSING_LOC as int) {
            Some((c0, c1)) => if parts.len() > 0 && t.nodes@[parts.last() as int].kind == kinds::EMBEDDED_STATEMENTS_NODE {
                match range_at(t, parts.last() as int, kinds::EMBEDDED_STATEMENTS_NODE_CLOSING_LOC as int) {
                    Some((d0, d1)) => if d1 == c0 { seq![(d0, c1)] } else { Seq::empty() },
                    None => Seq::empty(),
                }
            } else {
                Seq::empty()
            },
            None => Seq::empty(),
        }
    }
}

/// What the walk collects: the openers, the interpolation ends and the
/// closers.
pub struct Facts {
    pub openers: Seq<usize>,
    pub dends: Seq<usize>,
    pub closers: Seq<(usize, usize)>,
}

/// The facts of the nodes entered in the first `k` events.
pub open spec fn facts_upto(s: Seq<u8>, t: SyntaxTree, evs: Seq<Event>, k: int) -> Facts
    decreases k,
{
    if k <= 0 {
        Facts { openers: Seq::empty(), dends: Seq::empty(), closers: Seq::empty() }
    } else {
        let f = facts_upto(s, t, evs, k - 1);
        match evs[k - 1] {
            Event::Enter(i) => if i < t.nodes@.len() {
                Facts {
                    openers: f.openers + node_openers(s, t, i as int),
                    dends: f.dends + node_dends(t, i as int),
                    closers: f.closers + node_closers(t, i as int),
                }
            } else {
                f
            },
            _ => f,
        }
    }
}

/// The end of the delimiter after the interpolation `}` at `b`, by the
/// last closer collected for it.
pub open spec fn closer_of(closers: Seq<(usize, usize)>, b: usize) -> Option<usize>
    decreases closers.len(),
{
    if closers.len() == 0 {
        None
    } else if closers.last().0 == b {
        Some(closers.last().1)
    } else {
        closer_of(closers.drop_last(), b)
    }
}

/// The last non-space position in `[a, b)`.
pub open spec fn last_nonspace(s: Seq<u8>, a: int, b: int) -> Option<int>
    decreases b - a,
{
    if b <= a {
        None
    } else if !is_line_space(s[b - 1]) {
        Some(b - 1)
    } else {
        last_nonspace(s, a, b - 1)
    }
}

/// The first non-space position in `[a, b)`.
pub open spec fn first_nonspace(s: Seq<u8>, a: int, b: int) -> Option<int>
    decreases b - a,
{
    if b <= a {
        None
    } else if !is_line_space(s[a]) {
        Some(a)
    } else {
        first_nonspace(s, a + 1, b)
    }
}

/// A semicolon token at `p`.
pub open spec fn semi_at(s: Seq<u8>, masks: Seq<(usize, usize)>, p: int) -> bool {
    s[p] == 59u8 && !masked(masks, p)
}

/// Back from `i` over the spaces, not past `ls`.
pub open spec fn spaces_back(s: Seq<u8>, ls: int, i: int) -> int
    decreases i - ls,
{
    if i > ls && is_line_space(s[i - 1]) { spaces_back(s, ls, i - 1) } else { i }
}

/// Forward from `i` over the spaces, not past `le`.
pub open spec fn spaces_fwd(s: Seq<u8>, i: int, le: int) -> int
    decreases le - i,
{
    if i < le && is_line_space(s[i]) { spaces_fwd(s, i + 1, le) } else { i }
}

/// The `;` at `i` follows a collected opener (pattern 4).
pub open spec fn after_opener(s: Seq<u8>, f: Facts, ls: int, i: int) -> bool {
    f.openers.contains(spaces_back(s, ls, i) as usize)
}

/// The `;` at `i` precedes an interpolation end that closes its string at
/// the end of the line (pattern 5).
pub open spec fn before_closer(s: Seq<u8>, f: Facts, i: int, le: int) -> bool {
    let b = spaces_fwd(s, i + 1, le);
    &&& b < le
    &&& s[b] == 125u8
    &&& f.dends.contains(b as usize)
    &&& closer_of(f.closers, b as usize) matches Some(ce) && all_spaces(s, ce as int, le)
}

/// The first `;` in `[a, le)` that follows a collected opener.
pub open spec fn first_after_opener(s: Seq<u8>, masks: Seq<(usize, usize)>, f: Facts, ls: int, a: int, le: int) -> Option<
    int,
>
    decreases le - a,
{
    if a >= le {
        None
    } else if semi_at(s, masks, a) && after_opener(s, f, ls, a) {
        Some(a)
    } else {
        first_after_opener(s, masks, f, ls, a + 1, le)
    }
}

/// The first `;` in `[a, le)` that precedes a closing interpolation end.
pub open spec fn first_before_closer(s: Seq<u8>, masks: Seq<(usize, usize)>, f: Facts, a: int, le: int) -> Option<int>
    decreases le - a,
{
    if a >= le {
        None
    } else if semi_at(s, masks, a) && before_closer(s, f, a, le) {
        Some(a)
    } else {
        first_before_closer(s, masks, f, a + 1, le)
    }
}

/// A semicolon token lies in `[ls, le)`.
pub open spec fn has_semi(s: Seq<u8>, masks: Seq<(usize, usize)>, ls: int, le: int) -> bool {
    exists|i: int| ls <= i < le && #[trigger] semi_at(s, masks, i)
}

/// The line's last non-space byte `rightmost` is a `}` that closes no
/// interpolation, right after a semicolon token (pattern 3).
pub open spec fn closing_brace_after_semi(s: Seq<u8>, masks: Seq<(usize, usize)>, f: Facts, ls: int,
    rightmost: Option<int>) -> bool {
    match rightmost {
        Some(r) => {
            &&& s[r] == 125u8
            &&& !masked(masks, r)
            &&& !f.dends.contains(r as usize)
            &&& match last_nonspace(s, ls, r) {
                Some(q) => semi_at(s, masks, q),
                None => false,
            }
        },
        None => false,
    }
}

/// The offense of the line `[ls, le)`, if any: the first pattern that
/// applies.
pub open spec fn line_offense(s: Seq<u8>, masks: Seq<(usize, usize)>, f: Facts, ls: int, le: int) -> Option<
    (usize, bool),
> {
    let rightmost = last_nonspace(s, ls, le);
    let leftmost = first_nonspace(s, ls, le);
    if !has_semi(s, masks, ls, le) {
        None
    } else if rightmost matches Some(r) && semi_at(s, masks, r) {
        Some((rightmost->0 as usize, true))
    } else if leftmost matches Some(l) && semi_at(s, masks, l) {
        Some((leftmost->0 as usize, false))
    } else if closing_brace_after_semi(s, masks, f, ls, rightmost) {
        Some((last_nonspace(s, ls, rightmost->0)->0 as usize, false))
    } else if first_after_opener(s, masks, f, ls, ls, le) is Some {
        Some((first_after_opener(s, masks, f, ls, ls, le)->0 as usize, false))
    } else if first_before_closer(s, masks, f, ls, le) is Some {
        Some((first_before_closer(s, masks, f, ls, le)->0 as usize, false))
    } else {
        None
    }
}

/// The end of the line that starts at `ls`: its `\n`, or the end.
pub open spec fn line_end(s: Seq<u8>, ls: int) -> int
    decreases s.len() - ls,
{
    if ls >= s.len() || s[ls] == 10u8 { ls } else { line_end(s, ls + 1) }
}

/// The offenses of the lines from the one starting at `ls` on.
pub open spec fn lines_from(s: Seq<u8>, masks: Seq<(usize, usize)>, f: Facts, ls: int) -> Seq<(usize, bool)>
    decreases s.len() - ls,
{
    let le = line_end(s, ls);
    let here = match line_offense(s, masks, f, ls, le) {
        Some(o) => seq![o],
        None => Seq::empty(),
    };
    if ls < 0 || le >= s.len() || le < ls {
        here
    } else {
        here + lines_from(s, masks, f, le + 1)
    }
}

/// The end of the line of `ls` lies within the source, holds its `\n`, and
/// is the end of the line of every position up to it.
proof fn lemma_line_end(s: Seq<u8>, ls: int)
    requires
        0 <= ls <= s.len(),
    ensures
        ls <= line_end(s, ls) <= s.len(),
        line_end(s, ls) < s.len() ==> s[line_end(s, ls)] == 10u8,
        forall|o: int| ls <= o <= line_end(s, ls) ==> #[trigger] line_end(s, o) == line_end(s, ls),
    decreases s.len() - ls,
{
    if ls < s.len() && s[ls] != 10u8 {
        lemma_line_end(s, ls + 1);
        assert forall|o: int| ls <= o <= line_end(s, ls) implies #[trigger] line_end(s, o) == line_end(s, ls) by {
            if o > ls {
                assert(line_end(s, o) == line_end(s, ls + 1));
            }
        }
    }
}

/// The last non-space position of `[a, b)` is non-space and only spaces
/// follow it; without one the range holds spaces only.
proof fn lemma_last_nonspace(s: Seq<u8>, a: int, b: int)
    requires
        0 <= a,
        b <= s.len(),
    ensures
        match last_nonspace(s, a, b) {
            Some(r) => a <= r < b && !is_line_space(s[r]) && all_spaces(s, r + 1, b),
            None => forall|k: int| a <= k < b ==> is_line_space(#[trigger] s[k]),
        },
    decreases b - a,
{
    if b > a && is_line_space(s[b - 1]) {
        lemma_last_nonspace(s, a, b - 1);
    }
}

/// The first non-space position of `[a, b)` lies in it.
proof fn lemma_first_nonspace(s: Seq<u8>, a: int, b: int)
    ensures
        first_nonspace(s, a, b) matches Some(l) ==> a <= l < b,
    decreases b - a,
{
    if b > a && is_line_space(s[a]) {
        lemma_first_nonspace(s, a + 1, b);
    }
}

/// A semicolon found after an opener lies in the range searched.
proof fn lemma_first_after_opener(s: Seq<u8>, masks: Seq<(usize, usize)>, f: Facts, ls: int, a: int, le: int)
    ensures
        first_after_opener(s, masks, f, ls, a, le) matches Some(x) ==> a <= x < le && semi_at(s, masks, x),
    decreases le - a,
{
    if a < le && !(semi_at(s, masks, a) && after_opener(s, f, ls, a)) {
        lemma_first_after_opener(s, masks, f, ls, a + 1, le);
    }
}

/// A semicolon found before a closer lies in the range searched.
proof fn lemma_first_before_closer(s: Seq<u8>, masks: Seq<(usize, usize)>, f: Facts, a: int, le: int)
    ensures
        first_before_closer(s, masks, f, a, le) matches Some(x) ==> a <= x < le && semi_at(s, masks, x),
    decreases le - a,
{
    if a < le && !(semi_at(s, masks, a) && before_closer(s, f, a, le)) {
        lemma_first_before_closer(s, masks, f, a + 1, le);
    }
}

/// A line's offense is a semicolon token of the line, flagged as the last
/// token exactly when only spaces follow it on the line; a line without a
/// semicolon token has none.
proof fn lemma_line_offense(s: Seq<u8>, masks: Seq<(usize, usize)>, f: Facts, ls: int, le: int)
    requires
        0 <= ls <= le <= s.len(),
        s.len() <= usize::MAX,
    ensures
        line_offense(s, masks, f, ls, le) matches Some(o) ==> {
            &&& ls <= o.0 < le
            &&& semi_at(s, masks, o.0 as int)
            &&& (o.1 <==> all_spaces(s, o.0 + 1, le))
        },
        !has_semi(s, masks, ls, le) ==> line_offense(s, masks, f, ls, le) is None,
{
    lemma_last_nonspace(s, ls, le);
    lemma_first_nonspace(s, ls, le);
    lemma_first_after_opener(s, masks, f, ls, ls, le);
    lemma_first_before_closer(s, masks, f, ls, le);
    let rightmost = last_nonspace(s, ls, le);
    if let Some(r) = rightmost {
        lemma_last_nonspace(s, ls, r);
    }
    if let Some(o) = line_offense(s, masks, f, ls, le) {
        let x = o.0 as int;
        assert(ls <= x < le && semi_at(s, masks, x));
        assert(!is_line_space(s[x]));
        if !o.1 && all_spaces(s, x + 1, le) {
            match rightmost {
                Some(r) => {
                    if x < r {
                        assert(is_line_space(s[r]));
                    }
                    if r < x {
                        assert(is_line_space(s[x]));
                    }
                    assert(r == x);
                },
                None => {
                    assert(is_line_space(s[x]));
                },
            }
        }
    }
}

/// Every offense of the lines from `ls` on is a semicolon token at or after
/// `ls`, flagged as the last token exactly when only spaces follow it up to
/// the end of its line; each offense lies on a later line than the one
/// before it; and without a semicolon token there is none.
pub proof fn lemma_lines_from(s: Seq<u8>, masks: Seq<(usize, usize)>, f: Facts, ls: int)
    requires
        0 <= ls <= s.len(),
        s.len() <= usize::MAX,
    ensures
        forall|k: int| 0 <= k < lines_from(s, masks, f, ls).len() ==> {
            &&& ls <= (#[trigger] lines_from(s, masks, f, ls)[k]).0 < s.len()
            &&& semi_at(s, masks, lines_from(s, masks, f, ls)[k].0 as int)
            &&& (lines_from(s, masks, f, ls)[k].1 <==> all_spaces(s, lines_from(s, masks, f, ls)[k].0 + 1, line_end(
                s,
                lines_from(s, masks, f, ls)[k].0 as int,
            )))
        },
        forall|j: int, k: int|
            0 <= j < k < lines_from(s, masks, f, ls).len() ==> line_end(s, (#[trigger] lines_from(s, masks, f, ls)[j]).0 as int)
                < (#[trigger] lines_from(s, masks, f, ls)[k]).0,
        (forall|p: int| ls <= p < s.len() ==> !#[trigger] semi_at(s, masks, p)) ==> lines_from(s, masks, f, ls).len() == 0,
    decreases s.len() - ls,
{
    let le = line_end(s, ls);
    lemma_line_end(s, ls);
    lemma_line_offense(s, masks, f, ls, le);
    let here = match line_offense(s, masks, f, ls, le) {
        Some(o) => seq![o],
        None => Seq::<(usize, bool)>::empty(),
    };
    let all = lines_from(s, masks, f, ls);
    if let Some(o) = line_offense(s, masks, f, ls, le) {
        assert(line_end(s, o.0 as int) == le);
    }
    if (forall|p: int| ls <= p < s.len() ==> !#[trigger] semi_at(s, masks, p)) {
        assert(!has_semi(s, masks, ls, le));
    }
    if le < s.len() {
        lemma_lines_from(s, masks, f, le + 1);
        let rest = lines_from(s, masks, f, le + 1);
        assert(all == here + rest);
        assert forall|k: int| 0 <= k < all.len() implies {
            &&& ls <= (#[trigger] all[k]).0 < s.len()
            &&& semi_at(s, masks, all[k].0 as int)
            &&& (all[k].1 <==> all_spaces(s, all[k].0 + 1, line_end(s, all[k].0 as int)))
        } by {
            if k >= here.len() {
                assert(all[k] == rest[k - here.len()]);
            }
        }
        assert forall|j: int, k: int| 0 <= j < k < all.len() implies line_end(s, (#[trigger] all[j]).0 as int)
            < (#[trigger] all[k]).0 by {
            assert(all[k] == rest[k - here.len()]);
            if j >= here.len() {
                assert(all[j] == rest[j - here.len()]);
            }
        }
    } else {
        assert(all == here);
    }
}

/// The offenses of `source`; none where it does not parse into a
/// well-formed tree.
pub fn check_semicolon(source: &[u8]) -> (r: Vec<PathAOffense>)
    ensures
        exists|t: SyntaxTree| #[trigger] tree_of(t, source@) && (if tree_wf(t) {
            &&& r@.len() == lines_from(source@, tree_masks(t, Seq::<(usize, usize)>::empty()), facts_upto(source@, t, walk_events(t), walk_events(t).len() as int),
                0).len()
            &&& forall|k: int| 0 <= k < r@.len() ==> ((#[trigger] r@[k]).offset, r@[k].last_token) == lines_from(source@,
                tree_masks(t, Seq::<(usize, usize)>::empty()), facts_upto(source@, t, walk_events(t), walk_events(t).len() as int), 0)[k]
        } else {
            r@.len() == 0
        }),
        forall|k: int| 0 <= k < r@.len() ==> {
            &&& (#[trigger] r@[k]).offset < source@.len()
            &&& source@[r@[k].offset as int] == 59u8
            &&& (r@[k].last_token <==> all_spaces(source@, r@[k].offset + 1, line_end(source@, r@[k].offset as int)))
        },
        forall|j: int, k: int| 0 <= j < k < r@.len() ==> line_end(source@, (#[trigger] r@[j]).offset as int) < (#[trigger] r@[k]).offset,
        (forall|p: int| 0 <= p < source@.len() ==> source@[p] != 59u8) ==> r@.len() == 0,
{
    let t = parse_tree(source);
    if !check_tree(&t) {
        assert(tree_of(t, source@));
        return Vec::new();
    }
    let evs = walk(&t);
    let extra: Vec<(usize, usize)> = Vec::new();
    let r = semicolon_offenses(source, &t, &evs, &extra);
    assert(tree_of(t, source@));
    r
}

/// The offenses of `t`, with `extra` opaque regions besides the comments
/// and the `__END__` section, line by line.
pub fn semicolon_offenses(source: &[u8], t: &SyntaxTree, evs: &Vec<Event>, extra: &Vec<(usize, usize)>) -> (r: Vec<
    PathAOffense,
>)
    requires
        tree_wf(*t),
        t.source_len == source@.len(),
        events_in(evs@, t.nodes@.len() as nat),
    ensures
        r@.len() == lines_from(source@, tree_masks(*t, extra@), facts_upto(source@, *t, evs@, evs@.len() as int),
            0).len(),
        forall|k: int| 0 <= k < r@.len() ==> ((#[trigger] r@[k]).offset, r@[k].last_token) == lines_from(source@,
            tree_masks(*t, extra@), facts_upto(source@, *t, evs@, evs@.len() as int), 0)[k],
        forall|k: int| 0 <= k < r@.len() ==> {
            &&& (#[trigger] r@[k]).offset < source@.len()
            &&& semi_at(source@, tree_masks(*t, extra@), r@[k].offset as int)
            &&& (r@[k].last_token <==> all_spaces(source@, r@[k].offset + 1, line_end(source@, r@[k].offset as int)))
        },
        forall|j: int, k: int| 0 <= j < k < r@.len() ==> line_end(source@, (#[trigger] r@[j]).offset as int) < (#[trigger] r@[k]).offset,
        (forall|p: int| 0 <= p < source@.len() ==> source@[p] != 59u8) ==> r@.len() == 0,
{
    let (openers, dends, closers) = collect_facts(source, t, evs);
    let ghost f = Facts { openers: openers@, dends: dends@, closers: closers@ };
    let masks = crate::rules::space_inside_parens::tree_masks_of(t, extra);
    let n = source.len();
    let ghost all = lines_from(source@, masks@, f, 0);
    let ghost mut done: Seq<(usize, bool)> = Seq::empty();
    let mut out: Vec<PathAOffense> = Vec::new();
    let mut ls: usize = 0;
    loop
        invariant_except_break
            ls <= n == source@.len(),
            all == lines_from(source@, masks@, f, 0),
            done + lines_from(source@, masks@, f, ls as int) == all,
            out@.len() == done.len(),
            forall|q: int| 0 <= q < out@.len() ==> ((#[trigger] out@[q]).offset, out@[q].last_token) == done[q],
            f == (Facts { openers: openers@, dends: dends@, closers: closers@ }),
        ensures
            done == all,
            out@.len() == done.len(),
            forall|q: int| 0 <= q < out@.len() ==> ((#[trigger] out@[q]).offset, out@[q].last_token) == done[q],
        decreases n - ls,
    {
        let le = line_end_of(source, ls);
        let o = line_offense_of(source, &masks, &openers, &dends, &closers, ls, le);
        let ghost here = match line_offense(source@, masks@, f, ls as int, le as int) {
            Some(o) => seq![o],
            None => Seq::<(usize, bool)>::empty(),
        };
        match o {
            Some((off, last)) => {
                out.push(PathAOffense { offset: off, last_token: last });
            },
            None => {},
        }
        proof {
            done = done + here;
        }
        if le >= n {
            assert(lines_from(source@, masks@, f, ls as int) == here);
            assert(done =~= all);
            break;
        }
        assert(lines_from(source@, masks@, f, ls as int) == here + lines_from(source@, masks@, f, le + 1));
        assert(done + lines_from(source@, masks@, f, le + 1) =~= all);
        ls = le + 1;
    }
    proof {
        lemma_lines_from(source@, masks@, f, 0);
        if forall|p: int| 0 <= p < source@.len() ==> source@[p] != 59u8 {
            assert forall|p: int| 0 <= p < source@.len() implies !#[trigger] semi_at(source@, masks@, p) by {}
        }
        assert forall|k: int| 0 <= k < out@.len() implies (#[trigger] out@[k]).offset == all[k].0 && out@[k].last_token == all[k].1 by {}
    }
    out
}

/// The facts the walk collects ([`facts_upto`]).
fn collect_facts(s: &[u8], t: &SyntaxTree, evs: &Vec<Event>) -> (r: (Vec<usize>, Vec<usize>, Vec<(usize, usize)>))
    requires
        tree_wf(*t),
        t.source_len == s@.len(),
        events_in(evs@, t.nodes@.len() as nat),
    ensures
        (Facts { openers: r.0@, dends: r.1@, closers: r.2@ }) == facts_upto(s@, *t, evs@, evs@.len() as int),
{
    let mut openers: Vec<usize> = Vec::new();
    let mut dends: Vec<usize> = Vec::new();
    let mut closers: Vec<(usize, usize)> = Vec::new();
    let mut k: usize = 0;
    while k < evs.len()
        invariant
            tree_wf(*t),
            t.source_len == s@.len(),
            k <= evs@.len(),
            (Facts { openers: openers@, dends: dends@, closers: closers@ }) == facts_upto(s@, *t, evs@, k as int),
        decreases evs.len() - k,
    {
        match evs[k] {
            Event::Enter(i) => {
                if i < t.nodes.len() {
                    node_openers_into(s, t, i, &mut openers);
                    node_dends_into(t, i, &mut dends);
                    node_closers_into(t, i, &mut closers);
                }
            },
            _ => {},
        }
        assert((Facts { openers: openers@, dends: dends@, closers: closers@ }) =~= facts_upto(s@, *t, evs@, k + 1));
        k += 1;
    }
    (openers, dends, closers)
}

/// Whether `[a, b)` holds spaces only ([`all_spaces`]).
fn all_spaces_of(s: &[u8], a: usize, b: usize) -> (r: bool)
    requires
        b <= s@.len(),
    ensures
        r == all_spaces(s@, a as int, b as int),
{
    if a > b {
        return false;
    }
    let mut k = a;
    while k < b
        invariant
            a <= k <= b <= s@.len(),
            forall|q: int| a <= q < k ==> is_line_space(#[trigger] s@[q]),
        decreases b - k,
    {
        let c = s[k];
        if !(c == 32u8 || c == 9u8 || c == 12u8 || c == 11u8 || c == 13u8) {
            return false;
        }
        k += 1;
    }
    true
}

/// [`line_first_nonspace`].
fn line_first_nonspace_of(s: &[u8], pos: usize) -> (r: usize)
    requires
        pos <= s@.len(),
    ensures
        r == line_first_nonspace(s@, pos as int),
{
    let ls = line_start_of(s, pos);
    let mut p = ls;
    while p < s.len() && (s[p] == 32u8 || s[p] == 9u8 || s[p] == 12u8 || s[p] == 11u8 || s[p] == 13u8)
        invariant
            ls <= p <= s@.len(),
            ls == line_start(s@, pos as int),
            skip_spaces(s@, p as int) == skip_spaces(s@, ls as int),
        decreases s@.len() - p,
    {
        p += 1;
    }
    p
}

/// Whether the byte at `o` is a `{` ([`brace_at`]).
fn brace_at_of(s: &[u8], o: usize) -> (r: bool)
    ensures
        r == brace_at(s@, o as int),
{
    o < s.len() && s[o] == 123u8
}

/// Appends the openers of node `i` ([`node_openers`]).
#[verifier::rlimit(40)]
fn node_openers_into(s: &[u8], t: &SyntaxTree, i: usize, out: &mut Vec<usize>)
    requires
        tree_wf(*t),
        t.source_len == s@.len(),
        i < t.nodes@.len(),
    ensures
        final(out)@ == old(out)@ + node_openers(s@, *t, i as int),
{
    let k = t.nodes[i].kind;
    let ghost v: Seq<usize> = node_openers(s@, *t, i as int);
    if k == kinds::CALL_NODE {
        if child(t, i, kinds::CALL_NODE_RECEIVER).is_some() || range(t, i, kinds::CALL_NODE_OPENING_LOC).is_some() {
            assert(old(out)@ + v =~= old(out)@);
            return;
        }
        let (m0, m1) = match range(t, i, kinds::CALL_NODE_MESSAGE_LOC) {
            Some(m) => m,
            None => {
                assert(old(out)@ + v =~= old(out)@);
                return;
            },
        };
        if m0 != line_first_nonspace_of(s, m0) {
            assert(old(out)@ + v =~= old(out)@);
            return;
        }
        if child(t, i, kinds::CALL_NODE_ARGUMENTS).is_none() {
            if let Some(b) = child(t, i, kinds::CALL_NODE_BLOCK) {
                if t.nodes[b].kind == kinds::BLOCK_NODE {
                    if let Some((o0, o1)) = range(t, b, kinds::BLOCK_NODE_OPENING_LOC) {
                        if brace_at_of(s, o0) && all_spaces_of(s, m1, o0) {
                            out.push(o1);
                            return;
                        }
                    }
                }
            }
            assert(old(out)@ + v =~= old(out)@);
            return;
        }
        if let Some(a) = args_of_node(t, i, kinds::CALL_NODE_ARGUMENTS) {
            if a.len() > 0 && t.nodes[a[0]].kind == kinds::LAMBDA_NODE {
                let l = a[0];
                match (range(t, l, kinds::LAMBDA_NODE_OPERATOR_LOC), range(t, l, kinds::LAMBDA_NODE_OPENING_LOC)) {
                    (Some((p0, p1)), Some((o0, o1))) => {
                        if brace_at_of(s, o0) && all_spaces_of(s, m1, p0) && all_spaces_of(s, p1, o0) {
                            out.push(o1);
                            return;
                        }
                    },
                    _ => {},
                }
            }
        }
        assert(old(out)@ + v =~= old(out)@);
    } else if k == kinds::LAMBDA_NODE || k == kinds::PRE_EXECUTION_NODE || k == kinds::POST_EXECUTION_NODE {
        let (kf, of) = if k == kinds::LAMBDA_NODE {
            (kinds::LAMBDA_NODE_OPERATOR_LOC, kinds::LAMBDA_NODE_OPENING_LOC)
        } else if k == kinds::PRE_EXECUTION_NODE {
            (kinds::PRE_EXECUTION_NODE_KEYWORD_LOC, kinds::PRE_EXECUTION_NODE_OPENING_LOC)
        } else {
            (kinds::POST_EXECUTION_NODE_KEYWORD_LOC, kinds::POST_EXECUTION_NODE_OPENING_LOC)
        };
        match (range(t, i, kf), range(t, i, of)) {
            (Some((k0, k1)), Some((o0, o1))) => {
                if brace_at_of(s, o0) && k0 == line_first_nonspace_of(s, k0) && all_spaces_of(s, k1, o0) {
                    out.push(o1);
                    return;
                }
            },
            _ => {},
        }
        assert(old(out)@ + v =~= old(out)@);
    } else if k == kinds::INTERPOLATED_STRING_NODE {
        if let Some((o0, o1)) = range(t, i, kinds::INTERPOLATED_STRING_NODE_OPENING_LOC) {
            if o0 == line_first_nonspace_of(s, o0) {
                if let Some(parts) = children(t, i, kinds::INTERPOLATED_STRING_NODE_PARTS) {
                    if parts.len() > 0 && t.nodes[parts[0]].kind == kinds::EMBEDDED_STATEMENTS_NODE {
                        if let Some((e0, e1)) = range(t, parts[0], kinds::EMBEDDED_STATEMENTS_NODE_OPENING_LOC) {
                            if e0 == o1 {
                                out.push(e1);
                                return;
                            }
                        }
                    }
                }
            }
        }
        assert(old(out)@ + v =~= old(out)@);
    } else {
        assert(old(out)@ + v =~= old(out)@);
    }
}

/// Appends the interpolation end of node `i` ([`node_dends`]).
fn node_dends_into(t: &SyntaxTree, i: usize, out: &mut Vec<usize>)
    requires
        tree_wf(*t),
        i < t.nodes@.len(),
    ensures
        final(out)@ == old(out)@ + node_dends(*t, i as int),
{
    if t.nodes[i].kind == kinds::EMBEDDED_STATEMENTS_NODE {
        if let Some((c0, _)) = range(t, i, kinds::EMBEDDED_STATEMENTS_NODE_CLOSING_LOC) {
            out.push(c0);
            return;
        }
    }
    assert(old(out)@ + node_dends(*t, i as int) =~= old(out)@);
}

/// Appends the closer of node `i` ([`node_closers`]).
fn node_closers_into(t: &SyntaxTree, i: usize, out: &mut Vec<(usize, usize)>)
    requires
        tree_wf(*t),
        i < t.nodes@.len(),
    ensures
        final(out)@ == old(out)@ + node_closers(*t, i as int),
{
    if t.nodes[i].kind == kinds::INTERPOLATED_STRING_NODE {
        if let Some((c0, c1)) = range(t, i, kinds::INTERPOLATED_STRING_NODE_CLOSING_LOC) {
            if let Some(parts) = children(t, i, kinds::INTERPOLATED_STRING_NODE_PARTS) {
                if parts.len() > 0 {
                    let l = parts[parts.len() - 1];
                    if t.nodes[l].kind == kinds::EMBEDDED_STATEMENTS_NODE {
                        if let Some((d0, d1)) = range(t, l, kinds::EMBEDDED_STATEMENTS_NODE_CLOSING_LOC) {
                            if d1 == c0 {
                                out.push((d0, c1));
                                return;
                            }
                        }
                    }
                }
            }
        }
    }
    assert(old(out)@ + node_closers(*t, i as int) =~= old(out)@);
}

/// [`line_end`].
pub(crate) fn line_end_of(s: &[u8], ls: usize) -> (r: usize)
    requires
        ls <= s@.len(),
    ensures
        r == line_end(s@, ls as int),
        ls <= r <= s@.len(),
{
    let mut p = ls;
    while p < s.len() && s[p] != 10u8
        invariant
            ls <= p <= s@.len(),
            line_end(s@, p as int) == line_end(s@, ls as int),
        decreases s@.len() - p,
    {
        p += 1;
    }
    p
}

/// Whether the byte at `p` is a semicolon token ([`semi_at`]).
fn semi_at_of(s: &[u8], masks: &Vec<(usize, usize)>, p: usize) -> (r: bool)
    requires
        p < s@.len(),
    ensures
        r == semi_at(s@, masks@, p as int),
{
    s[p] == 59u8 && !masked_of(masks, p)
}

/// Whether `p` lies in one of `masks` ([`masked`]).
fn masked_of(masks: &Vec<(usize, usize)>, p: usize) -> (r: bool)
    ensures
        r == masked(masks@, p as int),
{
    let mut k: usize = 0;
    while k < masks.len()
        invariant
            k <= masks@.len(),
            forall|q: int| 0 <= q < k ==> !((#[trigger] masks@[q]).0 <= p < masks@[q].1),
        decreases masks.len() - k,
    {
        if masks[k].0 <= p && p < masks[k].1 {
            return true;
        }
        k += 1;
    }
    false
}

/// Whether `x` is one of `v`.
fn contains_of(v: &Vec<usize>, x: usize) -> (r: bool)
    ensures
        r == v@.contains(x),
{
    let mut k: usize = 0;
    while k < v.len()
        invariant
            k <= v@.len(),
            forall|q: int| 0 <= q < k ==> v@[q] != x,
        decreases v.len() - k,
    {
        if v[k] == x {
            assert(v@[k as int] == x);
            return true;
        }
        k += 1;
    }
    false
}

/// [`closer_of`].
fn closer_of_exec(closers: &Vec<(usize, usize)>, b: usize) -> (r: Option<usize>)
    ensures
        r == closer_of(closers@, b),
{
    let mut k = closers.len();
    assert(closers@.subrange(0, k as int) =~= closers@);
    while k > 0
        invariant
            k <= closers@.len(),
            closer_of(closers@, b) == closer_of(closers@.subrange(0, k as int), b),
        decreases k,
    {
        let ghost sub = closers@.subrange(0, k as int);
        assert(sub.drop_last() =~= closers@.subrange(0, k - 1));
        if closers[k - 1].0 == b {
            return Some(closers[k - 1].1);
        }
        k -= 1;
    }
    None
}

/// [`last_nonspace`].
fn last_nonspace_of(s: &[u8], a: usize, b: usize) -> (r: Option<usize>)
    requires
        b <= s@.len(),
    ensures
        match r {
            Some(q) => last_nonspace(s@, a as int, b as int) == Some(q as int),
            None => last_nonspace(s@, a as int, b as int) is None,
        },
        r matches Some(q) ==> a <= q < b,
{
    let mut p = b;
    while p > a
        invariant
            p <= b <= s@.len(),
            last_nonspace(s@, a as int, b as int) == last_nonspace(s@, a as int, p as int),
        decreases p,
    {
        let c = s[p - 1];
        if !(c == 32u8 || c == 9u8 || c == 12u8 || c == 11u8 || c == 13u8) {
            return Some(p - 1);
        }
        p -= 1;
    }
    None
}

/// [`first_nonspace`].
fn first_nonspace_of(s: &[u8], a: usize, b: usize) -> (r: Option<usize>)
    requires
        b <= s@.len(),
    ensures
        match r {
            Some(q) => first_nonspace(s@, a as int, b as int) == Some(q as int),
            None => first_nonspace(s@, a as int, b as int) is None,
        },
        r matches Some(q) ==> a <= q < b,
{
    let mut p = a;
    while p < b
        invariant
            a <= p,
            b <= s@.len(),
            first_nonspace(s@, a as int, b as int) == first_nonspace(s@, p as int, b as int),
        decreases b - p,
    {
        let c = s[p];
        if !(c == 32u8 || c == 9u8 || c == 12u8 || c == 11u8 || c == 13u8) {
            return Some(p);
        }
        p += 1;
    }
    None
}

/// [`spaces_back`].
fn spaces_back_of(s: &[u8], ls: usize, i: usize) -> (r: usize)
    requires
        ls <= i <= s@.len(),
    ensures
        r == spaces_back(s@, ls as int, i as int),
{
    let mut q = i;
    while q > ls && (s[q - 1] == 32u8 || s[q - 1] == 9u8 || s[q - 1] == 12u8 || s[q - 1] == 11u8 || s[q - 1] == 13u8)
        invariant
            ls <= q <= i <= s@.len(),
            spaces_back(s@, ls as int, q as int) == spaces_back(s@, ls as int, i as int),
        decreases q,
    {
        q -= 1;
    }
    q
}

/// [`spaces_fwd`].
fn spaces_fwd_of(s: &[u8], i: usize, le: usize) -> (r: usize)
    requires
        i <= le <= s@.len(),
    ensures
        r == spaces_fwd(s@, i as int, le as int),
        i <= r <= le,
{
    let mut b = i;
    while b < le && (s[b] == 32u8 || s[b] == 9u8 || s[b] == 12u8 || s[b] == 11u8 || s[b] == 13u8)
        invariant
            i <= b <= le <= s@.len(),
            spaces_fwd(s@, b as int, le as int) == spaces_fwd(s@, i as int, le as int),
        decreases le - b,
    {
        b += 1;
    }
    b
}

/// The offense of the line `[ls, le)` ([`line_offense`]).
#[verifier::rlimit(60)]
fn line_offense_of(s: &[u8], masks: &Vec<(usize, usize)>, openers: &Vec<usize>, dends: &Vec<usize>,
    closers: &Vec<(usize, usize)>, ls: usize, le: usize) -> (r: Option<(usize, bool)>)
    requires
        ls <= le <= s@.len(),
    ensures
        r == line_offense(s@, masks@, Facts { openers: openers@, dends: dends@, closers: closers@ }, ls as int,
            le as int),
{
    let ghost f = Facts { openers: openers@, dends: dends@, closers: closers@ };
    let mut i = ls;
    let mut found = false;
    while i < le && !found
        invariant
            ls <= i <= le <= s@.len(),
            !found ==> forall|q: int| ls <= q < i ==> !#[trigger] semi_at(s@, masks@, q),
            found ==> has_semi(s@, masks@, ls as int, le as int),
        decreases le - i + (if found { 0int } else { 1int }),
    {
        if semi_at_of(s, masks, i) {
            found = true;
        } else {
            i += 1;
        }
    }
    if !found {
        return None;
    }
    let rightmost = last_nonspace_of(s, ls, le);
    let leftmost = first_nonspace_of(s, ls, le);
    if let Some(r) = rightmost {
        if semi_at_of(s, masks, r) {
            return Some((r, true));
        }
    }
    if let Some(l) = leftmost {
        if semi_at_of(s, masks, l) {
            return Some((l, false));
        }
    }
    if let Some(r) = rightmost {
        if s[r] == 125u8 && !masked_of(masks, r) && !contains_of(dends, r) {
            if let Some(q) = last_nonspace_of(s, ls, r) {
                if semi_at_of(s, masks, q) {
                    return Some((q, false));
                }
            }
        }
    }
    let ghost tail = if first_after_opener(s@, masks@, f, ls as int, ls as int, le as int) is Some {
        Some((first_after_opener(s@, masks@, f, ls as int, ls as int, le as int)->0 as usize, false))
    } else if first_before_closer(s@, masks@, f, ls as int, le as int) is Some {
        Some((first_before_closer(s@, masks@, f, ls as int, le as int)->0 as usize, false))
    } else {
        None
    };
    assert(line_offense(s@, masks@, f, ls as int, le as int) == tail);
    let mut a = ls;
    while a < le
        invariant
            ls <= a <= le <= s@.len(),
            first_after_opener(s@, masks@, f, ls as int, ls as int, le as int) == first_after_opener(s@, masks@, f,
                ls as int, a as int, le as int),
            f == (Facts { openers: openers@, dends: dends@, closers: closers@ }),
            line_offense(s@, masks@, f, ls as int, le as int) == tail,
            tail == (if first_after_opener(s@, masks@, f, ls as int, ls as int, le as int) is Some {
                Some((first_after_opener(s@, masks@, f, ls as int, ls as int, le as int)->0 as usize, false))
            } else if first_before_closer(s@, masks@, f, ls as int, le as int) is Some {
                Some((first_before_closer(s@, masks@, f, ls as int, le as int)->0 as usize, false))
            } else {
                None
            }),
        decreases le - a,
    {
        if semi_at_of(s, masks, a) && contains_of(openers, spaces_back_of(s, ls, a)) {
            return Some((a, false));
        }
        a += 1;
    }
    let mut a = ls;
    while a < le
        invariant
            ls <= a <= le <= s@.len(),
            first_before_closer(s@, masks@, f, ls as int, le as int) == first_before_closer(s@, masks@, f, a as int,
                le as int),
            f == (Facts { openers: openers@, dends: dends@, closers: closers@ }),
            first_after_opener(s@, masks@, f, ls as int, ls as int, le as int) is None,
            line_offense(s@, masks@, f, ls as int, le as int) == (if first_before_closer(s@, masks@, f, ls as int,
                le as int) is Some {
                Some((first_before_closer(s@, masks@, f, ls as int, le as int)->0 as usize, false))
            } else {
                None
            }),
        decreases le - a,
    {
        if semi_at_of(s, masks, a) {
            let b = spaces_fwd_of(s, a + 1, le);
            if b < le && s[b] == 125u8 && contains_of(dends, b) {
                match closer_of_exec(closers, b) {
                    Some(ce) => {
                        if ce <= le && all_spaces_of(s, ce, le) {
                            return Some((a, false));
                        }
                        assert(!all_spaces(s@, ce as int, le as int));
                    },
                    None => {},
                }
            }
        }
        a += 1;
    }
    None
}

} // verus!
