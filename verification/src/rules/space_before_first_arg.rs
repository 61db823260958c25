//! `Layout/SpaceBeforeFirstArg`: exactly one space between the selector of a
//! call without parentheses and its first argument, unless the argument lines
//! up with something on a nearby line (`AllowForAlignment`).
//!
//! The whitespace before the argument is the run of spaces and tabs, then of
//! line breaks, that ends at the argument; any single byte passes. A block
//! pass counts as an argument. Operator methods and attribute writes are not
//! checked, and the argument must start on the call's first line. An
//! argument glued to the selector is an offense with an empty range, and the
//! alignment test is skipped for it.
//!
//! Alignment looks, in each direction, at the nearest line that is not blank,
//! not a line that a comment begins and not past `__END__`; first with any
//! indentation, then only at lines indented like the argument's own line.
//! The argument is aligned with such a line when that line has a space then a
//! non-space across the argument's column, or the argument's own text at its
//! column, or (for an argument that ends in `=` or is `<<`) an assignment or
//! comparison operator, the first on the line outside the opaque regions,
//! that ends at the argument's last column.

use vstd::prelude::*;
use crate::syntax::{SyntaxTree, tree_wf, node_wf};
use crate::syntax::kinds;
use crate::syntax::access::{child, range, text, child_at, range_at, text_at, args_of, args_of_node, list_at};
use crate::syntax::flatten::{parse_tree, check_tree, tree_of};
use crate::syntax::walk::{walk_events, walk, Event, events_in};
use crate::rules::lines::{line_start, line_start_of, column, column_of, is_continuation, lemma_line_start_bounds};
use crate::rules::space_scan::{nl_run_start, blank_run_start, surrounding_space_left, is_blank, is_blank_or_nl};
use crate::rules::space_inside_parens::{masked, masked_at, tree_masks};
use crate::rules::semicolon::{line_end, line_end_of, is_line_space};
use crate::rules::trailing_comma::{begins_its_line, begins_its_line_of};
use crate::rules::bytes::{utf8_ok, ranges_equal};
use vstd::utf8::valid_utf8;
use vstd::slice::slice_subrange;

verus! {

/// `AllowForAlignment`.
#[derive(Clone, Copy)]
pub struct Config {
    pub allow_for_alignment: bool,
}

/// One offense: the whitespace run before the first argument (possibly
/// empty); the fix replaces it with a single space.
pub type SpaceBeforeFirstArgOffense = (usize, usize);

/// A call whose first argument is not preceded by exactly one byte of space:
/// the space run, the argument, and whether the alignment test applies.
#[derive(Clone, Copy)]
pub struct Candidate {
    pub space_start: usize,
    pub arg_start: usize,
    pub arg_end: usize,
    pub check_alignment: bool,
}

/// A one-byte operator method name: `| ^ & > < + - * / % ~ !` and backquote.
pub open spec fn one_char_operator(b: u8) -> bool {
    b == 124u8 || b == 94u8 || b == 38u8 || b == 62u8 || b == 60u8 || b == 43u8 || b == 45u8 || b == 42u8
        || b == 47u8 || b == 37u8 || b == 126u8 || b == 33u8 || b == 96u8
}

/// A two-byte operator method name: `== =~ >= <= << >> ** +@ -@ !@ ~@ [] != !~`.
pub open spec fn two_char_operator(a: u8, b: u8) -> bool {
    (a == 61u8 && (b == 61u8 || b == 126u8)) || ((a == 62u8 || a == 60u8) && b == 61u8) || (a == 60u8 && b
        == 60u8) || (a == 62u8 && b == 62u8) || (a == 42u8 && b == 42u8) || ((a == 43u8 || a == 45u8 || a
        == 33u8 || a == 126u8) && b == 64u8) || (a == 91u8 && b == 93u8) || (a == 33u8 && (b == 61u8 || b
        == 126u8))
}

/// A three-byte operator method name: `<=> === []=`.
pub open spec fn three_char_operator(a: u8, b: u8, c: u8) -> bool {
    (a == 60u8 && b == 61u8 && c == 62u8) || (a == 61u8 && b == 61u8 && c == 61u8) || (a == 91u8 && b == 93u8
        && c == 61u8)
}

/// The method name is an operator, whose calls this rule never checks.
pub open spec fn operator_method(n: Seq<u8>) -> bool {
    (n.len() == 1 && one_char_operator(n[0])) || (n.len() == 2 && two_char_operator(n[0], n[1])) || (n.len()
        == 3 && three_char_operator(n[0], n[1], n[2]))
}

/// The first argument of call `i`: its first argument, else its block pass.
pub open spec fn first_argument(t: SyntaxTree, i: int) -> Option<usize> {
    let a = args_of(t, i, kinds::CALL_NODE_ARGUMENTS as int);
    if a.len() > 0 {
        Some(a[0])
    } else {
        match child_at(t, i, kinds::CALL_NODE_BLOCK as int) {
            Some(b) => if t.nodes@[b as int].kind == kinds::BLOCK_ARGUMENT_NODE { Some(b) } else { None },
            None => None,
        }
    }
}

/// The candidate that node `i` makes, if it is a call without parentheses
/// that this rule checks and that fails the one-space test.
pub open spec fn call_candidate(s: Seq<u8>, t: SyntaxTree, i: int, allow: bool) -> Option<Candidate> {
    let nd = t.nodes@[i];
    if nd.kind != kinds::CALL_NODE || range_at(t, i, kinds::CALL_NODE_OPENING_LOC as int) is Some {
        None
    } else {
        match range_at(t, i, kinds::CALL_NODE_MESSAGE_LOC as int) {
            None => None,
            Some((_, m1)) => {
                let op = match text_at(t, i, kinds::CALL_NODE_NAME as int) {
                    Some(n) => operator_method(n),
                    None => false,
                };
                if op || nd.flags & 16u16 != 0 {
                    None
                } else {
                    match first_argument(t, i) {
                        None => None,
                        Some(a) => {
                            let a0 = t.nodes@[a as int].start;
                            let a1 = t.nodes@[a as int].end;
                            let ss = nl_run_start(s, blank_run_start(s, a0 as int));
                            if a0 - ss == 1 {
                                None
                            } else if m1 == a0 {
                                Some(Candidate { space_start: ss as usize, arg_start: a0, arg_end: a1, check_alignment: false })
                            } else if line_start(s, nd.start as int) != line_start(s, a0 as int) {
                                None
                            } else {
                                Some(Candidate { space_start: ss as usize, arg_start: a0, arg_end: a1, check_alignment: allow })
                            }
                        },
                    }
                }
            },
        }
    }
}

/// The candidates of the calls entered in the first `k` events.
pub open spec fn candidates_upto(s: Seq<u8>, t: SyntaxTree, evs: Seq<Event>, k: int, allow: bool) -> Seq<Candidate>
    decreases k,
{
    if k <= 0 {
        Seq::empty()
    } else {
        candidates_upto(s, t, evs, k - 1, allow) + match evs[k - 1] {
            Event::Enter(i) => if i < t.nodes@.len() {
                match call_candidate(s, t, i as int, allow) {
                    Some(c) => seq![c],
                    None => Seq::empty(),
                }
            } else {
                Seq::empty()
            },
            _ => Seq::empty(),
        }
    }
}

/// The ranges of candidate `c` lie in order in a source of `len` bytes.
pub open spec fn cand_ok(c: Candidate, len: nat) -> bool {
    c.space_start <= c.arg_start <= c.arg_end <= len
}

/// The first byte in `[p, le)` that is not a space of the line, or `le`.
pub open spec fn first_non_space(s: Seq<u8>, p: int, le: int) -> int
    decreases le - p,
{
    if 0 <= p < le && p < s.len() && is_line_space(s[p]) { first_non_space(s, p + 1, le) } else { p }
}

/// A comment begins the line that starts at `ls`.
pub open spec fn comment_line(s: Seq<u8>, t: SyntaxTree, ls: int) -> bool {
    exists|c: int|
        0 <= c < t.comments@.len() && begins_its_line(s, (#[trigger] t.comments@[c]).0 as int) && line_start(s,
            t.comments@[c].0 as int) == ls
}

/// The line that starts at `ls` lies at or past the `__END__` line.
pub open spec fn past_end(s: Seq<u8>, t: SyntaxTree, ls: int) -> bool {
    match t.data_start {
        Some(d) => ls >= line_start(s, d as int),
        None => false,
    }
}

/// The alignment scan passes over the line that starts at `ls`: a comment
/// begins it, it lies past `__END__`, it is blank, or its indentation is not
/// `indent` when one is asked for.
pub open spec fn passed_over(s: Seq<u8>, t: SyntaxTree, ls: int, indent: Option<usize>) -> bool {
    let le = line_end(s, ls);
    let f = first_non_space(s, ls, le);
    comment_line(s, t, ls) || past_end(s, t, ls) || f == le || (indent matches Some(n) && n != f - ls)
}

/// From position `p` on, counting `count` characters before it: where the
/// character numbered `idx` starts, or the end when exactly `idx` characters
/// lie in `l`. A character starts at each byte that is not a continuation
/// byte.
pub open spec fn char_pos(l: Seq<u8>, idx: nat, p: int, count: nat) -> Option<int>
    decreases l.len() - p,
{
    if p >= l.len() || p < 0 {
        if count == idx { Some(l.len() as int) } else { None }
    } else if !is_continuation(l[p]) {
        if count == idx { Some(p) } else { char_pos(l, idx, p + 1, count + 1) }
    } else {
        char_pos(l, idx, p + 1, count)
    }
}

/// The byte offset in line `l` of its character numbered `idx` (the line's
/// length when it has exactly `idx` characters); for a line that is not valid
/// UTF-8, `idx` itself when it is within the line.
pub open spec fn char_to_byte(l: Seq<u8>, idx: nat) -> Option<int> {
    if valid_utf8(l) {
        char_pos(l, idx, 0, 0)
    } else if idx <= l.len() {
        Some(idx as int)
    } else {
        None
    }
}

/// What an assignment or comparison operator token is.
#[derive(Clone, Copy, PartialEq, Eq, Structural)]
pub enum AsgnKind {
    /// `=` or an operator assignment such as `+=`.
    EqualSign,
    /// `==`, `===`, `!=`, `<=` or `>=`.
    Comparison,
    /// `<<`.
    Lshft,
}

/// A byte that may start an operator token.
pub open spec fn op_byte(b: u8) -> bool {
    b == 61u8 || b == 60u8 || b == 62u8 || b == 33u8 || b == 43u8 || b == 45u8 || b == 42u8 || b == 47u8 || b
        == 37u8 || b == 38u8 || b == 124u8 || b == 94u8
}

/// The operator token at `i` (before `le`), longest match first: its length,
/// and what it is when it is an assignment or comparison.
pub open spec fn tok_at(s: Seq<u8>, i: int, le: int) -> (int, Option<AsgnKind>) {
    let b0 = s[i];
    let two = le - i > 1;
    let three = le - i > 2;
    let b1 = if two { s[i + 1] } else { 0u8 };
    let b2 = if three { s[i + 2] } else { 0u8 };
    if three && b0 == 61u8 && b1 == 61u8 && b2 == 61u8 {
        (3, Some(AsgnKind::Comparison))
    } else if three && b0 == 60u8 && b1 == 61u8 && b2 == 62u8 {
        (3, None)
    } else if three && b2 == 61u8 && ((b0 == 60u8 && b1 == 60u8) || (b0 == 62u8 && b1 == 62u8) || (b0 == 42u8
        && b1 == 42u8) || (b0 == 38u8 && b1 == 38u8) || (b0 == 124u8 && b1 == 124u8)) {
        (3, Some(AsgnKind::EqualSign))
    } else if two && ((b0 == 61u8 && b1 == 61u8) || (b0 == 33u8 && b1 == 61u8) || ((b0 == 60u8 || b0 == 62u8)
        && b1 == 61u8)) {
        (2, Some(AsgnKind::Comparison))
    } else if two && b0 == 60u8 && b1 == 60u8 {
        (2, Some(AsgnKind::Lshft))
    } else if two && ((b0 == 61u8 && b1 == 126u8) || (b0 == 33u8 && b1 == 126u8) || (b0 == 61u8 && b1 == 62u8)
        || (b0 == 45u8 && b1 == 62u8)) {
        (2, None)
    } else if two && b1 == 61u8 && (b0 == 43u8 || b0 == 45u8 || b0 == 42u8 || b0 == 47u8 || b0 == 37u8 || b0
        == 38u8 || b0 == 124u8 || b0 == 94u8) {
        (2, Some(AsgnKind::EqualSign))
    } else if two && ((b0 == 62u8 && b1 == 62u8) || (b0 == 42u8 && b1 == 42u8) || (b0 == 38u8 && b1 == 38u8)
        || (b0 == 124u8 && b1 == 124u8) || (b0 == 38u8 && b1 == 46u8)) {
        (2, None)
    } else if b0 == 61u8 {
        (1, Some(AsgnKind::EqualSign))
    } else {
        (1, None)
    }
}

/// The first assignment or comparison token in `[i, le)` outside `masks`:
/// what it is, where it starts and where it ends.
pub open spec fn asgn_scan(s: Seq<u8>, masks: Seq<(usize, usize)>, i: int, le: int) -> Option<(AsgnKind, int, int)>
    decreases le - i,
{
    if i < 0 || i >= le || i >= s.len() {
        None
    } else if !op_byte(s[i]) || masked(masks, i) {
        asgn_scan(s, masks, i + 1, le)
    } else {
        let (n, k) = tok_at(s, i, le);
        match k {
            Some(kind) => Some((kind, i, i + n)),
            None => asgn_scan(s, masks, i + n, le),
        }
    }
}

/// The argument ends in `=`.
pub open spec fn ends_with_equals(s: Seq<u8>, c: Candidate) -> bool {
    c.arg_end > c.arg_start && s[c.arg_end - 1] == 61u8
}

/// The argument is `<<`.
pub open spec fn is_lshift(s: Seq<u8>, c: Candidate) -> bool {
    c.arg_end - c.arg_start == 2 && s[c.arg_start as int] == 60u8 && s[c.arg_start + 1] == 60u8
}

/// An argument that ends in `=` or is `<<` lines up with the first
/// assignment or comparison token of line `[ls, le)`: the token ends at the
/// argument's last column, and for `<<` it is an `=` or operator assignment.
pub open spec fn aligned_equals(s: Seq<u8>, masks: Seq<(usize, usize)>, c: Candidate, ls: int, le: int) -> bool {
    let eq = ends_with_equals(s, c);
    let sh = is_lshift(s, c);
    if !eq && !sh {
        false
    } else {
        match asgn_scan(s, masks, ls, le) {
            None => false,
            Some((kind, _, te)) => column(s, te) == column(s, c.arg_end as int) && (eq || (sh && kind
                == AsgnKind::EqualSign)),
        }
    }
}

/// The argument lines up with line `[ls, le)`: a space then a non-space
/// across its column, its own text at its column, or an aligned operator.
pub open spec fn aligned_token(s: Seq<u8>, masks: Seq<(usize, usize)>, c: Candidate, ls: int, le: int) -> bool {
    let left = column(s, c.arg_start as int);
    let l = s.subrange(ls, le);
    let argb = s.subrange(c.arg_start as int, c.arg_end as int);
    let word_edge = left >= 1 && match char_to_byte(l, (left - 1) as nat) {
        Some(bp) => bp + 1 < l.len() && is_line_space(l[bp]) && !is_line_space(l[bp + 1]),
        None => false,
    };
    let same_text = match char_to_byte(l, left) {
        Some(bp) => bp + argb.len() <= l.len() && l.subrange(bp, bp + argb.len()) == argb,
        None => false,
    };
    word_edge || same_text || aligned_equals(s, masks, c, ls, le)
}

/// The nearest line above the one that starts at `ls` that the scan does not
/// pass over decides; `false` when there is none.
pub open spec fn up_scan(s: Seq<u8>, t: SyntaxTree, masks: Seq<(usize, usize)>, c: Candidate, ls: int,
    indent: Option<usize>) -> bool
    decreases ls,
{
    if ls <= 0 || ls > s.len() {
        false
    } else {
        let p = line_start(s, ls - 1);
        proof {
            lemma_line_start_bounds(s, ls - 1);
        }
        if passed_over(s, t, p, indent) {
            up_scan(s, t, masks, c, p, indent)
        } else {
            aligned_token(s, masks, c, p, line_end(s, p))
        }
    }
}

/// The nearest line below the one that starts at `ls` that the scan does not
/// pass over decides; `false` when there is none.
pub open spec fn down_scan(s: Seq<u8>, t: SyntaxTree, masks: Seq<(usize, usize)>, c: Candidate, ls: int,
    indent: Option<usize>) -> bool
    decreases s.len() - ls,
{
    if ls < 0 || ls > s.len() {
        false
    } else {
        let le = line_end(s, ls);
        proof {
            lemma_line_end_bounds(s, ls);
        }
        if le >= s.len() {
            false
        } else if passed_over(s, t, le + 1, indent) {
            down_scan(s, t, masks, c, le + 1, indent)
        } else {
            aligned_token(s, masks, c, le + 1, line_end(s, le + 1))
        }
    }
}

/// The argument lines up with something: the scan finds an aligned line
/// above or below, first at any indentation, then among the lines indented
/// like the argument's own line.
pub open spec fn aligned_with_something(s: Seq<u8>, t: SyntaxTree, masks: Seq<(usize, usize)>, c: Candidate) -> bool {
    let al = line_start(s, c.arg_start as int);
    let base = (first_non_space(s, al, line_end(s, al)) - al) as usize;
    up_scan(s, t, masks, c, al, None) || down_scan(s, t, masks, c, al, None) || up_scan(s, t, masks, c, al, Some(
        base)) || down_scan(s, t, masks, c, al, Some(base))
}

/// Candidate `c` is an offense: it skips the alignment test or fails it.
pub open spec fn kept(s: Seq<u8>, t: SyntaxTree, masks: Seq<(usize, usize)>, c: Candidate) -> bool {
    !(c.check_alignment && aligned_with_something(s, t, masks, c))
}

/// The offenses of the candidates `cs`, in order.
pub open spec fn offenses_of(s: Seq<u8>, t: SyntaxTree, masks: Seq<(usize, usize)>, cs: Seq<Candidate>) -> Seq<
    SpaceBeforeFirstArgOffense,
>
    decreases cs.len(),
{
    if cs.len() == 0 {
        Seq::empty()
    } else {
        let c = cs.last();
        offenses_of(s, t, masks, cs.drop_last()) + if kept(s, t, masks, c) {
            seq![(c.space_start, c.arg_start)]
        } else {
            Seq::empty()
        }
    }
}

/// `a` is `b` with some offenses left out and the rest kept in order:
/// offense `k` of `a` is offense `idx[k]` of `b`.
pub open spec fn kept_in_order(a: Seq<SpaceBeforeFirstArgOffense>, b: Seq<SpaceBeforeFirstArgOffense>, idx: Seq<int>) -> bool {
    &&& idx.len() == a.len()
    &&& forall|k: int| 0 <= k < a.len() ==> 0 <= #[trigger] idx[k] < b.len() && a[k] == b[idx[k]]
    &&& forall|j: int, k: int| 0 <= j < k < a.len() ==> #[trigger] idx[j] < #[trigger] idx[k]
}

/// `a` is `b` with some offenses left out and the rest kept in order.
pub open spec fn among_in_order(a: Seq<SpaceBeforeFirstArgOffense>, b: Seq<SpaceBeforeFirstArgOffense>) -> bool {
    exists|idx: Seq<int>| #[trigger] kept_in_order(a, b, idx)
}

/// Allowing alignment only drops offenses: on the same tree, the offenses
/// with `AllowForAlignment` are among those without it, in the same order.
pub proof fn alignment_only_drops_offenses(s: Seq<u8>, t: SyntaxTree, masks: Seq<(usize, usize)>, evs: Seq<Event>, k: int)
    ensures
        among_in_order(
            offenses_of(s, t, masks, candidates_upto(s, t, evs, k, true)),
            offenses_of(s, t, masks, candidates_upto(s, t, evs, k, false)),
        ),
    decreases k,
{
    if k <= 0 {
        assert(kept_in_order(
            offenses_of(s, t, masks, candidates_upto(s, t, evs, k, true)),
            offenses_of(s, t, masks, candidates_upto(s, t, evs, k, false)),
            Seq::<int>::empty(),
        ));
    } else {
        alignment_only_drops_offenses(s, t, masks, evs, k - 1);
        let ca = candidates_upto(s, t, evs, k - 1, true);
        let cb = candidates_upto(s, t, evs, k - 1, false);
        let oa = offenses_of(s, t, masks, ca);
        let ob = offenses_of(s, t, masks, cb);
        let idx = choose|idx: Seq<int>| #[trigger] kept_in_order(oa, ob, idx);
        let na = candidates_upto(s, t, evs, k, true);
        let nb = candidates_upto(s, t, evs, k, false);
        let mut added: Option<int> = None;
        if let Event::Enter(i) = evs[k - 1] {
            if i < t.nodes@.len() {
                if let Some(c) = call_candidate(s, t, i as int, true) {
                    let d = call_candidate(s, t, i as int, false)->0;
                    assert(d.space_start == c.space_start && d.arg_start == c.arg_start && !d.check_alignment);
                    assert(na == ca.push(c));
                    assert(nb == cb.push(d));
                    assert(na.drop_last() == ca && nb.drop_last() == cb);
                    assert(offenses_of(s, t, masks, nb) == ob.push((d.space_start, d.arg_start)));
                    if kept(s, t, masks, c) {
                        added = Some(ob.len() as int);
                        assert(offenses_of(s, t, masks, na) == oa.push((c.space_start, c.arg_start)));
                    } else {
                        assert(offenses_of(s, t, masks, na) == oa);
                    }
                } else {
                    assert(na == ca && nb == cb);
                }
            } else {
                assert(na == ca && nb == cb);
            }
        } else {
            assert(na == ca && nb == cb);
        }
        let a2 = offenses_of(s, t, masks, na);
        let b2 = offenses_of(s, t, masks, nb);
        let idx2 = match added {
            Some(m) => idx.push(m),
            None => idx,
        };
        assert forall|q: int| 0 <= q < oa.len() implies #[trigger] b2[idx[q]] == ob[idx[q]] by {}
        assert forall|q: int| 0 <= q < a2.len() implies 0 <= #[trigger] idx2[q] < b2.len() && a2[q] == b2[idx2[q]] by {
            if q < oa.len() {
                assert(idx2[q] == idx[q]);
                assert(a2[q] == oa[q]);
            }
        }
        assert forall|j: int, q: int| 0 <= j < q < a2.len() implies #[trigger] idx2[j] < #[trigger] idx2[q] by {
            if q < oa.len() {
                assert(idx2[j] == idx[j] && idx2[q] == idx[q]);
            } else {
                assert(idx2[j] == idx[j]);
            }
        }
        assert(kept_in_order(a2, b2, idx2));
    }
}

/// The offenses of `source`; none where it does not parse into a
/// well-formed tree.
pub fn check_space_before_first_arg(source: &[u8], config: Config) -> (r: Vec<SpaceBeforeFirstArgOffense>)
    ensures
        exists|t: SyntaxTree| #[trigger] tree_of(t, source@) && (if tree_wf(t) {
            &&& r@ == offenses_of(source@, t, tree_masks(t, Seq::<(usize, usize)>::empty()), candidates_upto(source@, t, walk_events(t),
                walk_events(t).len() as int, config.allow_for_alignment))
        } else {
            r@.len() == 0
        }),
{
    let t = parse_tree(source);
    if !check_tree(&t) {
        assert(tree_of(t, source@));
        return Vec::new();
    }
    let evs = walk(&t);
    let extra: Vec<(usize, usize)> = Vec::new();
    let r = space_before_first_arg_offenses(source, &t, &evs, config, &extra);
    assert(tree_of(t, source@));
    r
}

/// The offenses of `t`, with `extra` opaque regions besides the comments
/// and the `__END__` section, in the order of the walk.
pub fn space_before_first_arg_offenses(source: &[u8], t: &SyntaxTree, evs: &Vec<Event>, config: Config,
    extra: &Vec<(usize, usize)>) -> (r: Vec<SpaceBeforeFirstArgOffense>)
    requires
        tree_wf(*t),
        t.source_len == source@.len(),
        events_in(evs@, t.nodes@.len() as nat),
    ensures
        r@ == offenses_of(source@, *t, tree_masks(*t, extra@), candidates_upto(source@, *t, evs@,
            evs@.len() as int, config.allow_for_alignment)),
{
    let cands = candidates_of(source, t, evs, config.allow_for_alignment);
    let masks = crate::rules::space_inside_parens::tree_masks_of(t, extra);
    let mut out: Vec<SpaceBeforeFirstArgOffense> = Vec::new();
    let mut k: usize = 0;
    while k < cands.len()
        invariant
            tree_wf(*t),
            t.source_len == source@.len(),
            k <= cands@.len(),
            forall|j: int| 0 <= j < cands@.len() ==> cand_ok(#[trigger] cands@[j], source@.len()),
            out@ == offenses_of(source@, *t, masks@, cands@.subrange(0, k as int)),
        decreases cands.len() - k,
    {
        let c = cands[k];
        proof {
            assert(cands@.subrange(0, k + 1).drop_last() =~= cands@.subrange(0, k as int));
        }
        if !(c.check_alignment && aligned_with_something_of(source, t, &masks, c)) {
            out.push((c.space_start, c.arg_start));
        }
        k += 1;
    }
    assert(cands@.subrange(0, cands@.len() as int) =~= cands@);
    out
}

/// The candidates of the calls the walk enters ([`candidates_upto`]).
fn candidates_of(s: &[u8], t: &SyntaxTree, evs: &Vec<Event>, allow: bool) -> (r: Vec<Candidate>)
    requires
        tree_wf(*t),
        t.source_len == s@.len(),
        events_in(evs@, t.nodes@.len() as nat),
    ensures
        r@ == candidates_upto(s@, *t, evs@, evs@.len() as int, allow),
        forall|j: int| 0 <= j < r@.len() ==> cand_ok(#[trigger] r@[j], s@.len()),
{
    let mut out: Vec<Candidate> = Vec::new();
    let mut k: usize = 0;
    while k < evs.len()
        invariant
            tree_wf(*t),
            t.source_len == s@.len(),
            events_in(evs@, t.nodes@.len() as nat),
            k <= evs@.len(),
            out@ == candidates_upto(s@, *t, evs@, k as int, allow),
            forall|j: int| 0 <= j < out@.len() ==> cand_ok(#[trigger] out@[j], s@.len()),
        decreases evs.len() - k,
    {
        let ghost before = out@;
        match evs[k] {
            Event::Enter(i) => {
                assert(crate::syntax::walk::event_node(evs@[k as int]) < t.nodes@.len());
                match call_candidate_of(s, t, i, allow) {
                    Some(c) => {
                        out.push(c);
                        assert(out@ == before + seq![c]);
                    },
                    None => {
                        assert(out@ == before + Seq::<Candidate>::empty());
                    },
                }
            },
            _ => {
                assert(out@ == before + Seq::<Candidate>::empty());
            },
        }
        k += 1;
    }
    out
}

/// Whether the name is an operator method ([`operator_method`]).
pub(crate) fn operator_method_of(n: &Vec<u8>) -> (r: bool)
    ensures
        r == operator_method(n@),
{
    if n.len() == 1 {
        let b = n[0];
        b == 124u8 || b == 94u8 || b == 38u8 || b == 62u8 || b == 60u8 || b == 43u8 || b == 45u8 || b == 42u8 || b
            == 47u8 || b == 37u8 || b == 126u8 || b == 33u8 || b == 96u8
    } else if n.len() == 2 {
        let a = n[0];
        let b = n[1];
        (a == 61u8 && (b == 61u8 || b == 126u8)) || ((a == 62u8 || a == 60u8) && b == 61u8) || (a == 60u8 && b
            == 60u8) || (a == 62u8 && b == 62u8) || (a == 42u8 && b == 42u8) || ((a == 43u8 || a == 45u8 || a
            == 33u8 || a == 126u8) && b == 64u8) || (a == 91u8 && b == 93u8) || (a == 33u8 && (b == 61u8 || b
            == 126u8))
    } else if n.len() == 3 {
        let a = n[0];
        let b = n[1];
        let c = n[2];
        (a == 60u8 && b == 61u8 && c == 62u8) || (a == 61u8 && b == 61u8 && c == 61u8) || (a == 91u8 && b == 93u8
            && c == 61u8)
    } else {
        false
    }
}

/// The first argument of call `i` ([`first_argument`]).
fn first_argument_of(t: &SyntaxTree, i: usize) -> (r: Option<usize>)
    requires
        tree_wf(*t),
        i < t.nodes@.len(),
    ensures
        r == first_argument(*t, i as int),
        r matches Some(a) ==> a < t.nodes@.len(),
{
    match args_of_node(t, i, kinds::CALL_NODE_ARGUMENTS) {
        Some(a) => {
            if a.len() > 0 {
                return Some(a[0]);
            }
        },
        None => {},
    }
    match child(t, i, kinds::CALL_NODE_BLOCK) {
        Some(b) => if t.nodes[b].kind == kinds::BLOCK_ARGUMENT_NODE { Some(b) } else { None },
        None => None,
    }
}

/// The candidate of node `i` ([`call_candidate`]).
fn call_candidate_of(s: &[u8], t: &SyntaxTree, i: usize, allow: bool) -> (r: Option<Candidate>)
    requires
        tree_wf(*t),
        t.source_len == s@.len(),
        i < t.nodes@.len(),
    ensures
        r == call_candidate(s@, *t, i as int, allow),
        r matches Some(c) ==> cand_ok(c, s@.len()),
{
    if t.nodes[i].kind != kinds::CALL_NODE {
        return None;
    }
    if range(t, i, kinds::CALL_NODE_OPENING_LOC).is_some() {
        return None;
    }
    let m1 = match range(t, i, kinds::CALL_NODE_MESSAGE_LOC) {
        Some((_, m1)) => m1,
        None => {
            return None;
        },
    };
    let op = match text(t, i, kinds::CALL_NODE_NAME) {
        Some(n) => operator_method_of(n),
        None => false,
    };
    if op || t.nodes[i].flags & 16u16 != 0 {
        return None;
    }
    let a = match first_argument_of(t, i) {
        Some(a) => a,
        None => {
            return None;
        },
    };
    proof {
        assert(node_wf(*t, a as int, t.source_len as nat));
        assert(node_wf(*t, i as int, t.source_len as nat));
    }
    let a0 = t.nodes[a].start;
    let a1 = t.nodes[a].end;
    let ss = surrounding_space_left(s, a0);
    if a0 - ss == 1 {
        return None;
    }
    if m1 == a0 {
        return Some(Candidate { space_start: ss, arg_start: a0, arg_end: a1, check_alignment: false });
    }
    if line_start_of(s, t.nodes[i].start) != line_start_of(s, a0) {
        return None;
    }
    Some(Candidate { space_start: ss, arg_start: a0, arg_end: a1, check_alignment: allow })
}

/// Whether candidate `c` lines up with something ([`aligned_with_something`]).
fn aligned_with_something_of(s: &[u8], t: &SyntaxTree, masks: &Vec<(usize, usize)>, c: Candidate) -> (r: bool)
    requires
        tree_wf(*t),
        t.source_len == s@.len(),
        cand_ok(c, s@.len()),
    ensures
        r == aligned_with_something(s@, *t, masks@, c),
{
    let al = line_start_of(s, c.arg_start);
    let ae = line_end_of(s, al);
    let f = first_non_space_of(s, al, ae);
    let base = f - al;
    up_scan_of(s, t, masks, c, al, None) || down_scan_of(s, t, masks, c, al, None) || up_scan_of(s, t, masks, c, al,
        Some(base)) || down_scan_of(s, t, masks, c, al, Some(base))
}

/// The scan upwards from the line that starts at `al` ([`up_scan`]).
fn up_scan_of(s: &[u8], t: &SyntaxTree, masks: &Vec<(usize, usize)>, c: Candidate, al: usize, indent: Option<usize>) -> (r:
    bool)
    requires
        tree_wf(*t),
        t.source_len == s@.len(),
        cand_ok(c, s@.len()),
        al <= s@.len(),
    ensures
        r == up_scan(s@, *t, masks@, c, al as int, indent),
{
    let mut ls = al;
    loop
        invariant
            tree_wf(*t),
            t.source_len == s@.len(),
            cand_ok(c, s@.len()),
            ls <= s@.len(),
            up_scan(s@, *t, masks@, c, ls as int, indent) == up_scan(s@, *t, masks@, c, al as int, indent),
        decreases ls,
    {
        if ls == 0 {
            return false;
        }
        let p = line_start_of(s, ls - 1);
        if passed_over_of(s, t, p, indent) {
            ls = p;
        } else {
            let le = line_end_of(s, p);
            return aligned_token_of(s, masks, c, p, le);
        }
    }
}

/// The scan downwards from the line that starts at `al` ([`down_scan`]).
fn down_scan_of(s: &[u8], t: &SyntaxTree, masks: &Vec<(usize, usize)>, c: Candidate, al: usize, indent: Option<usize>) -> (r:
    bool)
    requires
        tree_wf(*t),
        t.source_len == s@.len(),
        cand_ok(c, s@.len()),
        al <= s@.len(),
    ensures
        r == down_scan(s@, *t, masks@, c, al as int, indent),
{
    let mut ls = al;
    loop
        invariant
            tree_wf(*t),
            t.source_len == s@.len(),
            cand_ok(c, s@.len()),
            ls <= s@.len(),
            down_scan(s@, *t, masks@, c, ls as int, indent) == down_scan(s@, *t, masks@, c, al as int, indent),
        decreases s@.len() - ls,
    {
        let le = line_end_of(s, ls);
        if le >= s.len() {
            return false;
        }
        let p = le + 1;
        if passed_over_of(s, t, p, indent) {
            ls = p;
        } else {
            let pe = line_end_of(s, p);
            return aligned_token_of(s, masks, c, p, pe);
        }
    }
}

/// The first byte in `[p, le)` that is not a space of the line
/// ([`first_non_space`]).
fn first_non_space_of(s: &[u8], p: usize, le: usize) -> (r: usize)
    requires
        p <= le <= s@.len(),
    ensures
        r == first_non_space(s@, p as int, le as int),
        p <= r <= le,
{
    let mut q = p;
    while q < le && (s[q] == 32u8 || s[q] == 9u8 || s[q] == 12u8 || s[q] == 11u8 || s[q] == 13u8)
        invariant
            p <= q <= le <= s@.len(),
            first_non_space(s@, q as int, le as int) == first_non_space(s@, p as int, le as int),
        decreases le - q,
    {
        q += 1;
    }
    q
}

/// Whether a comment begins the line that starts at `ls` ([`comment_line`]).
fn comment_line_of(s: &[u8], t: &SyntaxTree, ls: usize) -> (r: bool)
    requires
        tree_wf(*t),
        t.source_len == s@.len(),
    ensures
        r == comment_line(s@, *t, ls as int),
{
    let mut k: usize = 0;
    while k < t.comments.len()
        invariant
            tree_wf(*t),
            t.source_len == s@.len(),
            k <= t.comments@.len(),
            forall|j: int| 0 <= j < k ==> !(begins_its_line(s@, (#[trigger] t.comments@[j]).0 as int) && line_start(
                s@, t.comments@[j].0 as int) == ls),
        decreases t.comments.len() - k,
    {
        let cs = t.comments[k].0;
        assert(t.comments@[k as int].0 <= t.comments@[k as int].1 <= t.source_len);
        if begins_its_line_of(s, cs) && line_start_of(s, cs) == ls {
            return true;
        }
        k += 1;
    }
    false
}

/// Whether the line that starts at `ls` lies past `__END__` ([`past_end`]).
fn past_end_of(s: &[u8], t: &SyntaxTree, ls: usize) -> (r: bool)
    requires
        tree_wf(*t),
        t.source_len == s@.len(),
    ensures
        r == past_end(s@, *t, ls as int),
{
    match t.data_start {
        Some(d) => ls >= line_start_of(s, d),
        None => false,
    }
}

/// Whether the scan passes over the line that starts at `ls`
/// ([`passed_over`]).
fn passed_over_of(s: &[u8], t: &SyntaxTree, ls: usize, indent: Option<usize>) -> (r: bool)
    requires
        tree_wf(*t),
        t.source_len == s@.len(),
        ls <= s@.len(),
    ensures
        r == passed_over(s@, *t, ls as int, indent),
{
    let le = line_end_of(s, ls);
    let f = first_non_space_of(s, ls, le);
    let off = match indent {
        Some(n) => n != f - ls,
        None => false,
    };
    comment_line_of(s, t, ls) || past_end_of(s, t, ls) || f == le || off
}

/// Whether the argument lines up with line `[ls, le)` ([`aligned_token`]).
fn aligned_token_of(s: &[u8], masks: &Vec<(usize, usize)>, c: Candidate, ls: usize, le: usize) -> (r: bool)
    requires
        cand_ok(c, s@.len()),
        ls <= le <= s@.len(),
    ensures
        r == aligned_token(s@, masks@, c, ls as int, le as int),
{
    let left = column_of(s, c.arg_start);
    let l = slice_subrange(s, ls, le);
    let ghost argb = s@.subrange(c.arg_start as int, c.arg_end as int);
    let word_edge = if left >= 1 {
        match char_to_byte_of(l, left - 1) {
            Some(bp) => bp < l.len() && bp + 1 < l.len() && (l[bp] == 32u8 || l[bp] == 9u8 || l[bp] == 12u8 || l[bp]
                == 11u8 || l[bp] == 13u8) && !(l[bp + 1] == 32u8 || l[bp + 1] == 9u8 || l[bp + 1] == 12u8 || l[bp
                + 1] == 11u8 || l[bp + 1] == 13u8),
            None => false,
        }
    } else {
        false
    };
    if word_edge {
        return true;
    }
    let n = c.arg_end - c.arg_start;
    let same_text = match char_to_byte_of(l, left) {
        Some(bp) => {
            if bp <= l.len() && n <= l.len() - bp {
                let eq = ranges_equal(s, ls + bp, ls + bp + n, c.arg_start, c.arg_end);
                proof {
                    assert(l@.subrange(bp as int, bp + n) =~= s@.subrange(ls + bp, ls + bp + n));
                }
                eq
            } else {
                false
            }
        },
        None => false,
    };
    if same_text {
        return true;
    }
    aligned_equals_of(s, masks, c, ls, le)
}

/// Where the character numbered `idx` of line `l` starts
/// ([`char_to_byte`]).
fn char_to_byte_of(l: &[u8], idx: usize) -> (r: Option<usize>)
    ensures
        r == (match char_to_byte(l@, idx as nat) {
            Some(p) => Some(p as usize),
            None => None::<usize>,
        }),
        r matches Some(p) ==> p <= l@.len(),
        char_to_byte(l@, idx as nat) matches Some(p) ==> 0 <= p <= l@.len(),
{
    if utf8_ok(l) {
        let mut p: usize = 0;
        let mut count: usize = 0;
        while p < l.len()
            invariant
                p <= l@.len(),
                count <= p,
                count <= idx,
                valid_utf8(l@),
                char_pos(l@, idx as nat, p as int, count as nat) == char_pos(l@, idx as nat, 0, 0),
            decreases l.len() - p,
        {
            if !(128u8 <= l[p] && l[p] < 192u8) {
                if count == idx {
                    proof {
                        lemma_char_pos_bounds(l@, idx as nat, 0, 0);
                    }
                    return Some(p);
                }
                count += 1;
            }
            p += 1;
        }
        proof {
            lemma_char_pos_bounds(l@, idx as nat, 0, 0);
        }
        if count == idx {
            Some(l.len())
        } else {
            None
        }
    } else if idx <= l.len() {
        Some(idx)
    } else {
        None
    }
}

/// Whether an argument that ends in `=` or is `<<` lines up with the first
/// assignment or comparison token of line `[ls, le)` ([`aligned_equals`]).
fn aligned_equals_of(s: &[u8], masks: &Vec<(usize, usize)>, c: Candidate, ls: usize, le: usize) -> (r: bool)
    requires
        cand_ok(c, s@.len()),
        ls <= le <= s@.len(),
    ensures
        r == aligned_equals(s@, masks@, c, ls as int, le as int),
{
    let eq = c.arg_end > c.arg_start && s[c.arg_end - 1] == 61u8;
    let sh = c.arg_end - c.arg_start == 2 && s[c.arg_start] == 60u8 && s[c.arg_start + 1] == 60u8;
    if !eq && !sh {
        return false;
    }
    match asgn_scan_of(s, masks, ls, le) {
        None => false,
        Some((kind, _, te)) => column_of(s, te) == column_of(s, c.arg_end) && (eq || (sh && kind
            == AsgnKind::EqualSign)),
    }
}

/// The first assignment or comparison token in `[ls, le)` outside `masks`
/// ([`asgn_scan`]).
fn asgn_scan_of(s: &[u8], masks: &Vec<(usize, usize)>, ls: usize, le: usize) -> (r: Option<(AsgnKind, usize, usize)>)
    requires
        ls <= le <= s@.len(),
    ensures
        r == (match asgn_scan(s@, masks@, ls as int, le as int) {
            Some((k, a, b)) => Some((k, a as usize, b as usize)),
            None => None::<(AsgnKind, usize, usize)>,
        }),
        r matches Some((_, a, b)) ==> a <= b <= le,
        asgn_scan(s@, masks@, ls as int, le as int) matches Some((_, a, b)) ==> ls <= a < b <= le,
{
    proof {
        lemma_asgn_scan_bounds(s@, masks@, ls as int, le as int);
    }
    let mut i = ls;
    while i < le
        invariant
            ls <= i <= le <= s@.len(),
            asgn_scan(s@, masks@, i as int, le as int) == asgn_scan(s@, masks@, ls as int, le as int),
        decreases le - i,
    {
        let b = s[i];
        let op = b == 61u8 || b == 60u8 || b == 62u8 || b == 33u8 || b == 43u8 || b == 45u8 || b == 42u8 || b == 47u8
            || b == 37u8 || b == 38u8 || b == 124u8 || b == 94u8;
        if !op || masked_at(masks, i) {
            i += 1;
        } else {
            let (n, k) = tok_at_of(s, i, le);
            match k {
                Some(kind) => {
                    return Some((kind, i, i + n));
                },
                None => {
                    i += n;
                },
            }
        }
    }
    None
}

/// The operator token at `i` ([`tok_at`]).
fn tok_at_of(s: &[u8], i: usize, le: usize) -> (r: (usize, Option<AsgnKind>))
    requires
        i < le <= s@.len(),
    ensures
        r.0 == tok_at(s@, i as int, le as int).0,
        r.1 == tok_at(s@, i as int, le as int).1,
        1 <= r.0 <= le - i,
{
    let b0 = s[i];
    let two = le - i > 1;
    let three = le - i > 2;
    let b1 = if two { s[i + 1] } else { 0u8 };
    let b2 = if three { s[i + 2] } else { 0u8 };
    if three && b0 == 61u8 && b1 == 61u8 && b2 == 61u8 {
        (3, Some(AsgnKind::Comparison))
    } else if three && b0 == 60u8 && b1 == 61u8 && b2 == 62u8 {
        (3, None)
    } else if three && b2 == 61u8 && ((b0 == 60u8 && b1 == 60u8) || (b0 == 62u8 && b1 == 62u8) || (b0 == 42u8
        && b1 == 42u8) || (b0 == 38u8 && b1 == 38u8) || (b0 == 124u8 && b1 == 124u8)) {
        (3, Some(AsgnKind::EqualSign))
    } else if two && ((b0 == 61u8 && b1 == 61u8) || (b0 == 33u8 && b1 == 61u8) || ((b0 == 60u8 || b0 == 62u8)
        && b1 == 61u8)) {
        (2, Some(AsgnKind::Comparison))
    } else if two && b0 == 60u8 && b1 == 60u8 {
        (2, Some(AsgnKind::Lshft))
    } else if two && ((b0 == 61u8 && b1 == 126u8) || (b0 == 33u8 && b1 == 126u8) || (b0 == 61u8 && b1 == 62u8)
        || (b0 == 45u8 && b1 == 62u8)) {
        (2, None)
    } else if two && b1 == 61u8 && (b0 == 43u8 || b0 == 45u8 || b0 == 42u8 || b0 == 47u8 || b0 == 37u8 || b0
        == 38u8 || b0 == 124u8 || b0 == 94u8) {
        (2, Some(AsgnKind::EqualSign))
    } else if two && ((b0 == 62u8 && b1 == 62u8) || (b0 == 42u8 && b1 == 42u8) || (b0 == 38u8 && b1 == 38u8)
        || (b0 == 124u8 && b1 == 124u8) || (b0 == 38u8 && b1 == 46u8)) {
        (2, None)
    } else if b0 == 61u8 {
        (1, Some(AsgnKind::EqualSign))
    } else {
        (1, None)
    }
}

/// A found token lies in the scanned range.
proof fn lemma_asgn_scan_bounds(s: Seq<u8>, masks: Seq<(usize, usize)>, i: int, le: int)
    ensures
        asgn_scan(s, masks, i, le) matches Some((_, a, b)) ==> i <= a < b <= le,
    decreases le - i,
{
    if i < 0 || i >= le || i >= s.len() {
    } else if !op_byte(s[i]) || masked(masks, i) {
        lemma_asgn_scan_bounds(s, masks, i + 1, le);
    } else {
        let (n, k) = tok_at(s, i, le);
        if k is None {
            lemma_asgn_scan_bounds(s, masks, i + n, le);
        }
    }
}

/// A character position lies in the line, at or after where the count
/// starts.
proof fn lemma_char_pos_bounds(l: Seq<u8>, idx: nat, p: int, count: nat)
    ensures
        char_pos(l, idx, p, count) matches Some(q) ==> 0 <= q <= l.len() && (0 <= p <= l.len() ==> p <= q),
    decreases l.len() - p,
{
    if p >= l.len() || p < 0 {
    } else if !is_continuation(l[p]) {
        if count != idx {
            lemma_char_pos_bounds(l, idx, p + 1, count + 1);
        }
    } else {
        lemma_char_pos_bounds(l, idx, p + 1, count);
    }
}

/// Every offense is the run of spaces, tabs and line breaks that ends at a
/// first argument, and it is never a single byte: one byte of space before
/// the first argument is never an offense.
pub proof fn offense_is_the_space_run(s: Seq<u8>, t: SyntaxTree, evs: Seq<Event>, allow: bool, masks: Seq<(
    usize,
    usize,
)>)
    requires
        tree_wf(t),
        t.source_len == s.len(),
    ensures
        forall|j: int|
            0 <= j < offenses_of(s, t, masks, candidates_upto(s, t, evs, evs.len() as int, allow)).len() ==> {
                let o = #[trigger] offenses_of(s, t, masks, candidates_upto(s, t, evs, evs.len() as int, allow))[j];
                &&& o.0 <= o.1 <= s.len()
                &&& o.1 - o.0 != 1
                &&& forall|q: int| o.0 <= q < o.1 ==> is_blank_or_nl(#[trigger] s[q])
            },
{
    lemma_candidates_are_runs(s, t, evs, evs.len() as int, allow);
    lemma_offenses_are_runs(s, t, masks, candidates_upto(s, t, evs, evs.len() as int, allow));
}

/// Candidate `c` covers a run of spaces, tabs and line breaks that is not
/// one byte long.
pub open spec fn run_candidate(s: Seq<u8>, c: Candidate) -> bool {
    &&& c.space_start <= c.arg_start <= s.len()
    &&& c.arg_start - c.space_start != 1
    &&& forall|q: int| c.space_start <= q < c.arg_start ==> is_blank_or_nl(#[trigger] s[q])
}

/// The space run that ends at `p` lies before `p` and holds only spaces,
/// tabs and line breaks.
proof fn lemma_space_run(s: Seq<u8>, p: int)
    requires
        0 <= p <= s.len(),
    ensures
        0 <= nl_run_start(s, blank_run_start(s, p)) <= p,
        forall|q: int| nl_run_start(s, blank_run_start(s, p)) <= q < p ==> is_blank_or_nl(#[trigger] s[q]),
{
    lemma_blank_run(s, p);
    lemma_nl_run(s, blank_run_start(s, p));
}

proof fn lemma_blank_run(s: Seq<u8>, p: int)
    requires
        0 <= p <= s.len(),
    ensures
        0 <= blank_run_start(s, p) <= p,
        forall|q: int| blank_run_start(s, p) <= q < p ==> is_blank(#[trigger] s[q]),
    decreases p,
{
    if 0 < p <= s.len() && is_blank(s[p - 1]) {
        lemma_blank_run(s, p - 1);
    }
}

proof fn lemma_nl_run(s: Seq<u8>, p: int)
    requires
        0 <= p <= s.len(),
    ensures
        0 <= nl_run_start(s, p) <= p,
        forall|q: int| nl_run_start(s, p) <= q < p ==> #[trigger] s[q] == 10u8,
    decreases p,
{
    if 0 < p <= s.len() && s[p - 1] == 10u8 {
        lemma_nl_run(s, p - 1);
    }
}

/// Every candidate of the first `k` events covers a space run.
proof fn lemma_candidates_are_runs(s: Seq<u8>, t: SyntaxTree, evs: Seq<Event>, k: int, allow: bool)
    requires
        tree_wf(t),
        t.source_len == s.len(),
        k <= evs.len(),
    ensures
        forall|j: int| 0 <= j < candidates_upto(s, t, evs, k, allow).len() ==> run_candidate(s, #[trigger] candidates_upto(s, t, evs, k, allow)[j]),
    decreases k,
{
    if k > 0 {
        lemma_candidates_are_runs(s, t, evs, k - 1, allow);
        let prev = candidates_upto(s, t, evs, k - 1, allow);
        let all = candidates_upto(s, t, evs, k, allow);
        match evs[k - 1] {
            Event::Enter(i) => if i < t.nodes@.len() {
                match call_candidate(s, t, i as int, allow) {
                    Some(c) => {
                        lemma_first_argument_in(t, i as int);
                        let a = first_argument(t, i as int)->0;
                        assert(node_wf(t, a as int, s.len()));
                        lemma_space_run(s, t.nodes@[a as int].start as int);
                        assert(run_candidate(s, c));
                        assert(all == prev + seq![c]);
                        assert forall|j: int| 0 <= j < all.len() implies run_candidate(s, #[trigger] all[j]) by {
                            if j < prev.len() {
                                assert(all[j] == prev[j]);
                            } else {
                                assert(all[j] == c);
                            }
                        }
                    },
                    None => {
                        assert(all =~= prev);
                    },
                }
            } else {
                assert(all =~= prev);
            },
            _ => {
                assert(all =~= prev);
            },
        }
    }
}

/// The first argument of a call is a node of the tree.
proof fn lemma_first_argument_in(t: SyntaxTree, i: int)
    requires
        tree_wf(t),
        0 <= i < t.nodes@.len(),
    ensures
        first_argument(t, i) matches Some(a) ==> a < t.nodes@.len(),
{
    let n = t.nodes@.len() as nat;
    assert(node_wf(t, i, t.source_len as nat));
    match child_at(t, i, kinds::CALL_NODE_ARGUMENTS as int) {
        Some(c) => {
            assert(crate::syntax::field_in(t.nodes@[i].fields@[kinds::CALL_NODE_ARGUMENTS as int], n));
            assert(node_wf(t, c as int, t.source_len as nat));
            let l = list_at(t, c as int, kinds::ARGUMENTS_NODE_ARGUMENTS as int);
            if l.len() > 0 && kinds::ARGUMENTS_NODE_ARGUMENTS < t.nodes@[c as int].fields@.len() {
                assert(crate::syntax::field_in(t.nodes@[c as int].fields@[kinds::ARGUMENTS_NODE_ARGUMENTS as int], n));
            }
        },
        None => {},
    }
    match child_at(t, i, kinds::CALL_NODE_BLOCK as int) {
        Some(b) => {
            assert(crate::syntax::field_in(t.nodes@[i].fields@[kinds::CALL_NODE_BLOCK as int], n));
        },
        None => {},
    }
}

/// The offenses of candidates that cover space runs are those runs.
proof fn lemma_offenses_are_runs(s: Seq<u8>, t: SyntaxTree, masks: Seq<(usize, usize)>, cs: Seq<Candidate>)
    requires
        forall|j: int| 0 <= j < cs.len() ==> run_candidate(s, #[trigger] cs[j]),
    ensures
        forall|j: int|
            0 <= j < offenses_of(s, t, masks, cs).len() ==> {
                let o = #[trigger] offenses_of(s, t, masks, cs)[j];
                &&& o.0 <= o.1 <= s.len()
                &&& o.1 - o.0 != 1
                &&& forall|q: int| o.0 <= q < o.1 ==> is_blank_or_nl(#[trigger] s[q])
            },
    decreases cs.len(),
{
    if cs.len() > 0 {
        let c = cs.last();
        let prev = offenses_of(s, t, masks, cs.drop_last());
        let all = offenses_of(s, t, masks, cs);
        assert(forall|j: int| 0 <= j < cs.drop_last().len() ==> cs.drop_last()[j] == cs[j]);
        lemma_offenses_are_runs(s, t, masks, cs.drop_last());
        assert(run_candidate(s, cs[cs.len() - 1]));
        if kept(s, t, masks, c) {
            assert(all == prev + seq![(c.space_start, c.arg_start)]);
            assert forall|j: int| 0 <= j < all.len() implies {
                let o = #[trigger] all[j];
                &&& o.0 <= o.1 <= s.len()
                &&& o.1 - o.0 != 1
                &&& forall|q: int| o.0 <= q < o.1 ==> is_blank_or_nl(#[trigger] s[q])
            } by {
                if j < prev.len() {
                    assert(all[j] == prev[j]);
                } else {
                    assert(all[j] == (c.space_start, c.arg_start));
                }
            }
        } else {
            assert(all =~= prev);
        }
    }
}

/// The end of the line that starts at `ls` lies at or after `ls` and within
/// the source, at a line break unless it is the end.
pub proof fn lemma_line_end_bounds(s: Seq<u8>, ls: int)
    ensures
        ls <= line_end(s, ls),
        ls <= s.len() ==> line_end(s, ls) <= s.len(),
        0 <= line_end(s, ls) < s.len() ==> s[line_end(s, ls)] == 10u8,
    decreases s.len() - ls,
{
    if !(ls >= s.len() || s[ls] == 10u8) {
        lemma_line_end_bounds(s, ls + 1);
    }
}

} // verus!
