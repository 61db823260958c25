//! `Layout/SpaceInsideArrayLiteralBrackets`: the space just inside the
//! brackets of array literals and array patterns, per `EnforcedStyle`
//! (`no_space`, `space`, `compact`) and the style for empty brackets.
//!
//! The token facts RuboCop reads are recovered from the bytes: the brackets
//! are empty when only whitespace and `\`-newline continuations lie between
//! them; the token after `[` is where the next-token scan stops; a bracket
//! sits on its own line when only whitespace precedes it on the line. Under
//! `compact`, an array is multi-dimensional on the right when the byte
//! before `]` (skipping whitespace) closes a bracketed node, which is known
//! only once the walk is over, so those checks wait until then.
//!
//! A pattern with a constant (`ADT[...]`, `ADT(...)`) is checked on the
//! first and last bracket within it, as RuboCop redirects its array patterns
//! there; a bare array pattern inside one is not checked again. Each checked
//! node carries the corrector program that its first offense applies; the
//! result keeps the programs of the offending nodes only, numbered in order
//! of first offense.

use vstd::prelude::*;
use crate::syntax::{SyntaxTree, tree_wf, node_wf};
use crate::syntax::kinds;
use crate::syntax::access::{child, range, child_at, range_at};
use crate::syntax::flatten::{parse_tree, check_tree, tree_of};
use crate::syntax::walk::{walk_events, walk, Event, events_in, event_node};
use crate::rules::space_scan::{
    is_ruby_space, spec_is_ruby_space, is_blank, next_token_start, next_token, prev_non_space, prev_nonspace,
    skip_space_left, skip_space_right, skip_space_and_newlines_left, skip_space_and_newlines_right,
    blank_run_end, blank_run_start, blank_nl_run_end, blank_nl_run_start,
};
use crate::rules::lines::{no_newline, same_line, line_start, line_start_of};

verus! {

/// `EnforcedStyle` value.
#[derive(Clone, Copy, PartialEq, Eq, Structural)]
pub enum Style {
    NoSpace,
    Space,
    Compact,
}

/// Config for `Layout/SpaceInsideArrayLiteralBrackets`.
#[derive(Clone, Copy)]
pub struct Config {
    pub style: Style,
    /// `EnforcedStyleForEmptyBrackets == 'space'`.
    pub space_empty: bool,
}

/// One offense: the reported byte range, its message, the node whose
/// corrector program applies, and whether the offense is dropped when
/// uncorrectable offenses are disabled.
#[derive(Clone, Copy)]
pub struct SpaceInsideArrayLiteralBracketsOffense {
    pub start_offset: usize,
    pub end_offset: usize,
    pub message: MessageId,
    pub node: usize,
    pub suppress_when_disable_uncorrectable: bool,
}

/// The fixed messages.
#[derive(Clone, Copy, PartialEq, Eq, Structural, Debug)]
pub enum MessageId {
    /// `Use space inside array brackets.`
    Use,
    /// `Do not use space inside array brackets.`
    DoNotUse,
    /// `Use one space inside empty array brackets.`
    UseOneEmpty,
    /// `Do not use space inside empty array brackets.`
    DoNotUseEmpty,
}

impl MessageId {
    /// The numeric tag of the message: its position in the list above.
    pub fn code(self) -> (c: u8)
        ensures
            self == MessageId::Use <==> c == 0,
            self == MessageId::DoNotUse <==> c == 1,
            self == MessageId::UseOneEmpty <==> c == 2,
            self == MessageId::DoNotUseEmpty <==> c == 3,
    {
        match self {
            MessageId::Use => 0,
            MessageId::DoNotUse => 1,
            MessageId::UseOneEmpty => 2,
            MessageId::DoNotUseEmpty => 3,
        }
    }
}

/// One corrector call.
#[derive(Clone, Copy, PartialEq, Eq, Structural)]
pub enum Op {
    /// Remove the range.
    Remove(usize, usize),
    /// Insert a space after the range.
    InsertAfter(usize, usize),
    /// Insert a space before the range.
    InsertBefore(usize, usize),
}

impl Op {
    /// `(op_code, start, end)`: 0 remove, 1 insert after, 2 insert before.
    pub fn packed(self) -> (r: (u8, usize, usize))
        ensures
            self == Op::Remove(r.1, r.2) <==> r.0 == 0,
            self == Op::InsertAfter(r.1, r.2) <==> r.0 == 1,
            self == Op::InsertBefore(r.1, r.2) <==> r.0 == 2,
    {
        match self {
            Op::Remove(s, e) => (0, s, e),
            Op::InsertAfter(s, e) => (1, s, e),
            Op::InsertBefore(s, e) => (2, s, e),
        }
    }
}

/// The offenses and the correction program of each offending node.
pub struct ArrayBracketsResult {
    pub offenses: Vec<SpaceInsideArrayLiteralBracketsOffense>,
    pub node_ops: Vec<Vec<Op>>,
}

/// A bracket check's outcome known at once, or, under `compact`, a right
/// bracket check that waits for the set of closing brackets.
#[derive(Clone, Copy)]
pub enum Item {
    Ready(SpaceInsideArrayLiteralBracketsOffense),
    PendingRight { node: usize, rb_s: usize, rb_e: usize, prev_end: usize, end_ok: bool },
}

/// The offense `[start, end)` with `message` for `node`.
pub open spec fn off(start: usize, end: usize, message: MessageId, node: usize, suppress: bool)
    -> SpaceInsideArrayLiteralBracketsOffense
{
    SpaceInsideArrayLiteralBracketsOffense {
        start_offset: start, end_offset: end, message, node, suppress_when_disable_uncorrectable: suppress,
    }
}

/// `[it]` when `b`, else nothing.
pub open spec fn opt_item(b: bool, it: Item) -> Seq<Item> {
    if b { seq![it] } else { Seq::empty() }
}

/// `[op]` when `b`, else nothing.
pub open spec fn opt_op(b: bool, op: Op) -> Seq<Op> {
    if b { seq![op] } else { Seq::empty() }
}

/// The byte at `p` exists and is a space or a tab.
pub open spec fn blank_at(s: Seq<u8>, p: int) -> bool {
    0 <= p < s.len() && is_blank(s[p])
}

/// The byte at `p` exists and is Ruby `\s`.
pub open spec fn space_at(s: Seq<u8>, p: int) -> bool {
    0 <= p < s.len() && spec_is_ruby_space(s[p])
}

/// The byte at `p` exists and is `b`.
pub open spec fn byte_is(s: Seq<u8>, p: int, b: u8) -> bool {
    0 <= p < s.len() && s[p] == b
}

/// `end_has_own_line?`: only whitespace lies between the start of the line
/// and the `]` at `rb_s`.
pub open spec fn own_line(s: Seq<u8>, rb_s: int) -> bool {
    forall|q: int| line_start(s, rb_s) <= q < rb_s ==> spec_is_ruby_space(#[trigger] s[q])
}

/// The bracket pair fits the checks: `[lb_s, lb_e)` before `[rb_s, rb_e)`
/// inside the source, in a non-empty node `[ns, ne)`.
pub open spec fn check_fits(s: Seq<u8>, ns: usize, ne: usize, lb_s: usize, lb_e: usize, rb_s: usize, rb_e: usize)
    -> bool
{
    lb_s <= lb_e <= rb_s <= rb_e <= s.len() && ns < ne <= s.len()
}

/// The items and the corrector program of one bracket check of node number
/// `node` over the node range `[ns, ne)` and the brackets `[lb_s, lb_e)` and
/// `[rb_s, rb_e)`.
pub open spec fn check_spec(s: Seq<u8>, cfg: Config, node: usize, ns: usize, ne: usize, lb_s: usize, lb_e: usize,
    rb_s: usize, rb_e: usize) -> (Seq<Item>, Seq<Op>)
{
    let tok = next_token(s, lb_e as int);
    if !check_fits(s, ns, ne, lb_s, lb_e, rb_s, rb_e) {
        (Seq::empty(), Seq::empty())
    } else if tok == rb_s {
        if cfg.space_empty {
            if !(rb_s - lb_e == 1 && byte_is(s, lb_e as int, 32u8)) {
                (seq![Item::Ready(off(lb_s, rb_e, MessageId::UseOneEmpty, node, false))],
                    seq![Op::Remove(lb_e, rb_s), Op::InsertAfter(lb_s, lb_e)])
            } else {
                (Seq::empty(), Seq::empty())
            }
        } else if rb_s != lb_e {
            (seq![Item::Ready(off(lb_s, rb_e, MessageId::DoNotUseEmpty, node, false))], seq![Op::Remove(lb_e, rb_s)])
        } else {
            (Seq::empty(), Seq::empty())
        }
    } else if lb_e == rb_s {
        (Seq::empty(), Seq::empty())
    } else {
        let crossed = exists|k: int| lb_e <= k < tok && s[k] == 10u8;
        let end_ok = if no_newline(s, ns as int, ne - 1) { false } else { own_line(s, rb_s as int) };
        let l_run = blank_run_end(s, lb_e as int) as usize;
        let r_run = blank_run_start(s, rb_s as int) as usize;
        match cfg.style {
            Style::NoSpace => {
                let start_ok = byte_is(s, tok, 35u8);
                (opt_item(blank_at(s, lb_e as int) && !start_ok, Item::Ready(off(lb_e, l_run, MessageId::DoNotUse, node, false)))
                    + opt_item(blank_at(s, rb_s - 1) && !end_ok,
                        Item::Ready(off(r_run, rb_s, MessageId::DoNotUse, node, !start_ok))),
                 opt_op(space_at(s, lb_e as int), Op::Remove(lb_e, l_run))
                    + opt_op(space_at(s, rb_s - 1), Op::Remove(r_run, rb_s)))
            },
            Style::Space => {
                (opt_item(!(blank_at(s, lb_e as int) || crossed), Item::Ready(off(lb_s, lb_e, MessageId::Use, node, false)))
                    + opt_item(!(blank_at(s, rb_s - 1) || end_ok),
                        Item::Ready(off(rb_s, rb_e, MessageId::Use, node, !crossed))),
                 opt_op(!space_at(s, lb_e as int), Op::InsertAfter(lb_s, lb_e))
                    + opt_op(!space_at(s, rb_s - 1), Op::InsertBefore(rb_s, rb_e)))
            },
            Style::Compact => {
                let (li, lo) = if byte_is(s, tok, 91u8) {
                    (opt_item(space_at(s, lb_e as int), Item::Ready(off(lb_e, l_run, MessageId::DoNotUse, node, false))),
                        seq![Op::Remove(lb_e, blank_nl_run_end(s, lb_e as int) as usize)])
                } else {
                    (opt_item(!(blank_at(s, lb_e as int) || crossed), Item::Ready(off(lb_s, lb_e, MessageId::Use, node, false))),
                        opt_op(!space_at(s, lb_e as int), Op::InsertAfter(lb_s, lb_e)))
                };
                let (ri, ro) = match prev_nonspace(s, rb_s as int) {
                    Some(pe) => if byte_is(s, pe - 1, 93u8) {
                        (seq![Item::PendingRight { node, rb_s, rb_e, prev_end: pe as usize, end_ok }], Seq::<Op>::empty())
                    } else {
                        (opt_item(!(blank_at(s, rb_s - 1) || end_ok), Item::Ready(off(rb_s, rb_e, MessageId::Use, node, false))),
                            opt_op(!space_at(s, rb_s - 1), Op::InsertBefore(rb_s, rb_e)))
                    },
                    None => (Seq::empty(), Seq::empty()),
                };
                (li + ri, lo + ro)
            },
        }
    }
}

/// The fields of the opening and closing delimiters of a node kind that
/// can hold brackets.
pub open spec fn delim_fields(k: u16) -> Option<(usize, usize)> {
    if k == kinds::ARRAY_NODE {
        Some((kinds::ARRAY_NODE_OPENING_LOC, kinds::ARRAY_NODE_CLOSING_LOC))
    } else if k == kinds::ARRAY_PATTERN_NODE {
        Some((kinds::ARRAY_PATTERN_NODE_OPENING_LOC, kinds::ARRAY_PATTERN_NODE_CLOSING_LOC))
    } else if k == kinds::FIND_PATTERN_NODE {
        Some((kinds::FIND_PATTERN_NODE_OPENING_LOC, kinds::FIND_PATTERN_NODE_CLOSING_LOC))
    } else if k == kinds::HASH_PATTERN_NODE {
        Some((kinds::HASH_PATTERN_NODE_OPENING_LOC, kinds::HASH_PATTERN_NODE_CLOSING_LOC))
    } else if k == kinds::CALL_NODE {
        Some((kinds::CALL_NODE_OPENING_LOC, kinds::CALL_NODE_CLOSING_LOC))
    } else if k == kinds::INDEX_TARGET_NODE {
        Some((kinds::INDEX_TARGET_NODE_OPENING_LOC, kinds::INDEX_TARGET_NODE_CLOSING_LOC))
    } else if k == kinds::INDEX_OPERATOR_WRITE_NODE {
        Some((kinds::INDEX_OPERATOR_WRITE_NODE_OPENING_LOC, kinds::INDEX_OPERATOR_WRITE_NODE_CLOSING_LOC))
    } else if k == kinds::INDEX_OR_WRITE_NODE {
        Some((kinds::INDEX_OR_WRITE_NODE_OPENING_LOC, kinds::INDEX_OR_WRITE_NODE_CLOSING_LOC))
    } else if k == kinds::INDEX_AND_WRITE_NODE {
        Some((kinds::INDEX_AND_WRITE_NODE_OPENING_LOC, kinds::INDEX_AND_WRITE_NODE_CLOSING_LOC))
    } else {
        None
    }
}

/// The opening and closing delimiter ranges of node `j`, when it has both.
pub open spec fn delims(t: SyntaxTree, j: int) -> Option<(usize, usize, usize, usize)> {
    match delim_fields(t.nodes@[j].kind) {
        Some((of, cf)) => match (range_at(t, j, of as int), range_at(t, j, cf as int)) {
            (Some((o0, o1)), Some((c0, c1))) => Some((o0, o1, c0, c1)),
            _ => None,
        },
        None => None,
    }
}

/// An index node (`a[i] = ...`, `a[i] += ...` and the like).
pub open spec fn is_index_kind(k: u16) -> bool {
    k == kinds::INDEX_TARGET_NODE || k == kinds::INDEX_OPERATOR_WRITE_NODE || k == kinds::INDEX_OR_WRITE_NODE
        || k == kinds::INDEX_AND_WRITE_NODE
}

/// Node `j` is an array, find or hash pattern with a constant.
pub open spec fn has_constant(t: SyntaxTree, j: int) -> bool {
    let k = t.nodes@[j].kind;
    if k == kinds::ARRAY_PATTERN_NODE {
        child_at(t, j, kinds::ARRAY_PATTERN_NODE_CONSTANT as int) is Some
    } else if k == kinds::FIND_PATTERN_NODE {
        child_at(t, j, kinds::FIND_PATTERN_NODE_CONSTANT as int) is Some
    } else if k == kinds::HASH_PATTERN_NODE {
        child_at(t, j, kinds::HASH_PATTERN_NODE_CONSTANT as int) is Some
    } else {
        false
    }
}

/// The bracket pair that node `j` contributes to a hunt: its delimiters
/// when they are brackets (an index node's always count).
pub open spec fn hunt_pair(s: Seq<u8>, t: SyntaxTree, j: int) -> Option<(usize, usize)> {
    match delims(t, j) {
        Some((o0, _, c0, _)) => if is_index_kind(t.nodes@[j].kind) || byte_is(s, o0 as int, 91u8) {
            Some((o0, c0))
        } else {
            None
        },
        None => None,
    }
}

/// The furthest subtree end of the patterns with a constant among the nodes
/// strictly between `i` and `j`.
pub open spec fn const_reach(t: SyntaxTree, i: int, j: int) -> usize
    decreases j - i,
{
    if j <= i + 1 {
        0
    } else {
        let r = const_reach(t, i, j - 1);
        if has_constant(t, j - 1) && t.nodes@[j - 1].subtree_end > r { t.nodes@[j - 1].subtree_end } else { r }
    }
}

/// Node `j`, below node `i`, is a bracketed array pattern without a constant
/// and no pattern with a constant between `i` and `j` covers it.
pub open spec fn bare_at(s: Seq<u8>, t: SyntaxTree, i: int, j: int) -> bool {
    &&& t.nodes@[j].kind == kinds::ARRAY_PATTERN_NODE
    &&& !has_constant(t, j)
    &&& delims(t, j) matches Some((o0, _, _, _)) && byte_is(s, o0 as int, 91u8)
    &&& const_reach(t, i, j) <= j
}

/// Over the nodes strictly between `i` and `k`: the first bracket, the last
/// bracket and whether a bare array pattern occurs.
pub open spec fn scan_upto(s: Seq<u8>, t: SyntaxTree, i: int, k: int) -> (Option<usize>, Option<usize>, bool)
    decreases k - i,
{
    if k <= i + 1 {
        (None, None, false)
    } else {
        let (mn, mx, b) = scan_upto(s, t, i, k - 1);
        let j = k - 1;
        let (mn2, mx2) = match hunt_pair(s, t, j) {
            Some((o, c)) => (
                match mn { Some(m) => if o < m { Some(o) } else { mn }, None => Some(o) },
                match mx { Some(m) => if c > m { Some(c) } else { mx }, None => Some(c) },
            ),
            None => (mn, mx),
        };
        (mn2, mx2, b || bare_at(s, t, i, j))
    }
}

/// The walk's state: items, the corrector program of each checked node, the
/// closing brackets seen (under `compact`) and the furthest end of the
/// patterns with a constant entered so far.
pub type ArrayState = (Seq<Item>, Seq<Seq<Op>>, Set<usize>, usize);

/// One bracket check appended to the state.
pub open spec fn do_check(s: Seq<u8>, cfg: Config, st: ArrayState, ns: usize, ne: usize, lb_s: usize, lb_e: usize,
    rb_s: usize, rb_e: usize) -> ArrayState
{
    let (items, ops) = check_spec(s, cfg, st.1.len() as usize, ns, ne, lb_s, lb_e, rb_s, rb_e);
    (st.0 + items, st.1.push(ops), st.2, st.3)
}

/// The check of node `i` on the first and last bracket below it.
pub open spec fn do_hunt(s: Seq<u8>, t: SyntaxTree, cfg: Config, st: ArrayState, i: int) -> ArrayState {
    let nd = t.nodes@[i];
    match scan_upto(s, t, i, nd.subtree_end as int) {
        (Some(l), Some(r), _) => if l < s.len() && r < s.len() {
            do_check(s, cfg, st, nd.start, nd.end, l, (l + 1) as usize, r, (r + 1) as usize)
        } else {
            st
        },
        _ => st,
    }
}

/// The closing bracket that node `j` adds under `compact`.
pub open spec fn closer_of(s: Seq<u8>, t: SyntaxTree, cfg: Config, j: int) -> Option<usize> {
    match delims(t, j) {
        Some((o0, _, c0, _)) => if cfg.style == Style::Compact && byte_is(s, o0 as int, 91u8) { Some(c0) } else { None },
        None => None,
    }
}

/// The state after entering node `i`.
pub open spec fn enter(s: Seq<u8>, t: SyntaxTree, cfg: Config, st0: ArrayState, i: int) -> ArrayState {
    let k = t.nodes@[i].kind;
    let nd = t.nodes@[i];
    let st = match closer_of(s, t, cfg, i) {
        Some(c) => (st0.0, st0.1, st0.2.insert(c), st0.3),
        None => st0,
    };
    let raised = (st.0, st.1, st.2, if nd.end > st.3 { nd.end } else { st.3 });
    if k == kinds::ARRAY_NODE {
        match delims(t, i) {
            Some((o0, o1, c0, c1)) => if byte_is(s, o0 as int, 91u8) {
                do_check(s, cfg, st, nd.start, nd.end, o0, o1, c0, c1)
            } else {
                st
            },
            None => st,
        }
    } else if k == kinds::ARRAY_PATTERN_NODE {
        match delims(t, i) {
            Some((o0, o1, c0, c1)) => if has_constant(t, i) {
                if byte_is(s, o0 as int, 91u8) {
                    do_check(s, cfg, raised, nd.start, nd.end, o0, o1, c0, c1)
                } else {
                    do_hunt(s, t, cfg, raised, i)
                }
            } else if byte_is(s, o0 as int, 91u8) && nd.start >= st.3 {
                do_check(s, cfg, st, nd.start, nd.end, o0, o1, c0, c1)
            } else {
                st
            },
            None => if range_at(t, i, kinds::ARRAY_PATTERN_NODE_OPENING_LOC as int) is None
                && range_at(t, i, kinds::ARRAY_PATTERN_NODE_CLOSING_LOC as int) is None && nd.start >= st.3 {
                do_hunt(s, t, cfg, st, i)
            } else {
                st
            },
        }
    } else if k == kinds::FIND_PATTERN_NODE || k == kinds::HASH_PATTERN_NODE {
        match delims(t, i) {
            Some((o0, o1, c0, c1)) => if has_constant(t, i) {
                if scan_upto(s, t, i, nd.subtree_end as int).2 {
                    if byte_is(s, o0 as int, 91u8) {
                        do_check(s, cfg, raised, nd.start, nd.end, o0, o1, c0, c1)
                    } else {
                        do_hunt(s, t, cfg, raised, i)
                    }
                } else {
                    raised
                }
            } else {
                st
            },
            None => st,
        }
    } else {
        st
    }
}

/// The state after the first `k` events.
pub open spec fn run(s: Seq<u8>, t: SyntaxTree, cfg: Config, evs: Seq<Event>, k: int) -> ArrayState
    decreases k,
{
    if k <= 0 {
        (Seq::empty(), Seq::empty(), Set::empty(), 0)
    } else {
        let st = run(s, t, cfg, evs, k - 1);
        match evs[k - 1] {
            Event::Enter(i) => enter(s, t, cfg, st, i as int),
            _ => st,
        }
    }
}

/// An item resolved against the closing brackets: its offense, if any, and
/// the corrector call it adds to its node's program, if any.
pub open spec fn resolve(s: Seq<u8>, closers: Set<usize>, it: Item)
    -> (Option<SpaceInsideArrayLiteralBracketsOffense>, Option<Op>)
{
    match it {
        Item::Ready(o) => (Some(o), None),
        Item::PendingRight { node, rb_s, rb_e, prev_end, end_ok } => {
            if prev_end > 0 && closers.contains((prev_end - 1) as usize) {
                (if space_at(s, rb_s - 1) {
                    Some(off(blank_run_start(s, rb_s as int) as usize, rb_s, MessageId::DoNotUse, node, false))
                } else {
                    None
                }, Some(Op::Remove(blank_nl_run_start(s, rb_s as int) as usize, rb_s)))
            } else {
                (if !(blank_at(s, rb_s - 1) || end_ok) {
                    Some(off(rb_s, rb_e, MessageId::Use, node, false))
                } else {
                    None
                }, if !space_at(s, rb_s - 1) { Some(Op::InsertBefore(rb_s, rb_e)) } else { None })
            }
        },
    }
}

/// The node an item belongs to.
pub open spec fn item_node(it: Item) -> usize {
    match it {
        Item::Ready(o) => o.node,
        Item::PendingRight { node, .. } => node,
    }
}

/// The offenses of the first `k` items and the extra corrector call of each
/// of `n` nodes.
pub open spec fn resolved(s: Seq<u8>, closers: Set<usize>, items: Seq<Item>, n: nat, k: int)
    -> (Seq<SpaceInsideArrayLiteralBracketsOffense>, Seq<Option<Op>>)
    decreases k,
{
    if k <= 0 {
        (Seq::empty(), Seq::new(n, |x: int| None))
    } else {
        let (offs, extra) = resolved(s, closers, items, n, k - 1);
        let (o, op) = resolve(s, closers, items[k - 1]);
        let offs2 = match o { Some(x) => offs.push(x), None => offs };
        let extra2 = match op { Some(x) => extra.update(item_node(items[k - 1]) as int, Some(x)), None => extra };
        (offs2, extra2)
    }
}

/// The corrector program of `node`: its check's calls and its extra call.
pub open spec fn program(ops: Seq<Seq<Op>>, extra: Seq<Option<Op>>, node: int) -> Seq<Op> {
    match extra[node] {
        Some(x) => ops[node].push(x),
        None => ops[node],
    }
}

/// The first `k` offenses renumbered by first appearance of their node, the
/// programs of those nodes in that order, and the numbering so far.
pub open spec fn compact(offs: Seq<SpaceInsideArrayLiteralBracketsOffense>, ops: Seq<Seq<Op>>,
    extra: Seq<Option<Op>>, k: int) -> (Seq<SpaceInsideArrayLiteralBracketsOffense>, Seq<Seq<Op>>, Seq<Option<usize>>)
    decreases k,
{
    if k <= 0 {
        (Seq::empty(), Seq::empty(), Seq::new(ops.len(), |x: int| None))
    } else {
        let (out, kept, remap) = compact(offs, ops, extra, k - 1);
        let o = offs[k - 1];
        match remap[o.node as int] {
            Some(slot) => (out.push(off(o.start_offset, o.end_offset, o.message, slot, o.suppress_when_disable_uncorrectable)),
                kept, remap),
            None => {
                let slot = kept.len() as usize;
                (out.push(off(o.start_offset, o.end_offset, o.message, slot, o.suppress_when_disable_uncorrectable)),
                    kept.push(program(ops, extra, o.node as int)), remap.update(o.node as int, Some(slot)))
            },
        }
    }
}

/// The result of a walk's state: the resolved offenses, renumbered, and the
/// programs of the offending nodes.
pub open spec fn result_of(s: Seq<u8>, st: ArrayState) -> (Seq<SpaceInsideArrayLiteralBracketsOffense>, Seq<Seq<Op>>) {
    let (offs, extra) = resolved(s, st.2, st.0, st.1.len(), st.0.len() as int);
    let (out, kept, _) = compact(offs, st.1, extra, offs.len() as int);
    (out, kept)
}

/// The closing-bracket positions marked in `marks`.
pub open spec fn closer_set(marks: Seq<bool>) -> Set<usize> {
    Set::new(|x: usize| x < marks.len() && marks[x as int])
}

/// The offenses of `source` and the programs of the offending nodes.
pub fn check_space_inside_array_literal_brackets(source: &[u8], config: Config) -> (r: ArrayBracketsResult)
    ensures
        exists|t: SyntaxTree| #[trigger] tree_of(t, source@) && (if tree_wf(t) {
            &&& r.offenses@ == result_of(source@, run(source@, t, config, walk_events(t), walk_events(t).len() as int)).0
            &&& r.node_ops@.len() == result_of(source@, run(source@, t, config, walk_events(t), walk_events(t).len() as int)).1.len()
            &&& forall|k: int| 0 <= k < r.node_ops@.len()
                ==> (#[trigger] r.node_ops@[k])@ == result_of(source@, run(source@, t, config, walk_events(t), walk_events(t).len() as int)).1[k]
        } else {
            r.offenses@.len() == 0 && r.node_ops@.len() == 0
        }),
{
    let t = parse_tree(source);
    if !check_tree(&t) {
        assert(tree_of(t, source@));
        return ArrayBracketsResult { offenses: Vec::new(), node_ops: Vec::new() };
    }
    let evs = walk(&t);
    let r = array_brackets_result(source, &t, &evs, config);
    assert(tree_of(t, source@));
    r
}

/// The offenses of the parsed `source` over the walk `evs`, and the
/// programs of the offending nodes.
pub fn array_brackets_result(source: &[u8], t: &SyntaxTree, evs: &Vec<Event>, cfg: Config) -> (r: ArrayBracketsResult)
    requires
        tree_wf(*t),
        t.source_len == source@.len(),
        events_in(evs@, t.nodes@.len() as nat),
    ensures
        r.offenses@ == result_of(source@, run(source@, *t, cfg, evs@, evs@.len() as int)).0,
        r.node_ops@.len() == result_of(source@, run(source@, *t, cfg, evs@, evs@.len() as int)).1.len(),
        forall|k: int| 0 <= k < r.node_ops@.len()
            ==> (#[trigger] r.node_ops@[k])@ == result_of(source@, run(source@, *t, cfg, evs@, evs@.len() as int)).1[k],
{
    let mut items: Vec<Item> = Vec::new();
    let mut ops: Vec<Vec<Op>> = Vec::new();
    let mut marks: Vec<bool> = Vec::new();
    marks.push(false);
    let mut q: usize = 0;
    while q < source.len()
        invariant
            q <= source@.len(),
            marks@.len() == q + 1,
            forall|x: int| 0 <= x < q + 1 ==> !marks@[x],
        decreases source@.len() - q,
    {
        marks.push(false);
        q += 1;
    }
    assert(closer_set(marks@) =~= Set::<usize>::empty());
    let mut scope_end: usize = 0;
    let mut k: usize = 0;
    while k < evs.len()
        invariant
            tree_wf(*t),
            t.source_len == source@.len(),
            events_in(evs@, t.nodes@.len() as nat),
            k <= evs@.len(),
            marks@.len() == source@.len() + 1,
            run(source@, *t, cfg, evs@, k as int)
                == (items@, ops@.map_values(|v: Vec<Op>| v@), closer_set(marks@), scope_end),
            forall|x: int| 0 <= x < items@.len() ==> item_node(#[trigger] items@[x]) < ops@.len(),
        decreases evs.len() - k,
    {
        assert(event_node(evs@[k as int]) < t.nodes@.len());
        match evs[k] {
            Event::Enter(i) => {
                enter_node(source, t, cfg, i, &mut items, &mut ops, &mut marks, &mut scope_end);
            },
            _ => {},
        }
        k += 1;
    }
    let ghost st = run(source@, *t, cfg, evs@, evs@.len() as int);
    assert(st.1.len() == ops@.len());
    finish(source, &items, &ops, &marks)
}

/// [`byte_is`].
fn byte_is_of(s: &[u8], p: usize, b: u8) -> (r: bool)
    ensures
        r == byte_is(s@, p as int, b),
{
    p < s.len() && s[p] == b
}

/// [`delim_fields`].
fn delim_fields_of(k: u16) -> (r: Option<(usize, usize)>)
    ensures
        r == delim_fields(k),
{
    if k == kinds::ARRAY_NODE {
        Some((kinds::ARRAY_NODE_OPENING_LOC, kinds::ARRAY_NODE_CLOSING_LOC))
    } else if k == kinds::ARRAY_PATTERN_NODE {
        Some((kinds::ARRAY_PATTERN_NODE_OPENING_LOC, kinds::ARRAY_PATTERN_NODE_CLOSING_LOC))
    } else if k == kinds::FIND_PATTERN_NODE {
        Some((kinds::FIND_PATTERN_NODE_OPENING_LOC, kinds::FIND_PATTERN_NODE_CLOSING_LOC))
    } else if k == kinds::HASH_PATTERN_NODE {
        Some((kinds::HASH_PATTERN_NODE_OPENING_LOC, kinds::HASH_PATTERN_NODE_CLOSING_LOC))
    } else if k == kinds::CALL_NODE {
        Some((kinds::CALL_NODE_OPENING_LOC, kinds::CALL_NODE_CLOSING_LOC))
    } else if k == kinds::INDEX_TARGET_NODE {
        Some((kinds::INDEX_TARGET_NODE_OPENING_LOC, kinds::INDEX_TARGET_NODE_CLOSING_LOC))
    } else if k == kinds::INDEX_OPERATOR_WRITE_NODE {
        Some((kinds::INDEX_OPERATOR_WRITE_NODE_OPENING_LOC, kinds::INDEX_OPERATOR_WRITE_NODE_CLOSING_LOC))
    } else if k == kinds::INDEX_OR_WRITE_NODE {
        Some((kinds::INDEX_OR_WRITE_NODE_OPENING_LOC, kinds::INDEX_OR_WRITE_NODE_CLOSING_LOC))
    } else if k == kinds::INDEX_AND_WRITE_NODE {
        Some((kinds::INDEX_AND_WRITE_NODE_OPENING_LOC, kinds::INDEX_AND_WRITE_NODE_CLOSING_LOC))
    } else {
        None
    }
}

/// [`delims`].
pub fn delims_of(t: &SyntaxTree, j: usize) -> (r: Option<(usize, usize, usize, usize)>)
    requires
        tree_wf(*t),
        j < t.nodes@.len(),
    ensures
        r == delims(*t, j as int),
        r matches Some((o0, o1, c0, c1)) ==> o0 <= o1 <= t.source_len && c0 <= c1 <= t.source_len,
{
    match delim_fields_of(t.nodes[j].kind) {
        Some((of, cf)) => match (range(t, j, of), range(t, j, cf)) {
            (Some((o0, o1)), Some((c0, c1))) => Some((o0, o1, c0, c1)),
            _ => None,
        },
        None => None,
    }
}

/// [`has_constant`].
fn has_constant_of(t: &SyntaxTree, j: usize) -> (r: bool)
    requires
        tree_wf(*t),
        j < t.nodes@.len(),
    ensures
        r == has_constant(*t, j as int),
{
    let k = t.nodes[j].kind;
    if k == kinds::ARRAY_PATTERN_NODE {
        child(t, j, kinds::ARRAY_PATTERN_NODE_CONSTANT).is_some()
    } else if k == kinds::FIND_PATTERN_NODE {
        child(t, j, kinds::FIND_PATTERN_NODE_CONSTANT).is_some()
    } else if k == kinds::HASH_PATTERN_NODE {
        child(t, j, kinds::HASH_PATTERN_NODE_CONSTANT).is_some()
    } else {
        false
    }
}

/// [`hunt_pair`].
fn hunt_pair_of(s: &[u8], t: &SyntaxTree, j: usize) -> (r: Option<(usize, usize)>)
    requires
        tree_wf(*t),
        j < t.nodes@.len(),
    ensures
        r == hunt_pair(s@, *t, j as int),
{
    let k = t.nodes[j].kind;
    match delims_of(t, j) {
        Some((o0, _, c0, _)) => {
            let idx = k == kinds::INDEX_TARGET_NODE || k == kinds::INDEX_OPERATOR_WRITE_NODE
                || k == kinds::INDEX_OR_WRITE_NODE || k == kinds::INDEX_AND_WRITE_NODE;
            if idx || byte_is_of(s, o0, 91u8) { Some((o0, c0)) } else { None }
        },
        None => None,
    }
}

/// [`scan_upto`] over the whole subtree of node `i`.
fn scan_subtree(s: &[u8], t: &SyntaxTree, i: usize) -> (r: (Option<usize>, Option<usize>, bool))
    requires
        tree_wf(*t),
        i < t.nodes@.len(),
    ensures
        r == scan_upto(s@, *t, i as int, t.nodes@[i as int].subtree_end as int),
{
    assert(node_wf(*t, i as int, t.source_len as nat));
    let end = t.nodes[i].subtree_end;
    let mut mn: Option<usize> = None;
    let mut mx: Option<usize> = None;
    let mut bare = false;
    let mut reach: usize = 0;
    let mut k = i + 1;
    while k < end
        invariant
            tree_wf(*t),
            i < k <= end <= t.nodes@.len(),
            (mn, mx, bare) == scan_upto(s@, *t, i as int, k as int),
            reach == const_reach(*t, i as int, k as int),
        decreases end - k,
    {
        match hunt_pair_of(s, t, k) {
            Some((o, c)) => {
                mn = match mn { Some(m) => if o < m { Some(o) } else { mn }, None => Some(o) };
                mx = match mx { Some(m) => if c > m { Some(c) } else { mx }, None => Some(c) };
            },
            None => {},
        }
        let kc = has_constant_of(t, k);
        if !bare && t.nodes[k].kind == kinds::ARRAY_PATTERN_NODE && !kc && reach <= k {
            match delims_of(t, k) {
                Some((o0, _, _, _)) => {
                    if byte_is_of(s, o0, 91u8) {
                        bare = true;
                    }
                },
                None => {},
            }
        }
        if kc && t.nodes[k].subtree_end > reach {
            reach = t.nodes[k].subtree_end;
        }
        k += 1;
    }
    (mn, mx, bare)
}

/// The items and program of one bracket check ([`check_spec`]); the items
/// are appended to `items`.
#[verifier::rlimit(60)]
fn check_brackets(s: &[u8], cfg: Config, node: usize, ns: usize, ne: usize, lb_s: usize, lb_e: usize, rb_s: usize,
    rb_e: usize, items: &mut Vec<Item>) -> (ops: Vec<Op>)
    ensures
        final(items)@ == old(items)@ + check_spec(s@, cfg, node, ns, ne, lb_s, lb_e, rb_s, rb_e).0,
        ops@ == check_spec(s@, cfg, node, ns, ne, lb_s, lb_e, rb_s, rb_e).1,
        forall|x: int| old(items)@.len() <= x < final(items)@.len() ==> item_node(#[trigger] final(items)@[x]) == node,
{
    let ghost spec = check_spec(s@, cfg, node, ns, ne, lb_s, lb_e, rb_s, rb_e);
    let ghost start = items@;
    let mut ops: Vec<Op> = Vec::new();
    if !(lb_s <= lb_e && lb_e <= rb_s && rb_s <= rb_e && rb_e <= s.len() && ns < ne && ne <= s.len()) {
        assert(items@ =~= start + spec.0);
        return ops;
    }
    let (tok, crossed) = next_token_start(s, lb_e);
    if tok == rb_s {
        if cfg.space_empty {
            if !(rb_s - lb_e == 1 && s[lb_e] == 32u8) {
                items.push(Item::Ready(SpaceInsideArrayLiteralBracketsOffense {
                    start_offset: lb_s, end_offset: rb_e, message: MessageId::UseOneEmpty, node,
                    suppress_when_disable_uncorrectable: false,
                }));
                ops.push(Op::Remove(lb_e, rb_s));
                ops.push(Op::InsertAfter(lb_s, lb_e));
            }
        } else if rb_s != lb_e {
            items.push(Item::Ready(SpaceInsideArrayLiteralBracketsOffense {
                start_offset: lb_s, end_offset: rb_e, message: MessageId::DoNotUseEmpty, node,
                suppress_when_disable_uncorrectable: false,
            }));
            ops.push(Op::Remove(lb_e, rb_s));
        }
        assert(items@ =~= start + spec.0);
        assert(ops@ =~= spec.1);
        return ops;
    }
    if lb_e == rb_s {
        assert(items@ =~= start + spec.0);
        return ops;
    }
    let single = same_line(s, ns, ne - 1);
    let end_ok = if single { false } else { own_line_of(s, rb_s) };
    let l_run = skip_space_right(s, lb_e);
    let r_run = skip_space_left(s, rb_s);
    let lb_blank = s[lb_e] == 32u8 || s[lb_e] == 9u8;
    let rb_blank = s[rb_s - 1] == 32u8 || s[rb_s - 1] == 9u8;
    let lb_space = is_ruby_space(s[lb_e]);
    let rb_space = is_ruby_space(s[rb_s - 1]);
    match cfg.style {
        Style::NoSpace => {
            let start_ok = byte_is_of(s, tok, 35u8);
            if lb_blank && !start_ok {
                items.push(Item::Ready(SpaceInsideArrayLiteralBracketsOffense {
                    start_offset: lb_e, end_offset: l_run, message: MessageId::DoNotUse, node,
                    suppress_when_disable_uncorrectable: false,
                }));
            }
            if rb_blank && !end_ok {
                items.push(Item::Ready(SpaceInsideArrayLiteralBracketsOffense {
                    start_offset: r_run, end_offset: rb_s, message: MessageId::DoNotUse, node,
                    suppress_when_disable_uncorrectable: !start_ok,
                }));
            }
            if lb_space {
                ops.push(Op::Remove(lb_e, l_run));
            }
            if rb_space {
                ops.push(Op::Remove(r_run, rb_s));
            }
        },
        Style::Space => {
            if !(lb_blank || crossed) {
                items.push(Item::Ready(SpaceInsideArrayLiteralBracketsOffense {
                    start_offset: lb_s, end_offset: lb_e, message: MessageId::Use, node,
                    suppress_when_disable_uncorrectable: false,
                }));
            }
            if !(rb_blank || end_ok) {
                items.push(Item::Ready(SpaceInsideArrayLiteralBracketsOffense {
                    start_offset: rb_s, end_offset: rb_e, message: MessageId::Use, node,
                    suppress_when_disable_uncorrectable: !crossed,
                }));
            }
            if !lb_space {
                ops.push(Op::InsertAfter(lb_s, lb_e));
            }
            if !rb_space {
                ops.push(Op::InsertBefore(rb_s, rb_e));
            }
        },
        Style::Compact => {
            if byte_is_of(s, tok, 91u8) {
                if lb_space {
                    items.push(Item::Ready(SpaceInsideArrayLiteralBracketsOffense {
                        start_offset: lb_e, end_offset: l_run, message: MessageId::DoNotUse, node,
                        suppress_when_disable_uncorrectable: false,
                    }));
                }
                ops.push(Op::Remove(lb_e, skip_space_and_newlines_right(s, lb_e)));
            } else {
                if !(lb_blank || crossed) {
                    items.push(Item::Ready(SpaceInsideArrayLiteralBracketsOffense {
                        start_offset: lb_s, end_offset: lb_e, message: MessageId::Use, node,
                        suppress_when_disable_uncorrectable: false,
                    }));
                }
                if !lb_space {
                    ops.push(Op::InsertAfter(lb_s, lb_e));
                }
            }
            match prev_non_space(s, rb_s) {
                Some(pe) => {
                    if s[pe - 1] == 93u8 {
                        items.push(Item::PendingRight { node, rb_s, rb_e, prev_end: pe, end_ok });
                    } else {
                        if !(rb_blank || end_ok) {
                            items.push(Item::Ready(SpaceInsideArrayLiteralBracketsOffense {
                                start_offset: rb_s, end_offset: rb_e, message: MessageId::Use, node,
                                suppress_when_disable_uncorrectable: false,
                            }));
                        }
                        if !rb_space {
                            ops.push(Op::InsertBefore(rb_s, rb_e));
                        }
                    }
                },
                None => {},
            }
        },
    }
    assert(items@ =~= start + spec.0);
    assert(ops@ =~= spec.1);
    ops
}

/// [`own_line`].
fn own_line_of(s: &[u8], rb_s: usize) -> (r: bool)
    requires
        rb_s <= s@.len(),
    ensures
        r == own_line(s@, rb_s as int),
{
    let ls = line_start_of(s, rb_s);
    let mut q = ls;
    while q < rb_s
        invariant
            ls <= q <= rb_s <= s@.len(),
            ls == line_start(s@, rb_s as int),
            forall|x: int| ls <= x < q ==> spec_is_ruby_space(#[trigger] s@[x]),
        decreases rb_s - q,
    {
        if !is_ruby_space(s[q]) {
            assert(!spec_is_ruby_space(s@[q as int]));
            return false;
        }
        q += 1;
    }
    true
}

/// One bracket check of the walk: the node number is the next program's.
fn run_check(s: &[u8], cfg: Config, ns: usize, ne: usize, lb_s: usize, lb_e: usize, rb_s: usize, rb_e: usize,
    items: &mut Vec<Item>, ops: &mut Vec<Vec<Op>>)
    requires
        forall|x: int| 0 <= x < old(items)@.len() ==> item_node(#[trigger] old(items)@[x]) < old(ops)@.len(),
    ensures
        (final(items)@, final(ops)@.map_values(|v: Vec<Op>| v@)) == {
            let st = do_check(s@, cfg, (old(items)@, old(ops)@.map_values(|v: Vec<Op>| v@), Set::empty(), 0usize),
                ns, ne, lb_s, lb_e, rb_s, rb_e);
            (st.0, st.1)
        },
        forall|x: int| 0 <= x < final(items)@.len() ==> item_node(#[trigger] final(items)@[x]) < final(ops)@.len(),
{
    let node = ops.len();
    let ghost before = items@;
    let prog = check_brackets(s, cfg, node, ns, ne, lb_s, lb_e, rb_s, rb_e, items);
    let ghost ops_before = ops@;
    ops.push(prog);
    assert(ops@.map_values(|v: Vec<Op>| v@) =~= ops_before.map_values(|v: Vec<Op>| v@).push(prog@));
    assert forall|x: int| 0 <= x < items@.len() implies item_node(#[trigger] items@[x]) < ops@.len() by {
        if x < before.len() {
            assert(items@[x] == before[x]);
        }
    }
}

/// [`closer_of`], marked in `marks`.
fn add_closer(s: &[u8], t: &SyntaxTree, cfg: Config, i: usize, marks: &mut Vec<bool>)
    requires
        tree_wf(*t),
        t.source_len == s@.len(),
        i < t.nodes@.len(),
        old(marks)@.len() == s@.len() + 1,
    ensures
        final(marks)@.len() == s@.len() + 1,
        closer_set(final(marks)@) == match closer_of(s@, *t, cfg, i as int) {
            Some(c) => closer_set(old(marks)@).insert(c),
            None => closer_set(old(marks)@),
        },
{
    match delims_of(t, i) {
        Some((o0, _, c0, _)) => {
            if cfg.style == Style::Compact && byte_is_of(s, o0, 91u8) {
                let ghost before = marks@;
                marks.set(c0, true);
                assert(closer_set(marks@) =~= closer_set(before).insert(c0));
            }
        },
        None => {},
    }
}

/// The state change of entering node `i` ([`enter`]).
fn enter_node(s: &[u8], t: &SyntaxTree, cfg: Config, i: usize, items: &mut Vec<Item>, ops: &mut Vec<Vec<Op>>,
    marks: &mut Vec<bool>, scope_end: &mut usize)
    requires
        tree_wf(*t),
        t.source_len == s@.len(),
        i < t.nodes@.len(),
        old(marks)@.len() == s@.len() + 1,
        forall|x: int| 0 <= x < old(items)@.len() ==> item_node(#[trigger] old(items)@[x]) < old(ops)@.len(),
    ensures
        final(marks)@.len() == s@.len() + 1,
        (final(items)@, final(ops)@.map_values(|v: Vec<Op>| v@), closer_set(final(marks)@), *final(scope_end))
            == enter(s@, *t, cfg, (old(items)@, old(ops)@.map_values(|v: Vec<Op>| v@), closer_set(old(marks)@),
                *old(scope_end)), i as int),
        forall|x: int| 0 <= x < final(items)@.len() ==> item_node(#[trigger] final(items)@[x]) < final(ops)@.len(),
{
    add_closer(s, t, cfg, i, marks);
    assert(node_wf(*t, i as int, t.source_len as nat));
    let k = t.nodes[i].kind;
    let ns = t.nodes[i].start;
    let ne = t.nodes[i].end;
    let se = *scope_end;
    let raised = if ne > se { ne } else { se };
    if k == kinds::ARRAY_NODE {
        match delims_of(t, i) {
            Some((o0, o1, c0, c1)) => {
                if byte_is_of(s, o0, 91u8) {
                    run_check(s, cfg, ns, ne, o0, o1, c0, c1, items, ops);
                }
            },
            None => {},
        }
    } else if k == kinds::ARRAY_PATTERN_NODE {
        match delims_of(t, i) {
            Some((o0, o1, c0, c1)) => {
                if has_constant_of(t, i) {
                    *scope_end = raised;
                    if byte_is_of(s, o0, 91u8) {
                        run_check(s, cfg, ns, ne, o0, o1, c0, c1, items, ops);
                    } else {
                        hunt(s, t, cfg, i, items, ops);
                    }
                } else if byte_is_of(s, o0, 91u8) && ns >= se {
                    run_check(s, cfg, ns, ne, o0, o1, c0, c1, items, ops);
                }
            },
            None => {
                if range(t, i, kinds::ARRAY_PATTERN_NODE_OPENING_LOC).is_none()
                    && range(t, i, kinds::ARRAY_PATTERN_NODE_CLOSING_LOC).is_none() && ns >= se {
                    hunt(s, t, cfg, i, items, ops);
                }
            },
        }
    } else if k == kinds::FIND_PATTERN_NODE || k == kinds::HASH_PATTERN_NODE {
        match delims_of(t, i) {
            Some((o0, o1, c0, c1)) => {
                if has_constant_of(t, i) {
                    *scope_end = raised;
                    let (_, _, bare) = scan_subtree(s, t, i);
                    if bare {
                        if byte_is_of(s, o0, 91u8) {
                            run_check(s, cfg, ns, ne, o0, o1, c0, c1, items, ops);
                        } else {
                            hunt(s, t, cfg, i, items, ops);
                        }
                    }
                }
            },
            None => {},
        }
    }
}

/// The check of node `i` on the first and last bracket below it
/// ([`do_hunt`]).
fn hunt(s: &[u8], t: &SyntaxTree, cfg: Config, i: usize, items: &mut Vec<Item>, ops: &mut Vec<Vec<Op>>)
    requires
        tree_wf(*t),
        i < t.nodes@.len(),
        forall|x: int| 0 <= x < old(items)@.len() ==> item_node(#[trigger] old(items)@[x]) < old(ops)@.len(),
    ensures
        (final(items)@, final(ops)@.map_values(|v: Vec<Op>| v@)) == {
            let st = do_hunt(s@, *t, cfg, (old(items)@, old(ops)@.map_values(|v: Vec<Op>| v@), Set::empty(), 0usize),
                i as int);
            (st.0, st.1)
        },
        forall|x: int| 0 <= x < final(items)@.len() ==> item_node(#[trigger] final(items)@[x]) < final(ops)@.len(),
{
    match scan_subtree(s, t, i) {
        (Some(l), Some(r), _) => {
            if l < s.len() && r < s.len() {
                run_check(s, cfg, t.nodes[i].start, t.nodes[i].end, l, l + 1, r, r + 1, items, ops);
            }
        },
        _ => {},
    }
}

/// [`resolve`].
fn resolve_item(s: &[u8], marks: &Vec<bool>, it: Item) -> (r: (Option<SpaceInsideArrayLiteralBracketsOffense>, Option<Op>))
    ensures
        r == resolve(s@, closer_set(marks@), it),
{
    match it {
        Item::Ready(o) => (Some(o), None),
        Item::PendingRight { node, rb_s, rb_e, prev_end, end_ok } => {
            let before = if rb_s > 0 && rb_s - 1 < s.len() { Some(s[rb_s - 1]) } else { None };
            let sp = match before { Some(b) => is_ruby_space(b), None => false };
            let bl = match before { Some(b) => b == 32u8 || b == 9u8, None => false };
            let multi = prev_end > 0 && prev_end - 1 < marks.len() && marks[prev_end - 1];
            proof {
                if prev_end > 0 {
                    let x = (prev_end - 1) as usize;
                    assert(closer_set(marks@).contains(x) == (x < marks@.len() && marks@[x as int]));
                }
                assert(multi == (prev_end > 0 && closer_set(marks@).contains((prev_end - 1) as usize)));
            }
            if multi {
                let o = if sp {
                    Some(SpaceInsideArrayLiteralBracketsOffense {
                        start_offset: skip_space_left(s, rb_s), end_offset: rb_s, message: MessageId::DoNotUse, node,
                        suppress_when_disable_uncorrectable: false,
                    })
                } else {
                    None
                };
                (o, Some(Op::Remove(skip_space_and_newlines_left(s, rb_s), rb_s)))
            } else {
                let o = if !(bl || end_ok) {
                    Some(SpaceInsideArrayLiteralBracketsOffense {
                        start_offset: rb_s, end_offset: rb_e, message: MessageId::Use, node,
                        suppress_when_disable_uncorrectable: false,
                    })
                } else {
                    None
                };
                (o, if !sp { Some(Op::InsertBefore(rb_s, rb_e)) } else { None })
            }
        },
    }
}

/// The program of a node: its check's calls and its extra call.
fn program_of(ops: &Vec<Op>, extra: Option<Op>) -> (r: Vec<Op>)
    ensures
        r@ == match extra { Some(x) => ops@.push(x), None => ops@ },
{
    let mut r: Vec<Op> = Vec::new();
    let mut j: usize = 0;
    while j < ops.len()
        invariant
            j <= ops@.len(),
            r@ == ops@.subrange(0, j as int),
        decreases ops.len() - j,
    {
        r.push(ops[j]);
        assert(ops@.subrange(0, j + 1) =~= ops@.subrange(0, j as int).push(ops@[j as int]));
        j += 1;
    }
    assert(ops@.subrange(0, ops@.len() as int) =~= ops@);
    match extra {
        Some(x) => r.push(x),
        None => {},
    }
    r
}

/// The result of the walk's final state ([`result_of`]).
fn finish(s: &[u8], items: &Vec<Item>, ops: &Vec<Vec<Op>>, marks: &Vec<bool>) -> (r: ArrayBracketsResult)
    requires
        forall|x: int| 0 <= x < items@.len() ==> item_node(#[trigger] items@[x]) < ops@.len(),
    ensures
        r.offenses@ == result_of(s@, (items@, ops@.map_values(|v: Vec<Op>| v@), closer_set(marks@), 0usize)).0,
        r.node_ops@.len() == result_of(s@, (items@, ops@.map_values(|v: Vec<Op>| v@), closer_set(marks@), 0usize)).1.len(),
        forall|k: int| 0 <= k < r.node_ops@.len() ==> (#[trigger] r.node_ops@[k])@
            == result_of(s@, (items@, ops@.map_values(|v: Vec<Op>| v@), closer_set(marks@), 0usize)).1[k],
{
    let ghost opsv = ops@.map_values(|v: Vec<Op>| v@);
    let ghost closers = closer_set(marks@);
    let n = ops.len();
    // Resolve the items.
    let mut offs: Vec<SpaceInsideArrayLiteralBracketsOffense> = Vec::new();
    let mut extra: Vec<Option<Op>> = Vec::new();
    let mut j: usize = 0;
    while j < n
        invariant
            j <= n,
            n == ops@.len(),
            extra@.len() == j,
            forall|x: int| 0 <= x < j ==> extra@[x] is None,
        decreases n - j,
    {
        extra.push(None);
        j += 1;
    }
    assert(extra@ =~= resolved(s@, closers, items@, n as nat, 0).1);
    let mut k: usize = 0;
    while k < items.len()
        invariant
            n == ops@.len(),
            closers == closer_set(marks@),
            k <= items@.len(),
            forall|x: int| 0 <= x < items@.len() ==> item_node(#[trigger] items@[x]) < ops@.len(),
            (offs@, extra@) == resolved(s@, closers, items@, n as nat, k as int),
            extra@.len() == n,
            forall|x: int| 0 <= x < offs@.len() ==> (#[trigger] offs@[x]).node < n,
        decreases items.len() - k,
    {
        let it = items[k];
        assert(item_node(items@[k as int]) < n);
        let (o, op) = resolve_item(s, marks, it);
        match o {
            Some(x) => {
                offs.push(x);
            },
            None => {},
        }
        match op {
            Some(x) => {
                let node = match it {
                    Item::Ready(o) => o.node,
                    Item::PendingRight { node, .. } => node,
                };
                extra.set(node, Some(x));
            },
            None => {},
        }
        k += 1;
    }
    // Renumber the offenses and keep the offending nodes' programs.
    let mut out: Vec<SpaceInsideArrayLiteralBracketsOffense> = Vec::new();
    let mut kept: Vec<Vec<Op>> = Vec::new();
    let mut remap: Vec<Option<usize>> = Vec::new();
    let mut j: usize = 0;
    while j < n
        invariant
            j <= n,
            n == ops@.len(),
            remap@.len() == j,
            forall|x: int| 0 <= x < j ==> remap@[x] is None,
        decreases n - j,
    {
        remap.push(None);
        j += 1;
    }
    assert(remap@ =~= compact(offs@, opsv, extra@, 0).2);
    let mut k: usize = 0;
    while k < offs.len()
        invariant
            n == ops@.len(),
            opsv == ops@.map_values(|v: Vec<Op>| v@),
            extra@.len() == n,
            remap@.len() == n,
            k <= offs@.len(),
            forall|x: int| 0 <= x < offs@.len() ==> (#[trigger] offs@[x]).node < n,
            (out@, kept@.map_values(|v: Vec<Op>| v@), remap@) == compact(offs@, opsv, extra@, k as int),
        decreases offs.len() - k,
    {
        let o = offs[k];
        assert(offs@[k as int].node < n);
        match remap[o.node] {
            Some(slot) => {
                out.push(SpaceInsideArrayLiteralBracketsOffense {
                    start_offset: o.start_offset, end_offset: o.end_offset, message: o.message, node: slot,
                    suppress_when_disable_uncorrectable: o.suppress_when_disable_uncorrectable,
                });
            },
            None => {
                let slot = kept.len();
                let prog = program_of(&ops[o.node], extra[o.node]);
                let ghost kept_before = kept@;
                kept.push(prog);
                assert(kept@.map_values(|v: Vec<Op>| v@) =~= kept_before.map_values(|v: Vec<Op>| v@).push(prog@));
                remap.set(o.node, Some(slot));
                out.push(SpaceInsideArrayLiteralBracketsOffense {
                    start_offset: o.start_offset, end_offset: o.end_offset, message: o.message, node: slot,
                    suppress_when_disable_uncorrectable: o.suppress_when_disable_uncorrectable,
                });
            },
        }
        k += 1;
    }
    ArrayBracketsResult { offenses: out, node_ops: kept }
}

} // verus!
