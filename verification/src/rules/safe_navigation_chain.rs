//! `Lint/SafeNavigationChain`: an ordinary method call chained onto a
//! safe-navigation call (`x&.foo.bar`), which raises when `x` is nil.
//!
//! A call is an offense when its receiver is a `&.` call (bare or alone in
//! parentheses), its own operator is not `&.`, its method is not a unary
//! `+@`/`-@` nor one of the methods nil answers, and it is not the guarded
//! half of `x&.foo && x.foo` nor the `if` branch of a ternary whose condition
//! is the receiver. The fix replaces the call's tail with a `&.` call and,
//! where precedence asks for it, wraps the whole call in parentheses; in the
//! `else` branch of such a ternary there is no safe fix.
//!
//! The parent a rule sees skips the structural argument, statement and
//! `else` wrappers.

use vstd::prelude::*;
use vstd::utf8::{valid_utf8, decode_utf8};
use crate::syntax::{SyntaxTree, tree_wf, node_wf, indices_in};
use crate::syntax::kinds;
use crate::syntax::access::{child, range, text, children, child_at, range_at, text_at, list_at, args_of, args_of_node};
use crate::syntax::flatten::{parse_tree, check_tree, tree_of};
use crate::syntax::walk::{open_nodes, walk_events, walk, Event, events_in, event_node};
use crate::rules::bytes::{vec_is, ranges_equal, range_is, lossy_string};
use crate::rules::rspec_language::list_names;

verus! {

/// An ordinary call chained after a safe-navigation call.
pub struct SafeNavChainOffense {
    pub start_offset: usize,
    pub end_offset: usize,
    /// Replacement text for `[start_offset, end_offset)`; empty when there
    /// is no safe fix.
    pub replacement: String,
    /// A range to wrap in parentheses when `wrap_end > wrap_start`.
    pub wrap_start: usize,
    pub wrap_end: usize,
}

/// What an open node is to the calls directly inside it.
#[derive(Clone, Copy)]
pub enum ChainFrame {
    /// An argument list, statement list or `else` clause: skipped.
    Transparent,
    /// `a && b` or `a and b`.
    And { left_receiver: Option<(usize, usize)>, right_start: usize, symbolic: bool },
    /// `a || b` or `a or b`.
    Or { symbolic: bool },
    /// `c ? a : b`.
    Ternary { predicate: (usize, usize), then_start: Option<usize>, else_start: Option<usize> },
    /// An array or a hash pair.
    CollectionLiteral,
    /// A comparison call.
    Comparison,
    /// Anything else.
    Opaque,
}

/// The bytes `[a, b)` of the source.
pub open spec fn range_src(s: Seq<u8>, a: usize, b: usize) -> Seq<u8> {
    s.subrange(a as int, b as int)
}

/// The bytes of node `i`.
pub open spec fn node_src(s: Seq<u8>, t: SyntaxTree, i: int) -> Seq<u8> {
    range_src(s, t.nodes@[i].start, t.nodes@[i].end)
}

/// `==`, `===`, `!=`, `<=>`, `<`, `>`, `<=`, `>=`.
pub open spec fn is_comparison_name(n: Seq<u8>) -> bool {
    ||| n == seq![61u8, 61u8]
    ||| n == seq![61u8, 61u8, 61u8]
    ||| n == seq![33u8, 61u8]
    ||| n == seq![60u8, 61u8, 62u8]
    ||| n == seq![60u8]
    ||| n == seq![62u8]
    ||| n == seq![60u8, 61u8]
    ||| n == seq![62u8, 61u8]
}

/// Node `i` is a call of a comparison method.
pub open spec fn is_comparison_call(t: SyntaxTree, i: int) -> bool {
    t.nodes@[i].kind == kinds::CALL_NODE && (text_at(t, i, kinds::CALL_NODE_NAME as int) matches Some(n)
        && is_comparison_name(n))
}

/// The start of the node in field `f` of node `i`, if there is one.
pub open spec fn child_start(t: SyntaxTree, i: int, f: int) -> Option<usize> {
    match child_at(t, i, f) {
        Some(c) => Some(t.nodes@[c as int].start),
        None => None,
    }
}

/// The operator `[a, b)` of node `i` in field `f` is spelled `w`.
pub open spec fn operator_is(s: Seq<u8>, t: SyntaxTree, i: int, f: int, w: Seq<u8>) -> bool {
    match range_at(t, i, f) {
        Some((a, b)) => range_src(s, a, b) == w,
        None => false,
    }
}

/// The frame of node `i`.
pub open spec fn frame_for(s: Seq<u8>, t: SyntaxTree, i: int) -> ChainFrame {
    let k = t.nodes@[i].kind;
    if k == kinds::ARGUMENTS_NODE || k == kinds::STATEMENTS_NODE || k == kinds::ELSE_NODE {
        ChainFrame::Transparent
    } else if k == kinds::AND_NODE {
        let left_receiver = match child_at(t, i, kinds::AND_NODE_LEFT as int) {
            Some(l) => if t.nodes@[l as int].kind == kinds::CALL_NODE {
                match child_at(t, l as int, kinds::CALL_NODE_RECEIVER as int) {
                    Some(r) => Some((t.nodes@[r as int].start, t.nodes@[r as int].end)),
                    None => None,
                }
            } else {
                None
            },
            None => None,
        };
        let right_start = match child_start(t, i, kinds::AND_NODE_RIGHT as int) {
            Some(x) => x,
            None => 0,
        };
        ChainFrame::And {
            left_receiver,
            right_start,
            symbolic: operator_is(s, t, i, kinds::AND_NODE_OPERATOR_LOC as int, seq![38u8, 38u8]),
        }
    } else if k == kinds::OR_NODE {
        ChainFrame::Or { symbolic: operator_is(s, t, i, kinds::OR_NODE_OPERATOR_LOC as int, seq![124u8, 124u8]) }
    } else if k == kinds::IF_NODE {
        if range_at(t, i, kinds::IF_NODE_IF_KEYWORD_LOC as int) is None {
            let predicate = match child_at(t, i, kinds::IF_NODE_PREDICATE as int) {
                Some(p) => (t.nodes@[p as int].start, t.nodes@[p as int].end),
                None => (0usize, 0usize),
            };
            let else_start = match child_at(t, i, kinds::IF_NODE_SUBSEQUENT as int) {
                Some(e) => if t.nodes@[e as int].kind == kinds::ELSE_NODE {
                    child_start(t, e as int, kinds::ELSE_NODE_STATEMENTS as int)
                } else {
                    None
                },
                None => None,
            };
            ChainFrame::Ternary {
                predicate,
                then_start: child_start(t, i, kinds::IF_NODE_STATEMENTS as int),
                else_start,
            }
        } else {
            ChainFrame::Opaque
        }
    } else if k == kinds::ARRAY_NODE || k == kinds::ASSOC_NODE {
        ChainFrame::CollectionLiteral
    } else if is_comparison_call(t, i) {
        ChainFrame::Comparison
    } else {
        ChainFrame::Opaque
    }
}

/// The innermost frame of `st` that is not transparent.
pub open spec fn effective_parent(st: Seq<ChainFrame>) -> Option<ChainFrame>
    decreases st.len(),
{
    if st.len() == 0 {
        None
    } else if st.last() is Transparent {
        effective_parent(st.drop_last())
    } else {
        Some(st.last())
    }
}

/// Node `n` is a `&.` call.
pub open spec fn is_csend(t: SyntaxTree, n: int) -> bool {
    t.nodes@[n].kind == kinds::CALL_NODE && t.nodes@[n].flags & 4u16 != 0
}

/// Node `n` is a `&.` call, bare or as the one statement in parentheses.
pub open spec fn is_csend_or_paren(t: SyntaxTree, n: int) -> bool {
    ||| is_csend(t, n)
    ||| t.nodes@[n].kind == kinds::PARENTHESES_NODE && match child_at(t, n, kinds::PARENTHESES_NODE_BODY as int) {
        Some(b) => t.nodes@[b as int].kind == kinds::STATEMENTS_NODE
            && list_at(t, b as int, kinds::STATEMENTS_NODE_BODY as int).len() == 1
            && is_csend(t, list_at(t, b as int, kinds::STATEMENTS_NODE_BODY as int)[0] as int),
        None => false,
    }
}

/// Call `i` with receiver `r` is not the guarded half of `r&.m && r.m`.
pub open spec fn require_safe_navigation(s: Seq<u8>, t: SyntaxTree, st: Seq<ChainFrame>, i: int, r: int) -> bool {
    match effective_parent(st) {
        Some(ChainFrame::And { left_receiver, right_start, symbolic: _ }) => {
            if right_start != t.nodes@[i].start {
                true
            } else {
                match left_receiver {
                    Some((a, b)) => range_src(s, a, b) != node_src(s, t, r),
                    None => true,
                }
            }
        },
        _ => true,
    }
}

/// Where call `i` sits in a ternary whose condition is its receiver `r`:
/// `0` elsewhere, `1` the `if` branch, `2` the `else` branch.
pub open spec fn ternary_place(s: Seq<u8>, t: SyntaxTree, st: Seq<ChainFrame>, i: int, r: int) -> u8 {
    match effective_parent(st) {
        Some(ChainFrame::Ternary { predicate, then_start, else_start }) => {
            if range_src(s, predicate.0, predicate.1) != node_src(s, t, r) {
                0
            } else if then_start == Some(t.nodes@[i].start) {
                1
            } else if else_start == Some(t.nodes@[i].start) {
                2
            } else {
                0
            }
        },
        _ => 0,
    }
}

/// The fixed call `i` must be wrapped in parentheses.
pub open spec fn require_parentheses(t: SyntaxTree, st: Seq<ChainFrame>, i: int, has_dot: bool) -> bool {
    let p = effective_parent(st);
    if !has_dot && p matches Some(ChainFrame::CollectionLiteral) {
        true
    } else if !is_comparison_call(t, i) {
        false
    } else {
        ||| p matches Some(ChainFrame::And { symbolic: true, .. })
        ||| p matches Some(ChainFrame::Or { symbolic: true })
        ||| p matches Some(ChainFrame::Comparison)
    }
}

/// The sources of the first `k` nodes of `args`, joined by `, `.
pub open spec fn joined(s: Seq<u8>, t: SyntaxTree, args: Seq<usize>, k: int) -> Seq<u8>
    decreases k,
{
    if k <= 0 {
        Seq::empty()
    } else if k == 1 {
        node_src(s, t, args[0] as int)
    } else {
        joined(s, t, args, k - 1) + seq![44u8, 32u8] + node_src(s, t, args[k - 1] as int)
    }
}

/// The name `[]`.
pub open spec fn index_name() -> Seq<u8> {
    seq![91u8, 93u8]
}

/// The name `[]=`.
pub open spec fn index_write_name() -> Seq<u8> {
    seq![91u8, 93u8, 61u8]
}

/// The replacement for call `i` of method `m` whose tail is `[begin, end)`:
/// `&.[](args)` for an index call, else the tail behind `&` or `&.`.
pub open spec fn replacement(s: Seq<u8>, t: SyntaxTree, i: int, m: Seq<u8>, begin: usize, end: usize) -> Seq<u8> {
    if m == index_name() || m == index_write_name() {
        let args = args_of(t, i, kinds::CALL_NODE_ARGUMENTS as int);
        seq![38u8, 46u8] + m + seq![40u8] + joined(s, t, args, args.len() as int) + seq![41u8]
    } else {
        let src = if begin <= end { range_src(s, begin, end) } else { Seq::empty() };
        if src.len() > 0 && src[0] == 46u8 { seq![38u8] + src } else { seq![38u8, 46u8] + src }
    }
}

/// An offense as the specification sees it: range, replacement bytes and
/// wrap range.
pub type ChainRecord = (usize, usize, Seq<u8>, usize, usize);

/// The offense of call `i` under the open frames `st`, if any.
pub open spec fn call_record(s: Seq<u8>, t: SyntaxTree, nil_methods: Seq<String>, st: Seq<ChainFrame>, i: int)
    -> Option<ChainRecord>
{
    let nd = t.nodes@[i];
    if nd.flags & 4u16 != 0 {
        None
    } else {
        match (child_at(t, i, kinds::CALL_NODE_RECEIVER as int), text_at(t, i, kinds::CALL_NODE_NAME as int)) {
            (Some(r), Some(m)) => {
                if !is_csend_or_paren(t, r as int) || m == seq![43u8, 64u8] || m == seq![45u8, 64u8]
                    || list_names(nil_methods, m) || !require_safe_navigation(s, t, st, i, r as int) {
                    None
                } else {
                    let place = ternary_place(s, t, st, i, r as int);
                    if place == 1 {
                        None
                    } else {
                        let dot = range_at(t, i, kinds::CALL_NODE_CALL_OPERATOR_LOC as int);
                        let begin = match dot {
                            Some((a, _)) => a,
                            None => t.nodes@[r as int].end,
                        };
                        let repl = if place == 2 { Seq::empty() } else { replacement(s, t, i, m, begin, nd.end) };
                        if repl.len() > 0 && require_parentheses(t, st, i, dot is Some) {
                            Some((begin, nd.end, repl, nd.start, nd.end))
                        } else {
                            Some((begin, nd.end, repl, 0, 0))
                        }
                    }
                }
            },
            _ => None,
        }
    }
}

/// `r` followed by the record in `o`, if any.
pub open spec fn push_opt(r: Seq<ChainRecord>, o: Option<ChainRecord>) -> Seq<ChainRecord> {
    match o {
        Some(x) => r.push(x),
        None => r,
    }
}

/// The frames and offenses after the first `k` events.
pub open spec fn run(s: Seq<u8>, t: SyntaxTree, nil_methods: Seq<String>, evs: Seq<Event>, k: int)
    -> (Seq<ChainFrame>, Seq<ChainRecord>)
    decreases k,
{
    if k <= 0 {
        (Seq::empty(), Seq::empty())
    } else {
        let (st, recs) = run(s, t, nil_methods, evs, k - 1);
        match evs[k - 1] {
            Event::Enter(i) => {
                let recs2 = if t.nodes@[i as int].kind == kinds::CALL_NODE {
                    push_opt(recs, call_record(s, t, nil_methods, st, i as int))
                } else {
                    recs
                };
                (st.push(frame_for(s, t, i as int)), recs2)
            },
            Event::Leave(_) => (if st.len() > 0 { st.drop_last() } else { st }, recs),
            _ => (st, recs),
        }
    }
}

/// `o` is the record `r`; its replacement decodes `r`'s bytes where they
/// are valid UTF-8.
pub open spec fn record_is(o: SafeNavChainOffense, r: ChainRecord) -> bool {
    &&& o.start_offset == r.0
    &&& o.end_offset == r.1
    &&& valid_utf8(r.2) ==> o.replacement@ == decode_utf8(r.2)
    &&& o.wrap_start == r.3
    &&& o.wrap_end == r.4
}

/// Along the walk, the frames are those of the open nodes, one each.
pub proof fn frames_are_open_nodes(s: Seq<u8>, t: SyntaxTree, nil_methods: Seq<String>, evs: Seq<Event>, k: int)
    ensures
        run(s, t, nil_methods, evs, k).0.len() == open_nodes(evs, k).len(),
        forall|a: int| 0 <= a < open_nodes(evs, k).len() ==> #[trigger] run(s, t, nil_methods, evs, k).0[a] == frame_for(
            s,
            t,
            open_nodes(evs, k)[a] as int,
        ),
    decreases k,
{
    if k > 0 {
        frames_are_open_nodes(s, t, nil_methods, evs, k - 1);
        let st = run(s, t, nil_methods, evs, k - 1).0;
        let st2 = run(s, t, nil_methods, evs, k).0;
        let o = open_nodes(evs, k - 1);
        let o2 = open_nodes(evs, k);
        assert forall|a: int| 0 <= a < o2.len() implies #[trigger] st2[a] == frame_for(s, t, o2[a] as int) by {
            if a < o.len() {
                assert(o2[a] == o[a]);
                assert(st2[a] == st[a]);
            }
        }
    }
}

/// The offenses only grow along the walk: those after `k` events stay, in
/// place, after `m >= k` events.
pub proof fn records_grow(s: Seq<u8>, t: SyntaxTree, nil_methods: Seq<String>, evs: Seq<Event>, k: int, m: int)
    requires
        k <= m,
    ensures
        run(s, t, nil_methods, evs, k).1.len() <= run(s, t, nil_methods, evs, m).1.len(),
        forall|j: int| 0 <= j < run(s, t, nil_methods, evs, k).1.len() ==> #[trigger] run(s, t, nil_methods, evs, m).1[j]
            == run(s, t, nil_methods, evs, k).1[j],
    decreases m - k,
{
    if k < m {
        records_grow(s, t, nil_methods, evs, k, m - 1);
        let a = run(s, t, nil_methods, evs, m - 1).1;
        let b = run(s, t, nil_methods, evs, m).1;
        assert(b.len() >= a.len());
        assert forall|j: int| 0 <= j < a.len() implies #[trigger] b[j] == a[j] by {}
    }
}

/// The effective parent is one of the frames.
proof fn effective_parent_is_a_frame(st: Seq<ChainFrame>)
    ensures
        effective_parent(st) matches Some(f) ==> exists|j: int| 0 <= j < st.len() && #[trigger] st[j] == f,
    decreases st.len(),
{
    if st.len() > 0 && st.last() is Transparent {
        effective_parent_is_a_frame(st.drop_last());
        if let Some(f) = effective_parent(st.drop_last()) {
            let j = choose|j: int| 0 <= j < st.drop_last().len() && #[trigger] st.drop_last()[j] == f;
            assert(st[j] == f);
        }
    } else if st.len() > 0 {
        assert(st[st.len() - 1] == st.last());
    }
}

/// A call that is not a `&.` call, whose receiver is parentheses holding
/// exactly one `&.` call, whose method is neither `+@`/`-@` nor one nil
/// answers, and which sits inside no `&&`/`and` and no `if` or ternary, is
/// an offense covering its tail: from its `.` (or, without one, the end of
/// the parentheses) to its end.
pub proof fn parenthesized_safe_call_receiver_is_offense(s: Seq<u8>, t: SyntaxTree, nil_methods: Seq<String>,
    evs: Seq<Event>, k: int, i: usize, r: usize, b: usize, c: usize)
    requires
        0 <= k < evs.len(),
        evs[k] == Event::Enter(i),
        i < t.nodes@.len(),
        t.nodes@[i as int].kind == kinds::CALL_NODE,
        t.nodes@[i as int].flags & 4u16 == 0,
        child_at(t, i as int, kinds::CALL_NODE_RECEIVER as int) == Some(r),
        t.nodes@[r as int].kind == kinds::PARENTHESES_NODE,
        child_at(t, r as int, kinds::PARENTHESES_NODE_BODY as int) == Some(b),
        t.nodes@[b as int].kind == kinds::STATEMENTS_NODE,
        list_at(t, b as int, kinds::STATEMENTS_NODE_BODY as int) == seq![c],
        t.nodes@[c as int].kind == kinds::CALL_NODE,
        t.nodes@[c as int].flags & 4u16 != 0,
        text_at(t, i as int, kinds::CALL_NODE_NAME as int) matches Some(m) && m != seq![43u8, 64u8] && m != seq![45u8, 64u8]
            && !list_names(nil_methods, m),
        forall|a: int| 0 <= a < open_nodes(evs, k).len() ==> t.nodes@[#[trigger] open_nodes(evs, k)[a] as int].kind
            != kinds::AND_NODE && t.nodes@[open_nodes(evs, k)[a] as int].kind != kinds::IF_NODE,
    ensures
        exists|j: int| 0 <= j < run(s, t, nil_methods, evs, evs.len() as int).1.len() && {
            let rec = #[trigger] run(s, t, nil_methods, evs, evs.len() as int).1[j];
            &&& rec.0 == match range_at(t, i as int, kinds::CALL_NODE_CALL_OPERATOR_LOC as int) {
                Some((a, _)) => a,
                None => t.nodes@[r as int].end,
            }
            &&& rec.1 == t.nodes@[i as int].end
        },
{
    frames_are_open_nodes(s, t, nil_methods, evs, k);
    let st = run(s, t, nil_methods, evs, k).0;
    let o = open_nodes(evs, k);
    effective_parent_is_a_frame(st);
    if let Some(f) = effective_parent(st) {
        let j = choose|j: int| 0 <= j < st.len() && #[trigger] st[j] == f;
        assert(st[j] == frame_for(s, t, o[j] as int));
        assert(!(f is And) && !(f is Ternary));
    }
    assert(require_safe_navigation(s, t, st, i as int, r as int));
    assert(ternary_place(s, t, st, i as int, r as int) == 0);
    assert(list_at(t, b as int, kinds::STATEMENTS_NODE_BODY as int)[0] == c);
    assert(is_csend_or_paren(t, r as int));
    let rec = call_record(s, t, nil_methods, st, i as int)->0;
    assert(call_record(s, t, nil_methods, st, i as int) is Some);
    let before = run(s, t, nil_methods, evs, k).1;
    assert(run(s, t, nil_methods, evs, k + 1).1 == before.push(rec));
    records_grow(s, t, nil_methods, evs, k + 1, evs.len() as int);
    assert(run(s, t, nil_methods, evs, evs.len() as int).1[before.len() as int] == rec);
}

/// A call that is not a `&.` call, whose receiver is a `&.` call, whose
/// method is neither `+@`/`-@` nor one nil answers, and which sits inside no
/// `&&`/`and` and no `if` or ternary, is an offense covering its tail: from
/// its `.` (or, without one, the end of the receiver) to its end.
pub proof fn safe_call_receiver_is_offense(s: Seq<u8>, t: SyntaxTree, nil_methods: Seq<String>, evs: Seq<Event>, k: int,
    i: usize, r: usize)
    requires
        0 <= k < evs.len(),
        evs[k] == Event::Enter(i),
        i < t.nodes@.len(),
        t.nodes@[i as int].kind == kinds::CALL_NODE,
        t.nodes@[i as int].flags & 4u16 == 0,
        child_at(t, i as int, kinds::CALL_NODE_RECEIVER as int) == Some(r),
        t.nodes@[r as int].kind == kinds::CALL_NODE,
        t.nodes@[r as int].flags & 4u16 != 0,
        text_at(t, i as int, kinds::CALL_NODE_NAME as int) matches Some(m) && m != seq![43u8, 64u8] && m != seq![45u8, 64u8]
            && !list_names(nil_methods, m),
        forall|a: int| 0 <= a < open_nodes(evs, k).len() ==> t.nodes@[#[trigger] open_nodes(evs, k)[a] as int].kind
            != kinds::AND_NODE && t.nodes@[open_nodes(evs, k)[a] as int].kind != kinds::IF_NODE,
    ensures
        exists|j: int| 0 <= j < run(s, t, nil_methods, evs, evs.len() as int).1.len() && {
            let rec = #[trigger] run(s, t, nil_methods, evs, evs.len() as int).1[j];
            &&& rec.0 == match range_at(t, i as int, kinds::CALL_NODE_CALL_OPERATOR_LOC as int) {
                Some((a, _)) => a,
                None => t.nodes@[r as int].end,
            }
            &&& rec.1 == t.nodes@[i as int].end
        },
{
    frames_are_open_nodes(s, t, nil_methods, evs, k);
    let st = run(s, t, nil_methods, evs, k).0;
    let o = open_nodes(evs, k);
    effective_parent_is_a_frame(st);
    if let Some(f) = effective_parent(st) {
        let j = choose|j: int| 0 <= j < st.len() && #[trigger] st[j] == f;
        assert(st[j] == frame_for(s, t, o[j] as int));
        assert(!(f is And) && !(f is Ternary));
    }
    assert(require_safe_navigation(s, t, st, i as int, r as int));
    assert(ternary_place(s, t, st, i as int, r as int) == 0);
    assert(is_csend_or_paren(t, r as int));
    let rec = call_record(s, t, nil_methods, st, i as int)->0;
    assert(call_record(s, t, nil_methods, st, i as int) is Some);
    let before = run(s, t, nil_methods, evs, k).1;
    assert(run(s, t, nil_methods, evs, k + 1).1 == before.push(rec));
    records_grow(s, t, nil_methods, evs, k + 1, evs.len() as int);
    assert(run(s, t, nil_methods, evs, evs.len() as int).1[before.len() as int] == rec);
}

/// A call whose receiver is neither a `&.` call nor parentheses adds no
/// offense, nor does a `&.` call itself.
pub proof fn no_safe_receiver_no_offense(s: Seq<u8>, t: SyntaxTree, nil_methods: Seq<String>, evs: Seq<Event>, k: int,
    i: usize)
    requires
        0 <= k < evs.len(),
        evs[k] == Event::Enter(i),
        ({
            ||| t.nodes@[i as int].flags & 4u16 != 0
            ||| child_at(t, i as int, kinds::CALL_NODE_RECEIVER as int) is None
            ||| child_at(t, i as int, kinds::CALL_NODE_RECEIVER as int) matches Some(r) && !(t.nodes@[r as int].kind
                == kinds::CALL_NODE && t.nodes@[r as int].flags & 4u16 != 0) && t.nodes@[r as int].kind
                != kinds::PARENTHESES_NODE
        }),
    ensures
        run(s, t, nil_methods, evs, k + 1).1 == run(s, t, nil_methods, evs, k).1,
{
    let st = run(s, t, nil_methods, evs, k).0;
    assert(call_record(s, t, nil_methods, st, i as int) is None);
}

/// The offenses of `source`; `nil_methods` are the methods nil answers.
pub fn check_safe_navigation_chain(source: &[u8], nil_methods: &[String]) -> (r: Vec<SafeNavChainOffense>)
    ensures
        exists|t: SyntaxTree| #[trigger] tree_of(t, source@) && (if tree_wf(t) {
            &&& r@.len() == run(source@, t, nil_methods@, walk_events(t), walk_events(t).len() as int).1.len()
            &&& forall|k: int| 0 <= k < r@.len()
                ==> record_is(#[trigger] r@[k], run(source@, t, nil_methods@, walk_events(t), walk_events(t).len() as int).1[k])
        } else {
            r@.len() == 0
        }),
{
    let t = parse_tree(source);
    if !check_tree(&t) {
        assert(tree_of(t, source@));
        return Vec::new();
    }
    let evs = walk(&t);
    let r = safe_navigation_chain_offenses(source, &t, &evs, nil_methods);
    assert(tree_of(t, source@));
    r
}

/// The offenses of the parsed `source` over the walk `evs`.
pub fn safe_navigation_chain_offenses(source: &[u8], t: &SyntaxTree, evs: &Vec<Event>, nil_methods: &[String])
    -> (r: Vec<SafeNavChainOffense>)
    requires
        tree_wf(*t),
        t.source_len == source@.len(),
        events_in(evs@, t.nodes@.len() as nat),
    ensures
        r@.len() == run(source@, *t, nil_methods@, evs@, evs@.len() as int).1.len(),
        forall|k: int| 0 <= k < r@.len()
            ==> record_is(#[trigger] r@[k], run(source@, *t, nil_methods@, evs@, evs@.len() as int).1[k]),
{
    let mut stack: Vec<ChainFrame> = Vec::new();
    let mut out: Vec<SafeNavChainOffense> = Vec::new();
    let ghost mut recs: Seq<ChainRecord> = Seq::empty();
    let mut k: usize = 0;
    while k < evs.len()
        invariant
            tree_wf(*t),
            t.source_len == source@.len(),
            events_in(evs@, t.nodes@.len() as nat),
            k <= evs@.len(),
            (stack@, recs) == run(source@, *t, nil_methods@, evs@, k as int),
            out@.len() == recs.len(),
            forall|q: int| 0 <= q < out@.len() ==> record_is(#[trigger] out@[q], recs[q]),
            forall|q: int| 0 <= q < stack@.len() ==> frame_in(#[trigger] stack@[q], source@.len()),
        decreases evs.len() - k,
    {
        let ev = evs[k];
        assert(event_node(evs@[k as int]) < t.nodes@.len());
        let ghost prev = recs;
        let ghost old_out = out@;
        match ev {
            Event::Enter(i) => {
                if t.nodes[i].kind == kinds::CALL_NODE {
                    match call_offense(source, t, nil_methods, &stack, i) {
                        Some(o) => {
                            proof {
                                recs = recs.push(call_record(source@, *t, nil_methods@, stack@, i as int).unwrap());
                            }
                            out.push(o);
                        },
                        None => {},
                    }
                }
                let f = frame_of(source, t, i);
                proof {
                    lemma_frame_in(source@, *t, i as int);
                }
                stack.push(f);
                assert forall|q: int| 0 <= q < stack@.len() implies frame_in(#[trigger] stack@[q], source@.len()) by {
                    if q < stack@.len() - 1 {
                        assert(stack@[q] == stack@.drop_last()[q]);
                    }
                }
            },
            Event::Leave(_) => {
                if stack.len() > 0 {
                    let ghost before = stack@;
                    stack.pop();
                    assert forall|q: int| 0 <= q < stack@.len() implies frame_in(#[trigger] stack@[q], source@.len()) by {
                        assert(stack@[q] == before[q]);
                    }
                }
            },
            _ => {},
        }
        assert forall|q: int| 0 <= q < out@.len() implies record_is(#[trigger] out@[q], recs[q]) by {
            if q < old_out.len() {
                assert(out@[q] == old_out[q]);
                assert(recs[q] == prev[q]);
            }
        }
        k += 1;
    }
    out
}

/// [`child_start`].
fn child_start_of(t: &SyntaxTree, i: usize, f: usize) -> (r: Option<usize>)
    requires
        tree_wf(*t),
        i < t.nodes@.len(),
    ensures
        r == child_start(*t, i as int, f as int),
{
    match child(t, i, f) {
        Some(c) => Some(t.nodes[c].start),
        None => None,
    }
}

/// [`operator_is`].
fn operator_is_of(source: &[u8], t: &SyntaxTree, i: usize, f: usize, w: &[u8]) -> (r: bool)
    requires
        tree_wf(*t),
        t.source_len == source@.len(),
        i < t.nodes@.len(),
    ensures
        r == operator_is(source@, *t, i as int, f as int, w@),
{
    match range(t, i, f) {
        Some((a, b)) => range_is(source, a, b, w),
        None => false,
    }
}

/// [`is_comparison_call`].
fn is_comparison_call_of(t: &SyntaxTree, i: usize) -> (r: bool)
    requires
        i < t.nodes@.len(),
    ensures
        r == is_comparison_call(*t, i as int),
{
    if t.nodes[i].kind != kinds::CALL_NODE {
        return false;
    }
    match text(t, i, kinds::CALL_NODE_NAME) {
        Some(n) => {
            let a = vec_is(n, &[61u8, 61u8]);
            let b = vec_is(n, &[61u8, 61u8, 61u8]);
            let c = vec_is(n, &[33u8, 61u8]);
            let d = vec_is(n, &[60u8, 61u8, 62u8]);
            let e = n.len() == 1 && n[0] == 60u8;
            let f = n.len() == 1 && n[0] == 62u8;
            let g = vec_is(n, &[60u8, 61u8]);
            let h = vec_is(n, &[62u8, 61u8]);
            proof {
                assert(a == (n@ == seq![61u8, 61u8]));
                if e {
                    assert(n@ =~= seq![60u8]);
                }
                if f {
                    assert(n@ =~= seq![62u8]);
                }
                assert(e == (n@ == seq![60u8]));
                assert(f == (n@ == seq![62u8]));
            }
            a || b || c || d || e || f || g || h
        },
        None => false,
    }
}

/// [`frame_for`].
fn frame_of(source: &[u8], t: &SyntaxTree, i: usize) -> (r: ChainFrame)
    requires
        tree_wf(*t),
        t.source_len == source@.len(),
        i < t.nodes@.len(),
    ensures
        r == frame_for(source@, *t, i as int),
{
    let k = t.nodes[i].kind;
    if k == kinds::ARGUMENTS_NODE || k == kinds::STATEMENTS_NODE || k == kinds::ELSE_NODE {
        ChainFrame::Transparent
    } else if k == kinds::AND_NODE {
        let left_receiver = match child(t, i, kinds::AND_NODE_LEFT) {
            Some(l) => if t.nodes[l].kind == kinds::CALL_NODE {
                match child(t, l, kinds::CALL_NODE_RECEIVER) {
                    Some(r) => Some((t.nodes[r].start, t.nodes[r].end)),
                    None => None,
                }
            } else {
                None
            },
            None => None,
        };
        let right_start = match child_start_of(t, i, kinds::AND_NODE_RIGHT) {
            Some(x) => x,
            None => 0,
        };
        let symbolic = operator_is_of(source, t, i, kinds::AND_NODE_OPERATOR_LOC, &[38u8, 38u8]);
        ChainFrame::And { left_receiver, right_start, symbolic }
    } else if k == kinds::OR_NODE {
        ChainFrame::Or { symbolic: operator_is_of(source, t, i, kinds::OR_NODE_OPERATOR_LOC, &[124u8, 124u8]) }
    } else if k == kinds::IF_NODE {
        if range(t, i, kinds::IF_NODE_IF_KEYWORD_LOC).is_none() {
            let predicate = match child(t, i, kinds::IF_NODE_PREDICATE) {
                Some(p) => (t.nodes[p].start, t.nodes[p].end),
                None => (0usize, 0usize),
            };
            let else_start = match child(t, i, kinds::IF_NODE_SUBSEQUENT) {
                Some(e) => if t.nodes[e].kind == kinds::ELSE_NODE {
                    child_start_of(t, e, kinds::ELSE_NODE_STATEMENTS)
                } else {
                    None
                },
                None => None,
            };
            ChainFrame::Ternary {
                predicate,
                then_start: child_start_of(t, i, kinds::IF_NODE_STATEMENTS),
                else_start,
            }
        } else {
            ChainFrame::Opaque
        }
    } else if k == kinds::ARRAY_NODE || k == kinds::ASSOC_NODE {
        ChainFrame::CollectionLiteral
    } else if is_comparison_call_of(t, i) {
        ChainFrame::Comparison
    } else {
        ChainFrame::Opaque
    }
}

/// [`effective_parent`].
fn effective_parent_of(stack: &Vec<ChainFrame>) -> (r: Option<ChainFrame>)
    ensures
        r == effective_parent(stack@),
{
    let mut n = stack.len();
    assert(stack@.subrange(0, n as int) =~= stack@);
    while n > 0
        invariant
            n <= stack@.len(),
            effective_parent(stack@) == effective_parent(stack@.subrange(0, n as int)),
        decreases n,
    {
        let ghost sub = stack@.subrange(0, n as int);
        assert(sub.last() == stack@[n - 1]);
        match stack[n - 1] {
            ChainFrame::Transparent => {
                assert(sub.drop_last() =~= stack@.subrange(0, n - 1));
                n -= 1;
            },
            f => {
                return Some(f);
            },
        }
    }
    None
}

/// [`is_csend`].
fn is_csend_of(t: &SyntaxTree, n: usize) -> (r: bool)
    requires
        n < t.nodes@.len(),
    ensures
        r == is_csend(*t, n as int),
{
    t.nodes[n].kind == kinds::CALL_NODE && t.nodes[n].flags & 4u16 != 0
}

/// [`is_csend_or_paren`].
fn is_csend_or_paren_of(t: &SyntaxTree, n: usize) -> (r: bool)
    requires
        tree_wf(*t),
        n < t.nodes@.len(),
    ensures
        r == is_csend_or_paren(*t, n as int),
{
    if is_csend_of(t, n) {
        return true;
    }
    if t.nodes[n].kind != kinds::PARENTHESES_NODE {
        return false;
    }
    match child(t, n, kinds::PARENTHESES_NODE_BODY) {
        Some(b) => {
            if t.nodes[b].kind != kinds::STATEMENTS_NODE {
                return false;
            }
            match children(t, b, kinds::STATEMENTS_NODE_BODY) {
                Some(body) => body.len() == 1 && is_csend_of(t, body[0]),
                None => false,
            }
        },
        None => false,
    }
}

/// Whether `s[a..b]` and the source of node `r` hold the same bytes.
fn src_equals_node(source: &[u8], t: &SyntaxTree, a: usize, b: usize, r: usize) -> (e: bool)
    requires
        tree_wf(*t),
        t.source_len == source@.len(),
        a <= b <= source@.len(),
        r < t.nodes@.len(),
    ensures
        e == (range_src(source@, a, b) == node_src(source@, *t, r as int)),
{
    assert(node_wf(*t, r as int, t.source_len as nat));
    ranges_equal(source, a, b, t.nodes[r].start, t.nodes[r].end)
}

/// A frame of the stack holds ranges of the source.
pub open spec fn frame_in(f: ChainFrame, len: nat) -> bool {
    match f {
        ChainFrame::And { left_receiver, .. } => left_receiver matches Some((a, b)) ==> a <= b <= len,
        ChainFrame::Ternary { predicate, .. } => predicate.0 <= predicate.1 <= len,
        _ => true,
    }
}

/// Every frame built from a well-formed tree holds ranges of the source.
proof fn lemma_frame_in(s: Seq<u8>, t: SyntaxTree, i: int)
    requires
        tree_wf(t),
        t.source_len == s.len(),
        0 <= i < t.nodes@.len(),
    ensures
        frame_in(frame_for(s, t, i), s.len()),
{
    let k = t.nodes@[i].kind;
    if k == kinds::AND_NODE {
        match child_at(t, i, kinds::AND_NODE_LEFT as int) {
            Some(l) => {
                assert(node_wf(t, i, t.source_len as nat));
                assert(crate::syntax::field_in(t.nodes@[i].fields@[kinds::AND_NODE_LEFT as int], t.nodes@.len() as nat));
                if t.nodes@[l as int].kind == kinds::CALL_NODE {
                    match child_at(t, l as int, kinds::CALL_NODE_RECEIVER as int) {
                        Some(r) => {
                            assert(node_wf(t, l as int, t.source_len as nat));
                            assert(crate::syntax::field_in(t.nodes@[l as int].fields@[kinds::CALL_NODE_RECEIVER as int], t.nodes@.len() as nat));
                            assert(node_wf(t, r as int, t.source_len as nat));
                        },
                        None => {},
                    }
                }
            },
            None => {},
        }
    } else if k == kinds::IF_NODE {
        match child_at(t, i, kinds::IF_NODE_PREDICATE as int) {
            Some(p) => {
                assert(node_wf(t, i, t.source_len as nat));
                assert(crate::syntax::field_in(t.nodes@[i].fields@[kinds::IF_NODE_PREDICATE as int], t.nodes@.len() as nat));
                assert(node_wf(t, p as int, t.source_len as nat));
            },
            None => {},
        }
    }
}

/// [`call_record`], with the offense built.
fn call_offense(source: &[u8], t: &SyntaxTree, nil_methods: &[String], stack: &Vec<ChainFrame>, i: usize)
    -> (r: Option<SafeNavChainOffense>)
    requires
        tree_wf(*t),
        t.source_len == source@.len(),
        i < t.nodes@.len(),
        forall|q: int| 0 <= q < stack@.len() ==> frame_in(#[trigger] stack@[q], source@.len()),
    ensures
        match call_record(source@, *t, nil_methods@, stack@, i as int) {
            Some(x) => r matches Some(o) && record_is(o, x),
            None => r is None,
        },
{
    if t.nodes[i].flags & 4u16 != 0 {
        return None;
    }
    let (r, m) = match (child(t, i, kinds::CALL_NODE_RECEIVER), text(t, i, kinds::CALL_NODE_NAME)) {
        (Some(r), Some(m)) => (r, m),
        _ => return None,
    };
    if !is_csend_or_paren_of(t, r) || vec_is(m, &[43u8, 64u8]) || vec_is(m, &[45u8, 64u8])
        || names_any(nil_methods, m) {
        return None;
    }
    let parent = effective_parent_of(stack);
    proof {
        if parent is Some {
            lemma_effective_parent_in(stack@, source@.len());
        }
    }
    let start = t.nodes[i].start;
    // `x&.foo && x.foo`: the guarded half is fine.
    if let Some(ChainFrame::And { left_receiver, right_start, symbolic: _ }) = parent {
        if right_start == start {
            match left_receiver {
                Some((a, b)) => {
                    if src_equals_node(source, t, a, b, r) {
                        return None;
                    }
                },
                None => {},
            }
        }
    }
    let mut place: u8 = 0;
    if let Some(ChainFrame::Ternary { predicate, then_start, else_start }) = parent {
        if src_equals_node(source, t, predicate.0, predicate.1, r) {
            if then_start == Some(start) {
                place = 1;
            } else if else_start == Some(start) {
                place = 2;
            }
        }
    }
    assert(place == ternary_place(source@, *t, stack@, i as int, r as int));
    if place == 1 {
        return None;
    }
    assert(node_wf(*t, i as int, t.source_len as nat));
    assert(node_wf(*t, r as int, t.source_len as nat));
    let dot = range(t, i, kinds::CALL_NODE_CALL_OPERATOR_LOC);
    let begin = match dot {
        Some((a, _)) => a,
        None => t.nodes[r].end,
    };
    let end = t.nodes[i].end;
    let repl: Vec<u8> = if place == 2 {
        Vec::new()
    } else {
        replacement_of(source, t, i, m, begin, end)
    };
    let (ws, we) = if repl.len() > 0 && parentheses_needed(t, &parent, i, dot.is_some()) {
        (t.nodes[i].start, end)
    } else {
        (0, 0)
    };
    let replacement = lossy_string(&repl);
    Some(SafeNavChainOffense { start_offset: begin, end_offset: end, replacement, wrap_start: ws, wrap_end: we })
}

/// The effective parent of frames that hold source ranges holds them too.
proof fn lemma_effective_parent_in(st: Seq<ChainFrame>, len: nat)
    requires
        forall|q: int| 0 <= q < st.len() ==> frame_in(#[trigger] st[q], len),
    ensures
        effective_parent(st) matches Some(f) ==> frame_in(f, len),
    decreases st.len(),
{
    if st.len() > 0 {
        if st.last() is Transparent {
            assert forall|q: int| 0 <= q < st.drop_last().len() implies frame_in(#[trigger] st.drop_last()[q], len) by {
                assert(st.drop_last()[q] == st[q]);
            }
            lemma_effective_parent_in(st.drop_last(), len);
        } else {
            assert(frame_in(st[st.len() - 1], len));
        }
    }
}

/// [`require_parentheses`], given the effective parent.
fn parentheses_needed(t: &SyntaxTree, parent: &Option<ChainFrame>, i: usize, has_dot: bool) -> (r: bool)
    requires
        i < t.nodes@.len(),
    ensures
        forall|st: Seq<ChainFrame>| effective_parent(st) == *parent ==> r == require_parentheses(*t, st, i as int, has_dot),
{
    if !has_dot {
        if let Some(ChainFrame::CollectionLiteral) = parent {
            return true;
        }
    }
    if !is_comparison_call_of(t, i) {
        return false;
    }
    match parent {
        Some(ChainFrame::And { symbolic: true, .. }) => true,
        Some(ChainFrame::Or { symbolic: true }) => true,
        Some(ChainFrame::Comparison) => true,
        _ => false,
    }
}

/// Whether one of `names` spells `m`.
fn names_any(names: &[String], m: &Vec<u8>) -> (r: bool)
    ensures
        r == list_names(names@, m@),
{
    let mut j: usize = 0;
    while j < names.len()
        invariant
            j <= names@.len(),
            forall|q: int| 0 <= q < j ==> vstd::utf8::encode_utf8((#[trigger] names@[q])@) != m@,
        decreases names.len() - j,
    {
        let bytes = names[j].as_str().as_bytes();
        if vec_is(m, bytes) {
            assert(vstd::utf8::encode_utf8(names@[j as int]@) == m@);
            return true;
        }
        j += 1;
    }
    false
}

/// `out` followed by the bytes `s[a..b]`.
fn push_range(out: &mut Vec<u8>, s: &[u8], a: usize, b: usize)
    requires
        a <= b <= s@.len(),
    ensures
        final(out)@ == old(out)@ + s@.subrange(a as int, b as int),
{
    let mut q = a;
    while q < b
        invariant
            a <= q <= b <= s@.len(),
            out@ == old(out)@ + s@.subrange(a as int, q as int),
        decreases b - q,
    {
        out.push(s[q]);
        assert(s@.subrange(a as int, q + 1) =~= s@.subrange(a as int, q as int).push(s@[q as int]));
        q += 1;
    }
}

/// `out` followed by the bytes of `w`.
fn push_all(out: &mut Vec<u8>, w: &[u8])
    ensures
        final(out)@ == old(out)@ + w@,
{
    push_range(out, w, 0, w.len());
    assert(w@.subrange(0, w@.len() as int) =~= w@);
}

/// [`replacement`].
fn replacement_of(source: &[u8], t: &SyntaxTree, i: usize, m: &Vec<u8>, begin: usize, end: usize) -> (r: Vec<u8>)
    requires
        tree_wf(*t),
        t.source_len == source@.len(),
        i < t.nodes@.len(),
        begin <= source@.len(),
        end <= source@.len(),
    ensures
        r@ == replacement(source@, *t, i as int, m@, begin, end),
{
    let mut out: Vec<u8> = Vec::new();
    if vec_is(m, &[91u8, 93u8]) || vec_is(m, &[91u8, 93u8, 61u8]) {
        proof {
            assert(seq![91u8, 93u8] =~= index_name());
            assert(seq![91u8, 93u8, 61u8] =~= index_write_name());
        }
        push_all(&mut out, &[38u8, 46u8]);
        push_all(&mut out, m.as_slice());
        push_all(&mut out, &[40u8]);
        let ghost head = out@;
        let empty: Vec<usize> = Vec::new();
        let args: &Vec<usize> = match args_of_node(t, i, kinds::CALL_NODE_ARGUMENTS) {
            Some(a) => a,
            None => &empty,
        };
        let mut j: usize = 0;
        while j < args.len()
            invariant
                tree_wf(*t),
                t.source_len == source@.len(),
                j <= args@.len(),
                indices_in(args@, t.nodes@.len() as nat),
                out@ == head + joined(source@, *t, args@, j as int),
            decreases args.len() - j,
        {
            if j > 0 {
                push_all(&mut out, &[44u8, 32u8]);
            }
            let a = args[j];
            assert(node_wf(*t, a as int, t.source_len as nat));
            push_range(&mut out, source, t.nodes[a].start, t.nodes[a].end);
            proof {
                if j == 0 {
                    assert(joined(source@, *t, args@, 1) == node_src(source@, *t, args@[0] as int));
                }
            }
            j += 1;
        }
        push_all(&mut out, &[41u8]);
        proof {
            assert(seq![38u8, 46u8] + m@ + seq![40u8] + joined(source@, *t, args@, args@.len() as int) + seq![41u8]
                =~= out@);
        }
        out
    } else {
        if end > begin && source[begin] == 46u8 {
            push_all(&mut out, &[38u8]);
        } else {
            push_all(&mut out, &[38u8, 46u8]);
        }
        if begin <= end {
            push_range(&mut out, source, begin, end);
        }
        out
    }
}

} // verus!
