//! `Layout/SpaceAroundMethodCallOperator`: spaces or tabs around a `.` / `&.`
//! method call operator, and after a `::` of a constant path.
//!
//! For every call (including the attribute writes `a.b ||= 1`, `a.b += 1`,
//! `a.b &&= 1` and the multiple-assignment target `a.b, c = ...`) whose call
//! operator is `.` or `&.`, the runs between the receiver and the operator and
//! between the operator and the selector are checked; the selector of
//! `foo.()` is its `(`. For every read constant path, the run between `::`
//! and the name is checked. A run is an offense when it is non-empty and made
//! only of spaces and tabs, so a line break between them is fine.

use vstd::prelude::*;
use crate::syntax::{SyntaxTree, tree_wf};
use crate::syntax::kinds;
use crate::syntax::access::{child, range, child_at, range_at};
use crate::syntax::flatten::{parse_tree, check_tree, tree_of};
use crate::syntax::walk::{walk, walk_events, Event, events_in, event_node};
use crate::rules::bytes::range_is;
use crate::rules::space_scan::is_blank;

verus! {

/// One offending run of spaces and tabs, which autocorrect removes.
pub struct SpaceAroundMethodCallOperatorOffense {
    pub start_offset: usize,
    pub end_offset: usize,
}

/// `s[o.start_offset..o.end_offset]` is a non-empty run of spaces and tabs.
pub open spec fn offense_ok(s: Seq<u8>, o: SpaceAroundMethodCallOperatorOffense) -> bool {
    &&& o.start_offset < o.end_offset <= s.len()
    &&& forall|k: int| o.start_offset <= k < o.end_offset ==> is_blank(#[trigger] s[k])
}

/// Every offense of `v` is such a run.
pub open spec fn offenses_ok(s: Seq<u8>, v: Seq<SpaceAroundMethodCallOperatorOffense>) -> bool {
    forall|k: int| 0 <= k < v.len() ==> offense_ok(s, #[trigger] v[k])
}

/// The ranges of the offenses of `v`, in order.
pub open spec fn pairs(v: Seq<SpaceAroundMethodCallOperatorOffense>) -> Seq<(usize, usize)> {
    v.map_values(|o: SpaceAroundMethodCallOperatorOffense| (o.start_offset, o.end_offset))
}

/// `[b, e)` as an offense when it is a non-empty run of spaces and tabs in
/// the source.
pub open spec fn blank_run(s: Seq<u8>, b: int, e: int) -> Seq<(usize, usize)> {
    if b < e <= s.len() && (forall|q: int| b <= q < e ==> is_blank(#[trigger] s[q])) {
        seq![(b as usize, e as usize)]
    } else {
        Seq::empty()
    }
}

/// The runs around the call operator in field `op_f` of node `i`, when it is
/// `.` or `&.`: from the end of the receiver in field `recv_f` to the
/// operator, and from the operator to `selector`.
pub open spec fn call_operator_runs(s: Seq<u8>, t: SyntaxTree, i: int, op_f: int, recv_f: int, selector: Option<usize>)
    -> Seq<(usize, usize)> {
    match range_at(t, i, op_f) {
        Some((ds, de)) => if s.subrange(ds as int, de as int) == seq![46u8] || s.subrange(ds as int, de as int) == seq![
            38u8,
            46u8,
        ] {
            (match child_at(t, i, recv_f) {
                Some(r) => blank_run(s, t.nodes@[r as int].end as int, ds as int),
                None => Seq::empty(),
            }) + (match selector {
                Some(x) => blank_run(s, de as int, x as int),
                None => Seq::empty(),
            })
        } else {
            Seq::empty()
        },
        None => Seq::empty(),
    }
}

/// The start of the range in field `f` of node `i`.
pub open spec fn start_at(t: SyntaxTree, i: int, f: int) -> Option<usize> {
    match range_at(t, i, f) {
        Some((a, _)) => Some(a),
        None => None,
    }
}

/// The offending runs of node `i`.
pub open spec fn node_runs(s: Seq<u8>, t: SyntaxTree, i: int) -> Seq<(usize, usize)> {
    let kind = t.nodes@[i].kind;
    if kind == kinds::CALL_NODE {
        let sel = match start_at(t, i, kinds::CALL_NODE_MESSAGE_LOC as int) {
            Some(a) => Some(a),
            None => start_at(t, i, kinds::CALL_NODE_OPENING_LOC as int),
        };
        call_operator_runs(s, t, i, kinds::CALL_NODE_CALL_OPERATOR_LOC as int, kinds::CALL_NODE_RECEIVER as int, sel)
    } else if kind == kinds::CONSTANT_PATH_NODE {
        match (range_at(t, i, kinds::CONSTANT_PATH_NODE_DELIMITER_LOC as int), range_at(t, i,
            kinds::CONSTANT_PATH_NODE_NAME_LOC as int)) {
            (Some((_, de)), Some((ns, _))) => blank_run(s, de as int, ns as int),
            _ => Seq::empty(),
        }
    } else if kind == kinds::CALL_OR_WRITE_NODE {
        call_operator_runs(s, t, i, kinds::CALL_OR_WRITE_NODE_CALL_OPERATOR_LOC as int,
            kinds::CALL_OR_WRITE_NODE_RECEIVER as int, start_at(t, i, kinds::CALL_OR_WRITE_NODE_MESSAGE_LOC as int))
    } else if kind == kinds::CALL_OPERATOR_WRITE_NODE {
        call_operator_runs(s, t, i, kinds::CALL_OPERATOR_WRITE_NODE_CALL_OPERATOR_LOC as int,
            kinds::CALL_OPERATOR_WRITE_NODE_RECEIVER as int, start_at(t, i, kinds::CALL_OPERATOR_WRITE_NODE_MESSAGE_LOC as int))
    } else if kind == kinds::CALL_AND_WRITE_NODE {
        call_operator_runs(s, t, i, kinds::CALL_AND_WRITE_NODE_CALL_OPERATOR_LOC as int,
            kinds::CALL_AND_WRITE_NODE_RECEIVER as int, start_at(t, i, kinds::CALL_AND_WRITE_NODE_MESSAGE_LOC as int))
    } else if kind == kinds::CALL_TARGET_NODE {
        call_operator_runs(s, t, i, kinds::CALL_TARGET_NODE_CALL_OPERATOR_LOC as int,
            kinds::CALL_TARGET_NODE_RECEIVER as int, start_at(t, i, kinds::CALL_TARGET_NODE_MESSAGE_LOC as int))
    } else {
        Seq::empty()
    }
}

/// The offending runs of the nodes entered in the first `k` events.
pub open spec fn runs_upto(s: Seq<u8>, t: SyntaxTree, evs: Seq<Event>, k: int) -> Seq<(usize, usize)>
    decreases k,
{
    if k <= 0 {
        Seq::empty()
    } else {
        runs_upto(s, t, evs, k - 1) + match evs[k - 1] {
            Event::Enter(i) => if i < t.nodes@.len() { node_runs(s, t, i as int) } else { Seq::empty() },
            _ => Seq::empty(),
        }
    }
}

/// The offending runs of `source`.
pub fn check_space_around_method_call_operator(source: &[u8]) -> (r: Vec<SpaceAroundMethodCallOperatorOffense>)
    ensures
        offenses_ok(source@, r@),
        exists|t: SyntaxTree| #[trigger] tree_of(t, source@) && (if tree_wf(t) {
            pairs(r@) == runs_upto(source@, t, walk_events(t), walk_events(t).len() as int)
        } else {
            r@.len() == 0
        }),
{
    let t = parse_tree(source);
    if !check_tree(&t) {
        assert(tree_of(t, source@));
        return Vec::new();
    }
    let r = space_around_method_call_operator_offenses(source, &t);
    assert(tree_of(t, source@));
    r
}

/// Appends `[b, e)` when it is a non-empty run of spaces and tabs.
fn check_space(source: &[u8], out: &mut Vec<SpaceAroundMethodCallOperatorOffense>, b: usize, e: usize)
    requires
        offenses_ok(source@, old(out)@),
    ensures
        offenses_ok(source@, final(out)@),
        pairs(final(out)@) == pairs(old(out)@) + blank_run(source@, b as int, e as int),
{
    if e <= b || e > source.len() {
        assert(pairs(old(out)@) + blank_run(source@, b as int, e as int) =~= pairs(old(out)@));
        return;
    }
    let mut k = b;
    while k < e
        invariant
            b <= k <= e <= source@.len(),
            offenses_ok(source@, out@),
            forall|q: int| b <= q < k ==> is_blank(#[trigger] source@[q]),
        decreases e - k,
    {
        if !(source[k] == 32 || source[k] == 9) {
            assert(!is_blank(source@[k as int]));
            assert(pairs(old(out)@) + blank_run(source@, b as int, e as int) =~= pairs(old(out)@));
            return;
        }
        k += 1;
    }
    let ghost prev = out@;
    out.push(SpaceAroundMethodCallOperatorOffense { start_offset: b, end_offset: e });
    assert forall|q: int| 0 <= q < out@.len() implies offense_ok(source@, #[trigger] out@[q]) by {
        if q < prev.len() {
            assert(out@[q] == prev[q]);
        }
    }
    assert(pairs(out@) =~= pairs(prev) + blank_run(source@, b as int, e as int));
}

/// The receiver end and selector start around the call operator in field
/// `op_f` of node `i`, checked when the operator is `.` or `&.`.
fn check_call_operator(source: &[u8], t: &SyntaxTree, out: &mut Vec<SpaceAroundMethodCallOperatorOffense>,
    i: usize, op_f: usize, recv_f: usize, selector: Option<usize>)
    requires
        tree_wf(*t),
        t.source_len == source@.len(),
        i < t.nodes@.len(),
        offenses_ok(source@, old(out)@),
    ensures
        offenses_ok(source@, final(out)@),
        pairs(final(out)@) == pairs(old(out)@) + call_operator_runs(source@, *t, i as int, op_f as int, recv_f as int,
            selector),
{
    let (ds, de) = match range(t, i, op_f) {
        Some(r) => r,
        None => {
            assert(pairs(old(out)@) + call_operator_runs(source@, *t, i as int, op_f as int, recv_f as int, selector)
                =~= pairs(old(out)@));
            return;
        },
    };
    let dot = de - ds == 1 && source[ds] == 46u8;
    let safe = range_is(source, ds, de, &[38u8, 46u8]);
    proof {
        let sub = source@.subrange(ds as int, de as int);
        if dot {
            assert(sub =~= seq![46u8]);
        }
        if sub == seq![46u8] {
            assert(sub.len() == 1);
            assert(sub[0] == 46u8);
        }
    }
    assert(safe == (source@.subrange(ds as int, de as int) == seq![38u8, 46u8]));
    if !(dot || safe) {
        assert(pairs(old(out)@) + call_operator_runs(source@, *t, i as int, op_f as int, recv_f as int, selector)
            =~= pairs(old(out)@));
        return;
    }
    let ghost p0 = pairs(out@);
    let recv = child(t, i, recv_f);
    match recv {
        Some(r) => check_space(source, out, t.nodes[r].end, ds),
        None => {},
    }
    let ghost p1 = pairs(out@);
    match selector {
        Some(sel) => check_space(source, out, de, sel),
        None => {},
    }
    proof {
        let a = match child_at(*t, i as int, recv_f as int) {
            Some(r) => blank_run(source@, t.nodes@[r as int].end as int, ds as int),
            None => Seq::empty(),
        };
        let b = match selector {
            Some(x) => blank_run(source@, de as int, x as int),
            None => Seq::empty(),
        };
        assert(p1 =~= p0 + a);
        assert(pairs(out@) =~= p1 + b);
        assert(pairs(out@) =~= p0 + (a + b));
    }
}

/// The start of the range in field `f` of node `i`, if present.
fn range_start(t: &SyntaxTree, i: usize, f: usize) -> (r: Option<usize>)
    requires
        tree_wf(*t),
        i < t.nodes@.len(),
    ensures
        r == start_at(*t, i as int, f as int),
{
    match range(t, i, f) {
        Some((s, _)) => Some(s),
        None => None,
    }
}

/// The offending runs of the parsed `source`.
pub fn space_around_method_call_operator_offenses(source: &[u8], t: &SyntaxTree)
    -> (r: Vec<SpaceAroundMethodCallOperatorOffense>)
    requires
        tree_wf(*t),
        t.source_len == source@.len(),
    ensures
        offenses_ok(source@, r@),
        pairs(r@) == runs_upto(source@, *t, walk_events(*t), walk_events(*t).len() as int),
{
    let evs = walk(t);
    let mut out: Vec<SpaceAroundMethodCallOperatorOffense> = Vec::new();
    let mut k: usize = 0;
    while k < evs.len()
        invariant
            tree_wf(*t),
            t.source_len == source@.len(),
            events_in(evs@, t.nodes@.len() as nat),
            offenses_ok(source@, out@),
            k <= evs@.len(),
            pairs(out@) == runs_upto(source@, *t, evs@, k as int),
        decreases evs.len() - k,
    {
        assert(event_node(evs@[k as int]) < t.nodes@.len());
        let ghost before = pairs(out@);
        if let Event::Enter(i) = evs[k] {
            let kind = t.nodes[i].kind;
            if kind == kinds::CALL_NODE {
                // The selector, or the `(` of `foo.()`.
                let sel = match range_start(t, i, kinds::CALL_NODE_MESSAGE_LOC) {
                    Some(s) => Some(s),
                    None => range_start(t, i, kinds::CALL_NODE_OPENING_LOC),
                };
                check_call_operator(source, t, &mut out, i, kinds::CALL_NODE_CALL_OPERATOR_LOC,
                    kinds::CALL_NODE_RECEIVER, sel);
            } else if kind == kinds::CONSTANT_PATH_NODE {
                // Only the space after `::`.
                if let (Some((_, de)), Some((ns, _))) = (range(t, i, kinds::CONSTANT_PATH_NODE_DELIMITER_LOC),
                    range(t, i, kinds::CONSTANT_PATH_NODE_NAME_LOC)) {
                    check_space(source, &mut out, de, ns);
                } else {
                    assert(before + node_runs(source@, *t, i as int) =~= before);
                }
            } else if kind == kinds::CALL_OR_WRITE_NODE {
                let sel = range_start(t, i, kinds::CALL_OR_WRITE_NODE_MESSAGE_LOC);
                check_call_operator(source, t, &mut out, i, kinds::CALL_OR_WRITE_NODE_CALL_OPERATOR_LOC,
                    kinds::CALL_OR_WRITE_NODE_RECEIVER, sel);
            } else if kind == kinds::CALL_OPERATOR_WRITE_NODE {
                let sel = range_start(t, i, kinds::CALL_OPERATOR_WRITE_NODE_MESSAGE_LOC);
                check_call_operator(source, t, &mut out, i, kinds::CALL_OPERATOR_WRITE_NODE_CALL_OPERATOR_LOC,
                    kinds::CALL_OPERATOR_WRITE_NODE_RECEIVER, sel);
            } else if kind == kinds::CALL_AND_WRITE_NODE {
                let sel = range_start(t, i, kinds::CALL_AND_WRITE_NODE_MESSAGE_LOC);
                check_call_operator(source, t, &mut out, i, kinds::CALL_AND_WRITE_NODE_CALL_OPERATOR_LOC,
                    kinds::CALL_AND_WRITE_NODE_RECEIVER, sel);
            } else if kind == kinds::CALL_TARGET_NODE {
                let sel = range_start(t, i, kinds::CALL_TARGET_NODE_MESSAGE_LOC);
                check_call_operator(source, t, &mut out, i, kinds::CALL_TARGET_NODE_CALL_OPERATOR_LOC,
                    kinds::CALL_TARGET_NODE_RECEIVER, sel);
            } else {
                assert(before + node_runs(source@, *t, i as int) =~= before);
            }
            assert(pairs(out@) == before + node_runs(source@, *t, i as int));
        } else {
            assert(runs_upto(source@, *t, evs@, k + 1) =~= before);
        }
        k += 1;
    }
    out
}

} // verus!
