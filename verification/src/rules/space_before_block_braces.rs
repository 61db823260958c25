//! `Layout/SpaceBeforeBlockBraces`: the facts about the space to the left of
//! each brace block's `{`.
//!
//! For every block written with braces (method-call blocks, lambda literals,
//! and the block of a bare `super`), in walk order, the rule reports the `{`
//! range, where the `[ \t]`-then-`\n` run before it begins, whether `{` and
//! `}` are adjacent, and whether they sit on different lines. `do ... end`
//! blocks are skipped. The caller compares the used style with the
//! configured one.

use vstd::prelude::*;
use crate::syntax::{SyntaxTree, tree_wf};
use crate::syntax::kinds;
use crate::syntax::access::{child, range, child_at, range_at};
use crate::syntax::flatten::{parse_tree, check_tree, tree_of};
use crate::syntax::walk::{walk, walk_events, Event, events_in, event_node};
use crate::rules::space_scan::{surrounding_space_left, is_blank_or_nl, nl_run_start, blank_run_start};

verus! {

/// One brace block.
pub struct SpaceBeforeBlockBracesRecord {
    /// The `{` byte range.
    pub left_start: usize,
    pub left_end: usize,
    /// Where the `[ \t]`-then-`\n` run before the `{` begins.
    pub space_begin: usize,
    /// `{` and `}` are adjacent.
    pub empty: bool,
    /// `{` and `}` sit on different lines.
    pub multiline: bool,
}

/// A `\n` lies in `s[a..b]`.
pub open spec fn newline_in(s: Seq<u8>, a: int, b: int) -> bool {
    exists|k: int| a <= k < b && #[trigger] s[k] == 10u8
}

/// Whether a `\n` lies between offsets `a` and `b` (in either order).
pub fn newline_between(s: &[u8], a: usize, b: usize) -> (r: bool)
    requires
        a <= s@.len(),
        b <= s@.len(),
    ensures
        r == (if a <= b { newline_in(s@, a as int, b as int) } else { newline_in(s@, b as int, a as int) }),
{
    let (lo, hi) = if a <= b { (a, b) } else { (b, a) };
    let mut k = lo;
    while k < hi
        invariant
            lo <= k <= hi <= s@.len(),
            (lo, hi) == (if a <= b { (a, b) } else { (b, a) }),
            forall|q: int| lo <= q < k ==> #[trigger] s@[q] != 10u8,
        decreases hi - k,
    {
        if s[k] == 10 {
            assert(lo <= k < hi && s@[k as int] == 10u8);
            assert(newline_in(s@, lo as int, hi as int));
            return true;
        }
        k += 1;
    }
    false
}

/// A record describes a `{` of `s`: the byte there is `{`, the space run
/// before it is made of blanks and newlines.
pub open spec fn record_ok(s: Seq<u8>, r: SpaceBeforeBlockBracesRecord) -> bool {
    &&& r.left_start < r.left_end <= s.len()
    &&& s[r.left_start as int] == 123u8
    &&& r.space_begin <= r.left_start
    &&& forall|k: int| r.space_begin <= k < r.left_start ==> is_blank_or_nl(#[trigger] s[k])
}

/// Every record of `v` describes a `{` of `s`.
pub open spec fn records_ok(s: Seq<u8>, v: Seq<SpaceBeforeBlockBracesRecord>) -> bool {
    forall|k: int| 0 <= k < v.len() ==> record_ok(s, #[trigger] v[k])
}

/// A record's fields as plain values.
pub open spec fn rec_view(r: SpaceBeforeBlockBracesRecord) -> (usize, usize, int, bool, bool) {
    (r.left_start, r.left_end, r.space_begin as int, r.empty, r.multiline)
}

/// The record of the braces in fields `open_f` / `close_f` of node `i`,
/// when the opening is a non-empty range starting with `{`: the `{` range,
/// where the space run before it begins, whether the closing starts where
/// the `{` ends, and whether a line break lies between `{` and the closing.
pub open spec fn brace_record(s: Seq<u8>, t: SyntaxTree, i: int, open_f: int, close_f: int) -> Option<(
    usize,
    usize,
    int,
    bool,
    bool,
)> {
    match (range_at(t, i, open_f), range_at(t, i, close_f)) {
        (Some((ls, le)), Some((rs, _))) => if ls < s.len() && s[ls as int] == 123u8 && ls < le {
            Some((ls, le, nl_run_start(s, blank_run_start(s, ls as int)), le == rs, if ls <= rs {
                newline_in(s, ls as int, rs as int)
            } else {
                newline_in(s, rs as int, ls as int)
            }))
        } else {
            None
        },
        _ => None,
    }
}

/// The record of node `i`: a block or lambda in braces, or the brace block
/// of a bare `super`.
pub open spec fn node_record(s: Seq<u8>, t: SyntaxTree, i: int) -> Option<(usize, usize, int, bool, bool)> {
    let kind = t.nodes@[i].kind;
    if kind == kinds::BLOCK_NODE {
        brace_record(s, t, i, kinds::BLOCK_NODE_OPENING_LOC as int, kinds::BLOCK_NODE_CLOSING_LOC as int)
    } else if kind == kinds::LAMBDA_NODE {
        brace_record(s, t, i, kinds::LAMBDA_NODE_OPENING_LOC as int, kinds::LAMBDA_NODE_CLOSING_LOC as int)
    } else if kind == kinds::FORWARDING_SUPER_NODE {
        match child_at(t, i, kinds::FORWARDING_SUPER_NODE_BLOCK as int) {
            Some(b) => brace_record(s, t, b as int, kinds::BLOCK_NODE_OPENING_LOC as int, kinds::BLOCK_NODE_CLOSING_LOC as int),
            None => None,
        }
    } else {
        None
    }
}

/// The records of the nodes entered in the first `k` events.
pub open spec fn records_upto(s: Seq<u8>, t: SyntaxTree, evs: Seq<Event>, k: int) -> Seq<(usize, usize, int, bool, bool)>
    decreases k,
{
    if k <= 0 {
        Seq::empty()
    } else {
        records_upto(s, t, evs, k - 1) + match evs[k - 1] {
            Event::Enter(i) => if i < t.nodes@.len() {
                match node_record(s, t, i as int) {
                    Some(r) => seq![r],
                    None => Seq::empty(),
                }
            } else {
                Seq::empty()
            },
            _ => Seq::empty(),
        }
    }
}

/// The brace blocks of `source`.
pub fn check_space_before_block_braces(source: &[u8]) -> (r: Vec<SpaceBeforeBlockBracesRecord>)
    ensures
        records_ok(source@, r@),
        exists|t: SyntaxTree| #[trigger] tree_of(t, source@) && (if tree_wf(t) {
            r@.map_values(|x: SpaceBeforeBlockBracesRecord| rec_view(x)) == records_upto(source@, t, walk_events(t),
                walk_events(t).len() as int)
        } else {
            r@.len() == 0
        }),
{
    let t = parse_tree(source);
    if !check_tree(&t) {
        assert(tree_of(t, source@));
        return Vec::new();
    }
    let r = space_before_block_braces_records(source, &t);
    assert(tree_of(t, source@));
    r
}

/// The record of the braces in fields `open_f` / `close_f` of node `i`, when
/// the opening is a `{`.
fn record_of(source: &[u8], t: &SyntaxTree, i: usize, open_f: usize, close_f: usize)
    -> (r: Option<SpaceBeforeBlockBracesRecord>)
    requires
        tree_wf(*t),
        t.source_len == source@.len(),
        i < t.nodes@.len(),
    ensures
        r matches Some(rec) ==> record_ok(source@, rec),
        match r {
            Some(rec) => brace_record(source@, *t, i as int, open_f as int, close_f as int) == Some(rec_view(rec)),
            None => brace_record(source@, *t, i as int, open_f as int, close_f as int) is None,
        },
{
    let (ls, le) = match range(t, i, open_f) {
        Some(r) => r,
        None => return None,
    };
    let (rs, _) = match range(t, i, close_f) {
        Some(r) => r,
        None => return None,
    };
    if !(ls < source.len() && source[ls] == 123 && ls < le) {
        return None;
    }
    Some(SpaceBeforeBlockBracesRecord {
        left_start: ls,
        left_end: le,
        space_begin: surrounding_space_left(source, ls),
        empty: le == rs,
        multiline: newline_between(source, ls, rs),
    })
}

/// The brace blocks of the parsed `source`, in walk order.
pub fn space_before_block_braces_records(source: &[u8], t: &SyntaxTree) -> (r: Vec<SpaceBeforeBlockBracesRecord>)
    requires
        tree_wf(*t),
        t.source_len == source@.len(),
    ensures
        records_ok(source@, r@),
        r@.map_values(|x: SpaceBeforeBlockBracesRecord| rec_view(x)) == records_upto(source@, *t, walk_events(*t),
            walk_events(*t).len() as int),
{
    let evs = walk(t);
    let mut out: Vec<SpaceBeforeBlockBracesRecord> = Vec::new();
    let mut k: usize = 0;
    while k < evs.len()
        invariant
            tree_wf(*t),
            t.source_len == source@.len(),
            events_in(evs@, t.nodes@.len() as nat),
            records_ok(source@, out@),
            k <= evs@.len(),
            out@.map_values(|x: SpaceBeforeBlockBracesRecord| rec_view(x)) == records_upto(source@, *t, evs@, k as int),
        decreases evs.len() - k,
    {
        assert(event_node(evs@[k as int]) < t.nodes@.len());
        let ghost before = out@;
        if let Event::Enter(i) = evs[k] {
            let kind = t.nodes[i].kind;
            let rec = if kind == kinds::BLOCK_NODE {
                record_of(source, t, i, kinds::BLOCK_NODE_OPENING_LOC, kinds::BLOCK_NODE_CLOSING_LOC)
            } else if kind == kinds::LAMBDA_NODE {
                record_of(source, t, i, kinds::LAMBDA_NODE_OPENING_LOC, kinds::LAMBDA_NODE_CLOSING_LOC)
            } else if kind == kinds::FORWARDING_SUPER_NODE {
                // The block of a bare `super` is a typed field, not walked on
                // its own.
                match child(t, i, kinds::FORWARDING_SUPER_NODE_BLOCK) {
                    Some(b) => record_of(source, t, b, kinds::BLOCK_NODE_OPENING_LOC, kinds::BLOCK_NODE_CLOSING_LOC),
                    None => None,
                }
            } else {
                None
            };
            if let Some(r) = rec {
                let ghost prev = out@;
                out.push(r);
                assert forall|q: int| 0 <= q < out@.len() implies record_ok(source@, #[trigger] out@[q]) by {
                    if q < prev.len() {
                        assert(out@[q] == prev[q]);
                    }
                }
            }
            assert(out@.map_values(|x: SpaceBeforeBlockBracesRecord| rec_view(x)) =~= records_upto(source@, *t, evs@,
                k + 1));
        } else {
            assert(records_upto(source@, *t, evs@, k + 1) =~= records_upto(source@, *t, evs@, k as int));
        }
        k += 1;
    }
    out
}

} // verus!
