//! `Layout/SpaceInsideStringInterpolation`: the space just inside `#{` and
//! `}` of an interpolation, per `EnforcedStyle` (`no_space`, `space`).
//!
//! An interpolation that spans lines, or holds only whitespace, is not
//! checked. Under `no_space` a run of spaces and tabs just inside a
//! delimiter is an offense and is removed; under `space` a delimiter without
//! a space or tab next to it is an offense, and a space is inserted unless
//! some other whitespace is already there. The first offense of an
//! interpolation carries all of its edits.

use vstd::prelude::*;
use crate::syntax::{SyntaxTree, tree_wf};
use crate::syntax::kinds;
use crate::syntax::access::{range, range_at};
use crate::syntax::flatten::{parse_tree, check_tree, tree_of};
use crate::syntax::walk::{walk_events, walk, Event, events_in, event_node};
use crate::rules::space_scan::{is_ruby_space, spec_is_ruby_space, skip_space_left, skip_space_right, blank_run_end, blank_run_start};
use crate::rules::space_inside_array_literal_brackets::{blank_at, space_at};

verus! {

/// `EnforcedStyle: no_space` (the default).
pub const STYLE_NO_SPACE: u8 = 0;
/// `EnforcedStyle: space`.
pub const STYLE_SPACE: u8 = 1;

/// "Do not use space ...".
pub const CMD_NO_SPACE: u8 = 0;
/// "Use space ...".
pub const CMD_SPACE: u8 = 1;

/// `Layout/SpaceInsideStringInterpolation` configuration.
#[derive(Clone, Copy)]
pub struct Config {
    pub style: u8,
}

/// One edit: insert a space at `start` (`insert`, with `start == end`), or
/// remove `[start, end)`.
#[derive(Clone, Copy, Debug, PartialEq, Eq)]
pub struct Edit {
    pub start: usize,
    pub end: usize,
    pub insert: bool,
}

/// One offense; the first offense of an interpolation carries its edits.
pub struct SpaceInsideInterpOffense {
    pub start: usize,
    pub end: usize,
    pub command: u8,
    pub edits: Vec<Edit>,
}

/// An offense as the specification sees it.
pub type InterpOffense = (usize, usize, u8, Seq<Edit>);

/// `[x]` when `b`, else nothing.
pub open spec fn opt<T>(b: bool, x: T) -> Seq<T> {
    if b { seq![x] } else { Seq::empty() }
}

/// The interpolation is not checked: it spans lines or holds only
/// whitespace.
pub open spec fn interp_skipped(s: Seq<u8>, ls: usize, le: usize, rs: usize, re: usize) -> bool {
    ||| ls <= re <= s.len() && s.subrange(ls as int, re as int).contains(10u8)
    ||| le <= rs <= s.len() && (forall|q: int| le <= q < rs ==> spec_is_ruby_space(#[trigger] s[q]))
}

/// The offenses (without edits) of an interpolation with `#{` at `[ls, le)`
/// and `}` at `[rs, re)`.
pub open spec fn interp_pending(s: Seq<u8>, cfg: Config, ls: usize, le: usize, rs: usize, re: usize)
    -> Seq<(usize, usize, u8)>
{
    let sal = blank_at(s, le as int);
    let sbr = rs > 0 && blank_at(s, rs - 1);
    if cfg.style == STYLE_SPACE {
        opt(!sal, (ls, le, CMD_SPACE)) + opt(!sbr, (rs, re, CMD_SPACE))
    } else {
        opt(sal, (le, blank_run_end(s, le as int) as usize, CMD_NO_SPACE))
            + opt(sbr, (blank_run_start(s, rs as int) as usize, rs, CMD_NO_SPACE))
    }
}

/// The edits of an interpolation with `#{` at `[ls, le)` and `}` at
/// `[rs, re)`.
pub open spec fn interp_edits(s: Seq<u8>, cfg: Config, ls: usize, le: usize, rs: usize, re: usize) -> Seq<Edit> {
    let sal = blank_at(s, le as int);
    let sbr = rs > 0 && blank_at(s, rs - 1);
    if cfg.style == STYLE_SPACE {
        opt(!space_at(s, le as int), Edit { start: le, end: le, insert: true })
            + opt(rs == 0 || !space_at(s, rs - 1), Edit { start: rs, end: rs, insert: true })
    } else {
        opt(sal, Edit { start: le, end: blank_run_end(s, le as int) as usize, insert: false })
            + opt(sbr, Edit { start: blank_run_start(s, rs as int) as usize, end: rs, insert: false })
    }
}

/// The offenses of an interpolation with `#{` at `[ls, le)` and `}` at
/// `[rs, re)`; the first carries the edits.
pub open spec fn interp_offenses(s: Seq<u8>, cfg: Config, ls: usize, le: usize, rs: usize, re: usize)
    -> Seq<InterpOffense>
{
    if interp_skipped(s, ls, le, rs, re) {
        Seq::empty()
    } else {
        let pending = interp_pending(s, cfg, ls, le, rs, re);
        Seq::new(pending.len(), |k: int| (pending[k].0, pending[k].1, pending[k].2,
            if k == 0 { interp_edits(s, cfg, ls, le, rs, re) } else { Seq::<Edit>::empty() }))
    }
}

/// The interpolation delimiters of node `i`, if it is an interpolation.
pub open spec fn interp_of(t: SyntaxTree, i: int) -> Option<(usize, usize, usize, usize)> {
    if t.nodes@[i].kind == kinds::EMBEDDED_STATEMENTS_NODE {
        match (range_at(t, i, kinds::EMBEDDED_STATEMENTS_NODE_OPENING_LOC as int),
            range_at(t, i, kinds::EMBEDDED_STATEMENTS_NODE_CLOSING_LOC as int)) {
            (Some((ls, le)), Some((rs, re))) => Some((ls, le, rs, re)),
            _ => None,
        }
    } else {
        None
    }
}

/// The offenses of the first `k` events.
pub open spec fn run(s: Seq<u8>, t: SyntaxTree, cfg: Config, evs: Seq<Event>, k: int) -> Seq<InterpOffense>
    decreases k,
{
    if k <= 0 {
        Seq::empty()
    } else {
        let prev = run(s, t, cfg, evs, k - 1);
        match evs[k - 1] {
            Event::Enter(i) => match interp_of(t, i as int) {
                Some((ls, le, rs, re)) => prev + interp_offenses(s, cfg, ls, le, rs, re),
                None => prev,
            },
            _ => prev,
        }
    }
}

/// `o` is the offense `r`.
pub open spec fn offense_is(o: SpaceInsideInterpOffense, r: InterpOffense) -> bool {
    o.start == r.0 && o.end == r.1 && o.command == r.2 && o.edits@ == r.3
}

/// The offenses of `source`.
pub fn check_space_inside_string_interpolation(source: &[u8], config: Config) -> (r: Vec<SpaceInsideInterpOffense>)
    ensures
        exists|t: SyntaxTree| #[trigger] tree_of(t, source@) && (if tree_wf(t) {
            &&& r@.len() == run(source@, t, config, walk_events(t), walk_events(t).len() as int).len()
            &&& forall|k: int| 0 <= k < r@.len() ==> offense_is(#[trigger] r@[k], run(source@, t, config, walk_events(t), walk_events(t).len() as int)[k])
        } else {
            r@.len() == 0
        }),
{
    let t = parse_tree(source);
    if !check_tree(&t) {
        assert(tree_of(t, source@));
        return Vec::new();
    }
    let evs = walk(&t);
    let r = interpolation_offenses(source, &t, &evs, config);
    assert(tree_of(t, source@));
    r
}

/// The offenses of the parsed `source` over the walk `evs`.
pub fn interpolation_offenses(source: &[u8], t: &SyntaxTree, evs: &Vec<Event>, cfg: Config)
    -> (r: Vec<SpaceInsideInterpOffense>)
    requires
        tree_wf(*t),
        t.source_len == source@.len(),
        events_in(evs@, t.nodes@.len() as nat),
    ensures
        r@.len() == run(source@, *t, cfg, evs@, evs@.len() as int).len(),
        forall|k: int| 0 <= k < r@.len() ==> offense_is(#[trigger] r@[k], run(source@, *t, cfg, evs@, evs@.len() as int)[k]),
{
    let mut out: Vec<SpaceInsideInterpOffense> = Vec::new();
    let mut k: usize = 0;
    while k < evs.len()
        invariant
            tree_wf(*t),
            t.source_len == source@.len(),
            events_in(evs@, t.nodes@.len() as nat),
            k <= evs@.len(),
            out@.len() == run(source@, *t, cfg, evs@, k as int).len(),
            forall|q: int| 0 <= q < out@.len() ==> offense_is(#[trigger] out@[q], run(source@, *t, cfg, evs@, k as int)[q]),
        decreases evs.len() - k,
    {
        assert(event_node(evs@[k as int]) < t.nodes@.len());
        let ghost prev = run(source@, *t, cfg, evs@, k as int);
        let ghost old_out = out@;
        match evs[k] {
            Event::Enter(i) => {
                if t.nodes[i].kind == kinds::EMBEDDED_STATEMENTS_NODE {
                    match (range(t, i, kinds::EMBEDDED_STATEMENTS_NODE_OPENING_LOC),
                        range(t, i, kinds::EMBEDDED_STATEMENTS_NODE_CLOSING_LOC)) {
                        (Some((ls, le)), Some((rs, re))) => {
                            let ghost more = interp_offenses(source@, cfg, ls, le, rs, re);
                            handle(source, cfg, ls, le, rs, re, &mut out);
                            assert(interp_of(*t, i as int) == Some((ls, le, rs, re)));
                            assert(run(source@, *t, cfg, evs@, k + 1) == prev + more);
                            assert forall|q: int| 0 <= q < out@.len() implies
                                offense_is(#[trigger] out@[q], run(source@, *t, cfg, evs@, k + 1)[q]) by {
                                if q < old_out.len() {
                                    assert(out@[q] == old_out[q]);
                                    assert((prev + more)[q] == prev[q]);
                                } else {
                                    let q2 = q - old_out.len();
                                    assert((prev + more)[q] == more[q2]);
                                    assert(offense_is(out@[old_out.len() + q2], more[q2]));
                                }
                            }
                        },
                        _ => {},
                    }
                }
            },
            _ => {},
        }
        k += 1;
    }
    out
}

/// The offenses of one interpolation ([`interp_offenses`]), appended to
/// `out`.
fn handle(s: &[u8], cfg: Config, ls: usize, le: usize, rs: usize, re: usize, out: &mut Vec<SpaceInsideInterpOffense>)
    ensures
        final(out)@.len() == old(out)@.len() + interp_offenses(s@, cfg, ls, le, rs, re).len(),
        forall|q: int| 0 <= q < old(out)@.len() ==> final(out)@[q] == old(out)@[q],
        forall|q: int| 0 <= q < interp_offenses(s@, cfg, ls, le, rs, re).len()
            ==> offense_is(#[trigger] final(out)@[old(out)@.len() + q], interp_offenses(s@, cfg, ls, le, rs, re)[q]),
{
    let ghost spec = interp_offenses(s@, cfg, ls, le, rs, re);
    // An interpolation over several lines.
    if ls <= re && re <= s.len() {
        let mut q = ls;
        while q < re
            invariant
                ls <= q <= re <= s@.len(),
                spec == interp_offenses(s@, cfg, ls, le, rs, re),
                forall|x: int| ls <= x < q ==> s@[x] != 10u8,
            decreases re - q,
        {
            if s[q] == 10u8 {
                assert(s@.subrange(ls as int, re as int)[q - ls] == 10u8);
                assert(spec.len() == 0);
                return;
            }
            q += 1;
        }
        assert(!s@.subrange(ls as int, re as int).contains(10u8));
    }
    // An interpolation of whitespace only.
    if le <= rs && rs <= s.len() {
        let mut all = true;
        let mut q = le;
        while q < rs
            invariant
                le <= q <= rs <= s@.len(),
                all == (forall|x: int| le <= x < q ==> spec_is_ruby_space(#[trigger] s@[x])),
            decreases rs - q,
        {
            if !is_ruby_space(s[q]) {
                assert(!spec_is_ruby_space(s@[q as int]));
                all = false;
            }
            q += 1;
        }
        if all {
            assert(spec.len() == 0);
            return;
        }
    }
    let sal = le < s.len() && (s[le] == 32u8 || s[le] == 9u8);
    let sbr = rs > 0 && rs - 1 < s.len() && (s[rs - 1] == 32u8 || s[rs - 1] == 9u8);
    let wl = le < s.len() && is_ruby_space(s[le]);
    let wr = rs > 0 && rs - 1 < s.len() && is_ruby_space(s[rs - 1]);
    let mut pending: Vec<(usize, usize, u8)> = Vec::new();
    let mut edits: Vec<Edit> = Vec::new();
    if cfg.style == STYLE_SPACE {
        if !sal {
            pending.push((ls, le, CMD_SPACE));
        }
        if !sbr {
            pending.push((rs, re, CMD_SPACE));
        }
        if !wl {
            edits.push(Edit { start: le, end: le, insert: true });
        }
        if rs == 0 || !wr {
            edits.push(Edit { start: rs, end: rs, insert: true });
        }
    } else {
        let l_run = skip_space_right(s, le);
        let r_run = skip_space_left(s, rs);
        if sal {
            pending.push((le, l_run, CMD_NO_SPACE));
        }
        if sbr {
            pending.push((r_run, rs, CMD_NO_SPACE));
        }
        if sal {
            edits.push(Edit { start: le, end: l_run, insert: false });
        }
        if sbr {
            edits.push(Edit { start: r_run, end: rs, insert: false });
        }
    }
    assert(!interp_skipped(s@, ls, le, rs, re));
    assert(pending@ =~= interp_pending(s@, cfg, ls, le, rs, re));
    assert(edits@ =~= interp_edits(s@, cfg, ls, le, rs, re));
    assert(pending@.len() == spec.len());
    let n = pending.len();
    proof {
        if n > 0 {
            assert(spec[0].3 == interp_edits(s@, cfg, ls, le, rs, re));
        }
    }
    let mut j: usize = 0;
    let mut edits_left: Option<Vec<Edit>> = Some(edits);
    while j < n
        invariant
            j <= n,
            n == pending@.len(),
            n == spec.len(),
            out@.len() == old(out)@.len() + j,
            forall|q: int| 0 <= q < old(out)@.len() ==> out@[q] == old(out)@[q],
            forall|q: int| 0 <= q < j ==> offense_is(#[trigger] out@[old(out)@.len() + q], spec[q]),
            forall|q: int| 0 <= q < n ==> (spec[q].0, spec[q].1, spec[q].2) == #[trigger] pending@[q],
            j == 0 && n > 0 ==> (edits_left matches Some(e) && e@ == spec[0].3),
            j > 0 ==> edits_left is None,
            spec == interp_offenses(s@, cfg, ls, le, rs, re),
            !interp_skipped(s@, ls, le, rs, re),
        decreases n - j,
    {
        let (a, b, c) = pending[j];
        let e = match edits_left {
            Some(e) => e,
            None => Vec::new(),
        };
        edits_left = None;
        assert(j > 0 ==> spec[j as int].3 == Seq::<Edit>::empty());
        assert(e@ == spec[j as int].3);
        let ghost before = out@;
        out.push(SpaceInsideInterpOffense { start: a, end: b, command: c, edits: e });
        assert forall|q: int| 0 <= q < j + 1 implies offense_is(#[trigger] out@[old(out)@.len() + q], spec[q]) by {
            if q < j {
                assert(out@[old(out)@.len() + q] == before[old(out)@.len() + q]);
            }
        }
        j += 1;
    }
}

/// An interpolation holding only whitespace (`#{}`, `#{ }`) is never an
/// offense, whatever the style.
pub proof fn blank_interpolation_never_offends(s: Seq<u8>, cfg: Config, ls: usize, le: usize, rs: usize, re: usize)
    requires
        le <= rs <= s.len(),
        forall|q: int| le <= q < rs ==> spec_is_ruby_space(#[trigger] s[q]),
    ensures
        interp_offenses(s, cfg, ls, le, rs, re).len() == 0,
{
}

} // verus!
