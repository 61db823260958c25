//! `Layout/SpaceInsideReferenceBrackets`: the space just inside the brackets
//! of an element reference (`a[k]`, `a[k] = v`, `a[k] += v`, `a[k], b = ...`),
//! per `EnforcedStyle` and the style for empty brackets.
//!
//! Empty brackets are adjacent tokens (only whitespace and `\`-newline
//! continuations between) and are judged first. Otherwise nothing is checked
//! when the reference spans lines; for `a[k] op= v` the reference ends at its
//! `]`, for a call or a target it is the whole node. An explicit `a.[](k)` and
//! a safe-navigation `a&.[](k)` have no brackets to check. Each offending node
//! carries its corrector program: `(0, s, e)` removes `[s, e)`, `(1, s, e)`
//! inserts a space after it and `(2, s, e)` before it.

use vstd::prelude::*;
use crate::syntax::{SyntaxTree, tree_wf};
use crate::syntax::kinds;
use crate::syntax::access::{text, text_at};
use crate::syntax::flatten::{parse_tree, check_tree, tree_of};
use crate::syntax::walk::{walk_events, walk, Event, events_in, event_node};
use crate::rules::space_scan::{is_ruby_space, next_token_start, next_token, skip_space_left, skip_space_right, blank_run_end, blank_run_start};
use crate::rules::lines::{no_newline, same_line};
use crate::rules::space_inside_array_literal_brackets::{blank_at, space_at, byte_is, delims};
use crate::rules::bytes::vec_is;

verus! {

/// `EnforcedStyle` value.
#[derive(Clone, Copy, PartialEq, Eq, Structural)]
pub enum Style {
    NoSpace,
    Space,
}

/// Config for `Layout/SpaceInsideReferenceBrackets`.
#[derive(Clone, Copy)]
pub struct Config {
    pub style: Style,
    /// `EnforcedStyleForEmptyBrackets == 'space'`.
    pub space_empty: bool,
}

/// One offense: the reported byte range, its message, the node whose
/// corrector program applies, and whether the offense is dropped when
/// uncorrectable offenses are disabled.
#[derive(Clone, Copy)]
pub struct SpaceInsideReferenceBracketsOffense {
    pub start_offset: usize,
    pub end_offset: usize,
    pub message: MessageId,
    pub node: usize,
    pub suppress_when_disable_uncorrectable: bool,
}

/// The fixed messages.
#[derive(Clone, Copy, PartialEq, Eq, Structural, Debug)]
pub enum MessageId {
    /// `Use space inside reference brackets.`
    Use,
    /// `Do not use space inside reference brackets.`
    DoNotUse,
    /// `Use one space inside empty reference brackets.`
    UseOneEmpty,
    /// `Do not use space inside empty reference brackets.`
    DoNotUseEmpty,
}

impl MessageId {
    /// The numeric tag of the message: its position in the list above.
    pub fn code(self) -> (c: u8)
        ensures
            self == MessageId::Use <==> c == 0,
            self == MessageId::DoNotUse <==> c == 1,
            self == MessageId::UseOneEmpty <==> c == 2,
            self == MessageId::DoNotUseEmpty <==> c == 3,
    {
        match self {
            MessageId::Use => 0,
            MessageId::DoNotUse => 1,
            MessageId::UseOneEmpty => 2,
            MessageId::DoNotUseEmpty => 3,
        }
    }
}

/// The offenses and one corrector program per offending node: each step is
/// `(kind, start, end)` with kind 0 = remove, 1 = insert a space after,
/// 2 = insert a space before.
pub struct ReferenceBracketsResult {
    pub offenses: Vec<SpaceInsideReferenceBracketsOffense>,
    pub node_ops: Vec<Vec<CorrectorOp>>,
}

/// A corrector call: `(kind, start, end)`.
pub type CorrectorOp = (u8, usize, usize);

/// The offense `[start, end)` with `message` for `node`.
pub open spec fn off(start: usize, end: usize, message: MessageId, node: usize, suppress: bool)
    -> SpaceInsideReferenceBracketsOffense
{
    SpaceInsideReferenceBracketsOffense {
        start_offset: start, end_offset: end, message, node, suppress_when_disable_uncorrectable: suppress,
    }
}

/// `[x]` when `b`, else nothing.
pub open spec fn opt<T>(b: bool, x: T) -> Seq<T> {
    if b { seq![x] } else { Seq::empty() }
}

/// The offenses and, when there are any, the corrector program of one
/// reference: node number `id`, extent `[ns, ext)`, `[` at `lb`, `]` at
/// `[rb_s, rb_e)`.
pub open spec fn reference_check(s: Seq<u8>, cfg: Config, id: usize, ns: usize, ext: usize, lb: usize, rb_s: usize,
    rb_e: usize) -> (Seq<SpaceInsideReferenceBracketsOffense>, Option<Seq<CorrectorOp>>)
{
    let l = (lb + 1) as usize;
    if !(lb < rb_s < rb_e <= s.len() && ns <= ext <= s.len()) {
        (Seq::empty(), None)
    } else if next_token(s, l as int) == rb_s {
        if cfg.space_empty {
            if !(lb + 2 == rb_s && byte_is(s, l as int, 32u8)) {
                (seq![off(lb, rb_e, MessageId::UseOneEmpty, id, false)], Some(seq![(0u8, l, rb_s), (1u8, lb, l)]))
            } else {
                (Seq::empty(), None)
            }
        } else if l != rb_s {
            (seq![off(lb, rb_e, MessageId::DoNotUseEmpty, id, false)], Some(seq![(0u8, l, rb_s)]))
        } else {
            (Seq::empty(), None)
        }
    } else if !no_newline(s, ns as int, ext as int) {
        (Seq::empty(), None)
    } else {
        let left_space = blank_at(s, l as int);
        let right_space = blank_at(s, rb_s - 1);
        let l_run = blank_run_end(s, l as int) as usize;
        let r_run = blank_run_start(s, rb_s as int) as usize;
        match cfg.style {
            Style::NoSpace => {
                let offs = opt(left_space, off(l, l_run, MessageId::DoNotUse, id, false))
                    + opt(right_space, off(r_run, rb_s, MessageId::DoNotUse, id, true));
                let ops = opt(space_at(s, l as int), (0u8, l, l_run)) + opt(space_at(s, rb_s - 1), (0u8, r_run, rb_s));
                (offs, if left_space || right_space { Some(ops) } else { None })
            },
            Style::Space => {
                let offs = opt(!left_space, off(lb, l, MessageId::Use, id, false))
                    + opt(!right_space, off(rb_s, rb_e, MessageId::Use, id, true));
                let ops = opt(!space_at(s, l as int), (1u8, lb, l)) + opt(!space_at(s, rb_s - 1), (2u8, rb_s, rb_e));
                (offs, if !left_space || !right_space { Some(ops) } else { None })
            },
        }
    }
}

/// The reference that node `i` makes: its start, the end of its extent, its
/// `[` and its `]`.
pub open spec fn reference_of(s: Seq<u8>, t: SyntaxTree, i: int) -> Option<(usize, usize, usize, usize, usize)> {
    let nd = t.nodes@[i];
    let k = nd.kind;
    let is_index_call = k == kinds::CALL_NODE && nd.flags & 4u16 == 0
        && (text_at(t, i, kinds::CALL_NODE_NAME as int) == Some(seq![91u8, 93u8])
            || text_at(t, i, kinds::CALL_NODE_NAME as int) == Some(seq![91u8, 93u8, 61u8]));
    let is_write = k == kinds::INDEX_OPERATOR_WRITE_NODE || k == kinds::INDEX_OR_WRITE_NODE
        || k == kinds::INDEX_AND_WRITE_NODE;
    if is_index_call || is_write || k == kinds::INDEX_TARGET_NODE {
        match delims(t, i) {
            Some((o0, _, c0, c1)) => if byte_is(s, o0 as int, 91u8) {
                Some((nd.start, if is_write { c1 } else { nd.end }, o0, c0, c1))
            } else {
                None
            },
            None => None,
        }
    } else {
        None
    }
}

/// The offenses and programs after the first `k` events.
pub open spec fn run(s: Seq<u8>, t: SyntaxTree, cfg: Config, evs: Seq<Event>, k: int)
    -> (Seq<SpaceInsideReferenceBracketsOffense>, Seq<Seq<CorrectorOp>>)
    decreases k,
{
    if k <= 0 {
        (Seq::empty(), Seq::empty())
    } else {
        let (offs, progs) = run(s, t, cfg, evs, k - 1);
        match evs[k - 1] {
            Event::Enter(i) => match reference_of(s, t, i as int) {
                Some((ns, ext, lb, rb_s, rb_e)) => {
                    let (o, p) = reference_check(s, cfg, progs.len() as usize, ns, ext, lb, rb_s, rb_e);
                    (offs + o, match p { Some(x) => progs.push(x), None => progs })
                },
                None => (offs, progs),
            },
            _ => (offs, progs),
        }
    }
}

/// The offenses of `source` and the programs of the offending references.
pub fn check_space_inside_reference_brackets(source: &[u8], config: Config) -> (r: ReferenceBracketsResult)
    ensures
        exists|t: SyntaxTree| #[trigger] tree_of(t, source@) && (if tree_wf(t) {
            &&& r.offenses@ == run(source@, t, config, walk_events(t), walk_events(t).len() as int).0
            &&& r.node_ops@.map_values(|v: Vec<CorrectorOp>| v@) == run(source@, t, config, walk_events(t), walk_events(t).len() as int).1
        } else {
            r.offenses@.len() == 0 && r.node_ops@.len() == 0
        }),
{
    let t = parse_tree(source);
    if !check_tree(&t) {
        assert(tree_of(t, source@));
        return ReferenceBracketsResult { offenses: Vec::new(), node_ops: Vec::new() };
    }
    let evs = walk(&t);
    let r = reference_brackets_result(source, &t, &evs, config);
    assert(tree_of(t, source@));
    r
}

/// The offenses of the parsed `source` over the walk `evs`, and the
/// programs of the offending references.
pub fn reference_brackets_result(source: &[u8], t: &SyntaxTree, evs: &Vec<Event>, cfg: Config)
    -> (r: ReferenceBracketsResult)
    requires
        tree_wf(*t),
        t.source_len == source@.len(),
        events_in(evs@, t.nodes@.len() as nat),
    ensures
        r.offenses@ == run(source@, *t, cfg, evs@, evs@.len() as int).0,
        r.node_ops@.map_values(|v: Vec<CorrectorOp>| v@) == run(source@, *t, cfg, evs@, evs@.len() as int).1,
{
    let mut offs: Vec<SpaceInsideReferenceBracketsOffense> = Vec::new();
    let mut progs: Vec<Vec<CorrectorOp>> = Vec::new();
    let mut k: usize = 0;
    while k < evs.len()
        invariant
            tree_wf(*t),
            t.source_len == source@.len(),
            events_in(evs@, t.nodes@.len() as nat),
            k <= evs@.len(),
            (offs@, progs@.map_values(|v: Vec<CorrectorOp>| v@)) == run(source@, *t, cfg, evs@, k as int),
        decreases evs.len() - k,
    {
        assert(event_node(evs@[k as int]) < t.nodes@.len());
        match evs[k] {
            Event::Enter(i) => {
                match reference_of_node(source, t, i) {
                    Some((ns, ext, lb, rb_s, rb_e)) => {
                        let id = progs.len();
                        let (o, p) = reference_check_of(source, cfg, id, ns, ext, lb, rb_s, rb_e);
                        let ghost before = offs@;
                        append(&mut offs, &o);
                        match p {
                            Some(x) => {
                                let ghost pb = progs@;
                                progs.push(x);
                                assert(progs@.map_values(|v: Vec<CorrectorOp>| v@)
                                    =~= pb.map_values(|v: Vec<CorrectorOp>| v@).push(x@));
                            },
                            None => {},
                        }
                    },
                    None => {},
                }
            },
            _ => {},
        }
        k += 1;
    }
    ReferenceBracketsResult { offenses: offs, node_ops: progs }
}

/// `out` followed by `more`.
fn append(out: &mut Vec<SpaceInsideReferenceBracketsOffense>, more: &Vec<SpaceInsideReferenceBracketsOffense>)
    ensures
        final(out)@ == old(out)@ + more@,
{
    let mut j: usize = 0;
    while j < more.len()
        invariant
            j <= more@.len(),
            out@ == old(out)@ + more@.subrange(0, j as int),
        decreases more.len() - j,
    {
        out.push(more[j]);
        assert(more@.subrange(0, j + 1) =~= more@.subrange(0, j as int).push(more@[j as int]));
        j += 1;
    }
    assert(more@.subrange(0, more@.len() as int) =~= more@);
}

/// [`reference_of`].
fn reference_of_node(s: &[u8], t: &SyntaxTree, i: usize) -> (r: Option<(usize, usize, usize, usize, usize)>)
    requires
        tree_wf(*t),
        t.source_len == s@.len(),
        i < t.nodes@.len(),
    ensures
        r == reference_of(s@, *t, i as int),
{
    let k = t.nodes[i].kind;
    let is_index_call = k == kinds::CALL_NODE && t.nodes[i].flags & 4u16 == 0 && match text(t, i, kinds::CALL_NODE_NAME) {
        Some(n) => vec_is(n, &[91u8, 93u8]) || vec_is(n, &[91u8, 93u8, 61u8]),
        None => false,
    };
    let is_write = k == kinds::INDEX_OPERATOR_WRITE_NODE || k == kinds::INDEX_OR_WRITE_NODE
        || k == kinds::INDEX_AND_WRITE_NODE;
    if is_index_call || is_write || k == kinds::INDEX_TARGET_NODE {
        match crate::rules::space_inside_array_literal_brackets::delims_of(t, i) {
            Some((o0, _, c0, c1)) => if o0 < s.len() && s[o0] == 91u8 {
                Some((t.nodes[i].start, if is_write { c1 } else { t.nodes[i].end }, o0, c0, c1))
            } else {
                None
            },
            None => None,
        }
    } else {
        None
    }
}

/// [`reference_check`].
fn reference_check_of(s: &[u8], cfg: Config, id: usize, ns: usize, ext: usize, lb: usize, rb_s: usize, rb_e: usize)
    -> (r: (Vec<SpaceInsideReferenceBracketsOffense>, Option<Vec<CorrectorOp>>))
    ensures
        r.0@ == reference_check(s@, cfg, id, ns, ext, lb, rb_s, rb_e).0,
        match reference_check(s@, cfg, id, ns, ext, lb, rb_s, rb_e).1 {
            Some(p) => r.1 matches Some(v) && v@ == p,
            None => r.1 is None,
        },
{
    let ghost spec = reference_check(s@, cfg, id, ns, ext, lb, rb_s, rb_e);
    let mut offs: Vec<SpaceInsideReferenceBracketsOffense> = Vec::new();
    let mut ops: Vec<CorrectorOp> = Vec::new();
    if !(lb < rb_s && rb_s < rb_e && rb_e <= s.len() && ns <= ext && ext <= s.len()) {
        assert(offs@ =~= spec.0);
        return (offs, None);
    }
    let l = lb + 1;
    let (tok, _) = next_token_start(s, l);
    if tok == rb_s {
        if cfg.space_empty {
            if !(lb + 2 == rb_s && s[l] == 32u8) {
                offs.push(SpaceInsideReferenceBracketsOffense {
                    start_offset: lb, end_offset: rb_e, message: MessageId::UseOneEmpty, node: id,
                    suppress_when_disable_uncorrectable: false,
                });
                ops.push((0u8, l, rb_s));
                ops.push((1u8, lb, l));
                assert(offs@ =~= spec.0);
                assert(ops@ =~= spec.1.unwrap());
                return (offs, Some(ops));
            }
        } else if l != rb_s {
            offs.push(SpaceInsideReferenceBracketsOffense {
                start_offset: lb, end_offset: rb_e, message: MessageId::DoNotUseEmpty, node: id,
                suppress_when_disable_uncorrectable: false,
            });
            ops.push((0u8, l, rb_s));
            assert(offs@ =~= spec.0);
            assert(ops@ =~= spec.1.unwrap());
            return (offs, Some(ops));
        }
        assert(offs@ =~= spec.0);
        return (offs, None);
    }
    if !same_line(s, ns, ext) {
        assert(offs@ =~= spec.0);
        return (offs, None);
    }
    let left_space = l < s.len() && (s[l] == 32u8 || s[l] == 9u8);
    let right_space = s[rb_s - 1] == 32u8 || s[rb_s - 1] == 9u8;
    let left_ws = l < s.len() && is_ruby_space(s[l]);
    let right_ws = is_ruby_space(s[rb_s - 1]);
    let l_run = skip_space_right(s, l);
    let r_run = skip_space_left(s, rb_s);
    match cfg.style {
        Style::NoSpace => {
            if left_space {
                offs.push(SpaceInsideReferenceBracketsOffense {
                    start_offset: l, end_offset: l_run, message: MessageId::DoNotUse, node: id,
                    suppress_when_disable_uncorrectable: false,
                });
            }
            if right_space {
                offs.push(SpaceInsideReferenceBracketsOffense {
                    start_offset: r_run, end_offset: rb_s, message: MessageId::DoNotUse, node: id,
                    suppress_when_disable_uncorrectable: true,
                });
            }
            if left_ws {
                ops.push((0u8, l, l_run));
            }
            if right_ws {
                ops.push((0u8, r_run, rb_s));
            }
            assert(offs@ =~= spec.0);
            if left_space || right_space {
                assert(ops@ =~= spec.1.unwrap());
                (offs, Some(ops))
            } else {
                (offs, None)
            }
        },
        Style::Space => {
            if !left_space {
                offs.push(SpaceInsideReferenceBracketsOffense {
                    start_offset: lb, end_offset: l, message: MessageId::Use, node: id,
                    suppress_when_disable_uncorrectable: false,
                });
            }
            if !right_space {
                offs.push(SpaceInsideReferenceBracketsOffense {
                    start_offset: rb_s, end_offset: rb_e, message: MessageId::Use, node: id,
                    suppress_when_disable_uncorrectable: true,
                });
            }
            if !left_ws {
                ops.push((1u8, lb, l));
            }
            if !right_ws {
                ops.push((2u8, rb_s, rb_e));
            }
            assert(offs@ =~= spec.0);
            if !left_space || !right_space {
                assert(ops@ =~= spec.1.unwrap());
                (offs, Some(ops))
            } else {
                (offs, None)
            }
        },
    }
}

} // verus!
