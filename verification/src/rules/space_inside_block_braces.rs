//! `Layout/SpaceInsideBlockBraces`: the space just inside a block's braces
//! (`EnforcedStyle`), inside empty braces (`EnforcedStyleForEmptyBraces`) and
//! between `{` and a block parameter `|` (`SpaceBeforeBlockParameters`).
//!
//! Brace blocks and lambdas are checked; `do ... end` blocks and multi-line
//! empty braces are not. A block's column is that of the call it belongs to
//! (the node entered before it), or of the lambda's `->`; a bare `super { }`
//! block, which the walk reaches only through its `super`, is checked there.
//! Columns count characters, as the parser's do.

use vstd::prelude::*;
use crate::syntax::{SyntaxTree, tree_wf, node_wf};
use crate::syntax::kinds;
use crate::syntax::access::{child, range, child_at, range_at};
use crate::syntax::flatten::{parse_tree, check_tree, tree_of};
use crate::syntax::walk::{walk_events, walk, Event, events_in, event_node};
use crate::rules::space_scan::{is_ruby_space, spec_is_ruby_space, blank_run_end, skip_space_right, surrounding_space_left, blank_run_start, nl_run_start};
use crate::rules::lines::{no_newline, same_line, column, column_of, move_left, move_right, move_left_of, move_right_of};

verus! {

/// `EnforcedStyle` / `EnforcedStyleForEmptyBraces` value.
#[derive(Clone, Copy, PartialEq, Eq, Structural)]
pub enum Style {
    Space,
    NoSpace,
}

/// Config for `Layout/SpaceInsideBlockBraces`.
#[derive(Clone, Copy)]
pub struct Config {
    pub style: Style,
    pub empty_braces_style: Style,
    pub space_before_block_parameters: bool,
}

/// One offense: the reported byte range and its message.
#[derive(Clone, Copy)]
pub struct SpaceInsideBlockBracesOffense {
    pub start_offset: usize,
    pub end_offset: usize,
    pub message: MessageId,
}

/// The fixed messages.
#[derive(Clone, Copy, PartialEq, Eq, Structural)]
pub enum MessageId {
    /// `Space missing inside {.`
    SpaceMissingLeft,
    /// `Space inside { detected.`
    SpaceInsideLeft,
    /// `Space missing inside }.`
    SpaceMissingRight,
    /// `Space inside } detected.`
    SpaceInsideRight,
    /// `Space inside empty braces detected.`
    EmptySpaceDetected,
    /// `Space missing inside empty braces.`
    EmptySpaceMissing,
    /// `Space between { and | missing.`
    PipeSpaceMissing,
    /// `Space between { and | detected.`
    PipeSpaceDetected,
}

impl MessageId {
    /// The numeric tag of the message: its position in the list above.
    pub fn code(self) -> (c: u8)
        ensures
            self == MessageId::SpaceMissingLeft <==> c == 0,
            self == MessageId::SpaceInsideLeft <==> c == 1,
            self == MessageId::SpaceMissingRight <==> c == 2,
            self == MessageId::SpaceInsideRight <==> c == 3,
            self == MessageId::EmptySpaceDetected <==> c == 4,
            self == MessageId::EmptySpaceMissing <==> c == 5,
            self == MessageId::PipeSpaceMissing <==> c == 6,
            self == MessageId::PipeSpaceDetected <==> c == 7,
    {
        match self {
            MessageId::SpaceMissingLeft => 0,
            MessageId::SpaceInsideLeft => 1,
            MessageId::SpaceMissingRight => 2,
            MessageId::SpaceInsideRight => 3,
            MessageId::EmptySpaceDetected => 4,
            MessageId::EmptySpaceMissing => 5,
            MessageId::PipeSpaceMissing => 6,
            MessageId::PipeSpaceDetected => 7,
        }
    }
}

/// The offense `[start, end)` with `message`.
pub open spec fn off(start: usize, end: usize, message: MessageId) -> SpaceInsideBlockBracesOffense {
    SpaceInsideBlockBracesOffense { start_offset: start, end_offset: end, message }
}

/// `[off(start, end, message)]` unless the range is reversed.
pub open spec fn push_off(start: int, end: int, message: MessageId) -> Seq<SpaceInsideBlockBracesOffense> {
    if start > end { Seq::empty() } else { seq![off(start as usize, end as usize, message)] }
}

/// The offense when the style is `space` (a space is missing).
pub open spec fn no_space(cfg: Config, start: int, end: int, message: MessageId) -> Seq<SpaceInsideBlockBracesOffense> {
    if cfg.style == Style::Space { push_off(start, end, message) } else { Seq::empty() }
}

/// The offense when the style is `no_space` (a space is there).
pub open spec fn space(cfg: Config, start: int, end: int, message: MessageId) -> Seq<SpaceInsideBlockBracesOffense> {
    if cfg.style == Style::NoSpace { push_off(start, end, message) } else { Seq::empty() }
}

/// The number of spaces on the last line of `[a, b)`.
pub open spec fn last_line_spaces(s: Seq<u8>, a: int, b: int) -> nat
    decreases b - a,
{
    if b <= a || s[b - 1] == 10u8 {
        0
    } else {
        last_line_spaces(s, a, b - 1) + if s[b - 1] == 32u8 { 1nat } else { 0nat }
    }
}

/// The end of `range_with_surrounding_space(side: :right)` from `p`: the
/// `[ \t]` run, then the `\n` run.
pub open spec fn surrounding_right(s: Seq<u8>, p: int) -> int {
    nl_run_end(s, blank_run_end(s, p))
}

/// The end of the `\n` run that starts at `p`.
pub open spec fn nl_run_end(s: Seq<u8>, p: int) -> int
    decreases s.len() - p,
{
    if 0 <= p < s.len() && s[p] == 10u8 { nl_run_end(s, p + 1) } else { p }
}

/// `p` moved `n` characters left (or `-n` right when `n` is negative).
pub open spec fn move_chars(s: Seq<u8>, p: int, n: int) -> int {
    if n >= 0 { move_left(s, p, n as nat) } else { move_right(s, p, (-n) as nat) }
}

/// The offenses of a brace block with braces `[lb, le)` and `[rb, re)`,
/// column origin `bs` and parameter bars `pipe`.
pub open spec fn block_offenses(s: Seq<u8>, cfg: Config, lb: usize, le: usize, rb: usize, re: usize, bs: usize,
    pipe: Option<(usize, usize)>) -> Seq<SpaceInsideBlockBracesOffense>
{
    if le == rb {
        if cfg.empty_braces_style == Style::Space { push_off(lb as int, re as int, MessageId::EmptySpaceMissing) } else { Seq::empty() }
    } else if exists|q: int| le <= q < rb && !spec_is_ruby_space(#[trigger] s[q]) {
        let left = if !spec_is_ruby_space(s[le as int]) {
            match pipe {
                Some((ps, pe)) => if le == ps && cfg.space_before_block_parameters {
                    push_off(lb as int, pe as int, MessageId::PipeSpaceMissing)
                } else {
                    Seq::empty()
                },
                None => no_space(cfg, le as int, le + 1, MessageId::SpaceMissingLeft),
            }
        } else {
            match pipe {
                Some((ps, _)) => if cfg.space_before_block_parameters {
                    Seq::empty()
                } else {
                    push_off(le as int, ps as int, MessageId::PipeSpaceDetected)
                },
                None => space(cfg, lb + 1, surrounding_right(s, le as int), MessageId::SpaceInsideLeft),
            }
        };
        let single_line = no_newline(s, lb as int, rb as int);
        let right = if single_line && !spec_is_ruby_space(s[rb - 1]) {
            no_space(cfg, rb as int, re as int, MessageId::SpaceMissingRight)
        } else {
            let col = column(s, bs as int);
            let spaces = last_line_spaces(s, le as int, rb as int);
            if !single_line && (col == column(s, rb as int) || col == spaces) {
                Seq::empty()
            } else {
                let bws = nl_run_start(s, blank_run_start(s, rb as int));
                let end0 = re - 1;
                let begin0 = if !no_newline(s, bws, rb as int) { move_chars(s, end0, column(s, rb as int) - col) } else { bws };
                if s[rb - 1] == 93u8 {
                    space(cfg, move_chars(s, end0 - 1, spaces - col), end0 - 1, MessageId::SpaceInsideRight)
                } else {
                    space(cfg, begin0, end0, MessageId::SpaceInsideRight)
                }
            }
        };
        left + right
    } else if cfg.empty_braces_style == Style::NoSpace {
        push_off(le as int, rb as int, MessageId::EmptySpaceDetected)
    } else {
        Seq::empty()
    }
}

/// The braces `[lb, le)`, `[rb, re)` of a block fit in the source in order.
pub open spec fn braces_fit(s: Seq<u8>, lb: usize, le: usize, rb: usize, re: usize) -> bool {
    lb < le <= rb < re <= s.len()
}

/// The bars of block `b`'s parameters, if it has a parameter list.
pub open spec fn pipe_of(t: SyntaxTree, b: int) -> Option<(usize, usize)> {
    match child_at(t, b, kinds::BLOCK_NODE_PARAMETERS as int) {
        Some(p) => if t.nodes@[p as int].kind == kinds::BLOCK_PARAMETERS_NODE {
            range_at(t, p as int, kinds::BLOCK_PARAMETERS_NODE_OPENING_LOC as int)
        } else {
            None
        },
        None => None,
    }
}

/// What node `i` checks: its opening and closing braces, whether the body is
/// empty, the parameter bars and the column origin; `top` is the start of
/// the node entered before it, if any.
pub open spec fn block_parts(t: SyntaxTree, i: int, top: Option<usize>)
    -> Option<((usize, usize), (usize, usize), bool, Option<(usize, usize)>, usize)>
{
    let k = t.nodes@[i].kind;
    if k == kinds::BLOCK_NODE {
        match (range_at(t, i, kinds::BLOCK_NODE_OPENING_LOC as int), range_at(t, i, kinds::BLOCK_NODE_CLOSING_LOC as int)) {
            (Some(o), Some(c)) => Some((o, c, child_at(t, i, kinds::BLOCK_NODE_BODY as int) is None, pipe_of(t, i),
                match top { Some(x) => x, None => o.0 })),
            _ => None,
        }
    } else if k == kinds::LAMBDA_NODE {
        match (range_at(t, i, kinds::LAMBDA_NODE_OPENING_LOC as int), range_at(t, i, kinds::LAMBDA_NODE_CLOSING_LOC as int)) {
            (Some(o), Some(c)) => Some((o, c, child_at(t, i, kinds::LAMBDA_NODE_BODY as int) is None, None,
                t.nodes@[i].start)),
            _ => None,
        }
    } else if k == kinds::FORWARDING_SUPER_NODE {
        match child_at(t, i, kinds::FORWARDING_SUPER_NODE_BLOCK as int) {
            Some(b) => match (range_at(t, b as int, kinds::BLOCK_NODE_OPENING_LOC as int),
                range_at(t, b as int, kinds::BLOCK_NODE_CLOSING_LOC as int)) {
                (Some(o), Some(c)) => Some((o, c, child_at(t, b as int, kinds::BLOCK_NODE_BODY as int) is None,
                    pipe_of(t, b as int), t.nodes@[i].start)),
                _ => None,
            },
            None => None,
        }
    } else {
        None
    }
}

/// The offenses of entering node `i` below the open nodes whose starts are
/// `starts`.
pub open spec fn visit(s: Seq<u8>, t: SyntaxTree, cfg: Config, starts: Seq<usize>, i: int)
    -> Seq<SpaceInsideBlockBracesOffense>
{
    let top = if starts.len() > 0 { Some(starts.last()) } else { None };
    match block_parts(t, i, top) {
        Some(((lb, le), (rb, re), body_none, pipe, bs)) => {
            if !braces_fit(s, lb, le, rb, re) || s[lb as int] != 123u8 {
                Seq::empty()
            } else if body_none && !no_newline(s, lb as int, rb as int) {
                Seq::empty()
            } else {
                block_offenses(s, cfg, lb, le, rb, re, bs, pipe)
            }
        },
        None => Seq::empty(),
    }
}

/// The open starts and offenses after the first `k` events.
pub open spec fn run(s: Seq<u8>, t: SyntaxTree, cfg: Config, evs: Seq<Event>, k: int)
    -> (Seq<usize>, Seq<SpaceInsideBlockBracesOffense>)
    decreases k,
{
    if k <= 0 {
        (Seq::empty(), Seq::empty())
    } else {
        let (st, out) = run(s, t, cfg, evs, k - 1);
        match evs[k - 1] {
            Event::Enter(i) => (st.push(t.nodes@[i as int].start), out + visit(s, t, cfg, st, i as int)),
            Event::EnterRescue(i) => (st.push(t.nodes@[i as int].start), out),
            Event::Leave(_) => (if st.len() > 0 { st.drop_last() } else { st }, out),
            Event::LeaveRescue(_) => (if st.len() > 0 { st.drop_last() } else { st }, out),
            _ => (st, out),
        }
    }
}

/// The offenses of `source`.
pub fn check_space_inside_block_braces(source: &[u8], config: Config) -> (r: Vec<SpaceInsideBlockBracesOffense>)
    requires
        source@.len() <= isize::MAX,
    ensures
        exists|t: SyntaxTree| #[trigger] tree_of(t, source@) && (if tree_wf(t) {
            &&& r@ == run(source@, t, config, walk_events(t), walk_events(t).len() as int).1
        } else {
            r@.len() == 0
        }),
{
    let t = parse_tree(source);
    if !check_tree(&t) {
        assert(tree_of(t, source@));
        return Vec::new();
    }
    let evs = walk(&t);
    let r = block_braces_offenses(source, &t, &evs, config);
    assert(tree_of(t, source@));
    r
}

/// The offenses of the parsed `source` over the walk `evs`.
pub fn block_braces_offenses(source: &[u8], t: &SyntaxTree, evs: &Vec<Event>, cfg: Config)
    -> (r: Vec<SpaceInsideBlockBracesOffense>)
    requires
        tree_wf(*t),
        t.source_len == source@.len(),
        source@.len() <= isize::MAX,
        events_in(evs@, t.nodes@.len() as nat),
    ensures
        r@ == run(source@, *t, cfg, evs@, evs@.len() as int).1,
{
    let mut starts: Vec<usize> = Vec::new();
    let mut out: Vec<SpaceInsideBlockBracesOffense> = Vec::new();
    let mut k: usize = 0;
    while k < evs.len()
        invariant
            tree_wf(*t),
            t.source_len == source@.len(),
            source@.len() <= isize::MAX,
            events_in(evs@, t.nodes@.len() as nat),
            k <= evs@.len(),
            (starts@, out@) == run(source@, *t, cfg, evs@, k as int),
            forall|q: int| 0 <= q < starts@.len() ==> #[trigger] starts@[q] <= source@.len(),
        decreases evs.len() - k,
    {
        assert(event_node(evs@[k as int]) < t.nodes@.len());
        match evs[k] {
            Event::Enter(i) => {
                visit_node(source, t, cfg, &starts, i, &mut out);
                assert(node_wf(*t, i as int, t.source_len as nat));
                starts.push(t.nodes[i].start);
            },
            Event::EnterRescue(i) => {
                assert(node_wf(*t, i as int, t.source_len as nat));
                starts.push(t.nodes[i].start);
            },
            Event::Leave(_) => {
                if starts.len() > 0 {
                    starts.pop();
                }
            },
            Event::LeaveRescue(_) => {
                if starts.len() > 0 {
                    starts.pop();
                }
            },
            _ => {},
        }
        k += 1;
    }
    out
}

/// [`pipe_of`].
fn pipe_of_block(t: &SyntaxTree, b: usize) -> (r: Option<(usize, usize)>)
    requires
        tree_wf(*t),
        b < t.nodes@.len(),
    ensures
        r == pipe_of(*t, b as int),
        r matches Some((ps, pe)) ==> ps <= pe <= t.source_len,
{
    match child(t, b, kinds::BLOCK_NODE_PARAMETERS) {
        Some(p) => if t.nodes[p].kind == kinds::BLOCK_PARAMETERS_NODE {
            range(t, p, kinds::BLOCK_PARAMETERS_NODE_OPENING_LOC)
        } else {
            None
        },
        None => None,
    }
}

/// [`block_parts`].
fn block_parts_of(t: &SyntaxTree, i: usize, top: Option<usize>)
    -> (r: Option<((usize, usize), (usize, usize), bool, Option<(usize, usize)>, usize)>)
    requires
        tree_wf(*t),
        i < t.nodes@.len(),
        top matches Some(x) ==> x <= t.source_len,
    ensures
        r == block_parts(*t, i as int, top),
        r matches Some((_, _, _, pipe, bs)) ==> bs <= t.source_len
            && (pipe matches Some((ps, pe)) ==> ps <= pe <= t.source_len),
{
    assert(node_wf(*t, i as int, t.source_len as nat));
    let k = t.nodes[i].kind;
    if k == kinds::BLOCK_NODE {
        match (range(t, i, kinds::BLOCK_NODE_OPENING_LOC), range(t, i, kinds::BLOCK_NODE_CLOSING_LOC)) {
            (Some(o), Some(c)) => Some((o, c, child(t, i, kinds::BLOCK_NODE_BODY).is_none(), pipe_of_block(t, i),
                match top { Some(x) => x, None => o.0 })),
            _ => None,
        }
    } else if k == kinds::LAMBDA_NODE {
        match (range(t, i, kinds::LAMBDA_NODE_OPENING_LOC), range(t, i, kinds::LAMBDA_NODE_CLOSING_LOC)) {
            (Some(o), Some(c)) => Some((o, c, child(t, i, kinds::LAMBDA_NODE_BODY).is_none(), None, t.nodes[i].start)),
            _ => None,
        }
    } else if k == kinds::FORWARDING_SUPER_NODE {
        match child(t, i, kinds::FORWARDING_SUPER_NODE_BLOCK) {
            Some(b) => match (range(t, b, kinds::BLOCK_NODE_OPENING_LOC), range(t, b, kinds::BLOCK_NODE_CLOSING_LOC)) {
                (Some(o), Some(c)) => Some((o, c, child(t, b, kinds::BLOCK_NODE_BODY).is_none(), pipe_of_block(t, b),
                    t.nodes[i].start)),
                _ => None,
            },
            None => None,
        }
    } else {
        None
    }
}

/// The offenses of entering node `i`, appended to `out` ([`visit`]).
fn visit_node(s: &[u8], t: &SyntaxTree, cfg: Config, starts: &Vec<usize>, i: usize,
    out: &mut Vec<SpaceInsideBlockBracesOffense>)
    requires
        tree_wf(*t),
        t.source_len == s@.len(),
        s@.len() <= isize::MAX,
        i < t.nodes@.len(),
        forall|q: int| 0 <= q < starts@.len() ==> #[trigger] starts@[q] <= s@.len(),
    ensures
        final(out)@ == old(out)@ + visit(s@, *t, cfg, starts@, i as int),
{
    let top = if starts.len() > 0 { Some(starts[starts.len() - 1]) } else { None };
    proof {
        if starts@.len() > 0 {
            assert(starts@[starts@.len() - 1] <= s@.len());
        }
    }
    match block_parts_of(t, i, top) {
        Some(((lb, le), (rb, re), body_none, pipe, bs)) => {
            if !(lb < le && le <= rb && rb < re && re <= s.len()) || s[lb] != 123u8 {
                assert(visit(s@, *t, cfg, starts@, i as int) =~= Seq::empty());
                assert(out@ =~= old(out)@ + visit(s@, *t, cfg, starts@, i as int));
                return;
            }
            if body_none && !same_line(s, lb, rb) {
                assert(out@ =~= old(out)@ + visit(s@, *t, cfg, starts@, i as int));
                return;
            }
            let found = block_check(s, cfg, lb, le, rb, re, bs, pipe);
            let ghost before = out@;
            append(out, &found);
        },
        None => {
            assert(out@ =~= old(out)@ + visit(s@, *t, cfg, starts@, i as int));
        },
    }
}

/// `out` followed by `more`.
fn append(out: &mut Vec<SpaceInsideBlockBracesOffense>, more: &Vec<SpaceInsideBlockBracesOffense>)
    ensures
        final(out)@ == old(out)@ + more@,
{
    let mut j: usize = 0;
    while j < more.len()
        invariant
            j <= more@.len(),
            out@ == old(out)@ + more@.subrange(0, j as int),
        decreases more.len() - j,
    {
        out.push(more[j]);
        assert(more@.subrange(0, j + 1) =~= more@.subrange(0, j as int).push(more@[j as int]));
        j += 1;
    }
    assert(more@.subrange(0, more@.len() as int) =~= more@);
}

/// [`push_off`] into a vector.
fn push_off_of(out: &mut Vec<SpaceInsideBlockBracesOffense>, start: usize, end: usize, message: MessageId)
    ensures
        final(out)@ == old(out)@ + push_off(start as int, end as int, message),
{
    if start <= end {
        out.push(SpaceInsideBlockBracesOffense { start_offset: start, end_offset: end, message });
    }
    assert(final(out)@ =~= old(out)@ + push_off(start as int, end as int, message));
}

/// `p` moved `n` characters left, or `m` right (one of them is zero).
fn move_by(s: &[u8], p: usize, left: usize, right: usize) -> (r: usize)
    requires
        p <= s@.len() <= isize::MAX,
        left == 0 || right == 0,
        right <= s@.len(),
    ensures
        r == move_chars(s@, p as int, left - right),
{
    if right == 0 {
        move_left_of(s, p, left)
    } else {
        move_right_of(s, p, right)
    }
}

/// [`last_line_spaces`].
fn last_line_spaces_of(s: &[u8], a: usize, b: usize) -> (r: usize)
    requires
        a <= b <= s@.len(),
    ensures
        r == last_line_spaces(s@, a as int, b as int),
        r <= b - a,
{
    let mut q = b;
    let mut n: usize = 0;
    while q > a && s[q - 1] != 10u8
        invariant
            a <= q <= b <= s@.len(),
            n <= b - q,
            last_line_spaces(s@, a as int, b as int) == n + last_line_spaces(s@, a as int, q as int),
        decreases q,
    {
        if s[q - 1] == 32u8 {
            n += 1;
        }
        q -= 1;
    }
    n
}

/// The offenses of one brace block ([`block_offenses`]).
#[verifier::rlimit(60)]
fn block_check(s: &[u8], cfg: Config, lb: usize, le: usize, rb: usize, re: usize, bs: usize,
    pipe: Option<(usize, usize)>) -> (r: Vec<SpaceInsideBlockBracesOffense>)
    requires
        lb < le <= rb < re <= s@.len() <= isize::MAX,
        bs <= s@.len(),
        pipe matches Some((ps, pe)) ==> ps <= pe <= s@.len(),
    ensures
        r@ == block_offenses(s@, cfg, lb, le, rb, re, bs, pipe),
{
    let mut out: Vec<SpaceInsideBlockBracesOffense> = Vec::new();
    if le == rb {
        if cfg.empty_braces_style == Style::Space {
            push_off_of(&mut out, lb, re, MessageId::EmptySpaceMissing);
        }
        assert(out@ =~= block_offenses(s@, cfg, lb, le, rb, re, bs, pipe));
        return out;
    }
    let mut any = false;
    let mut q = le;
    while q < rb
        invariant
            le <= q <= rb <= s@.len(),
            any == exists|x: int| le <= x < q && !spec_is_ruby_space(#[trigger] s@[x]),
        decreases rb - q,
    {
        if !is_ruby_space(s[q]) {
            assert(le <= q < q + 1 && !spec_is_ruby_space(s@[q as int]));
            any = true;
        }
        q += 1;
    }
    if !any {
        if cfg.empty_braces_style == Style::NoSpace {
            push_off_of(&mut out, le, rb, MessageId::EmptySpaceDetected);
        }
        assert(out@ =~= block_offenses(s@, cfg, lb, le, rb, re, bs, pipe));
        return out;
    }
    // The left brace.
    if !is_ruby_space(s[le]) {
        match pipe {
            Some((ps, pe)) => {
                if le == ps && cfg.space_before_block_parameters {
                    push_off_of(&mut out, lb, pe, MessageId::PipeSpaceMissing);
                }
            },
            None => {
                if cfg.style == Style::Space {
                    push_off_of(&mut out, le, le + 1, MessageId::SpaceMissingLeft);
                }
            },
        }
    } else {
        match pipe {
            Some((ps, _)) => {
                if !cfg.space_before_block_parameters {
                    push_off_of(&mut out, le, ps, MessageId::PipeSpaceDetected);
                }
            },
            None => {
                if cfg.style == Style::NoSpace {
                    let e = surrounding_right_of(s, le);
                    push_off_of(&mut out, lb + 1, e, MessageId::SpaceInsideLeft);
                }
            },
        }
    }
    let ghost left = out@;
    // The right brace.
    let single_line = same_line(s, lb, rb);
    if single_line && !is_ruby_space(s[rb - 1]) {
        if cfg.style == Style::Space {
            push_off_of(&mut out, rb, re, MessageId::SpaceMissingRight);
        }
    } else {
        let col = column_of(s, bs);
        let col_rb = column_of(s, rb);
        let spaces = last_line_spaces_of(s, le, rb);
        if !single_line && (col == col_rb || col == spaces) {
        } else if cfg.style == Style::NoSpace {
            let bws = surrounding_space_left(s, rb);
            let end0 = re - 1;
            if s[rb - 1] == 93u8 {
                let e1 = end0 - 1;
                let b1 = if spaces >= col { move_by(s, e1, spaces - col, 0) } else { move_by(s, e1, 0, col - spaces) };
                push_off_of(&mut out, b1, e1, MessageId::SpaceInsideRight);
            } else {
                let b0 = if !same_line(s, bws, rb) {
                    if col_rb >= col { move_by(s, end0, col_rb - col, 0) } else { move_by(s, end0, 0, col - col_rb) }
                } else {
                    bws
                };
                push_off_of(&mut out, b0, end0, MessageId::SpaceInsideRight);
            }
        }
    }
    assert(out@ =~= block_offenses(s@, cfg, lb, le, rb, re, bs, pipe));
    out
}

/// [`surrounding_right`].
pub(crate) fn surrounding_right_of(s: &[u8], p: usize) -> (r: usize)
    requires
        p <= s@.len(),
    ensures
        r == surrounding_right(s@, p as int),
        p <= r <= s@.len(),
{
    let mut q = skip_space_right(s, p);
    let ghost q0 = q as int;
    while q < s.len() && s[q] == 10u8
        invariant
            p <= q <= s@.len(),
            nl_run_end(s@, q as int) == nl_run_end(s@, q0),
        decreases s@.len() - q,
    {
        q += 1;
    }
    q
}

} // verus!
