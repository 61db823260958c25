//! `Layout/SpaceInsideParens`: the space just inside parentheses.
//!
//! Every `(` or `)` byte outside the opaque regions of the source is a
//! parenthesis token. The token after a `(` starts at the next byte that is
//! not whitespace nor a `\`-newline continuation; the token before a `)`
//! ends at the previous non-space byte of its line. A `(` that opens the
//! first argument of a call without parentheses after a gap (`f (3)`,
//! `yield (1)`, `super (1)`, `defined? (x)`, `not (x)`) is not a left
//! parenthesis for this rule.
//!
//! - `no_space`: a same-line gap after a `(` (not before a comment) or
//!   before a `)` is an offense; so is the gap of `( )` on one line.
//! - `space`: `( )` with anything but nothing between is an offense, across
//!   lines too; a `(` or `)` touching the next or previous token misses a
//!   space.
//! - `compact`: as `space`, except that `( (` and `) )` miss no space and are
//!   an offense when exactly one space separates them.
//!
//! The opaque regions are the comments, the `__END__` section and the
//! regions a caller passes to [`space_inside_parens_offenses`].

use vstd::prelude::*;
use crate::syntax::{SyntaxTree, tree_wf};
use crate::syntax::kinds;
use crate::syntax::access::{child, range, args_of_node, child_at, range_at, args_of};
use crate::syntax::flatten::{parse_tree, check_tree, tree_of};
use crate::syntax::walk::{walk_events, walk, Event, events_in};
use crate::rules::space_scan::{next_token, next_token_start, prev_token_end, prev_token_end_same_line};

verus! {

/// `EnforcedStyle` value.
#[derive(Clone, Copy, PartialEq, Eq, Structural)]
pub enum Style {
    NoSpace,
    Space,
    Compact,
}

/// Config for `Layout/SpaceInsideParens`.
#[derive(Clone, Copy)]
pub struct Config {
    pub style: Style,
}

/// One offense: `[start, end)` and its message.
pub struct SpaceInsideParensOffense {
    pub start_offset: usize,
    pub end_offset: usize,
    pub message: MessageId,
}

/// The fixed messages.
#[derive(Clone, Copy, PartialEq, Eq, Structural, Debug)]
pub enum MessageId {
    /// `Space inside parentheses detected.`: the range is removed.
    Detected,
    /// `No space inside parentheses detected.`: a space is inserted before the range.
    Missing,
}

impl MessageId {
    /// The numeric tag of the message: its position in the list above.
    pub fn code(self) -> (c: u8)
        ensures
            self == MessageId::Detected <==> c == 0,
            self == MessageId::Missing <==> c == 1,
    {
        match self {
            MessageId::Detected => 0,
            MessageId::Missing => 1,
        }
    }
}

/// An offense as the specification sees it.
pub type ParenOffense = (usize, usize, MessageId);

/// Position `p` lies in one of the regions `masks`.
pub open spec fn masked(masks: Seq<(usize, usize)>, p: int) -> bool {
    exists|k: int| 0 <= k < masks.len() && (#[trigger] masks[k]).0 <= p < masks[k].1
}

/// A line break lies in `[a, b)`.
pub open spec fn crosses(s: Seq<u8>, a: int, b: int) -> bool {
    exists|k: int| a <= k < b && #[trigger] s[k] == 10u8
}

/// The offense of the `(` at `p`.
pub open spec fn left_offense(s: Seq<u8>, style: Style, args: Seq<usize>, p: int) -> Option<ParenOffense> {
    let q = next_token(s, p + 1);
    let crossed = crosses(s, p + 1, q);
    if args.contains(p as usize) || q >= s.len() {
        None
    } else if s[q] == 41u8 {
        if q > p + 1 && (style != Style::NoSpace || !crossed) {
            Some(((p + 1) as usize, q as usize, MessageId::Detected))
        } else {
            None
        }
    } else if crossed || s[q] == 35u8 {
        None
    } else {
        match style {
            Style::NoSpace => if q > p + 1 { Some(((p + 1) as usize, q as usize, MessageId::Detected)) } else { None },
            Style::Space => if q == p + 1 { Some((q as usize, (q + 1) as usize, MessageId::Missing)) } else { None },
            Style::Compact => if s[q] == 40u8 && !args.contains(q as usize) {
                if q == p + 2 && s[p + 1] == 32u8 { Some(((p + 1) as usize, q as usize, MessageId::Detected)) } else { None }
            } else if q == p + 1 {
                Some((q as usize, (q + 1) as usize, MessageId::Missing))
            } else {
                None
            },
        }
    }
}

/// The byte before the token end `m` is an unmasked `ch`.
pub open spec fn prev_is(s: Seq<u8>, masks: Seq<(usize, usize)>, m: int, ch: u8) -> bool {
    m >= 1 && s[m - 1] == ch && !masked(masks, m - 1)
}

/// The offense of the `)` at `p`.
pub open spec fn right_offense(s: Seq<u8>, style: Style, masks: Seq<(usize, usize)>, args: Seq<usize>, p: int) -> Option<
    ParenOffense,
> {
    match prev_token_end(s, p) {
        None => None,
        Some(m) => if m == 0 {
            None
        } else if prev_is(s, masks, m, 40u8) {
            if args.contains((m - 1) as usize) && style == Style::NoSpace && p > m {
                Some((m as usize, p as usize, MessageId::Detected))
            } else {
                None
            }
        } else {
            match style {
                Style::NoSpace => if p > m { Some((m as usize, p as usize, MessageId::Detected)) } else { None },
                Style::Space => if p == m { Some((p as usize, (p + 1) as usize, MessageId::Missing)) } else { None },
                Style::Compact => if prev_is(s, masks, m, 41u8) {
                    if p == m + 1 && s[m] == 32u8 { Some((m as usize, p as usize, MessageId::Detected)) } else { None }
                } else if p == m {
                    Some((p as usize, (p + 1) as usize, MessageId::Missing))
                } else {
                    None
                },
            }
        },
    }
}

/// The offense of the byte at `p`, when it is an unmasked parenthesis.
pub open spec fn paren_offense(s: Seq<u8>, style: Style, masks: Seq<(usize, usize)>, args: Seq<usize>, p: int) -> Option<
    ParenOffense,
> {
    if masked(masks, p) {
        None
    } else if s[p] == 40u8 {
        left_offense(s, style, args, p)
    } else if s[p] == 41u8 {
        right_offense(s, style, masks, args, p)
    } else {
        None
    }
}

/// The offenses of the bytes before `k`, in source order.
pub open spec fn parens_upto(s: Seq<u8>, style: Style, masks: Seq<(usize, usize)>, args: Seq<usize>, k: int) -> Seq<
    ParenOffense,
>
    decreases k,
{
    if k <= 0 {
        Seq::empty()
    } else {
        parens_upto(s, style, masks, args, k - 1) + match paren_offense(s, style, masks, args, k - 1) {
            Some(o) => seq![o],
            None => Seq::empty(),
        }
    }
}

/// A name that starts an identifier: a letter, `_` or a non-ASCII byte.
pub open spec fn name_start(b: u8) -> bool {
    (65u8 <= b <= 90u8) || (97u8 <= b <= 122u8) || b == 95u8 || b >= 128u8
}

/// `not`.
pub open spec fn not_word() -> Seq<u8> {
    seq![110u8, 111u8, 116u8]
}

/// `start` when the expression starting there is a `(` after a gap from
/// `prev_end`.
pub open spec fn arg_paren(s: Seq<u8>, prev_end: int, start: int) -> Seq<usize> {
    if start > prev_end && 0 <= start < s.len() && s[start] == 40u8 { seq![start as usize] } else { Seq::empty() }
}

/// The first argument of the arguments node in field `f` of node `i`.
pub open spec fn first_of(t: SyntaxTree, i: int, f: int) -> Option<usize> {
    let a = args_of(t, i, f);
    if a.len() > 0 { Some(a[0]) } else { None }
}

/// The parenthesis that opens the first argument of node `i` without
/// parentheses, if any: a call by a plain name (not an attribute write), or
/// `not`, `yield`, `super`, `defined?`.
pub open spec fn node_arg_paren(s: Seq<u8>, t: SyntaxTree, i: int) -> Seq<usize> {
    let k = t.nodes@[i].kind;
    if k == kinds::CALL_NODE {
        match (range_at(t, i, kinds::CALL_NODE_OPENING_LOC as int), range_at(t, i, kinds::CALL_NODE_MESSAGE_LOC as int)) {
            (None, Some((m0, m1))) => {
                let selector_ok = m0 < m1 && m0 < s.len() && name_start(s[m0 as int]);
                let first = first_of(t, i, kinds::CALL_NODE_ARGUMENTS as int);
                if selector_ok && t.nodes@[i].flags & 16u16 == 0 && first is Some {
                    arg_paren(s, m1 as int, t.nodes@[first->0 as int].start as int)
                } else if child_at(t, i, kinds::CALL_NODE_ARGUMENTS as int) is None && m0 <= m1 <= s.len()
                    && s.subrange(m0 as int, m1 as int) == not_word() && child_at(t, i,
                    kinds::CALL_NODE_RECEIVER as int) is Some {
                    arg_paren(s, m1 as int, t.nodes@[child_at(t, i, kinds::CALL_NODE_RECEIVER as int)->0 as int].start as int)
                } else {
                    Seq::empty()
                }
            },
            _ => Seq::empty(),
        }
    } else if k == kinds::YIELD_NODE || k == kinds::SUPER_NODE {
        let (lp, kw, af) = if k == kinds::YIELD_NODE {
            (kinds::YIELD_NODE_LPAREN_LOC, kinds::YIELD_NODE_KEYWORD_LOC, kinds::YIELD_NODE_ARGUMENTS)
        } else {
            (kinds::SUPER_NODE_LPAREN_LOC, kinds::SUPER_NODE_KEYWORD_LOC, kinds::SUPER_NODE_ARGUMENTS)
        };
        match (range_at(t, i, lp as int), range_at(t, i, kw as int), first_of(t, i, af as int)) {
            (None, Some((_, k1)), Some(f)) => arg_paren(s, k1 as int, t.nodes@[f as int].start as int),
            _ => Seq::empty(),
        }
    } else if k == kinds::DEFINED_NODE {
        match (range_at(t, i, kinds::DEFINED_NODE_LPAREN_LOC as int), range_at(t, i,
            kinds::DEFINED_NODE_KEYWORD_LOC as int), child_at(t, i, kinds::DEFINED_NODE_VALUE as int)) {
            (None, Some((_, k1)), Some(v)) => arg_paren(s, k1 as int, t.nodes@[v as int].start as int),
            _ => Seq::empty(),
        }
    } else {
        Seq::empty()
    }
}

/// The argument parentheses of the nodes entered in the first `k` events.
pub open spec fn arg_parens_upto(s: Seq<u8>, t: SyntaxTree, evs: Seq<Event>, k: int) -> Seq<usize>
    decreases k,
{
    if k <= 0 {
        Seq::empty()
    } else {
        arg_parens_upto(s, t, evs, k - 1) + match evs[k - 1] {
            Event::Enter(i) => if i < t.nodes@.len() { node_arg_paren(s, t, i as int) } else { Seq::empty() },
            _ => Seq::empty(),
        }
    }
}

/// The opaque regions of `t` besides `extra`: its comments and the section
/// after `__END__`.
pub open spec fn tree_masks(t: SyntaxTree, extra: Seq<(usize, usize)>) -> Seq<(usize, usize)> {
    extra + t.comments@ + match t.data_start {
        Some(d) => seq![(d, t.source_len)],
        None => Seq::empty(),
    }
}

/// Where the scan for parentheses stops: at `__END__`, or at the end.
pub open spec fn scan_end(t: SyntaxTree, len: nat) -> int {
    match t.data_start {
        Some(d) => if d < len { d as int } else { len as int },
        None => len as int,
    }
}

/// `o` is the offense `r`.
pub open spec fn offense_is(o: SpaceInsideParensOffense, r: ParenOffense) -> bool {
    o.start_offset == r.0 && o.end_offset == r.1 && o.message == r.2
}

/// The offenses of `source`; none where it does not parse into a
/// well-formed tree.
pub fn check_space_inside_parens(source: &[u8], config: Config) -> (r: Vec<SpaceInsideParensOffense>)
    ensures
        exists|t: SyntaxTree| #[trigger] tree_of(t, source@) && (if tree_wf(t) {
            &&& r@.len() == parens_upto(source@, config.style, tree_masks(t, Seq::<(usize, usize)>::empty()), arg_parens_upto(source@, t, walk_events(t),
                walk_events(t).len() as int), scan_end(t, source@.len())).len()
            &&& forall|k: int| 0 <= k < r@.len() ==> offense_is(#[trigger] r@[k], parens_upto(source@, config.style,
                tree_masks(t, Seq::<(usize, usize)>::empty()), arg_parens_upto(source@, t, walk_events(t), walk_events(t).len() as int), scan_end(t,
                source@.len()))[k])
        } else {
            r@.len() == 0
        }),
{
    let t = parse_tree(source);
    if !check_tree(&t) {
        assert(tree_of(t, source@));
        return Vec::new();
    }
    let evs = walk(&t);
    let extra: Vec<(usize, usize)> = Vec::new();
    let r = space_inside_parens_offenses(source, &t, &evs, config, &extra);
    assert(tree_of(t, source@));
    r
}

/// The offenses of `t`, with `extra` opaque regions besides the comments
/// and the `__END__` section, in source order.
pub fn space_inside_parens_offenses(source: &[u8], t: &SyntaxTree, evs: &Vec<Event>, config: Config,
    extra: &Vec<(usize, usize)>) -> (r: Vec<SpaceInsideParensOffense>)
    requires
        tree_wf(*t),
        t.source_len == source@.len(),
        events_in(evs@, t.nodes@.len() as nat),
    ensures
        r@.len() == parens_upto(source@, config.style, tree_masks(*t, extra@), arg_parens_upto(source@, *t, evs@,
            evs@.len() as int), scan_end(*t, source@.len())).len(),
        forall|k: int| 0 <= k < r@.len() ==> offense_is(#[trigger] r@[k], parens_upto(source@, config.style,
            tree_masks(*t, extra@), arg_parens_upto(source@, *t, evs@, evs@.len() as int), scan_end(*t,
            source@.len()))[k]),
{
    let args = arg_parens_of(source, t, evs);
    let masks = tree_masks_of(t, extra);
    let end = match t.data_start {
        Some(d) => if d < source.len() { d } else { source.len() },
        None => source.len(),
    };
    paren_scan(source, config.style, &masks, &args, end)
}

/// The argument parentheses of the entered nodes ([`arg_parens_upto`]).
fn arg_parens_of(s: &[u8], t: &SyntaxTree, evs: &Vec<Event>) -> (r: Vec<usize>)
    requires
        tree_wf(*t),
        t.source_len == s@.len(),
        events_in(evs@, t.nodes@.len() as nat),
    ensures
        r@ == arg_parens_upto(s@, *t, evs@, evs@.len() as int),
{
    let mut out: Vec<usize> = Vec::new();
    let mut k: usize = 0;
    while k < evs.len()
        invariant
            tree_wf(*t),
            t.source_len == s@.len(),
            k <= evs@.len(),
            out@ == arg_parens_upto(s@, *t, evs@, k as int),
        decreases evs.len() - k,
    {
        match evs[k] {
            Event::Enter(i) => {
                if i < t.nodes.len() {
                    let ghost before = out@;
                    node_arg_paren_into(s, t, i, &mut out);
                    assert(out@ =~= arg_parens_upto(s@, *t, evs@, k + 1));
                }
            },
            _ => {},
        }
        k += 1;
    }
    out
}

/// Appends `start` when the expression starting there is a `(` after a gap
/// from `prev_end` ([`arg_paren`]).
fn push_arg_paren(s: &[u8], prev_end: usize, start: usize, out: &mut Vec<usize>)
    ensures
        final(out)@ == old(out)@ + arg_paren(s@, prev_end as int, start as int),
{
    if start > prev_end && start < s.len() && s[start] == 40u8 {
        out.push(start);
    } else {
        assert(old(out)@ + arg_paren(s@, prev_end as int, start as int) =~= old(out)@);
    }
}

/// [`first_of`].
fn first_of_node(t: &SyntaxTree, i: usize, f: usize) -> (r: Option<usize>)
    requires
        tree_wf(*t),
        i < t.nodes@.len(),
    ensures
        r == first_of(*t, i as int, f as int),
        r matches Some(x) ==> x < t.nodes@.len(),
{
    match args_of_node(t, i, f) {
        Some(a) => if a.len() > 0 { Some(a[0]) } else { None },
        None => None,
    }
}

/// Appends the argument parenthesis of node `i` ([`node_arg_paren`]).
fn node_arg_paren_into(s: &[u8], t: &SyntaxTree, i: usize, out: &mut Vec<usize>)
    requires
        tree_wf(*t),
        t.source_len == s@.len(),
        i < t.nodes@.len(),
    ensures
        final(out)@ == old(out)@ + node_arg_paren(s@, *t, i as int),
{
    let k = t.nodes[i].kind;
    if k == kinds::CALL_NODE {
        match (range(t, i, kinds::CALL_NODE_OPENING_LOC), range(t, i, kinds::CALL_NODE_MESSAGE_LOC)) {
            (None, Some((m0, m1))) => {
                let selector_ok = m0 < m1 && m0 < s.len() && ((65u8 <= s[m0] && s[m0] <= 90u8) || (97u8 <= s[m0]
                    && s[m0] <= 122u8) || s[m0] == 95u8 || s[m0] >= 128u8);
                let first = first_of_node(t, i, kinds::CALL_NODE_ARGUMENTS);
                if selector_ok && t.nodes[i].flags & 16u16 == 0 && first.is_some() {
                    let f = first.unwrap();
                    push_arg_paren(s, m1, t.nodes[f].start, out);
                    return;
                }
                let is_not = m1 >= m0 && m1 - m0 == 3 && s[m0] == 110u8 && s[m0 + 1] == 111u8 && s[m0 + 2] == 116u8;
                assert(is_not == (s@.subrange(m0 as int, m1 as int) == not_word())) by {
                    if m0 <= m1 && s@.subrange(m0 as int, m1 as int) == not_word() {
                        assert(not_word().len() == 3);
                        assert(s@.subrange(m0 as int, m1 as int).len() == 3);
                        assert(s@.subrange(m0 as int, m1 as int)[0] == s@[m0 as int]);
                        assert(s@.subrange(m0 as int, m1 as int)[1] == s@[m0 + 1]);
                        assert(s@.subrange(m0 as int, m1 as int)[2] == s@[m0 + 2]);
                    }
                    if is_not {
                        assert(s@.subrange(m0 as int, m1 as int) =~= not_word());
                    }
                }
                if child(t, i, kinds::CALL_NODE_ARGUMENTS).is_none() && is_not {
                    match child(t, i, kinds::CALL_NODE_RECEIVER) {
                        Some(r) => {
                            push_arg_paren(s, m1, t.nodes[r].start, out);
                            return;
                        },
                        None => {},
                    }
                }
            },
            _ => {},
        }
        assert(old(out)@ + node_arg_paren(s@, *t, i as int) =~= old(out)@);
    } else if k == kinds::YIELD_NODE || k == kinds::SUPER_NODE {
        let (lp, kw, af) = if k == kinds::YIELD_NODE {
            (kinds::YIELD_NODE_LPAREN_LOC, kinds::YIELD_NODE_KEYWORD_LOC, kinds::YIELD_NODE_ARGUMENTS)
        } else {
            (kinds::SUPER_NODE_LPAREN_LOC, kinds::SUPER_NODE_KEYWORD_LOC, kinds::SUPER_NODE_ARGUMENTS)
        };
        match (range(t, i, lp), range(t, i, kw), first_of_node(t, i, af)) {
            (None, Some((_, k1)), Some(f)) => push_arg_paren(s, k1, t.nodes[f].start, out),
            _ => {
                assert(old(out)@ + node_arg_paren(s@, *t, i as int) =~= old(out)@);
            },
        }
    } else if k == kinds::DEFINED_NODE {
        match (range(t, i, kinds::DEFINED_NODE_LPAREN_LOC), range(t, i, kinds::DEFINED_NODE_KEYWORD_LOC), child(t, i,
            kinds::DEFINED_NODE_VALUE)) {
            (None, Some((_, k1)), Some(v)) => push_arg_paren(s, k1, t.nodes[v].start, out),
            _ => {
                assert(old(out)@ + node_arg_paren(s@, *t, i as int) =~= old(out)@);
            },
        }
    } else {
        assert(old(out)@ + node_arg_paren(s@, *t, i as int) =~= old(out)@);
    }
}

/// The opaque regions of `t` besides `extra` ([`tree_masks`]).
pub(crate) fn tree_masks_of(t: &SyntaxTree, extra: &Vec<(usize, usize)>) -> (r: Vec<(usize, usize)>)
    ensures
        r@ == tree_masks(*t, extra@),
{
    let mut masks: Vec<(usize, usize)> = Vec::new();
    let mut k: usize = 0;
    while k < extra.len()
        invariant
            k <= extra@.len(),
            masks@ == extra@.subrange(0, k as int),
        decreases extra.len() - k,
    {
        masks.push(extra[k]);
        k += 1;
    }
    let mut k: usize = 0;
    while k < t.comments.len()
        invariant
            k <= t.comments@.len(),
            masks@ == extra@ + t.comments@.subrange(0, k as int),
        decreases t.comments.len() - k,
    {
        masks.push(t.comments[k]);
        k += 1;
    }
    assert(t.comments@.subrange(0, t.comments@.len() as int) =~= t.comments@);
    match t.data_start {
        Some(d) => masks.push((d, t.source_len)),
        None => {},
    }
    assert(masks@ =~= tree_masks(*t, extra@));
    masks
}

/// Whether `p` lies in one of `masks` ([`masked`]).
pub(crate) fn masked_at(masks: &Vec<(usize, usize)>, p: usize) -> (r: bool)
    ensures
        r == masked(masks@, p as int),
{
    let mut k: usize = 0;
    while k < masks.len()
        invariant
            k <= masks@.len(),
            forall|q: int| 0 <= q < k ==> !((#[trigger] masks@[q]).0 <= p < masks@[q].1),
        decreases masks.len() - k,
    {
        if masks[k].0 <= p && p < masks[k].1 {
            return true;
        }
        k += 1;
    }
    false
}

/// Whether `x` is one of `v`.
fn contains_pos(v: &Vec<usize>, x: usize) -> (r: bool)
    ensures
        r == v@.contains(x),
{
    let mut k: usize = 0;
    while k < v.len()
        invariant
            k <= v@.len(),
            forall|q: int| 0 <= q < k ==> v@[q] != x,
        decreases v.len() - k,
    {
        if v[k] == x {
            assert(v@[k as int] == x);
            return true;
        }
        k += 1;
    }
    false
}

/// The offense of the `(` at `p` ([`left_offense`]).
fn left_offense_of(s: &[u8], style: Style, args: &Vec<usize>, p: usize) -> (r: Option<ParenOffense>)
    requires
        p < s@.len(),
    ensures
        r == left_offense(s@, style, args@, p as int),
{
    let n = s.len();
    assert(p < n);
    let (q, crossed) = next_token_start(s, p + 1);
    assert(crossed == crosses(s@, p + 1, q as int));
    if contains_pos(args, p) || q >= s.len() {
        return None;
    }
    if s[q] == 41u8 {
        if q > p + 1 && (style != Style::NoSpace || !crossed) {
            return Some((p + 1, q, MessageId::Detected));
        }
        return None;
    }
    if crossed || s[q] == 35u8 {
        return None;
    }
    match style {
        Style::NoSpace => if q > p + 1 { Some((p + 1, q, MessageId::Detected)) } else { None },
        Style::Space => if q == p + 1 { Some((q, q + 1, MessageId::Missing)) } else { None },
        Style::Compact => if s[q] == 40u8 && !contains_pos(args, q) {
            if q == p + 2 && s[p + 1] == 32u8 { Some((p + 1, q, MessageId::Detected)) } else { None }
        } else if q == p + 1 {
            Some((q, q + 1, MessageId::Missing))
        } else {
            None
        },
    }
}

/// The offense of the `)` at `p` ([`right_offense`]).
fn right_offense_of(s: &[u8], style: Style, masks: &Vec<(usize, usize)>, args: &Vec<usize>, p: usize) -> (r: Option<
    ParenOffense,
>)
    requires
        p < s@.len(),
    ensures
        r == right_offense(s@, style, masks@, args@, p as int),
{
    let m = match prev_token_end_same_line(s, p) {
        Some(m) => m,
        None => return None,
    };
    if m == 0 {
        return None;
    }
    let prev_open = s[m - 1] == 40u8 && !masked_at(masks, m - 1);
    if prev_open {
        if contains_pos(args, m - 1) && style == Style::NoSpace && p > m {
            return Some((m, p, MessageId::Detected));
        }
        return None;
    }
    match style {
        Style::NoSpace => if p > m { Some((m, p, MessageId::Detected)) } else { None },
        Style::Space => if p == m { Some((p, p + 1, MessageId::Missing)) } else { None },
        Style::Compact => if s[m - 1] == 41u8 && !masked_at(masks, m - 1) {
            if p == m + 1 && s[m] == 32u8 { Some((m, p, MessageId::Detected)) } else { None }
        } else if p == m {
            Some((p, p + 1, MessageId::Missing))
        } else {
            None
        },
    }
}

/// The offenses of the bytes before `end` ([`parens_upto`]).
fn paren_scan(s: &[u8], style: Style, masks: &Vec<(usize, usize)>, args: &Vec<usize>, end: usize) -> (r: Vec<
    SpaceInsideParensOffense,
>)
    requires
        end <= s@.len(),
    ensures
        r@.len() == parens_upto(s@, style, masks@, args@, end as int).len(),
        forall|k: int| 0 <= k < r@.len() ==> offense_is(#[trigger] r@[k], parens_upto(s@, style, masks@, args@,
            end as int)[k]),
{
    let mut out: Vec<SpaceInsideParensOffense> = Vec::new();
    let mut p: usize = 0;
    while p < end
        invariant
            p <= end <= s@.len(),
            out@.len() == parens_upto(s@, style, masks@, args@, p as int).len(),
            forall|k: int| 0 <= k < out@.len() ==> offense_is(#[trigger] out@[k], parens_upto(s@, style, masks@,
                args@, p as int)[k]),
        decreases end - p,
    {
        let b = s[p];
        let ghost prev = parens_upto(s@, style, masks@, args@, p as int);
        let o = if (b == 40u8 || b == 41u8) && !masked_at(masks, p) {
            if b == 40u8 { left_offense_of(s, style, args, p) } else { right_offense_of(s, style, masks, args, p) }
        } else {
            None
        };
        assert(o == paren_offense(s@, style, masks@, args@, p as int));
        match o {
            Some((a, e, m)) => {
                out.push(SpaceInsideParensOffense { start_offset: a, end_offset: e, message: m });
                assert(parens_upto(s@, style, masks@, args@, p + 1) == prev.push((a, e, m)));
            },
            None => {
                assert(parens_upto(s@, style, masks@, args@, p + 1) =~= prev);
            },
        }
        p += 1;
    }
    out
}

} // verus!
