//! `Layout/SpaceInsideHashLiteralBraces`: the space just inside the braces
//! of hash literals and braced hash patterns, per `EnforcedStyle` (`space`,
//! `no_space`, `compact`) and the style for empty braces.
//!
//! The left side pairs `{` with the next token: a line break between, or a
//! comment next, is never checked; a `{` next under `compact` wants no
//! space. The right side pairs `}` with the token before it on its line; under
//! `compact` a `}` there wants no space when it closes a hash, a braced hash
//! pattern, a brace block or a brace lambda, which is known only once the
//! walk is over. A hash holding only whitespace is an offense under the
//! `no_space` empty style.

use vstd::prelude::*;
use crate::syntax::{SyntaxTree, tree_wf};
use crate::syntax::kinds;
use crate::syntax::access::{child, range, child_at, range_at};
use crate::syntax::flatten::{parse_tree, check_tree, tree_of};
use crate::syntax::walk::{walk_events, walk, Event, events_in, event_node};
use crate::rules::space_scan::{is_ruby_space, spec_is_ruby_space, next_token_start, next_token, skip_space_left, skip_space_right, blank_run_end, blank_run_start, prev_token_end_same_line, prev_token_end};
use crate::rules::space_inside_array_literal_brackets::{byte_is, closer_set};

verus! {

/// `EnforcedStyle` value.
#[derive(Clone, Copy, PartialEq, Eq, Structural)]
pub enum Style {
    Space,
    NoSpace,
    Compact,
}

/// Config for `Layout/SpaceInsideHashLiteralBraces`.
#[derive(Clone, Copy)]
pub struct Config {
    pub style: Style,
    /// `EnforcedStyleForEmptyBraces == 'no_space'`.
    pub no_space_empty: bool,
}

/// One offense: the reported byte range and its message.
#[derive(Clone, Copy)]
pub struct SpaceInsideHashLiteralBracesOffense {
    pub start_offset: usize,
    pub end_offset: usize,
    pub message: MessageId,
}

/// The fixed messages.
#[derive(Clone, Copy, PartialEq, Eq, Structural, Debug)]
pub enum MessageId {
    /// `Space inside { missing.`
    LeftMissing,
    /// `Space inside { detected.`
    LeftDetected,
    /// `Space inside } missing.`
    RightMissing,
    /// `Space inside } detected.`
    RightDetected,
    /// `Space inside empty hash literal braces missing.`
    EmptyMissing,
    /// `Space inside empty hash literal braces detected.`
    EmptyDetected,
}

impl MessageId {
    /// The numeric tag of the message: its position in the list above.
    pub fn code(self) -> (c: u8)
        ensures
            self == MessageId::LeftMissing <==> c == 0,
            self == MessageId::LeftDetected <==> c == 1,
            self == MessageId::RightMissing <==> c == 2,
            self == MessageId::RightDetected <==> c == 3,
            self == MessageId::EmptyMissing <==> c == 4,
            self == MessageId::EmptyDetected <==> c == 5,
    {
        match self {
            MessageId::LeftMissing => 0,
            MessageId::LeftDetected => 1,
            MessageId::RightMissing => 2,
            MessageId::RightDetected => 3,
            MessageId::EmptyMissing => 4,
            MessageId::EmptyDetected => 5,
        }
    }
}

/// An offense known at once, or, under `compact`, a right-brace check that
/// waits for the set of closing braces.
#[derive(Clone, Copy)]
pub enum HashItem {
    Ready(SpaceInsideHashLiteralBracesOffense),
    PendingRight { rb_s: usize, rb_e: usize, prev_end: usize, has_space: bool },
}

/// The offense `[start, end)` with `message`.
pub open spec fn off(start: usize, end: usize, message: MessageId) -> SpaceInsideHashLiteralBracesOffense {
    SpaceInsideHashLiteralBracesOffense { start_offset: start, end_offset: end, message }
}

/// The right-brace offense for a `}` at `[rb_s, rb_e)` that wants a space
/// (`expect`) and has one (`has_space`) or not.
pub open spec fn right_offense(s: Seq<u8>, expect: bool, has_space: bool, rb_s: usize, rb_e: usize)
    -> Option<SpaceInsideHashLiteralBracesOffense>
{
    if expect && !has_space {
        Some(off(rb_s, rb_e, MessageId::RightMissing))
    } else if !expect && has_space {
        Some(off(blank_run_start(s, rb_s as int) as usize, (if rb_e > 0 { rb_e - 1 } else { 0 }) as usize,
            MessageId::RightDetected))
    } else {
        None
    }
}

/// The items of one braced hash with braces `[lb_s, lb_e)`, `[rb_s, rb_e)`.
pub open spec fn hash_items(s: Seq<u8>, cfg: Config, lb_s: usize, lb_e: usize, rb_s: usize, rb_e: usize) -> Seq<HashItem> {
    if !(lb_s < lb_e <= rb_s < rb_e <= s.len()) {
        Seq::empty()
    } else if lb_e == rb_s {
        if !cfg.no_space_empty { seq![HashItem::Ready(off(lb_s, lb_e, MessageId::EmptyMissing))] } else { Seq::empty() }
    } else {
        let tok = next_token(s, lb_e as int);
        let crossed = exists|k: int| lb_e <= k < tok && s[k] == 10u8;
        let left = if !crossed && !byte_is(s, tok, 35u8) {
            let is_empty = tok == rb_s;
            let expect = if byte_is(s, tok, 123u8) && cfg.style == Style::Compact {
                false
            } else if is_empty {
                !cfg.no_space_empty
            } else {
                cfg.style != Style::NoSpace
            };
            let has_space = tok > lb_e;
            if expect && !has_space {
                seq![HashItem::Ready(off(lb_s, lb_e, if is_empty { MessageId::EmptyMissing } else { MessageId::LeftMissing }))]
            } else if !expect && has_space {
                seq![HashItem::Ready(off((lb_s + 1) as usize, blank_run_end(s, lb_e as int) as usize,
                    if is_empty { MessageId::EmptyDetected } else { MessageId::LeftDetected }))]
            } else {
                Seq::empty()
            }
        } else {
            Seq::empty()
        };
        let right = if tok != rb_s {
            match prev_token_end(s, rb_s as int) {
                Some(pe) => {
                    let has_space = pe < rb_s;
                    if cfg.style == Style::Compact && byte_is(s, pe - 1, 125u8) {
                        seq![HashItem::PendingRight { rb_s, rb_e, prev_end: pe as usize, has_space }]
                    } else {
                        match right_offense(s, cfg.style != Style::NoSpace, has_space, rb_s, rb_e) {
                            Some(o) => seq![HashItem::Ready(o)],
                            None => Seq::empty(),
                        }
                    }
                },
                None => Seq::empty(),
            }
        } else {
            Seq::empty()
        };
        let ws_only = if cfg.no_space_empty && (forall|q: int| lb_e <= q < rb_s ==> spec_is_ruby_space(#[trigger] s[q])) {
            seq![HashItem::Ready(off(lb_e, rb_s, MessageId::EmptyDetected))]
        } else {
            Seq::empty()
        };
        left + right + ws_only
    }
}

/// The braces of node `i` when it is a hash, or a hash pattern in braces.
pub open spec fn hash_braces(s: Seq<u8>, t: SyntaxTree, i: int) -> Option<(usize, usize, usize, usize)> {
    let k = t.nodes@[i].kind;
    let fields = if k == kinds::HASH_NODE {
        Some((kinds::HASH_NODE_OPENING_LOC, kinds::HASH_NODE_CLOSING_LOC))
    } else if k == kinds::HASH_PATTERN_NODE {
        Some((kinds::HASH_PATTERN_NODE_OPENING_LOC, kinds::HASH_PATTERN_NODE_CLOSING_LOC))
    } else {
        None
    };
    match fields {
        Some((of, cf)) => match (range_at(t, i, of as int), range_at(t, i, cf as int)) {
            (Some((o0, o1)), Some((c0, c1))) => if k == kinds::HASH_NODE || byte_is(s, o0 as int, 123u8) {
                Some((o0, o1, c0, c1))
            } else {
                None
            },
            _ => None,
        },
        None => None,
    }
}

/// The braces of a block `b` (opening and closing ranges).
pub open spec fn block_braces(t: SyntaxTree, b: int, of: usize, cf: usize) -> Option<(usize, usize)> {
    match (range_at(t, b, of as int), range_at(t, b, cf as int)) {
        (Some((o0, _)), Some((c0, _))) => Some((o0, c0)),
        _ => None,
    }
}

/// The `}` that node `i` closes a brace block or lambda with, if any.
pub open spec fn curly_closer(s: Seq<u8>, t: SyntaxTree, i: int) -> Option<usize> {
    let k = t.nodes@[i].kind;
    let pair = if k == kinds::BLOCK_NODE {
        block_braces(t, i, kinds::BLOCK_NODE_OPENING_LOC, kinds::BLOCK_NODE_CLOSING_LOC)
    } else if k == kinds::LAMBDA_NODE {
        block_braces(t, i, kinds::LAMBDA_NODE_OPENING_LOC, kinds::LAMBDA_NODE_CLOSING_LOC)
    } else if k == kinds::FORWARDING_SUPER_NODE {
        match child_at(t, i, kinds::FORWARDING_SUPER_NODE_BLOCK as int) {
            Some(b) => block_braces(t, b as int, kinds::BLOCK_NODE_OPENING_LOC, kinds::BLOCK_NODE_CLOSING_LOC),
            None => None,
        }
    } else {
        None
    };
    match pair {
        Some((o0, c0)) => if byte_is(s, o0 as int, 123u8) { Some(c0) } else { None },
        None => None,
    }
}

/// The items and closing braces after the first `k` events.
pub open spec fn run(s: Seq<u8>, t: SyntaxTree, cfg: Config, evs: Seq<Event>, k: int) -> (Seq<HashItem>, Set<usize>)
    decreases k,
{
    if k <= 0 {
        (Seq::empty(), Set::empty())
    } else {
        let (items, closers) = run(s, t, cfg, evs, k - 1);
        match evs[k - 1] {
            Event::Enter(i) => match hash_braces(s, t, i as int) {
                Some((o0, o1, c0, c1)) => (items + hash_items(s, cfg, o0, o1, c0, c1),
                    if cfg.style == Style::Compact { closers.insert(c0) } else { closers }),
                None => (items, if cfg.style == Style::Compact {
                    match curly_closer(s, t, i as int) { Some(c) => closers.insert(c), None => closers }
                } else {
                    closers
                }),
            },
            _ => (items, closers),
        }
    }
}

/// An item resolved against the closing braces.
pub open spec fn resolve(s: Seq<u8>, closers: Set<usize>, it: HashItem) -> Option<SpaceInsideHashLiteralBracesOffense> {
    match it {
        HashItem::Ready(o) => Some(o),
        HashItem::PendingRight { rb_s, rb_e, prev_end, has_space } => {
            let same = prev_end > 0 && closers.contains((prev_end - 1) as usize);
            right_offense(s, !same, has_space, rb_s, rb_e)
        },
    }
}

/// The offenses of the first `k` items.
pub open spec fn resolved(s: Seq<u8>, closers: Set<usize>, items: Seq<HashItem>, k: int)
    -> Seq<SpaceInsideHashLiteralBracesOffense>
    decreases k,
{
    if k <= 0 {
        Seq::empty()
    } else {
        let prev = resolved(s, closers, items, k - 1);
        match resolve(s, closers, items[k - 1]) {
            Some(o) => prev.push(o),
            None => prev,
        }
    }
}

/// The offenses of `source`.
pub fn check_space_inside_hash_literal_braces(source: &[u8], config: Config) -> (r: Vec<SpaceInsideHashLiteralBracesOffense>)
    ensures
        exists|t: SyntaxTree| #[trigger] tree_of(t, source@) && (if tree_wf(t) {
            &&& ({
                let (items, closers) = run(source@, t, config, walk_events(t), walk_events(t).len() as int);
                r@ == resolved(source@, closers, items, items.len() as int)
            })
        } else {
            r@.len() == 0
        }),
{
    let t = parse_tree(source);
    if !check_tree(&t) {
        assert(tree_of(t, source@));
        return Vec::new();
    }
    let evs = walk(&t);
    let r = hash_braces_offenses(source, &t, &evs, config);
    assert(tree_of(t, source@));
    r
}

/// The offenses of the parsed `source` over the walk `evs`.
pub fn hash_braces_offenses(source: &[u8], t: &SyntaxTree, evs: &Vec<Event>, cfg: Config)
    -> (r: Vec<SpaceInsideHashLiteralBracesOffense>)
    requires
        tree_wf(*t),
        t.source_len == source@.len(),
        events_in(evs@, t.nodes@.len() as nat),
    ensures
        ({
            let (items, closers) = run(source@, *t, cfg, evs@, evs@.len() as int);
            r@ == resolved(source@, closers, items, items.len() as int)
        }),
{
    let mut items: Vec<HashItem> = Vec::new();
    let mut marks: Vec<bool> = Vec::new();
    marks.push(false);
    let mut q: usize = 0;
    while q < source.len()
        invariant
            q <= source@.len(),
            marks@.len() == q + 1,
            forall|x: int| 0 <= x < q + 1 ==> !marks@[x],
        decreases source@.len() - q,
    {
        marks.push(false);
        q += 1;
    }
    assert(closer_set(marks@) =~= Set::<usize>::empty());
    let mut k: usize = 0;
    while k < evs.len()
        invariant
            tree_wf(*t),
            t.source_len == source@.len(),
            events_in(evs@, t.nodes@.len() as nat),
            k <= evs@.len(),
            marks@.len() == source@.len() + 1,
            run(source@, *t, cfg, evs@, k as int) == (items@, closer_set(marks@)),
        decreases evs.len() - k,
    {
        assert(event_node(evs@[k as int]) < t.nodes@.len());
        match evs[k] {
            Event::Enter(i) => {
                match hash_braces_of(source, t, i) {
                    Some((o0, o1, c0, c1)) => {
                        hash_items_of(source, cfg, o0, o1, c0, c1, &mut items);
                        if cfg.style == Style::Compact {
                            mark(&mut marks, c0);
                        }
                    },
                    None => {
                        if cfg.style == Style::Compact {
                            match curly_closer_of(source, t, i) {
                                Some(c) => mark(&mut marks, c),
                                None => {},
                            }
                        }
                    },
                }
            },
            _ => {},
        }
        k += 1;
    }
    let mut out: Vec<SpaceInsideHashLiteralBracesOffense> = Vec::new();
    let ghost closers = closer_set(marks@);
    let mut j: usize = 0;
    while j < items.len()
        invariant
            j <= items@.len(),
            closers == closer_set(marks@),
            out@ == resolved(source@, closers, items@, j as int),
        decreases items.len() - j,
    {
        match items[j] {
            HashItem::Ready(o) => out.push(o),
            HashItem::PendingRight { rb_s, rb_e, prev_end, has_space } => {
                let same = prev_end > 0 && prev_end - 1 < marks.len() && marks[prev_end - 1];
                proof {
                    if prev_end > 0 {
                        let x = (prev_end - 1) as usize;
                        assert(closer_set(marks@).contains(x) == (x < marks@.len() && marks@[x as int]));
                    }
                }
                match right_offense_of(source, !same, has_space, rb_s, rb_e) {
                    Some(o) => out.push(o),
                    None => {},
                }
            },
        }
        j += 1;
    }
    out
}

/// `c` marked as a closing brace.
fn mark(marks: &mut Vec<bool>, c: usize)
    ensures
        final(marks)@.len() == old(marks)@.len(),
        closer_set(final(marks)@) == if c < old(marks)@.len() { closer_set(old(marks)@).insert(c) } else { closer_set(old(marks)@) },
{
    if c < marks.len() {
        let ghost before = marks@;
        marks.set(c, true);
        assert(closer_set(marks@) =~= closer_set(before).insert(c));
    }
}

/// [`right_offense`].
fn right_offense_of(s: &[u8], expect: bool, has_space: bool, rb_s: usize, rb_e: usize)
    -> (r: Option<SpaceInsideHashLiteralBracesOffense>)
    ensures
        r == right_offense(s@, expect, has_space, rb_s, rb_e),
{
    if expect && !has_space {
        Some(SpaceInsideHashLiteralBracesOffense { start_offset: rb_s, end_offset: rb_e, message: MessageId::RightMissing })
    } else if !expect && has_space {
        let e = if rb_e > 0 { rb_e - 1 } else { 0 };
        Some(SpaceInsideHashLiteralBracesOffense {
            start_offset: skip_space_left(s, rb_s), end_offset: e, message: MessageId::RightDetected,
        })
    } else {
        None
    }
}

/// [`hash_braces`].
fn hash_braces_of(s: &[u8], t: &SyntaxTree, i: usize) -> (r: Option<(usize, usize, usize, usize)>)
    requires
        tree_wf(*t),
        i < t.nodes@.len(),
    ensures
        r == hash_braces(s@, *t, i as int),
        r matches Some((_, _, c0, _)) ==> c0 <= t.source_len,
{
    let k = t.nodes[i].kind;
    let fields = if k == kinds::HASH_NODE {
        Some((kinds::HASH_NODE_OPENING_LOC, kinds::HASH_NODE_CLOSING_LOC))
    } else if k == kinds::HASH_PATTERN_NODE {
        Some((kinds::HASH_PATTERN_NODE_OPENING_LOC, kinds::HASH_PATTERN_NODE_CLOSING_LOC))
    } else {
        None
    };
    match fields {
        Some((of, cf)) => match (range(t, i, of), range(t, i, cf)) {
            (Some((o0, o1)), Some((c0, c1))) => if k == kinds::HASH_NODE || (o0 < s.len() && s[o0] == 123u8) {
                Some((o0, o1, c0, c1))
            } else {
                None
            },
            _ => None,
        },
        None => None,
    }
}

/// [`block_braces`].
fn block_braces_of(t: &SyntaxTree, b: usize, of: usize, cf: usize) -> (r: Option<(usize, usize)>)
    requires
        tree_wf(*t),
        b < t.nodes@.len(),
    ensures
        r == block_braces(*t, b as int, of, cf),
        r matches Some((_, c0)) ==> c0 <= t.source_len,
{
    match (range(t, b, of), range(t, b, cf)) {
        (Some((o0, _)), Some((c0, _))) => Some((o0, c0)),
        _ => None,
    }
}

/// [`curly_closer`].
fn curly_closer_of(s: &[u8], t: &SyntaxTree, i: usize) -> (r: Option<usize>)
    requires
        tree_wf(*t),
        i < t.nodes@.len(),
    ensures
        r == curly_closer(s@, *t, i as int),
        r matches Some(c) ==> c <= t.source_len,
{
    let k = t.nodes[i].kind;
    let pair = if k == kinds::BLOCK_NODE {
        block_braces_of(t, i, kinds::BLOCK_NODE_OPENING_LOC, kinds::BLOCK_NODE_CLOSING_LOC)
    } else if k == kinds::LAMBDA_NODE {
        block_braces_of(t, i, kinds::LAMBDA_NODE_OPENING_LOC, kinds::LAMBDA_NODE_CLOSING_LOC)
    } else if k == kinds::FORWARDING_SUPER_NODE {
        match child(t, i, kinds::FORWARDING_SUPER_NODE_BLOCK) {
            Some(b) => block_braces_of(t, b, kinds::BLOCK_NODE_OPENING_LOC, kinds::BLOCK_NODE_CLOSING_LOC),
            None => None,
        }
    } else {
        None
    };
    match pair {
        Some((o0, c0)) => if o0 < s.len() && s[o0] == 123u8 { Some(c0) } else { None },
        None => None,
    }
}

/// The items of one braced hash ([`hash_items`]), appended to `items`.
fn hash_items_of(s: &[u8], cfg: Config, lb_s: usize, lb_e: usize, rb_s: usize, rb_e: usize, items: &mut Vec<HashItem>)
    ensures
        final(items)@ == old(items)@ + hash_items(s@, cfg, lb_s, lb_e, rb_s, rb_e),
{
    let ghost start = items@;
    let ghost spec = hash_items(s@, cfg, lb_s, lb_e, rb_s, rb_e);
    if !(lb_s < lb_e && lb_e <= rb_s && rb_s < rb_e && rb_e <= s.len()) {
        assert(items@ =~= start + spec);
        return;
    }
    if lb_e == rb_s {
        if !cfg.no_space_empty {
            items.push(HashItem::Ready(SpaceInsideHashLiteralBracesOffense {
                start_offset: lb_s, end_offset: lb_e, message: MessageId::EmptyMissing,
            }));
        }
        assert(items@ =~= start + spec);
        return;
    }
    let (tok, crossed) = next_token_start(s, lb_e);
    let ghost left_s: Seq<HashItem>;
    if !crossed && !(tok < s.len() && s[tok] == 35u8) {
        let is_empty = tok == rb_s;
        let expect = if tok < s.len() && s[tok] == 123u8 && cfg.style == Style::Compact {
            false
        } else if is_empty {
            !cfg.no_space_empty
        } else {
            cfg.style != Style::NoSpace
        };
        let has_space = tok > lb_e;
        if expect && !has_space {
            items.push(HashItem::Ready(SpaceInsideHashLiteralBracesOffense {
                start_offset: lb_s, end_offset: lb_e,
                message: if is_empty { MessageId::EmptyMissing } else { MessageId::LeftMissing },
            }));
        } else if !expect && has_space {
            items.push(HashItem::Ready(SpaceInsideHashLiteralBracesOffense {
                start_offset: lb_s + 1, end_offset: skip_space_right(s, lb_e),
                message: if is_empty { MessageId::EmptyDetected } else { MessageId::LeftDetected },
            }));
        }
    }
    let ghost after_left = items@;
    if tok != rb_s {
        match prev_token_end_same_line(s, rb_s) {
            Some(pe) => {
                let has_space = pe < rb_s;
                if cfg.style == Style::Compact && pe > 0 && pe - 1 < s.len() && s[pe - 1] == 125u8 {
                    items.push(HashItem::PendingRight { rb_s, rb_e, prev_end: pe, has_space });
                } else {
                    match right_offense_of(s, cfg.style != Style::NoSpace, has_space, rb_s, rb_e) {
                        Some(o) => items.push(HashItem::Ready(o)),
                        None => {},
                    }
                }
            },
            None => {},
        }
    }
    let ghost after_right = items@;
    if cfg.no_space_empty {
        let mut all = true;
        let mut q = lb_e;
        while q < rb_s
            invariant
                lb_e <= q <= rb_s <= s@.len(),
                all == (forall|x: int| lb_e <= x < q ==> spec_is_ruby_space(#[trigger] s@[x])),
            decreases rb_s - q,
        {
            if !is_ruby_space(s[q]) {
                assert(!spec_is_ruby_space(s@[q as int]));
                all = false;
            }
            q += 1;
        }
        if all {
            items.push(HashItem::Ready(SpaceInsideHashLiteralBracesOffense {
                start_offset: lb_e, end_offset: rb_s, message: MessageId::EmptyDetected,
            }));
        }
    }
    assert(items@ =~= start + spec);
}

} // verus!
