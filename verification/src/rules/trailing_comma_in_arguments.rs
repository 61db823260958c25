//! `Style/TrailingCommaInArguments`: the comma after the last argument of a
//! call in parentheses, or of an index call `recv[..]`.
//!
//! The arguments are the call's arguments and a block pass (`&blk`), not a
//! `do`/`{}` block. The call ends at its closing bracket, whatever block
//! follows. Under `consistent_comma` a comma is not wanted when the method
//! name and the arguments end on one line. For the item counts of the styles,
//! a multi-line hash without braces counts as its pairs. No comma is put
//! after a block pass.

use vstd::prelude::*;
use crate::syntax::{SyntaxTree, tree_wf, node_wf, indices_in};
use crate::syntax::kinds;
use crate::syntax::access::{child, range, text, children, child_at, range_at, text_at, list_at, args_of,
    args_of_node};
use crate::syntax::flatten::{parse_tree, check_tree, tree_of};
use crate::rules::trailing_comma::{same_line, same_line_of, comma_from, comma_offset, inside_comment,
    inside_comment_of, autocorrect_start, autocorrect_start_of, begins_its_line, begins_its_line_of,
    comma_to_newline, comma_to_newline_of, any_heredoc, any_heredoc_of, avoid_message, avoid_message_of};
pub use crate::rules::trailing_comma::{
    FIX_AVOID, FIX_PUT, MSG_AVOID_COMMA, MSG_AVOID_CONSISTENT_COMMA, MSG_AVOID_DIFF_COMMA, MSG_AVOID_NO_COMMA, MSG_PUT,
    STYLE_COMMA, STYLE_CONSISTENT_COMMA, STYLE_DIFF_COMMA, STYLE_NO_COMMA,
};

verus! {

/// `EnforcedStyleForMultiline`.
#[derive(Clone, Copy)]
pub struct Config {
    pub style: u8,
}

/// One offense: the range the fix works on, the message and the fix.
#[derive(Clone, Copy)]
pub struct TrailingCommaInArgumentsOffense {
    pub start_offset: usize,
    pub end_offset: usize,
    pub message: u8,
    pub fix: u8,
}

/// The arguments of call `i`, then its block pass if it has one.
pub open spec fn call_items(t: SyntaxTree, i: int) -> Seq<usize> {
    let args = args_of(t, i, kinds::CALL_NODE_ARGUMENTS as int);
    match child_at(t, i, kinds::CALL_NODE_BLOCK as int) {
        Some(b) => if t.nodes@[b as int].kind == kinds::BLOCK_ARGUMENT_NODE { args.push(b) } else { args },
        None => args,
    }
}

/// Call `i` opens its arguments with `(`.
pub open spec fn parenthesized(s: Seq<u8>, t: SyntaxTree, i: int) -> bool {
    range_at(t, i, kinds::CALL_NODE_OPENING_LOC as int) matches Some((o0, o1)) && o1 == o0 + 1 && o1 <= s.len()
        && s[o0 as int] == 40u8
}

/// Call `i` is named `[]`.
pub open spec fn is_index(t: SyntaxTree, i: int) -> bool {
    text_at(t, i, kinds::CALL_NODE_NAME as int) == Some(seq![91u8, 93u8])
}

/// Where call `i` ends: past its closing bracket, or at its own end without
/// one.
pub open spec fn call_end(t: SyntaxTree, i: int) -> usize {
    match range_at(t, i, kinds::CALL_NODE_CLOSING_LOC as int) {
        Some((_, c1)) => c1,
        None => t.nodes@[i].end,
    }
}

/// Where the closing bracket of call `i` begins; the byte before its end
/// without one.
pub open spec fn closing_start(t: SyntaxTree, i: int) -> usize {
    match range_at(t, i, kinds::CALL_NODE_CLOSING_LOC as int) {
        Some((c0, _)) => c0,
        None => if t.nodes@[i].end > 0 { (t.nodes@[i].end - 1) as usize } else { 0 },
    }
}

/// The ranges item `a` counts as: the pairs of a multi-line hash without
/// braces, else the item itself.
pub open spec fn item_elements(s: Seq<u8>, t: SyntaxTree, a: int) -> Seq<(usize, usize)> {
    let nd = t.nodes@[a];
    if nd.kind == kinds::KEYWORD_HASH_NODE && !same_line(s, nd.start as int, nd.end as int) {
        list_at(t, a, kinds::KEYWORD_HASH_NODE_ELEMENTS as int).map_values(
            |e: usize| (t.nodes@[e as int].start, t.nodes@[e as int].end),
        )
    } else {
        seq![(nd.start, nd.end)]
    }
}

/// The ranges `items` count as, in order.
pub open spec fn elements_of(s: Seq<u8>, t: SyntaxTree, items: Seq<usize>) -> Seq<(usize, usize)>
    decreases items.len(),
{
    if items.len() == 0 {
        Seq::empty()
    } else {
        elements_of(s, t, items.drop_last()) + item_elements(s, t, items.last() as int)
    }
}

/// No two consecutive ranges of `r` share a line (the end of one and the
/// start of the next).
pub open spec fn apart(s: Seq<u8>, r: Seq<(usize, usize)>) -> bool {
    forall|j: int| 0 <= j < r.len() - 1 ==> !same_line(s, (#[trigger] r[j]).1 as int, r[j + 1].0 as int)
}

/// The method name (or the call's start) and the last argument end on the
/// line where the call ends; or the last argument is a braced hash ending
/// there.
pub open spec fn name_and_args_on_one_line(s: Seq<u8>, t: SyntaxTree, i: int, items: Seq<usize>) -> bool {
    let last = items.last() as int;
    let le = t.nodes@[last].end;
    if !same_line(s, call_end(t, i) as int, le as int) {
        false
    } else if t.nodes@[last].kind == kinds::HASH_NODE {
        true
    } else {
        let line = match range_at(t, i, kinds::CALL_NODE_MESSAGE_LOC as int) {
            Some((m0, _)) => m0,
            None => t.nodes@[i].start,
        };
        same_line(s, line as int, le as int)
    }
}

/// The style wants a comma after the last of `items` in call `i`.
pub open spec fn wants_comma(s: Seq<u8>, t: SyntaxTree, style: u8, i: int, items: Seq<usize>) -> bool {
    let els = elements_of(s, t, items);
    let ce = call_end(t, i);
    let ml = !same_line(s, t.nodes@[i].start as int, ce as int) && !(els.len() == 1 && !begins_its_line(s,
        closing_start(t, i) as int));
    let last_end = t.nodes@[items.last() as int].end;
    if style == STYLE_COMMA {
        ml && apart(s, els.push((closing_start(t, i), closing_start(t, i))))
    } else if style == STYLE_CONSISTENT_COMMA {
        ml && !name_and_args_on_one_line(s, t, i, items)
    } else if style == STYLE_DIFF_COMMA {
        ml && last_end <= ce && comma_to_newline(s.subrange(last_end as int, ce as int))
    } else {
        false
    }
}

/// The "put a comma" offense after item `l`; none after a block pass.
pub open spec fn put_offense(s: Seq<u8>, t: SyntaxTree, l: int) -> Option<TrailingCommaInArgumentsOffense> {
    let nd = t.nodes@[l];
    if nd.kind == kinds::BLOCK_ARGUMENT_NODE {
        None
    } else {
        Some(
            TrailingCommaInArgumentsOffense {
                start_offset: autocorrect_start(s, nd.start as int, nd.end as int) as usize,
                end_offset: nd.end,
                message: MSG_PUT,
                fix: FIX_PUT,
            },
        )
    }
}

/// The offense of node `i`, when it is a call in parentheses or an index
/// call whose arguments break the style.
pub open spec fn call_offense(s: Seq<u8>, t: SyntaxTree, style: u8, i: int) -> Option<
    TrailingCommaInArgumentsOffense,
> {
    let items = call_items(t, i);
    if t.nodes@[i].kind != kinds::CALL_NODE || items.len() == 0 || !(parenthesized(s, t, i) || is_index(t, i)) {
        None
    } else {
        let last = items.last() as int;
        let begin = t.nodes@[last].end;
        let end = call_end(t, i);
        if begin > end {
            None
        } else {
            let wants = wants_comma(s, t, style, i, items);
            match comma_from(s.subrange(begin as int, end as int), 0, any_heredoc(s, t, items)) {
                Some(off) => {
                    let cp = begin + off;
                    if !inside_comment(s, t.comments@, begin as int, cp) {
                        if wants {
                            None
                        } else {
                            Some(
                                TrailingCommaInArgumentsOffense {
                                    start_offset: cp as usize,
                                    end_offset: (cp + 1) as usize,
                                    message: avoid_message(style),
                                    fix: FIX_AVOID,
                                },
                            )
                        }
                    } else if wants {
                        put_offense(s, t, last)
                    } else {
                        None
                    }
                },
                None => if wants { put_offense(s, t, last) } else { None },
            }
        }
    }
}

/// The offenses of the nodes before `k`, in tree order.
pub open spec fn call_offenses_upto(s: Seq<u8>, t: SyntaxTree, style: u8, k: int) -> Seq<
    TrailingCommaInArgumentsOffense,
>
    decreases k,
{
    if k <= 0 {
        Seq::empty()
    } else {
        let prev = call_offenses_upto(s, t, style, k - 1);
        match call_offense(s, t, style, k - 1) {
            Some(o) => prev.push(o),
            None => prev,
        }
    }
}

/// The offenses of `source`; none where it does not parse into a
/// well-formed tree.
pub fn check_trailing_comma_in_arguments(source: &[u8], cfg: &Config) -> (r: Vec<TrailingCommaInArgumentsOffense>)
    ensures
        exists|t: SyntaxTree| #[trigger] tree_of(t, source@) && (if tree_wf(t) {
            &&& r@ == call_offenses_upto(source@, t, cfg.style, t.nodes@.len() as int)
        } else {
            r@.len() == 0
        }),
{
    let t = parse_tree(source);
    if !check_tree(&t) {
        assert(tree_of(t, source@));
        return Vec::new();
    }
    let r = arguments_offenses(source, &t, cfg);
    assert(tree_of(t, source@));
    r
}

/// The offenses of the calls of `t`, in tree order.
pub fn arguments_offenses(source: &[u8], t: &SyntaxTree, cfg: &Config) -> (r: Vec<TrailingCommaInArgumentsOffense>)
    requires
        tree_wf(*t),
        t.source_len == source@.len(),
    ensures
        r@ == call_offenses_upto(source@, *t, cfg.style, t.nodes@.len() as int),
{
    let mut out: Vec<TrailingCommaInArgumentsOffense> = Vec::new();
    let mut i: usize = 0;
    while i < t.nodes.len()
        invariant
            tree_wf(*t),
            t.source_len == source@.len(),
            i <= t.nodes@.len(),
            out@ == call_offenses_upto(source@, *t, cfg.style, i as int),
        decreases t.nodes.len() - i,
    {
        match call_offense_of(source, t, cfg.style, i) {
            Some(o) => out.push(o),
            None => {},
        }
        i += 1;
    }
    out
}

/// [`call_items`].
fn call_items_of(t: &SyntaxTree, i: usize) -> (r: Vec<usize>)
    requires
        tree_wf(*t),
        i < t.nodes@.len(),
    ensures
        r@ == call_items(*t, i as int),
        indices_in(r@, t.nodes@.len() as nat),
{
    let mut items: Vec<usize> = Vec::new();
    match args_of_node(t, i, kinds::CALL_NODE_ARGUMENTS) {
        Some(a) => {
            let mut j: usize = 0;
            while j < a.len()
                invariant
                    j <= a@.len(),
                    indices_in(a@, t.nodes@.len() as nat),
                    items@ == a@.subrange(0, j as int),
                decreases a.len() - j,
            {
                items.push(a[j]);
                j += 1;
            }
            assert(items@ =~= a@);
        },
        None => {},
    }
    assert(items@ == args_of(*t, i as int, kinds::CALL_NODE_ARGUMENTS as int));
    match child(t, i, kinds::CALL_NODE_BLOCK) {
        Some(b) => {
            if t.nodes[b].kind == kinds::BLOCK_ARGUMENT_NODE {
                items.push(b);
            }
        },
        None => {},
    }
    items
}

/// [`parenthesized`].
fn parenthesized_of(s: &[u8], t: &SyntaxTree, i: usize) -> (r: bool)
    requires
        tree_wf(*t),
        t.source_len == s@.len(),
        i < t.nodes@.len(),
    ensures
        r == parenthesized(s@, *t, i as int),
{
    match range(t, i, kinds::CALL_NODE_OPENING_LOC) {
        Some((o0, o1)) => o0 < o1 && o1 - o0 == 1 && o1 <= s.len() && s[o0] == 40u8,
        None => false,
    }
}

/// [`is_index`].
fn is_index_of(t: &SyntaxTree, i: usize) -> (r: bool)
    requires
        i < t.nodes@.len(),
    ensures
        r == is_index(*t, i as int),
{
    match text(t, i, kinds::CALL_NODE_NAME) {
        Some(n) => {
            let b = n.len() == 2 && n[0] == 91u8 && n[1] == 93u8;
            assert(b ==> n@ =~= seq![91u8, 93u8]);
            b
        },
        None => false,
    }
}

/// [`call_end`] and [`closing_start`].
fn call_bounds_of(t: &SyntaxTree, i: usize) -> (r: (usize, usize))
    requires
        tree_wf(*t),
        i < t.nodes@.len(),
    ensures
        r.0 == call_end(*t, i as int),
        r.1 == closing_start(*t, i as int),
        r.0 <= t.source_len,
        r.1 <= t.source_len,
{
    assert(node_wf(*t, i as int, t.source_len as nat));
    match range(t, i, kinds::CALL_NODE_CLOSING_LOC) {
        Some((c0, c1)) => (c1, c0),
        None => (t.nodes[i].end, if t.nodes[i].end > 0 { t.nodes[i].end - 1 } else { 0 }),
    }
}

/// [`elements_of`].
fn elements_of_items(s: &[u8], t: &SyntaxTree, items: &Vec<usize>) -> (r: Vec<(usize, usize)>)
    requires
        tree_wf(*t),
        t.source_len == s@.len(),
        indices_in(items@, t.nodes@.len() as nat),
    ensures
        r@ == elements_of(s@, *t, items@),
        forall|j: int| 0 <= j < r@.len() ==> (#[trigger] r@[j]).0 <= s@.len() && r@[j].1 <= s@.len(),
{
    let mut out: Vec<(usize, usize)> = Vec::new();
    let mut j: usize = 0;
    while j < items.len()
        invariant
            tree_wf(*t),
            t.source_len == s@.len(),
            indices_in(items@, t.nodes@.len() as nat),
            j <= items@.len(),
            out@ == elements_of(s@, *t, items@.subrange(0, j as int)),
            forall|x: int| 0 <= x < out@.len() ==> (#[trigger] out@[x]).0 <= s@.len() && out@[x].1 <= s@.len(),
        decreases items.len() - j,
    {
        let a = items[j];
        proof {
            assert(items@.subrange(0, j + 1).drop_last() =~= items@.subrange(0, j as int));
            assert(items@.subrange(0, j + 1).last() == a);
        }
        assert(node_wf(*t, a as int, t.source_len as nat));
        let ghost before = out@;
        let (hs, he) = (t.nodes[a].start, t.nodes[a].end);
        if t.nodes[a].kind == kinds::KEYWORD_HASH_NODE && !same_line_of(s, hs, he) {
            let ghost els = list_at(*t, a as int, kinds::KEYWORD_HASH_NODE_ELEMENTS as int);
            match children(t, a, kinds::KEYWORD_HASH_NODE_ELEMENTS) {
                Some(v) => {
                    let mut k: usize = 0;
                    while k < v.len()
                        invariant
                            tree_wf(*t),
                            t.source_len == s@.len(),
                            indices_in(v@, t.nodes@.len() as nat),
                            els == v@,
                            k <= v@.len(),
                            out@ == before + els.subrange(0, k as int).map_values(
                                |e: usize| (t.nodes@[e as int].start, t.nodes@[e as int].end),
                            ),
                            forall|x: int| 0 <= x < out@.len() ==> (#[trigger] out@[x]).0 <= s@.len() && out@[x].1
                                <= s@.len(),
                        decreases v.len() - k,
                    {
                        let e = v[k];
                        assert(node_wf(*t, e as int, t.source_len as nat));
                        out.push((t.nodes[e].start, t.nodes[e].end));
                        proof {
                            assert(els.subrange(0, k + 1) =~= els.subrange(0, k as int).push(e));
                            assert(out@ =~= before + els.subrange(0, k + 1).map_values(
                                |e: usize| (t.nodes@[e as int].start, t.nodes@[e as int].end),
                            ));
                        }
                        k += 1;
                    }
                    assert(els.subrange(0, v@.len() as int) =~= els);
                },
                None => {
                    assert(els.map_values(|e: usize| (t.nodes@[e as int].start, t.nodes@[e as int].end)) =~= Seq::<
                        (usize, usize),
                    >::empty());
                    assert(out@ =~= before + els.map_values(
                        |e: usize| (t.nodes@[e as int].start, t.nodes@[e as int].end),
                    ));
                },
            }
        } else {
            out.push((hs, he));
            assert(out@ =~= before + seq![(hs, he)]);
        }
        j += 1;
    }
    assert(items@.subrange(0, items@.len() as int) =~= items@);
    out
}

/// [`apart`] of `r` followed by `(p, p)`.
fn apart_then_of(s: &[u8], r: &Vec<(usize, usize)>, p: usize) -> (b: bool)
    requires
        forall|j: int| 0 <= j < r@.len() ==> (#[trigger] r@[j]).0 <= s@.len() && r@[j].1 <= s@.len(),
        p <= s@.len(),
    ensures
        b == apart(s@, r@.push((p, p))),
{
    let ghost rr = r@.push((p, p));
    let n = r.len();
    let mut j: usize = 0;
    while j < n
        invariant
            n == r@.len(),
            rr == r@.push((p, p)),
            j <= n,
            p <= s@.len(),
            forall|x: int| 0 <= x < r@.len() ==> (#[trigger] r@[x]).0 <= s@.len() && r@[x].1 <= s@.len(),
            forall|x: int| 0 <= x < j ==> !same_line(s@, (#[trigger] rr[x]).1 as int, rr[x + 1].0 as int),
        decreases n - j,
    {
        let a = r[j].1;
        let b = if j + 1 < n { r[j + 1].0 } else { p };
        assert(rr[j as int].1 == a);
        assert(rr[j + 1].0 == b);
        if same_line_of(s, a, b) {
            return false;
        }
        j += 1;
    }
    true
}

/// [`name_and_args_on_one_line`].
fn name_and_args_on_one_line_of(s: &[u8], t: &SyntaxTree, i: usize, items: &Vec<usize>, ce: usize) -> (r: bool)
    requires
        tree_wf(*t),
        t.source_len == s@.len(),
        i < t.nodes@.len(),
        items@.len() > 0,
        indices_in(items@, t.nodes@.len() as nat),
        ce == call_end(*t, i as int),
        ce <= s@.len(),
    ensures
        r == name_and_args_on_one_line(s@, *t, i as int, items@),
{
    let last = items[items.len() - 1];
    assert(node_wf(*t, last as int, t.source_len as nat));
    assert(node_wf(*t, i as int, t.source_len as nat));
    let le = t.nodes[last].end;
    if !same_line_of(s, ce, le) {
        false
    } else if t.nodes[last].kind == kinds::HASH_NODE {
        true
    } else {
        let line = match range(t, i, kinds::CALL_NODE_MESSAGE_LOC) {
            Some((m0, _)) => m0,
            None => t.nodes[i].start,
        };
        same_line_of(s, line, le)
    }
}

/// [`put_offense`].
fn put_offense_of(s: &[u8], t: &SyntaxTree, l: usize) -> (r: Option<TrailingCommaInArgumentsOffense>)
    requires
        tree_wf(*t),
        t.source_len == s@.len(),
        l < t.nodes@.len(),
    ensures
        r == put_offense(s@, *t, l as int),
{
    assert(node_wf(*t, l as int, t.source_len as nat));
    if t.nodes[l].kind == kinds::BLOCK_ARGUMENT_NODE {
        return None;
    }
    let a = autocorrect_start_of(s, t.nodes[l].start, t.nodes[l].end);
    Some(TrailingCommaInArgumentsOffense { start_offset: a, end_offset: t.nodes[l].end, message: MSG_PUT, fix: FIX_PUT })
}

/// [`call_offense`].
#[verifier::rlimit(40)]
fn call_offense_of(s: &[u8], t: &SyntaxTree, style: u8, i: usize) -> (r: Option<TrailingCommaInArgumentsOffense>)
    requires
        tree_wf(*t),
        t.source_len == s@.len(),
        i < t.nodes@.len(),
    ensures
        r == call_offense(s@, *t, style, i as int),
{
    assert(node_wf(*t, i as int, t.source_len as nat));
    if t.nodes[i].kind != kinds::CALL_NODE {
        return None;
    }
    let items = call_items_of(t, i);
    if items.len() == 0 || !(parenthesized_of(s, t, i) || is_index_of(t, i)) {
        return None;
    }
    let last = items[items.len() - 1];
    assert(node_wf(*t, last as int, t.source_len as nat));
    let begin = t.nodes[last].end;
    let (end, cls) = call_bounds_of(t, i);
    if begin > end {
        return None;
    }
    let els = elements_of_items(s, t, &items);
    let ml = !same_line_of(s, t.nodes[i].start, end) && !(els.len() == 1 && !begins_its_line_of(s, cls));
    let wants = if style == STYLE_COMMA {
        ml && apart_then_of(s, &els, cls)
    } else if style == STYLE_CONSISTENT_COMMA {
        ml && !name_and_args_on_one_line_of(s, t, i, &items, end)
    } else if style == STYLE_DIFF_COMMA {
        ml && comma_to_newline_of(s, begin, end)
    } else {
        false
    };
    assert(wants == wants_comma(s@, *t, style, i as int, items@));
    let h = any_heredoc_of(s, t, &items);
    match comma_offset(s, begin, end, h) {
        Some(cp) => {
            proof {
                assert forall|c: int| 0 <= c < t.comments@.len() implies #[trigger] t.comments@[c].0 <= s@.len() by {}
            }
            if !inside_comment_of(s, &t.comments, begin, cp) {
                if wants {
                    None
                } else {
                    Some(TrailingCommaInArgumentsOffense { start_offset: cp, end_offset: cp + 1, message:
                        avoid_message_of(style), fix: FIX_AVOID })
                }
            } else if wants {
                put_offense_of(s, t, last)
            } else {
                None
            }
        },
        None => if wants { put_offense_of(s, t, last) } else { None },
    }
}

/// Whatever the style, a comma after the last argument of a call that lies
/// on one line (from its start to its closing bracket), and not inside a
/// comment, is an offense whose fix removes it.
pub proof fn one_line_call_comma_is_offense(s: Seq<u8>, t: SyntaxTree, style: u8, i: int)
    requires
        tree_wf(t),
        t.source_len == s.len(),
        0 <= i < t.nodes@.len(),
        t.nodes@[i].kind == kinds::CALL_NODE,
        call_items(t, i).len() > 0,
        parenthesized(s, t, i) || is_index(t, i),
        t.nodes@[call_items(t, i).last() as int].end <= call_end(t, i),
        same_line(s, t.nodes@[i].start as int, call_end(t, i) as int),
        comma_from(s.subrange(t.nodes@[call_items(t, i).last() as int].end as int, call_end(t, i) as int), 0,
            any_heredoc(s, t, call_items(t, i))) is Some,
        !inside_comment(s, t.comments@, t.nodes@[call_items(t, i).last() as int].end as int,
            t.nodes@[call_items(t, i).last() as int].end + comma_from(s.subrange(t.nodes@[call_items(t, i).last() as int].end
            as int, call_end(t, i) as int), 0, any_heredoc(s, t, call_items(t, i)))->0),
    ensures
        call_offense(s, t, style, i) matches Some(o) && o.fix == FIX_AVOID && o.message == avoid_message(style)
            && o.end_offset == o.start_offset + 1,
{
    let begin = t.nodes@[call_items(t, i).last() as int].end;
    lemma_comma_bounds(s.subrange(begin as int, call_end(t, i) as int), 0, any_heredoc(s, t, call_items(t, i)));
    assert(!wants_comma(s, t, style, i, call_items(t, i)));
    assert(node_wf(t, i, t.source_len as nat));
    assert(call_end(t, i) <= s.len()) by {
        if let Some(crate::syntax::Field::Range(a, b)) = crate::syntax::access::field_at(t, i,
            kinds::CALL_NODE_CLOSING_LOC as int) {
            assert(crate::syntax::field_range_in(t.nodes@[i].fields@[kinds::CALL_NODE_CLOSING_LOC as int],
                t.source_len as nat));
        }
    }
}

/// Under `no_comma` the only offense of a call is a comma to remove.
pub proof fn no_comma_call_only_removes(s: Seq<u8>, t: SyntaxTree, i: int)
    ensures
        call_offense(s, t, STYLE_NO_COMMA, i) matches Some(o) ==> o.fix == FIX_AVOID && o.message
            == MSG_AVOID_NO_COMMA,
{
}

/// No comma is ever put after a block pass: when the last argument of a
/// call is `&blk`, its only offense is a comma to remove.
pub proof fn block_pass_gets_no_comma(s: Seq<u8>, t: SyntaxTree, style: u8, i: int)
    requires
        call_items(t, i).len() > 0,
        t.nodes@[call_items(t, i).last() as int].kind == kinds::BLOCK_ARGUMENT_NODE,
    ensures
        call_offense(s, t, style, i) matches Some(o) ==> o.fix == FIX_AVOID,
{
}

/// The comma found from `i` lies at or after `i`, inside `r`.
proof fn lemma_comma_bounds(r: Seq<u8>, i: int, h: bool)
    requires
        comma_from(r, i, h) is Some,
    ensures
        i <= comma_from(r, i, h)->0 < r.len(),
    decreases r.len() - i,
{
    if r[i] != 44u8 {
        lemma_comma_bounds(r, i + 1, h);
    }
}

} // verus!
