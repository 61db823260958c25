//! `Layout/SpaceAroundKeyword`: a missing space before or after a keyword.
//!
//! RuboCop checks, per construct, the keyword locations of the node (the
//! keyword itself, `do`/`then`, `else`, `end`, ...). A space is missing
//! *before* a keyword unless the byte before it is whitespace or one of
//! `(|{[;,*=`, or the keyword is preceded by an operator (an `and`/`or`,
//! `&&`/`||` or range ancestor, or an operator-method call, looking through
//! regular method calls). A space is missing *after* unless the byte after it
//! is whitespace or one of `;,#\)}].`, or it opens an accepted delimiter (`(`
//! after `break defined? next not rescue super yield`, `[` after `super
//! yield`), or it is followed by `&.`, or `super` is followed by `::`.
//!
//! A `do` / `then` is only checked when the keyword is really written; the
//! `end` of a `while`, `until`, `for` or block is only checked in its `do`
//! form, while the `end` of an `if`, `unless` and `begin` always is.

use vstd::prelude::*;
use crate::syntax::{SyntaxTree, tree_wf};
use crate::syntax::kinds;
use crate::syntax::access::{child, range, text, child_at, range_at, text_at};
use crate::syntax::flatten::{parse_tree, check_tree, tree_of};
use crate::syntax::walk::{walk, walk_events, Event, events_in, event_node};
use crate::rules::bytes::{ascii_ws, spec_ascii_ws, range_is, starts_with_at, vec_is};

verus! {

/// One missing space: the keyword range, and whether the space is missing
/// before it (else after it).
pub struct SpaceAroundKeywordOffense {
    pub start_offset: usize,
    pub end_offset: usize,
    pub before: bool,
}

/// How an ancestor bears on "preceded by an operator".
#[derive(Clone, Copy, PartialEq, Eq, Structural)]
pub enum Anc {
    /// `and` / `or` / `&&` / `||` or a range.
    OperatorOrRange,
    /// A call of an operator method.
    OperatorCall,
    /// A call of a regular method.
    RegularSend,
    /// Anything else.
    Other,
}

/// A space is missing before a keyword starting at `start`: the byte before
/// is neither whitespace nor one of `(|{[;,*=`.
pub open spec fn spec_space_before_missing(s: Seq<u8>, start: int) -> bool {
    0 < start <= s.len() && {
        let c = s[start - 1];
        !(spec_ascii_ws(c) || c == 40u8 || c == 124u8 || c == 123u8 || c == 91u8 || c == 59u8
            || c == 44u8 || c == 42u8 || c == 61u8)
    }
}

/// Keywords after which `(` is accepted.
pub open spec fn accepts_left_paren(kw: Seq<u8>) -> bool {
    kw == seq![98u8, 114u8, 101u8, 97u8, 107u8] || kw == seq![100u8, 101u8, 102u8, 105u8, 110u8, 101u8, 100u8, 63u8] || kw == seq![110u8, 101u8, 120u8, 116u8] || kw == seq![110u8, 111u8, 116u8]
        || kw == seq![114u8, 101u8, 115u8, 99u8, 117u8, 101u8] || kw == seq![115u8, 117u8, 112u8, 101u8, 114u8] || kw == seq![121u8, 105u8, 101u8, 108u8, 100u8]
}

/// Keywords after which `[` is accepted.
pub open spec fn accepts_left_bracket(kw: Seq<u8>) -> bool {
    kw == seq![115u8, 117u8, 112u8, 101u8, 114u8] || kw == seq![121u8, 105u8, 101u8, 108u8, 100u8]
}

/// `s[at..at + 2]` is `w`.
pub open spec fn two_at(s: Seq<u8>, at: int, w: Seq<u8>) -> bool {
    at + 2 <= s.len() && s.subrange(at, at + 2) == w
}

/// A space is missing after the keyword `s[start..end]`.
pub open spec fn spec_space_after_missing(s: Seq<u8>, start: int, end: int) -> bool {
    let kw = s.subrange(start, end);
    &&& end < s.len()
    &&& !(accepts_left_bracket(kw) && s[end] == 91u8)
    &&& !(accepts_left_paren(kw) && s[end] == 40u8)
    &&& !two_at(s, end, seq![38u8, 46u8])
    &&& !(kw == seq![115u8, 117u8, 112u8, 101u8, 114u8] && two_at(s, end, seq![58u8, 58u8]))
    &&& {
        let c = s[end];
        !(spec_ascii_ws(c) || c == 59u8 || c == 44u8 || c == 35u8 || c == 92u8 || c == 41u8
            || c == 125u8 || c == 93u8 || c == 46u8)
    }
}

/// An offense names a keyword range of `s` at which the reported space is
/// indeed missing.
pub open spec fn offense_ok(s: Seq<u8>, o: SpaceAroundKeywordOffense) -> bool {
    &&& o.start_offset <= o.end_offset <= s.len()
    &&& o.before ==> spec_space_before_missing(s, o.start_offset as int)
    &&& !o.before ==> spec_space_after_missing(s, o.start_offset as int, o.end_offset as int)
}

/// Every offense of `v` is sound for `s`.
pub open spec fn offenses_ok(s: Seq<u8>, v: Seq<SpaceAroundKeywordOffense>) -> bool {
    forall|k: int| 0 <= k < v.len() ==> offense_ok(s, #[trigger] v[k])
}

/// An offense's fields as plain values.
pub open spec fn offense_view(o: SpaceAroundKeywordOffense) -> (usize, usize, bool) {
    (o.start_offset, o.end_offset, o.before)
}

/// The offenses of `v` as plain values.
pub open spec fn views(v: Seq<SpaceAroundKeywordOffense>) -> Seq<(usize, usize, bool)> {
    v.map_values(|o: SpaceAroundKeywordOffense| offense_view(o))
}

/// A one-byte operator method name: `+ - * / % < > & | ^ ~ !` or backquote.
pub open spec fn one_byte_operator_name(b: u8) -> bool {
    b == 43u8 || b == 45u8 || b == 42u8 || b == 47u8 || b == 37u8 || b == 60u8 || b == 62u8 || b == 38u8 || b
        == 124u8 || b == 94u8 || b == 126u8 || b == 33u8 || b == 96u8
}

/// A two-byte operator method name: `** == != <= >= << >> =~ !~ [] +@ -@`.
pub open spec fn two_byte_operator_name(a: u8, b: u8) -> bool {
    (a == 42u8 && b == 42u8) || (a == 61u8 && b == 61u8) || (a == 33u8 && b == 61u8) || (a == 60u8 && b == 61u8)
        || (a == 62u8 && b == 61u8) || (a == 60u8 && b == 60u8) || (a == 62u8 && b == 62u8) || (a == 61u8 && b
        == 126u8) || (a == 33u8 && b == 126u8) || (a == 91u8 && b == 93u8) || (a == 43u8 && b == 64u8) || (a
        == 45u8 && b == 64u8)
}

/// A three-byte operator method name: `=== <=> []=`.
pub open spec fn three_byte_operator_name(a: u8, b: u8, c: u8) -> bool {
    (a == 61u8 && b == 61u8 && c == 61u8) || (a == 60u8 && b == 61u8 && c == 62u8) || (a == 91u8 && b == 93u8
        && c == 61u8)
}

/// The method name is an operator.
pub open spec fn operator_name(n: Seq<u8>) -> bool {
    (n.len() == 1 && one_byte_operator_name(n[0])) || (n.len() == 2 && two_byte_operator_name(n[0], n[1])) || (
    n.len() == 3 && three_byte_operator_name(n[0], n[1], n[2]))
}

/// How node `i` bears on "preceded by an operator".
pub open spec fn anc_of(t: SyntaxTree, i: int) -> Anc {
    let kind = t.nodes@[i].kind;
    if kind == kinds::AND_NODE || kind == kinds::OR_NODE || kind == kinds::RANGE_NODE {
        Anc::OperatorOrRange
    } else if kind == kinds::CALL_NODE {
        match text_at(t, i, kinds::CALL_NODE_NAME as int) {
            Some(n) => if operator_name(n) { Anc::OperatorCall } else { Anc::RegularSend },
            None => Anc::RegularSend,
        }
    } else {
        Anc::Other
    }
}

/// The nearest open ancestor that is not a regular method call is an
/// operator, a range or an operator-method call.
pub open spec fn preceded(anc: Seq<Anc>) -> bool
    decreases anc.len(),
{
    if anc.len() == 0 {
        false
    } else {
        match anc.last() {
            Anc::OperatorOrRange => true,
            Anc::OperatorCall => true,
            Anc::RegularSend => preceded(anc.drop_last()),
            Anc::Other => false,
        }
    }
}

/// The offenses of the keyword `[a, b)`: a missing space before it (unless
/// preceded by an operator), then a missing space after it.
pub open spec fn range_offs(s: Seq<u8>, anc: Seq<Anc>, a: int, b: int) -> Seq<(usize, usize, bool)> {
    (if spec_space_before_missing(s, a) && !preceded(anc) { seq![(a as usize, b as usize, true)] } else { Seq::empty() })
        + (if spec_space_after_missing(s, a, b) { seq![(a as usize, b as usize, false)] } else { Seq::empty() })
}

/// The offenses of the keyword in field `f` of node `i`, when present.
pub open spec fn kw_offs(s: Seq<u8>, t: SyntaxTree, anc: Seq<Anc>, i: int, f: int) -> Seq<(usize, usize, bool)> {
    match range_at(t, i, f) {
        Some((a, b)) => range_offs(s, anc, a as int, b as int),
        None => Seq::empty(),
    }
}

/// The offense of the `end` in field `f` of node `i`: a missing space before
/// it; none for a `do` construct not written in its `do` form.
pub open spec fn end_offs(s: Seq<u8>, t: SyntaxTree, i: int, f: int, begin_do: bool, do_form: bool) -> Seq<(
    usize,
    usize,
    bool,
)> {
    if begin_do && !do_form {
        Seq::empty()
    } else {
        match range_at(t, i, f) {
            Some((a, b)) => if spec_space_before_missing(s, a as int) { seq![(a, b, true)] } else { Seq::empty() },
            None => Seq::empty(),
        }
    }
}

/// The range in field `f` of node `i` is present and spells `w`.
pub open spec fn field_spells(s: Seq<u8>, t: SyntaxTree, i: int, f: int, w: Seq<u8>) -> bool {
    match range_at(t, i, f) {
        Some((a, b)) => s.subrange(a as int, b as int) == w,
        None => false,
    }
}

/// `else`.
pub open spec fn else_word() -> Seq<u8> {
    seq![101u8, 108u8, 115u8, 101u8]
}

/// The offenses of a written `else` in field `f` of node `i`.
pub open spec fn else_offs(s: Seq<u8>, t: SyntaxTree, anc: Seq<Anc>, i: int, f: int) -> Seq<(usize, usize, bool)> {
    if field_spells(s, t, i, f, else_word()) { kw_offs(s, t, anc, i, f) } else { Seq::empty() }
}

/// The offenses of the clause in field `f` of node `i`: its keyword in field
/// `kwf`, a written `else` when `is_else`.
pub open spec fn clause_offs(s: Seq<u8>, t: SyntaxTree, anc: Seq<Anc>, i: int, f: int, kwf: int, is_else: bool) -> Seq<
    (usize, usize, bool),
> {
    match child_at(t, i, f) {
        Some(c) => if is_else { else_offs(s, t, anc, c as int, kwf) } else { kw_offs(s, t, anc, c as int, kwf) },
        None => Seq::empty(),
    }
}

/// The offenses of an `if` or `unless`: its keyword, a written `then`, and
/// its `end`.
pub open spec fn if_offs(s: Seq<u8>, t: SyntaxTree, anc: Seq<Anc>, i: int, kw: int, then_kw: int, end_kw: int) -> Seq<
    (usize, usize, bool),
> {
    kw_offs(s, t, anc, i, kw) + (if field_spells(s, t, i, then_kw, seq![116u8, 104u8, 101u8, 110u8]) {
        kw_offs(s, t, anc, i, then_kw)
    } else {
        Seq::empty()
    }) + end_offs(s, t, i, end_kw, false, false)
}

/// The offenses of a `while`, `until` or `for`: its keyword, a written `do`,
/// and its `end` in the `do` form.
pub open spec fn loop_offs(s: Seq<u8>, t: SyntaxTree, anc: Seq<Anc>, i: int, kw: Option<usize>, do_kw: int, end_kw: int)
    -> Seq<(usize, usize, bool)> {
    (match kw {
        Some(k) => kw_offs(s, t, anc, i, k as int),
        None => Seq::empty(),
    }) + (if field_spells(s, t, i, do_kw, seq![100u8, 111u8]) { kw_offs(s, t, anc, i, do_kw) } else { Seq::empty() })
        + end_offs(s, t, i, end_kw, true, range_at(t, i, do_kw) is Some)
}

/// Call `i` is a prefix `not expr`.
pub open spec fn is_not_call(s: Seq<u8>, t: SyntaxTree, i: int) -> bool {
    &&& text_at(t, i, kinds::CALL_NODE_NAME as int) == Some(seq![33u8])
    &&& child_at(t, i, kinds::CALL_NODE_RECEIVER as int) is Some
    &&& range_at(t, i, kinds::CALL_NODE_OPENING_LOC as int) is None
    &&& field_spells(s, t, i, kinds::CALL_NODE_MESSAGE_LOC as int, seq![110u8, 111u8, 116u8])
}

/// The offenses of the keywords of node `i` when the walk enters it, with
/// the open ancestors `anc`.
pub open spec fn enter_offs(s: Seq<u8>, t: SyntaxTree, anc: Seq<Anc>, i: int) -> Seq<(usize, usize, bool)> {
    let kind = t.nodes@[i].kind;
    if kind == kinds::IF_NODE {
        if_offs(s, t, anc, i, kinds::IF_NODE_IF_KEYWORD_LOC as int, kinds::IF_NODE_THEN_KEYWORD_LOC as int, kinds::IF_NODE_END_KEYWORD_LOC as int)
    } else if kind == kinds::UNLESS_NODE {
        if_offs(s, t, anc, i, kinds::UNLESS_NODE_UNLESS_KEYWORD_LOC as int, kinds::UNLESS_NODE_THEN_KEYWORD_LOC as int, kinds::UNLESS_NODE_END_KEYWORD_LOC as int)
    } else if kind == kinds::WHILE_NODE {
        loop_offs(s, t, anc, i, Some(kinds::WHILE_NODE_WHILE_KEYWORD_LOC), kinds::WHILE_NODE_DO_KEYWORD_LOC as int, kinds::WHILE_NODE_END_KEYWORD_LOC as int)
    } else if kind == kinds::UNTIL_NODE {
        loop_offs(s, t, anc, i, Some(kinds::UNTIL_NODE_UNTIL_KEYWORD_LOC), kinds::UNTIL_NODE_DO_KEYWORD_LOC as int, kinds::UNTIL_NODE_END_KEYWORD_LOC as int)
    } else if kind == kinds::BLOCK_NODE {
        let do_form = field_spells(s, t, i, kinds::BLOCK_NODE_OPENING_LOC as int, seq![100u8, 111u8]);
        (if do_form { kw_offs(s, t, anc, i, kinds::BLOCK_NODE_OPENING_LOC as int) } else { Seq::empty() }) + end_offs(s,
            t, i, kinds::BLOCK_NODE_CLOSING_LOC as int, true, do_form)
    } else if kind == kinds::FOR_NODE {
        loop_offs(s, t, anc, i, None, kinds::FOR_NODE_DO_KEYWORD_LOC as int, kinds::FOR_NODE_END_KEYWORD_LOC as int)
    } else if kind == kinds::BEGIN_NODE {
        (if range_at(t, i, kinds::BEGIN_NODE_BEGIN_KEYWORD_LOC as int) is Some && range_at(t, i,
            kinds::BEGIN_NODE_END_KEYWORD_LOC as int) is Some {
            kw_offs(s, t, anc, i, kinds::BEGIN_NODE_BEGIN_KEYWORD_LOC as int) + end_offs(s, t, i,
                kinds::BEGIN_NODE_END_KEYWORD_LOC as int, false, false)
        } else {
            Seq::empty()
        }) + clause_offs(s, t, anc, i, kinds::BEGIN_NODE_ELSE_CLAUSE as int, kinds::ELSE_NODE_ELSE_KEYWORD_LOC as int, true)
            + clause_offs(s, t, anc, i, kinds::BEGIN_NODE_ENSURE_CLAUSE as int, kinds::ENSURE_NODE_ENSURE_KEYWORD_LOC as int, false)
    } else if kind == kinds::CASE_NODE {
        kw_offs(s, t, anc, i, kinds::CASE_NODE_CASE_KEYWORD_LOC as int) + clause_offs(s, t, anc, i,
            kinds::CASE_NODE_ELSE_CLAUSE as int, kinds::ELSE_NODE_ELSE_KEYWORD_LOC as int, true)
    } else if kind == kinds::CASE_MATCH_NODE {
        kw_offs(s, t, anc, i, kinds::CASE_MATCH_NODE_CASE_KEYWORD_LOC as int) + clause_offs(s, t, anc, i,
            kinds::CASE_MATCH_NODE_ELSE_CLAUSE as int, kinds::ELSE_NODE_ELSE_KEYWORD_LOC as int, true)
    } else if kind == kinds::ELSE_NODE {
        else_offs(s, t, anc, i, kinds::ELSE_NODE_ELSE_KEYWORD_LOC as int)
    } else if kind == kinds::WHEN_NODE {
        kw_offs(s, t, anc, i, kinds::WHEN_NODE_WHEN_KEYWORD_LOC as int)
    } else if kind == kinds::IN_NODE {
        kw_offs(s, t, anc, i, kinds::IN_NODE_IN_KEYWORD_LOC as int)
    } else if kind == kinds::MATCH_PREDICATE_NODE {
        kw_offs(s, t, anc, i, kinds::MATCH_PREDICATE_NODE_KEYWORD_LOC as int)
    } else if kind == kinds::RESCUE_MODIFIER_NODE {
        kw_offs(s, t, anc, i, kinds::RESCUE_MODIFIER_NODE_KEYWORD_LOC as int)
    } else if kind == kinds::PRE_EXECUTION_NODE {
        kw_offs(s, t, anc, i, kinds::PRE_EXECUTION_NODE_KEYWORD_LOC as int)
    } else if kind == kinds::POST_EXECUTION_NODE {
        kw_offs(s, t, anc, i, kinds::POST_EXECUTION_NODE_KEYWORD_LOC as int)
    } else if kind == kinds::SUPER_NODE {
        kw_offs(s, t, anc, i, kinds::SUPER_NODE_KEYWORD_LOC as int)
    } else if kind == kinds::FORWARDING_SUPER_NODE {
        let st = t.nodes@[i].start as int;
        if st <= s.len() && s.len() - st >= 5 { range_offs(s, anc, st, st + 5) } else { Seq::empty() }
    } else if kind == kinds::YIELD_NODE {
        kw_offs(s, t, anc, i, kinds::YIELD_NODE_KEYWORD_LOC as int)
    } else if kind == kinds::RETURN_NODE {
        kw_offs(s, t, anc, i, kinds::RETURN_NODE_KEYWORD_LOC as int)
    } else if kind == kinds::BREAK_NODE {
        kw_offs(s, t, anc, i, kinds::BREAK_NODE_KEYWORD_LOC as int)
    } else if kind == kinds::NEXT_NODE {
        kw_offs(s, t, anc, i, kinds::NEXT_NODE_KEYWORD_LOC as int)
    } else if kind == kinds::DEFINED_NODE {
        kw_offs(s, t, anc, i, kinds::DEFINED_NODE_KEYWORD_LOC as int)
    } else if kind == kinds::AND_NODE {
        if field_spells(s, t, i, kinds::AND_NODE_OPERATOR_LOC as int, seq![97u8, 110u8, 100u8]) {
            kw_offs(s, t, anc, i, kinds::AND_NODE_OPERATOR_LOC as int)
        } else {
            Seq::empty()
        }
    } else if kind == kinds::OR_NODE {
        if field_spells(s, t, i, kinds::OR_NODE_OPERATOR_LOC as int, seq![111u8, 114u8]) {
            kw_offs(s, t, anc, i, kinds::OR_NODE_OPERATOR_LOC as int)
        } else {
            Seq::empty()
        }
    } else if kind == kinds::CALL_NODE {
        if is_not_call(s, t, i) { kw_offs(s, t, anc, i, kinds::CALL_NODE_MESSAGE_LOC as int) } else { Seq::empty() }
    } else {
        Seq::empty()
    }
}

/// The offenses of a rescue clause entered through a typed field: its
/// `rescue` keyword.
pub open spec fn rescue_offs(s: Seq<u8>, t: SyntaxTree, anc: Seq<Anc>, i: int) -> Seq<(usize, usize, bool)> {
    if t.nodes@[i].kind == kinds::RESCUE_NODE { kw_offs(s, t, anc, i, kinds::RESCUE_NODE_KEYWORD_LOC as int) } else { Seq::empty() }
}

/// The offenses and open ancestors after the first `k` events: entering a
/// node checks its keywords and opens it; leaving closes the innermost.
pub open spec fn kw_run(s: Seq<u8>, t: SyntaxTree, evs: Seq<Event>, k: int) -> (Seq<(usize, usize, bool)>, Seq<Anc>)
    decreases k,
{
    if k <= 0 {
        (Seq::empty(), Seq::empty())
    } else {
        let (offs, anc) = kw_run(s, t, evs, k - 1);
        match evs[k - 1] {
            Event::Enter(i) => if i < t.nodes@.len() {
                (offs + enter_offs(s, t, anc, i as int), anc.push(anc_of(t, i as int)))
            } else {
                (offs, anc)
            },
            Event::EnterRescue(i) => if i < t.nodes@.len() {
                (offs + rescue_offs(s, t, anc, i as int), anc.push(anc_of(t, i as int)))
            } else {
                (offs, anc)
            },
            Event::Leave(_) => (offs, if anc.len() > 0 { anc.drop_last() } else { anc }),
            Event::LeaveRescue(_) => (offs, if anc.len() > 0 { anc.drop_last() } else { anc }),
            Event::Leaf(_) => (offs, anc),
        }
    }
}

/// The missing spaces around keywords in `source`.
pub fn check_space_around_keyword(source: &[u8]) -> (r: Vec<SpaceAroundKeywordOffense>)
    ensures
        offenses_ok(source@, r@),
        exists|t: SyntaxTree| #[trigger] tree_of(t, source@) && (if tree_wf(t) {
            views(r@) == kw_run(source@, t, walk_events(t), walk_events(t).len() as int).0
        } else {
            r@.len() == 0
        }),
{
    let t = parse_tree(source);
    if !check_tree(&t) {
        assert(tree_of(t, source@));
        return Vec::new();
    }
    let r = space_around_keyword_offenses(source, &t);
    assert(tree_of(t, source@));
    r
}

/// The missing spaces around the keywords of the parsed `source`.
pub fn space_around_keyword_offenses(source: &[u8], t: &SyntaxTree) -> (r: Vec<SpaceAroundKeywordOffense>)
    requires
        tree_wf(*t),
        t.source_len == source@.len(),
    ensures
        offenses_ok(source@, r@),
        views(r@) == kw_run(source@, *t, walk_events(*t), walk_events(*t).len() as int).0,
{
    let evs = walk(t);
    let mut v = Visitor { source, offenses: Vec::new(), ancestors: Vec::new() };
    let mut k: usize = 0;
    while k < evs.len()
        invariant
            tree_wf(*t),
            t.source_len == source@.len(),
            v.source@ == source@,
            offenses_ok(source@, v.offenses@),
            events_in(evs@, t.nodes@.len() as nat),
            k <= evs@.len(),
            (views(v.offenses@), v.ancestors@) == kw_run(source@, *t, evs@, k as int),
        decreases evs.len() - k,
    {
        assert(event_node(evs@[k as int]) < t.nodes@.len());
        match evs[k] {
            Event::Enter(i) => v.enter(t, i),
            Event::Leave(_) => v.leave(),
            Event::EnterRescue(i) => v.enter_rescue(t, i),
            Event::LeaveRescue(_) => v.leave(),
            Event::Leaf(_) => {},
        }
        k += 1;
    }
    v.offenses
}

/// The walk state.
struct Visitor<'a> {
    source: &'a [u8],
    offenses: Vec<SpaceAroundKeywordOffense>,
    /// The classification of every open ancestor, innermost last.
    ancestors: Vec<Anc>,
}

/// Whether a call's method name is an operator ([`operator_name`]).
pub fn is_operator_name(n: &Vec<u8>) -> (r: bool)
    ensures
        r == operator_name(n@),
{
    if n.len() == 1 {
        let b = n[0];
        b == 43u8 || b == 45u8 || b == 42u8 || b == 47u8 || b == 37u8 || b == 60u8 || b == 62u8 || b == 38u8 || b
            == 124u8 || b == 94u8 || b == 126u8 || b == 33u8 || b == 96u8
    } else if n.len() == 2 {
        let a = n[0];
        let b = n[1];
        (a == 42u8 && b == 42u8) || (a == 61u8 && b == 61u8) || (a == 33u8 && b == 61u8) || (a == 60u8 && b == 61u8)
            || (a == 62u8 && b == 61u8) || (a == 60u8 && b == 60u8) || (a == 62u8 && b == 62u8) || (a == 61u8 && b
            == 126u8) || (a == 33u8 && b == 126u8) || (a == 91u8 && b == 93u8) || (a == 43u8 && b == 64u8) || (a
            == 45u8 && b == 64u8)
    } else if n.len() == 3 {
        let a = n[0];
        let b = n[1];
        let c = n[2];
        (a == 61u8 && b == 61u8 && c == 61u8) || (a == 60u8 && b == 61u8 && c == 62u8) || (a == 91u8 && b == 93u8
            && c == 61u8)
    } else {
        false
    }
}

impl<'a> Visitor<'a> {
    /// The classification of node `i` for "preceded by an operator".
    fn classify(t: &SyntaxTree, i: usize) -> (r: Anc)
        requires
            tree_wf(*t),
            i < t.nodes@.len(),
        ensures
            r == anc_of(*t, i as int),
    {
        let kind = t.nodes[i].kind;
        if kind == kinds::AND_NODE || kind == kinds::OR_NODE || kind == kinds::RANGE_NODE {
            Anc::OperatorOrRange
        } else if kind == kinds::CALL_NODE {
            match text(t, i, kinds::CALL_NODE_NAME) {
                Some(n) => if is_operator_name(n) { Anc::OperatorCall } else { Anc::RegularSend },
                None => Anc::RegularSend,
            }
        } else {
            Anc::Other
        }
    }

    /// `preceded_by_operator?`: the nearest ancestor that is not a regular
    /// method call is an operator, a range or an operator-method call.
    fn preceded_by_operator(&self) -> (r: bool)
        ensures
            r == preceded(self.ancestors@),
    {
        let mut k = self.ancestors.len();
        assert(self.ancestors@.subrange(0, k as int) =~= self.ancestors@);
        while k > 0
            invariant
                k <= self.ancestors@.len(),
                preceded(self.ancestors@.subrange(0, k as int)) == preceded(self.ancestors@),
            decreases k,
        {
            let ghost sub = self.ancestors@.subrange(0, k as int);
            assert(sub.last() == self.ancestors@[k - 1]);
            assert(sub.drop_last() =~= self.ancestors@.subrange(0, k - 1));
            k -= 1;
            match self.ancestors[k] {
                Anc::OperatorOrRange => return true,
                Anc::OperatorCall => return true,
                Anc::RegularSend => {},
                Anc::Other => return false,
            }
        }
        false
    }

    fn space_before_missing(&self, start: usize) -> (r: bool)
        requires
            start <= self.source@.len(),
        ensures
            r == spec_space_before_missing(self.source@, start as int),
    {
        if start == 0 {
            return false;
        }
        let c = self.source[start - 1];
        !(ascii_ws(c) || c == 40 || c == 124 || c == 123 || c == 91 || c == 59 || c == 44 || c == 42 || c == 61)
    }

    fn space_after_missing(&self, start: usize, end: usize) -> (r: bool)
        requires
            start <= end <= self.source@.len(),
        ensures
            r == spec_space_after_missing(self.source@, start as int, end as int),
    {
        let s = self.source;
        if end >= s.len() {
            return false;
        }
        let c = s[end];
        let sq = range_is(s, start, end, &[115u8, 117u8, 112u8, 101u8, 114u8]) || range_is(s, start, end, &[121u8, 105u8, 101u8, 108u8, 100u8]);
        let par = range_is(s, start, end, &[98u8, 114u8, 101u8, 97u8, 107u8]) || range_is(s, start, end, &[100u8, 101u8, 102u8, 105u8, 110u8, 101u8, 100u8, 63u8])
            || range_is(s, start, end, &[110u8, 101u8, 120u8, 116u8]) || range_is(s, start, end, &[110u8, 111u8, 116u8])
            || range_is(s, start, end, &[114u8, 101u8, 115u8, 99u8, 117u8, 101u8]) || range_is(s, start, end, &[115u8, 117u8, 112u8, 101u8, 114u8])
            || range_is(s, start, end, &[121u8, 105u8, 101u8, 108u8, 100u8]);
        if (sq && c == 91) || (par && c == 40) {
            return false;
        }
        if starts_with_at(s, end, &[38u8, 46u8]) {
            return false;
        }
        if range_is(s, start, end, &[115u8, 117u8, 112u8, 101u8, 114u8]) && starts_with_at(s, end, &[58u8, 58u8]) {
            return false;
        }
        !(ascii_ws(c) || c == 59 || c == 44 || c == 35 || c == 92 || c == 41 || c == 125 || c == 93 || c == 46)
    }

    /// `check_keyword` on `[start, end)` ([`range_offs`]).
    fn check_keyword_range(&mut self, start: usize, end: usize)
        requires
            start <= end <= old(self).source@.len(),
            offenses_ok(old(self).source@, old(self).offenses@),
        ensures
            final(self).source == old(self).source,
            final(self).ancestors == old(self).ancestors,
            offenses_ok(final(self).source@, final(self).offenses@),
            views(final(self).offenses@) == views(old(self).offenses@) + range_offs(old(self).source@,
                old(self).ancestors@, start as int, end as int),
    {
        let ghost v0 = self.offenses@;
        let before = self.space_before_missing(start) && !self.preceded_by_operator();
        if before {
            self.offenses.push(SpaceAroundKeywordOffense { start_offset: start, end_offset: end, before: true });
        }
        let ghost v1 = self.offenses@;
        let after = self.space_after_missing(start, end);
        if after {
            self.offenses.push(SpaceAroundKeywordOffense { start_offset: start, end_offset: end, before: false });
        }
        proof {
            let x: Seq<(usize, usize, bool)> = if before { seq![(start, end, true)] } else { Seq::empty() };
            let y: Seq<(usize, usize, bool)> = if after { seq![(start, end, false)] } else { Seq::empty() };
            assert(views(v1) =~= views(v0) + x);
            assert(views(self.offenses@) =~= views(v1) + y);
            assert(views(self.offenses@) =~= views(v0) + (x + y));
        }
    }

    /// `check_keyword` on the range in field `f` of node `i`, when present
    /// ([`kw_offs`]).
    fn check_keyword(&mut self, t: &SyntaxTree, i: usize, f: usize)
        requires
            tree_wf(*t),
            t.source_len == old(self).source@.len(),
            i < t.nodes@.len(),
            offenses_ok(old(self).source@, old(self).offenses@),
        ensures
            final(self).source == old(self).source,
            final(self).ancestors == old(self).ancestors,
            offenses_ok(final(self).source@, final(self).offenses@),
            views(final(self).offenses@) == views(old(self).offenses@) + kw_offs(old(self).source@, *t,
                old(self).ancestors@, i as int, f as int),
    {
        if let Some((s, e)) = range(t, i, f) {
            self.check_keyword_range(s, e);
        } else {
            assert(views(self.offenses@) + kw_offs(self.source@, *t, self.ancestors@, i as int, f as int)
                =~= views(self.offenses@));
        }
    }

    /// `check_end`: the space before an `end`; skipped for a construct whose
    /// begin keyword is `do` when it is not written in its `do` form
    /// ([`end_offs`]).
    fn check_end(&mut self, t: &SyntaxTree, i: usize, f: usize, begin_keyword_is_do: bool, do_form: bool)
        requires
            tree_wf(*t),
            t.source_len == old(self).source@.len(),
            i < t.nodes@.len(),
            offenses_ok(old(self).source@, old(self).offenses@),
        ensures
            final(self).source == old(self).source,
            final(self).ancestors == old(self).ancestors,
            offenses_ok(final(self).source@, final(self).offenses@),
            views(final(self).offenses@) == views(old(self).offenses@) + end_offs(old(self).source@, *t, i as int,
                f as int, begin_keyword_is_do, do_form),
    {
        let ghost v0 = self.offenses@;
        if begin_keyword_is_do && !do_form {
            assert(views(v0) + end_offs(self.source@, *t, i as int, f as int, begin_keyword_is_do, do_form) =~= views(v0));
            return;
        }
        if let Some((s, e)) = range(t, i, f) {
            if self.space_before_missing(s) {
                self.offenses.push(SpaceAroundKeywordOffense { start_offset: s, end_offset: e, before: true });
                assert(views(self.offenses@) =~= views(v0) + seq![(s, e, true)]);
            } else {
                assert(views(v0) + end_offs(self.source@, *t, i as int, f as int, begin_keyword_is_do, do_form) =~= views(v0));
            }
        } else {
            assert(views(v0) + end_offs(self.source@, *t, i as int, f as int, begin_keyword_is_do, do_form) =~= views(v0));
        }
    }

    /// Whether the range in field `f` of node `i` is present and spells `w`
    /// ([`field_spells`]).
    fn field_is(&self, t: &SyntaxTree, i: usize, f: usize, w: &[u8]) -> (r: bool)
        requires
            tree_wf(*t),
            t.source_len == self.source@.len(),
            i < t.nodes@.len(),
        ensures
            r == field_spells(self.source@, *t, i as int, f as int, w@),
    {
        match range(t, i, f) {
            Some((s, e)) => range_is(self.source, s, e, w),
            None => false,
        }
    }

    /// `on_else`: only a written `else` (a ternary's `:` is not one)
    /// ([`else_offs`]).
    fn on_else(&mut self, t: &SyntaxTree, i: usize, f: usize)
        requires
            tree_wf(*t),
            t.source_len == old(self).source@.len(),
            i < t.nodes@.len(),
            offenses_ok(old(self).source@, old(self).offenses@),
        ensures
            final(self).source == old(self).source,
            final(self).ancestors == old(self).ancestors,
            offenses_ok(final(self).source@, final(self).offenses@),
            views(final(self).offenses@) == views(old(self).offenses@) + else_offs(old(self).source@, *t,
                old(self).ancestors@, i as int, f as int),
    {
        let w: [u8; 4] = [101u8, 108u8, 115u8, 101u8];
        assert(w@ =~= else_word());
        if self.field_is(t, i, f, &w) {
            self.check_keyword(t, i, f);
        } else {
            assert(views(self.offenses@) + else_offs(self.source@, *t, self.ancestors@, i as int, f as int)
                =~= views(self.offenses@));
        }
    }

    /// The `else` / `ensure` clause of a `begin`, `case` or `unless`, reached
    /// through a typed field ([`clause_offs`]).
    fn clause_keyword(&mut self, t: &SyntaxTree, i: usize, f: usize, kw_field: usize, is_else: bool)
        requires
            tree_wf(*t),
            t.source_len == old(self).source@.len(),
            i < t.nodes@.len(),
            offenses_ok(old(self).source@, old(self).offenses@),
        ensures
            final(self).source == old(self).source,
            final(self).ancestors == old(self).ancestors,
            offenses_ok(final(self).source@, final(self).offenses@),
            views(final(self).offenses@) == views(old(self).offenses@) + clause_offs(old(self).source@, *t,
                old(self).ancestors@, i as int, f as int, kw_field as int, is_else),
    {
        if let Some(c) = child(t, i, f) {
            if is_else {
                self.on_else(t, c, kw_field);
            } else {
                self.check_keyword(t, c, kw_field);
            }
        } else {
            assert(views(self.offenses@) + clause_offs(self.source@, *t, self.ancestors@, i as int, f as int,
                kw_field as int, is_else) =~= views(self.offenses@));
        }
    }

    /// `on_if`: keyword, a written `then`, and `end` (always checked)
    /// ([`if_offs`]).
    fn on_if(&mut self, t: &SyntaxTree, i: usize, kw: usize, then_kw: usize, end_kw: usize)
        requires
            tree_wf(*t),
            t.source_len == old(self).source@.len(),
            i < t.nodes@.len(),
            offenses_ok(old(self).source@, old(self).offenses@),
        ensures
            final(self).source == old(self).source,
            final(self).ancestors == old(self).ancestors,
            offenses_ok(final(self).source@, final(self).offenses@),
            views(final(self).offenses@) == views(old(self).offenses@) + if_offs(old(self).source@, *t,
                old(self).ancestors@, i as int, kw as int, then_kw as int, end_kw as int),
    {
        let ghost v0 = views(self.offenses@);
        let ghost s = self.source@;
        let ghost anc = self.ancestors@;
        self.check_keyword(t, i, kw);
        let ghost v1 = views(self.offenses@);
        let w: [u8; 4] = [116u8, 104u8, 101u8, 110u8];
        assert(w@ =~= seq![116u8, 104u8, 101u8, 110u8]);
        if self.field_is(t, i, then_kw, &w) {
            self.check_keyword(t, i, then_kw);
        }
        let ghost v2 = views(self.offenses@);
        self.check_end(t, i, end_kw, false, false);
        proof {
            let a = kw_offs(s, *t, anc, i as int, kw as int);
            let b: Seq<(usize, usize, bool)> = if field_spells(s, *t, i as int, then_kw as int, seq![116u8, 104u8, 101u8, 110u8]) {
                kw_offs(s, *t, anc, i as int, then_kw as int)
            } else {
                Seq::empty()
            };
            let c = end_offs(s, *t, i as int, end_kw as int, false, false);
            assert(v1 == v0 + a);
            assert(v2 =~= v1 + b);
            assert(views(self.offenses@) == v2 + c);
            assert(views(self.offenses@) =~= v0 + (a + b + c));
        }
    }

    /// `on_while` / `on_until` / `on_for`: keyword, a written `do`, and `end`
    /// in the `do` form ([`loop_offs`]).
    fn on_loop(&mut self, t: &SyntaxTree, i: usize, kw: Option<usize>, do_kw: usize, end_kw: usize)
        requires
            tree_wf(*t),
            t.source_len == old(self).source@.len(),
            i < t.nodes@.len(),
            offenses_ok(old(self).source@, old(self).offenses@),
        ensures
            final(self).source == old(self).source,
            final(self).ancestors == old(self).ancestors,
            offenses_ok(final(self).source@, final(self).offenses@),
            views(final(self).offenses@) == views(old(self).offenses@) + loop_offs(old(self).source@, *t,
                old(self).ancestors@, i as int, kw, do_kw as int, end_kw as int),
    {
        let ghost v0 = views(self.offenses@);
        let ghost s = self.source@;
        let ghost anc = self.ancestors@;
        if let Some(k) = kw {
            self.check_keyword(t, i, k);
        }
        let ghost v1 = views(self.offenses@);
        let do_form = range(t, i, do_kw).is_some();
        let w: [u8; 2] = [100u8, 111u8];
        assert(w@ =~= seq![100u8, 111u8]);
        if self.field_is(t, i, do_kw, &w) {
            self.check_keyword(t, i, do_kw);
        }
        let ghost v2 = views(self.offenses@);
        self.check_end(t, i, end_kw, true, do_form);
        proof {
            let a: Seq<(usize, usize, bool)> = match kw {
                Some(k) => kw_offs(s, *t, anc, i as int, k as int),
                None => Seq::empty(),
            };
            let b: Seq<(usize, usize, bool)> = if field_spells(s, *t, i as int, do_kw as int, seq![100u8, 111u8]) {
                kw_offs(s, *t, anc, i as int, do_kw as int)
            } else {
                Seq::empty()
            };
            let c = end_offs(s, *t, i as int, end_kw as int, true, range_at(*t, i as int, do_kw as int) is Some);
            assert(v1 =~= v0 + a);
            assert(v2 =~= v1 + b);
            assert(views(self.offenses@) == v2 + c);
            assert(views(self.offenses@) =~= v0 + (a + b + c));
        }
    }

    /// `enter`: the keyword checks of node `i`, then `i` becomes an ancestor
    /// ([`enter_offs`], [`anc_of`]).
    #[verifier::rlimit(100)]
    #[verifier::spinoff_prover]
    fn enter(&mut self, t: &SyntaxTree, i: usize)
        requires
            tree_wf(*t),
            t.source_len == old(self).source@.len(),
            i < t.nodes@.len(),
            offenses_ok(old(self).source@, old(self).offenses@),
        ensures
            final(self).source == old(self).source,
            offenses_ok(final(self).source@, final(self).offenses@),
            views(final(self).offenses@) == views(old(self).offenses@) + enter_offs(old(self).source@, *t,
                old(self).ancestors@, i as int),
            final(self).ancestors@ == old(self).ancestors@.push(anc_of(*t, i as int)),
    {
        let ghost v0 = views(self.offenses@);
        let ghost s = self.source@;
        let ghost anc = self.ancestors@;
        let kind = t.nodes[i].kind;
        if kind == kinds::IF_NODE {
            self.on_if(t, i, kinds::IF_NODE_IF_KEYWORD_LOC, kinds::IF_NODE_THEN_KEYWORD_LOC, kinds::IF_NODE_END_KEYWORD_LOC);
        } else if kind == kinds::UNLESS_NODE {
            self.on_if(t, i, kinds::UNLESS_NODE_UNLESS_KEYWORD_LOC, kinds::UNLESS_NODE_THEN_KEYWORD_LOC, kinds::UNLESS_NODE_END_KEYWORD_LOC);
        } else if kind == kinds::WHILE_NODE {
            self.on_loop(t, i, Some(kinds::WHILE_NODE_WHILE_KEYWORD_LOC), kinds::WHILE_NODE_DO_KEYWORD_LOC, kinds::WHILE_NODE_END_KEYWORD_LOC);
        } else if kind == kinds::UNTIL_NODE {
            self.on_loop(t, i, Some(kinds::UNTIL_NODE_UNTIL_KEYWORD_LOC), kinds::UNTIL_NODE_DO_KEYWORD_LOC, kinds::UNTIL_NODE_END_KEYWORD_LOC);
        } else if kind == kinds::BLOCK_NODE {
            // `on_block`: `do` form when the opening is the `do` keyword.
            let w: [u8; 2] = [100u8, 111u8];
            assert(w@ =~= seq![100u8, 111u8]);
            let do_form = self.field_is(t, i, kinds::BLOCK_NODE_OPENING_LOC, &w);
            if do_form {
                self.check_keyword(t, i, kinds::BLOCK_NODE_OPENING_LOC);
            }
            let ghost v1 = views(self.offenses@);
            self.check_end(t, i, kinds::BLOCK_NODE_CLOSING_LOC, true, do_form);
            proof {
                let a: Seq<(usize, usize, bool)> = if do_form {
                    kw_offs(s, *t, anc, i as int, kinds::BLOCK_NODE_OPENING_LOC as int)
                } else {
                    Seq::empty()
                };
                assert(v1 =~= v0 + a);
                assert(views(self.offenses@) =~= v0 + (a + end_offs(s, *t, i as int, kinds::BLOCK_NODE_CLOSING_LOC as int,
                    true, do_form)));
            }
        } else if kind == kinds::FOR_NODE {
            self.on_loop(t, i, None, kinds::FOR_NODE_DO_KEYWORD_LOC, kinds::FOR_NODE_END_KEYWORD_LOC);
        } else if kind == kinds::BEGIN_NODE {
            // `on_kwbegin` only for an explicit `begin ... end`.
            let explicit = range(t, i, kinds::BEGIN_NODE_BEGIN_KEYWORD_LOC).is_some()
                && range(t, i, kinds::BEGIN_NODE_END_KEYWORD_LOC).is_some();
            if explicit {
                self.check_keyword(t, i, kinds::BEGIN_NODE_BEGIN_KEYWORD_LOC);
                let ghost va = views(self.offenses@);
                self.check_end(t, i, kinds::BEGIN_NODE_END_KEYWORD_LOC, false, false);
                assert(views(self.offenses@) =~= v0 + (kw_offs(s, *t, anc, i as int, kinds::BEGIN_NODE_BEGIN_KEYWORD_LOC as int)
                    + end_offs(s, *t, i as int, kinds::BEGIN_NODE_END_KEYWORD_LOC as int, false, false)));
            }
            let ghost v1 = views(self.offenses@);
            self.clause_keyword(t, i, kinds::BEGIN_NODE_ELSE_CLAUSE, kinds::ELSE_NODE_ELSE_KEYWORD_LOC, true);
            let ghost v2 = views(self.offenses@);
            self.clause_keyword(t, i, kinds::BEGIN_NODE_ENSURE_CLAUSE, kinds::ENSURE_NODE_ENSURE_KEYWORD_LOC, false);
            proof {
                let a: Seq<(usize, usize, bool)> = if explicit {
                    kw_offs(s, *t, anc, i as int, kinds::BEGIN_NODE_BEGIN_KEYWORD_LOC as int) + end_offs(s, *t, i as int,
                        kinds::BEGIN_NODE_END_KEYWORD_LOC as int, false, false)
                } else {
                    Seq::empty()
                };
                let b = clause_offs(s, *t, anc, i as int, kinds::BEGIN_NODE_ELSE_CLAUSE as int,
                    kinds::ELSE_NODE_ELSE_KEYWORD_LOC as int, true);
                let c = clause_offs(s, *t, anc, i as int, kinds::BEGIN_NODE_ENSURE_CLAUSE as int,
                    kinds::ENSURE_NODE_ENSURE_KEYWORD_LOC as int, false);
                assert(v1 =~= v0 + a);
                assert(v2 == v1 + b);
                assert(views(self.offenses@) == v2 + c);
                assert(views(self.offenses@) =~= v0 + (a + b + c));
            }
        } else if kind == kinds::CASE_NODE {
            self.check_keyword(t, i, kinds::CASE_NODE_CASE_KEYWORD_LOC);
            self.clause_keyword(t, i, kinds::CASE_NODE_ELSE_CLAUSE, kinds::ELSE_NODE_ELSE_KEYWORD_LOC, true);
            assert(views(self.offenses@) =~= v0 + (kw_offs(s, *t, anc, i as int, kinds::CASE_NODE_CASE_KEYWORD_LOC as int)
                + clause_offs(s, *t, anc, i as int, kinds::CASE_NODE_ELSE_CLAUSE as int, kinds::ELSE_NODE_ELSE_KEYWORD_LOC as int,
                true)));
        } else if kind == kinds::CASE_MATCH_NODE {
            self.check_keyword(t, i, kinds::CASE_MATCH_NODE_CASE_KEYWORD_LOC);
            self.clause_keyword(t, i, kinds::CASE_MATCH_NODE_ELSE_CLAUSE, kinds::ELSE_NODE_ELSE_KEYWORD_LOC, true);
            assert(views(self.offenses@) =~= v0 + (kw_offs(s, *t, anc, i as int, kinds::CASE_MATCH_NODE_CASE_KEYWORD_LOC as int)
                + clause_offs(s, *t, anc, i as int, kinds::CASE_MATCH_NODE_ELSE_CLAUSE as int,
                kinds::ELSE_NODE_ELSE_KEYWORD_LOC as int, true)));
        } else if kind == kinds::ELSE_NODE {
            self.on_else(t, i, kinds::ELSE_NODE_ELSE_KEYWORD_LOC);
        } else if kind == kinds::WHEN_NODE {
            self.check_keyword(t, i, kinds::WHEN_NODE_WHEN_KEYWORD_LOC);
        } else if kind == kinds::IN_NODE {
            self.check_keyword(t, i, kinds::IN_NODE_IN_KEYWORD_LOC);
        } else if kind == kinds::MATCH_PREDICATE_NODE {
            self.check_keyword(t, i, kinds::MATCH_PREDICATE_NODE_KEYWORD_LOC);
        } else if kind == kinds::RESCUE_MODIFIER_NODE {
            self.check_keyword(t, i, kinds::RESCUE_MODIFIER_NODE_KEYWORD_LOC);
        } else if kind == kinds::PRE_EXECUTION_NODE {
            self.check_keyword(t, i, kinds::PRE_EXECUTION_NODE_KEYWORD_LOC);
        } else if kind == kinds::POST_EXECUTION_NODE {
            self.check_keyword(t, i, kinds::POST_EXECUTION_NODE_KEYWORD_LOC);
        } else if kind == kinds::SUPER_NODE {
            self.check_keyword(t, i, kinds::SUPER_NODE_KEYWORD_LOC);
        } else if kind == kinds::FORWARDING_SUPER_NODE {
            // A bare `super`: the keyword is the first five bytes.
            let start = t.nodes[i].start;
            if start <= self.source.len() && self.source.len() - start >= 5 {
                self.check_keyword_range(start, start + 5);
            } else {
                assert(views(self.offenses@) =~= v0 + enter_offs(s, *t, anc, i as int));
            }
        } else if kind == kinds::YIELD_NODE {
            self.check_keyword(t, i, kinds::YIELD_NODE_KEYWORD_LOC);
        } else if kind == kinds::RETURN_NODE {
            self.check_keyword(t, i, kinds::RETURN_NODE_KEYWORD_LOC);
        } else if kind == kinds::BREAK_NODE {
            self.check_keyword(t, i, kinds::BREAK_NODE_KEYWORD_LOC);
        } else if kind == kinds::NEXT_NODE {
            self.check_keyword(t, i, kinds::NEXT_NODE_KEYWORD_LOC);
        } else if kind == kinds::DEFINED_NODE {
            self.check_keyword(t, i, kinds::DEFINED_NODE_KEYWORD_LOC);
        } else if kind == kinds::AND_NODE {
            let w: [u8; 3] = [97u8, 110u8, 100u8];
            assert(w@ =~= seq![97u8, 110u8, 100u8]);
            if self.field_is(t, i, kinds::AND_NODE_OPERATOR_LOC, &w) {
                self.check_keyword(t, i, kinds::AND_NODE_OPERATOR_LOC);
            } else {
                assert(views(self.offenses@) =~= v0 + enter_offs(s, *t, anc, i as int));
            }
        } else if kind == kinds::OR_NODE {
            let w: [u8; 2] = [111u8, 114u8];
            assert(w@ =~= seq![111u8, 114u8]);
            if self.field_is(t, i, kinds::OR_NODE_OPERATOR_LOC, &w) {
                self.check_keyword(t, i, kinds::OR_NODE_OPERATOR_LOC);
            } else {
                assert(views(self.offenses@) =~= v0 + enter_offs(s, *t, anc, i as int));
            }
        } else if kind == kinds::CALL_NODE {
            // A prefix `not expr`.
            let is_bang = match text(t, i, kinds::CALL_NODE_NAME) {
                Some(n) => n.len() == 1 && n[0] == 33u8,
                None => false,
            };
            proof {
                match text_at(*t, i as int, kinds::CALL_NODE_NAME as int) {
                    Some(n) => {
                        if n == seq![33u8] {
                            assert(n.len() == 1 && n[0] == 33u8);
                        }
                        if n.len() == 1 && n[0] == 33u8 {
                            assert(n =~= seq![33u8]);
                        }
                    },
                    None => {},
                }
            }
            let w: [u8; 3] = [110u8, 111u8, 116u8];
            assert(w@ =~= seq![110u8, 111u8, 116u8]);
            if is_bang && child(t, i, kinds::CALL_NODE_RECEIVER).is_some()
                && range(t, i, kinds::CALL_NODE_OPENING_LOC).is_none()
                && self.field_is(t, i, kinds::CALL_NODE_MESSAGE_LOC, &w) {
                self.check_keyword(t, i, kinds::CALL_NODE_MESSAGE_LOC);
            } else {
                assert(views(self.offenses@) =~= v0 + enter_offs(s, *t, anc, i as int));
            }
        } else {
            assert(views(self.offenses@) =~= v0 + enter_offs(s, *t, anc, i as int));
        }
        self.ancestors.push(Self::classify(t, i));
    }

    /// Closes the innermost open ancestor.
    fn leave(&mut self)
        ensures
            final(self).source == old(self).source,
            final(self).offenses == old(self).offenses,
            final(self).ancestors@ == (if old(self).ancestors@.len() > 0 {
                old(self).ancestors@.drop_last()
            } else {
                old(self).ancestors@
            }),
    {
        self.ancestors.pop();
    }

    /// A `RescueNode` (reached through a typed field): its `rescue` keyword
    /// ([`rescue_offs`]).
    fn enter_rescue(&mut self, t: &SyntaxTree, i: usize)
        requires
            tree_wf(*t),
            t.source_len == old(self).source@.len(),
            i < t.nodes@.len(),
            offenses_ok(old(self).source@, old(self).offenses@),
        ensures
            final(self).source == old(self).source,
            offenses_ok(final(self).source@, final(self).offenses@),
            views(final(self).offenses@) == views(old(self).offenses@) + rescue_offs(old(self).source@, *t,
                old(self).ancestors@, i as int),
            final(self).ancestors@ == old(self).ancestors@.push(anc_of(*t, i as int)),
    {
        if t.nodes[i].kind == kinds::RESCUE_NODE {
            self.check_keyword(t, i, kinds::RESCUE_NODE_KEYWORD_LOC);
        } else {
            assert(views(self.offenses@) + rescue_offs(self.source@, *t, self.ancestors@, i as int) =~= views(self.offenses@));
        }
        self.ancestors.push(Self::classify(t, i));
    }
}

} // verus!
