//! `Layout/SpaceAroundEqualsInParameterDefault`: the space around the `=` of an
//! optional positional parameter (`def f(a = 1)`).
//!
//! For each `OptionalParameterNode` the parameter's name ends where the
//! parser-gem `arg` token ends and the `=` is the `equals` token; a space
//! "follows" a token when the byte after it is Ruby `\s`. Style `space` wants
//! a space after both, style `no_space` after neither. An offense covers the
//! bytes from the end of the name to the start of the default value. Keyword
//! defaults (`a: 1`) are not this cop's concern.

use vstd::prelude::*;
use crate::syntax::{SyntaxTree, Field, tree_wf};
use crate::syntax::kinds;
use crate::syntax::access::{child, range, child_at, range_at};
use crate::syntax::flatten::{parse_tree, check_tree, tree_of};
use crate::syntax::walk::{walk, walk_events, Event, events_in, event_node};
use crate::rules::space_scan::{is_ruby_space, spec_is_ruby_space};

verus! {

/// `EnforcedStyle` `space` (the default).
pub const STYLE_SPACE: u8 = 0;
/// `EnforcedStyle` `no_space`.
pub const STYLE_NO_SPACE: u8 = 1;

/// Config: the style (`STYLE_SPACE` or `STYLE_NO_SPACE`).
#[derive(Clone, Copy)]
pub struct Config {
    pub style: u8,
}

/// One offense: from the end of the parameter name to the start of its
/// default value.
pub struct SpaceAroundEqualsOffense {
    pub start: usize,
    pub end: usize,
}

/// The byte at `at` exists and is Ruby `\s`.
pub open spec fn space_at(s: Seq<u8>, at: int) -> bool {
    0 <= at < s.len() && spec_is_ruby_space(s[at])
}

/// The style is met by spaces after the name (`before_eq`) and after the `=`
/// (`after_eq`).
pub open spec fn style_met(style: u8, before_eq: bool, after_eq: bool) -> bool {
    if style == STYLE_NO_SPACE { !before_eq && !after_eq } else { before_eq && after_eq }
}

/// `o` is the offense of optional parameter `i`: the name ends at `o.start`,
/// the default value starts at `o.end`, and the spaces around the `=` break
/// the style.
pub open spec fn offense_of(s: Seq<u8>, t: SyntaxTree, style: u8, i: int, o: SpaceAroundEqualsOffense) -> bool {
    let nd = t.nodes@[i];
    &&& 0 <= i < t.nodes@.len()
    &&& nd.kind == kinds::OPTIONAL_PARAMETER_NODE
    &&& nd.fields@.len() > kinds::OPTIONAL_PARAMETER_NODE_VALUE
    &&& nd.fields@[kinds::OPTIONAL_PARAMETER_NODE_NAME_LOC as int] matches Field::Range(_, ne) && ne == o.start
    &&& nd.fields@[kinds::OPTIONAL_PARAMETER_NODE_VALUE as int] matches Field::Child(v)
        && 0 <= v < t.nodes@.len() && t.nodes@[v as int].start == o.end
    &&& nd.fields@[kinds::OPTIONAL_PARAMETER_NODE_OPERATOR_LOC as int] matches Field::Range(_, oe)
        && !style_met(style, space_at(s, o.start as int), space_at(s, oe as int))
}

/// `o` is the offense of some optional parameter.
pub open spec fn is_offense(s: Seq<u8>, t: SyntaxTree, style: u8, o: SpaceAroundEqualsOffense) -> bool {
    exists|i: int| offense_of(s, t, style, i, o)
}

/// Every offense of `r` is the offense of some optional parameter.
pub open spec fn offenses_ok(s: Seq<u8>, t: SyntaxTree, style: u8, r: Seq<SpaceAroundEqualsOffense>) -> bool {
    forall|k: int| 0 <= k < r.len() ==> is_offense(s, t, style, #[trigger] r[k])
}

/// The offense of node `i`, if it is an optional parameter whose spaces
/// around the `=` break the style: from the end of its name to the start of
/// its default value.
pub open spec fn param_offense(s: Seq<u8>, t: SyntaxTree, style: u8, i: int) -> Option<(usize, usize)> {
    if t.nodes@[i].kind == kinds::OPTIONAL_PARAMETER_NODE {
        match (range_at(t, i, kinds::OPTIONAL_PARAMETER_NODE_NAME_LOC as int), range_at(t, i,
            kinds::OPTIONAL_PARAMETER_NODE_OPERATOR_LOC as int), child_at(t, i, kinds::OPTIONAL_PARAMETER_NODE_VALUE as int)) {
            (Some((_, ne)), Some((_, oe)), Some(v)) => if !style_met(style, space_at(s, ne as int), space_at(s, oe as int)) {
                Some((ne, t.nodes@[v as int].start))
            } else {
                None
            },
            _ => None,
        }
    } else {
        None
    }
}

/// The offenses of the nodes entered in the first `k` events, in order.
pub open spec fn equals_upto(s: Seq<u8>, t: SyntaxTree, style: u8, evs: Seq<Event>, k: int) -> Seq<(usize, usize)>
    decreases k,
{
    if k <= 0 {
        Seq::empty()
    } else {
        equals_upto(s, t, style, evs, k - 1) + match evs[k - 1] {
            Event::Enter(i) => if i < t.nodes@.len() {
                match param_offense(s, t, style, i as int) {
                    Some(o) => seq![o],
                    None => Seq::empty(),
                }
            } else {
                Seq::empty()
            },
            _ => Seq::empty(),
        }
    }
}

/// The offenses of `source`.
pub fn check_space_around_equals_in_parameter_default(source: &[u8], config: Config)
    -> (r: Vec<SpaceAroundEqualsOffense>)
    ensures
        exists|t: SyntaxTree| #[trigger] tree_of(t, source@) && (if tree_wf(t) {
            &&& offenses_ok(source@, t, config.style, r@)
            &&& r@.len() == equals_upto(source@, t, config.style, walk_events(t), walk_events(t).len() as int).len()
            &&& forall|k: int| 0 <= k < r@.len() ==> ((#[trigger] r@[k]).start, r@[k].end) == equals_upto(source@, t,
                config.style, walk_events(t), walk_events(t).len() as int)[k]
        } else {
            r@.len() == 0
        }),
{
    let t = parse_tree(source);
    if !check_tree(&t) {
        assert(tree_of(t, source@));
        return Vec::new();
    }
    let r = space_around_equals_offenses(source, &t, config);
    assert(tree_of(t, source@));
    r
}

fn is_space_at(s: &[u8], at: usize) -> (r: bool)
    ensures
        r == space_at(s@, at as int),
{
    at < s.len() && is_ruby_space(s[at])
}

/// The offenses of the parsed `source`.
pub fn space_around_equals_offenses(source: &[u8], t: &SyntaxTree, config: Config)
    -> (r: Vec<SpaceAroundEqualsOffense>)
    requires
        tree_wf(*t),
        t.source_len == source@.len(),
    ensures
        offenses_ok(source@, *t, config.style, r@),
        r@.len() == equals_upto(source@, *t, config.style, walk_events(*t), walk_events(*t).len() as int).len(),
        forall|k: int| 0 <= k < r@.len() ==> ((#[trigger] r@[k]).start, r@[k].end) == equals_upto(source@, *t,
            config.style, walk_events(*t), walk_events(*t).len() as int)[k],
{
    let evs = walk(t);
    let mut out: Vec<SpaceAroundEqualsOffense> = Vec::new();
    let mut k: usize = 0;
    while k < evs.len()
        invariant
            tree_wf(*t),
            t.source_len == source@.len(),
            events_in(evs@, t.nodes@.len() as nat),
            offenses_ok(source@, *t, config.style, out@),
            k <= evs@.len(),
            out@.len() == equals_upto(source@, *t, config.style, evs@, k as int).len(),
            forall|q: int| 0 <= q < out@.len() ==> ((#[trigger] out@[q]).start, out@[q].end) == equals_upto(source@, *t,
                config.style, evs@, k as int)[q],
        decreases evs.len() - k,
    {
        assert(event_node(evs@[k as int]) < t.nodes@.len());
        let ghost prev_out = out@;
        let ghost prev_sp = equals_upto(source@, *t, config.style, evs@, k as int);
        if let Event::Enter(i) = evs[k] {
            if t.nodes[i].kind == kinds::OPTIONAL_PARAMETER_NODE {
                let name = range(t, i, kinds::OPTIONAL_PARAMETER_NODE_NAME_LOC);
                let op = range(t, i, kinds::OPTIONAL_PARAMETER_NODE_OPERATOR_LOC);
                let value = child(t, i, kinds::OPTIONAL_PARAMETER_NODE_VALUE);
                if let (Some((_, name_end)), Some((_, op_end)), Some(v)) = (name, op, value) {
                    let before_eq = is_space_at(source, name_end);
                    let after_eq = is_space_at(source, op_end);
                    let satisfied = if config.style == STYLE_NO_SPACE {
                        !before_eq && !after_eq
                    } else {
                        before_eq && after_eq
                    };
                    if !satisfied {
                        let o = SpaceAroundEqualsOffense { start: name_end, end: t.nodes[v].start };
                        assert(offense_of(source@, *t, config.style, i as int, o));
                        let ghost prev = out@;
                        out.push(o);
                        assert forall|q: int| 0 <= q < out@.len() implies
                            is_offense(source@, *t, config.style, #[trigger] out@[q]) by {
                            if q < prev.len() {
                                assert(out@[q] == prev[q]);
                            } else {
                                assert(offense_of(source@, *t, config.style, i as int, out@[q]));
                            }
                        }
                        assert(equals_upto(source@, *t, config.style, evs@, k + 1) == prev_sp.push((o.start, o.end)));
                        assert forall|q: int| 0 <= q < out@.len() implies ((#[trigger] out@[q]).start, out@[q].end)
                            == equals_upto(source@, *t, config.style, evs@, k + 1)[q] by {
                            if q < prev.len() {
                                assert(out@[q] == prev[q]);
                            }
                        }
                    }
                }
            }
        }
        proof {
            if out@.len() == prev_out.len() {
                assert(equals_upto(source@, *t, config.style, evs@, k + 1) =~= prev_sp);
            }
        }
        k += 1;
    }
    out
}

} // verus!
