//! Reading the fields of a well-formed tree.

use vstd::prelude::*;
use super::{Field, SyntaxTree, tree_wf, node_wf, field_in, field_range_in, indices_in};
use super::kinds;

verus! {

/// Field `f` of node `i`, if the node has that many fields.
pub open spec fn field_at(t: SyntaxTree, i: int, f: int) -> Option<Field> {
    let fs = t.nodes@[i].fields@;
    if 0 <= f < fs.len() { Some(fs[f]) } else { None }
}

/// The child node in field `f` of node `i`.
pub open spec fn child_at(t: SyntaxTree, i: int, f: int) -> Option<usize> {
    match field_at(t, i, f) {
        Some(Field::Child(c)) => Some(c),
        _ => None,
    }
}

/// The byte range in field `f` of node `i`.
pub open spec fn range_at(t: SyntaxTree, i: int, f: int) -> Option<(usize, usize)> {
    match field_at(t, i, f) {
        Some(Field::Range(s, e)) => Some((s, e)),
        _ => None,
    }
}

/// The name or string content in field `f` of node `i`.
pub open spec fn text_at(t: SyntaxTree, i: int, f: int) -> Option<Seq<u8>> {
    match field_at(t, i, f) {
        Some(Field::Text(v)) => Some(v@),
        _ => None,
    }
}

/// The child list in field `f` of node `i`; empty where the field holds none.
pub open spec fn list_at(t: SyntaxTree, i: int, f: int) -> Seq<usize> {
    match field_at(t, i, f) {
        Some(Field::Children(v)) => v@,
        _ => Seq::empty(),
    }
}

/// The arguments held by the arguments node in field `f` of node `i`; none
/// when the field is empty.
pub open spec fn args_of(t: SyntaxTree, i: int, f: int) -> Seq<usize> {
    match child_at(t, i, f) {
        Some(a) => list_at(t, a as int, kinds::ARGUMENTS_NODE_ARGUMENTS as int),
        None => Seq::empty(),
    }
}

/// The child node in field `f` of node `i`, if that field holds one.
pub fn child(t: &SyntaxTree, i: usize, f: usize) -> (r: Option<usize>)
    requires
        tree_wf(*t),
        i < t.nodes@.len(),
    ensures
        match r {
            Some(c) => c < t.nodes@.len() && f < t.nodes@[i as int].fields@.len()
                && t.nodes@[i as int].fields@[f as int] == Field::Child(c),
            None => f >= t.nodes@[i as int].fields@.len()
                || !(t.nodes@[i as int].fields@[f as int] is Child),
        },
        r == child_at(*t, i as int, f as int),
{
    let nd = &t.nodes[i];
    if f < nd.fields.len() {
        match &nd.fields[f] {
            Field::Child(c) => {
                assert(node_wf(*t, i as int, t.source_len as nat));
                assert(field_in(nd.fields@[f as int], t.nodes@.len() as nat));
                Some(*c)
            },
            _ => None,
        }
    } else {
        None
    }
}

/// The byte range in field `f` of node `i`, if that field holds one.
pub fn range(t: &SyntaxTree, i: usize, f: usize) -> (r: Option<(usize, usize)>)
    requires
        tree_wf(*t),
        i < t.nodes@.len(),
    ensures
        match r {
            Some((s, e)) => s <= e <= t.source_len && f < t.nodes@[i as int].fields@.len()
                && t.nodes@[i as int].fields@[f as int] == Field::Range(s, e),
            None => f >= t.nodes@[i as int].fields@.len()
                || !(t.nodes@[i as int].fields@[f as int] is Range),
        },
        r == range_at(*t, i as int, f as int),
{
    let nd = &t.nodes[i];
    if f < nd.fields.len() {
        match &nd.fields[f] {
            Field::Range(s, e) => {
                assert(node_wf(*t, i as int, t.source_len as nat));
                assert(field_range_in(nd.fields@[f as int], t.source_len as nat));
                Some((*s, *e))
            },
            _ => None,
        }
    } else {
        None
    }
}

/// The child list in field `f` of node `i`, if that field holds one.
pub fn children(t: &SyntaxTree, i: usize, f: usize) -> (r: Option<&Vec<usize>>)
    requires
        tree_wf(*t),
        i < t.nodes@.len(),
    ensures
        match r {
            Some(v) => indices_in(v@, t.nodes@.len() as nat) && f < t.nodes@[i as int].fields@.len()
                && t.nodes@[i as int].fields@[f as int] == Field::Children(*v),
            None => f >= t.nodes@[i as int].fields@.len()
                || !(t.nodes@[i as int].fields@[f as int] is Children),
        },
        match r {
            Some(v) => list_at(*t, i as int, f as int) == v@,
            None => list_at(*t, i as int, f as int) == Seq::<usize>::empty(),
        },
{
    let nd = &t.nodes[i];
    if f < nd.fields.len() {
        match &nd.fields[f] {
            Field::Children(v) => {
                assert(node_wf(*t, i as int, t.source_len as nat));
                assert(field_in(nd.fields@[f as int], t.nodes@.len() as nat));
                Some(v)
            },
            _ => None,
        }
    } else {
        None
    }
}

/// The name or string content in field `f` of node `i`, if that field holds
/// one.
pub fn text(t: &SyntaxTree, i: usize, f: usize) -> (r: Option<&Vec<u8>>)
    requires
        i < t.nodes@.len(),
    ensures
        match r {
            Some(v) => f < t.nodes@[i as int].fields@.len()
                && t.nodes@[i as int].fields@[f as int] == Field::Text(*v),
            None => f >= t.nodes@[i as int].fields@.len()
                || !(t.nodes@[i as int].fields@[f as int] is Text),
        },
        match r {
            Some(v) => text_at(*t, i as int, f as int) == Some(v@),
            None => text_at(*t, i as int, f as int) is None,
        },
{
    let nd = &t.nodes[i];
    if f < nd.fields.len() {
        match &nd.fields[f] {
            Field::Text(v) => Some(v),
            _ => None,
        }
    } else {
        None
    }
}

/// Whether field `f` of node `i` holds a node or a range (an optional field
/// that is present).
pub fn present(t: &SyntaxTree, i: usize, f: usize) -> (r: bool)
    requires
        i < t.nodes@.len(),
    ensures
        r == (f < t.nodes@[i as int].fields@.len()
            && (t.nodes@[i as int].fields@[f as int] is Child || t.nodes@[i as int].fields@[f as int] is Range)),
{
    let nd = &t.nodes[i];
    if f < nd.fields.len() {
        match &nd.fields[f] {
            Field::Child(_) => true,
            Field::Range(_, _) => true,
            _ => false,
        }
    } else {
        false
    }
}

/// [`args_of`]: the argument list, or `None` when there is none.
pub fn args_of_node<'a>(t: &'a SyntaxTree, i: usize, f: usize) -> (r: Option<&'a Vec<usize>>)
    requires
        tree_wf(*t),
        i < t.nodes@.len(),
    ensures
        match r {
            Some(v) => args_of(*t, i as int, f as int) == v@ && indices_in(v@, t.nodes@.len() as nat),
            None => args_of(*t, i as int, f as int) == Seq::<usize>::empty(),
        },
{
    match child(t, i, f) {
        Some(a) => children(t, a, kinds::ARGUMENTS_NODE_ARGUMENTS),
        None => None,
    }
}

/// The number of arguments in [`args_of`].
pub fn arg_count(t: &SyntaxTree, i: usize, f: usize) -> (r: usize)
    requires
        tree_wf(*t),
        i < t.nodes@.len(),
    ensures
        r == args_of(*t, i as int, f as int).len(),
{
    match args_of_node(t, i, f) {
        Some(v) => v.len(),
        None => 0,
    }
}

} // verus!
