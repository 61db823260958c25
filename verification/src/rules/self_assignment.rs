//! `Lint/SelfAssignment`: an assignment whose right-hand side only reads back
//! what its left-hand side writes (`foo = foo`, `Foo = Foo`,
//! `foo.bar = foo.bar`, `foo[k] = foo[k]`, `foo ||= foo`, `a, b = a, b`).
//!
//! Every node of the tree is looked at, in pre-order. Two operands are "the
//! same" when they are nodes of one kind spelled by the same bytes. Each
//! offense covers the whole assignment and carries the end of the node on
//! which an inline RBS annotation would be looked up.

use vstd::prelude::*;
use crate::syntax::{SyntaxTree, tree_wf, indices_in};
use crate::syntax::kinds;
use crate::syntax::access::{child, range, text, children, child_at, range_at, text_at, list_at, args_of, args_of_node, arg_count};
use crate::syntax::flatten::{parse_tree, check_tree, tree_of};
use crate::rules::bytes::{vec_is, ranges_equal, range_is};

verus! {

/// One offense: the assignment `[start_offset, end_offset)` and the end of
/// the node that hosts the RBS annotation check.
pub struct SelfAssignmentOffense {
    pub start_offset: usize,
    pub end_offset: usize,
    pub rbs_anchor_offset: usize,
}

/// The source bytes of node `i`.
pub open spec fn node_src(s: Seq<u8>, t: SyntaxTree, i: int) -> Seq<u8> {
    s.subrange(t.nodes@[i].start as int, t.nodes@[i].end as int)
}

/// Nodes `a` and `b` are of one kind and spelled by the same bytes.
pub open spec fn same_node(s: Seq<u8>, t: SyntaxTree, a: int, b: int) -> bool {
    t.nodes@[a].kind == t.nodes@[b].kind && node_src(s, t, a) == node_src(s, t, b)
}

/// Two optional operands are both missing, or both there and the same.
pub open spec fn same_operand(s: Seq<u8>, t: SyntaxTree, a: Option<usize>, b: Option<usize>) -> bool {
    match (a, b) {
        (None, None) => true,
        (Some(x), Some(y)) => same_node(s, t, x as int, y as int),
        _ => false,
    }
}

/// The two lists are as long as each other and pairwise the same.
pub open spec fn all_same(s: Seq<u8>, t: SyntaxTree, a: Seq<usize>, b: Seq<usize>) -> bool {
    &&& a.len() == b.len()
    &&& forall|j: int| 0 <= j < a.len() ==> #[trigger] same_node(s, t, a[j] as int, b[j] as int)
}

/// No node of the list is a method call.
pub open spec fn no_call(t: SyntaxTree, a: Seq<usize>) -> bool {
    forall|j: int| 0 <= j < a.len() ==> t.nodes@[#[trigger] a[j] as int].kind != kinds::CALL_NODE
}

/// The offense covering node `i` whose annotation anchor is `anchor`.
pub open spec fn whole(t: SyntaxTree, i: int, anchor: usize) -> SelfAssignmentOffense {
    SelfAssignmentOffense { start_offset: t.nodes@[i].start, end_offset: t.nodes@[i].end, rbs_anchor_offset: anchor }
}

/// The annotation anchor of an assignment through a receiver: the end of
/// the receiver, or the start of the assignment when there is none.
pub open spec fn receiver_anchor(t: SyntaxTree, i: int, recv: Option<usize>) -> usize {
    match recv {
        Some(r) => t.nodes@[r as int].end,
        None => t.nodes@[i].start,
    }
}

/// For a node kind that writes a variable: the kind that reads the same
/// variable, the written name's field, the value's field, the read name's
/// field, and, for `||=` and `&&=`, the field of the written name's range
/// (the annotation anchor; otherwise the anchor is the end of the value).
pub open spec fn var_shape(k: u16) -> Option<(u16, usize, usize, usize, Option<usize>)> {
    if k == kinds::LOCAL_VARIABLE_WRITE_NODE {
        Some((kinds::LOCAL_VARIABLE_READ_NODE, kinds::LOCAL_VARIABLE_WRITE_NODE_NAME, kinds::LOCAL_VARIABLE_WRITE_NODE_VALUE, kinds::LOCAL_VARIABLE_READ_NODE_NAME, None))
    } else if k == kinds::LOCAL_VARIABLE_OR_WRITE_NODE {
        Some((kinds::LOCAL_VARIABLE_READ_NODE, kinds::LOCAL_VARIABLE_OR_WRITE_NODE_NAME, kinds::LOCAL_VARIABLE_OR_WRITE_NODE_VALUE, kinds::LOCAL_VARIABLE_READ_NODE_NAME, Some(kinds::LOCAL_VARIABLE_OR_WRITE_NODE_NAME_LOC)))
    } else if k == kinds::LOCAL_VARIABLE_AND_WRITE_NODE {
        Some((kinds::LOCAL_VARIABLE_READ_NODE, kinds::LOCAL_VARIABLE_AND_WRITE_NODE_NAME, kinds::LOCAL_VARIABLE_AND_WRITE_NODE_VALUE, kinds::LOCAL_VARIABLE_READ_NODE_NAME, Some(kinds::LOCAL_VARIABLE_AND_WRITE_NODE_NAME_LOC)))
    } else if k == kinds::INSTANCE_VARIABLE_WRITE_NODE {
        Some((kinds::INSTANCE_VARIABLE_READ_NODE, kinds::INSTANCE_VARIABLE_WRITE_NODE_NAME, kinds::INSTANCE_VARIABLE_WRITE_NODE_VALUE, kinds::INSTANCE_VARIABLE_READ_NODE_NAME, None))
    } else if k == kinds::INSTANCE_VARIABLE_OR_WRITE_NODE {
        Some((kinds::INSTANCE_VARIABLE_READ_NODE, kinds::INSTANCE_VARIABLE_OR_WRITE_NODE_NAME, kinds::INSTANCE_VARIABLE_OR_WRITE_NODE_VALUE, kinds::INSTANCE_VARIABLE_READ_NODE_NAME, Some(kinds::INSTANCE_VARIABLE_OR_WRITE_NODE_NAME_LOC)))
    } else if k == kinds::INSTANCE_VARIABLE_AND_WRITE_NODE {
        Some((kinds::INSTANCE_VARIABLE_READ_NODE, kinds::INSTANCE_VARIABLE_AND_WRITE_NODE_NAME, kinds::INSTANCE_VARIABLE_AND_WRITE_NODE_VALUE, kinds::INSTANCE_VARIABLE_READ_NODE_NAME, Some(kinds::INSTANCE_VARIABLE_AND_WRITE_NODE_NAME_LOC)))
    } else if k == kinds::CLASS_VARIABLE_WRITE_NODE {
        Some((kinds::CLASS_VARIABLE_READ_NODE, kinds::CLASS_VARIABLE_WRITE_NODE_NAME, kinds::CLASS_VARIABLE_WRITE_NODE_VALUE, kinds::CLASS_VARIABLE_READ_NODE_NAME, None))
    } else if k == kinds::CLASS_VARIABLE_OR_WRITE_NODE {
        Some((kinds::CLASS_VARIABLE_READ_NODE, kinds::CLASS_VARIABLE_OR_WRITE_NODE_NAME, kinds::CLASS_VARIABLE_OR_WRITE_NODE_VALUE, kinds::CLASS_VARIABLE_READ_NODE_NAME, Some(kinds::CLASS_VARIABLE_OR_WRITE_NODE_NAME_LOC)))
    } else if k == kinds::CLASS_VARIABLE_AND_WRITE_NODE {
        Some((kinds::CLASS_VARIABLE_READ_NODE, kinds::CLASS_VARIABLE_AND_WRITE_NODE_NAME, kinds::CLASS_VARIABLE_AND_WRITE_NODE_VALUE, kinds::CLASS_VARIABLE_READ_NODE_NAME, Some(kinds::CLASS_VARIABLE_AND_WRITE_NODE_NAME_LOC)))
    } else if k == kinds::GLOBAL_VARIABLE_WRITE_NODE {
        Some((kinds::GLOBAL_VARIABLE_READ_NODE, kinds::GLOBAL_VARIABLE_WRITE_NODE_NAME, kinds::GLOBAL_VARIABLE_WRITE_NODE_VALUE, kinds::GLOBAL_VARIABLE_READ_NODE_NAME, None))
    } else if k == kinds::GLOBAL_VARIABLE_OR_WRITE_NODE {
        Some((kinds::GLOBAL_VARIABLE_READ_NODE, kinds::GLOBAL_VARIABLE_OR_WRITE_NODE_NAME, kinds::GLOBAL_VARIABLE_OR_WRITE_NODE_VALUE, kinds::GLOBAL_VARIABLE_READ_NODE_NAME, Some(kinds::GLOBAL_VARIABLE_OR_WRITE_NODE_NAME_LOC)))
    } else if k == kinds::GLOBAL_VARIABLE_AND_WRITE_NODE {
        Some((kinds::GLOBAL_VARIABLE_READ_NODE, kinds::GLOBAL_VARIABLE_AND_WRITE_NODE_NAME, kinds::GLOBAL_VARIABLE_AND_WRITE_NODE_VALUE, kinds::GLOBAL_VARIABLE_READ_NODE_NAME, Some(kinds::GLOBAL_VARIABLE_AND_WRITE_NODE_NAME_LOC)))
    } else {
        None
    }
}

/// [`var_shape`].
fn var_shape_of(k: u16) -> (r: Option<(u16, usize, usize, usize, Option<usize>)>)
    ensures
        r == var_shape(k),
{
    if k == kinds::LOCAL_VARIABLE_WRITE_NODE {
        Some((kinds::LOCAL_VARIABLE_READ_NODE, kinds::LOCAL_VARIABLE_WRITE_NODE_NAME, kinds::LOCAL_VARIABLE_WRITE_NODE_VALUE, kinds::LOCAL_VARIABLE_READ_NODE_NAME, None))
    } else if k == kinds::LOCAL_VARIABLE_OR_WRITE_NODE {
        Some((kinds::LOCAL_VARIABLE_READ_NODE, kinds::LOCAL_VARIABLE_OR_WRITE_NODE_NAME, kinds::LOCAL_VARIABLE_OR_WRITE_NODE_VALUE, kinds::LOCAL_VARIABLE_READ_NODE_NAME, Some(kinds::LOCAL_VARIABLE_OR_WRITE_NODE_NAME_LOC)))
    } else if k == kinds::LOCAL_VARIABLE_AND_WRITE_NODE {
        Some((kinds::LOCAL_VARIABLE_READ_NODE, kinds::LOCAL_VARIABLE_AND_WRITE_NODE_NAME, kinds::LOCAL_VARIABLE_AND_WRITE_NODE_VALUE, kinds::LOCAL_VARIABLE_READ_NODE_NAME, Some(kinds::LOCAL_VARIABLE_AND_WRITE_NODE_NAME_LOC)))
    } else if k == kinds::INSTANCE_VARIABLE_WRITE_NODE {
        Some((kinds::INSTANCE_VARIABLE_READ_NODE, kinds::INSTANCE_VARIABLE_WRITE_NODE_NAME, kinds::INSTANCE_VARIABLE_WRITE_NODE_VALUE, kinds::INSTANCE_VARIABLE_READ_NODE_NAME, None))
    } else if k == kinds::INSTANCE_VARIABLE_OR_WRITE_NODE {
        Some((kinds::INSTANCE_VARIABLE_READ_NODE, kinds::INSTANCE_VARIABLE_OR_WRITE_NODE_NAME, kinds::INSTANCE_VARIABLE_OR_WRITE_NODE_VALUE, kinds::INSTANCE_VARIABLE_READ_NODE_NAME, Some(kinds::INSTANCE_VARIABLE_OR_WRITE_NODE_NAME_LOC)))
    } else if k == kinds::INSTANCE_VARIABLE_AND_WRITE_NODE {
        Some((kinds::INSTANCE_VARIABLE_READ_NODE, kinds::INSTANCE_VARIABLE_AND_WRITE_NODE_NAME, kinds::INSTANCE_VARIABLE_AND_WRITE_NODE_VALUE, kinds::INSTANCE_VARIABLE_READ_NODE_NAME, Some(kinds::INSTANCE_VARIABLE_AND_WRITE_NODE_NAME_LOC)))
    } else if k == kinds::CLASS_VARIABLE_WRITE_NODE {
        Some((kinds::CLASS_VARIABLE_READ_NODE, kinds::CLASS_VARIABLE_WRITE_NODE_NAME, kinds::CLASS_VARIABLE_WRITE_NODE_VALUE, kinds::CLASS_VARIABLE_READ_NODE_NAME, None))
    } else if k == kinds::CLASS_VARIABLE_OR_WRITE_NODE {
        Some((kinds::CLASS_VARIABLE_READ_NODE, kinds::CLASS_VARIABLE_OR_WRITE_NODE_NAME, kinds::CLASS_VARIABLE_OR_WRITE_NODE_VALUE, kinds::CLASS_VARIABLE_READ_NODE_NAME, Some(kinds::CLASS_VARIABLE_OR_WRITE_NODE_NAME_LOC)))
    } else if k == kinds::CLASS_VARIABLE_AND_WRITE_NODE {
        Some((kinds::CLASS_VARIABLE_READ_NODE, kinds::CLASS_VARIABLE_AND_WRITE_NODE_NAME, kinds::CLASS_VARIABLE_AND_WRITE_NODE_VALUE, kinds::CLASS_VARIABLE_READ_NODE_NAME, Some(kinds::CLASS_VARIABLE_AND_WRITE_NODE_NAME_LOC)))
    } else if k == kinds::GLOBAL_VARIABLE_WRITE_NODE {
        Some((kinds::GLOBAL_VARIABLE_READ_NODE, kinds::GLOBAL_VARIABLE_WRITE_NODE_NAME, kinds::GLOBAL_VARIABLE_WRITE_NODE_VALUE, kinds::GLOBAL_VARIABLE_READ_NODE_NAME, None))
    } else if k == kinds::GLOBAL_VARIABLE_OR_WRITE_NODE {
        Some((kinds::GLOBAL_VARIABLE_READ_NODE, kinds::GLOBAL_VARIABLE_OR_WRITE_NODE_NAME, kinds::GLOBAL_VARIABLE_OR_WRITE_NODE_VALUE, kinds::GLOBAL_VARIABLE_READ_NODE_NAME, Some(kinds::GLOBAL_VARIABLE_OR_WRITE_NODE_NAME_LOC)))
    } else if k == kinds::GLOBAL_VARIABLE_AND_WRITE_NODE {
        Some((kinds::GLOBAL_VARIABLE_READ_NODE, kinds::GLOBAL_VARIABLE_AND_WRITE_NODE_NAME, kinds::GLOBAL_VARIABLE_AND_WRITE_NODE_VALUE, kinds::GLOBAL_VARIABLE_READ_NODE_NAME, Some(kinds::GLOBAL_VARIABLE_AND_WRITE_NODE_NAME_LOC)))
    } else {
        None
    }
}

/// `foo = foo`, `@a ||= @a` and the like.
pub open spec fn var_offense(s: Seq<u8>, t: SyntaxTree, i: int) -> Option<SelfAssignmentOffense> {
    match var_shape(t.nodes@[i].kind) {
        Some((rk, nf, vf, rnf, nl)) => match (child_at(t, i, vf as int), text_at(t, i, nf as int)) {
            (Some(v), Some(name)) => {
                if t.nodes@[v as int].kind == rk && text_at(t, v as int, rnf as int) == Some(name) {
                    match nl {
                        None => Some(whole(t, i, t.nodes@[v as int].end)),
                        Some(f) => match range_at(t, i, f as int) {
                            Some((_, e)) => Some(whole(t, i, e)),
                            None => None,
                        },
                    }
                } else {
                    None
                }
            },
            _ => None,
        },
        None => None,
    }
}

/// For a node kind that writes a bare constant: the name's field, the
/// value's field and, for `||=` and `&&=`, the field of the name's range.
pub open spec fn const_shape(k: u16) -> Option<(usize, usize, Option<usize>)> {
    if k == kinds::CONSTANT_WRITE_NODE {
        Some((kinds::CONSTANT_WRITE_NODE_NAME, kinds::CONSTANT_WRITE_NODE_VALUE, None))
    } else if k == kinds::CONSTANT_OR_WRITE_NODE {
        Some((kinds::CONSTANT_OR_WRITE_NODE_NAME, kinds::CONSTANT_OR_WRITE_NODE_VALUE, Some(kinds::CONSTANT_OR_WRITE_NODE_NAME_LOC)))
    } else if k == kinds::CONSTANT_AND_WRITE_NODE {
        Some((kinds::CONSTANT_AND_WRITE_NODE_NAME, kinds::CONSTANT_AND_WRITE_NODE_VALUE, Some(kinds::CONSTANT_AND_WRITE_NODE_NAME_LOC)))
    } else {
        None
    }
}

/// [`const_shape`].
fn const_shape_of(k: u16) -> (r: Option<(usize, usize, Option<usize>)>)
    ensures
        r == const_shape(k),
{
    if k == kinds::CONSTANT_WRITE_NODE {
        Some((kinds::CONSTANT_WRITE_NODE_NAME, kinds::CONSTANT_WRITE_NODE_VALUE, None))
    } else if k == kinds::CONSTANT_OR_WRITE_NODE {
        Some((kinds::CONSTANT_OR_WRITE_NODE_NAME, kinds::CONSTANT_OR_WRITE_NODE_VALUE, Some(kinds::CONSTANT_OR_WRITE_NODE_NAME_LOC)))
    } else if k == kinds::CONSTANT_AND_WRITE_NODE {
        Some((kinds::CONSTANT_AND_WRITE_NODE_NAME, kinds::CONSTANT_AND_WRITE_NODE_VALUE, Some(kinds::CONSTANT_AND_WRITE_NODE_NAME_LOC)))
    } else {
        None
    }
}

/// Where a constant is looked up.
pub enum Namespace {
    /// A bare name (`Foo`).
    Bare,
    /// The top level (`::Foo`).
    Cbase,
    /// Below the node at this index (`A::Foo`).
    Path(usize),
}

/// The namespace of the constant path node `p`.
pub open spec fn path_namespace(t: SyntaxTree, p: int) -> Namespace {
    match child_at(t, p, kinds::CONSTANT_PATH_NODE_PARENT as int) {
        Some(x) => Namespace::Path(x),
        None => Namespace::Cbase,
    }
}

/// The namespace and short name of node `v` when it reads a constant.
pub open spec fn const_ref(t: SyntaxTree, v: int) -> Option<(Namespace, Seq<u8>)> {
    if t.nodes@[v].kind == kinds::CONSTANT_READ_NODE {
        match text_at(t, v, kinds::CONSTANT_READ_NODE_NAME as int) {
            Some(n) => Some((Namespace::Bare, n)),
            None => None,
        }
    } else if t.nodes@[v].kind == kinds::CONSTANT_PATH_NODE {
        match text_at(t, v, kinds::CONSTANT_PATH_NODE_NAME as int) {
            Some(n) => Some((path_namespace(t, v), n)),
            None => None,
        }
    } else {
        None
    }
}

/// Two namespaces are equal: both bare, both the top level, or below nodes
/// spelled by the same bytes.
pub open spec fn same_namespace(s: Seq<u8>, t: SyntaxTree, a: Namespace, b: Namespace) -> bool {
    match (a, b) {
        (Namespace::Bare, Namespace::Bare) => true,
        (Namespace::Cbase, Namespace::Cbase) => true,
        (Namespace::Path(x), Namespace::Path(y)) => node_src(s, t, x as int) == node_src(s, t, y as int),
        _ => false,
    }
}

/// `Foo = Foo`, `Foo ||= Foo` and the like.
pub open spec fn const_offense(s: Seq<u8>, t: SyntaxTree, i: int) -> Option<SelfAssignmentOffense> {
    match const_shape(t.nodes@[i].kind) {
        Some((nf, vf, nl)) => match (child_at(t, i, vf as int), text_at(t, i, nf as int)) {
            (Some(v), Some(name)) => match const_ref(t, v as int) {
                Some((ns, short)) => {
                    if short == name && same_namespace(s, t, Namespace::Bare, ns) {
                        match nl {
                            None => Some(whole(t, i, t.nodes@[v as int].end)),
                            Some(f) => match range_at(t, i, f as int) {
                                Some((_, e)) => Some(whole(t, i, e)),
                                None => None,
                            },
                        }
                    } else {
                        None
                    }
                },
                None => None,
            },
            _ => None,
        },
        None => None,
    }
}

/// `A::Foo = A::Foo`, `::Foo = ::Foo`.
pub open spec fn path_write_offense(s: Seq<u8>, t: SyntaxTree, i: int) -> Option<SelfAssignmentOffense> {
    match (child_at(t, i, kinds::CONSTANT_PATH_WRITE_NODE_TARGET as int),
        child_at(t, i, kinds::CONSTANT_PATH_WRITE_NODE_VALUE as int)) {
        (Some(tg), Some(v)) => match (text_at(t, tg as int, kinds::CONSTANT_PATH_NODE_NAME as int), const_ref(t, v as int)) {
            (Some(short), Some((ns, rshort))) => {
                if short == rshort && same_namespace(s, t, path_namespace(t, tg as int), ns) {
                    Some(whole(t, i, t.nodes@[v as int].end))
                } else {
                    None
                }
            },
            _ => None,
        },
        _ => None,
    }
}

/// For a target kind of a multiple assignment: the kind that reads the same
/// variable, the target's name field and the read's name field.
pub open spec fn pair_shape(k: u16) -> Option<(u16, usize, usize)> {
    if k == kinds::LOCAL_VARIABLE_TARGET_NODE {
        Some((kinds::LOCAL_VARIABLE_READ_NODE, kinds::LOCAL_VARIABLE_TARGET_NODE_NAME, kinds::LOCAL_VARIABLE_READ_NODE_NAME))
    } else if k == kinds::INSTANCE_VARIABLE_TARGET_NODE {
        Some((kinds::INSTANCE_VARIABLE_READ_NODE, kinds::INSTANCE_VARIABLE_TARGET_NODE_NAME, kinds::INSTANCE_VARIABLE_READ_NODE_NAME))
    } else if k == kinds::CLASS_VARIABLE_TARGET_NODE {
        Some((kinds::CLASS_VARIABLE_READ_NODE, kinds::CLASS_VARIABLE_TARGET_NODE_NAME, kinds::CLASS_VARIABLE_READ_NODE_NAME))
    } else if k == kinds::GLOBAL_VARIABLE_TARGET_NODE {
        Some((kinds::GLOBAL_VARIABLE_READ_NODE, kinds::GLOBAL_VARIABLE_TARGET_NODE_NAME, kinds::GLOBAL_VARIABLE_READ_NODE_NAME))
    } else {
        None
    }
}

/// [`pair_shape`].
fn pair_shape_of(k: u16) -> (r: Option<(u16, usize, usize)>)
    ensures
        r == pair_shape(k),
{
    if k == kinds::LOCAL_VARIABLE_TARGET_NODE {
        Some((kinds::LOCAL_VARIABLE_READ_NODE, kinds::LOCAL_VARIABLE_TARGET_NODE_NAME, kinds::LOCAL_VARIABLE_READ_NODE_NAME))
    } else if k == kinds::INSTANCE_VARIABLE_TARGET_NODE {
        Some((kinds::INSTANCE_VARIABLE_READ_NODE, kinds::INSTANCE_VARIABLE_TARGET_NODE_NAME, kinds::INSTANCE_VARIABLE_READ_NODE_NAME))
    } else if k == kinds::CLASS_VARIABLE_TARGET_NODE {
        Some((kinds::CLASS_VARIABLE_READ_NODE, kinds::CLASS_VARIABLE_TARGET_NODE_NAME, kinds::CLASS_VARIABLE_READ_NODE_NAME))
    } else if k == kinds::GLOBAL_VARIABLE_TARGET_NODE {
        Some((kinds::GLOBAL_VARIABLE_READ_NODE, kinds::GLOBAL_VARIABLE_TARGET_NODE_NAME, kinds::GLOBAL_VARIABLE_READ_NODE_NAME))
    } else {
        None
    }
}

/// Target `l` of a multiple assignment is given back by the value `r`.
pub open spec fn pair_matches(t: SyntaxTree, l: int, r: int) -> bool {
    match pair_shape(t.nodes@[l].kind) {
        Some((rk, lf, rf)) => t.nodes@[r].kind == rk && text_at(t, l, lf as int) is Some
            && text_at(t, l, lf as int) == text_at(t, r, rf as int),
        None => false,
    }
}

/// `a, b = a, b`.
pub open spec fn multi_offense(s: Seq<u8>, t: SyntaxTree, i: int) -> Option<SelfAssignmentOffense> {
    let lefts = list_at(t, i, kinds::MULTI_WRITE_NODE_LEFTS as int);
    match child_at(t, i, kinds::MULTI_WRITE_NODE_VALUE as int) {
        Some(v) => {
            let elems = list_at(t, v as int, kinds::ARRAY_NODE_ELEMENTS as int);
            if t.nodes@[v as int].kind == kinds::ARRAY_NODE
                && !(child_at(t, i, kinds::MULTI_WRITE_NODE_REST as int) is Some)
                && lefts.len() == elems.len() && lefts.len() > 0
                && (forall|j: int| 0 <= j < lefts.len() ==> #[trigger] pair_matches(t, lefts[j] as int, elems[j] as int)) {
                Some(whole(t, i, t.nodes@[lefts[0] as int].end))
            } else {
                None
            }
        },
        None => None,
    }
}

/// `foo.bar ||= foo.bar` and `foo.bar &&= foo.bar`, with the receiver, read
/// name and value fields `rf`, `nf`, `vf`.
pub open spec fn call_write_offense(s: Seq<u8>, t: SyntaxTree, i: int, rf: usize, nf: usize, vf: usize)
    -> Option<SelfAssignmentOffense>
{
    match (child_at(t, i, vf as int), text_at(t, i, nf as int)) {
        (Some(v), Some(read_name)) => {
            let recv = child_at(t, i, rf as int);
            if t.nodes@[v as int].kind == kinds::CALL_NODE
                && args_of(t, v as int, kinds::CALL_NODE_ARGUMENTS as int).len() == 0
                && text_at(t, v as int, kinds::CALL_NODE_NAME as int) == Some(read_name)
                && same_operand(s, t, recv, child_at(t, v as int, kinds::CALL_NODE_RECEIVER as int)) {
                Some(whole(t, i, receiver_anchor(t, i, recv)))
            } else {
                None
            }
        },
        _ => None,
    }
}

/// The name `[]`.
pub open spec fn index_name() -> Seq<u8> {
    seq![91u8, 93u8]
}

/// The name `[]=`.
pub open spec fn index_write_name() -> Seq<u8> {
    seq![91u8, 93u8, 61u8]
}

/// `foo[k] ||= foo[k]` and `foo[k] &&= foo[k]`, with the receiver, arguments
/// and value fields `rf`, `af`, `vf`.
pub open spec fn index_write_offense(s: Seq<u8>, t: SyntaxTree, i: int, rf: usize, af: usize, vf: usize)
    -> Option<SelfAssignmentOffense>
{
    match child_at(t, i, vf as int) {
        Some(v) => {
            let recv = child_at(t, i, rf as int);
            let lhs = args_of(t, i, af as int);
            if t.nodes@[v as int].kind == kinds::CALL_NODE
                && text_at(t, v as int, kinds::CALL_NODE_NAME as int) == Some(index_name())
                && same_operand(s, t, recv, child_at(t, v as int, kinds::CALL_NODE_RECEIVER as int))
                && no_call(t, lhs)
                && all_same(s, t, lhs, args_of(t, v as int, kinds::CALL_NODE_ARGUMENTS as int)) {
                Some(whole(t, i, receiver_anchor(t, i, recv)))
            } else {
                None
            }
        },
        None => None,
    }
}

/// A setter name: it ends in `=` and is no comparison (`==`, `===`, `!=`,
/// `<=`, `>=`) and not `[]=`.
pub open spec fn is_assignment_method(n: Seq<u8>) -> bool {
    &&& n.len() > 0
    &&& n.last() == 61u8
    &&& n != seq![61u8, 61u8]
    &&& n != seq![61u8, 61u8, 61u8]
    &&& n != seq![33u8, 61u8]
    &&& n != seq![60u8, 61u8]
    &&& n != seq![62u8, 61u8]
    &&& n != index_write_name()
}

/// `foo[k] = foo[k]` and `foo.bar = foo.bar` (method calls).
pub open spec fn send_offense(s: Seq<u8>, t: SyntaxTree, i: int) -> Option<SelfAssignmentOffense> {
    match text_at(t, i, kinds::CALL_NODE_NAME as int) {
        Some(n) => {
            let args = args_of(t, i, kinds::CALL_NODE_ARGUMENTS as int);
            let recv = child_at(t, i, kinds::CALL_NODE_RECEIVER as int);
            if n == index_write_name() {
                if args.len() > 0 {
                    let v = args.last();
                    let keys = args.drop_last();
                    if t.nodes@[v as int].kind == kinds::CALL_NODE
                        && text_at(t, v as int, kinds::CALL_NODE_NAME as int) == Some(index_name())
                        && no_call(t, keys)
                        && same_operand(s, t, recv, child_at(t, v as int, kinds::CALL_NODE_RECEIVER as int))
                        && all_same(s, t, keys, args_of(t, v as int, kinds::CALL_NODE_ARGUMENTS as int)) {
                        Some(whole(t, i, receiver_anchor(t, i, recv)))
                    } else {
                        None
                    }
                } else {
                    None
                }
            } else if is_assignment_method(n) && args.len() == 1 {
                let a = args[0];
                if t.nodes@[a as int].kind == kinds::CALL_NODE
                    && args_of(t, a as int, kinds::CALL_NODE_ARGUMENTS as int).len() == 0
                    && same_operand(s, t, recv, child_at(t, a as int, kinds::CALL_NODE_RECEIVER as int))
                    && text_at(t, a as int, kinds::CALL_NODE_NAME as int) == Some(n.drop_last()) {
                    Some(whole(t, i, receiver_anchor(t, i, recv)))
                } else {
                    None
                }
            } else {
                None
            }
        },
        None => None,
    }
}

/// The offense of node `i`, if it is a self-assignment.
pub open spec fn offense_at(s: Seq<u8>, t: SyntaxTree, i: int) -> Option<SelfAssignmentOffense> {
    let k = t.nodes@[i].kind;
    if var_shape(k) is Some {
        var_offense(s, t, i)
    } else if const_shape(k) is Some {
        const_offense(s, t, i)
    } else if k == kinds::CONSTANT_PATH_WRITE_NODE {
        path_write_offense(s, t, i)
    } else if k == kinds::MULTI_WRITE_NODE {
        multi_offense(s, t, i)
    } else if k == kinds::CALL_OR_WRITE_NODE {
        call_write_offense(s, t, i, kinds::CALL_OR_WRITE_NODE_RECEIVER, kinds::CALL_OR_WRITE_NODE_READ_NAME,
            kinds::CALL_OR_WRITE_NODE_VALUE)
    } else if k == kinds::CALL_AND_WRITE_NODE {
        call_write_offense(s, t, i, kinds::CALL_AND_WRITE_NODE_RECEIVER, kinds::CALL_AND_WRITE_NODE_READ_NAME,
            kinds::CALL_AND_WRITE_NODE_VALUE)
    } else if k == kinds::INDEX_OR_WRITE_NODE {
        index_write_offense(s, t, i, kinds::INDEX_OR_WRITE_NODE_RECEIVER, kinds::INDEX_OR_WRITE_NODE_ARGUMENTS,
            kinds::INDEX_OR_WRITE_NODE_VALUE)
    } else if k == kinds::INDEX_AND_WRITE_NODE {
        index_write_offense(s, t, i, kinds::INDEX_AND_WRITE_NODE_RECEIVER, kinds::INDEX_AND_WRITE_NODE_ARGUMENTS,
            kinds::INDEX_AND_WRITE_NODE_VALUE)
    } else if k == kinds::CALL_NODE {
        send_offense(s, t, i)
    } else {
        None
    }
}

/// The offenses of the first `k` nodes, in node order.
pub open spec fn offenses_upto(s: Seq<u8>, t: SyntaxTree, k: int) -> Seq<SelfAssignmentOffense>
    decreases k,
{
    if k <= 0 {
        Seq::empty()
    } else {
        let prev = offenses_upto(s, t, k - 1);
        match offense_at(s, t, k - 1) {
            Some(o) => prev.push(o),
            None => prev,
        }
    }
}

/// The offenses of `source`.
pub fn check_self_assignment(source: &[u8]) -> (r: Vec<SelfAssignmentOffense>)
    ensures
        exists|t: SyntaxTree| #[trigger] tree_of(t, source@) && (if tree_wf(t) {
            &&& r@ == offenses_upto(source@, t, t.nodes@.len() as int)
        } else {
            r@.len() == 0
        }),
{
    let t = parse_tree(source);
    if !check_tree(&t) {
        assert(tree_of(t, source@));
        return Vec::new();
    }
    let r = self_assignment_offenses(source, &t);
    assert(tree_of(t, source@));
    r
}

/// The offenses of the parsed `source`: one per self-assigning node, in node
/// order.
pub fn self_assignment_offenses(source: &[u8], t: &SyntaxTree) -> (r: Vec<SelfAssignmentOffense>)
    requires
        tree_wf(*t),
        t.source_len == source@.len(),
    ensures
        r@ == offenses_upto(source@, *t, t.nodes@.len() as int),
{
    let mut out: Vec<SelfAssignmentOffense> = Vec::new();
    let mut i: usize = 0;
    while i < t.nodes.len()
        invariant
            tree_wf(*t),
            t.source_len == source@.len(),
            i <= t.nodes@.len(),
            out@ == offenses_upto(source@, *t, i as int),
        decreases t.nodes.len() - i,
    {
        match offense_of(source, t, i) {
            Some(o) => out.push(o),
            None => {},
        }
        i += 1;
    }
    out
}

/// The offense of node `i`, if it is a self-assignment.
pub fn offense_of(source: &[u8], t: &SyntaxTree, i: usize) -> (r: Option<SelfAssignmentOffense>)
    requires
        tree_wf(*t),
        t.source_len == source@.len(),
        i < t.nodes@.len(),
    ensures
        r == offense_at(source@, *t, i as int),
{
    let k = t.nodes[i].kind;
    if var_shape_of(k).is_some() {
        var_offense_of(source, t, i)
    } else if const_shape_of(k).is_some() {
        const_offense_of(source, t, i)
    } else if k == kinds::CONSTANT_PATH_WRITE_NODE {
        path_write_offense_of(source, t, i)
    } else if k == kinds::MULTI_WRITE_NODE {
        multi_offense_of(source, t, i)
    } else if k == kinds::CALL_OR_WRITE_NODE {
        call_write_offense_of(source, t, i, kinds::CALL_OR_WRITE_NODE_RECEIVER,
            kinds::CALL_OR_WRITE_NODE_READ_NAME, kinds::CALL_OR_WRITE_NODE_VALUE)
    } else if k == kinds::CALL_AND_WRITE_NODE {
        call_write_offense_of(source, t, i, kinds::CALL_AND_WRITE_NODE_RECEIVER,
            kinds::CALL_AND_WRITE_NODE_READ_NAME, kinds::CALL_AND_WRITE_NODE_VALUE)
    } else if k == kinds::INDEX_OR_WRITE_NODE {
        index_write_offense_of(source, t, i, kinds::INDEX_OR_WRITE_NODE_RECEIVER,
            kinds::INDEX_OR_WRITE_NODE_ARGUMENTS, kinds::INDEX_OR_WRITE_NODE_VALUE)
    } else if k == kinds::INDEX_AND_WRITE_NODE {
        index_write_offense_of(source, t, i, kinds::INDEX_AND_WRITE_NODE_RECEIVER,
            kinds::INDEX_AND_WRITE_NODE_ARGUMENTS, kinds::INDEX_AND_WRITE_NODE_VALUE)
    } else if k == kinds::CALL_NODE {
        send_offense_of(source, t, i)
    } else {
        None
    }
}

/// [`same_node`].
fn same_node_of(source: &[u8], t: &SyntaxTree, a: usize, b: usize) -> (r: bool)
    requires
        tree_wf(*t),
        t.source_len == source@.len(),
        a < t.nodes@.len(),
        b < t.nodes@.len(),
    ensures
        r == same_node(source@, *t, a as int, b as int),
{
    assert(crate::syntax::node_wf(*t, a as int, t.source_len as nat));
    assert(crate::syntax::node_wf(*t, b as int, t.source_len as nat));
    let na = &t.nodes[a];
    let nb = &t.nodes[b];
    na.kind == nb.kind && ranges_equal(source, na.start, na.end, nb.start, nb.end)
}

/// [`same_operand`].
fn same_operand_of(source: &[u8], t: &SyntaxTree, a: Option<usize>, b: Option<usize>) -> (r: bool)
    requires
        tree_wf(*t),
        t.source_len == source@.len(),
        a matches Some(x) ==> x < t.nodes@.len(),
        b matches Some(y) ==> y < t.nodes@.len(),
    ensures
        r == same_operand(source@, *t, a, b),
{
    match (a, b) {
        (None, None) => true,
        (Some(x), Some(y)) => same_node_of(source, t, x, y),
        _ => false,
    }
}

/// [`all_same`] of the first `n` nodes of `a` and all of `b`.
fn all_same_of(source: &[u8], t: &SyntaxTree, a: &Vec<usize>, n: usize, b: &Vec<usize>) -> (r: bool)
    requires
        tree_wf(*t),
        t.source_len == source@.len(),
        n <= a@.len(),
        indices_in(a@, t.nodes@.len() as nat),
        indices_in(b@, t.nodes@.len() as nat),
    ensures
        r == all_same(source@, *t, a@.subrange(0, n as int), b@),
{
    if n != b.len() {
        return false;
    }
    let mut j: usize = 0;
    while j < n
        invariant
            tree_wf(*t),
            t.source_len == source@.len(),
            n <= a@.len(),
            n == b@.len(),
            j <= n,
            indices_in(a@, t.nodes@.len() as nat),
            indices_in(b@, t.nodes@.len() as nat),
            forall|q: int| 0 <= q < j ==> #[trigger] same_node(source@, *t, a@[q] as int, b@[q] as int),
        decreases n - j,
    {
        if !same_node_of(source, t, a[j], b[j]) {
            assert(a@.subrange(0, n as int)[j as int] == a@[j as int]);
            return false;
        }
        j += 1;
    }
    assert forall|q: int| 0 <= q < n implies #[trigger] same_node(source@, *t, a@.subrange(0, n as int)[q] as int, b@[q] as int) by {
        assert(a@.subrange(0, n as int)[q] == a@[q]);
    }
    true
}

/// [`no_call`] of the first `n` nodes of `a`.
fn no_call_of(t: &SyntaxTree, a: &Vec<usize>, n: usize) -> (r: bool)
    requires
        n <= a@.len(),
        indices_in(a@, t.nodes@.len() as nat),
    ensures
        r == no_call(*t, a@.subrange(0, n as int)),
{
    let mut j: usize = 0;
    while j < n
        invariant
            n <= a@.len(),
            j <= n,
            indices_in(a@, t.nodes@.len() as nat),
            forall|q: int| 0 <= q < j ==> t.nodes@[#[trigger] a@[q] as int].kind != kinds::CALL_NODE,
        decreases n - j,
    {
        if t.nodes[a[j]].kind == kinds::CALL_NODE {
            assert(a@.subrange(0, n as int)[j as int] == a@[j as int]);
            return false;
        }
        j += 1;
    }
    assert forall|q: int| 0 <= q < n implies t.nodes@[#[trigger] a@.subrange(0, n as int)[q] as int].kind != kinds::CALL_NODE by {
        assert(a@.subrange(0, n as int)[q] == a@[q]);
    }
    true
}

/// Whether the name in field `f` of node `i` is `w`.
fn text_is(t: &SyntaxTree, i: usize, f: usize, w: &[u8]) -> (r: bool)
    requires
        i < t.nodes@.len(),
    ensures
        r == (text_at(*t, i as int, f as int) == Some(w@)),
{
    match text(t, i, f) {
        Some(v) => vec_is(v, w),
        None => false,
    }
}

/// Whether the names in field `f` of node `i` and field `g` of node `j` are
/// both there and equal.
fn texts_equal(t: &SyntaxTree, i: usize, f: usize, j: usize, g: usize) -> (r: bool)
    requires
        i < t.nodes@.len(),
        j < t.nodes@.len(),
    ensures
        r == (text_at(*t, i as int, f as int) is Some && text_at(*t, i as int, f as int) == text_at(*t, j as int, g as int)),
{
    match (text(t, i, f), text(t, j, g)) {
        (Some(a), Some(b)) => vec_is(a, b.as_slice()),
        _ => false,
    }
}

/// The offense covering node `i` with annotation anchor `anchor`.
fn whole_of(t: &SyntaxTree, i: usize, anchor: usize) -> (r: SelfAssignmentOffense)
    requires
        i < t.nodes@.len(),
    ensures
        r == whole(*t, i as int, anchor),
{
    SelfAssignmentOffense { start_offset: t.nodes[i].start, end_offset: t.nodes[i].end, rbs_anchor_offset: anchor }
}

/// [`receiver_anchor`].
fn receiver_anchor_of(t: &SyntaxTree, i: usize, recv: Option<usize>) -> (r: usize)
    requires
        i < t.nodes@.len(),
        recv matches Some(x) ==> x < t.nodes@.len(),
    ensures
        r == receiver_anchor(*t, i as int, recv),
{
    match recv {
        Some(x) => t.nodes[x].end,
        None => t.nodes[i].start,
    }
}

/// [`var_offense`].
fn var_offense_of(source: &[u8], t: &SyntaxTree, i: usize) -> (r: Option<SelfAssignmentOffense>)
    requires
        tree_wf(*t),
        i < t.nodes@.len(),
    ensures
        r == var_offense(source@, *t, i as int),
{
    match var_shape_of(t.nodes[i].kind) {
        Some((rk, nf, vf, rnf, nl)) => {
            match child(t, i, vf) {
                Some(v) => {
                    if text(t, i, nf).is_none() {
                        return None;
                    }
                    if t.nodes[v].kind == rk && texts_equal(t, i, nf, v, rnf) {
                        match nl {
                            None => Some(whole_of(t, i, t.nodes[v].end)),
                            Some(f) => match range(t, i, f) {
                                Some((_, e)) => Some(whole_of(t, i, e)),
                                None => None,
                            },
                        }
                    } else {
                        None
                    }
                },
                None => None,
            }
        },
        None => None,
    }
}

/// [`path_namespace`].
fn path_namespace_of(t: &SyntaxTree, p: usize) -> (r: Namespace)
    requires
        tree_wf(*t),
        p < t.nodes@.len(),
    ensures
        r == path_namespace(*t, p as int),
        r matches Namespace::Path(x) ==> x < t.nodes@.len(),
{
    match child(t, p, kinds::CONSTANT_PATH_NODE_PARENT) {
        Some(x) => Namespace::Path(x),
        None => Namespace::Cbase,
    }
}

/// [`const_ref`], with the short name as a vector.
fn const_ref_of<'a>(t: &'a SyntaxTree, v: usize) -> (r: Option<(Namespace, &'a Vec<u8>)>)
    requires
        tree_wf(*t),
        v < t.nodes@.len(),
    ensures
        match r {
            Some((ns, n)) => const_ref(*t, v as int) == Some((ns, n@))
                && (ns matches Namespace::Path(x) ==> x < t.nodes@.len()),
            None => const_ref(*t, v as int) is None,
        },
{
    if t.nodes[v].kind == kinds::CONSTANT_READ_NODE {
        match text(t, v, kinds::CONSTANT_READ_NODE_NAME) {
            Some(n) => Some((Namespace::Bare, n)),
            None => None,
        }
    } else if t.nodes[v].kind == kinds::CONSTANT_PATH_NODE {
        match text(t, v, kinds::CONSTANT_PATH_NODE_NAME) {
            Some(n) => Some((path_namespace_of(t, v), n)),
            None => None,
        }
    } else {
        None
    }
}

/// [`same_namespace`].
fn same_namespace_of(source: &[u8], t: &SyntaxTree, a: &Namespace, b: &Namespace) -> (r: bool)
    requires
        tree_wf(*t),
        t.source_len == source@.len(),
        *a matches Namespace::Path(x) ==> x < t.nodes@.len(),
        *b matches Namespace::Path(y) ==> y < t.nodes@.len(),
    ensures
        r == same_namespace(source@, *t, *a, *b),
{
    match (a, b) {
        (Namespace::Bare, Namespace::Bare) => true,
        (Namespace::Cbase, Namespace::Cbase) => true,
        (Namespace::Path(x), Namespace::Path(y)) => {
            assert(crate::syntax::node_wf(*t, *x as int, t.source_len as nat));
            assert(crate::syntax::node_wf(*t, *y as int, t.source_len as nat));
            let nx = &t.nodes[*x];
            let ny = &t.nodes[*y];
            ranges_equal(source, nx.start, nx.end, ny.start, ny.end)
        },
        _ => false,
    }
}

/// [`const_offense`].
fn const_offense_of(source: &[u8], t: &SyntaxTree, i: usize) -> (r: Option<SelfAssignmentOffense>)
    requires
        tree_wf(*t),
        t.source_len == source@.len(),
        i < t.nodes@.len(),
    ensures
        r == const_offense(source@, *t, i as int),
{
    match const_shape_of(t.nodes[i].kind) {
        Some((nf, vf, nl)) => match (child(t, i, vf), text(t, i, nf)) {
            (Some(v), Some(name)) => match const_ref_of(t, v) {
                Some((ns, short)) => {
                    if vec_is(short, name.as_slice()) && same_namespace_of(source, t, &Namespace::Bare, &ns) {
                        match nl {
                            None => Some(whole_of(t, i, t.nodes[v].end)),
                            Some(f) => match range(t, i, f) {
                                Some((_, e)) => Some(whole_of(t, i, e)),
                                None => None,
                            },
                        }
                    } else {
                        None
                    }
                },
                None => None,
            },
            _ => None,
        },
        None => None,
    }
}

/// [`path_write_offense`].
fn path_write_offense_of(source: &[u8], t: &SyntaxTree, i: usize) -> (r: Option<SelfAssignmentOffense>)
    requires
        tree_wf(*t),
        t.source_len == source@.len(),
        i < t.nodes@.len(),
    ensures
        r == path_write_offense(source@, *t, i as int),
{
    match (child(t, i, kinds::CONSTANT_PATH_WRITE_NODE_TARGET), child(t, i, kinds::CONSTANT_PATH_WRITE_NODE_VALUE)) {
        (Some(tg), Some(v)) => match (text(t, tg, kinds::CONSTANT_PATH_NODE_NAME), const_ref_of(t, v)) {
            (Some(short), Some((ns, rshort))) => {
                let lns = path_namespace_of(t, tg);
                if vec_is(short, rshort.as_slice()) && same_namespace_of(source, t, &lns, &ns) {
                    Some(whole_of(t, i, t.nodes[v].end))
                } else {
                    None
                }
            },
            _ => None,
        },
        _ => None,
    }
}

/// [`pair_matches`].
fn pair_matches_of(t: &SyntaxTree, l: usize, r: usize) -> (b: bool)
    requires
        l < t.nodes@.len(),
        r < t.nodes@.len(),
    ensures
        b == pair_matches(*t, l as int, r as int),
{
    match pair_shape_of(t.nodes[l].kind) {
        Some((rk, lf, rf)) => t.nodes[r].kind == rk && texts_equal(t, l, lf, r, rf),
        None => false,
    }
}

/// [`multi_offense`].
fn multi_offense_of(source: &[u8], t: &SyntaxTree, i: usize) -> (r: Option<SelfAssignmentOffense>)
    requires
        tree_wf(*t),
        i < t.nodes@.len(),
    ensures
        r == multi_offense(source@, *t, i as int),
{
    let ghost lefts_s = list_at(*t, i as int, kinds::MULTI_WRITE_NODE_LEFTS as int);
    let v = match child(t, i, kinds::MULTI_WRITE_NODE_VALUE) {
        Some(v) => v,
        None => return None,
    };
    let ghost elems_s = list_at(*t, v as int, kinds::ARRAY_NODE_ELEMENTS as int);
    if t.nodes[v].kind != kinds::ARRAY_NODE || child(t, i, kinds::MULTI_WRITE_NODE_REST).is_some() {
        return None;
    }
    let lefts = match children(t, i, kinds::MULTI_WRITE_NODE_LEFTS) {
        Some(l) => l,
        None => return None,
    };
    let elems = match children(t, v, kinds::ARRAY_NODE_ELEMENTS) {
        Some(e) => e,
        None => {
            assert(elems_s.len() == 0);
            return None;
        },
    };
    if lefts.len() != elems.len() || lefts.len() == 0 {
        return None;
    }
    let mut j: usize = 0;
    while j < lefts.len()
        invariant
            j <= lefts@.len(),
            lefts@.len() == elems@.len(),
            lefts@.len() > 0,
            i < t.nodes@.len(),
            v < t.nodes@.len(),
            child_at(*t, i as int, kinds::MULTI_WRITE_NODE_VALUE as int) == Some(v),
            !(child_at(*t, i as int, kinds::MULTI_WRITE_NODE_REST as int) is Some),
            t.nodes@[v as int].kind == kinds::ARRAY_NODE,
            lefts_s == list_at(*t, i as int, kinds::MULTI_WRITE_NODE_LEFTS as int),
            elems_s == list_at(*t, v as int, kinds::ARRAY_NODE_ELEMENTS as int),
            lefts@ == lefts_s,
            elems@ == elems_s,
            indices_in(lefts@, t.nodes@.len() as nat),
            indices_in(elems@, t.nodes@.len() as nat),
            forall|q: int| 0 <= q < j ==> #[trigger] pair_matches(*t, lefts_s[q] as int, elems_s[q] as int),
        decreases lefts.len() - j,
    {
        if !pair_matches_of(t, lefts[j], elems[j]) {
            assert(!pair_matches(*t, lefts_s[j as int] as int, elems_s[j as int] as int));
            return None;
        }
        j += 1;
    }
    Some(whole_of(t, i, t.nodes[lefts[0]].end))
}

/// [`call_write_offense`].
fn call_write_offense_of(source: &[u8], t: &SyntaxTree, i: usize, rf: usize, nf: usize, vf: usize)
    -> (r: Option<SelfAssignmentOffense>)
    requires
        tree_wf(*t),
        t.source_len == source@.len(),
        i < t.nodes@.len(),
    ensures
        r == call_write_offense(source@, *t, i as int, rf, nf, vf),
{
    match (child(t, i, vf), text(t, i, nf)) {
        (Some(v), Some(_)) => {
            let recv = child(t, i, rf);
            if t.nodes[v].kind == kinds::CALL_NODE
                && arg_count(t, v, kinds::CALL_NODE_ARGUMENTS) == 0
                && texts_equal(t, i, nf, v, kinds::CALL_NODE_NAME)
                && same_operand_of(source, t, recv, child(t, v, kinds::CALL_NODE_RECEIVER)) {
                Some(whole_of(t, i, receiver_anchor_of(t, i, recv)))
            } else {
                None
            }
        },
        _ => None,
    }
}

/// [`index_write_offense`].
fn index_write_offense_of(source: &[u8], t: &SyntaxTree, i: usize, rf: usize, af: usize, vf: usize)
    -> (r: Option<SelfAssignmentOffense>)
    requires
        tree_wf(*t),
        t.source_len == source@.len(),
        i < t.nodes@.len(),
    ensures
        r == index_write_offense(source@, *t, i as int, rf, af, vf),
{
    let v = match child(t, i, vf) {
        Some(v) => v,
        None => return None,
    };
    let recv = child(t, i, rf);
    if t.nodes[v].kind != kinds::CALL_NODE || !text_is(t, v, kinds::CALL_NODE_NAME, &[91u8, 93u8])
        || !same_operand_of(source, t, recv, child(t, v, kinds::CALL_NODE_RECEIVER)) {
        proof {
            assert(seq![91u8, 93u8] =~= index_name());
        }
        return None;
    }
    proof {
        assert(seq![91u8, 93u8] =~= index_name());
    }
    let empty: Vec<usize> = Vec::new();
    let lhs = match args_of_node(t, i, af) {
        Some(l) => l,
        None => &empty,
    };
    let rhs = match args_of_node(t, v, kinds::CALL_NODE_ARGUMENTS) {
        Some(a) => a,
        None => &empty,
    };
    assert(lhs@.subrange(0, lhs@.len() as int) =~= lhs@);
    if no_call_of(t, lhs, lhs.len()) && all_same_of(source, t, lhs, lhs.len(), rhs) {
        Some(whole_of(t, i, receiver_anchor_of(t, i, recv)))
    } else {
        None
    }
}

/// [`is_assignment_method`].
fn is_assignment_method_of(n: &Vec<u8>) -> (r: bool)
    ensures
        r == is_assignment_method(n@),
{
    proof {
        assert(seq![91u8, 93u8, 61u8] =~= index_write_name());
    }
    n.len() > 0 && n[n.len() - 1] == 61u8 && !vec_is(n, &[61u8, 61u8]) && !vec_is(n, &[61u8, 61u8, 61u8])
        && !vec_is(n, &[33u8, 61u8]) && !vec_is(n, &[60u8, 61u8]) && !vec_is(n, &[62u8, 61u8])
        && !vec_is(n, &[91u8, 93u8, 61u8])
}

/// [`send_offense`].
fn send_offense_of(source: &[u8], t: &SyntaxTree, i: usize) -> (r: Option<SelfAssignmentOffense>)
    requires
        tree_wf(*t),
        t.source_len == source@.len(),
        i < t.nodes@.len(),
    ensures
        r == send_offense(source@, *t, i as int),
{
    proof {
        assert(seq![91u8, 93u8] =~= index_name());
        assert(seq![91u8, 93u8, 61u8] =~= index_write_name());
    }
    let n = match text(t, i, kinds::CALL_NODE_NAME) {
        Some(n) => n,
        None => return None,
    };
    let empty: Vec<usize> = Vec::new();
    let args = match args_of_node(t, i, kinds::CALL_NODE_ARGUMENTS) {
        Some(a) => a,
        None => &empty,
    };
    let recv = child(t, i, kinds::CALL_NODE_RECEIVER);
    if vec_is(n, &[91u8, 93u8, 61u8]) {
        if args.len() == 0 {
            return None;
        }
        let nk = args.len() - 1;
        let v = args[nk];
        assert(args@.drop_last() =~= args@.subrange(0, nk as int));
        if t.nodes[v].kind != kinds::CALL_NODE || !text_is(t, v, kinds::CALL_NODE_NAME, &[91u8, 93u8]) {
            return None;
        }
        if !no_call_of(t, args, nk) || !same_operand_of(source, t, recv, child(t, v, kinds::CALL_NODE_RECEIVER)) {
            return None;
        }
        let vargs = match args_of_node(t, v, kinds::CALL_NODE_ARGUMENTS) {
            Some(a) => a,
            None => &empty,
        };
        if all_same_of(source, t, args, nk, vargs) {
            Some(whole_of(t, i, receiver_anchor_of(t, i, recv)))
        } else {
            None
        }
    } else if is_assignment_method_of(n) && args.len() == 1 {
        let a = args[0];
        if t.nodes[a].kind != kinds::CALL_NODE || arg_count(t, a, kinds::CALL_NODE_ARGUMENTS) != 0
            || !same_operand_of(source, t, recv, child(t, a, kinds::CALL_NODE_RECEIVER)) {
            return None;
        }
        let stripped = n.len() - 1;
        let matches = match text(t, a, kinds::CALL_NODE_NAME) {
            Some(an) => range_is(n.as_slice(), 0, stripped, an.as_slice()) ,
            None => false,
        };
        proof {
            assert(n@.drop_last() =~= n@.subrange(0, stripped as int));
        }
        if matches {
            Some(whole_of(t, i, receiver_anchor_of(t, i, recv)))
        } else {
            None
        }
    } else {
        None
    }
}

} // verus!
