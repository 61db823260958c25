//! Parsing with prism and flattening its tree into a [`SyntaxTree`].

use vstd::prelude::*;
use ruby_prism::{ConstantId, Location, Node, NodeList};
use super::{Field, SyntaxNode, SyntaxTree, field_in, field_range_in, node_wf, tree_wf};
use super::fields::read_node;
use super::kinds;

verus! {

#[verifier::external_type_specification]
#[verifier::external_body]
pub struct ExNode<'a>(Node<'a>);

#[verifier::external_type_specification]
#[verifier::external_body]
pub struct ExLocation<'a>(Location<'a>);

#[verifier::external_type_specification]
#[verifier::external_body]
pub struct ExNodeList<'a>(NodeList<'a>);

#[verifier::external_type_specification]
#[verifier::external_body]
pub struct ExConstantId<'a>(ConstantId<'a>);

/// One field of a prism node as read, before its child nodes are flattened.
pub enum Slot<'a> {
    Child(Node<'a>),
    Children(Vec<Node<'a>>),
    Range(usize, usize),
    Text(Vec<u8>),
    Number(u32),
    Absent,
    Skipped,
}

/// What prism's parse of `source` gives, converted into plain values: the
/// nodes in pre-order with their kinds, ranges, flags and fields, the comment
/// ranges and the start of the `__END__` section. The parse depends on the
/// source bytes alone.
pub uninterp spec fn prism_tree(source: Seq<u8>) -> SyntaxTree;

/// `ruby_prism::parse` with the default options, its result converted into
/// plain values: the root and its descendants in pre-order ([`add_node`],
/// each node flagged as reached through a generic visit), the ranges of
/// `ParseResult::comments` and the start of `ParseResult::data_loc`. Claimed:
/// the tree is [`prism_tree`] of the source, and it records the source's
/// length.
#[verifier::external_body]
fn prism_tree_of(source: &[u8]) -> (t: SyntaxTree)
    ensures
        t == prism_tree(source@),
        t.source_len == source@.len(),
{
    let r = ruby_prism::parse(source);
    let mut nodes: Vec<SyntaxNode> = Vec::new();
    add_node(&r.node(), &mut nodes, usize::MAX);
    let comments = r.comments().map(|c| (c.location().start() as usize, c.location().end() as usize)).collect();
    SyntaxTree { source_len: source.len(), nodes, comments, data_start: r.data_loc().map(|l| l.start() as usize) }
}

/// `Node::location`: the start and end offsets of a node. Nothing is claimed
/// of them.
#[verifier::external_body]
fn node_range(n: &Node<'_>) -> (usize, usize) {
    let l = n.location();
    (l.start() as usize, l.end() as usize)
}

/// A required child node, as read from a field accessor of a prism node.
/// Nothing is claimed of it.
#[verifier::external_body]
pub(crate) fn child<'a>(n: Node<'a>) -> Slot<'a> {
    Slot::Child(n)
}

/// An optional child node, as read from a field accessor. Nothing is claimed
/// of it.
#[verifier::external_body]
pub(crate) fn opt_child<'a>(n: Option<Node<'a>>) -> Slot<'a> {
    n.map_or(Slot::Absent, Slot::Child)
}

/// `NodeList::iter`: the nodes of a list field, in order. Nothing is claimed
/// of them.
#[verifier::external_body]
pub(crate) fn list<'a>(l: &NodeList<'a>) -> Slot<'a> {
    Slot::Children(l.iter().collect())
}

/// `Location::start` and `Location::end`: a required byte range. Nothing is
/// claimed of it.
#[verifier::external_body]
pub(crate) fn loc<'a>(l: &Location<'_>) -> Slot<'a> {
    Slot::Range(l.start() as usize, l.end() as usize)
}

/// `Location::start` and `Location::end` of an optional location. Nothing is
/// claimed of them.
#[verifier::external_body]
pub(crate) fn opt_loc<'a>(l: Option<Location<'_>>) -> Slot<'a> {
    l.map_or(Slot::Absent, |l| Slot::Range(l.start() as usize, l.end() as usize))
}

/// `ConstantId::as_slice`: the bytes of a name. Nothing is claimed of them.
#[verifier::external_body]
pub(crate) fn name<'a>(c: &ConstantId<'_>) -> Slot<'a> {
    Slot::Text(c.as_slice().to_vec())
}

/// `ConstantId::as_slice` of an optional name. Nothing is claimed of it.
#[verifier::external_body]
pub(crate) fn opt_name<'a>(c: Option<ConstantId<'_>>) -> Slot<'a> {
    c.map_or(Slot::Absent, |c| Slot::Text(c.as_slice().to_vec()))
}

/// Field `f` of a node of kind `kind` holds a child of one particular node
/// type (a statements, arguments, parameters, else, ensure, rescue or target
/// node, ...): prism's visitor enters such a child through its own visit
/// method, not through the generic visit, so the walk does not report it.
pub open spec fn typed_child_field(kind: u16, f: usize) -> bool {
    ||| (kind == kinds::BEGIN_NODE && (f == kinds::BEGIN_NODE_STATEMENTS || f == kinds::BEGIN_NODE_RESCUE_CLAUSE || f == kinds::BEGIN_NODE_ELSE_CLAUSE || f == kinds::BEGIN_NODE_ENSURE_CLAUSE))
    ||| (kind == kinds::BLOCK_PARAMETERS_NODE && (f == kinds::BLOCK_PARAMETERS_NODE_PARAMETERS))
    ||| (kind == kinds::BREAK_NODE && (f == kinds::BREAK_NODE_ARGUMENTS))
    ||| (kind == kinds::CALL_NODE && (f == kinds::CALL_NODE_ARGUMENTS))
    ||| (kind == kinds::CAPTURE_PATTERN_NODE && (f == kinds::CAPTURE_PATTERN_NODE_TARGET))
    ||| (kind == kinds::CASE_MATCH_NODE && (f == kinds::CASE_MATCH_NODE_ELSE_CLAUSE))
    ||| (kind == kinds::CASE_NODE && (f == kinds::CASE_NODE_ELSE_CLAUSE))
    ||| (kind == kinds::CONSTANT_PATH_AND_WRITE_NODE && (f == kinds::CONSTANT_PATH_AND_WRITE_NODE_TARGET))
    ||| (kind == kinds::CONSTANT_PATH_OPERATOR_WRITE_NODE && (f == kinds::CONSTANT_PATH_OPERATOR_WRITE_NODE_TARGET))
    ||| (kind == kinds::CONSTANT_PATH_OR_WRITE_NODE && (f == kinds::CONSTANT_PATH_OR_WRITE_NODE_TARGET))
    ||| (kind == kinds::CONSTANT_PATH_WRITE_NODE && (f == kinds::CONSTANT_PATH_WRITE_NODE_TARGET))
    ||| (kind == kinds::DEF_NODE && (f == kinds::DEF_NODE_PARAMETERS))
    ||| (kind == kinds::ELSE_NODE && (f == kinds::ELSE_NODE_STATEMENTS))
    ||| (kind == kinds::EMBEDDED_STATEMENTS_NODE && (f == kinds::EMBEDDED_STATEMENTS_NODE_STATEMENTS))
    ||| (kind == kinds::ENSURE_NODE && (f == kinds::ENSURE_NODE_STATEMENTS))
    ||| (kind == kinds::FIND_PATTERN_NODE && (f == kinds::FIND_PATTERN_NODE_LEFT || f == kinds::FIND_PATTERN_NODE_RIGHT))
    ||| (kind == kinds::FOR_NODE && (f == kinds::FOR_NODE_STATEMENTS))
    ||| (kind == kinds::FORWARDING_SUPER_NODE && (f == kinds::FORWARDING_SUPER_NODE_BLOCK))
    ||| (kind == kinds::IF_NODE && (f == kinds::IF_NODE_STATEMENTS))
    ||| (kind == kinds::IN_NODE && (f == kinds::IN_NODE_STATEMENTS))
    ||| (kind == kinds::INDEX_AND_WRITE_NODE && (f == kinds::INDEX_AND_WRITE_NODE_ARGUMENTS || f == kinds::INDEX_AND_WRITE_NODE_BLOCK))
    ||| (kind == kinds::INDEX_OPERATOR_WRITE_NODE && (f == kinds::INDEX_OPERATOR_WRITE_NODE_ARGUMENTS || f == kinds::INDEX_OPERATOR_WRITE_NODE_BLOCK))
    ||| (kind == kinds::INDEX_OR_WRITE_NODE && (f == kinds::INDEX_OR_WRITE_NODE_ARGUMENTS || f == kinds::INDEX_OR_WRITE_NODE_BLOCK))
    ||| (kind == kinds::INDEX_TARGET_NODE && (f == kinds::INDEX_TARGET_NODE_ARGUMENTS || f == kinds::INDEX_TARGET_NODE_BLOCK))
    ||| (kind == kinds::MATCH_WRITE_NODE && (f == kinds::MATCH_WRITE_NODE_CALL))
    ||| (kind == kinds::NEXT_NODE && (f == kinds::NEXT_NODE_ARGUMENTS))
    ||| (kind == kinds::POST_EXECUTION_NODE && (f == kinds::POST_EXECUTION_NODE_STATEMENTS))
    ||| (kind == kinds::PRE_EXECUTION_NODE && (f == kinds::PRE_EXECUTION_NODE_STATEMENTS))
    ||| (kind == kinds::PROGRAM_NODE && (f == kinds::PROGRAM_NODE_STATEMENTS))
    ||| (kind == kinds::RESCUE_NODE && (f == kinds::RESCUE_NODE_STATEMENTS || f == kinds::RESCUE_NODE_SUBSEQUENT))
    ||| (kind == kinds::RETURN_NODE && (f == kinds::RETURN_NODE_ARGUMENTS))
    ||| (kind == kinds::SUPER_NODE && (f == kinds::SUPER_NODE_ARGUMENTS))
    ||| (kind == kinds::UNLESS_NODE && (f == kinds::UNLESS_NODE_STATEMENTS || f == kinds::UNLESS_NODE_ELSE_CLAUSE))
    ||| (kind == kinds::UNTIL_NODE && (f == kinds::UNTIL_NODE_STATEMENTS))
    ||| (kind == kinds::WHEN_NODE && (f == kinds::WHEN_NODE_STATEMENTS))
    ||| (kind == kinds::WHILE_NODE && (f == kinds::WHILE_NODE_STATEMENTS))
    ||| (kind == kinds::YIELD_NODE && (f == kinds::YIELD_NODE_ARGUMENTS))
}

/// Whether field `f` of a node of kind `kind` holds a child of one
/// particular node type ([`typed_child_field`]).
fn is_typed_child_field(kind: u16, f: usize) -> (r: bool)
    ensures
        r == typed_child_field(kind, f),
{
    (kind == kinds::BEGIN_NODE && (f == kinds::BEGIN_NODE_STATEMENTS || f == kinds::BEGIN_NODE_RESCUE_CLAUSE || f == kinds::BEGIN_NODE_ELSE_CLAUSE || f == kinds::BEGIN_NODE_ENSURE_CLAUSE))
        || (kind == kinds::BLOCK_PARAMETERS_NODE && (f == kinds::BLOCK_PARAMETERS_NODE_PARAMETERS))
        || (kind == kinds::BREAK_NODE && (f == kinds::BREAK_NODE_ARGUMENTS))
        || (kind == kinds::CALL_NODE && (f == kinds::CALL_NODE_ARGUMENTS))
        || (kind == kinds::CAPTURE_PATTERN_NODE && (f == kinds::CAPTURE_PATTERN_NODE_TARGET))
        || (kind == kinds::CASE_MATCH_NODE && (f == kinds::CASE_MATCH_NODE_ELSE_CLAUSE))
        || (kind == kinds::CASE_NODE && (f == kinds::CASE_NODE_ELSE_CLAUSE))
        || (kind == kinds::CONSTANT_PATH_AND_WRITE_NODE && (f == kinds::CONSTANT_PATH_AND_WRITE_NODE_TARGET))
        || (kind == kinds::CONSTANT_PATH_OPERATOR_WRITE_NODE && (f == kinds::CONSTANT_PATH_OPERATOR_WRITE_NODE_TARGET))
        || (kind == kinds::CONSTANT_PATH_OR_WRITE_NODE && (f == kinds::CONSTANT_PATH_OR_WRITE_NODE_TARGET))
        || (kind == kinds::CONSTANT_PATH_WRITE_NODE && (f == kinds::CONSTANT_PATH_WRITE_NODE_TARGET))
        || (kind == kinds::DEF_NODE && (f == kinds::DEF_NODE_PARAMETERS))
        || (kind == kinds::ELSE_NODE && (f == kinds::ELSE_NODE_STATEMENTS))
        || (kind == kinds::EMBEDDED_STATEMENTS_NODE && (f == kinds::EMBEDDED_STATEMENTS_NODE_STATEMENTS))
        || (kind == kinds::ENSURE_NODE && (f == kinds::ENSURE_NODE_STATEMENTS))
        || (kind == kinds::FIND_PATTERN_NODE && (f == kinds::FIND_PATTERN_NODE_LEFT || f == kinds::FIND_PATTERN_NODE_RIGHT))
        || (kind == kinds::FOR_NODE && (f == kinds::FOR_NODE_STATEMENTS))
        || (kind == kinds::FORWARDING_SUPER_NODE && (f == kinds::FORWARDING_SUPER_NODE_BLOCK))
        || (kind == kinds::IF_NODE && (f == kinds::IF_NODE_STATEMENTS))
        || (kind == kinds::IN_NODE && (f == kinds::IN_NODE_STATEMENTS))
        || (kind == kinds::INDEX_AND_WRITE_NODE && (f == kinds::INDEX_AND_WRITE_NODE_ARGUMENTS || f == kinds::INDEX_AND_WRITE_NODE_BLOCK))
        || (kind == kinds::INDEX_OPERATOR_WRITE_NODE && (f == kinds::INDEX_OPERATOR_WRITE_NODE_ARGUMENTS || f == kinds::INDEX_OPERATOR_WRITE_NODE_BLOCK))
        || (kind == kinds::INDEX_OR_WRITE_NODE && (f == kinds::INDEX_OR_WRITE_NODE_ARGUMENTS || f == kinds::INDEX_OR_WRITE_NODE_BLOCK))
        || (kind == kinds::INDEX_TARGET_NODE && (f == kinds::INDEX_TARGET_NODE_ARGUMENTS || f == kinds::INDEX_TARGET_NODE_BLOCK))
        || (kind == kinds::MATCH_WRITE_NODE && (f == kinds::MATCH_WRITE_NODE_CALL))
        || (kind == kinds::NEXT_NODE && (f == kinds::NEXT_NODE_ARGUMENTS))
        || (kind == kinds::POST_EXECUTION_NODE && (f == kinds::POST_EXECUTION_NODE_STATEMENTS))
        || (kind == kinds::PRE_EXECUTION_NODE && (f == kinds::PRE_EXECUTION_NODE_STATEMENTS))
        || (kind == kinds::PROGRAM_NODE && (f == kinds::PROGRAM_NODE_STATEMENTS))
        || (kind == kinds::RESCUE_NODE && (f == kinds::RESCUE_NODE_STATEMENTS || f == kinds::RESCUE_NODE_SUBSEQUENT))
        || (kind == kinds::RETURN_NODE && (f == kinds::RETURN_NODE_ARGUMENTS))
        || (kind == kinds::SUPER_NODE && (f == kinds::SUPER_NODE_ARGUMENTS))
        || (kind == kinds::UNLESS_NODE && (f == kinds::UNLESS_NODE_STATEMENTS || f == kinds::UNLESS_NODE_ELSE_CLAUSE))
        || (kind == kinds::UNTIL_NODE && (f == kinds::UNTIL_NODE_STATEMENTS))
        || (kind == kinds::WHEN_NODE && (f == kinds::WHEN_NODE_STATEMENTS))
        || (kind == kinds::WHILE_NODE && (f == kinds::WHILE_NODE_STATEMENTS))
        || (kind == kinds::YIELD_NODE && (f == kinds::YIELD_NODE_ARGUMENTS))
}

/// Appends `n` and its descendants to `nodes` in pre-order, each flagged as
/// reached through a generic visit ([`mark_generic`] sets the flags). `fuel`
/// bounds the depth; deeper nodes are left out.
fn add_node<'a>(n: &Node<'a>, nodes: &mut Vec<SyntaxNode>, fuel: usize)
    ensures
        final(nodes)@.len() > old(nodes)@.len(),
    decreases fuel,
{
    let k = nodes.len();
    let (start, end) = node_range(n);
    let (kind, flags, slots) = match read_node(n) {
        Some(r) => r,
        None => (0, 0, Vec::new()),
    };
    nodes.push(SyntaxNode { kind, start, end, flags, generic: true, subtree_end: k, fields: Vec::new() });
    let mut fields: Vec<Field> = Vec::new();
    let mut i: usize = 0;
    while i < slots.len()
        invariant
            k < nodes@.len(),
        decreases slots.len() - i,
    {
        let f = match &slots[i] {
            Slot::Child(c) => {
                if fuel > 0 {
                    let ci = nodes.len();
                    add_node(c, nodes, fuel - 1);
                    Field::Child(ci)
                } else {
                    Field::Absent
                }
            },
            Slot::Children(v) => {
                let mut idx: Vec<usize> = Vec::new();
                let mut j: usize = 0;
                while j < v.len()
                    invariant
                        k < nodes@.len(),
                    decreases v.len() - j,
                {
                    if fuel > 0 {
                        idx.push(nodes.len());
                        add_node(&v[j], nodes, fuel - 1);
                    }
                    j += 1;
                }
                Field::Children(idx)
            },
            Slot::Range(a, b) => Field::Range(*a, *b),
            Slot::Text(t) => Field::Text(t.clone()),
            Slot::Number(x) => Field::Number(*x),
            Slot::Absent => Field::Absent,
            Slot::Skipped => Field::Skipped,
        };
        fields.push(f);
        i += 1;
    }
    let subtree_end = nodes.len();
    nodes.set(k, SyntaxNode { kind, start, end, flags, generic: true, subtree_end, fields });
}

/// Field `f` of node `i` of `t` holds node `j`, and it is a field that holds
/// one particular node type.
pub open spec fn typed_hold(t: SyntaxTree, i: int, f: int, j: int) -> bool {
    &&& 0 <= i < t.nodes@.len()
    &&& 0 <= f < t.nodes@[i].fields@.len()
    &&& t.nodes@[i].fields@[f] == Field::Child(j as usize)
    &&& typed_child_field(t.nodes@[i].kind, f as usize)
}

/// Node `j` of `t` sits in a field that holds one particular node type, so
/// prism's visitor reaches it through that type's own visit method.
pub open spec fn in_typed_field(t: SyntaxTree, j: int) -> bool {
    exists|i: int, f: int| #[trigger] typed_hold(t, i, f, j)
}

/// Node `j` of `p` with its generic flag marked: reached through a generic
/// visit unless it sits in a typed field.
pub open spec fn marked_node(p: SyntaxTree, j: int) -> SyntaxNode {
    SyntaxNode { generic: !in_typed_field(p, j), ..p.nodes@[j] }
}

/// `t` is `p` with every node's generic flag marked.
pub open spec fn generic_marked(p: SyntaxTree, t: SyntaxTree) -> bool {
    &&& t.source_len == p.source_len
    &&& t.comments@ == p.comments@
    &&& t.data_start == p.data_start
    &&& t.nodes@.len() == p.nodes@.len()
    &&& forall|j: int| 0 <= j < t.nodes@.len() ==> #[trigger] t.nodes@[j] == marked_node(p, j)
}

/// `t` is the tree of the source `s`: prism's parse of `s` ([`prism_tree`])
/// with each node's generic flag marked, recording the length of `s`.
pub open spec fn tree_of(t: SyntaxTree, s: Seq<u8>) -> bool {
    &&& t.source_len == s.len()
    &&& generic_marked(prism_tree(s), t)
}

/// Parses `source` with prism and flattens the result. Whether the tree is
/// well formed is for [`check_tree`] to tell.
pub fn parse_tree(source: &[u8]) -> (t: SyntaxTree)
    ensures
        tree_of(t, source@),
{
    let p = prism_tree_of(source);
    mark_generic(p)
}

/// For each node of `p`, whether it is reached through a generic visit.
fn generic_flags(p: &SyntaxTree) -> (g: Vec<bool>)
    ensures
        g@.len() == p.nodes@.len(),
        forall|j: int| 0 <= j < g@.len() ==> g@[j] == !in_typed_field(*p, j),
{
    let n = p.nodes.len();
    let mut g: Vec<bool> = Vec::new();
    while g.len() < n
        invariant
            g@.len() <= n,
            forall|q: int| 0 <= q < g@.len() ==> g@[q],
        decreases n - g@.len(),
    {
        g.push(true);
    }
    let mut i: usize = 0;
    while i < n
        invariant
            n == p.nodes@.len(),
            i <= n,
            g@.len() == n,
            forall|j: int| 0 <= j < n ==> g@[j] == !(exists|i2: int, f: int| i2 < i && #[trigger] typed_hold(*p, i2, f, j)),
        decreases n - i,
    {
        let nd = &p.nodes[i];
        let mut f: usize = 0;
        while f < nd.fields.len()
            invariant
                n == p.nodes@.len(),
                i < n,
                g@.len() == n,
                *nd == p.nodes@[i as int],
                f <= nd.fields@.len(),
                forall|j: int| 0 <= j < n ==> g@[j] == !((exists|i2: int, f2: int| i2 < i && #[trigger] typed_hold(*p, i2, f2, j))
                    || (exists|f2: int| f2 < f && #[trigger] typed_hold(*p, i as int, f2, j))),
            decreases nd.fields.len() - f,
        {
            let ghost g0 = g@;
            let mut hit: usize = n;
            if let Field::Child(c) = &nd.fields[f] {
                if *c < n && is_typed_child_field(nd.kind, f) {
                    hit = *c;
                    g.set(*c, false);
                }
            }
            proof {
                assert forall|j: int| 0 <= j < n implies g@[j] == !((exists|i2: int, f2: int| i2 < i && #[trigger] typed_hold(*p, i2, f2, j))
                    || (exists|f2: int| f2 < f + 1 && #[trigger] typed_hold(*p, i as int, f2, j))) by {
                    if j == hit {
                        assert(typed_hold(*p, i as int, f as int, j));
                    } else {
                        assert(!typed_hold(*p, i as int, f as int, j));
                        assert(g@[j] == g0[j]);
                        if exists|f2: int| f2 < f + 1 && #[trigger] typed_hold(*p, i as int, f2, j) {
                            let f2 = choose|f2: int| f2 < f + 1 && #[trigger] typed_hold(*p, i as int, f2, j);
                            assert(f2 < f);
                        }
                    }
                }
            }
            f += 1;
        }
        proof {
            assert forall|j: int| 0 <= j < n implies g@[j] == !(exists|i2: int, f: int| i2 < i + 1 && #[trigger] typed_hold(*p, i2, f, j)) by {
                if exists|i2: int, f2: int| i2 < i + 1 && #[trigger] typed_hold(*p, i2, f2, j) {
                    let (i2, f2) = choose|i2: int, f2: int| i2 < i + 1 && #[trigger] typed_hold(*p, i2, f2, j);
                    if i2 == i {
                        assert(f2 < nd.fields@.len());
                    }
                }
            }
        }
        i += 1;
    }
    proof {
        assert forall|j: int| 0 <= j < n implies g@[j] == !in_typed_field(*p, j) by {
            if in_typed_field(*p, j) {
                let (i2, f2) = choose|i2: int, f2: int| #[trigger] typed_hold(*p, i2, f2, j);
                assert(i2 < n);
            }
        }
    }
    g
}

/// `p` with every node's generic flag marked ([`generic_marked`]).
fn mark_generic(p: SyntaxTree) -> (t: SyntaxTree)
    ensures
        generic_marked(p, t),
{
    let g = generic_flags(&p);
    let ghost pv = p;
    let SyntaxTree { source_len, nodes, comments, data_start } = p;
    let n = nodes.len();
    let mut rest = nodes;
    let mut rev: Vec<SyntaxNode> = Vec::new();
    while rest.len() > 0
        invariant
            n == pv.nodes@.len(),
            g@.len() == n,
            forall|j: int| 0 <= j < n ==> g@[j] == !in_typed_field(pv, j),
            rest@.len() + rev@.len() == n,
            rest@ == pv.nodes@.subrange(0, rest@.len() as int),
            forall|q: int| 0 <= q < rev@.len() ==> #[trigger] rev@[q] == marked_node(pv, n - 1 - q),
        decreases rest@.len(),
    {
        let nd = rest.pop().unwrap();
        let k = rest.len();
        assert(nd == pv.nodes@[k as int]);
        rev.push(SyntaxNode {
            kind: nd.kind,
            start: nd.start,
            end: nd.end,
            flags: nd.flags,
            generic: g[k],
            subtree_end: nd.subtree_end,
            fields: nd.fields,
        });
        assert(rest@ =~= pv.nodes@.subrange(0, rest@.len() as int));
    }
    let mut out: Vec<SyntaxNode> = Vec::new();
    while rev.len() > 0
        invariant
            n == pv.nodes@.len(),
            rev@.len() + out@.len() == n,
            forall|q: int| 0 <= q < rev@.len() ==> #[trigger] rev@[q] == marked_node(pv, n - 1 - q),
            forall|q: int| 0 <= q < out@.len() ==> #[trigger] out@[q] == marked_node(pv, q),
        decreases rev@.len(),
    {
        let nd = rev.pop().unwrap();
        out.push(nd);
    }
    SyntaxTree { source_len, nodes: out, comments, data_start }
}

fn field_ok(f: &Field, n: usize, len: usize) -> (b: bool)
    ensures
        b == (field_in(*f, n as nat) && field_range_in(*f, len as nat)),
{
    match f {
        Field::Child(c) => *c < n,
        Field::Children(v) => {
            let mut j: usize = 0;
            while j < v.len()
                invariant
                    j <= v@.len(),
                    *f == Field::Children(*v),
                    forall|q: int| 0 <= q < j ==> #[trigger] v@[q] < n,
                decreases v.len() - j,
            {
                if v[j] >= n {
                    assert(!(v@[j as int] < n));
                    return false;
                }
                j += 1;
            }
            true
        },
        Field::Range(s, e) => *s <= *e && *e <= len,
        _ => true,
    }
}

fn node_ok(t: &SyntaxTree, i: usize, len: usize) -> (b: bool)
    requires
        i < t.nodes@.len(),
    ensures
        b == node_wf(*t, i as int, len as nat),
{
    let n = t.nodes.len();
    let nd = &t.nodes[i];
    if !(nd.start <= nd.end && nd.end <= len && i < nd.subtree_end && nd.subtree_end <= n) {
        return false;
    }
    let mut j: usize = i + 1;
    while j < nd.subtree_end
        invariant
            i < j <= nd.subtree_end <= n,
            n == t.nodes@.len(),
            *nd == t.nodes@[i as int],
            forall|q: int| i < q < j ==> #[trigger] t.nodes@[q].subtree_end <= nd.subtree_end,
        decreases nd.subtree_end - j,
    {
        if t.nodes[j].subtree_end > nd.subtree_end {
            return false;
        }
        j += 1;
    }
    let mut f: usize = 0;
    while f < nd.fields.len()
        invariant
            f <= nd.fields@.len(),
            n == t.nodes@.len(),
            *nd == t.nodes@[i as int],
            i < nd.subtree_end <= n,
            nd.start <= nd.end <= len,
            forall|q: int| i < q < nd.subtree_end ==> #[trigger] t.nodes@[q].subtree_end <= nd.subtree_end,
            forall|q: int| 0 <= q < f ==> field_in(#[trigger] nd.fields@[q], n as nat),
            forall|q: int| 0 <= q < f ==> field_range_in(#[trigger] nd.fields@[q], len as nat),
        decreases nd.fields.len() - f,
    {
        if !field_ok(&nd.fields[f], n, len) {
            assert(!(field_in(nd.fields@[f as int], n as nat) && field_range_in(nd.fields@[f as int], len as nat)));
            return false;
        }
        f += 1;
    }
    true
}

/// Whether `t` is well formed.
pub fn check_tree(t: &SyntaxTree) -> (b: bool)
    ensures
        b == tree_wf(*t),
{
    let len = t.source_len;
    let mut i: usize = 0;
    while i < t.nodes.len()
        invariant
            i <= t.nodes@.len(),
            len == t.source_len,
            forall|q: int| 0 <= q < i ==> node_wf(*t, q, len as nat),
        decreases t.nodes.len() - i,
    {
        if !node_ok(t, i, len) {
            return false;
        }
        i += 1;
    }
    let mut c: usize = 0;
    while c < t.comments.len()
        invariant
            c <= t.comments@.len(),
            len == t.source_len,
            forall|q: int| 0 <= q < t.nodes@.len() ==> node_wf(*t, q, len as nat),
            forall|q: int| 0 <= q < c ==> #[trigger] t.comments@[q].0 <= t.comments@[q].1 <= len,
        decreases t.comments.len() - c,
    {
        let (s, e) = t.comments[c];
        if !(s <= e && e <= len) {
            return false;
        }
        c += 1;
    }
    match t.data_start {
        Some(d) => d <= len,
        None => true,
    }
}

} // verus!
