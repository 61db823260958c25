//! The syntax tree the rules read: prism's tree flattened into pre-order.
//!
//! Every node records its kind (see [`kinds`]), byte range, flags, whether the
//! walk reaches it through a generic visit (see [`walk`]), the index one past
//! its last descendant and its fields in declaration order. A field that holds
//! nodes holds their indices.

pub mod kinds;
pub mod flatten;
pub mod fields;
pub mod walk;
pub mod access;

use vstd::prelude::*;

verus! {

/// One field of a node.
pub enum Field {
    /// A child node (its index).
    Child(usize),
    /// A list of child nodes (their indices, in order).
    Children(Vec<usize>),
    /// A byte range `[start, end)` of the source.
    Range(usize, usize),
    /// A name or string content.
    Text(Vec<u8>),
    /// A small integer (a depth or a count).
    Number(u32),
    /// An optional node or range that is not there.
    Absent,
    /// A field whose value the rules never read.
    Skipped,
}

/// One node of the flattened tree.
pub struct SyntaxNode {
    pub kind: u16,
    pub start: usize,
    pub end: usize,
    pub flags: u16,
    /// Reached through a generic visit, so the walk reports it.
    pub generic: bool,
    /// One past the index of the last node of this node's subtree.
    pub subtree_end: usize,
    pub fields: Vec<Field>,
}

/// A parsed source: its length, the nodes in pre-order (the root first), the comment
/// ranges and the start of the `__END__` data section.
pub struct SyntaxTree {
    /// The length of the parsed source.
    pub source_len: usize,
    pub nodes: Vec<SyntaxNode>,
    pub comments: Vec<(usize, usize)>,
    pub data_start: Option<usize>,
}

/// Every index in `s` is below `n`.
pub open spec fn indices_in(s: Seq<usize>, n: nat) -> bool {
    forall|j: int| 0 <= j < s.len() ==> #[trigger] s[j] < n
}

/// Every node index a field refers to is below `n`.
pub open spec fn field_in(f: Field, n: nat) -> bool {
    match f {
        Field::Child(c) => c < n,
        Field::Children(v) => indices_in(v@, n),
        _ => true,
    }
}

/// Every byte range a field holds lies in a source of `len` bytes.
pub open spec fn field_range_in(f: Field, len: nat) -> bool {
    match f {
        Field::Range(s, e) => s <= e && e <= len,
        _ => true,
    }
}

/// Node `i` is well formed in a tree of `n` nodes over `len` source bytes.
pub open spec fn node_wf(t: SyntaxTree, i: int, len: nat) -> bool {
    let nd = t.nodes@[i];
    &&& nd.start <= nd.end <= len
    &&& i < nd.subtree_end <= t.nodes@.len()
    &&& forall|j: int| i < j < nd.subtree_end ==> #[trigger] t.nodes@[j].subtree_end <= nd.subtree_end
    &&& forall|f: int| 0 <= f < nd.fields@.len() ==> field_in(#[trigger] nd.fields@[f], t.nodes@.len() as nat)
    &&& forall|f: int| 0 <= f < nd.fields@.len() ==> field_range_in(#[trigger] nd.fields@[f], len)
}

/// The tree is well formed: ranges lie in the source, subtrees nest, field
/// indices point at nodes and comment ranges lie in the source.
pub open spec fn tree_wf(t: SyntaxTree) -> bool {
    let len = t.source_len as nat;
    &&& forall|i: int| 0 <= i < t.nodes@.len() ==> node_wf(t, i, len)
    &&& forall|c: int| 0 <= c < t.comments@.len() ==> #[trigger] t.comments@[c].0 <= t.comments@[c].1 <= len
    &&& match t.data_start { Some(d) => d <= len, None => true }
}

} // verus!
