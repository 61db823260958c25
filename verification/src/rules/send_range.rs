//! Where the call itself ends when a block literal follows it.
//!
//! prism counts a `{ }` or `do ... end` block as part of the call it follows;
//! the call proper ends at its closing parenthesis, else at its last
//! argument, else at its method name. A block pass (`&blk`) is an argument,
//! not a block literal.

use vstd::prelude::*;
use crate::syntax::{SyntaxTree, tree_wf, node_wf};
use crate::syntax::kinds;
use crate::syntax::access::{child, range, args_of_node, child_at, range_at, args_of};

verus! {

/// The end of call `i` without the block literal that follows it.
pub open spec fn send_end(t: SyntaxTree, i: int) -> usize {
    let literal_block = match child_at(t, i, kinds::CALL_NODE_BLOCK as int) {
        Some(b) => t.nodes@[b as int].kind == kinds::BLOCK_NODE,
        None => false,
    };
    let args = args_of(t, i, kinds::CALL_NODE_ARGUMENTS as int);
    if !literal_block {
        t.nodes@[i].end
    } else if let Some((_, c1)) = range_at(t, i, kinds::CALL_NODE_CLOSING_LOC as int) {
        c1
    } else if args.len() > 0 {
        t.nodes@[args.last() as int].end
    } else if let Some((_, m1)) = range_at(t, i, kinds::CALL_NODE_MESSAGE_LOC as int) {
        m1
    } else {
        t.nodes@[i].end
    }
}

/// [`send_end`] of call `i`.
pub fn send_node_end_offset(t: &SyntaxTree, i: usize) -> (r: usize)
    requires
        tree_wf(*t),
        i < t.nodes@.len(),
    ensures
        r == send_end(*t, i as int),
        r <= t.source_len,
{
    assert(node_wf(*t, i as int, t.source_len as nat));
    let literal_block = match child(t, i, kinds::CALL_NODE_BLOCK) {
        Some(b) => t.nodes[b].kind == kinds::BLOCK_NODE,
        None => false,
    };
    if !literal_block {
        return t.nodes[i].end;
    }
    if let Some((_, c1)) = range(t, i, kinds::CALL_NODE_CLOSING_LOC) {
        return c1;
    }
    if let Some(args) = args_of_node(t, i, kinds::CALL_NODE_ARGUMENTS) {
        if args.len() > 0 {
            let l = args[args.len() - 1];
            assert(node_wf(*t, l as int, t.source_len as nat));
            return t.nodes[l].end;
        }
    }
    if let Some((_, m1)) = range(t, i, kinds::CALL_NODE_MESSAGE_LOC) {
        return m1;
    }
    t.nodes[i].end
}

/// Without a block literal (no block, or a block pass), a call ends where
/// prism says it ends.
pub proof fn send_end_without_block_literal(t: SyntaxTree, i: int)
    requires
        !(child_at(t, i, kinds::CALL_NODE_BLOCK as int) matches Some(b) && t.nodes@[b as int].kind
            == kinds::BLOCK_NODE),
    ensures
        send_end(t, i) == t.nodes@[i].end,
{
}

} // verus!
