//! `Style/TrailingCommaInHashLiteral`: the comma after the last item of a
//! hash literal in braces.
//!
//! A hash without braces (the last argument of a call, a keyword hash) is
//! left to `Style/TrailingCommaInArguments`; `{}` is not checked.

use vstd::prelude::*;
use crate::syntax::{SyntaxTree, tree_wf, node_wf};
use crate::syntax::kinds;
use crate::syntax::access::{range, children, range_at, list_at};
use crate::syntax::flatten::{parse_tree, check_tree, tree_of};
use crate::rules::trailing_comma::{literal_offense, literal_offense_of};
pub use crate::rules::trailing_comma::{Config, TrailingCommaOffense};

verus! {

/// The offense of node `i`, when it is a braced hash whose items break the
/// style.
pub open spec fn hash_offense(s: Seq<u8>, t: SyntaxTree, style: u8, i: int) -> Option<TrailingCommaOffense> {
    let nd = t.nodes@[i];
    if nd.kind != kinds::HASH_NODE {
        None
    } else {
        match range_at(t, i, kinds::HASH_NODE_CLOSING_LOC as int) {
            Some((c0, _)) => literal_offense(s, t, style, list_at(t, i, kinds::HASH_NODE_ELEMENTS as int), nd.start,
                nd.end, c0),
            None => None,
        }
    }
}

/// The offenses of the nodes before `k`, in tree order.
pub open spec fn hash_offenses_upto(s: Seq<u8>, t: SyntaxTree, style: u8, k: int) -> Seq<TrailingCommaOffense>
    decreases k,
{
    if k <= 0 {
        Seq::empty()
    } else {
        let prev = hash_offenses_upto(s, t, style, k - 1);
        match hash_offense(s, t, style, k - 1) {
            Some(o) => prev.push(o),
            None => prev,
        }
    }
}

/// The offenses of `source`; none where it does not parse into a
/// well-formed tree.
pub fn check_trailing_comma_in_hash_literal(source: &[u8], cfg: &Config) -> (r: Vec<TrailingCommaOffense>)
    ensures
        exists|t: SyntaxTree| #[trigger] tree_of(t, source@) && (if tree_wf(t) {
            &&& r@ == hash_offenses_upto(source@, t, cfg.style, t.nodes@.len() as int)
        } else {
            r@.len() == 0
        }),
{
    let t = parse_tree(source);
    if !check_tree(&t) {
        assert(tree_of(t, source@));
        return Vec::new();
    }
    let r = hash_literal_offenses(source, &t, cfg);
    assert(tree_of(t, source@));
    r
}

/// The offenses of the braced hashes of `t`, in tree order.
pub fn hash_literal_offenses(source: &[u8], t: &SyntaxTree, cfg: &Config) -> (r: Vec<TrailingCommaOffense>)
    requires
        tree_wf(*t),
        t.source_len == source@.len(),
    ensures
        r@ == hash_offenses_upto(source@, *t, cfg.style, t.nodes@.len() as int),
{
    let mut out: Vec<TrailingCommaOffense> = Vec::new();
    let mut i: usize = 0;
    while i < t.nodes.len()
        invariant
            tree_wf(*t),
            t.source_len == source@.len(),
            i <= t.nodes@.len(),
            out@ == hash_offenses_upto(source@, *t, cfg.style, i as int),
        decreases t.nodes.len() - i,
    {
        match hash_offense_of(source, t, cfg.style, i) {
            Some(o) => out.push(o),
            None => {},
        }
        i += 1;
    }
    out
}

/// [`hash_offense`].
fn hash_offense_of(s: &[u8], t: &SyntaxTree, style: u8, i: usize) -> (r: Option<TrailingCommaOffense>)
    requires
        tree_wf(*t),
        t.source_len == s@.len(),
        i < t.nodes@.len(),
    ensures
        r == hash_offense(s@, *t, style, i as int),
{
    assert(node_wf(*t, i as int, t.source_len as nat));
    if t.nodes[i].kind != kinds::HASH_NODE {
        return None;
    }
    match range(t, i, kinds::HASH_NODE_CLOSING_LOC) {
        Some((c0, _)) => match children(t, i, kinds::HASH_NODE_ELEMENTS) {
            Some(els) => literal_offense_of(s, t, style, els, t.nodes[i].start, t.nodes[i].end, c0),
            None => {
                let empty: Vec<usize> = Vec::new();
                literal_offense_of(s, t, style, &empty, t.nodes[i].start, t.nodes[i].end, c0)
            },
        },
        None => None,
    }
}

} // verus!
