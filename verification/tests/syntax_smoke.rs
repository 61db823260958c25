use shirobai_core::syntax::flatten::{parse_tree, check_tree};
use shirobai_core::syntax::walk::walk;

#[test]
fn parse_simple_call_tree() {
    let src = b"foo(1, 2)\n";
    let t = parse_tree(src);
    assert!(check_tree(&t));
    assert!(t.nodes.len() >= 5);
    let evs = walk(&t);
    assert!(evs.len() > 3);
}
