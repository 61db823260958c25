use shirobai_core::rules::send_range::send_node_end_offset;
use shirobai_core::syntax::flatten::{check_tree, parse_tree};
use shirobai_core::syntax::kinds;
use shirobai_core::syntax::{Field, SyntaxTree};

/// The node in field `f` of node `i`.
fn child(t: &SyntaxTree, i: usize, f: usize) -> Option<usize> {
    match t.nodes[i].fields.get(f) {
        Some(Field::Child(c)) => Some(*c),
        _ => None,
    }
}

/// Offset the send node of the FIRST top-level call in `src` ends at.
fn first_call_send_end(src: &str) -> usize {
    let t = parse_tree(src.as_bytes());
    assert!(check_tree(&t));
    assert_eq!(t.nodes[0].kind, kinds::PROGRAM_NODE);
    let stmts = child(&t, 0, kinds::PROGRAM_NODE_STATEMENTS).expect("statements");
    let body = match &t.nodes[stmts].fields[kinds::STATEMENTS_NODE_BODY] {
        Field::Children(v) => v.clone(),
        _ => Vec::new(),
    };
    for s in body {
        if t.nodes[s].kind == kinds::CALL_NODE {
            return send_node_end_offset(&t, s);
        }
    }
    panic!("no call node in snippet")
}

#[test]
fn no_block_is_location_end() {
    let src = "foo(a, b)\n";
    assert_eq!(first_call_send_end(src), src.find(')').unwrap() + 1);
}

#[test]
fn paren_call_with_do_block_ends_at_close_paren() {
    let src = "foo(a, b) do |x|\n  x\nend\n";
    assert_eq!(first_call_send_end(src), src.find(')').unwrap() + 1);
}

#[test]
fn parenless_call_with_do_block_ends_at_last_arg() {
    let src = "foo a, bb do |x|\n  x\nend\n";
    assert_eq!(first_call_send_end(src), src.find("bb").unwrap() + 2);
}

#[test]
fn bare_call_with_brace_block_ends_at_method_name() {
    let src = "foo.bar { |x| x }\n";
    assert_eq!(first_call_send_end(src), src.find("bar").unwrap() + 3);
}

#[test]
fn block_pass_is_not_a_literal_block() {
    let src = "foo a, &blk\n";
    assert_eq!(first_call_send_end(src), src.find("&blk").unwrap() + 4);
}
