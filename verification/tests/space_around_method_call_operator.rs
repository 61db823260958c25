use shirobai_core::rules::space_around_method_call_operator::check_space_around_method_call_operator;

fn run(source: &str) -> Vec<(usize, usize)> {
    check_space_around_method_call_operator(source.as_bytes())
        .into_iter()
        .map(|o| (o.start_offset, o.end_offset))
        .collect()
}

#[test]
fn no_space_around_dot_is_clean() {
    assert!(run("foo.bar\n").is_empty());
}

#[test]
fn flags_space_before_dot() {
    assert_eq!(run("foo .bar\n"), vec![(3, 4)]);
}

#[test]
fn flags_space_after_dot() {
    assert_eq!(run("foo. bar\n"), vec![(4, 5)]);
}

#[test]
fn flags_space_both_sides_of_dot() {
    assert_eq!(run("foo . bar\n"), vec![(3, 4), (5, 6)]);
}

#[test]
fn flags_tab_before_dot() {
    assert_eq!(run("foo\t.bar\n"), vec![(3, 4)]);
}

#[test]
fn flags_safe_navigation_spaces() {
    assert_eq!(run("foo &. bar\n"), vec![(3, 4), (6, 7)]);
}

#[test]
fn ignores_newline_in_multiline_chain() {
    // Space before the dot spans a newline (no offense); space after the
    // dot is a single line (offense).
    assert_eq!(run("foo\n  . bar\n"), vec![(7, 8)]);
}

#[test]
fn clean_multiline_chain_is_clean() {
    assert!(run("foo\n  .bar\n").is_empty());
}

#[test]
fn flags_proc_call_shorthand_after_dot() {
    // `l. ()` — no selector loc; the `(` is the selector position.
    assert_eq!(run("l. ()\n"), vec![(2, 3)]);
}

#[test]
fn flags_after_double_colon() {
    assert_eq!(run("RuboCop:: Cop\n"), vec![(9, 10)]);
}

#[test]
fn ignores_space_before_double_colon() {
    assert!(run("RuboCop ::Cop\n").is_empty());
}

#[test]
fn flags_after_leading_double_colon() {
    assert_eq!(run(":: RuboCop\n"), vec![(2, 3)]);
}

#[test]
fn flags_each_segment_of_const_chain() {
    // Outer path first, then the inner scope (matches stock's emit order).
    assert_eq!(run("RuboCop:: Cop:: Base\n"), vec![(15, 16), (9, 10)]);
}

#[test]
fn ignores_const_assignment_target() {
    // `A:: B = 1` — the target is a ConstantPathTargetNode, no offense.
    assert!(run("A:: B = 1\n").is_empty());
}

#[test]
fn const_assignment_scope_read_is_flagged() {
    // Only the `Foo:: Bar` read scope is flagged; the `:: Baz` target is not.
    assert_eq!(run("Foo:: Bar:: Baz = 1\n"), vec![(5, 6)]);
}

#[test]
fn module_name_const_path_is_flagged() {
    assert_eq!(run("module Foo:: Bar\nend\n"), vec![(12, 13)]);
}

#[test]
fn flags_dot_in_attribute_or_assign() {
    // `self . foo ||= 1` — CallOrWriteNode, both sides flagged.
    assert_eq!(run("self . foo ||= 1\n"), vec![(4, 5), (6, 7)]);
}

#[test]
fn flags_dot_in_attribute_op_assign() {
    // `self . foo += 1` — CallOperatorWriteNode.
    assert_eq!(run("self . foo += 1\n"), vec![(4, 5), (6, 7)]);
}

#[test]
fn flags_dot_in_attribute_and_assign() {
    // `self . foo &&= 1` — CallAndWriteNode.
    assert_eq!(run("self . foo &&= 1\n"), vec![(4, 5), (6, 7)]);
}

#[test]
fn flags_dot_in_masgn_target() {
    // `self . foo, x = 1, 2` — CallTargetNode in a MultiWriteNode.
    assert_eq!(run("self . foo, x = 1, 2\n"), vec![(4, 5), (6, 7)]);
}

#[test]
fn flags_safe_nav_in_attribute_or_assign() {
    // `self &. foo ||= 1` — `&.` operator, both sides flagged.
    assert_eq!(run("self &. foo ||= 1\n"), vec![(4, 5), (7, 8)]);
}
