use shirobai_core::rules::self_assignment::check_self_assignment;

fn detect(src: &str) -> Vec<(usize, usize)> {
    check_self_assignment(src.as_bytes())
        .into_iter()
        .map(|o| (o.start_offset, o.end_offset))
        .collect()
}

#[test]
fn flags_local_variable_self_assignment() {
    assert_eq!(detect("foo = foo\n"), vec![(0, 9)]);
}

#[test]
fn flags_instance_variable() {
    assert_eq!(detect("@foo = @foo\n"), vec![(0, 11)]);
}

#[test]
fn flags_class_variable() {
    assert_eq!(detect("@@foo = @@foo\n"), vec![(0, 13)]);
}

#[test]
fn flags_global_variable() {
    assert_eq!(detect("$foo = $foo\n"), vec![(0, 11)]);
}

#[test]
fn flags_bare_constant() {
    assert_eq!(detect("Foo = Foo\n"), vec![(0, 9)]);
}

#[test]
fn ignores_constant_from_another_scope() {
    assert!(detect("Foo = ::Foo\n").is_empty());
}

#[test]
fn flags_masgn_pair() {
    assert_eq!(detect("foo, bar = foo, bar\n"), vec![(0, 19)]);
}

#[test]
fn flags_masgn_through_array() {
    assert_eq!(detect("foo, bar = [foo, bar]\n"), vec![(0, 21)]);
}

#[test]
fn ignores_masgn_with_splat() {
    assert!(detect("foo, bar = *something\n").is_empty());
}

#[test]
fn ignores_masgn_with_method_call() {
    assert!(detect("foo, bar = something\n").is_empty());
}

#[test]
fn ignores_masgn_const_pair() {
    // ASSIGNMENT_TYPE_TO_RHS_TYPE has no entry for casgn → no offense.
    assert!(detect("Foo, Bar = Foo, Bar\n").is_empty());
}

#[test]
fn flags_or_asgn() {
    assert_eq!(detect("foo ||= foo\n"), vec![(0, 11)]);
}

#[test]
fn flags_and_asgn() {
    assert_eq!(detect("foo &&= foo\n"), vec![(0, 11)]);
}

#[test]
fn flags_attribute_assignment() {
    assert_eq!(detect("foo.bar = foo.bar\n"), vec![(0, 17)]);
}

#[test]
fn flags_attribute_assignment_csend() {
    assert_eq!(detect("foo&.bar = foo&.bar\n"), vec![(0, 19)]);
}

#[test]
fn ignores_attribute_different_attr() {
    assert!(detect("foo.bar = foo.baz\n").is_empty());
}

#[test]
fn ignores_attribute_different_receiver() {
    assert!(detect("bar.foo = baz.foo\n").is_empty());
}

#[test]
fn ignores_attribute_with_extra() {
    assert!(detect("foo.bar = foo.bar + 1\n").is_empty());
}

#[test]
fn flags_index_assignment_string() {
    assert_eq!(detect("foo[\"bar\"] = foo[\"bar\"]\n"), vec![(0, 23)]);
}

#[test]
fn ignores_index_assignment_diff_string() {
    assert!(detect("foo[\"bar\"] = foo[\"baz\"]\n").is_empty());
}

#[test]
fn flags_index_assignment_int() {
    assert_eq!(detect("foo[1] = foo[1]\n"), vec![(0, 15)]);
}

#[test]
fn flags_index_assignment_float() {
    assert_eq!(detect("foo[1.2] = foo[1.2]\n"), vec![(0, 19)]);
}

#[test]
fn flags_index_assignment_const() {
    assert_eq!(detect("foo[Foo] = foo[Foo]\n"), vec![(0, 19)]);
}

#[test]
fn flags_index_assignment_sym() {
    assert_eq!(detect("foo[:bar] = foo[:bar]\n"), vec![(0, 21)]);
}

#[test]
fn flags_index_assignment_local_var() {
    let src = "var = 1\nfoo[var] = foo[var]\n";
    let off = detect(src);
    assert_eq!(off.len(), 1);
    assert_eq!(off[0].0, 8);
}

#[test]
fn ignores_index_assignment_method_call_key() {
    // `foo[bar] = foo[bar]` where `bar` is a method call — stock excludes.
    assert!(detect("foo[bar] = foo[bar]\n").is_empty());
}

#[test]
fn flags_index_assignment_safe_navigation() {
    let off = detect("foo&.[]=(\"bar\", foo[\"bar\"])\n");
    assert_eq!(off.len(), 1);
}

#[test]
fn flags_index_assignment_multi_args() {
    assert_eq!(detect("matrix[1, 2] = matrix[1, 2]\n"), vec![(0, 27)]);
}

#[test]
fn flags_index_assignment_zero_args() {
    assert_eq!(detect("singleton[] = singleton[]\n"), vec![(0, 25)]);
}

#[test]
fn ignores_index_assignment_no_args_send() {
    assert!(detect("foo.[]=\n").is_empty());
}

#[test]
fn flags_constant_path_self_assignment() {
    // `A::B = A::B` — namespace and short_name match.
    assert_eq!(detect("A::B = A::B\n"), vec![(0, 11)]);
}

#[test]
fn rbs_anchor_for_lvasgn_is_rhs_end() {
    let off = check_self_assignment(b"foo = foo\n");
    assert_eq!(off[0].rbs_anchor_offset, 9); // end of rhs `foo`
}

#[test]
fn rbs_anchor_for_masgn_is_first_lhs_end() {
    // `foo, bar = foo, bar` — first lhs `foo` ends at offset 3.
    let off = check_self_assignment(b"foo, bar = foo, bar\n");
    assert_eq!(off[0].rbs_anchor_offset, 3);
}

#[test]
fn rbs_anchor_for_or_asgn_is_lhs_end() {
    // `foo ||= foo` — lhs name `foo` ends at offset 3.
    let off = check_self_assignment(b"foo ||= foo\n");
    assert_eq!(off[0].rbs_anchor_offset, 3);
}

#[test]
fn rbs_anchor_for_attribute_is_receiver_end() {
    // `foo.bar = foo.bar` — receiver `foo` ends at offset 3.
    let off = check_self_assignment(b"foo.bar = foo.bar\n");
    assert_eq!(off[0].rbs_anchor_offset, 3);
}
