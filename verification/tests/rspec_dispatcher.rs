use shirobai_core::rules::rspec_dispatcher::{
    camel_case, check_rspec_described_class, check_rspec_empty_example_group, check_rspec_focus,
    check_rspec_let_setup, check_rspec_metadata_anchors, check_rspec_multiple_memoized_helpers,
    check_rspec_named_subject, check_rspec_pending_without_reason, check_rspec_repeated_description,
    check_rspec_repeated_example, check_rspec_variable_definition, check_rspec_variable_name, snake_case,
};
use shirobai_core::rules::rspec_language::RSpecConfig;

/// The rubocop-rspec default Language lists in wire order.
fn default_role_lists() -> Vec<Vec<String>> {
    let v = |names: &[&str]| names.iter().map(|s| s.to_string()).collect::<Vec<_>>();
    vec![
        v(&["describe", "context", "feature", "example_group"]),
        v(&["fdescribe", "fcontext", "ffeature"]),
        v(&["xdescribe", "xcontext", "xfeature"]),
        v(&["it", "specify", "example", "scenario", "its"]),
        v(&["fit", "fspecify", "fexample", "fscenario", "focus"]),
        v(&["xit", "xspecify", "xexample", "xscenario", "skip"]),
        v(&["pending"]),
        v(&[
            "are_expected",
            "expect",
            "expect_any_instance_of",
            "is_expected",
            "should",
            "should_not",
            "should_not_receive",
            "should_receive",
        ]),
        v(&["let", "let!"]),
        v(&[
            "prepend_before",
            "before",
            "append_before",
            "around",
            "prepend_after",
            "after",
            "append_after",
        ]),
        v(&["raise_error", "raise_exception"]),
        v(&["it_behaves_like", "it_should_behave_like", "include_examples"]),
        v(&["include_context"]),
        v(&["shared_examples", "shared_examples_for"]),
        v(&["shared_context"]),
        v(&["subject", "subject!"]),
    ]
}

fn cfg() -> RSpecConfig {
    let mut c = RSpecConfig::from_role_lists(
        &default_role_lists(),
    )
    .unwrap();
    c.variable_name_style = 0;
    c
}

fn vn(src: &str) -> Vec<(usize, usize, u8, String, bool)> {
    check_rspec_variable_name(src.as_bytes(), &cfg())
        .0
        .into_iter()
        .map(|o| (o.start, o.end, o.kind, o.value, o.valid_alt))
        .collect()
}

fn vn_sources(src: &str) -> Vec<String> {
    vn(src)
        .into_iter()
        .map(|(s, e, ..)| String::from_utf8_lossy(&src.as_bytes()[s..e]).into_owned())
        .collect()
}

fn ls_sources(src: &str) -> Vec<String> {
    check_rspec_let_setup(src.as_bytes(), &cfg())
        .into_iter()
        .map(|(s, e)| String::from_utf8_lossy(&src.as_bytes()[s..e]).into_owned())
        .collect()
}

fn cfg_vd(style: u8) -> RSpecConfig {
    let mut c = cfg();
    c.variable_definition_style = style;
    c
}

/// `(offense source slice, kind, value)` per VariableDefinition offense.
fn vd(src: &str, style: u8) -> Vec<(String, u8, String)> {
    check_rspec_variable_definition(src.as_bytes(), &cfg_vd(style))
        .into_iter()
        .map(|o| {
            (
                String::from_utf8_lossy(&src.as_bytes()[o.start..o.end]).into_owned(),
                o.kind,
                o.value,
            )
        })
        .collect()
}

fn cfg_mmh(max: i64, allow_subject: bool) -> RSpecConfig {
    let mut c = cfg();
    c.mmh_max = max;
    c.mmh_allow_subject = allow_subject;
    c
}

/// `(group source slice, rust_distinct, dsym/dstr source slices)` per
/// emitted MMH group.
fn mmh(src: &str, max: i64, allow_subject: bool) -> Vec<(String, usize, Vec<String>)> {
    check_rspec_multiple_memoized_helpers(src.as_bytes(), &cfg_mmh(max, allow_subject))
        .into_iter()
        .map(|g| {
            (
                String::from_utf8_lossy(&src.as_bytes()[g.start..g.end]).into_owned(),
                g.rust_distinct,
                g.dsym_dstr_ranges
                    .into_iter()
                    .map(|(s, e)| String::from_utf8_lossy(&src.as_bytes()[s..e]).into_owned())
                    .collect(),
            )
        })
        .collect()
}


#[test]
fn snake_case_matches_stock_formats() {
    for ok in ["foo", "foo_bar", "_", "__", "f1", "1", "@foo", "@@foo", "foo!", "foo?", "foo=", "café_name"] {
        assert!(snake_case(ok), "{ok:?} should be snake_case");
    }
    for bad in ["Foo", "fooBar", "", "!", "foo!!", "foo bar", "ユーザ", "@@@foo", "foo-bar"] {
        assert!(!snake_case(bad), "{bad:?} should NOT be snake_case");
    }
}

#[test]
fn camel_case_matches_stock_formats() {
    for ok in ["foo", "fooBar", "_", "_fooBar", "foo1Bar", "@fooBar", "fooBar!", "caféName"] {
        assert!(camel_case(ok), "{ok:?} should be camelCase");
    }
    for bad in ["Foo", "foo_bar", "__", "1foo", "", "ユーザ", "foo bar"] {
        assert!(!camel_case(bad), "{bad:?} should NOT be camelCase");
    }
}


#[test]
fn flags_bad_names_inside_a_top_level_group() {
    let src = "describe 'x' do\n  let(:userName) { 1 }\nend\n";
    assert_eq!(vn_sources(src), vec![":userName"]);
}

#[test]
fn ignores_groups_wrapped_in_a_top_level_class_or_module() {
    for wrapper in ["class Foo", "module Foo"] {
        let src = format!(
            "{wrapper}\n  describe 'x' do\n    let(:userName) {{ 1 }}\n  end\nend\n"
        );
        assert_eq!(vn(&src), vec![], "{wrapper} should not count");
    }
}

#[test]
fn flags_through_a_class_inside_the_group() {
    let src = "describe 'x' do\n  class Foo\n    let(:userName) { 1 }\n  end\nend\n";
    assert_eq!(vn_sources(src), vec![":userName"]);
}

#[test]
fn ignores_top_level_lets() {
    assert_eq!(vn("let(:userName) { 1 }\n"), vec![]);
}

#[test]
fn numblock_and_itblock_groups_count_as_spec_groups() {
    let src = "RSpec.describe('x') { let(:userName) { _1 } }\n";
    assert_eq!(vn_sources(src), vec![":userName"]);
    let src = "RSpec.describe('x') {\n  it\n  let(:userName) { 1 }\n}\n";
    assert_eq!(vn_sources(src), vec![":userName"]);
}

#[test]
fn shared_groups_count_and_include_blocks_do_not() {
    let src = "shared_examples 'x' do\n  let(:userName) { 1 }\nend\n";
    assert_eq!(vn_sources(src), vec![":userName"]);
    let src = "include_context 'x' do\n  let(:userName) { 1 }\nend\n";
    assert_eq!(vn(src), vec![]);
}

#[test]
fn candidates_are_send_shaped() {
    let src = "describe 'x' do\n  let(:userName)\n  subject(:badName) { 1 }\n  let('strName') { 1 }\n  let(:okay_name) { _1 }\nend\n";
    assert_eq!(
        vn_sources(src),
        vec![":userName", ":badName", "'strName'"]
    );
}

#[test]
fn non_rspec_receivers_do_not_make_groups() {
    let src = "Foo.describe 'x' do\n  let(:userName) { 1 }\nend\n";
    assert_eq!(vn(src), vec![]);
    let src = "RSpec::Core.describe 'x' do\n  let(:userName) { 1 }\nend\n";
    assert_eq!(vn(src), vec![]);
    let src = "::RSpec.describe 'x' do\n  let(:userName) { 1 }\nend\n";
    assert_eq!(vn_sources(src), vec![":userName"]);
}

#[test]
fn valid_alt_distinguishes_the_opposite_style() {
    let src = "describe 'x' do\n  let(:userName) { 1 }\n  let(:'user name') { 1 }\nend\n";
    let offs = vn(src);
    assert_eq!(offs.len(), 2);
    assert!(offs[0].4, "camelCase name is valid in the alternative");
    assert!(!offs[1].4, "spaced name is valid in neither");
}

#[test]
fn passing_candidates_are_reported_for_style_detection() {
    let src = "describe 'x' do\n  let(:good_name) { 1 }\n  let(:badName) { 1 }\nend\n";
    let (offs, passing) = check_rspec_variable_name(src.as_bytes(), &cfg());
    assert_eq!(offs.len(), 1);
    assert_eq!(passing, vec![("good_name".to_string(), 0)]);
}


#[test]
fn flags_unused_let_bang() {
    let src = "describe 'x' do\n  let!(:w) { create(:widget) }\n  it 'a' do\n    expect(1).to eq 1\n  end\nend\n";
    assert_eq!(ls_sources(src), vec!["let!(:w)"]);
}

#[test]
fn zero_arg_use_counts_but_argument_or_block_pass_use_does_not() {
    let used = "describe 'x' do\n  let!(:w) { create(:widget) }\n  it('a') { expect(w).to be }\nend\n";
    assert_eq!(ls_sources(used), Vec::<String>::new());
    let arg_use = "describe 'x' do\n  let!(:w) { create(:widget) }\n  it('a') { expect(w(1)).to be }\nend\n";
    assert_eq!(ls_sources(arg_use), vec!["let!(:w)"]);
    let block_pass_use = "describe 'x' do\n  let!(:w) { create(:widget) }\n  it('a') { w(&b) }\nend\n";
    assert_eq!(ls_sources(block_pass_use), vec!["let!(:w)"]);
    let block_use = "describe 'x' do\n  let!(:w) { create(:widget) }\n  it('a') { w { 1 } }\nend\n";
    assert_eq!(ls_sources(block_use), Vec::<String>::new());
}

#[test]
fn string_names_resolve_uses_and_do_not_shadow_symbol_names() {
    let used = "describe 'x' do\n  let!('w') { create(:widget) }\n  it('a') { expect(w).to be }\nend\n";
    assert_eq!(ls_sources(used), Vec::<String>::new());
    let mixed = "describe 'x' do\n  let!('w') { create(:widget) }\n  context 'y' do\n    let!(:w) { create(:other) }\n    it('a') { expect(1).to eq 1 }\n  end\nend\n";
    assert_eq!(ls_sources(mixed), vec!["let!('w')", "let!(:w)"]);
}

#[test]
fn inner_overriding_let_bang_is_skipped() {
    let src = "describe 'x' do\n  let!(:w) { create(:widget) }\n  context 'y' do\n    let!(:w) { create(:other) }\n    it('a') { expect(1).to eq 1 }\n  end\nend\n";
    assert_eq!(ls_sources(src), vec!["let!(:w)"]);
}

#[test]
fn use_anywhere_in_the_subtree_counts_including_nested_groups() {
    let nested = "describe 'x' do\n  let!(:w) { create(:widget) }\n  context 'y' do\n    it('a') { expect(w).to be }\n  end\nend\n";
    assert_eq!(ls_sources(nested), Vec::<String>::new());
    let self_use = "describe 'x' do\n  let!(:w) { w }\n  it('a') { expect(1).to eq 1 }\nend\n";
    assert_eq!(ls_sources(self_use), Vec::<String>::new());
}

#[test]
fn block_pass_form_and_include_roots_are_candidates() {
    let src = "describe 'x' do\n  let!(:w, &blk)\n  it('a') { expect(1).to eq 1 }\nend\n";
    assert_eq!(ls_sources(src), vec!["let!(:w, &blk)"]);
    let src = "include_context 'shared' do\n  let!(:w) { create(:widget) }\nend\n";
    assert_eq!(ls_sources(src), vec!["let!(:w)"]);
}

#[test]
fn non_candidates_extra_args_dstr_numblock() {
    for src in [
        "describe 'x' do\n  let!(:w, :extra) { create(:widget) }\n  it('a') { expect(1).to eq 1 }\nend\n",
        "describe 'x' do\n  let!(\"w#{x}\") { create(:widget) }\n  it('a') { expect(1).to eq 1 }\nend\n",
        "describe 'x' do\n  let!(:w) { _1 }\n  it('a') { expect(1).to eq 1 }\nend\n",
    ] {
        assert_eq!(ls_sources(src), Vec::<String>::new(), "src: {src}");
    }
}

#[test]
fn numblock_groups_are_transparent_scopes() {
    let src = "describe 'x' do\n  context('y') {\n    _1\n    let!(:w) { create(:widget) }\n  }\n  it('a') { expect(1).to eq 1 }\nend\n";
    assert_eq!(ls_sources(src), vec!["let!(:w)"]);
    let used = "describe 'x' do\n  context('y') {\n    _1\n    let!(:w) { create(:widget) }\n  }\n  it('a') { expect(w).to be }\nend\n";
    assert_eq!(ls_sources(used), Vec::<String>::new());
}

#[test]
fn no_parens_send_range() {
    let src = "describe 'x' do\n  let! :w do\n    create(:widget)\n  end\n  it('a') { expect(1).to eq 1 }\nend\n";
    assert_eq!(ls_sources(src), vec!["let! :w"]);
}


#[test]
fn variable_definition_symbols_flags_only_str() {
    let src = "describe 'x' do\n  let('user') { 1 }\n  subject(\"other\") { 2 }\n  let(:okay) { 3 }\n  let(:\"a#{b}\") { 4 }\n  let(\"dstr#{x}\") { 5 }\nend\n";
    assert_eq!(
        vd(src, 0),
        vec![
            ("'user'".to_string(), 1, "user".to_string()),
            ("\"other\"".to_string(), 1, "other".to_string()),
        ]
    );
}

#[test]
fn variable_definition_strings_flags_sym_and_dsym() {
    let src = "describe 'x' do\n  let(:user) { 1 }\n  let(:\"a b\") { 2 }\n  let(:\"a#{x}\") { 3 }\n  let('str') { 4 }\n  let(\"dstr#{x}\") { 5 }\nend\n";
    assert_eq!(
        vd(src, 1),
        vec![
            (":user".to_string(), 0, "user".to_string()),
            (":\"a b\"".to_string(), 0, "a b".to_string()),
            (":\"a#{x}\"".to_string(), 2, String::new()),
        ]
    );
}

#[test]
fn variable_definition_needs_the_top_level_group_gate() {
    assert_eq!(vd("let('user') { 1 }\n", 0), Vec::new());
    let src = "class Foo\n  describe 'x' do\n    let('user') { 1 }\n  end\nend\n";
    assert_eq!(vd(src, 0), Vec::new());
}

#[test]
fn variable_definition_empty_percent_string_is_dstr() {
    let src = "describe 'x' do\n  let(%()) { 1 }\n  let(%(abc)) { 2 }\nend\n";
    assert_eq!(vd(src, 0), vec![("%(abc)".to_string(), 1, "abc".to_string())]);
}


#[test]
fn mmh_flags_the_inner_context_when_helpers_accumulate() {
    let src = "describe 'x' do\n  let(:a) { 1 }\n  context 'y' do\n    let(:b) { 1 }\n  end\nend\n";
    let groups = mmh(src, 1, true);
    assert_eq!(groups.len(), 1);
    assert!(groups[0].0.starts_with("context 'y' do"));
    assert_eq!(groups[0].1, 2);
    assert!(groups[0].2.is_empty());
}

#[test]
fn mmh_later_let_counts_for_an_earlier_nested_context() {
    let src = "describe 'x' do\n  context 'y' do\n    let(:b) { 1 }\n  end\n  let(:a) { 1 }\nend\n";
    let groups = mmh(src, 1, true);
    assert_eq!(groups.len(), 1);
    assert!(groups[0].0.starts_with("context 'y' do"));
    assert_eq!(groups[0].1, 2);
}

#[test]
fn mmh_overridden_and_distinct_names() {
    let overridden = "describe 'x' do\n  let(:a) { 1 }\n  context 'y' do\n    let(:a) { 2 }\n  end\nend\n";
    assert_eq!(mmh(overridden, 1, true), Vec::new());
    let distinct = "describe 'x' do\n  let(:a) { 1 }\n  let('a') { 2 }\nend\n";
    let groups = mmh(distinct, 1, true);
    assert_eq!(groups.len(), 1);
    assert_eq!(groups[0].1, 2);
}

#[test]
fn mmh_non_literal_and_nil_merging() {
    let nil_item = "describe 'x' do\n  let(:a) { 1 }\n  let(foo) { 2 }\nend\n";
    assert_eq!(mmh(nil_item, 1, true)[0].1, 2);
    let merge = "describe 'x' do\n  subject { 1 }\n  let(foo) { 2 }\nend\n";
    assert_eq!(mmh(merge, 1, false), Vec::new());
}

#[test]
fn mmh_arbitrary_dsl_block_is_transparent_and_an_ancestor() {
    let src = "describe 'x' do\n  let(:a) { 1 }\n  weird_dsl do\n    let(:b) { 1 }\n    context 'y' do\n      let(:c) { 1 }\n    end\n  end\nend\n";
    let groups = mmh(src, 1, true);
    assert_eq!(groups.len(), 2);
    assert!(groups[0].0.starts_with("describe 'x' do"));
    assert_eq!(groups[0].1, 2);
    assert!(groups[1].0.starts_with("context 'y' do"));
    assert_eq!(groups[1].1, 3);
}

#[test]
fn mmh_numblock_context_is_transparent() {
    let src = "describe 'x' do\n  let(:a) { 1 }\n  context('y') {\n    _1\n    let(:b) { 1 }\n    let(:c) { 1 }\n  }\nend\n";
    let groups = mmh(src, 1, true);
    assert_eq!(groups.len(), 1);
    assert!(groups[0].0.starts_with("describe 'x' do"));
    assert_eq!(groups[0].1, 3);
}

#[test]
fn mmh_lets_in_hook_and_subject_bodies_and_shared_groups() {
    let hook = "describe 'x' do\n  let(:a) { 1 }\n  before do\n    let(:b) { 1 }\n  end\nend\n";
    assert_eq!(mmh(hook, 1, true)[0].1, 2);
    let subj = "describe 'x' do\n  subject(:s) do\n    let(:inner) { 1 }\n  end\n  let(:a) { 1 }\nend\n";
    assert_eq!(mmh(subj, 1, true)[0].1, 2);
    let shared = "shared_examples 'x' do\n  let(:a) { 1 }\n  let(:b) { 1 }\nend\n";
    let groups = mmh(shared, 1, true);
    assert_eq!(groups.len(), 1);
    assert_eq!(groups[0].1, 2);
}

#[test]
fn mmh_subject_counting_respects_allow_subject() {
    let src = "describe 'x' do\n  subject(:bar) { 1 }\n  let(:foo) { 2 }\nend\n";
    assert_eq!(mmh(src, 1, true), Vec::new());
    let groups = mmh(src, 1, false);
    assert_eq!(groups.len(), 1);
    assert_eq!(groups[0].1, 2);
}

#[test]
fn mmh_dsym_dstr_items_are_left_for_the_wrapper() {
    let src = "describe 'x' do\n  let(\"a#{ b }\") { 1 }\n  let(\"a#{b}\") { 2 }\nend\n";
    let groups = mmh(src, 1, true);
    assert_eq!(groups.len(), 1);
    assert_eq!(groups[0].1, 0);
    assert_eq!(groups[0].2, vec!["\"a#{ b }\"".to_string(), "\"a#{b}\"".to_string()]);
    let mixed = "describe 'x' do\n  let(:\"a#{x}\") { 1 }\n  let(\"a#{x}\") { 2 }\n  let(:c) { 3 }\nend\n";
    let groups = mmh(mixed, 2, true);
    assert_eq!(groups.len(), 1);
    assert_eq!(groups[0].1, 1);
    assert_eq!(groups[0].2.len(), 2);
}

#[test]
fn mmh_ignores_a_reasonable_number() {
    let src = "describe 'x' do\n  let(:a) { 1 }\nend\n";
    assert_eq!(mmh(src, 1, true), Vec::new());
    let distributed = "describe 'x' do\n  context 'a' do\n    let(:a) { 1 }\n  end\n  context 'b' do\n    let(:b) { 1 }\n  end\nend\n";
    assert_eq!(mmh(distributed, 1, true), Vec::new());
}


/// Per emitted group, the source slices of the collected example blocks.
/// Both cops read the same data, so one helper covers both.
fn re(src: &str) -> Vec<Vec<String>> {
    let groups = check_rspec_repeated_description(src.as_bytes(), &cfg());
    assert_eq!(
        groups,
        check_rspec_repeated_example(src.as_bytes(), &cfg())
    );
    groups
        .into_iter()
        .map(|g| {
            g.into_iter()
                .map(|(s, e)| String::from_utf8_lossy(&src.as_bytes()[s..e]).into_owned())
                .collect()
        })
        .collect()
}

#[test]
fn re_collects_the_examples_of_an_example_group() {
    let src = "describe 'x' do\n  it('a') { foo }\n  it('b') { bar }\nend\n";
    assert_eq!(re(src), vec![vec!["it('a') { foo }", "it('b') { bar }"]]);
}

#[test]
fn re_gates_on_example_groups_only() {
    assert!(re("shared_examples 'x' do\n  it('a') { foo }\n  it('b') { bar }\nend\n").is_empty());
    assert!(
        re("include_examples 'x' do\n  it('a') { foo }\n  it('b') { bar }\nend\n").is_empty()
    );
}

#[test]
fn re_needs_at_least_two_examples() {
    assert!(re("describe 'x' do\n  it('a') { foo }\nend\n").is_empty());
}

#[test]
fn re_numblock_group_is_transparent_and_never_a_group() {
    let src = "describe 'x' do\n  it('a') { foo }\n  context('y') {\n    _1\n    it('b') { bar }\n  }\nend\n";
    assert_eq!(re(src), vec![vec!["it('a') { foo }", "it('b') { bar }"]]);
}

#[test]
fn re_a_numblock_example_is_not_an_example() {
    assert!(re("describe 'x' do\n  it('a') { _1 }\n  it('b') { _1 }\nend\n").is_empty());
}

#[test]
fn re_nested_example_halts_collection() {
    let src = "describe 'x' do\n  it('a') do\n    it('b') { foo }\n  end\nend\n";
    assert!(re(src).is_empty());
}

#[test]
fn re_example_inside_a_let_body_belongs_to_the_group() {
    let src = "describe 'x' do\n  it('a') { foo }\n  let(:y) do\n    it('b') { bar }\n  end\nend\n";
    assert_eq!(re(src), vec![vec!["it('a') { foo }", "it('b') { bar }"]]);
}

#[test]
fn re_nested_group_examples_belong_to_the_inner_group() {
    let src = "describe 'x' do\n  it('a') { foo }\n  context 'y' do\n    it('b') { bar }\n  end\nend\n";
    assert!(re(src).is_empty());
    let src2 = "describe 'x' do\n  it('a') { foo }\n  context 'y' do\n    it('b') { bar }\n    it('c') { baz }\n  end\nend\n";
    assert_eq!(re(src2), vec![vec!["it('b') { bar }", "it('c') { baz }"]]);
}


fn cfg_ns(style: u8, ignore_shared: bool) -> RSpecConfig {
    let mut c = cfg();
    c.named_subject_style = style;
    c.named_subject_ignore_shared = ignore_shared;
    c
}

/// The `subject` selector source slices reported by NamedSubject.
fn ns(src: &str, style: u8, ignore_shared: bool) -> Vec<String> {
    check_rspec_named_subject(src.as_bytes(), &cfg_ns(style, ignore_shared))
        .into_iter()
        .map(|(s, e)| String::from_utf8_lossy(&src.as_bytes()[s..e]).into_owned())
        .collect()
}

#[test]
fn ns_flags_bare_subject_in_examples_and_hooks() {
    let src = "describe 'd' do\n  it('a') { subject.foo }\n  before { subject }\n  around(:each) do |t|\n    do_x(subject)\n  end\nend\n";
    assert_eq!(ns(src, 0, true), vec!["subject", "subject", "subject"]);
}

#[test]
fn ns_needs_a_plain_block_example_or_hook_ancestor() {
    assert_eq!(ns("subject.foo\n", 0, true), Vec::<String>::new());
    assert_eq!(ns("def foo\n  it(subject)\nend\n", 0, true), Vec::<String>::new());
    assert_eq!(
        ns("describe 'd' do\n  it('a') { subject.foo; _1 }\nend\n", 0, true),
        Vec::<String>::new()
    );
}

#[test]
fn ns_matches_the_literal_subject_send_only() {
    let src = "describe 'd' do\n  it('a') do\n    subject { 1 }\n    is_expected.to be\n    subject(:x)\n  end\nend\n";
    assert_eq!(ns(src, 0, true), vec!["subject"]);
}

#[test]
fn ns_ignore_shared_examples() {
    let shared = "describe 'd' do\n  shared_examples 'x' do\n    it('a') { subject.foo }\n  end\nend\n";
    assert_eq!(ns(shared, 0, true), Vec::<String>::new());
    assert_eq!(ns(shared, 0, false), vec!["subject"]);
    let ctx = "describe 'd' do\n  shared_context 'x' do\n    it('a') { subject.foo }\n  end\nend\n";
    assert_eq!(ns(ctx, 0, true), vec!["subject"]);
    let above = "it 'outer' do\n  shared_examples 'x' do\n    it 'inner' do\n      subject.foo\n    end\n  end\nend\n";
    assert_eq!(ns(above, 0, true), vec!["subject"]);
}

#[test]
fn ns_named_only_uses_the_nearest_subject_definition() {
    let unnamed = "RSpec.describe User do\n  subject { x }\n  it('a') { subject.foo }\nend\n";
    assert_eq!(ns(unnamed, 1, true), Vec::<String>::new());
    assert_eq!(ns(unnamed, 0, true), vec!["subject"]);
    let named = "RSpec.describe User do\n  subject(:u) { x }\n  it('a') { subject.foo }\nend\n";
    assert_eq!(ns(named, 1, true), vec!["subject"]);
    let nearest = "RSpec.describe User do\n  subject(:u) { x }\n  describe 'age' do\n    subject { u.age }\n    it('a') { subject.foo }\n  end\nend\n";
    assert_eq!(ns(nearest, 1, true), Vec::<String>::new());
    let bang = "RSpec.describe User do\n  subject! { x }\n  it('a') { subject.foo }\nend\n";
    assert_eq!(ns(bang, 1, true), Vec::<String>::new());
}

#[test]
fn re_transparent_dsl_block_passes_examples_to_the_group() {
    let src = "describe 'x' do\n  %i[a b].each do |t|\n    it(\"d#{t}\") { foo }\n    it(\"d#{t}\") { bar }\n  end\nend\n";
    let groups = re(src);
    assert_eq!(groups.len(), 1);
    assert_eq!(groups[0].len(), 2);
}


fn slices(src: &str, ranges: Vec<(usize, usize)>) -> Vec<String> {
    ranges
        .into_iter()
        .map(|(s, e)| String::from_utf8_lossy(&src.as_bytes()[s..e]).into_owned())
        .collect()
}

fn anchors(src: &str) -> Vec<String> {
    slices(src, check_rspec_metadata_anchors(src.as_bytes(), &cfg()))
}

fn focus(src: &str) -> Vec<String> {
    slices(src, check_rspec_focus(src.as_bytes(), &cfg()))
}

fn pending(src: &str) -> Vec<String> {
    slices(src, check_rspec_pending_without_reason(src.as_bytes(), &cfg()))
}

#[test]
fn metadata_anchor_covers_every_block_kind() {
    let src = "RSpec.describe 'x' do\n  it('plain', a: true) { foo }\n  it('num', b: true) { _1 }\n  it('it', c: true) { it.foo }\n  context('ctx', d: true) { bar }\nend\n";
    let a = anchors(src);
    assert!(a.iter().any(|s| s.starts_with("RSpec.describe 'x'")));
    assert!(a.iter().any(|s| s.starts_with("it('plain', a: true)")));
    assert!(a.iter().any(|s| s.starts_with("it('num', b: true)")));
    assert!(a.iter().any(|s| s.starts_with("it('it', c: true)")));
    assert!(a.iter().any(|s| s.starts_with("context('ctx', d: true)")));
}

#[test]
fn metadata_anchor_needs_arg_and_rspec_receiver() {
    let src = "describe 'x' do\n  it { foo }\n  before { bar }\n  Foo.describe('y', a: true) { baz }\nend\n";
    assert_eq!(anchors(src), vec!["describe 'x' do\n  it { foo }\n  before { bar }\n  Foo.describe('y', a: true) { baz }\nend".to_string()]);
}

#[test]
fn metadata_anchor_hooks_and_shared_groups_and_configure() {
    let src = "describe 'x' do\n  before(:each, a: true) { foo }\nend\nshared_examples 'y', b: true do\n  it { foo }\nend\nRSpec.configure do |c|\n  c.before(:each, d: true) { bar }\nend\n";
    let a = anchors(src);
    assert!(a.iter().any(|s| s.starts_with("before(:each, a: true)")));
    assert!(a.iter().any(|s| s.starts_with("shared_examples 'y', b: true")));
    assert!(a.iter().any(|s| s.starts_with("RSpec.configure")));
}

#[test]
fn focus_candidates_cover_aliases_and_metadata() {
    let src = "RSpec.describe MyClass, focus: true do\n  describe 'a', :focus do\n    fit 'b' do; end\n    fdescribe 'c' do; end\n    focus 'd' do; end\n    it 'e', :focus do; end\n    xit 'f', :focus do; end\n    shared_examples 'g', focus: true do; end\n  end\n  foo.fdescribe 'chained' do; end\nend\n";
    let f = focus(src);
    assert!(f.iter().any(|s| s.starts_with("RSpec.describe MyClass, focus: true")));
    assert!(f.iter().any(|s| s == "describe 'a', :focus"));
    assert!(f.iter().any(|s| s == "fit 'b'"));
    assert!(f.iter().any(|s| s == "fdescribe 'c'"));
    assert!(f.iter().any(|s| s == "focus 'd'"));
    assert!(f.iter().any(|s| s == "it 'e', :focus"));
    assert!(f.iter().any(|s| s == "xit 'f', :focus"));
    assert!(f.iter().any(|s| s == "shared_examples 'g', focus: true"));
    assert!(!f.iter().any(|s| s.contains("chained")));
}

#[test]
fn focus_ignores_plain_examples_without_focus_metadata() {
    let src = "describe 'x' do\n  it 'a' do; end\n  it 'b', slow: true do; end\nend\n";
    assert_eq!(focus(src), Vec::<String>::new());
}

#[test]
fn pending_candidates_cover_names_and_metadata() {
    let src = "RSpec.describe 'x' do\n  pending 'p' do; end\n  it 'a', :pending do; end\n  it 'b' do; pending; end\n  xdescribe 'c' do; end\n  skip 'd' do; end\n  it 'e', :skip do; end\n  it 'f' do; skip; end\n  it 'g'\n  it 'h', pending: 'reason' do; end\n  xit 'j' do; end\nend\n";
    let p = pending(src);
    assert!(p.iter().any(|s| s == "pending 'p'"));
    assert!(p.iter().any(|s| s == "it 'a', :pending"));
    assert!(p.iter().any(|s| s == "pending")); // bare in example body
    assert!(p.iter().any(|s| s == "xdescribe 'c'"));
    assert!(p.iter().any(|s| s == "skip 'd'"));
    assert!(p.iter().any(|s| s == "it 'e', :skip"));
    assert!(p.iter().any(|s| s == "skip")); // bare in example body
    assert!(p.iter().any(|s| s == "xit 'j'"));
    assert!(p.iter().any(|s| s == "it 'h', pending: 'reason'"));
    assert!(!p.iter().any(|s| s == "it 'g'"));
}


fn dc(src: &str) -> Vec<String> {
    slices(src, check_rspec_described_class(src.as_bytes(), &cfg()))
}

#[test]
fn described_class_identifies_describe_const_blocks() {
    let src = "describe MyClass do\n  subject { MyClass }\nend\n";
    let result = dc(src);
    assert_eq!(result.len(), 1);
    assert!(result[0].starts_with("describe MyClass do"));
}

#[test]
fn described_class_ignores_describe_string() {
    let src = "describe 'MyClass' do\n  subject { MyClass }\nend\n";
    assert!(dc(src).is_empty());
}

#[test]
fn described_class_identifies_nested_const_path() {
    let src = "describe A::B do\n  it { A::B }\nend\n";
    let result = dc(src);
    assert_eq!(result.len(), 1);
}

#[test]
fn described_class_identifies_cbase_const() {
    let src = "describe ::MyClass do\n  it { ::MyClass }\nend\n";
    let result = dc(src);
    assert_eq!(result.len(), 1);
}

#[test]
fn described_class_ignores_shared_groups_with_const() {
    let src = "shared_examples MyClass do\n  it { MyClass }\nend\n";
    assert!(dc(src).is_empty());
}

#[test]
fn described_groups_are_among_empty_group_candidates() {
    let src = "describe MyClass do\n  describe 'inner' do\n    describe Other do\n      it { Other }\n    end\n  end\nend\nshared_examples Shared do\nend\ndescribe Last do\nend\n";
    let groups = check_rspec_empty_example_group(src.as_bytes(), &cfg());
    let described = check_rspec_described_class(src.as_bytes(), &cfg());
    assert_eq!(described.len(), 3);
    let mut at = 0;
    for d in &described {
        let k = groups[at..].iter().position(|g| g == d).expect("described group listed as a group");
        at += k + 1;
    }
}

#[test]
fn groups_follow_the_walk_order() {
    // A modifier `while` is walked condition first, as prism's visitor walks it.
    let src = "describe(B) {} while describe(A) {}\n";
    let groups = slices(src, check_rspec_empty_example_group(src.as_bytes(), &cfg()));
    assert_eq!(groups, vec!["describe(A) {}".to_string(), "describe(B) {}".to_string()]);
}

#[test]
fn variable_names_need_a_spec_group() {
    let top = "let(:fooBar) { 1 }\nsubject(:bar_baz) { 2 }\n";
    let r = check_rspec_variable_name(top.as_bytes(), &cfg());
    assert!(r.0.is_empty() && r.1.is_empty());
    assert!(check_rspec_variable_definition(top.as_bytes(), &cfg()).is_empty());
    let inside = "describe 'x' do\n  let(:fooBar) { 1 }\nend\n";
    assert_eq!(check_rspec_variable_name(inside.as_bytes(), &cfg()).0.len(), 1);
}
