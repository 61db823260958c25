use shirobai_core::rules::space_around_keyword::check_space_around_keyword;

fn run(source: &str) -> Vec<(usize, usize, char)> {
    check_space_around_keyword(source.as_bytes())
        .into_iter()
        .map(|o| (o.start_offset, o.end_offset, if o.before { 'B' } else { 'A' }))
        .collect()
}

#[test]
fn after_pre_execution() {
    assert_eq!(run("BEGIN{}\n"), vec![(0, 5, 'A')]);
}

#[test]
fn after_post_execution() {
    assert_eq!(run("END{}\n"), vec![(0, 3, 'A')]);
}

#[test]
fn before_and_keyword() {
    assert_eq!(run("1and 2\n"), vec![(1, 4, 'B')]);
}

#[test]
fn after_and_keyword() {
    assert_eq!(run("1 and(2)\n"), vec![(2, 5, 'A')]);
}

#[test]
fn does_not_flag_double_ampersand() {
    assert!(run("1&&2\n").is_empty());
}

#[test]
fn after_kwbegin() {
    assert_eq!(run("begin\"\" end\n"), vec![(0, 5, 'A')]);
}

#[test]
fn after_case() {
    assert_eq!(run("case\"\" when 1; end\n"), vec![(0, 4, 'A')]);
}

#[test]
fn before_do_in_block() {
    assert_eq!(run("a \"b\"do end\n"), vec![(5, 7, 'B')]);
}

#[test]
fn after_do_in_block() {
    assert_eq!(run("a do|x| end\n"), vec![(2, 4, 'A')]);
}

#[test]
fn before_do_in_while() {
    assert_eq!(run("while 1do end\n"), vec![(7, 9, 'B')]);
}

#[test]
fn after_do_in_while() {
    assert_eq!(run("while 1 do\"x\" end\n"), vec![(8, 10, 'A')]);
}

#[test]
fn before_do_in_for() {
    assert_eq!(run("for x in []do end\n"), vec![(11, 13, 'B')]);
}

#[test]
fn before_end_in_kwbegin() {
    assert_eq!(run("begin \"a\"end\n"), vec![(9, 12, 'B')]);
}

#[test]
fn before_end_in_if() {
    assert_eq!(run("if a; \"b\"end\n"), vec![(9, 12, 'B')]);
}

#[test]
fn before_end_in_do_block() {
    assert_eq!(run("a do \"a\"end\n"), vec![(8, 11, 'B')]);
}

#[test]
fn before_else_in_if() {
    assert_eq!(run("if a; \"\"else end\n"), vec![(8, 12, 'B')]);
}

#[test]
fn after_else_in_if() {
    assert_eq!(run("if a; else\"\" end\n"), vec![(6, 10, 'A')]);
}

#[test]
fn before_else_in_rescue() {
    assert_eq!(run("begin rescue; \"\"else end\n"), vec![(16, 20, 'B')]);
}

#[test]
fn before_else_in_case() {
    assert_eq!(run("case a; when b; \"\"else end\n"), vec![(18, 22, 'B')]);
}

#[test]
fn before_elsif() {
    assert_eq!(run("if a; \"\"elsif b; end\n"), vec![(8, 13, 'B')]);
}

#[test]
fn after_elsif() {
    assert_eq!(run("if a; elsif\"\"; end\n"), vec![(6, 11, 'A')]);
}

#[test]
fn before_ensure() {
    assert_eq!(run("begin \"\"ensure end\n"), vec![(8, 14, 'B')]);
}

#[test]
fn after_ensure() {
    assert_eq!(run("begin ensure\"\" end\n"), vec![(6, 12, 'A')]);
}

#[test]
fn after_if() {
    assert_eq!(run("if\"\"; end\n"), vec![(0, 2, 'A')]);
}

#[test]
fn after_not() {
    assert_eq!(run("not\"\"\n"), vec![(0, 3, 'A')]);
}

#[test]
fn accepts_not_paren() {
    assert!(run("not(1)\n").is_empty());
}

#[test]
fn before_rescue_modifier() {
    assert_eq!(run("\"\"rescue a\n"), vec![(2, 8, 'B')]);
}

#[test]
fn after_rescue_modifier() {
    assert_eq!(run("a rescue\"\"\n"), vec![(2, 8, 'A')]);
}

#[test]
fn accepts_rescue_paren() {
    assert!(run("begin; rescue(Error); end\n").is_empty());
}

#[test]
fn after_return_string() {
    assert_eq!(run("return\"\"\n"), vec![(0, 6, 'A')]);
}

#[test]
fn after_return_paren() {
    assert_eq!(run("return(1)\n"), vec![(0, 6, 'A')]);
}

#[test]
fn after_super_string() {
    assert_eq!(run("super\"\"\n"), vec![(0, 5, 'A')]);
}

#[test]
fn accepts_super_paren() {
    assert!(run("super(1)\n").is_empty());
}

#[test]
fn after_super_brace() {
    assert_eq!(run("super{}\n"), vec![(0, 5, 'A')]);
}

#[test]
fn accepts_defined_paren() {
    assert!(run("defined?(1)\n").is_empty());
}

#[test]
fn after_defined() {
    assert_eq!(run("defined?1\n"), vec![(0, 8, 'A')]);
}

#[test]
fn before_then() {
    assert_eq!(run("if \"\"then a end\n"), vec![(5, 9, 'B')]);
}

#[test]
fn after_then() {
    assert_eq!(run("if a then\"\" end\n"), vec![(5, 9, 'A')]);
}

#[test]
fn after_unless() {
    assert_eq!(run("unless\"\"; end\n"), vec![(0, 6, 'A')]);
}

#[test]
fn before_until_modifier() {
    assert_eq!(run("1until \"\"\n"), vec![(1, 6, 'B')]);
}

#[test]
fn after_until_modifier() {
    assert_eq!(run("1 until\"\"\n"), vec![(2, 7, 'A')]);
}

#[test]
fn before_when() {
    assert_eq!(run("case \"\"when a; end\n"), vec![(7, 11, 'B')]);
}

#[test]
fn after_when() {
    assert_eq!(run("case a when\"\"; end\n"), vec![(7, 11, 'A')]);
}

#[test]
fn before_while_modifier() {
    assert_eq!(run("1while \"\"\n"), vec![(1, 6, 'B')]);
}

#[test]
fn after_yield() {
    assert_eq!(run("yield\"\"\n"), vec![(0, 5, 'A')]);
}

#[test]
fn accepts_yield_paren() {
    assert!(run("yield(1)\n").is_empty());
}

#[test]
fn accepts_operator_before_begin() {
    assert!(run("+begin end\n").is_empty());
}

#[test]
fn after_begin_plus() {
    assert_eq!(run("begin+1 end\n"), vec![(0, 5, 'A')]);
}

#[test]
fn accepts_dot_after_begin_end() {
    assert!(run("begin end.inspect\n").is_empty());
}

#[test]
fn accepts_bang_before_yield() {
    assert!(run("!yield\n").is_empty());
}

#[test]
fn accepts_dot_after_yield() {
    assert!(run("yield.method\n").is_empty());
}

#[test]
fn accepts_bang_yield_method() {
    assert!(run("!yield.method\n").is_empty());
}

#[test]
fn accepts_bang_super_method() {
    assert!(run("!super.method\n").is_empty());
}

#[test]
fn accepts_super_namespace() {
    assert!(run("super::ModuleName\n").is_empty());
}

#[test]
fn accepts_super_safe_nav() {
    assert!(run("super&.foo\n").is_empty());
}

#[test]
fn accepts_yield_safe_nav() {
    assert!(run("yield&.foo\n").is_empty());
}

#[test]
fn accepts_super_bracket() {
    assert!(run("super[1]\n").is_empty());
}

#[test]
fn accepts_yield_bracket() {
    assert!(run("yield[1]\n").is_empty());
}

#[test]
fn accepts_pipe_before_break() {
    assert!(run("loop { |x|break }\n").is_empty());
}

#[test]
fn accepts_range_before_super() {
    assert!(run("1..super.size\n").is_empty());
}

#[test]
fn accepts_erange_before_super() {
    assert!(run("1...super.size\n").is_empty());
}

#[test]
fn accepts_operators_before_begin() {
    assert!(run("a=begin end\n").is_empty());
    assert!(run("a==begin end\n").is_empty());
    assert!(run("a+begin end\n").is_empty());
    assert!(run("a+begin; end.method\n").is_empty());
}

#[test]
fn clean_constructs() {
    assert!(run("loop{}\n").is_empty());
    assert!(run("a 1,foo,1\n").is_empty());
    assert!(run("test do;end\n").is_empty());
    assert!(run("[begin end]\n").is_empty());
    assert!(run("loop {next}\n").is_empty());
    assert!(run("{a: begin end}\n").is_empty());
    assert!(run("a[begin end]\n").is_empty());
    assert!(run("\"#{begin end}\"\n").is_empty());
}

#[test]
fn after_in_pattern() {
    assert_eq!(run("case a; in\"\"; end\n"), vec![(8, 10, 'A')]);
}

#[test]
fn after_in_one_line_pattern() {
    assert_eq!(run("a in\"\"\n"), vec![(2, 4, 'A')]);
}

#[test]
fn before_in_one_line_pattern() {
    assert_eq!(run("\"\"in a\n"), vec![(2, 4, 'B')]);
}

#[test]
fn before_else_in_case_match() {
    assert_eq!(run("case a; in b; \"\"else end\n"), vec![(16, 20, 'B')]);
}

#[test]
fn after_else_in_case_match() {
    assert_eq!(run("case a; in b; else\"\" end\n"), vec![(14, 18, 'A')]);
}

#[test]
fn clean_case_match_no_offense() {
    assert!(run("case \"\"; in 1; end\n").is_empty());
}

#[test]
fn before_if_guard_in_pattern() {
    assert_eq!(
        run("case a; in \"pattern\"if \"condition\"; else \"\" end\n"),
        vec![(20, 22, 'B')]
    );
}

#[test]
fn after_if_guard_in_pattern() {
    assert_eq!(
        run("case a; in \"pattern\" if\"condition\"; else \"\" end\n"),
        vec![(21, 23, 'A')]
    );
}
