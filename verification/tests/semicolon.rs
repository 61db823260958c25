use shirobai_core::rules::semicolon::check_semicolon;

fn run(source: &str) -> Vec<(usize, bool)> {
    check_semicolon(source.as_bytes())
        .into_iter()
        .map(|o| (o.offset, o.last_token))
        .collect()
}

#[test]
fn last_token_semicolon() {
    assert_eq!(run("foo;\n"), vec![(3, true)]);
    assert_eq!(run("foo; # c\n"), vec![]);
    assert_eq!(run("x = 1;\n"), vec![(5, true)]);
}

#[test]
fn first_token_semicolon() {
    assert_eq!(run("; puts 1\n"), vec![(0, false)]);
    assert_eq!(run(";\n"), vec![(0, true)]);
}

#[test]
fn semicolon_before_right_curly() {
    assert_eq!(run("foo { bar; }\n"), vec![(9, false)]);
    assert_eq!(run("foo { bar; }.baz\n"), vec![]);
}

#[test]
fn semicolon_after_left_curly() {
    assert_eq!(run("foo {; bar }\n"), vec![(5, false)]);
    assert_eq!(run("-> {; x }\n"), vec![(4, false)]);
    assert_eq!(run("a.b {; x }\n"), vec![]);
    assert_eq!(run("foo(1) {; x }\n"), vec![]);
    assert_eq!(run("z = foo {; x }\n"), vec![]);
}

#[test]
fn semicolon_after_lambda_curly() {
    assert_eq!(run("foo -> {; bar }\n"), vec![(8, false)]);
    assert_eq!(run("baz ->() {; qux }\n"), vec![]);
    assert_eq!(run("z = -> {; x }\n"), vec![]);
}

#[test]
fn string_interpolation_patterns() {
    assert_eq!(run("\"#{;foo}\"\n"), vec![(3, false)]);
    assert_eq!(run("\"#{foo;}\"\n"), vec![(6, false)]);
    assert_eq!(run("\"#{foo;}bar\"\n"), vec![]);
    assert_eq!(run("\"#{foo;} \"\n"), vec![]);
    assert_eq!(run("x = \"#{;foo}\"\n"), vec![]);
}

#[test]
fn heredoc_opener_line() {
    assert_eq!(run("x = <<~T;\n  body\nT\n"), vec![(8, true)]);
    assert_eq!(run("x = <<~T; y = 2\n  body\nT\n"), vec![]);
}

#[test]
fn one_offense_per_line() {
    assert_eq!(run("; foo;\n"), vec![(5, true)]);
    assert_eq!(run("foo {; a }; b\n"), vec![(5, false)]);
}

#[test]
fn endless_range_is_last_token() {
    assert_eq!(run("42..;\n"), vec![(4, true)]);
}

#[test]
fn offenses_sit_on_semicolons_one_per_line() {
    let src = "a; b;\nc\n;x;\n";
    let r = run(src);
    assert_eq!(r, vec![(4, true), (10, true)]);
    let bytes = src.as_bytes();
    for w in r.windows(2) {
        assert!(bytes[w[0].0..w[1].0].contains(&b'\n'));
    }
    for (o, _) in &r {
        assert_eq!(bytes[*o], b';');
    }
    assert_eq!(run("a = 1\nb = 2\n"), vec![]);
    assert_eq!(run("x = 1 # a; b\n"), vec![]);
}
