use shirobai_core::rules::space_before_first_arg::{check_space_before_first_arg, Config};

fn run(source: &str, allow: bool) -> Vec<(usize, usize)> {
    check_space_before_first_arg(
        source.as_bytes(),
        Config {
            allow_for_alignment: allow,
        },
    )
}

#[test]
fn basic_offenses() {
    assert_eq!(run("something  x\n", true), vec![(9, 11)]);
    assert!(run("something x\n", true).is_empty());
    // Any single character passes, tab included.
    assert!(run("something\tx\n", true).is_empty());
    // Glued argument: empty range, alignment skipped.
    assert_eq!(run("something'hello'\n", true), vec![(9, 9)]);
}

#[test]
fn skipped_shapes() {
    assert!(run("x.foo =  1\n", true).is_empty());
    assert!(run("x +  1\n", true).is_empty());
    assert!(run("not  x\n", true).is_empty());
    assert!(run("x.\n  foo  1\n", true).is_empty());
    assert!(run("foo \\\n  bar\n", true).is_empty());
    assert!(run("super  1\n", true).is_empty());
    assert!(run("yield  1\n", true).is_empty());
    assert!(run("f(  x)\n", true).is_empty());
}

#[test]
fn block_pass_and_splats_are_arguments() {
    assert_eq!(run("foo  &b\n", true), vec![(3, 5)]);
    assert_eq!(run("foo  &:sym\n", true), vec![(3, 5)]);
    assert_eq!(run("foo  *a\n", true), vec![(3, 5)]);
    assert_eq!(run("foo  **h\n", true), vec![(3, 5)]);
    assert_eq!(run("x&.foo  1\n", true), vec![(6, 8)]);
}

#[test]
fn alignment_with_words() {
    assert!(run("foo  1\nbar  2\n", true).is_empty());
    assert_eq!(
        run("foo  1\nbar  2\n", false),
        vec![(3, 5), (10, 12)]
    );
    // `\s\S` boundary through the arg column.
    assert!(run("foo    1\nbarbar 2\n", true).is_empty());
    // Nearest line decides: a non-aligned word above.
    assert_eq!(run("baz\nfoo  1\n", true), vec![(7, 9)]);
    assert_eq!(run("wwwww 0\nfoo  1\n", true), vec![(11, 13)]);
}

#[test]
fn alignment_skips_comment_and_blank_lines() {
    assert!(run("# c\nfoo  1\nbar  2\n", true).is_empty());
    assert!(run("foo  1\n# c\nbar  2\n", true).is_empty());
    assert!(run("foo  1\n\nbar  2\n", true).is_empty());
}

#[test]
fn alignment_second_pass_uses_indentation() {
    assert!(run("foo  1\n  x.bar\nbaz  2\n", true).is_empty());
    assert_eq!(run("foo  1\n  indented  2\n", true), vec![(3, 5), (17, 19)]);
}

#[test]
fn alignment_with_equals_operator() {
    // `:foo=` last column 13 == the `=` token's last column (the
    // `aligned_words?` checks fail on the `xx` boundary first).
    assert!(run("define  :foo=\nxxxxxxxxxxx = 1\n", true).is_empty());
    // The `=` ends at a different column: offense.
    assert_eq!(run("define  :foo=\nxxxxxxxxx = 111\n", true), vec![(6, 8)]);
    // A shorter word line aligns through the `\\s\\S` boundary instead.
    assert!(run("define  :foo=\nxxxxxxx = 1\n", true).is_empty());
    // `=`s inside a string are not tokens.
    assert_eq!(
        run("define  :foo=\nx = \"===========\"\n", true),
        vec![(6, 8)]
    );
    // `<=>` is a tCMP, not a comparison from the list: longest-match must
    // skip it (a naive scan would take `<=` ending at the arg column).
    assert_eq!(
        run("define  :foo=\nzzzzzzzzzzz<=>b = 9\n", true),
        vec![(6, 8)]
    );
}

#[test]
fn multibyte_columns() {
    assert!(run("foo  \u{5b9f}\u{5f15}\u{6570}\nbar  x\n", true).is_empty());
}

#[test]
fn data_segment_lines_are_absent() {
    // The line below the call is past `__END__`: not a candidate line.
    assert_eq!(run("foo  1\n__END__\nbar  2\n", true), vec![(3, 5)]);
}

#[test]
fn offense_covers_the_whole_space_run() {
    assert_eq!(run("foo \t 1\n", false), vec![(3, 6)]);
    assert_eq!(run("foo \t 1\n", true), vec![(3, 6)]);
}

#[test]
fn nearest_unaligned_line_decides() {
    assert_eq!(run("bar  2\nbaz\nfoo  1\n", true), vec![(3, 5), (14, 16)]);
}

#[test]
fn alignment_only_drops_offenses_example() {
    let src = "puts  1\nputs  2\nfoo  3\nbar x\n";
    let allowed = run(src, true);
    let strict = run(src, false);
    assert_eq!(strict, vec![(4, 6), (12, 14), (19, 21)]);
    let mut at = 0;
    for o in &allowed {
        let k = strict[at..].iter().position(|s| s == o).expect("kept offense is a strict offense");
        at += k + 1;
    }
    assert!(allowed.len() < strict.len());
}
