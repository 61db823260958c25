use shirobai_core::rules::space_inside_reference_brackets::{
    check_space_inside_reference_brackets, Config, CorrectorOp, Style,
};

fn run(source: &str, style: Style, space_empty: bool) -> Vec<(usize, usize, u8, usize, bool)> {
    check_space_inside_reference_brackets(source.as_bytes(), Config { style, space_empty })
        .offenses
        .into_iter()
        .map(|o| {
            (
                o.start_offset,
                o.end_offset,
                o.message.code(),
                o.node,
                o.suppress_when_disable_uncorrectable,
            )
        })
        .collect()
}

fn ops(source: &str, style: Style, space_empty: bool) -> Vec<Vec<CorrectorOp>> {
    check_space_inside_reference_brackets(source.as_bytes(), Config { style, space_empty })
        .node_ops
}

#[test]
fn no_space_flags_inner_spaces() {
    assert_eq!(
        run("hash[ :key ]\n", Style::NoSpace, false),
        vec![(5, 6, 1, 0, false), (10, 11, 1, 0, true)]
    );
    assert_eq!(
        ops("hash[ :key ]\n", Style::NoSpace, false),
        vec![vec![(0, 5, 6), (0, 10, 11)]]
    );
    assert_eq!(
        run("hash[\t:key\t]\n", Style::NoSpace, false),
        vec![(5, 6, 1, 0, false), (10, 11, 1, 0, true)]
    );
    assert!(run("hash[:key]\n", Style::NoSpace, false).is_empty());
}

#[test]
fn space_inside_reference_brackets_space_style_flags_missing_spaces() {
    assert_eq!(
        run("hash[:key]\n", Style::Space, false),
        vec![(4, 5, 0, 0, false), (9, 10, 0, 0, true)]
    );
    assert_eq!(
        ops("hash[:key]\n", Style::Space, false),
        vec![vec![(1, 4, 5), (2, 9, 10)]]
    );
    assert!(run("hash[ :key ]\n", Style::Space, false).is_empty());
}

#[test]
fn space_inside_reference_brackets_empty_brackets() {
    assert_eq!(
        run("foo[ ]\n", Style::NoSpace, false),
        vec![(3, 6, 3, 0, false)]
    );
    assert!(run("foo[]\n", Style::NoSpace, false).is_empty());
    assert_eq!(
        run("foo[]\n", Style::NoSpace, true),
        vec![(3, 5, 2, 0, false)]
    );
    assert_eq!(
        ops("foo[]\n", Style::NoSpace, true),
        vec![vec![(0, 4, 4), (1, 3, 4)]]
    );
    assert!(run("foo[ ]\n", Style::NoSpace, true).is_empty());
    assert_eq!(
        run("foo[  ]\n", Style::NoSpace, true),
        vec![(3, 7, 2, 0, false)]
    );
    // Empty offenses fire before the multiline guard.
    assert_eq!(
        run("foo[\n]\n", Style::NoSpace, false),
        vec![(3, 6, 3, 0, false)]
    );
    assert_eq!(
        run("foo[\n]\n", Style::NoSpace, true),
        vec![(3, 6, 2, 0, false)]
    );
}

#[test]
fn write_forms_are_checked() {
    assert_eq!(
        run("a[ 1 ] = 2\n", Style::NoSpace, false).len(),
        2,
        "index write"
    );
    assert_eq!(
        run("a[ 1 ] += 2\n", Style::NoSpace, false).len(),
        2,
        "index op write"
    );
    assert_eq!(
        run("a[ 1 ] ||= 2\n", Style::NoSpace, false).len(),
        2,
        "index or write"
    );
    assert_eq!(
        run("a[ 1 ], b = 1, 2\n", Style::NoSpace, false).len(),
        2,
        "masgn target"
    );
}

#[test]
fn multiline_extents_follow_the_legacy_node() {
    // `a[1] = …` is one legacy send: a next-line value skips it.
    assert!(run("a[ 1 ] =\n  2\n", Style::NoSpace, false).is_empty());
    // `a[1] += …` keeps the inner send single-line: still flagged.
    assert_eq!(run("a[ 1 ] +=\n  2\n", Style::NoSpace, false).len(), 2);
    // Multiline brackets skip.
    assert!(run("a[\n1\n]\n", Style::NoSpace, false).is_empty());
    // Multiline receiver makes the node multiline.
    assert!(run("(a\n)[ 1 ]\n", Style::NoSpace, false).is_empty());
}

#[test]
fn non_reference_brackets_are_skipped() {
    assert!(run("x = [ 1 ]\n", Style::NoSpace, false).is_empty());
    assert!(run("a.[](1)\n", Style::NoSpace, false).is_empty());
    assert!(run("a&.[](1)\n", Style::NoSpace, false).is_empty());
    assert!(run("x = %w[ a ]\n", Style::NoSpace, false).is_empty());
}

#[test]
fn comment_inside_brackets_is_multiline() {
    assert!(run("a[ # c\n1]\n", Style::NoSpace, false).is_empty());
    assert!(run("foo[ # c\n ]\n", Style::NoSpace, false).is_empty());
}

#[test]
fn nested_and_chained_indexes() {
    assert_eq!(run("a[ b[ 1 ] ]\n", Style::NoSpace, false).len(), 4);
    assert_eq!(run("a[ 1 ][ 2 ]\n", Style::NoSpace, false).len(), 4);
}

#[test]
fn heredoc_argument_stays_single_line() {
    assert_eq!(
        run("a[ <<~EOS ]\n  b\nEOS\n", Style::NoSpace, false).len(),
        2
    );
}
