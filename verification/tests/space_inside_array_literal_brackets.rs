use shirobai_core::rules::space_inside_array_literal_brackets::{
    check_space_inside_array_literal_brackets, Config, Op, Style,
};

fn run(source: &str, style: Style, space_empty: bool) -> Vec<(usize, usize, u8, usize, bool)> {
    check_space_inside_array_literal_brackets(source.as_bytes(), Config { style, space_empty })
        .offenses
        .into_iter()
        .map(|o| {
            (
                o.start_offset,
                o.end_offset,
                o.message.code(),
                o.node,
                o.suppress_when_disable_uncorrectable,
            )
        })
        .collect()
}

fn ops(source: &str, style: Style, space_empty: bool) -> Vec<Vec<(u8, usize, usize)>> {
    check_space_inside_array_literal_brackets(source.as_bytes(), Config { style, space_empty })
        .node_ops
        .into_iter()
        .map(|v| v.into_iter().map(Op::packed).collect())
        .collect()
}

#[test]
fn no_space_flags_leading_and_trailing() {
    // "a = [ 2, 3 ]": left space [5,6), right space [10,11).
    assert_eq!(
        run("a = [ 2, 3 ]\n", Style::NoSpace, false),
        vec![(5, 6, 1, 0, false), (10, 11, 1, 0, true)]
    );
    assert_eq!(
        ops("a = [ 2, 3 ]\n", Style::NoSpace, false),
        vec![vec![(0, 5, 6), (0, 10, 11)]]
    );
}

#[test]
fn no_space_accepts_comment_after_bracket() {
    assert!(run("a = [ # c\n  1]\n", Style::NoSpace, false).is_empty());
}

#[test]
fn no_space_flags_space_before_newline() {
    // "[ \n  1]": the space run after `[` offends even across the break.
    assert_eq!(
        run("a = [ \n  1]\n", Style::NoSpace, false),
        vec![(5, 6, 1, 0, false)]
    );
}

#[test]
fn no_space_accepts_own_line_bracket() {
    assert!(run("a = [\n  1, 2\n    ]\n", Style::NoSpace, false).is_empty());
    assert!(run("a = [\n  1, 2, nil\n\t].compact\n", Style::NoSpace, false).is_empty());
}

#[test]
fn percent_arrays_are_skipped() {
    assert!(run("a = %w[ a b ]\n", Style::NoSpace, false).is_empty());
    assert!(run("a = %i[ a b ]\n", Style::Space, false).is_empty());
}

#[test]
fn reference_brackets_are_skipped() {
    assert!(run("b[ 3]\nc[ foo ]\n", Style::NoSpace, false).is_empty());
}

#[test]
fn space_style_flags_missing() {
    assert_eq!(
        run("a = [2, 3 ]\n", Style::Space, false),
        vec![(4, 5, 0, 0, false)]
    );
    assert_eq!(
        run("a = [ 2, 3]\n", Style::Space, false),
        vec![(10, 11, 0, 0, true)]
    );
}

#[test]
fn space_inside_array_literal_brackets_empty_brackets() {
    assert_eq!(
        run("a = [ ]\n", Style::NoSpace, false),
        vec![(4, 7, 3, 0, false)]
    );
    assert_eq!(
        run("a = [\n]\n", Style::NoSpace, false),
        vec![(4, 7, 3, 0, false)]
    );
    assert!(run("a = []\n", Style::NoSpace, false).is_empty());
    assert_eq!(
        run("a = []\n", Style::NoSpace, true),
        vec![(4, 6, 2, 0, false)]
    );
    assert_eq!(
        run("a = [  ]\n", Style::NoSpace, true),
        vec![(4, 8, 2, 0, false)]
    );
    assert!(run("a = [ ]\n", Style::NoSpace, true).is_empty());
    // Comment between: not empty brackets, and no non-empty offense fires.
    assert!(run("a = [ # c\n]\n", Style::NoSpace, true).is_empty());
}

#[test]
fn compact_nested_arrays() {
    // "[ [1] ]": left compact removal offense + inner Use pair + right
    // compact removal offense.
    assert_eq!(
        run("d = [ [1] ]\n", Style::Compact, false),
        vec![
            (5, 6, 1, 0, false),
            (9, 10, 1, 0, false),
            (6, 7, 0, 1, false),
            (8, 9, 0, 1, false)
        ]
    );
    assert!(run("d = [[ 1 ]]\n", Style::Compact, false).is_empty());
}

#[test]
fn compact_zero_width_left_offense_on_newline() {
    // "[\n  [1], [2]]": qualifies via `\n` after `[`, offense range empty.
    let offs = run("f = [\n  [1], [2]]\n", Style::Compact, false);
    assert_eq!(offs[0], (5, 5, 1, 0, false));
    // compact correction removes the newline run.
    assert_eq!(
        ops("f = [\n  [1], [2]]\n", Style::Compact, false)[0][0],
        (0, 5, 8)
    );
}

#[test]
fn compact_percent_and_index_closers() {
    // %w closer is not a tRBRACK: a space is required before `]`.
    assert_eq!(
        run("a = [x, %w[a]]\n", Style::Compact, false),
        vec![(4, 5, 0, 0, false), (13, 14, 0, 0, false)]
    );
    // an index call closer is a tRBRACK: multi-dimensional, no offense.
    assert_eq!(
        run("c = [x, h[0]]\n", Style::Compact, false),
        vec![(4, 5, 0, 0, false)]
    );
}

#[test]
fn array_pattern_checked() {
    assert_eq!(
        run("case v\nin [ a, b ]\n  1\nend\n", Style::NoSpace, false),
        vec![(11, 12, 1, 0, false), (16, 17, 1, 0, true)]
    );
}

#[test]
fn const_pattern_bracket_form_redirect_swallows_inner() {
    // `ADT[[a, b ]]`: the bare inner pattern redirects to the const pair,
    // duplicating the (offense-free) outer check — nothing fires.
    assert!(run("case v\nin ADT[[a, b ]]\n  1\nend\n", Style::NoSpace, false).is_empty());
    // Without the constant the inner pattern is checked normally.
    assert_eq!(
        run("case v\nin [[a, b ]]\n  1\nend\n", Style::NoSpace, false),
        vec![(16, 17, 1, 0, true)]
    );
}

#[test]
fn const_pattern_paren_form_hunts_min_max_pair() {
    // `ADT([g ], [h ])`: the pair is `[` of [g ] / `]` of [h ] — only the
    // space before the LAST `]` offends.
    assert_eq!(
        run(
            "case v\nin ADT([g ], [h ])\n  1\nend\n",
            Style::NoSpace,
            false
        ),
        vec![(22, 23, 1, 0, true)]
    );
}

#[test]
fn const_pattern_bracket_form_checks_own_pair() {
    assert_eq!(
        run(
            "case v\nin ADT[ i, [j ]]\n  1\nend\n",
            Style::NoSpace,
            false
        ),
        vec![(14, 15, 1, 0, false)]
    );
}
