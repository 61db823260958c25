use shirobai_core::rules::trailing_comma::{
    FIX_AVOID, FIX_PUT, MSG_AVOID_COMMA, MSG_AVOID_CONSISTENT_COMMA, MSG_AVOID_DIFF_COMMA,
    MSG_AVOID_NO_COMMA, MSG_PUT, STYLE_COMMA, STYLE_CONSISTENT_COMMA, STYLE_DIFF_COMMA,
    STYLE_NO_COMMA,
};
use shirobai_core::rules::trailing_comma_in_array_literal::{check_trailing_comma_in_array_literal, Config};

fn run(source: &str, style: u8) -> Vec<(usize, usize, u8, u8)> {
    check_trailing_comma_in_array_literal(source.as_bytes(), &Config { style })
        .iter()
        .map(|o| (o.start_offset, o.end_offset, o.message, o.fix))
        .collect()
}

#[test]
fn trailing_comma_in_array_literal_no_comma_single_line_trailing() {
    // Probed: offense at [9, 10) (the comma).
    let src = "x = [1, 2,]\n";
    let r = run(src, STYLE_NO_COMMA);
    assert_eq!(r, vec![(9, 10, MSG_AVOID_NO_COMMA, FIX_AVOID)]);
}

#[test]
fn trailing_comma_in_array_literal_avoid_message_tracks_style() {
    let src = "x = [1, 2,]\n";
    assert_eq!(run(src, STYLE_COMMA)[0].2, MSG_AVOID_COMMA);
    assert_eq!(run(src, STYLE_CONSISTENT_COMMA)[0].2, MSG_AVOID_CONSISTENT_COMMA);
    assert_eq!(run(src, STYLE_DIFF_COMMA)[0].2, MSG_AVOID_DIFF_COMMA);
}

#[test]
fn percent_arrays_not_triggered() {
    // The opening token is `%w[` / `%i(`, not `[` (probed).
    assert!(run("x = %w[\n  a\n  b\n]\n", STYLE_CONSISTENT_COMMA).is_empty());
    assert!(run("x = %i(\n  a\n  b\n)\n", STYLE_CONSISTENT_COMMA).is_empty());
}

#[test]
fn implicit_arrays_not_triggered() {
    // No brackets at all (probed).
    assert!(run("a = 1,\n  2\n", STYLE_CONSISTENT_COMMA).is_empty());
    assert!(run("def f\n  return 1,\n    2\nend\n", STYLE_CONSISTENT_COMMA).is_empty());
}

#[test]
fn trailing_comma_in_array_literal_empty_literal_no_offense() {
    assert!(run("x = []\n", STYLE_NO_COMMA).is_empty());
    assert!(run("x = []\n", STYLE_CONSISTENT_COMMA).is_empty());
}

#[test]
fn splat_last_item() {
    // Probed: put caret [8, 10) = `*a`; avoid at [10, 11).
    let r = run("x = [\n  *a\n]\n", STYLE_CONSISTENT_COMMA);
    assert_eq!(r, vec![(8, 10, MSG_PUT, FIX_PUT)]);
    let r = run("x = [\n  *a,\n]\n", STYLE_NO_COMMA);
    assert_eq!(r, vec![(10, 11, MSG_AVOID_NO_COMMA, FIX_AVOID)]);
    assert!(run("x = [\n  *a,\n]\n", STYLE_CONSISTENT_COMMA).is_empty());
}

#[test]
fn heredoc_last_item() {
    // Probed: avoid at [19, 20) (the comma right after the marker); put
    // caret [13, 19) = `<<~EOS`.
    let r = run("x = [\n  1,\n  <<~EOS,\n    t\n  EOS\n]\n", STYLE_NO_COMMA);
    assert_eq!(r, vec![(19, 20, MSG_AVOID_NO_COMMA, FIX_AVOID)]);
    let r = run("x = [\n  1,\n  <<~EOS\n    t\n  EOS\n]\n", STYLE_CONSISTENT_COMMA);
    assert_eq!(r, vec![(13, 19, MSG_PUT, FIX_PUT)]);
}

#[test]
fn trailing_comma_in_array_literal_csend_heredoc_body_comma_is_offense() {
    // Stock's `heredoc?` only treats `send_type?`, so a safe-navigation
    // call wrapping a heredoc is NOT heredoc-flagged and the comma inside
    // the body is an offense (probed at [19, 20)); the plain `.` version
    // IS heredoc-flagged -> no offense.
    let src = "x = [\n  a&.b(<<~X)\n, inside\n  X\n]\n";
    let r = run(src, STYLE_NO_COMMA);
    assert_eq!(r, vec![(19, 20, MSG_AVOID_NO_COMMA, FIX_AVOID)]);
    assert!(run("x = [\n  a.b(<<~X)\n, inside\n  X\n]\n", STYLE_NO_COMMA).is_empty());
}

#[test]
fn single_element_closing_on_same_line_allowed() {
    assert!(run("x = [{\n  a: 1\n}]\n", STYLE_CONSISTENT_COMMA).is_empty());
}

#[test]
fn two_per_line_styles() {
    // Probed: consistent wants a comma after `4` [19, 20); comma and
    // diff_comma want nothing.
    let src = "x = [1, 2,\n     3, 4]\n";
    assert!(run(src, STYLE_NO_COMMA).is_empty());
    assert!(run(src, STYLE_COMMA).is_empty());
    assert!(run(src, STYLE_DIFF_COMMA).is_empty());
    let r = run(src, STYLE_CONSISTENT_COMMA);
    assert_eq!(r, vec![(19, 20, MSG_PUT, FIX_PUT)]);
    // With the trailing comma present, consistent accepts; diff_comma
    // avoids (the item does not precede a newline).
    let src = "x = [1, 2,\n     3, 4,]\n";
    assert!(run(src, STYLE_CONSISTENT_COMMA).is_empty());
    let r = run(src, STYLE_DIFF_COMMA);
    assert_eq!(r, vec![(20, 21, MSG_AVOID_DIFF_COMMA, FIX_AVOID)]);
}

#[test]
fn nested_arrays_fire_outer_first() {
    // Probed: stock reports the outer offense first (walk enter order).
    let src = "x = [[1, 2,], [3],]\n";
    let r = run(src, STYLE_NO_COMMA);
    assert_eq!(
        r,
        vec![
            (17, 18, MSG_AVOID_NO_COMMA, FIX_AVOID),
            (10, 11, MSG_AVOID_NO_COMMA, FIX_AVOID),
        ]
    );
}

#[test]
fn trailing_comma_in_array_literal_no_offense_when_already_clean() {
    assert!(run("x = [1, 2, 3]\n", STYLE_NO_COMMA).is_empty());
    assert!(run("x = [\n  1,\n  2,\n]\n", STYLE_CONSISTENT_COMMA).is_empty());
}
