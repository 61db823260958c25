use shirobai_core::rules::trailing_comma::{
    FIX_AVOID, FIX_PUT, MSG_AVOID_COMMA, MSG_AVOID_CONSISTENT_COMMA, MSG_AVOID_DIFF_COMMA,
    MSG_AVOID_NO_COMMA, MSG_PUT, STYLE_COMMA, STYLE_CONSISTENT_COMMA, STYLE_DIFF_COMMA,
    STYLE_NO_COMMA,
};
use shirobai_core::rules::trailing_comma_in_hash_literal::{check_trailing_comma_in_hash_literal, Config};

fn run(source: &str, style: u8) -> Vec<(usize, usize, u8, u8)> {
    check_trailing_comma_in_hash_literal(source.as_bytes(), &Config { style })
        .iter()
        .map(|o| (o.start_offset, o.end_offset, o.message, o.fix))
        .collect()
}

#[test]
fn trailing_comma_in_hash_literal_no_comma_single_line_trailing() {
    // Probed: offense at [16, 17) (the comma).
    let src = "h = { a: 1, b: 2, }\n";
    let r = run(src, STYLE_NO_COMMA);
    assert_eq!(r, vec![(16, 17, MSG_AVOID_NO_COMMA, FIX_AVOID)]);
}

#[test]
fn trailing_comma_in_hash_literal_avoid_message_tracks_style() {
    let src = "h = { a: 1, b: 2, }\n";
    assert_eq!(run(src, STYLE_COMMA)[0].2, MSG_AVOID_COMMA);
    assert_eq!(run(src, STYLE_CONSISTENT_COMMA)[0].2, MSG_AVOID_CONSISTENT_COMMA);
    assert_eq!(run(src, STYLE_DIFF_COMMA)[0].2, MSG_AVOID_DIFF_COMMA);
}

#[test]
fn braceless_hash_not_triggered() {
    // A braceless keyword hash is `Style/TrailingCommaInArguments`'
    // business (probed: stock never fires the hash cop here).
    assert!(run("m(a: 1, b: 2,)\n", STYLE_NO_COMMA).is_empty());
    assert!(run("m(a: 1,\n  b: 2)\n", STYLE_CONSISTENT_COMMA).is_empty());
}

#[test]
fn trailing_comma_in_hash_literal_empty_literal_no_offense() {
    assert!(run("h = {}\n", STYLE_NO_COMMA).is_empty());
    assert!(run("h = {}\n", STYLE_CONSISTENT_COMMA).is_empty());
}

#[test]
fn consistent_comma_put_on_multiline() {
    // Probed: caret [8, 11) = `**a`; kwsplat is a valid last item.
    let r = run("h = {\n  **a\n}\n", STYLE_CONSISTENT_COMMA);
    assert_eq!(r, vec![(8, 11, MSG_PUT, FIX_PUT)]);
}

#[test]
fn kwsplat_trailing_comma_ok_under_consistent() {
    assert!(run("h = {\n  **a,\n}\n", STYLE_CONSISTENT_COMMA).is_empty());
    let r = run("h = {\n  **a,\n}\n", STYLE_NO_COMMA);
    assert_eq!(r, vec![(11, 12, MSG_AVOID_NO_COMMA, FIX_AVOID)]);
}

#[test]
fn put_caret_is_last_line_of_multiline_value() {
    // Probed: `a: [\n    1\n  ]` puts the caret on the `]` [21, 22).
    let r = run("h = {\n  a: [\n    1\n  ]\n}\n", STYLE_CONSISTENT_COMMA);
    assert_eq!(r, vec![(21, 22, MSG_PUT, FIX_PUT)]);
}

#[test]
fn single_pair_closing_on_value_line_allowed() {
    // The outer hash's `}` does not begin its line -> allowed multiline;
    // the inner hash's `}` does -> put on `b: 1` [13, 17) (probed).
    let r = run("h = { a: {\n  b: 1\n} }\n", STYLE_CONSISTENT_COMMA);
    assert_eq!(r, vec![(13, 17, MSG_PUT, FIX_PUT)]);
}

#[test]
fn heredoc_value_comma_in_body_not_offense() {
    // The comma on the heredoc body's first line is body text; the
    // heredoc-aware regex must not cross the newline.
    assert!(run("h = {\n  a: b.c(<<~X)\n, inside\n  X\n}\n", STYLE_NO_COMMA).is_empty());
}

#[test]
fn trailing_comma_in_hash_literal_csend_heredoc_body_comma_is_offense() {
    // Stock's `heredoc?` only treats `send_type?`, so a safe-navigation
    // call wrapping a heredoc is NOT heredoc-flagged and the comma inside
    // the body is an offense (probed at [22, 23)).
    let src = "h = {\n  a: b&.c(<<~X)\n, inside\n  X\n}\n";
    let r = run(src, STYLE_NO_COMMA);
    assert_eq!(r, vec![(22, 23, MSG_AVOID_NO_COMMA, FIX_AVOID)]);
}

#[test]
fn trailing_comma_in_hash_literal_no_offense_when_already_clean() {
    assert!(run("h = { a: 1, b: 2 }\n", STYLE_NO_COMMA).is_empty());
    assert!(run("h = {\n  a: 1,\n  b: 2,\n}\n", STYLE_CONSISTENT_COMMA).is_empty());
}
