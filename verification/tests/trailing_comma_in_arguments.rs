use shirobai_core::rules::trailing_comma_in_arguments::{
    check_trailing_comma_in_arguments, Config, FIX_AVOID, FIX_PUT, MSG_AVOID_COMMA, MSG_AVOID_CONSISTENT_COMMA,
    MSG_AVOID_DIFF_COMMA, MSG_AVOID_NO_COMMA, MSG_PUT, STYLE_COMMA, STYLE_CONSISTENT_COMMA, STYLE_DIFF_COMMA,
    STYLE_NO_COMMA,
};

fn run(source: &str, style: u8) -> Vec<(usize, usize, u8, u8)> {
    check_trailing_comma_in_arguments(source.as_bytes(), &Config { style })
        .iter()
        .map(|o| (o.start_offset, o.end_offset, o.message, o.fix))
        .collect()
}

#[test]
fn trailing_comma_in_arguments_no_comma_single_line_trailing() {
    // `some_method(a, b,)` -> avoid comma at the `,`.
    let r = run("some_method(a, b,)\n", STYLE_NO_COMMA);
    assert_eq!(r.len(), 1);
    assert_eq!(r[0].2, MSG_AVOID_NO_COMMA);
    assert_eq!(r[0].3, FIX_AVOID);
    // The comma is the one-char range.
    assert_eq!(&"some_method(a, b,)\n".as_bytes()[r[0].0..r[0].1], b",");
}

#[test]
fn index_call_trailing() {
    let r = run("object[1, 2,]\n", STYLE_NO_COMMA);
    assert_eq!(r.len(), 1);
    assert_eq!(&"object[1, 2,]\n".as_bytes()[r[0].0..r[0].1], b",");
}

#[test]
fn index_assignment_not_triggered() {
    // `obj[1, 2,] = x` is `:[]=`, not `:[]` -> no offense.
    assert!(run("obj[1, 2,] = x\n", STYLE_NO_COMMA).is_empty());
}

#[test]
fn no_paren_call_not_triggered() {
    assert!(run("puts a, b,\n", STYLE_NO_COMMA).is_empty());
}

#[test]
fn dot_call_trailing() {
    let r = run("func.(1, 2,)\n", STYLE_NO_COMMA);
    assert_eq!(r.len(), 1);
}

#[test]
fn put_comma_two_per_line_consistent() {
    // consistent_comma wants a comma after `b`.
    let r = run("some_method(a, b\n)\n", STYLE_CONSISTENT_COMMA);
    assert_eq!(r.len(), 1);
    assert_eq!(r[0].2, MSG_PUT);
    assert_eq!(r[0].3, FIX_PUT);
}

#[test]
fn comma_style_each_own_line_put() {
    let r = run("m(\n  a,\n  b\n)\n", STYLE_COMMA);
    assert_eq!(r.len(), 1);
    assert_eq!(r[0].2, MSG_PUT);
}

#[test]
fn comma_style_two_on_line_no_put() {
    assert!(run("m(\n  a, b\n)\n", STYLE_COMMA).is_empty());
}

#[test]
fn block_pass_not_put() {
    // consistent_comma but last item is `&block` -> skipped.
    assert!(run("m(\n  a,\n  &block\n)\n", STYLE_CONSISTENT_COMMA).is_empty());
}

#[test]
fn single_multiline_braced_arg_allowed() {
    // A single multi-line argument with closing bracket on its own line is
    // multiline, but with closing not beginning its line it is allowed.
    assert!(run("EmailWorker.perform_async({\n  a: 1\n})\n", STYLE_CONSISTENT_COMMA).is_empty());
}

#[test]
fn diff_comma_last_precedes_newline() {
    let r = run("m(\n  a,\n  b\n)\n", STYLE_DIFF_COMMA);
    assert_eq!(r.len(), 1);
    assert_eq!(r[0].2, MSG_PUT);
}

#[test]
fn diff_comma_last_on_close_line_avoid() {
    // last argument on same line as closing bracket, with trailing comma.
    let r = run("m(a: 1,\n  c: 2,)\n", STYLE_DIFF_COMMA);
    assert_eq!(r.len(), 1);
    assert_eq!(r[0].2, MSG_AVOID_DIFF_COMMA);
    assert_eq!(r[0].3, FIX_AVOID);
}

#[test]
fn block_pass_last_arg_no_false_comma() {
    // `Dir.chdir(dir, &block)`: the `&block` is the last argument (in
    // parser-gem terms), so the `,` before it is not trailing.
    assert!(run("Dir.chdir(dir, &block)\n", STYLE_NO_COMMA).is_empty());
}

#[test]
fn block_pass_only_arg_no_offense() {
    assert!(run("m(&block)\n", STYLE_NO_COMMA).is_empty());
}

#[test]
fn do_end_block_not_an_argument() {
    // A `do…end` block is not an argument; `m(a,)` has a trailing comma.
    let r = run("m(a,) do\nend\n", STYLE_NO_COMMA);
    assert_eq!(r.len(), 1);
}

#[test]
fn heredoc_arg_no_offense() {
    assert!(run("route(1, <<-HELP.chomp)\n...\nHELP\n", STYLE_NO_COMMA).is_empty());
}

#[test]
fn csend_heredoc_not_heredoc_flagged() {
    // Stock's `heredoc?` only treats `send_type?` (`:send`), so a
    // safe-navigation call wrapping a heredoc is NOT heredoc-flagged and
    // the comma regex crosses the newline into the heredoc body (probed
    // on stock 1.88.0: the comma inside the body is an offense).
    let src = "m(x, a&.b(<<~X)\n, inside\n  X\n)\n";
    let r = run(src, STYLE_NO_COMMA);
    assert_eq!(r.len(), 1);
    assert_eq!(&src.as_bytes()[r[0].0..r[0].1], b",");
    assert_eq!(r[0].0, 16);
    // The plain `.` version IS heredoc-flagged -> no offense.
    assert!(run("m(x, a.b(<<~X)\n, inside\n  X\n)\n", STYLE_NO_COMMA).is_empty());
}

#[test]
fn trailing_comma_in_arguments_no_offense_when_already_clean() {
    assert!(run("some_method(a, b, c)\n", STYLE_NO_COMMA).is_empty());
}
