use shirobai_core::rules::space_before_block_braces::check_space_before_block_braces;

fn run(source: &str) -> Vec<(usize, usize, usize, bool, bool)> {
    check_space_before_block_braces(source.as_bytes())
        .into_iter()
        .map(|r| {
            (
                r.left_start,
                r.left_end,
                r.space_begin,
                r.empty,
                r.multiline,
            )
        })
        .collect()
}

#[test]
fn spaced_and_unspaced_blocks() {
    assert_eq!(
        run("each { puts }\neach{ puts }\n"),
        vec![(5, 6, 4, false, false), (18, 19, 18, false, false)]
    );
}

#[test]
fn empty_braces() {
    assert_eq!(run("7.times {}\n"), vec![(8, 9, 7, true, false)]);
    // `{ }` is not "empty" for this cop.
    assert_eq!(run("7.times { }\n"), vec![(8, 9, 7, false, false)]);
}

#[test]
fn multiline_is_brace_based() {
    // The call spans two lines but the braces are on one: not multiline.
    assert_eq!(
        run("foo.map(a,\n        b) { |x| x }\n"),
        vec![(22, 23, 21, false, false)]
    );
    assert_eq!(run("foo.bar { |x|\n  x\n}\n"), vec![(8, 9, 7, false, true)]);
}

#[test]
fn bare_super_block_braces() {
    // The BlockNode of a bare `super` hides behind ForwardingSuperNode's
    // typed field; the record must still appear.
    assert_eq!(run("super{ 1 }\n"), vec![(5, 6, 5, false, false)]);
}

#[test]
fn lambda_braces() {
    assert_eq!(
        run("->() { }\n->{}\n"),
        vec![(5, 6, 4, false, false), (11, 12, 11, true, false)]
    );
}

#[test]
fn newline_before_brace_counts_as_space() {
    // Continuation line: the surrounding-space run stops at the `\`.
    assert_eq!(
        run("foo.bar \\\n  { |x| x }\n"),
        vec![(12, 13, 9, false, false)]
    );
}

#[test]
fn do_end_and_hashes_are_skipped() {
    assert!(run("x.each do |n| n end\nh = {a: 1}\n").is_empty());
}
