use shirobai_core::rules::space_inside_hash_literal_braces::{check_space_inside_hash_literal_braces, Config, Style};

fn run(source: &str, style: Style, no_space_empty: bool) -> Vec<(usize, usize, u8)> {
    check_space_inside_hash_literal_braces(
        source.as_bytes(),
        Config {
            style,
            no_space_empty,
        },
    )
    .into_iter()
    .map(|o| (o.start_offset, o.end_offset, o.message.code()))
    .collect()
}

#[test]
fn space_inside_hash_literal_braces_space_style_flags_missing_spaces() {
    // "h = {a: 1}" -> `{` at 4, `}` at 9.
    assert_eq!(
        run("h = {a: 1}\n", Style::Space, true),
        vec![(4, 5, 0), (9, 10, 2)]
    );
}

#[test]
fn space_style_accepts_spaced_hash() {
    assert!(run("h = { a: 1 }\n", Style::Space, true).is_empty());
}

#[test]
fn no_space_style_flags_spaces() {
    // "h = { a: 1 }" -> left space range [5,6), right space range [10,11).
    assert_eq!(
        run("h = { a: 1 }\n", Style::NoSpace, true),
        vec![(5, 6, 1), (10, 11, 3)]
    );
}

#[test]
fn comment_after_brace_is_skipped() {
    assert!(run("h = { # c\n  a: 1 }\n", Style::Space, true).is_empty());
    assert!(run("h = { # c\n  a: 1}\n", Style::NoSpace, true).is_empty());
}

#[test]
fn multiline_is_skipped() {
    assert!(run("h = {\n  a: 1\n}\n", Style::NoSpace, true).is_empty());
    assert!(run("h = {\n  a: 1\n}\n", Style::Space, true).is_empty());
}

#[test]
fn continuation_after_brace_is_skipped() {
    assert!(run("h = { \\\n  a: 1}\n", Style::NoSpace, true).is_empty());
}

#[test]
fn empty_braces_no_space_style() {
    assert!(run("h = {}\n", Style::Space, true).is_empty());
    // `{ }`: the left check and the whitespace-only check both produce
    // the space range (stock emits two offenses; add_offense dedups).
    assert_eq!(
        run("h = { }\n", Style::Space, true),
        vec![(5, 6, 5), (5, 6, 5)]
    );
    // `{\n}`: only the whitespace-only check fires.
    assert_eq!(run("h = {\n}\n", Style::Space, true), vec![(5, 6, 5)]);
}

#[test]
fn empty_braces_space_style() {
    assert_eq!(run("h = {}\n", Style::Space, false), vec![(4, 5, 4)]);
    assert!(run("h = { }\n", Style::Space, false).is_empty());
    assert!(run("h = {\n}\n", Style::Space, false).is_empty());
}

#[test]
fn compact_collapses_same_braces() {
    // "h = { a: { b: 1 } }" -> only the outer right space is flagged.
    assert_eq!(
        run("h = { a: { b: 1 } }\n", Style::Compact, true),
        vec![(17, 18, 3)]
    );
    assert!(run("h = { a: { b: 1 }}\n", Style::Compact, true).is_empty());
}

#[test]
fn compact_percent_brace_is_not_a_curly() {
    // "{k => %w{a}}": the `}` before the outer `}` is a tSTRING_END, so a
    // space is still expected on the right.
    assert_eq!(
        run("h = {k => %w{a}}\n", Style::Compact, true),
        vec![(4, 5, 0), (15, 16, 2)]
    );
}

#[test]
fn compact_block_brace_is_a_curly() {
    // "{ a: proc {} }": the block's `}` is a tRCURLY, so the outer right
    // space is flagged.
    assert_eq!(
        run("h = { a: proc {} }\n", Style::Compact, true),
        vec![(16, 17, 3)]
    );
}

#[test]
fn compact_bare_super_block_brace_is_a_curly() {
    // "z = { a: super {} }": the block's `}` hides behind
    // ForwardingSuperNode's typed field but is still a tRCURLY.
    assert_eq!(
        run("z = { a: super {} }\n", Style::Compact, true),
        vec![(17, 18, 3)]
    );
}

#[test]
fn hash_pattern_is_checked() {
    assert_eq!(
        run("case x\nin {a: 1}\n  y\nend\n", Style::Space, true),
        vec![(10, 11, 0), (15, 16, 2)]
    );
    assert!(run("case x\nin ADT[a: 1]\n  y\nend\n", Style::Space, true).is_empty());
}

#[test]
fn keyword_hash_is_skipped() {
    assert!(run("foo(a: 1)\n", Style::Space, true).is_empty());
    assert!(run("f(get: \"#{x}\")\n", Style::Space, true).is_empty());
}
