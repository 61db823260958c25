use shirobai_core::rules::space_inside_string_interpolation::{
    check_space_inside_string_interpolation, Config, Edit, CMD_NO_SPACE, CMD_SPACE, STYLE_NO_SPACE, STYLE_SPACE,
};

fn run(src: &str, style: u8) -> Vec<(usize, usize, u8, Vec<Edit>)> {
    check_space_inside_string_interpolation(src.as_bytes(), Config { style })
        .into_iter()
        .map(|o| (o.start, o.end, o.command, o.edits))
        .collect()
}

fn rm(s: usize, e: usize) -> Edit {
    Edit { start: s, end: e, insert: false }
}
fn ins(p: usize) -> Edit {
    Edit { start: p, end: p, insert: true }
}

// no_space: `"#{ x }"` -> two offenses, both space runs; edits on the first.
#[test]
fn no_space_both_sides() {
    assert_eq!(
        run("\"#{ x }\"", STYLE_NO_SPACE),
        vec![(3, 4, CMD_NO_SPACE, vec![rm(3, 4), rm(5, 6)]), (5, 6, CMD_NO_SPACE, vec![])]
    );
}

// no_space clean: `"#{x}"`.
#[test]
fn no_space_clean() {
    assert!(run("\"#{x}\"", STYLE_NO_SPACE).is_empty());
}

// Empty / whitespace-only interpolation never offends.
#[test]
fn empty_interpolation() {
    assert!(run("\"#{}\"", STYLE_NO_SPACE).is_empty());
    assert!(run("\"#{ }\"", STYLE_NO_SPACE).is_empty());
    assert!(run("\"#{  }\"", STYLE_SPACE).is_empty());
}

// space: `"#{x}"` -> two "missing" offenses on the `#{` / `}` tokens.
#[test]
fn space_missing_both() {
    assert_eq!(
        run("\"#{x}\"", STYLE_SPACE),
        vec![(1, 3, CMD_SPACE, vec![ins(3), ins(4)]), (4, 5, CMD_SPACE, vec![])]
    );
}

// space clean: `"#{ x }"`.
#[test]
fn space_clean() {
    assert!(run("\"#{ x }\"", STYLE_SPACE).is_empty());
}

// no_space one side: `"#{ x}"`.
#[test]
fn no_space_left_only() {
    assert_eq!(run("\"#{ x}\"", STYLE_NO_SPACE), vec![(3, 4, CMD_NO_SPACE, vec![rm(3, 4)])]);
}

// space one side: `"#{x }"` -> only the left is missing.
#[test]
fn space_left_only() {
    assert_eq!(run("\"#{x }\"", STYLE_SPACE), vec![(1, 3, CMD_SPACE, vec![ins(3)])]);
}

// Tab counts as space.
#[test]
fn tab_counts() {
    assert_eq!(run("\"#{\tx}\"", STYLE_NO_SPACE), vec![(3, 4, CMD_NO_SPACE, vec![rm(3, 4)])]);
}

// Multiple spaces on each side: the whole run is one offense range.
#[test]
fn multiple_spaces() {
    assert_eq!(
        run("\"#{  x  }\"", STYLE_NO_SPACE),
        vec![(3, 5, CMD_NO_SPACE, vec![rm(3, 5), rm(6, 8)]), (6, 8, CMD_NO_SPACE, vec![])]
    );
}

// Two interpolations: the second (`#{y}`) is clean.
#[test]
fn multiple_interpolations() {
    assert_eq!(
        run("\"a#{ x }b#{y}\"", STYLE_NO_SPACE),
        vec![(4, 5, CMD_NO_SPACE, vec![rm(4, 5), rm(6, 7)]), (6, 7, CMD_NO_SPACE, vec![])]
    );
}

// Multiline interpolation is skipped.
#[test]
fn multiline_skipped() {
    assert!(run("\"#{\n x }\"", STYLE_NO_SPACE).is_empty());
}

// Symbol / regexp / xstr interpolations are handled the same way.
#[test]
fn other_interpolation_hosts() {
    assert_eq!(run(":\"#{ x }\"", STYLE_NO_SPACE).len(), 2);
    assert_eq!(run("/#{ x }/", STYLE_NO_SPACE).len(), 2);
}
