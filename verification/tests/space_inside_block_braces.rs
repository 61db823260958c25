use shirobai_core::rules::space_inside_block_braces::{check_space_inside_block_braces, Config, Style};

fn cfg(style: Style, empty: Style, sbbp: bool) -> Config {
    Config {
        style,
        empty_braces_style: empty,
        space_before_block_parameters: sbbp,
    }
}

fn run(source: &str, config: Config) -> Vec<(usize, usize, u8)> {
    check_space_inside_block_braces(source.as_bytes(), config)
        .into_iter()
        .map(|o| (o.start_offset, o.end_offset, o.message.code()))
        .collect()
}

const SPACE: Config = Config {
    style: Style::Space,
    empty_braces_style: Style::NoSpace,
    space_before_block_parameters: true,
};

#[test]
fn space_missing_both_sides() {
    // "some.each {puts e}" -> { offense at 11..12 (after {), } at 17..18.
    assert_eq!(run("some.each {puts e}\n", SPACE), vec![(11, 12, 0), (17, 18, 2)]);
}

#[test]
fn clean_spaced_block() {
    assert!(run("some.each { puts e }\n", SPACE).is_empty());
}

#[test]
fn empty_no_space_clean() {
    assert!(run("x.each {}\n", SPACE).is_empty());
}

#[test]
fn empty_no_space_one_space() {
    assert_eq!(run("x.each { }\n", SPACE), vec![(8, 9, 4)]);
}

#[test]
fn empty_no_space_two_spaces() {
    assert_eq!(run("x.each {  }\n", SPACE), vec![(8, 10, 4)]);
}

#[test]
fn empty_space_missing() {
    let c = cfg(Style::Space, Style::Space, true);
    assert_eq!(run("x.each {}\n", c), vec![(7, 9, 5)]);
}

#[test]
fn empty_space_clean() {
    let c = cfg(Style::Space, Style::Space, true);
    assert!(run("x.each { }\n", c).is_empty());
}

#[test]
fn empty_multiline_skipped() {
    assert!(run("x.each {\n}\n", SPACE).is_empty());
    let c = cfg(Style::Space, Style::Space, true);
    assert!(run("x.each {\n}\n", c).is_empty());
}

#[test]
fn pipe_space_missing() {
    assert_eq!(run("[1].each {|n| n }\n", SPACE), vec![(9, 11, 6)]);
}

#[test]
fn pipe_clean() {
    assert!(run("[1].each { |n| n }\n", SPACE).is_empty());
}

#[test]
fn pipe_space_detected_when_sbbp_false() {
    let c = cfg(Style::Space, Style::NoSpace, false);
    assert_eq!(run("[1].each { |n| n }\n", c), vec![(10, 11, 7)]);
}

#[test]
fn no_space_style_detects_inner_spaces() {
    let c = cfg(Style::NoSpace, Style::NoSpace, false);
    assert_eq!(run("x.each { puts e }\n", c), vec![(8, 9, 1), (15, 16, 3)]);
}

#[test]
fn left_missing_only() {
    assert_eq!(run("x.each {puts e }\n", SPACE), vec![(8, 9, 0)]);
}

#[test]
fn right_missing_only() {
    assert_eq!(run("x.each { puts e}\n", SPACE), vec![(15, 16, 2)]);
}

#[test]
fn multiline_aligned_clean() {
    assert!(run("x.each { |a|\n  b\n}\n", SPACE).is_empty());
}

#[test]
fn hash_literal_ignored() {
    assert!(run("h = {a: 1}\n", SPACE).is_empty());
}

#[test]
fn do_end_block_ignored() {
    assert!(run("x.each do |n| n end\n", SPACE).is_empty());
}

#[test]
fn nested_blocks() {
    // "x.each {y.map {z}}"
    assert_eq!(
        run("x.each {y.map {z}}\n", SPACE),
        vec![(8, 9, 0), (17, 18, 2), (15, 16, 0), (16, 17, 2)]
    );
}

#[test]
fn bare_super_block_reached() {
    // A bare `super { }` block hides behind ForwardingSuperNode's concrete
    // `block` field, which the generated walker visits directly (bypassing
    // the shared-walk enter hook). Stock still checks its braces; so must we.
    // Offsets confirmed against stock RuboCop 1.88.0.
    assert_eq!(run("super {x}\n", SPACE), vec![(7, 8, 0), (8, 9, 2)]);
    // A `{|` pipe: `{`..`|` span for the missing space, plus right brace.
    assert_eq!(run("super {|n| n}\n", SPACE), vec![(6, 8, 6), (12, 13, 2)]);
    // Empty braces with the no_space empty style: the inner space is flagged.
    assert_eq!(run("super { }\n", SPACE), vec![(7, 8, 4)]);
    // A `super(...) { }` block is a SuperNode with a normal child block and
    // is already reached by the generic walk; the bare arm must not fire
    // twice for it. One offense pair, no duplicates.
    assert_eq!(run("super() {x}\n", SPACE), vec![(9, 10, 0), (10, 11, 2)]);
}
