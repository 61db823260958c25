use shirobai_core::rules::space_around_operators::{
    run_walk, Config, MessageKind, WalkResult, STYLE_NO_SPACE, STYLE_SPACE,
};

fn default_cfg() -> Config {
    Config {
        exponent_style: STYLE_NO_SPACE,
        rational_style: STYLE_NO_SPACE,
        allow_for_alignment: true,
        hash_table_style: false,
        force_equal_sign_alignment: false,
    }
}

fn decided(src: &str, cfg: Config) -> Vec<(usize, usize, MessageKind)> {
    run_walk(src.as_bytes(), cfg)
        .decided
        .into_iter()
        .map(|o| (o.op_start, o.op_end, o.kind))
        .collect()
}

fn excess(src: &str, cfg: Config) -> Vec<(usize, usize)> {
    run_walk(src.as_bytes(), cfg)
        .excess
        .into_iter()
        .map(|c| (c.op_start, c.op_end))
        .collect()
}

fn walk_of(src: &str, cfg: Config) -> WalkResult {
    run_walk(src.as_bytes(), cfg)
}

#[test]
fn walk_missing_space_binary() {
    assert_eq!(decided("a+b\n", default_cfg()), vec![(1, 2, MessageKind::Missing)]);
    assert!(excess("a+b\n", default_cfg()).is_empty());
    let w = walk_of("a+b\n", default_cfg());
    assert_eq!(w.decided[0].operator, b"+".to_vec());
    assert_eq!(w.decided[0].replacement, b" + ".to_vec());
    assert_eq!((w.decided[0].ws_start, w.decided[0].ws_end), (1, 2));
}

#[test]
fn walk_clean_binary() {
    assert!(decided("a + b\n", default_cfg()).is_empty());
    assert!(excess("a + b\n", default_cfg()).is_empty());
}

#[test]
fn walk_assignment_and_setter() {
    assert_eq!(decided("x=0\n", default_cfg()), vec![(1, 2, MessageKind::Missing)]);
    assert_eq!(decided("x.y=2\n", default_cfg()), vec![(3, 4, MessageKind::Missing)]);
}

#[test]
fn walk_force_equal_sign_alignment_appends_a_space() {
    let cfg = Config {
        force_equal_sign_alignment: true,
        ..default_cfg()
    };
    let w = walk_of("x=0\n", cfg);
    assert_eq!(w.decided.len(), 1);
    assert_eq!(w.decided[0].replacement, b"= ".to_vec());
}

#[test]
fn walk_exponent_styles() {
    assert_eq!(decided("a ** b\n", default_cfg()), vec![(2, 4, MessageKind::Detected)]);
    assert_eq!(walk_of("a ** b\n", default_cfg()).decided[0].replacement, b"**".to_vec());
    assert!(decided("a**b\n", default_cfg()).is_empty());
    let cfg = Config {
        exponent_style: STYLE_SPACE,
        ..default_cfg()
    };
    assert_eq!(decided("a**b\n", cfg), vec![(1, 3, MessageKind::Missing)]);
    assert!(decided("a ** b\n", cfg).is_empty());
}

#[test]
fn walk_rational_slash() {
    assert_eq!(decided("a / 42r\n", default_cfg()), vec![(2, 3, MessageKind::Detected)]);
    assert!(decided("a / 42\n", default_cfg()).is_empty());
}

#[test]
fn walk_unary_and_excluded_operators() {
    for src in ["-foo\n", "!a\n", "Date.today.+(1)\n", "Zlib::GzipWriter\n", "files[2]\n"] {
        assert!(decided(src, default_cfg()).is_empty(), "{}", src);
        assert!(excess(src, default_cfg()).is_empty(), "{}", src);
    }
}

#[test]
fn walk_excess_goes_to_the_alignment_check() {
    assert!(decided("x ||=   1\n", default_cfg()).is_empty());
    assert_eq!(excess("x ||=   1\n", default_cfg()), vec![(2, 5)]);
    assert_eq!(excess("x   ||= 1\n", default_cfg()), vec![(4, 7)]);
    let w = walk_of("x ||=   1\n", default_cfg());
    assert_eq!(w.excess[0].replacement, b" ||= ".to_vec());
    assert_eq!((w.excess[0].right_start, w.excess[0].right_end), (8, 9));
}

#[test]
fn walk_hash_rocket_excess_has_the_pair_as_operand() {
    let src = "{\n  1 =>  2,\n  11 => 3\n}\n";
    assert!(decided(src, default_cfg()).is_empty());
    let w = walk_of(src, default_cfg());
    assert_eq!(w.excess.len(), 1);
    assert_eq!((w.excess[0].op_start, w.excess[0].op_end), (6, 8));
    assert_eq!((w.excess[0].right_start, w.excess[0].right_end), (4, 11));
}

#[test]
fn walk_table_style_leaves_multiline_rockets_alone() {
    let src = "{\n  1 =>  2,\n  11 => 3\n}\n";
    let cfg = Config {
        hash_table_style: true,
        ..default_cfg()
    };
    assert!(excess(src, cfg).is_empty());
    assert_eq!(excess("{ 1 =>  2, 3 => 4 }\n", cfg), vec![(4, 6)]);
}

#[test]
fn walk_operator_after_a_line_break_is_not_checked() {
    assert!(decided("a = b \\\n    && c\n", default_cfg()).is_empty());
    assert!(excess("a = b \\\n    && c\n", default_cfg()).is_empty());
}

#[test]
fn walk_operator_before_a_line_break_keeps_it() {
    let w = walk_of("a+\nb\n", default_cfg());
    assert_eq!(w.decided.len(), 1);
    assert_eq!((w.decided[0].ws_start, w.decided[0].ws_end), (1, 3));
    assert_eq!(w.decided[0].replacement, b" +\n".to_vec());
}

#[test]
fn walk_ternary_sclass_rescue_and_op_assign() {
    let off = decided("x == 0?1:2\n", default_cfg());
    assert!(off.contains(&(6, 7, MessageKind::Missing)));
    assert!(off.contains(&(8, 9, MessageKind::Missing)));
    assert_eq!(decided("class<<self\nend\n", default_cfg()), vec![(5, 7, MessageKind::Missing)]);
    assert!(decided("begin\nrescue E=>e\nend\n", default_cfg())
        .iter()
        .any(|o| o.2 == MessageKind::Missing));
    let src = "uri.path+= '/'\n";
    assert!(decided(src, default_cfg())
        .iter()
        .any(|o| o.2 == MessageKind::Missing && &src.as_bytes()[o.0..o.1] == b"+="));
}

#[test]
fn walk_collects_parameter_and_endless_def_equals() {
    assert_eq!(walk_of("def f(a = 1) = a\n", default_cfg()).def_equals, vec![13, 8]);
}
