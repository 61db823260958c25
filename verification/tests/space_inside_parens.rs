use shirobai_core::rules::space_inside_parens::{check_space_inside_parens, Config, Style};

fn run(source: &str, style: Style) -> Vec<(usize, usize, u8)> {
    check_space_inside_parens(source.as_bytes(), Config { style })
        .into_iter()
        .map(|o| (o.start_offset, o.end_offset, o.message.code()))
        .collect()
}

#[test]
fn space_inside_parens_no_space_flags_inner_spaces() {
    assert_eq!(run("f( 3)\n", Style::NoSpace), vec![(2, 3, 0)]);
    assert_eq!(run("f(3 )\n", Style::NoSpace), vec![(3, 4, 0)]);
    assert_eq!(run("f( 3 )\n", Style::NoSpace), vec![(2, 3, 0), (4, 5, 0)]);
    assert_eq!(run("f(3\t)\n", Style::NoSpace), vec![(3, 4, 0)]);
    assert!(run("f(3)\n", Style::NoSpace).is_empty());
}

#[test]
fn no_space_empty_parens() {
    assert_eq!(run("f( )\n", Style::NoSpace), vec![(2, 3, 0)]);
    assert!(run("f()\n", Style::NoSpace).is_empty());
    // Across a line break the pair is not same-line: nothing.
    assert!(run("f(\n)\n", Style::NoSpace).is_empty());
    assert!(run("f(\\\n)\n", Style::NoSpace).is_empty());
}

#[test]
fn no_space_skips_comments_and_line_breaks() {
    assert!(run("f( # c\n3)\n", Style::NoSpace).is_empty());
    assert!(run("f(3 # c\n)\n", Style::NoSpace).is_empty());
    assert!(run("f( \n3)\n", Style::NoSpace).is_empty());
    assert!(run("x = ( \na)\n", Style::NoSpace).is_empty());
    // Right side on a later line with same-line prev token still fires.
    assert_eq!(run("x = (a;\nb )\n", Style::NoSpace), vec![(9, 10, 0)]);
}

#[test]
fn no_space_arg_paren_skips_left_side_only() {
    // `f ( 3 )`: the ARG `(` fires nothing; the `)` side still does.
    assert_eq!(run("f ( 3 )\n", Style::NoSpace), vec![(5, 6, 0)]);
    assert_eq!(run("f ( )\n", Style::NoSpace), vec![(3, 4, 0)]);
    assert_eq!(run("yield ( 3 )\n", Style::NoSpace), vec![(9, 10, 0)]);
    assert_eq!(run("not ( x )\n", Style::NoSpace), vec![(7, 8, 0)]);
    assert_eq!(run("x.f ( 3 )\n", Style::NoSpace), vec![(7, 8, 0)]);
    // `return (1)` lexes a plain tLPAREN: both sides fire.
    assert_eq!(
        run("return ( 3 )\n", Style::NoSpace),
        vec![(8, 9, 0), (10, 11, 0)]
    );
    assert_eq!(
        run("break ( 3 ) while x\n", Style::NoSpace),
        vec![(7, 8, 0), (9, 10, 0)]
    );
}

#[test]
fn space_style_flags_missing_and_empty() {
    assert_eq!(run("f(3)\n", Style::Space), vec![(2, 3, 1), (3, 4, 1)]);
    assert_eq!(run("f( 3)\n", Style::Space), vec![(4, 5, 1)]);
    assert_eq!(run("f(3 )\n", Style::Space), vec![(2, 3, 1)]);
    assert!(run("f( 3 )\n", Style::Space).is_empty());
    assert!(run("f()\n", Style::Space).is_empty());
    assert_eq!(run("f( )\n", Style::Space), vec![(2, 3, 0)]);
    // The empty pair is flagged across lines too.
    assert_eq!(run("f(\n)\n", Style::Space), vec![(2, 3, 0)]);
    assert_eq!(run("f(\\\n)\n", Style::Space), vec![(2, 4, 0)]);
    // Tabs count as the required space.
    assert!(run("f(\t3\t)\n", Style::Space).is_empty());
    assert_eq!(run("f(3\t)\n", Style::Space), vec![(2, 3, 1)]);
}

#[test]
fn space_style_arg_parens_are_inert() {
    assert!(run("f ( 3 )\n", Style::Space).is_empty());
    assert_eq!(run("f (3)\n", Style::Space), vec![(4, 5, 1)]);
    assert!(run("f ( )\n", Style::Space).is_empty());
    assert!(run("f ()\n", Style::Space).is_empty());
}

#[test]
fn space_style_nested_parens() {
    assert_eq!(
        run("g(( 3 ))\n", Style::Space),
        vec![(2, 3, 1), (7, 8, 1)]
    );
    assert!(run("g( ( 3 ) )\n", Style::Space).is_empty());
}

#[test]
fn space_style_heredoc_and_comment() {
    assert_eq!(
        run("f(<<~EOS)\n  b\nEOS\n", Style::Space),
        vec![(2, 3, 1), (8, 9, 1)]
    );
    assert!(run("f( <<~EOS )\n  b\nEOS\n", Style::Space).is_empty());
    assert!(run("f( # c\n3 )\n", Style::Space).is_empty());
    assert!(run("f( 3 # c\n)\n", Style::Space).is_empty());
    assert!(run("f(\n  3\n)\n", Style::Space).is_empty());
}

#[test]
fn compact_consecutive_parens() {
    // `) )` with exactly one space is collapsed.
    assert_eq!(run("g( f( x ) )\n", Style::Compact), vec![(9, 10, 0)]);
    assert!(run("g( f( x ))\n", Style::Compact).is_empty());
    assert!(run("g( f( x )  )\n", Style::Compact).is_empty());
    // `( (` with exactly one space too.
    assert_eq!(
        run("g( ( 3 + 5 ) * f )\n", Style::Compact),
        vec![(2, 3, 0)]
    );
    // Tight `((` asks for nothing; the lone right paren still needs its
    // space.
    assert_eq!(
        run("g(( 3 + 5 ) * f)\n", Style::Compact),
        vec![(15, 16, 1)]
    );
    // Two spaces between lefts pass; the `) )` pair is flagged.
    assert_eq!(run("g(  ( 3 ) )\n", Style::Compact), vec![(9, 10, 0)]);
    // Missing left space on a non-paren next token.
    assert_eq!(run("g(f( x ))\n", Style::Compact), vec![(2, 3, 1)]);
    // Across a line break the `) )` pair is untouched.
    assert!(run("g( f( x )\n)\n", Style::Compact).is_empty());
    // Empty parens behave like the space style.
    assert_eq!(run("f( )\n", Style::Compact), vec![(2, 3, 0)]);
    assert_eq!(run("f(\n)\n", Style::Compact), vec![(2, 3, 0)]);
    // An ARG `(` is not a left paren for the `( (` pair test.
    assert_eq!(run("g( f ( x ) )\n", Style::Compact), vec![(10, 11, 0)]);
}

#[test]
fn interpolation_and_data_segment() {
    assert_eq!(
        run("x = \"#{f( 3 )}\"\n", Style::NoSpace),
        vec![(9, 10, 0), (11, 12, 0)]
    );
    assert!(run("x = 1\n__END__\nf( 3 )\n", Style::NoSpace).is_empty());
}

#[test]
fn def_lambda_pattern_parens_are_ordinary() {
    assert_eq!(
        run("def f( a ); end\n", Style::NoSpace),
        vec![(6, 7, 0), (8, 9, 0)]
    );
    assert_eq!(
        run("->( a ) { }\n", Style::NoSpace),
        vec![(3, 4, 0), (5, 6, 0)]
    );
    assert_eq!(
        run("case x\nin Foo( 1 )\n  y\nend\n", Style::NoSpace),
        vec![(14, 15, 0), (16, 17, 0)]
    );
    assert_eq!(
        run("a.( 1 )\n", Style::NoSpace),
        vec![(3, 4, 0), (5, 6, 0)]
    );
}
