use shirobai_core::rules::stabby_lambda_parentheses::{
    check_stabby_lambda_parentheses, Config, MSG_NO_REQUIRE, MSG_REQUIRE, STYLE_REQUIRE_NO_PARENTHESES,
    STYLE_REQUIRE_PARENTHESES,
};

fn run(source: &str, style: u8) -> Vec<(usize, usize, &'static str)> {
    check_stabby_lambda_parentheses(source.as_bytes(), Config { style })
        .into_iter()
        .map(|o| (o.start, o.end, o.message))
        .collect()
}

// --- typical: most representative cases first ---

#[test]
fn require_parens_missing_parens_offense() {
    // Most typical bad: `->a,b,c { ... }` under default style.
    let r = run("->a,b,c { a + b + c }\n", STYLE_REQUIRE_PARENTHESES);
    assert_eq!(r.len(), 1);
    assert_eq!(r[0].2, MSG_REQUIRE);
    // Highlight = `a,b,c` at offsets [2, 7).
    assert_eq!(&r[0].0..&r[0].1, &2..&7);
}

#[test]
fn require_parens_with_parens_clean() {
    // Most typical good under default style.
    assert!(run("->(a,b,c) { a + b + c }\n", STYLE_REQUIRE_PARENTHESES).is_empty());
}

#[test]
fn require_no_parens_with_parens_offense() {
    // Most typical bad under the opposite style: `->(a,b,c) { ... }`.
    let r = run("->(a,b,c) { a + b + c }\n", STYLE_REQUIRE_NO_PARENTHESES);
    assert_eq!(r.len(), 1);
    assert_eq!(r[0].2, MSG_NO_REQUIRE);
    // Highlight = `(a,b,c)` at offsets [2, 9).
    assert_eq!(&r[0].0..&r[0].1, &2..&9);
}

#[test]
fn require_no_parens_without_parens_clean() {
    assert!(run("->a,b,c { a + b + c }\n", STYLE_REQUIRE_NO_PARENTHESES).is_empty());
}

// --- common no-arg cases (shared between both styles) ---

#[test]
fn no_args_no_offense_under_either_style() {
    // `-> { ... }` — no `args` at all, neither style flags it.
    assert!(run("-> { true }\n", STYLE_REQUIRE_PARENTHESES).is_empty());
    assert!(run("-> { true }\n", STYLE_REQUIRE_NO_PARENTHESES).is_empty());
}

#[test]
fn empty_parens_no_args_no_offense() {
    // `-> () { ... }` — stock's `arguments?` is false (empty args),
    // neither style flags it.
    assert!(run("-> () { true }\n", STYLE_REQUIRE_PARENTHESES).is_empty());
    assert!(run("-> () { true }\n", STYLE_REQUIRE_NO_PARENTHESES).is_empty());
}

// --- not-a-stabby-lambda cases (must not match) ---

#[test]
fn lambda_method_call_with_block_no_offense() {
    // `lambda { |a| a }` is a CallNode + BlockNode, not a LambdaNode.
    assert!(run("lambda { |a| a }\n", STYLE_REQUIRE_PARENTHESES).is_empty());
    assert!(run("lambda { |a| a }\n", STYLE_REQUIRE_NO_PARENTHESES).is_empty());
}

#[test]
fn lambda_method_call_with_block_pass_no_offense() {
    // `lambda(&:nil?)` is a bare CallNode, no block.
    assert!(run("lambda(&:nil?)\n", STYLE_REQUIRE_PARENTHESES).is_empty());
}

#[test]
fn receiver_lambda_method_no_offense() {
    // `o.lambda` is a CallNode, no block.
    assert!(run("o.lambda\n", STYLE_REQUIRE_PARENTHESES).is_empty());
}

// --- argument shape variety (each should be detected as offense under the wrong style) ---

#[test]
fn single_arg_missing_parens() {
    let r = run("->a { a }\n", STYLE_REQUIRE_PARENTHESES);
    assert_eq!(r.len(), 1);
}

#[test]
fn single_arg_missing_parens_leading_space() {
    // `-> a { a }` — same shape, leading space is not part of the args range.
    let r = run("-> a { a }\n", STYLE_REQUIRE_PARENTHESES);
    assert_eq!(r.len(), 1);
    // Args expression = `a` at offsets [3, 4).
    assert_eq!(&r[0].0..&r[0].1, &3..&4);
}

#[test]
fn keyword_args_with_parens_under_no_parens() {
    // `->(a:, b:) { a }` — kwargs always require parens syntactically; under
    // `require_no_parentheses` stock STILL flags it (the user wrote `()`
    // around kwargs, which the rule says don't do). Autocorrect would
    // produce a syntax error, but that is stock's behavior. Pin it.
    let r = run("->(a:, b:) { a }\n", STYLE_REQUIRE_NO_PARENTHESES);
    assert_eq!(r.len(), 1);
}

#[test]
fn splat_arg_with_parens_no_parens_style() {
    let r = run("->(*a) { a }\n", STYLE_REQUIRE_NO_PARENTHESES);
    assert_eq!(r.len(), 1);
}

#[test]
fn block_arg_with_parens_no_parens_style() {
    // `&blk` — like kwargs, requires `()` syntactically. Stock still flags.
    let r = run("->(&blk) { blk }\n", STYLE_REQUIRE_NO_PARENTHESES);
    assert_eq!(r.len(), 1);
}

// --- offense paren ranges (anchors used by autocorrect) ---

#[test]
fn no_parens_offense_carries_paren_ranges() {
    // Anchors used by `corrector.replace(args.loc.begin, '')` and
    // `corrector.remove(args.loc.end)`.
    let offs = check_stabby_lambda_parentheses(
        b"->(a,b,c) { a + b + c }\n",
        Config { style: STYLE_REQUIRE_NO_PARENTHESES },
    );
    assert_eq!(offs.len(), 1);
    let o = &offs[0];
    assert_eq!((o.paren_open_start, o.paren_open_end), (2, 3));
    assert_eq!((o.paren_close_start, o.paren_close_end), (8, 9));
}

// --- nesting / multiple ---

#[test]
fn nested_lambdas_each_checked_independently() {
    // Outer good, inner bad (mixed in one source).
    let r = run(
        "->(x) { ->y { x + y } }\n",
        STYLE_REQUIRE_PARENTHESES,
    );
    assert_eq!(r.len(), 1);
    // Inner offense covers `y`.
    let (s, e, _) = r[0];
    assert_eq!(&"->(x) { ->y { x + y } }\n"[s..e], "y");
}
