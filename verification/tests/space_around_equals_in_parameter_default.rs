use shirobai_core::rules::space_around_equals_in_parameter_default::{
    check_space_around_equals_in_parameter_default, Config, STYLE_NO_SPACE, STYLE_SPACE,
};

fn run(src: &str, style: u8) -> Vec<(usize, usize)> {
    check_space_around_equals_in_parameter_default(src.as_bytes(), Config { style })
        .into_iter()
        .map(|o| (o.start, o.end))
        .collect()
}

// Typical (space style): a default without space around `=` offends; the
// range is `[arg.end, value.begin)`.
#[test]
fn space_style_missing() {
    // `def f(x, y=0, z= 1)`: y=0 -> [10,11), z= 1 -> [15,17).
    assert_eq!(
        run("def f(x, y=0, z= 1); end", STYLE_SPACE),
        vec![(10, 11), (15, 17)]
    );
}

// Space present on both sides is clean under `space`.
#[test]
fn space_style_ok() {
    assert!(run("def f(x, y = 0, z = {}); end", STYLE_SPACE).is_empty());
}

// Signed-literal default: the value node begins at the sign, matching
// parser-gem's third token.
#[test]
fn space_style_signed_literals() {
    // `def f(x=-1, y= 0, z =+1)`: x=-1 -> [7,8), y= 0 -> [13,15), z =+1 -> [19,21).
    assert_eq!(
        run("def f(x=-1, y= 0, z =+1); end", STYLE_SPACE),
        vec![(7, 8), (13, 15), (19, 21)]
    );
}

// Unary + default with spaces is clean.
#[test]
fn space_style_unary_plus_ok() {
    assert!(run("def f(x, y = +1, z = {}); end", STYLE_SPACE).is_empty());
}

// no_space style: spaces around `=` offend.
#[test]
fn no_space_style_detected() {
    // `def f(x, y = 0, z =1, w= 2)`: y = 0 -> [10,13), z =1 -> [17,19), w= 2 -> [23,25).
    assert_eq!(
        run("def f(x, y = 0, z =1, w= 2); end", STYLE_NO_SPACE),
        vec![(10, 13), (17, 19), (23, 25)]
    );
}

// no_space style clean.
#[test]
fn no_space_style_ok() {
    assert!(run("def f(x, y=0, z={}); end", STYLE_NO_SPACE).is_empty());
}

// Empty-string / empty-array defaults (value node begins at the quote/`[`).
#[test]
fn space_style_empty_literals() {
    assert_eq!(run("def f(x, y=\"\"); end", STYLE_SPACE), vec![(10, 11)]);
    assert_eq!(run("def f(x, y=[]); end", STYLE_SPACE), vec![(10, 11)]);
}

// Keyword defaults are NOT this cop (stock has no `on_kwoptarg`).
#[test]
fn keyword_default_ignored() {
    assert!(run("def f(a: 1); end", STYLE_SPACE).is_empty());
    assert!(run("def f(a:1); end", STYLE_NO_SPACE).is_empty());
}

// Nested defs each checked; a block optarg too.
#[test]
fn nested_and_block_optargs() {
    // `->(y=0) { }` block optarg (space style) -> one offense.
    let r = run("->(y=0) { }", STYLE_SPACE);
    assert_eq!(r.len(), 1);
}
