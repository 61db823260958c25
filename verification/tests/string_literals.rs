use shirobai_core::rules::string_literals::{double_quotes_required, double_style_keep};

/// `double_quotes_required?` matches stock's
/// `/'|(?<! \\) \\{2}* \\ (?![\\"])/x` on the node source (quotes included).
/// Verified exhaustively against the Ruby implementation over all byte
/// strings of length 1..=3 over a delimiter-heavy alphabet (`'`, `"`, `\`,
/// `#`, `@`, `{`, `$`, `&`, `;`, `a`); these are the load-bearing branches.
#[test]
fn double_quotes_required_matches_stock() {
    // Contains a `'` -> true.
    assert!(double_quotes_required(b"'it''s'"));
    // Odd backslash run not followed by `"` -> true.
    assert!(double_quotes_required(b"'a\\b'")); // single `\`
    assert!(double_quotes_required(b"'a\\\\\\b'")); // run of 3
    // Even backslash run (`\\`) -> false.
    assert!(!double_quotes_required(b"\"a\\\\b\""));
    // Backslash run before a `"` -> false (the `(?![\\\"])` guard).
    assert!(!double_quotes_required(b"\"a\\\"b\""));
    // No `'` and no escape -> false.
    assert!(!double_quotes_required(b"\"plain\""));
}

/// The double-style `wrong_quotes?` pattern `/" | \\[^'\\] | \#[@{$]/x`. A
/// `true` from `double_style_keep` means the literal is already acceptable
/// for double quotes (NOT wrong).
#[test]
fn double_style_keep_matches_stock() {
    // Contains a `"`.
    assert!(double_style_keep(b"\"a\""));
    // `\` followed by a non-quote / non-backslash byte: `'\\&'` -> the second
    // backslash is followed by `&`. (Regression: a paired-skip scan missed
    // this and over-reported the literal as wrong.)
    assert!(double_style_keep(b"'\\\\&'"));
    // `#` followed by `{` / `@` / `$` (interpolation-ish).
    assert!(double_style_keep(b"'a#{b'"));
    assert!(double_style_keep(b"'a#@b'"));
    // A plain single-quoted literal -> not acceptable for double (wrong).
    assert!(!double_style_keep(b"'plain'"));
    // A backslash run that only ever abuts a quote (`\\` then the closing
    // `'`) -> the `[^'\\]` class excludes both, so no match -> not
    // acceptable for double.
    assert!(!double_style_keep(b"'a\\\\'"));
}
