use shirobai_core::rules::tokens::{
    translate_tokens, ParserTokenType, RawToken, TK_LABEL, TK_PARENTHESIS_LEFT_PARENTHESES, TK_PARENTHESIS_RIGHT,
};

fn raw(token_type: u32, start_offset: usize, length: usize) -> RawToken {
    RawToken { token_type, start_offset, length, lex_state: 0 }
}

fn has(toks: &[shirobai_core::rules::tokens::Token], kind: ParserTokenType, b: usize, e: usize) -> bool {
    toks.iter().any(|t| t.kind == kind && t.begin_pos == b && t.end_pos == e)
}

#[test]
fn label_paren_is_left_paren_and_call_paren_is_not() {
    // `foo: (1)`: the `(` after a label opens parentheses.
    let src = b"foo: (1)";
    let toks = translate_tokens(src, &[raw(TK_LABEL, 0, 4), raw(TK_PARENTHESIS_LEFT_PARENTHESES, 5, 1), raw(TK_PARENTHESIS_RIGHT, 7, 1)]);
    assert!(has(&toks, ParserTokenType::LParen, 5, 6));
    assert!(has(&toks, ParserTokenType::RParen, 7, 8));
    // `foo (1)`: after an identifier it is `tLPAREN_ARG`, no left paren.
    let src = b"foo (1)";
    let toks = translate_tokens(src, &[raw(0, 0, 3), raw(TK_PARENTHESIS_LEFT_PARENTHESES, 4, 1), raw(TK_PARENTHESIS_RIGHT, 6, 1)]);
    assert!(has(&toks, ParserTokenType::Other, 4, 5));
    assert!(!toks.iter().any(|t| t.kind == ParserTokenType::LParen));
}
