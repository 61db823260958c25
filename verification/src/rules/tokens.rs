//! The parser-gem token stream, rebuilt from prism's lexer tokens.
//!
//! RuboCop's token-based cops read the whitequark parser's tokens (type,
//! begin, end), not prism's. [`translate_tokens`] takes the prism lexer
//! stream — each token's type, start offset, length and lexer state — and
//! rebuilds the parser-gem tokens the cops test:
//!
//! - a `(` after a label is a left paren; after anything else prism's
//!   `PARENTHESIS_LEFT_PARENTHESES` is `tLPAREN_ARG`, which is not one;
//! - a string without interpolation, and a `:` followed by an operator, is one
//!   token;
//! - a `{` lexed in the `EXPR_BEG|EXPR_LABEL` state opens a hash (`tLBRACE`);
//! - a line comment excludes its newline, and the `tNL` tokens move as the
//!   parser gem moves them: after an inline comment, to the end of a heredoc
//!   body whose opener carries a method call, and onto the ignored newline
//!   after a call forwarding `...`.
//!
//! The result is sorted by begin offset, ties kept in lexer order.

use vstd::prelude::*;

verus! {

broadcast use vstd::seq_lib::group_seq_properties, vstd::multiset::group_multiset_properties;

/// The parser-gem token kinds the cops tell apart; every other token is
/// `Other`.
#[derive(Clone, Copy, Debug, PartialEq, Eq, Structural)]
pub enum ParserTokenType {
    /// `tLPAREN` / `tLPAREN2`.
    LParen,
    /// `tRPAREN`.
    RParen,
    /// `tLCURLY` / `tLAMBEG`.
    LCurly,
    /// `tLBRACE`: a `{` opening a hash literal.
    LBrace,
    /// `tRCURLY`.
    RCurly,
    /// `tRBRACK`.
    RBracket,
    /// `tPIPE`.
    Pipe,
    /// `tSTRING_DEND`: the `}` closing an interpolation.
    StringDEnd,
    /// `tCOMMA`.
    Comma,
    /// `tSEMI`.
    Semicolon,
    /// `tCOMMENT`.
    Comment,
    /// `tNL`.
    NewLine,
    /// `tEQL` / `tOP_ASGN`.
    EqualSign,
    /// `tEQ tEQQ tNEQ tLEQ tGEQ tLSHFT`.
    Comparison,
    /// Any other token.
    Other,
}

/// A parser-gem token: its kind and byte range `[begin_pos, end_pos)`.
#[derive(Clone, Copy, Debug)]
pub struct Token {
    pub kind: ParserTokenType,
    pub begin_pos: usize,
    pub end_pos: usize,
}

impl Token {
    /// `Token#left_parens?`.
    pub fn left_parens(&self) -> (r: bool)
        ensures
            r == (self.kind == ParserTokenType::LParen),
    {
        self.kind == ParserTokenType::LParen
    }

    /// `Token#right_parens?`.
    pub fn right_parens(&self) -> (r: bool)
        ensures
            r == (self.kind == ParserTokenType::RParen),
    {
        self.kind == ParserTokenType::RParen
    }

    /// `Token#left_curly_brace?`.
    pub fn left_curly_brace(&self) -> (r: bool)
        ensures
            r == (self.kind == ParserTokenType::LCurly),
    {
        self.kind == ParserTokenType::LCurly
    }

    /// `Token#left_brace?`.
    pub fn left_brace(&self) -> (r: bool)
        ensures
            r == (self.kind == ParserTokenType::LBrace),
    {
        self.kind == ParserTokenType::LBrace
    }

    /// `Token#right_curly_brace?`.
    pub fn right_curly_brace(&self) -> (r: bool)
        ensures
            r == (self.kind == ParserTokenType::RCurly),
    {
        self.kind == ParserTokenType::RCurly
    }

    /// `Token#right_bracket?`.
    pub fn right_bracket(&self) -> (r: bool)
        ensures
            r == (self.kind == ParserTokenType::RBracket),
    {
        self.kind == ParserTokenType::RBracket
    }

    /// A `tPIPE` token.
    pub fn pipe(&self) -> (r: bool)
        ensures
            r == (self.kind == ParserTokenType::Pipe),
    {
        self.kind == ParserTokenType::Pipe
    }

    /// A `tSTRING_DEND` token.
    pub fn string_dend(&self) -> (r: bool)
        ensures
            r == (self.kind == ParserTokenType::StringDEnd),
    {
        self.kind == ParserTokenType::StringDEnd
    }

    /// `Token#comma?`.
    pub fn comma(&self) -> (r: bool)
        ensures
            r == (self.kind == ParserTokenType::Comma),
    {
        self.kind == ParserTokenType::Comma
    }

    /// `Token#semicolon?`.
    pub fn semicolon(&self) -> (r: bool)
        ensures
            r == (self.kind == ParserTokenType::Semicolon),
    {
        self.kind == ParserTokenType::Semicolon
    }

    /// `Token#comment?`.
    pub fn comment(&self) -> (r: bool)
        ensures
            r == (self.kind == ParserTokenType::Comment),
    {
        self.kind == ParserTokenType::Comment
    }

    /// `Token#new_line?`.
    pub fn new_line(&self) -> (r: bool)
        ensures
            r == (self.kind == ParserTokenType::NewLine),
    {
        self.kind == ParserTokenType::NewLine
    }

    /// `Token#equal_sign?`.
    pub fn equal_sign(&self) -> (r: bool)
        ensures
            r == (self.kind == ParserTokenType::EqualSign),
    {
        self.kind == ParserTokenType::EqualSign
    }

    /// Membership in `ASSIGNMENT_OR_COMPARISON_TOKENS`.
    pub fn assignment_or_comparison(&self) -> (r: bool)
        ensures
            r == (self.kind == ParserTokenType::EqualSign || self.kind == ParserTokenType::Comparison),
    {
        self.kind == ParserTokenType::EqualSign || self.kind == ParserTokenType::Comparison
    }
}

/// One prism lexer token: its type (prism's `pm_token_type_t`), start offset,
/// length and lexer state.
#[derive(Clone, Copy, Debug)]
pub struct RawToken {
    pub token_type: u32,
    pub start_offset: usize,
    pub length: usize,
    pub lex_state: u32,
}

/// Prism token type `PARENTHESIS_LEFT`.
pub const TK_PARENTHESIS_LEFT: u32 = 129;
/// Prism token type `PARENTHESIS_LEFT_PARENTHESES`.
pub const TK_PARENTHESIS_LEFT_PARENTHESES: u32 = 131;
/// Prism token type `PARENTHESIS_RIGHT`.
pub const TK_PARENTHESIS_RIGHT: u32 = 16;
/// Prism token type `BRACE_LEFT`.
pub const TK_BRACE_LEFT: u32 = 29;
/// Prism token type `LAMBDA_BEGIN`.
pub const TK_LAMBDA_BEGIN: u32 = 118;
/// Prism token type `BRACE_RIGHT`.
pub const TK_BRACE_RIGHT: u32 = 2;
/// Prism token type `BRACKET_RIGHT`.
pub const TK_BRACKET_RIGHT: u32 = 36;
/// Prism token type `PIPE`.
pub const TK_PIPE: u32 = 17;
/// Prism token type `EMBEXPR_END`.
pub const TK_EMBEXPR_END: u32 = 4;
/// Prism token type `COMMA`.
pub const TK_COMMA: u32 = 3;
/// Prism token type `SEMICOLON`.
pub const TK_SEMICOLON: u32 = 18;
/// Prism token type `COMMENT`.
pub const TK_COMMENT: u32 = 43;
/// Prism token type `EMBDOC_BEGIN`.
pub const TK_EMBDOC_BEGIN: u32 = 48;
/// Prism token type `NEWLINE`.
pub const TK_NEWLINE: u32 = 14;
/// Prism token type `EQUAL`.
pub const TK_EQUAL: u32 = 53;
/// Prism token type `AMPERSAND_AMPERSAND_EQUAL`.
pub const TK_AMPERSAND_AMPERSAND_EQUAL: u32 = 21;
/// Prism token type `AMPERSAND_EQUAL`.
pub const TK_AMPERSAND_EQUAL: u32 = 23;
/// Prism token type `CARET_EQUAL`.
pub const TK_CARET_EQUAL: u32 = 38;
/// Prism token type `GREATER_GREATER_EQUAL`.
pub const TK_GREATER_GREATER_EQUAL: u32 = 66;
/// Prism token type `LESS_LESS_EQUAL`.
pub const TK_LESS_LESS_EQUAL: u32 = 123;
/// Prism token type `MINUS_EQUAL`.
pub const TK_MINUS_EQUAL: u32 = 126;
/// Prism token type `PERCENT_EQUAL`.
pub const TK_PERCENT_EQUAL: u32 = 133;
/// Prism token type `PIPE_EQUAL`.
pub const TK_PIPE_EQUAL: u32 = 139;
/// Prism token type `PIPE_PIPE_EQUAL`.
pub const TK_PIPE_PIPE_EQUAL: u32 = 141;
/// Prism token type `PLUS_EQUAL`.
pub const TK_PLUS_EQUAL: u32 = 143;
/// Prism token type `SLASH_EQUAL`.
pub const TK_SLASH_EQUAL: u32 = 148;
/// Prism token type `STAR_EQUAL`.
pub const TK_STAR_EQUAL: u32 = 150;
/// Prism token type `STAR_STAR_EQUAL`.
pub const TK_STAR_STAR_EQUAL: u32 = 152;
/// Prism token type `EQUAL_EQUAL`.
pub const TK_EQUAL_EQUAL: u32 = 54;
/// Prism token type `EQUAL_EQUAL_EQUAL`.
pub const TK_EQUAL_EQUAL_EQUAL: u32 = 55;
/// Prism token type `BANG_EQUAL`.
pub const TK_BANG_EQUAL: u32 = 27;
/// Prism token type `LESS_EQUAL`.
pub const TK_LESS_EQUAL: u32 = 120;
/// Prism token type `GREATER_EQUAL`.
pub const TK_GREATER_EQUAL: u32 = 64;
/// Prism token type `LESS_LESS`.
pub const TK_LESS_LESS: u32 = 122;
/// Prism token type `IGNORED_NEWLINE`.
pub const TK_IGNORED_NEWLINE: u32 = 70;
/// Prism token type `UDOT_DOT_DOT`.
pub const TK_UDOT_DOT_DOT: u32 = 161;
/// Prism token type `HEREDOC_START`.
pub const TK_HEREDOC_START: u32 = 68;
/// Prism token type `HEREDOC_END`.
pub const TK_HEREDOC_END: u32 = 67;
/// Prism token type `IDENTIFIER`.
pub const TK_IDENTIFIER: u32 = 69;
/// Prism token type `END_MARKER`.
pub const TK_END_MARKER: u32 = 170;
/// Prism token type `EOF`.
pub const TK_EOF: u32 = 1;
/// Prism token type `EMBDOC_END`.
pub const TK_EMBDOC_END: u32 = 49;
/// Prism token type `EMBDOC_LINE`.
pub const TK_EMBDOC_LINE: u32 = 50;
/// Prism token type `LABEL`.
pub const TK_LABEL: u32 = 116;
/// Prism token type `LABEL_END`.
pub const TK_LABEL_END: u32 = 117;
/// Prism token type `SYMBOL_BEGIN`.
pub const TK_SYMBOL_BEGIN: u32 = 156;
/// Prism token type `STRING_CONTENT`.
pub const TK_STRING_CONTENT: u32 = 154;
/// Prism token type `EMBEXPR_BEGIN`.
pub const TK_EMBEXPR_BEGIN: u32 = 51;
/// Prism token type `EMBVAR`.
pub const TK_EMBVAR: u32 = 52;
/// Prism token type `STRING_END`.
pub const TK_STRING_END: u32 = 155;
/// Prism token type `STRING_BEGIN`.
pub const TK_STRING_BEGIN: u32 = 153;
/// Prism token type `AMPERSAND_DOT`.
pub const TK_AMPERSAND_DOT: u32 = 22;
/// Prism token type `DOT`.
pub const TK_DOT: u32 = 45;
/// Lexer state `EXPR_BEG`.
pub const EXPR_BEG: u32 = 0x1;
/// Lexer state `EXPR_LABEL`.
pub const EXPR_LABEL: u32 = 0x400;

/// The parser-gem kind of a prism token type.
pub open spec fn spec_classify(tt: u32) -> ParserTokenType {
    if tt == TK_PARENTHESIS_LEFT {
        ParserTokenType::LParen
    } else if tt == TK_PARENTHESIS_RIGHT {
        ParserTokenType::RParen
    } else if tt == TK_BRACE_LEFT || tt == TK_LAMBDA_BEGIN {
        ParserTokenType::LCurly
    } else if tt == TK_BRACE_RIGHT {
        ParserTokenType::RCurly
    } else if tt == TK_BRACKET_RIGHT {
        ParserTokenType::RBracket
    } else if tt == TK_PIPE {
        ParserTokenType::Pipe
    } else if tt == TK_EMBEXPR_END {
        ParserTokenType::StringDEnd
    } else if tt == TK_COMMA {
        ParserTokenType::Comma
    } else if tt == TK_SEMICOLON {
        ParserTokenType::Semicolon
    } else if tt == TK_COMMENT || tt == TK_EMBDOC_BEGIN {
        ParserTokenType::Comment
    } else if tt == TK_NEWLINE {
        ParserTokenType::NewLine
    } else if tt == TK_EQUAL || tt == TK_AMPERSAND_AMPERSAND_EQUAL || tt == TK_AMPERSAND_EQUAL
        || tt == TK_CARET_EQUAL || tt == TK_GREATER_GREATER_EQUAL || tt == TK_LESS_LESS_EQUAL
        || tt == TK_MINUS_EQUAL || tt == TK_PERCENT_EQUAL || tt == TK_PIPE_EQUAL
        || tt == TK_PIPE_PIPE_EQUAL || tt == TK_PLUS_EQUAL || tt == TK_SLASH_EQUAL
        || tt == TK_STAR_EQUAL || tt == TK_STAR_STAR_EQUAL {
        ParserTokenType::EqualSign
    } else if tt == TK_EQUAL_EQUAL || tt == TK_EQUAL_EQUAL_EQUAL || tt == TK_BANG_EQUAL
        || tt == TK_LESS_EQUAL || tt == TK_GREATER_EQUAL || tt == TK_LESS_LESS {
        ParserTokenType::Comparison
    } else {
        ParserTokenType::Other
    }
}

/// The parser-gem kind of a prism token type (a `(` after a label is handled
/// by the caller).
#[verifier::when_used_as_spec(spec_classify)]
fn classify(tt: u32) -> (k: ParserTokenType)
    ensures
        k == spec_classify(tt),
{
    if tt == TK_PARENTHESIS_LEFT {
        ParserTokenType::LParen
    } else if tt == TK_PARENTHESIS_RIGHT {
        ParserTokenType::RParen
    } else if tt == TK_BRACE_LEFT || tt == TK_LAMBDA_BEGIN {
        ParserTokenType::LCurly
    } else if tt == TK_BRACE_RIGHT {
        ParserTokenType::RCurly
    } else if tt == TK_BRACKET_RIGHT {
        ParserTokenType::RBracket
    } else if tt == TK_PIPE {
        ParserTokenType::Pipe
    } else if tt == TK_EMBEXPR_END {
        ParserTokenType::StringDEnd
    } else if tt == TK_COMMA {
        ParserTokenType::Comma
    } else if tt == TK_SEMICOLON {
        ParserTokenType::Semicolon
    } else if tt == TK_COMMENT || tt == TK_EMBDOC_BEGIN {
        ParserTokenType::Comment
    } else if tt == TK_NEWLINE {
        ParserTokenType::NewLine
    } else if tt == TK_EQUAL || tt == TK_AMPERSAND_AMPERSAND_EQUAL || tt == TK_AMPERSAND_EQUAL
        || tt == TK_CARET_EQUAL || tt == TK_GREATER_GREATER_EQUAL || tt == TK_LESS_LESS_EQUAL
        || tt == TK_MINUS_EQUAL || tt == TK_PERCENT_EQUAL || tt == TK_PIPE_EQUAL
        || tt == TK_PIPE_PIPE_EQUAL || tt == TK_PLUS_EQUAL || tt == TK_SLASH_EQUAL
        || tt == TK_STAR_EQUAL || tt == TK_STAR_STAR_EQUAL {
        ParserTokenType::EqualSign
    } else if tt == TK_EQUAL_EQUAL || tt == TK_EQUAL_EQUAL_EQUAL || tt == TK_BANG_EQUAL
        || tt == TK_LESS_EQUAL || tt == TK_GREATER_EQUAL || tt == TK_LESS_LESS {
        ParserTokenType::Comparison
    } else {
        ParserTokenType::Other
    }
}

/// Every raw token's end offset fits in `usize`, and every comment token ends
/// after offset zero.
pub open spec fn raws_ok(raws: Seq<RawToken>) -> bool {
    forall|k: int| 0 <= k < raws.len() ==> {
        &&& #[trigger] raws[k].start_offset + raws[k].length <= usize::MAX
        &&& raws[k].token_type == TK_COMMENT ==> raws[k].start_offset + raws[k].length > 0
    }
}

/// The end offset of a raw token.
pub open spec fn raw_end(t: RawToken) -> int {
    t.start_offset + t.length
}

/// The number of `\n` bytes among the first `k` bytes of `s`.
pub open spec fn newlines_before(s: Seq<u8>, k: int) -> nat
    decreases k,
{
    if k <= 0 {
        0
    } else {
        newlines_before(s, k - 1) + if s[k - 1] == 10u8 { 1nat } else { 0nat }
    }
}

/// For each offset `k <= source.len()`, the number of newlines before it.
fn newline_counts(source: &[u8]) -> (c: Vec<usize>)
    ensures
        c@.len() == source@.len() + 1,
        forall|k: int| 0 <= k <= source@.len() ==> #[trigger] c@[k] == newlines_before(source@, k),
{
    let mut c: Vec<usize> = Vec::new();
    c.push(0);
    let mut k: usize = 0;
    while k < source.len()
        invariant
            k <= source@.len(),
            c@.len() == k + 1,
            forall|q: int| 0 <= q <= k ==> #[trigger] c@[q] == newlines_before(source@, q),
            forall|q: int| 0 <= q <= k ==> #[trigger] c@[q] <= q,
        decreases source.len() - k,
    {
        let prev = c[k];
        let next = if source[k] == 10u8 { prev + 1 } else { prev };
        c.push(next);
        k += 1;
    }
    c
}

/// The 0-based line of offset `off` (offsets past the end count as the end).
fn line_of(source: &[u8], counts: &Vec<usize>, off: usize) -> (l: usize)
    requires
        counts@.len() == source@.len() + 1,
        forall|k: int| 0 <= k <= source@.len() ==> #[trigger] counts@[k] == newlines_before(source@, k),
    ensures
        l == newlines_before(source@, if off <= source@.len() { off as int } else { source@.len() as int }),
{
    let end = if off <= source.len() { off } else { source.len() };
    counts[end]
}

/// Whether `v` holds `x`.
fn holds(v: &Vec<usize>, x: usize) -> (b: bool)
    ensures
        b == v@.contains(x),
{
    let mut i: usize = 0;
    while i < v.len()
        invariant
            i <= v@.len(),
            forall|q: int| 0 <= q < i ==> v@[q] != x,
        decreases v.len() - i,
    {
        if v[i] == x {
            return true;
        }
        i += 1;
    }
    false
}

fn is_nl(tt: u32) -> (b: bool)
    ensures
        b == (tt == TK_NEWLINE || tt == TK_IGNORED_NEWLINE),
{
    tt == TK_NEWLINE || tt == TK_IGNORED_NEWLINE
}

/// `a` comes before `b` in begin order: by start offset, then lexer order.
pub open spec fn before_in_order(raws: Seq<RawToken>, a: int, b: int) -> bool {
    raws[a].start_offset < raws[b].start_offset
        || (raws[a].start_offset == raws[b].start_offset && a < b)
}

/// Token `q` is a newline token on the 0-based line `line`.
pub open spec fn nl_on_line(raws: Seq<RawToken>, source: Seq<u8>, line: usize, q: int) -> bool {
    is_nl_spec(raws[q].token_type) && line == newlines_before(source, if raws[q].start_offset <= source.len() {
        raws[q].start_offset as int
    } else {
        source.len() as int
    })
}

/// Token `q` is not a newline token and ends at or before `limit`.
pub open spec fn ends_by(raws: Seq<RawToken>, limit: usize, q: int) -> bool {
    raw_end(raws[q]) <= limit && !is_nl_spec(raws[q].token_type)
}

/// Token `q` is a `HEREDOC_END` starting after `after`.
pub open spec fn heredoc_end_after(raws: Seq<RawToken>, after: usize, q: int) -> bool {
    raws[q].token_type == TK_HEREDOC_END && raws[q].start_offset > after
}

/// The newline token on line `line` that comes first in begin order.
fn first_newline_on_line(raws: &[RawToken], source: &[u8], counts: &Vec<usize>, line: usize) -> (r: Option<usize>)
    requires
        counts@.len() == source@.len() + 1,
        forall|k: int| 0 <= k <= source@.len() ==> #[trigger] counts@[k] == newlines_before(source@, k),
    ensures
        match r {
            Some(j) => j < raws@.len() && is_nl_spec(raws@[j as int].token_type) && nl_on_line(raws@, source@, line,
                j as int) && forall|q: int| 0 <= q < raws@.len() && q != j && nl_on_line(raws@, source@, line, q)
                ==> before_in_order(raws@, j as int, q),
            None => forall|q: int| 0 <= q < raws@.len() ==> !nl_on_line(raws@, source@, line, q),
        },
        first_in_order(raws@, |q: int| nl_on_line(raws@, source@, line, q)) == (match r {
            Some(j) => Some(j as int),
            None => None::<int>,
        }),
{
    let mut best: Option<usize> = None;
    let mut j: usize = 0;
    while j < raws.len()
        invariant
            j <= raws@.len(),
            counts@.len() == source@.len() + 1,
            forall|k: int| 0 <= k <= source@.len() ==> #[trigger] counts@[k] == newlines_before(source@, k),
            match best {
                Some(b) => b < j && is_nl_spec(raws@[b as int].token_type) && nl_on_line(raws@, source@, line, b as int)
                    && forall|q: int| 0 <= q < j && q != b && nl_on_line(raws@, source@, line, q) ==> before_in_order(
                    raws@, b as int, q),
                None => forall|q: int| 0 <= q < j ==> !nl_on_line(raws@, source@, line, q),
            },
        decreases raws.len() - j,
    {
        let nl = is_nl(raws[j].token_type);
        let on = nl && line_of(source, counts, raws[j].start_offset) == line;
        assert(on == nl_on_line(raws@, source@, line, j as int));
        let ghost old_best = best;
        if on {
            match best {
                Some(b) => {
                    if raws[j].start_offset < raws[b].start_offset {
                        best = Some(j);
                        assert forall|q: int| 0 <= q < j + 1 && q != j && nl_on_line(raws@, source@, line, q) implies
                            before_in_order(raws@, j as int, q) by {
                            if q != b {
                                assert(before_in_order(raws@, b as int, q));
                            }
                        }
                    } else {
                        assert(before_in_order(raws@, b as int, j as int));
                    }
                },
                None => {
                    best = Some(j);
                },
            }
        }
        j += 1;
    }
    proof {
        let p = |q: int| nl_on_line(raws@, source@, line, q);
        match best {
            Some(b) => lemma_first_is(raws@, p, b as int),
            None => lemma_first_none(raws@, p),
        }
    }
    best
}

pub open spec fn is_nl_spec(tt: u32) -> bool {
    tt == TK_NEWLINE || tt == TK_IGNORED_NEWLINE
}

/// The non-newline token that ends at or before `limit` and comes last in
/// begin order.
fn last_token_ending_by(raws: &[RawToken], limit: usize) -> (r: Option<usize>)
    requires
        raws_ok(raws@),
    ensures
        match r {
            Some(j) => j < raws@.len() && ends_by(raws@, limit, j as int) && forall|q: int| 0 <= q < raws@.len() && q
                != j && ends_by(raws@, limit, q) ==> before_in_order(raws@, q, j as int),
            None => forall|q: int| 0 <= q < raws@.len() ==> !ends_by(raws@, limit, q),
        },
        last_in_order(raws@, |q: int| ends_by(raws@, limit, q)) == (match r {
            Some(j) => Some(j as int),
            None => None::<int>,
        }),
{
    let mut best: Option<usize> = None;
    let mut j: usize = 0;
    while j < raws.len()
        invariant
            j <= raws@.len(),
            raws_ok(raws@),
            match best {
                Some(b) => b < j && ends_by(raws@, limit, b as int) && forall|q: int| 0 <= q < j && q != b && ends_by(
                    raws@, limit, q) ==> before_in_order(raws@, q, b as int),
                None => forall|q: int| 0 <= q < j ==> !ends_by(raws@, limit, q),
            },
        decreases raws.len() - j,
    {
        let t = raws[j];
        assert(raw_end(raws@[j as int]) <= usize::MAX);
        if t.start_offset + t.length <= limit && !is_nl(t.token_type) {
            match best {
                Some(b) => {
                    if raws[b].start_offset <= t.start_offset {
                        best = Some(j);
                    }
                },
                None => {
                    best = Some(j);
                },
            }
        }
        j += 1;
    }
    proof {
        let p = |q: int| ends_by(raws@, limit, q);
        match best {
            Some(b) => lemma_last_is(raws@, p, b as int),
            None => lemma_last_none(raws@, p),
        }
    }
    best
}

/// The `HEREDOC_END` token that starts after `after` and comes first in begin
/// order.
fn first_heredoc_end_after(raws: &[RawToken], after: usize) -> (r: Option<usize>)
    ensures
        match r {
            Some(j) => j < raws@.len() && heredoc_end_after(raws@, after, j as int) && forall|q: int| 0 <= q
                < raws@.len() && q != j && heredoc_end_after(raws@, after, q) ==> before_in_order(raws@, j as int, q),
            None => forall|q: int| 0 <= q < raws@.len() ==> !heredoc_end_after(raws@, after, q),
        },
        first_in_order(raws@, |q: int| heredoc_end_after(raws@, after, q)) == (match r {
            Some(j) => Some(j as int),
            None => None::<int>,
        }),
{
    let mut best: Option<usize> = None;
    let mut j: usize = 0;
    while j < raws.len()
        invariant
            j <= raws@.len(),
            match best {
                Some(b) => b < j && heredoc_end_after(raws@, after, b as int) && forall|q: int| 0 <= q < j && q != b
                    && heredoc_end_after(raws@, after, q) ==> before_in_order(raws@, b as int, q),
                None => forall|q: int| 0 <= q < j ==> !heredoc_end_after(raws@, after, q),
            },
        decreases raws.len() - j,
    {
        if raws[j].token_type == TK_HEREDOC_END && raws[j].start_offset > after {
            match best {
                Some(b) => {
                    if raws[j].start_offset < raws[b].start_offset {
                        best = Some(j);
                    }
                },
                None => {
                    best = Some(j);
                },
            }
        }
        j += 1;
    }
    proof {
        let p = |q: int| heredoc_end_after(raws@, after, q);
        match best {
            Some(b) => lemma_first_is(raws@, p, b as int),
            None => lemma_first_none(raws@, p),
        }
    }
    best
}

/// Token `j` qualifies by `p` and comes before every other qualifying token
/// in begin order.
pub open spec fn is_first(raws: Seq<RawToken>, p: spec_fn(int) -> bool, j: int) -> bool {
    0 <= j < raws.len() && p(j) && forall|q: int| 0 <= q < raws.len() && q != j && #[trigger] p(q) ==> before_in_order(raws, j, q)
}

/// Token `j` qualifies by `p` and comes after every other qualifying token
/// in begin order.
pub open spec fn is_last(raws: Seq<RawToken>, p: spec_fn(int) -> bool, j: int) -> bool {
    0 <= j < raws.len() && p(j) && forall|q: int| 0 <= q < raws.len() && q != j && #[trigger] p(q) ==> before_in_order(raws, q, j)
}

/// The qualifying token that comes first in begin order, if any.
pub open spec fn first_in_order(raws: Seq<RawToken>, p: spec_fn(int) -> bool) -> Option<int> {
    if exists|j: int| #[trigger] is_first(raws, p, j) { Some(choose|j: int| #[trigger] is_first(raws, p, j)) } else { None }
}

/// The qualifying token that comes last in begin order, if any.
pub open spec fn last_in_order(raws: Seq<RawToken>, p: spec_fn(int) -> bool) -> Option<int> {
    if exists|j: int| #[trigger] is_last(raws, p, j) { Some(choose|j: int| #[trigger] is_last(raws, p, j)) } else { None }
}

/// A first qualifying token is the one [`first_in_order`] names.
proof fn lemma_first_is(raws: Seq<RawToken>, p: spec_fn(int) -> bool, j: int)
    requires
        is_first(raws, p, j),
    ensures
        first_in_order(raws, p) == Some(j),
{
    let c = choose|c: int| #[trigger] is_first(raws, p, c);
    assert(is_first(raws, p, c));
    if c != j {
        assert(before_in_order(raws, j, c));
        assert(before_in_order(raws, c, j));
    }
}

/// With no qualifying token, [`first_in_order`] names none.
proof fn lemma_first_none(raws: Seq<RawToken>, p: spec_fn(int) -> bool)
    requires
        forall|q: int| 0 <= q < raws.len() ==> !#[trigger] p(q),
    ensures
        first_in_order(raws, p) is None,
{
    if exists|j: int| #[trigger] is_first(raws, p, j) {
        let c = choose|c: int| #[trigger] is_first(raws, p, c);
        assert(p(c));
    }
}

/// A last qualifying token is the one [`last_in_order`] names.
proof fn lemma_last_is(raws: Seq<RawToken>, p: spec_fn(int) -> bool, j: int)
    requires
        is_last(raws, p, j),
    ensures
        last_in_order(raws, p) == Some(j),
{
    let c = choose|c: int| #[trigger] is_last(raws, p, c);
    assert(is_last(raws, p, c));
    if c != j {
        assert(before_in_order(raws, j, c));
        assert(before_in_order(raws, c, j));
    }
}

/// With no qualifying token, [`last_in_order`] names none.
proof fn lemma_last_none(raws: Seq<RawToken>, p: spec_fn(int) -> bool)
    requires
        forall|q: int| 0 <= q < raws.len() ==> !#[trigger] p(q),
    ensures
        last_in_order(raws, p) is None,
{
    if exists|j: int| #[trigger] is_last(raws, p, j) {
        let c = choose|c: int| #[trigger] is_last(raws, p, c);
        assert(p(c));
    }
}

/// The 0-based line of offset `off` (offsets past the end count as the end).
pub open spec fn line_at(source: Seq<u8>, off: usize) -> nat {
    newlines_before(source, if off <= source.len() { off as int } else { source.len() as int })
}

/// Token `k` is the `IGNORED_NEWLINE` after `( ... )` of a call forwarding
/// `...` (the token before `...` is not a `(`).
pub open spec fn forwards_at(raws: Seq<RawToken>, k: int) -> bool {
    raws[k].token_type == TK_IGNORED_NEWLINE && k >= 3 && raws[k - 1].token_type == TK_PARENTHESIS_RIGHT
        && raws[k - 2].token_type == TK_UDOT_DOT_DOT && raws[k - 3].token_type != TK_PARENTHESIS_LEFT
}

/// The starts of the forwarding newlines among the first `k` tokens.
pub open spec fn forwards_upto(raws: Seq<RawToken>, k: int) -> Seq<usize>
    decreases k,
{
    if k <= 0 {
        Seq::empty()
    } else {
        forwards_upto(raws, k - 1) + if forwards_at(raws, k - 1) { seq![raws[k - 1].start_offset] } else { Seq::empty() }
    }
}

/// The `tNL` move of token `k`, a heredoc opener: when the first newline
/// token on its line is a `NEWLINE` right after an identifier, and the first
/// `HEREDOC_END` after the opener ends with a line break, that newline's start
/// (dropped) and the heredoc end's end (where the `tNL` goes).
pub open spec fn heredoc_move(raws: Seq<RawToken>, source: Seq<u8>, k: int) -> Option<(usize, usize)> {
    if raws[k].token_type == TK_HEREDOC_START {
        let hs = raws[k];
        let hs_line = line_at(source, hs.start_offset);
        match first_in_order(raws, |q: int| nl_on_line(raws, source, hs_line as usize, q)) {
            Some(term) => if raws[term].token_type == TK_NEWLINE {
                let prev = last_in_order(raws, |q: int| ends_by(raws, raws[term].start_offset, q));
                if prev matches Some(pp) && raws[pp].token_type == TK_IDENTIFIER {
                    match first_in_order(raws, |q: int| heredoc_end_after(raws, hs.start_offset, q)) {
                        Some(h) => {
                            let he = raw_end(raws[h]);
                            if he > 0 && he - 1 < source.len() && source[he - 1] == 10u8 {
                                Some((raws[term].start_offset, he as usize))
                            } else {
                                None
                            }
                        },
                        None => None,
                    }
                } else {
                    None
                }
            } else {
                None
            },
            None => None,
        }
    } else {
        None
    }
}

/// The heredoc moves of the first `k` tokens.
pub open spec fn moves_upto(raws: Seq<RawToken>, source: Seq<u8>, k: int) -> Seq<(usize, usize)>
    decreases k,
{
    if k <= 0 {
        Seq::empty()
    } else {
        moves_upto(raws, source, k - 1) + match heredoc_move(raws, source, k - 1) {
            Some(m) => seq![m],
            None => Seq::empty(),
        }
    }
}

/// Token `k` is an inline comment: the non-newline token that ends by its
/// start and comes last in begin order starts on its line.
pub open spec fn inline_at(raws: Seq<RawToken>, source: Seq<u8>, k: int) -> bool {
    raws[k].token_type == TK_COMMENT && match last_in_order(raws, |q: int| ends_by(raws, raws[k].start_offset, q)) {
        Some(pp) => line_at(source, raws[pp].start_offset) == line_at(source, raws[k].start_offset),
        None => false,
    }
}

/// The starts of the inline comments among the first `k` tokens.
pub open spec fn inlines_upto(raws: Seq<RawToken>, source: Seq<u8>, k: int) -> Seq<usize>
    decreases k,
{
    if k <= 0 {
        Seq::empty()
    } else {
        inlines_upto(raws, source, k - 1) + if inline_at(raws, source, k - 1) {
            seq![raws[k - 1].start_offset]
        } else {
            Seq::empty()
        }
    }
}

/// The `tNL` decisions as plain values.
pub struct PlanView {
    pub suppress: Seq<usize>,
    pub end_nl: Seq<usize>,
    pub forward: Seq<usize>,
    pub inline: Seq<usize>,
}

/// The `tNL` decisions for `raws`.
pub open spec fn plan_of(raws: Seq<RawToken>, source: Seq<u8>) -> PlanView {
    let m = moves_upto(raws, source, raws.len() as int);
    PlanView {
        suppress: m.map_values(|x: (usize, usize)| x.0),
        end_nl: m.map_values(|x: (usize, usize)| x.1),
        forward: forwards_upto(raws, raws.len() as int),
        inline: inlines_upto(raws, source, raws.len() as int),
    }
}

/// The first token from `j` on that is not string content (or the end).
pub open spec fn past_string_content(raws: Seq<RawToken>, j: int) -> int
    decreases raws.len() - j,
{
    if 0 <= j < raws.len() && raws[j].token_type == TK_STRING_CONTENT { past_string_content(raws, j + 1) } else { j }
}

/// The type of token `i`, 0 past the end.
pub open spec fn type_of(raws: Seq<RawToken>, i: int) -> u32 {
    if 0 <= i < raws.len() { raws[i].token_type } else { 0 }
}

/// A parser-gem token.
pub open spec fn mk(kind: ParserTokenType, b: int, e: int) -> Token {
    Token { kind, begin_pos: b as usize, end_pos: e as usize }
}

/// What token `c` of the stream gives, with `pending` the newline waiting
/// to follow a run of comments: the tokens it emits, the next token to read
/// and the newline then waiting.
pub open spec fn conv_step(raws: Seq<RawToken>, source: Seq<u8>, plan: PlanView, c: int, pending: Option<(usize, usize)>)
    -> (Seq<Token>, int, Option<(usize, usize)>) {
    let tk = raws[c];
    let tt = tk.token_type;
    let b = tk.start_offset as int;
    let e = raw_end(tk);
    let n = raws.len();
    if tt == TK_IGNORED_NEWLINE {
        (if plan.forward.contains(tk.start_offset) { seq![mk(ParserTokenType::NewLine, b, e)] } else { Seq::empty() },
            c + 1, pending)
    } else if tt == TK_END_MARKER || tt == TK_EOF || tt == TK_EMBDOC_END || tt == TK_EMBDOC_LINE {
        (Seq::empty(), c + 1, pending)
    } else if tt == TK_PARENTHESIS_LEFT_PARENTHESES {
        let prev = if c >= 1 { raws[c - 1].token_type } else { 0 };
        let kind = if prev == TK_LABEL || prev == TK_LABEL_END { ParserTokenType::LParen } else { ParserTokenType::Other };
        (seq![mk(kind, b, e)], c + 1, pending)
    } else if tt == TK_SYMBOL_BEGIN && c + 1 < n && !(raws[c + 1].token_type == TK_STRING_CONTENT || raws[c
        + 1].token_type == TK_EMBEXPR_BEGIN || raws[c + 1].token_type == TK_EMBVAR || raws[c + 1].token_type
        == TK_STRING_END) {
        (seq![mk(ParserTokenType::Other, b, raw_end(raws[c + 1]))], c + 2, pending)
    } else if tt == TK_STRING_BEGIN && past_string_content(raws, c + 1) < n && raws[past_string_content(raws, c
        + 1)].token_type == TK_STRING_END {
        let j = past_string_content(raws, c + 1);
        (seq![mk(ParserTokenType::Other, b, raw_end(raws[j]))], j + 1, pending)
    } else {
        let kind = if tt == TK_BRACE_LEFT && tk.lex_state == (EXPR_BEG | EXPR_LABEL) {
            ParserTokenType::LBrace
        } else {
            spec_classify(tt)
        };
        if tt == TK_COMMENT {
            let ends_nl = e > b && e - 1 < source.len() && source[e - 1] == 10u8;
            let cend = if ends_nl { e - 1 } else { e };
            let prev_same_line = plan.inline.contains(tk.start_offset) && (tk.lex_state & EXPR_BEG) == 0;
            let next_tt = type_of(raws, c + 1);
            let next_is_comment = next_tt == TK_COMMENT;
            let next_is_cont = next_tt == TK_COMMENT || next_tt == TK_AMPERSAND_DOT || next_tt == TK_DOT;
            if prev_same_line && ends_nl && !next_is_cont {
                (seq![mk(ParserTokenType::Comment, b, cend), mk(ParserTokenType::NewLine, e - 1, e)], c + 1, pending)
            } else if prev_same_line && next_is_comment {
                (seq![mk(ParserTokenType::Comment, b, cend)], c + 1, Some(((e - 1) as usize, e as usize)))
            } else if pending is Some && !next_is_cont {
                let nl_range = pending->0;
                (seq![mk(ParserTokenType::Comment, b, cend), mk(ParserTokenType::NewLine, nl_range.0 as int,
                    nl_range.1 as int)], c + 1, None)
            } else {
                (seq![mk(ParserTokenType::Comment, b, cend)], c + 1, pending)
            }
        } else if tt == TK_NEWLINE {
            if plan.suppress.contains(tk.start_offset) {
                (Seq::empty(), c + 1, pending)
            } else if type_of(raws, c + 1) == TK_COMMENT {
                (Seq::empty(), c + 1, Some((tk.start_offset, e as usize)))
            } else {
                (seq![mk(kind, b, e)], c + 1, pending)
            }
        } else if tt == TK_HEREDOC_END && plan.end_nl.contains(e as usize) {
            (seq![mk(ParserTokenType::NewLine, e - 1, e), mk(kind, b, e)], c + 1, pending)
        } else {
            (seq![mk(kind, b, e)], c + 1, pending)
        }
    }
}

/// From `j` on, the first token that is not string content lies at or after
/// `j`.
pub proof fn lemma_past_string_content(raws: Seq<RawToken>, j: int)
    ensures
        past_string_content(raws, j) >= j,
        0 <= j ==> past_string_content(raws, j) <= raws.len() || past_string_content(raws, j) == j,
    decreases raws.len() - j,
{
    if 0 <= j < raws.len() && raws[j].token_type == TK_STRING_CONTENT {
        lemma_past_string_content(raws, j + 1);
    }
}

/// The parser-gem tokens of the stream from token `c` on, in lexer order,
/// with `pending` the newline waiting to follow a run of comments.
pub open spec fn conv(raws: Seq<RawToken>, source: Seq<u8>, plan: PlanView, c: int, pending: Option<(usize, usize)>)
    -> Seq<Token>
    decreases raws.len() - c,
{
    if c < 0 || c >= raws.len() {
        Seq::empty()
    } else {
        let (em, next, pend) = conv_step(raws, source, plan, c, pending);
        proof {
            lemma_past_string_content(raws, c + 1);
        }
        if next <= c {
            em
        } else {
            em + conv(raws, source, plan, next, pend)
        }
    }
}

/// The parser-gem tokens of `raws`, in lexer order.
pub open spec fn converted(raws: Seq<RawToken>, source: Seq<u8>) -> Seq<Token> {
    conv(raws, source, plan_of(raws, source), 0, None)
}

/// The kind a `PARENTHESIS_LEFT_PARENTHESES` token `i` takes: a left paren
/// right after a label (`foo: (1 + 2)`), any other token after anything
/// else (`foo (1)`, `tLPAREN_ARG`).
pub open spec fn paren_kind(raws: Seq<RawToken>, i: int) -> ParserTokenType {
    if i >= 1 && (raws[i - 1].token_type == TK_LABEL || raws[i - 1].token_type == TK_LABEL_END) {
        ParserTokenType::LParen
    } else {
        ParserTokenType::Other
    }
}

/// Token `i` is a `PARENTHESIS_LEFT_PARENTHESES` that does not directly
/// follow a `SYMBOL_BEGIN` (which would take it in as a symbol's name).
pub open spec fn free_paren(raws: Seq<RawToken>, i: int) -> bool {
    &&& 0 <= i < raws.len()
    &&& raws[i].token_type == TK_PARENTHESIS_LEFT_PARENTHESES
    &&& (i == 0 || raws[i - 1].token_type != TK_SYMBOL_BEGIN)
}

/// The tokens a string's begin skips over are string content.
proof fn lemma_string_content_run(raws: Seq<RawToken>, k: int)
    requires
        0 <= k,
    ensures
        forall|m: int| k <= m < past_string_content(raws, k) ==> (#[trigger] raws[m]).token_type == TK_STRING_CONTENT,
    decreases raws.len() - k,
{
    if 0 <= k < raws.len() && raws[k].token_type == TK_STRING_CONTENT {
        lemma_string_content_run(raws, k + 1);
    }
}

/// Reading the stream from any token up to a free `(`, the `(` comes out
/// as one token of its own range and of its [`paren_kind`].
pub proof fn lemma_conv_keeps_paren(
    raws: Seq<RawToken>,
    source: Seq<u8>,
    plan: PlanView,
    c: int,
    pending: Option<(usize, usize)>,
    i: int,
)
    requires
        0 <= c <= i,
        free_paren(raws, i),
    ensures
        conv(raws, source, plan, c, pending).contains(
            mk(paren_kind(raws, i), raws[i].start_offset as int, raw_end(raws[i])),
        ),
    decreases i - c,
{
    let x = mk(paren_kind(raws, i), raws[i].start_offset as int, raw_end(raws[i]));
    lemma_past_string_content(raws, c + 1);
    lemma_string_content_run(raws, c + 1);
    let (em, next, pend) = conv_step(raws, source, plan, c, pending);
    if c == i {
        assert(em == seq![x]);
        assert(conv(raws, source, plan, c, pending)[0] == x);
    } else {
        if raws[c].token_type == TK_STRING_BEGIN {
            let j = past_string_content(raws, c + 1);
            if j >= i {
                if j > i {
                    assert(raws[i].token_type == TK_STRING_CONTENT);
                }
            }
        }
        assert(c < next <= i);
        lemma_conv_keeps_paren(raws, source, plan, next, pend, i);
        let rest = conv(raws, source, plan, next, pend);
        let m = choose|m: int| 0 <= m < rest.len() && rest[m] == x;
        assert(conv(raws, source, plan, c, pending) == em + rest);
        assert((em + rest)[em.len() + m] == x);
    }
}

/// Reading the stream from any token up to token `i`, which nothing before
/// it takes in (no `:` directly before it, no string content or end) and
/// which alone gives `x` whatever newline is waiting, `x` comes out.
pub proof fn lemma_conv_keeps_token(
    raws: Seq<RawToken>,
    source: Seq<u8>,
    plan: PlanView,
    c: int,
    pending: Option<(usize, usize)>,
    i: int,
    x: Token,
)
    requires
        0 <= c <= i < raws.len(),
        i == 0 || raws[i - 1].token_type != TK_SYMBOL_BEGIN,
        raws[i].token_type != TK_STRING_CONTENT,
        raws[i].token_type != TK_STRING_END,
        forall|p: Option<(usize, usize)>| (#[trigger] conv_step(raws, source, plan, i, p)).0 == seq![x],
    ensures
        conv(raws, source, plan, c, pending).contains(x),
    decreases i - c,
{
    lemma_past_string_content(raws, c + 1);
    lemma_string_content_run(raws, c + 1);
    let (em, next, pend) = conv_step(raws, source, plan, c, pending);
    if c == i {
        assert(em == seq![x]);
        assert(conv(raws, source, plan, c, pending)[0] == x);
    } else {
        if raws[c].token_type == TK_STRING_BEGIN {
            let j = past_string_content(raws, c + 1);
            if j > i {
                assert(raws[i].token_type == TK_STRING_CONTENT);
            }
        }
        assert(c < next <= i);
        lemma_conv_keeps_token(raws, source, plan, next, pend, i, x);
        let rest = conv(raws, source, plan, next, pend);
        let m = choose|m: int| 0 <= m < rest.len() && rest[m] == x;
        assert(conv(raws, source, plan, c, pending) == em + rest);
        assert((em + rest)[em.len() + m] == x);
    }
}

/// Raw token `r` of one of the simple types comes out in `toks` as one
/// token of its own range and of the parser-gem kind its type names:
/// `COMMA` a comma, `SEMICOLON` a semicolon, `PARENTHESIS_LEFT` a left
/// paren, `PARENTHESIS_RIGHT` a right paren, `LAMBDA_BEGIN` a left curly,
/// `BRACE_LEFT` a hash brace when lexed in `EXPR_BEG|EXPR_LABEL` and a left
/// curly otherwise, `BRACE_RIGHT` a right curly, `BRACKET_RIGHT` a right
/// bracket, `PIPE` a pipe, `EMBEXPR_END` an interpolation end,
/// `EMBDOC_BEGIN` a comment, `=` and the assignment operators an equal sign,
/// `== === != <= >= <<` a comparison.
pub open spec fn simple_token_kept(toks: Seq<Token>, r: RawToken) -> bool {
    let tt = r.token_type;
    let b = r.start_offset as int;
    let e = raw_end(r);
    &&& tt == TK_COMMA ==> toks.contains(mk(ParserTokenType::Comma, b, e))
    &&& tt == TK_SEMICOLON ==> toks.contains(mk(ParserTokenType::Semicolon, b, e))
    &&& tt == TK_PARENTHESIS_LEFT ==> toks.contains(mk(ParserTokenType::LParen, b, e))
    &&& tt == TK_PARENTHESIS_RIGHT ==> toks.contains(mk(ParserTokenType::RParen, b, e))
    &&& tt == TK_LAMBDA_BEGIN ==> toks.contains(mk(ParserTokenType::LCurly, b, e))
    &&& tt == TK_BRACE_LEFT && r.lex_state == (EXPR_BEG | EXPR_LABEL) ==> toks.contains(mk(ParserTokenType::LBrace, b, e))
    &&& tt == TK_BRACE_LEFT && r.lex_state != (EXPR_BEG | EXPR_LABEL) ==> toks.contains(mk(ParserTokenType::LCurly, b, e))
    &&& tt == TK_BRACE_RIGHT ==> toks.contains(mk(ParserTokenType::RCurly, b, e))
    &&& tt == TK_BRACKET_RIGHT ==> toks.contains(mk(ParserTokenType::RBracket, b, e))
    &&& tt == TK_PIPE ==> toks.contains(mk(ParserTokenType::Pipe, b, e))
    &&& tt == TK_EMBEXPR_END ==> toks.contains(mk(ParserTokenType::StringDEnd, b, e))
    &&& tt == TK_EMBDOC_BEGIN ==> toks.contains(mk(ParserTokenType::Comment, b, e))
    &&& (tt == TK_EQUAL || tt == TK_AMPERSAND_AMPERSAND_EQUAL || tt == TK_AMPERSAND_EQUAL || tt == TK_CARET_EQUAL
        || tt == TK_GREATER_GREATER_EQUAL || tt == TK_LESS_LESS_EQUAL || tt == TK_MINUS_EQUAL || tt == TK_PERCENT_EQUAL
        || tt == TK_PIPE_EQUAL || tt == TK_PIPE_PIPE_EQUAL || tt == TK_PLUS_EQUAL || tt == TK_SLASH_EQUAL
        || tt == TK_STAR_EQUAL || tt == TK_STAR_STAR_EQUAL) ==> toks.contains(mk(ParserTokenType::EqualSign, b, e))
    &&& (tt == TK_EQUAL_EQUAL || tt == TK_EQUAL_EQUAL_EQUAL || tt == TK_BANG_EQUAL || tt == TK_LESS_EQUAL
        || tt == TK_GREATER_EQUAL || tt == TK_LESS_LESS) ==> toks.contains(mk(ParserTokenType::Comparison, b, e))
}

/// Every raw token of a simple type that no `:` directly before it takes in
/// comes out of the conversion as [`simple_token_kept`] says.
pub proof fn converted_keeps_simple_tokens(raws: Seq<RawToken>, source: Seq<u8>, i: int)
    requires
        0 <= i < raws.len(),
        i == 0 || raws[i - 1].token_type != TK_SYMBOL_BEGIN,
    ensures
        simple_token_kept(converted(raws, source), raws[i]),
{
    let r = raws[i];
    let tt = r.token_type;
    let plan = plan_of(raws, source);
    let simple = tt == TK_COMMA || tt == TK_SEMICOLON || tt == TK_PARENTHESIS_LEFT || tt == TK_PARENTHESIS_RIGHT
        || tt == TK_LAMBDA_BEGIN || tt == TK_BRACE_LEFT || tt == TK_BRACE_RIGHT || tt == TK_BRACKET_RIGHT
        || tt == TK_PIPE || tt == TK_EMBEXPR_END || tt == TK_EMBDOC_BEGIN || tt == TK_EQUAL
        || tt == TK_AMPERSAND_AMPERSAND_EQUAL || tt == TK_AMPERSAND_EQUAL || tt == TK_CARET_EQUAL
        || tt == TK_GREATER_GREATER_EQUAL || tt == TK_LESS_LESS_EQUAL || tt == TK_MINUS_EQUAL || tt == TK_PERCENT_EQUAL
        || tt == TK_PIPE_EQUAL || tt == TK_PIPE_PIPE_EQUAL || tt == TK_PLUS_EQUAL || tt == TK_SLASH_EQUAL
        || tt == TK_STAR_EQUAL || tt == TK_STAR_STAR_EQUAL || tt == TK_EQUAL_EQUAL || tt == TK_EQUAL_EQUAL_EQUAL
        || tt == TK_BANG_EQUAL || tt == TK_LESS_EQUAL || tt == TK_GREATER_EQUAL || tt == TK_LESS_LESS;
    if simple {
        let kind = if tt == TK_BRACE_LEFT && r.lex_state == (EXPR_BEG | EXPR_LABEL) {
            ParserTokenType::LBrace
        } else {
            spec_classify(tt)
        };
        let x = mk(kind, r.start_offset as int, raw_end(r));
        assert forall|p: Option<(usize, usize)>| (#[trigger] conv_step(raws, source, plan, i, p)).0 == seq![x] by {}
        lemma_conv_keeps_token(raws, source, plan, 0, None, i, x);
    }
}

/// The `tNL` decisions that need begin order or a view of the whole stream.
struct TnlPlan {
    /// `NEWLINE` starts to drop (heredoc openers carrying a method call).
    heredoc_suppress: Vec<usize>,
    /// `HEREDOC_END` ends whose last byte becomes a `tNL`; each is positive.
    heredoc_end_nl: Vec<usize>,
    /// `IGNORED_NEWLINE` starts to emit as `tNL` (calls forwarding `...`).
    forward_args: Vec<usize>,
    /// `COMMENT` starts whose previous token is on their line.
    comment_inline: Vec<usize>,
}

impl TnlPlan {
    fn build(raws: &[RawToken], source: &[u8]) -> (p: TnlPlan)
        requires
            raws_ok(raws@),
        ensures
            forall|k: int| 0 <= k < p.heredoc_end_nl@.len() ==> #[trigger] p.heredoc_end_nl@[k] > 0,
            p.heredoc_suppress@ == plan_of(raws@, source@).suppress,
            p.heredoc_end_nl@ == plan_of(raws@, source@).end_nl,
            p.forward_args@ == plan_of(raws@, source@).forward,
            p.comment_inline@ == plan_of(raws@, source@).inline,
    {
        let n = raws.len();
        let counts = newline_counts(source);
        let mut heredoc_suppress: Vec<usize> = Vec::new();
        let mut heredoc_end_nl: Vec<usize> = Vec::new();
        let mut forward_args: Vec<usize> = Vec::new();
        let mut comment_inline: Vec<usize> = Vec::new();

        // A call forwarding `...`: `( ... ) IGNORED_NEWLINE` where the token
        // before `...` is not the `(` of a `def f(...)` / bare `f(...)`.
        let mut k: usize = 0;
        while k < n
            invariant
                n == raws@.len(),
                k <= n,
                forward_args@ == forwards_upto(raws@, k as int),
            decreases n - k,
        {
            if raws[k].token_type == TK_IGNORED_NEWLINE && k >= 3
                && raws[k - 1].token_type == TK_PARENTHESIS_RIGHT
                && raws[k - 2].token_type == TK_UDOT_DOT_DOT
                && raws[k - 3].token_type != TK_PARENTHESIS_LEFT {
                forward_args.push(raws[k].start_offset);
            }
            k += 1;
        }

        // A heredoc opener whose line ends in a `NEWLINE` right after an
        // identifier (a method called on the heredoc): that newline moves to
        // the end of the heredoc body.
        let mut k: usize = 0;
        while k < n
            invariant
                n == raws@.len(),
                raws_ok(raws@),
                counts@.len() == source@.len() + 1,
                forall|q: int| 0 <= q <= source@.len() ==> #[trigger] counts@[q] == newlines_before(source@, q),
                forall|q: int| 0 <= q < heredoc_end_nl@.len() ==> #[trigger] heredoc_end_nl@[q] > 0,
                k <= n,
                forward_args@ == forwards_upto(raws@, n as int),
                heredoc_suppress@ == moves_upto(raws@, source@, k as int).map_values(|x: (usize, usize)| x.0),
                heredoc_end_nl@ == moves_upto(raws@, source@, k as int).map_values(|x: (usize, usize)| x.1),
            decreases n - k,
        {
            let ghost m0 = moves_upto(raws@, source@, k as int);
            let ghost s0 = heredoc_suppress@;
            let ghost e0 = heredoc_end_nl@;
            if raws[k].token_type == TK_HEREDOC_START {
                let hs = raws[k];
                let hs_line = line_of(source, &counts, hs.start_offset);
                if let Some(term) = first_newline_on_line(raws, source, &counts, hs_line) {
                    if raws[term].token_type == TK_NEWLINE {
                        let prev = last_token_ending_by(raws, raws[term].start_offset);
                        let prev_ident = match prev {
                            Some(p) => raws[p].token_type == TK_IDENTIFIER,
                            None => false,
                        };
                        if prev_ident {
                            if let Some(hend) = first_heredoc_end_after(raws, hs.start_offset) {
                                assert(raw_end(raws@[hend as int]) <= usize::MAX);
                                let hend_end = raws[hend].start_offset + raws[hend].length;
                                if hend_end > 0 && hend_end - 1 < source.len() && source[hend_end - 1] == 10u8 {
                                    heredoc_suppress.push(raws[term].start_offset);
                                    heredoc_end_nl.push(hend_end);
                                    assert(heredoc_move(raws@, source@, k as int) == Some((raws@[term as int].start_offset, hend_end)));
                                }
                            }
                        }
                    }
                }
            }
            proof {
                let m1 = moves_upto(raws@, source@, k + 1);
                match heredoc_move(raws@, source@, k as int) {
                    Some(mv) => {
                        assert(m1 == m0.push(mv));
                        assert(heredoc_suppress@ == s0.push(mv.0));
                        assert(heredoc_suppress@ =~= m1.map_values(|x: (usize, usize)| x.0));
                        assert(heredoc_end_nl@ =~= m1.map_values(|x: (usize, usize)| x.1));
                    },
                    None => {
                        assert(m1 =~= m0);
                        assert(heredoc_suppress@ == s0);
                        assert(heredoc_end_nl@ == e0);
                    },
                }
            }
            k += 1;
        }

        // Inline comments: the previous non-newline token in begin order is
        // on the comment's line.
        let mut k: usize = 0;
        while k < n
            invariant
                n == raws@.len(),
                raws_ok(raws@),
                counts@.len() == source@.len() + 1,
                forall|q: int| 0 <= q <= source@.len() ==> #[trigger] counts@[q] == newlines_before(source@, q),
                k <= n,
                forward_args@ == forwards_upto(raws@, n as int),
                heredoc_suppress@ == moves_upto(raws@, source@, n as int).map_values(|x: (usize, usize)| x.0),
                heredoc_end_nl@ == moves_upto(raws@, source@, n as int).map_values(|x: (usize, usize)| x.1),
                forall|q: int| 0 <= q < heredoc_end_nl@.len() ==> #[trigger] heredoc_end_nl@[q] > 0,
                comment_inline@ == inlines_upto(raws@, source@, k as int),
            decreases n - k,
        {
            let ghost c0 = comment_inline@;
            let mut pushed = false;
            if raws[k].token_type == TK_COMMENT {
                let c = raws[k];
                let c_line = line_of(source, &counts, c.start_offset);
                if let Some(p) = last_token_ending_by(raws, c.start_offset) {
                    if line_of(source, &counts, raws[p].start_offset) == c_line {
                        comment_inline.push(c.start_offset);
                        pushed = true;
                    }
                }
            }
            proof {
                assert(pushed == inline_at(raws@, source@, k as int));
                if pushed {
                    assert(comment_inline@ == c0.push(raws@[k as int].start_offset));
                } else {
                    assert(comment_inline@ == c0);
                }
                assert(comment_inline@ =~= inlines_upto(raws@, source@, k + 1));
            }
            k += 1;
        }

        TnlPlan { heredoc_suppress, heredoc_end_nl, forward_args, comment_inline }
    }
}

fn tok(kind: ParserTokenType, begin_pos: usize, end_pos: usize) -> (t: Token)
    ensures
        t.kind == kind && t.begin_pos == begin_pos && t.end_pos == end_pos,
{
    Token { kind, begin_pos, end_pos }
}

/// The type of token `i`, or `0` (no type) past the end.
fn type_at(raws: &[RawToken], i: usize) -> (tt: u32)
    ensures
        i < raws@.len() ==> tt == raws@[i as int].token_type,
        i >= raws@.len() ==> tt == 0,
{
    if i < raws.len() { raws[i].token_type } else { 0 }
}

/// Rebuilds the parser-gem stream in lexer order.
#[verifier::rlimit(100)]
#[verifier::spinoff_prover]
fn convert(raws: &[RawToken], source: &[u8]) -> (out: Vec<Token>)
    requires
        raws_ok(raws@),
    ensures
        out@ == converted(raws@, source@),
{
    let n = raws.len();
    let nl = TnlPlan::build(raws, source);
    let ghost plan = plan_of(raws@, source@);
    let mut out: Vec<Token> = Vec::new();
    let mut pending_comment_nl: Option<(usize, usize)> = None;
    let mut i: usize = 0;
    while i < n
        invariant
            n == raws@.len(),
            raws_ok(raws@),
            i <= n,
            forall|k: int| 0 <= k < nl.heredoc_end_nl@.len() ==> #[trigger] nl.heredoc_end_nl@[k] > 0,
            plan == plan_of(raws@, source@),
            nl.heredoc_suppress@ == plan.suppress,
            nl.heredoc_end_nl@ == plan.end_nl,
            nl.forward_args@ == plan.forward,
            nl.comment_inline@ == plan.inline,
            out@ + conv(raws@, source@, plan, i as int, pending_comment_nl) == converted(raws@, source@),
        decreases n - i,
    {
        let ghost c = i as int;
        let ghost out0 = out@;
        let ghost st = conv_step(raws@, source@, plan, c, pending_comment_nl);
        proof {
            lemma_past_string_content(raws@, c + 1);
            assert(conv(raws@, source@, plan, c, pending_comment_nl) == st.0 + conv(raws@, source@, plan, st.1, st.2));
        }
        let tk = raws[i];
        let tt = tk.token_type;
        assert(raw_end(raws@[i as int]) <= usize::MAX);
        let b = tk.start_offset;
        let e = tk.start_offset + tk.length;
        i += 1;

        if tt == TK_IGNORED_NEWLINE {
            // Dropped, except after a call forwarding `...`.
            if holds(&nl.forward_args, b) {
                out.push(tok(ParserTokenType::NewLine, b, e));
            }
            continue;
        }
        if tt == TK_END_MARKER || tt == TK_EOF || tt == TK_EMBDOC_END || tt == TK_EMBDOC_LINE {
            continue;
        }
        if tt == TK_PARENTHESIS_LEFT_PARENTHESES {
            // A left paren after a label; `tLPAREN_ARG` otherwise.
            let prev = if i >= 2 { raws[i - 2].token_type } else { 0 };
            let kind = if prev == TK_LABEL || prev == TK_LABEL_END {
                ParserTokenType::LParen
            } else {
                ParserTokenType::Other
            };
            out.push(tok(kind, b, e));
            continue;
        }
        if tt == TK_SYMBOL_BEGIN && i < n {
            // `:` + operator is one symbol token unless a string body follows.
            let next = raws[i];
            let nt = next.token_type;
            let string_part = nt == TK_STRING_CONTENT || nt == TK_EMBEXPR_BEGIN || nt == TK_EMBVAR
                || nt == TK_STRING_END;
            if !string_part {
                assert(raw_end(raws@[i as int]) <= usize::MAX);
                out.push(tok(ParserTokenType::Other, b, next.start_offset + next.length));
                i += 1;
                continue;
            }
        }
        if tt == TK_STRING_BEGIN {
            // A string without interpolation is one token.
            let mut j: usize = i;
            while j < n && raws[j].token_type == TK_STRING_CONTENT
                invariant
                    i <= j <= n,
                    n == raws@.len(),
                    past_string_content(raws@, j as int) == past_string_content(raws@, i as int),
                    raws_ok(raws@),
                    i == c + 1,
                    out@ == out0,
                    tk == raws@[c],
                    tt == tk.token_type,
                    b == tk.start_offset,
                    e == raw_end(tk),
                    plan == plan_of(raws@, source@),
                    nl.heredoc_suppress@ == plan.suppress,
                    nl.heredoc_end_nl@ == plan.end_nl,
                    nl.forward_args@ == plan.forward,
                    nl.comment_inline@ == plan.inline,
                    forall|k: int| 0 <= k < nl.heredoc_end_nl@.len() ==> #[trigger] nl.heredoc_end_nl@[k] > 0,
                    st == conv_step(raws@, source@, plan, c, pending_comment_nl),
                    conv(raws@, source@, plan, c, pending_comment_nl) == st.0 + conv(raws@, source@, plan, st.1, st.2),
                    out0 + conv(raws@, source@, plan, c, pending_comment_nl) == converted(raws@, source@),
                decreases n - j,
            {
                j += 1;
            }
            if j < n && raws[j].token_type == TK_STRING_END {
                assert(raw_end(raws@[j as int]) <= usize::MAX);
                out.push(tok(ParserTokenType::Other, b, raws[j].start_offset + raws[j].length));
                i = j + 1;
                continue;
            }
        }

        let mut kind = classify(tt);
        if tt == TK_BRACE_LEFT && tk.lex_state == (EXPR_BEG | EXPR_LABEL) {
            kind = ParserTokenType::LBrace;
        }

        if tt == TK_COMMENT {
            assert(raws@[(i - 1) as int].token_type == TK_COMMENT);
            let ends_nl = e > b && e - 1 < source.len() && source[e - 1] == 10u8;
            let cend = if ends_nl { e - 1 } else { e };
            let inline = holds(&nl.comment_inline, b);
            let suppressed = (tk.lex_state & EXPR_BEG) != 0;
            let prev_same_line = inline && !suppressed;
            let next_tt = type_at(raws, i);
            let next_is_comment = next_tt == TK_COMMENT;
            let next_is_cont = next_tt == TK_COMMENT || next_tt == TK_AMPERSAND_DOT || next_tt == TK_DOT;
            if prev_same_line && ends_nl && !next_is_cont {
                out.push(tok(ParserTokenType::Comment, b, cend));
                out.push(tok(ParserTokenType::NewLine, e - 1, e));
                continue;
            } else if prev_same_line && next_is_comment {
                pending_comment_nl = Some((e - 1, e));
                out.push(tok(ParserTokenType::Comment, b, cend));
                continue;
            } else if pending_comment_nl.is_some() && !next_is_cont {
                let (nb, ne) = pending_comment_nl.unwrap();
                pending_comment_nl = None;
                out.push(tok(ParserTokenType::Comment, b, cend));
                out.push(tok(ParserTokenType::NewLine, nb, ne));
                continue;
            }
            out.push(tok(ParserTokenType::Comment, b, cend));
            continue;
        } else if tt == TK_NEWLINE {
            // Dropped for a heredoc opener carrying a method call; moved after
            // a following comment.
            if holds(&nl.heredoc_suppress, b) {
                continue;
            }
            if type_at(raws, i) == TK_COMMENT {
                pending_comment_nl = Some((b, e));
                continue;
            }
        } else if tt == TK_HEREDOC_END && holds(&nl.heredoc_end_nl, e) {
            // The `tNL` moved here from the opener line.
            out.push(tok(ParserTokenType::NewLine, e - 1, e));
        }

        out.push(tok(kind, b, e));
    }
    out
}

/// The tokens are in non-decreasing begin order.
pub open spec fn sorted_by_begin(s: Seq<Token>) -> bool {
    forall|a: int, b: int| 0 <= a < b < s.len() ==> s[a].begin_pos <= s[b].begin_pos
}

/// `b` is `a` reordered by `perm` (`b[k]` is `a[perm[k]]`, each index of
/// `a` used once), and tokens with equal begin offsets keep their order.
pub open spec fn stable_perm(a: Seq<Token>, b: Seq<Token>, perm: Seq<int>) -> bool {
    &&& perm.len() == a.len() == b.len()
    &&& forall|k: int| 0 <= k < perm.len() ==> 0 <= #[trigger] perm[k] < a.len() && b[k] == a[perm[k]]
    &&& forall|k: int, l: int| 0 <= k < l < perm.len() ==> #[trigger] perm[k] != #[trigger] perm[l]
    &&& forall|k: int, l: int|
        0 <= k < l < perm.len() && (#[trigger] b[k]).begin_pos == (#[trigger] b[l]).begin_pos ==> perm[k] < perm[l]
}

/// `b` is `a` sorted by begin offset, tokens with equal begin offsets in
/// their order in `a`.
pub open spec fn stably_sorted(a: Seq<Token>, b: Seq<Token>) -> bool {
    sorted_by_begin(b) && exists|perm: Seq<int>| #[trigger] stable_perm(a, b, perm)
}

/// Sorts by begin offset, keeping equal offsets in their order (insertion
/// sort: the stream is nearly sorted, heredoc bodies aside).
fn sort_by_begin(v: &mut Vec<Token>)
    ensures
        sorted_by_begin(final(v)@),
        final(v)@.to_multiset() == old(v)@.to_multiset(),
        stably_sorted(old(v)@, final(v)@),
{
    let n = v.len();
    let ghost orig = v@;
    let ghost mut perm: Seq<int> = Seq::new(n as nat, |k: int| k);
    assert(stable_perm(orig, v@, perm));
    let mut i: usize = 1;
    if n == 0 {
        assert(sorted_by_begin(v@));
        return;
    }
    while i < n
        invariant
            1 <= i <= n,
            n == v@.len(),
            orig == old(v)@,
            sorted_by_begin(v@.subrange(0, i as int)),
            v@.to_multiset() == old(v)@.to_multiset(),
            stable_perm(orig, v@, perm),
        decreases n - i,
    {
        assert forall|a: int, b: int| 0 <= a < b < i implies v@[a].begin_pos <= v@[b].begin_pos by {
            assert(v@.subrange(0, i as int)[a] == v@[a]);
            assert(v@.subrange(0, i as int)[b] == v@[b]);
        }
        let mut j: usize = i;
        while j > 0 && v[j - 1].begin_pos > v[j].begin_pos
            invariant
                0 <= j <= i < n,
                n == v@.len(),
                orig == old(v)@,
                forall|a: int, b: int| 0 <= a < b <= i && a != j && b != j ==> v@[a].begin_pos <= v@[b].begin_pos,
                forall|b: int| j < b <= i ==> v@[j as int].begin_pos <= v@[b].begin_pos,
                j > 0 && j < i ==> v@[j - 1].begin_pos <= v@[j + 1].begin_pos,
                v@.to_multiset() == old(v)@.to_multiset(),
                stable_perm(orig, v@, perm),
            decreases j,
        {
            let a = v[j - 1];
            let b = v[j];
            let ghost s0 = v@;
            let ghost p0 = perm;
            v.set(j - 1, b);
            v.set(j, a);
            proof {
                vstd::seq_lib::to_multiset_update(s0, (j - 1) as int, b);
                vstd::seq_lib::to_multiset_update(s0.update((j - 1) as int, b), j as int, a);
                assert(s0.update((j - 1) as int, b)[j as int] == b);
                let jj = j as int;
                perm = p0.update(jj - 1, p0[jj]).update(jj, p0[jj - 1]);
                let w = v@;
                assert(w =~= s0.update(jj - 1, s0[jj]).update(jj, s0[jj - 1]));
                // where each new position came from
                let src = |k: int| if k == jj - 1 { jj } else if k == jj { jj - 1 } else { k };
                assert forall|k: int| 0 <= k < perm.len() implies 0 <= #[trigger] perm[k] < orig.len() && w[k]
                    == orig[perm[k]] by {
                    assert(perm[k] == p0[src(k)]);
                    assert(w[k] == s0[src(k)]);
                }
                assert forall|k: int, l: int| 0 <= k < l < perm.len() implies #[trigger] perm[k] != #[trigger] perm[l] by {
                    assert(perm[k] == p0[src(k)]);
                    assert(perm[l] == p0[src(l)]);
                    if src(k) < src(l) {
                        assert(p0[src(k)] != p0[src(l)]);
                    } else {
                        assert(p0[src(l)] != p0[src(k)]);
                    }
                }
                assert forall|k: int, l: int|
                    0 <= k < l < perm.len() && (#[trigger] w[k]).begin_pos == (#[trigger] w[l]).begin_pos implies perm[k]
                    < perm[l] by {
                    assert(perm[k] == p0[src(k)]);
                    assert(perm[l] == p0[src(l)]);
                    assert(w[k] == s0[src(k)]);
                    assert(w[l] == s0[src(l)]);
                    if k == jj - 1 && l == jj {
                        assert(s0[jj].begin_pos < s0[jj - 1].begin_pos);
                    } else {
                        assert(src(k) < src(l));
                    }
                }
                assert(stable_perm(orig, w, perm));
            }
            j -= 1;
        }
        assert(sorted_by_begin(v@.subrange(0, i + 1)));
        i += 1;
    }
    assert(v@.subrange(0, n as int) =~= v@);
}

/// Translates a prism lexer stream of `source` into the parser-gem token
/// stream, sorted by begin offset with ties kept in lexer order.
pub fn translate_tokens(source: &[u8], raw: &[RawToken]) -> (toks: Vec<Token>)
    requires
        raws_ok(raw@),
    ensures
        sorted_by_begin(toks@),
        toks@.to_multiset() == converted(raw@, source@).to_multiset(),
        stably_sorted(converted(raw@, source@), toks@),
        forall|i: int| #[trigger] free_paren(raw@, i) ==> toks@.contains(
            mk(paren_kind(raw@, i), raw@[i].start_offset as int, raw_end(raw@[i])),
        ),
        forall|i: int| 0 <= i < raw@.len() && (i == 0 || raw@[i - 1].token_type != TK_SYMBOL_BEGIN) ==> simple_token_kept(
            toks@,
            #[trigger] raw@[i],
        ),
{
    let mut toks = convert(raw, source);
    sort_by_begin(&mut toks);
    proof {
        let all = converted(raw@, source@);
        assert forall|i: int| 0 <= i < raw@.len() && (i == 0 || raw@[i - 1].token_type != TK_SYMBOL_BEGIN) implies simple_token_kept(
            toks@,
            #[trigger] raw@[i],
        ) by {
            converted_keeps_simple_tokens(raw@, source@, i);
            assert forall|x: Token| all.contains(x) implies toks@.contains(x) by {
                assert(all.to_multiset().count(x) > 0);
                assert(toks@.to_multiset().count(x) > 0);
            }
        }
        assert forall|i: int| #[trigger] free_paren(raw@, i) implies toks@.contains(
            mk(paren_kind(raw@, i), raw@[i].start_offset as int, raw_end(raw@[i])),
        ) by {
            let x = mk(paren_kind(raw@, i), raw@[i].start_offset as int, raw_end(raw@[i]));
            lemma_conv_keeps_paren(raw@, source@, plan_of(raw@, source@), 0, None, i);
            assert(all.to_multiset().count(x) > 0);
            assert(toks@.to_multiset().count(x) > 0);
        }
    }
    toks
}

} // verus!
