//! `Style/StringLiterals`: the configured quote style (`single_quotes` or
//! `double_quotes`) for string literals, and, with
//! `ConsistentQuotesInMultiline`, for strings continued over several lines.
//!
//! The walk keeps one frame per open node. A single-line string literal with
//! an opening quote (not a heredoc, not inside an ignored continued string)
//! is an offense when its quotes are wrong for the style and it does not sit
//! inside an interpolation of an interpolated string, symbol or regexp;
//! otherwise it is recorded as a style that was met. In consistent mode an
//! interpolated string whose parts are all string literals is judged as a
//! whole (mixed quote styles, or quotes that the style forbids for every
//! part) and its parts are then ignored. A literal that spans lines is judged
//! the same way, line by line.

use vstd::prelude::*;
use vstd::utf8::{valid_utf8, decode_utf8};
use crate::syntax::{SyntaxTree, tree_wf, node_wf, indices_in};
use crate::syntax::kinds;
use crate::syntax::access::{range, text, children, range_at, text_at, list_at};
use crate::syntax::flatten::{parse_tree, check_tree, tree_of};
use crate::syntax::walk::{open_nodes, walk_events, walk, Event, events_in, event_node};
use crate::rules::bytes::lossy_string;

verus! {

/// `EnforcedStyle: single_quotes`.
pub const STYLE_SINGLE: u8 = 0;
/// `EnforcedStyle: double_quotes`.
pub const STYLE_DOUBLE: u8 = 1;

/// Fix by rewriting the literal with single quotes.
pub const FIX_SINGLE: u8 = 0;
/// Fix by rewriting the literal with double quotes.
pub const FIX_DOUBLE: u8 = 1;
/// No fix.
pub const FIX_NONE: u8 = 2;

/// The opposite style was detected.
pub const DETECT_OPPOSITE: u8 = 0;
/// The configured style was detected.
pub const DETECT_CORRECT: u8 = 1;
/// Nothing is detected.
pub const DETECT_NONE: u8 = 3;

/// "Prefer single-quoted strings ...".
pub const MSG_PREFER_SINGLE: u8 = 0;
/// "Prefer double-quoted strings ...".
pub const MSG_PREFER_DOUBLE: u8 = 1;
/// "Inconsistent quote style."
pub const MSG_INCONSISTENT: u8 = 2;

/// `Style/StringLiterals` configuration.
#[derive(Clone, Copy)]
pub struct Config {
    /// `STYLE_SINGLE` or `STYLE_DOUBLE`.
    pub style: u8,
    /// `ConsistentQuotesInMultiline`.
    pub consistent_multiline: bool,
}

/// One record of the walk, in walk order: an offense, or (`is_offense`
/// false) a marker that the configured style was met.
pub struct StringLiteralsOffense {
    pub is_offense: bool,
    pub start_offset: usize,
    pub end_offset: usize,
    pub message: u8,
    pub detect: u8,
    pub fix: u8,
    /// The decoded content of an offending literal (for its fix); empty
    /// otherwise.
    pub content: String,
}

/// The number of backslashes directly before position `j`.
pub open spec fn backslashes_before(s: Seq<u8>, j: int) -> nat
    decreases j,
{
    if j <= 0 || j > s.len() {
        0
    } else if s[j - 1] == 92u8 {
        1 + backslashes_before(s, j - 1)
    } else {
        0
    }
}

/// Position `j` ends an odd run of backslashes that is not followed by `"`.
pub open spec fn lone_escape_at(s: Seq<u8>, j: int) -> bool {
    &&& 0 <= j <= s.len()
    &&& j == s.len() || (s[j] != 92u8 && s[j] != 34u8)
    &&& backslashes_before(s, j) % 2 == 1
}

/// At `i` stands a `'`.
pub open spec fn single_quote_at(s: Seq<u8>, i: int) -> bool {
    0 <= i < s.len() && s[i] == 39u8
}

/// `double_quotes_required?`: the source holds a `'`, or a backslash that
/// escapes something other than `"` or another backslash.
pub open spec fn spec_double_quotes_required(s: Seq<u8>) -> bool {
    ||| exists|i: int| #[trigger] single_quote_at(s, i)
    ||| exists|j: int| #[trigger] lone_escape_at(s, j)
}

/// At `i` stands a `"`, a backslash before a byte other than `'` and a
/// backslash, or a `#` before `@`, `{` or `$`.
pub open spec fn double_keep_at(s: Seq<u8>, i: int) -> bool {
    &&& 0 <= i < s.len()
    &&& {
        ||| s[i] == 34u8
        ||| s[i] == 92u8 && i + 1 < s.len() && s[i + 1] != 39u8 && s[i + 1] != 92u8
        ||| s[i] == 35u8 && i + 1 < s.len() && (s[i + 1] == 64u8 || s[i + 1] == 123u8 || s[i + 1] == 36u8)
    }
}

/// The literal is already acceptable in double quotes.
pub open spec fn double_keep(s: Seq<u8>) -> bool {
    exists|i: int| #[trigger] double_keep_at(s, i)
}

/// `wrong_quotes?`: the literal (quotes included) is not a `%` or `?`
/// literal, and its quotes are wrong for the style.
pub open spec fn spec_wrong_quotes(s: Seq<u8>, style: u8) -> bool {
    &&& !(s.len() > 0 && (s[0] == 37u8 || s[0] == 63u8))
    &&& if style == STYLE_SINGLE { !spec_double_quotes_required(s) } else { !double_keep(s) }
}

/// `double_quotes_required?` on a literal's source.
pub fn double_quotes_required(src: &[u8]) -> (r: bool)
    ensures
        r == spec_double_quotes_required(src@),
{
    let mut run: usize = 0;
    let mut i: usize = 0;
    while i < src.len()
        invariant
            i <= src@.len(),
            run == backslashes_before(src@, i as int),
            run <= i,
            forall|q: int| 0 <= q < i ==> !single_quote_at(src@, q),
            forall|j: int| 0 <= j < i ==> !lone_escape_at(src@, j),
        decreases src.len() - i,
    {
        let b = src[i];
        if b == 39u8 {
            assert(single_quote_at(src@, i as int));
            return true;
        }
        if b == 92u8 {
            assert(!lone_escape_at(src@, i as int));
            run = run + 1;
        } else {
            if run % 2 == 1 && b != 34u8 {
                assert(lone_escape_at(src@, i as int));
                return true;
            }
            assert(!lone_escape_at(src@, i as int));
            run = 0;
        }
        i += 1;
    }
    if run % 2 == 1 {
        assert(lone_escape_at(src@, i as int));
        return true;
    }
    assert(!lone_escape_at(src@, i as int));
    assert forall|j: int| !#[trigger] lone_escape_at(src@, j) by {
        if 0 <= j < i {
        } else if j == i {
        }
    }
    assert forall|q: int| !#[trigger] single_quote_at(src@, q) by {
        if 0 <= q < i {
        }
    }
    false
}

/// Whether the literal is already acceptable in double quotes.
pub fn double_style_keep(s: &[u8]) -> (r: bool)
    ensures
        r == double_keep(s@),
{
    let mut i: usize = 0;
    while i < s.len()
        invariant
            i <= s@.len(),
            forall|q: int| 0 <= q < i ==> !double_keep_at(s@, q),
        decreases s.len() - i,
    {
        let b = s[i];
        let next_ok = i + 1 < s.len();
        if b == 34u8 {
            assert(double_keep_at(s@, i as int));
            return true;
        }
        if b == 92u8 && next_ok && s[i + 1] != 39u8 && s[i + 1] != 92u8 {
            assert(double_keep_at(s@, i as int));
            return true;
        }
        if b == 35u8 && next_ok && (s[i + 1] == 64u8 || s[i + 1] == 123u8 || s[i + 1] == 36u8) {
            assert(double_keep_at(s@, i as int));
            return true;
        }
        assert(!double_keep_at(s@, i as int));
        i += 1;
    }
    assert forall|q: int| !#[trigger] double_keep_at(s@, q) by {
        if 0 <= q < i {
        }
    }
    false
}

/// `wrong_quotes?` on a literal's source for `style`.
pub fn wrong_quotes(src: &[u8], style: u8) -> (r: bool)
    ensures
        r == spec_wrong_quotes(src@, style),
{
    if src.len() > 0 && (src[0] == 37u8 || src[0] == 63u8) {
        return false;
    }
    if style == STYLE_SINGLE {
        !double_quotes_required(src)
    } else {
        !double_style_keep(src)
    }
}

/// `[a, b)` is one of the pieces that splitting `c` at newlines gives.
pub open spec fn is_fragment(c: Seq<u8>, a: int, b: int) -> bool {
    &&& 0 <= a <= b <= c.len()
    &&& a == 0 || c[a - 1] == 10u8
    &&& b == c.len() || c[b] == 10u8
    &&& forall|q: int| a <= q < b ==> c[q] != 10u8
}

/// Every line of `c` has quotes that are wrong for `style`.
pub open spec fn all_lines_wrong(c: Seq<u8>, style: u8) -> bool {
    forall|a: int, b: int| #[trigger] is_fragment(c, a, b) ==> spec_wrong_quotes(c.subrange(a, b), style)
}

/// Some line of `c` needs double quotes.
pub open spec fn some_line_needs_double(c: Seq<u8>) -> bool {
    exists|a: int, b: int| #[trigger] is_fragment(c, a, b) && spec_double_quotes_required(c.subrange(a, b))
}

/// The end of the line of `c` that starts at `a`.
fn line_end(c: &[u8], a: usize) -> (b: usize)
    requires
        a <= c@.len(),
    ensures
        a <= b <= c@.len(),
        b == c@.len() || c@[b as int] == 10u8,
        forall|q: int| a <= q < b ==> c@[q] != 10u8,
{
    let mut b = a;
    while b < c.len() && c[b] != 10u8
        invariant
            a <= b <= c@.len(),
            forall|q: int| a <= q < b ==> c@[q] != 10u8,
        decreases c.len() - b,
    {
        b += 1;
    }
    b
}

/// A line starting at `a` ends at one place only.
proof fn lemma_fragment_end(c: Seq<u8>, a: int, b: int, b2: int)
    requires
        is_fragment(c, a, b),
        a <= b2 <= c.len(),
        b2 == c.len() || c[b2] == 10u8,
        forall|q: int| a <= q < b2 ==> c[q] != 10u8,
    ensures
        b == b2,
{
    if b < b2 {
        assert(c[b] != 10u8);
    } else if b2 < b {
        assert(c[b2] != 10u8);
    }
}

/// Whether every line of `c[from..to]` is wrong for `style`
/// (`which` false) or whether some line needs double quotes (`which` true).
fn scan_lines(c: &[u8], which: bool, style: u8) -> (r: bool)
    ensures
        which ==> r == some_line_needs_double(c@),
        !which ==> r == all_lines_wrong(c@, style),
{
    let mut a: usize = 0;
    loop
        invariant
            a <= c@.len(),
            a == 0 || c@[a - 1] == 10u8,
            which ==> forall|x: int, y: int| #[trigger] is_fragment(c@, x, y) && x < a
                ==> !spec_double_quotes_required(c@.subrange(x, y)),
            !which ==> forall|x: int, y: int| #[trigger] is_fragment(c@, x, y) && x < a
                ==> spec_wrong_quotes(c@.subrange(x, y), style),
        decreases c@.len() - a,
    {
        let b = line_end(c, a);
        assert(is_fragment(c@, a as int, b as int));
        let piece = &c[a..b];
        assert(piece@ == c@.subrange(a as int, b as int));
        if which {
            if double_quotes_required(piece) {
                return true;
            }
        } else {
            if !wrong_quotes(piece, style) {
                return false;
            }
        }
        assert forall|x: int, y: int| #[trigger] is_fragment(c@, x, y) && x < b + 1 implies
            (which ==> !spec_double_quotes_required(c@.subrange(x, y)))
            && (!which ==> spec_wrong_quotes(c@.subrange(x, y), style)) by {
            if x < a {
            } else if x == a {
                lemma_fragment_end(c@, a as int, y, b as int);
            } else {
                assert(c@[x - 1] == 10u8);
                assert(c@[x - 1] != 10u8);
            }
        }
        if b == c.len() {
            assert forall|x: int, y: int| #[trigger] is_fragment(c@, x, y) implies x < b + 1 by {}
            return if which { false } else { true };
        }
        a = b + 1;
    }
}

/// What the walk keeps for an open node.
#[derive(Clone, Copy)]
pub struct Frame {
    /// The node is an interpolation (`#{...}` or `#@x`).
    pub is_interp: bool,
    /// The node is a continued string that was judged as a whole; its parts
    /// are ignored.
    pub is_ignored: bool,
    /// The node is an interpolated string, symbol or regexp, or a regexp.
    pub is_dstr: bool,
}

/// Some interpolation on the stack sits inside an interpolated string,
/// symbol or regexp (or a regexp).
pub open spec fn in_interpolation(st: Seq<Frame>) -> bool {
    exists|a: int, b: int| 0 <= a < b < st.len() && #[trigger] st[a].is_dstr && #[trigger] st[b].is_interp
}

/// Some node on the stack is an ignored continued string.
pub open spec fn in_ignored(st: Seq<Frame>) -> bool {
    exists|a: int| 0 <= a < st.len() && #[trigger] st[a].is_ignored
}

/// A record as the specification sees it: offense flag, range, message,
/// detection, fix and the content's bytes.
pub type Record = (bool, usize, usize, u8, u8, u8, Seq<u8>);

/// `o` is the record `r`; its content decodes `r`'s bytes where they are
/// valid UTF-8.
pub open spec fn record_is(o: StringLiteralsOffense, r: Record) -> bool {
    &&& o.is_offense == r.0
    &&& o.start_offset == r.1
    &&& o.end_offset == r.2
    &&& o.message == r.3
    &&& o.detect == r.4
    &&& o.fix == r.5
    &&& valid_utf8(r.6) ==> o.content@ == decode_utf8(r.6)
}

/// The offense for a continued string `[start, end)` whose quotes the style
/// forbids.
pub open spec fn multiline_record(style: u8, start: usize, end: usize) -> Record {
    let message = if style == STYLE_SINGLE { MSG_PREFER_SINGLE } else { MSG_PREFER_DOUBLE };
    (true, start, end, message, DETECT_NONE, FIX_NONE, Seq::empty())
}

/// The opening `[o0, o1)` is a heredoc's (`<<`).
pub open spec fn is_heredoc(s: Seq<u8>, o0: usize, o1: usize) -> bool {
    o1 >= o0 + 2 && s[o0 as int] == 60u8 && s[o0 + 1] == 60u8
}

/// The quote byte of the opening `[o0, o1)` (`"` when it is empty).
pub open spec fn quote_of(s: Seq<u8>, o0: usize, o1: usize) -> u8 {
    if o0 < o1 { s[o0 as int] } else { 34u8 }
}

/// A string literal that spans lines: judged line by line against its
/// opening quote.
pub open spec fn multiline_literal(s: Seq<u8>, t: SyntaxTree, style: u8, i: int, o0: usize, o1: usize)
    -> Option<Record>
{
    let q = quote_of(s, o0, o1);
    let content = match range_at(t, i, kinds::STRING_NODE_CONTENT_LOC as int) {
        Some((c0, c1)) => s.subrange(c0 as int, c1 as int),
        None => Seq::empty(),
    };
    let nd = t.nodes@[i];
    if q == 39u8 && style == STYLE_DOUBLE {
        if all_lines_wrong(content, style) { Some(multiline_record(style, nd.start, nd.end)) } else { None }
    } else if q == 34u8 && style == STYLE_SINGLE {
        if !some_line_needs_double(content) { Some(multiline_record(style, nd.start, nd.end)) } else { None }
    } else {
        None
    }
}

/// The source bytes of node `i`.
pub open spec fn node_src(s: Seq<u8>, t: SyntaxTree, i: int) -> Seq<u8> {
    s.subrange(t.nodes@[i].start as int, t.nodes@[i].end as int)
}

/// What the string literal `i` records under the open frames `st`.
pub open spec fn str_record(s: Seq<u8>, t: SyntaxTree, cfg: Config, st: Seq<Frame>, i: int) -> Option<Record> {
    match range_at(t, i, kinds::STRING_NODE_OPENING_LOC as int) {
        None => None,
        Some((o0, o1)) => {
            let src = node_src(s, t, i);
            let nd = t.nodes@[i];
            if is_heredoc(s, o0, o1) || in_ignored(st) {
                None
            } else if src.contains(10u8) {
                if cfg.consistent_multiline { multiline_literal(s, t, cfg.style, i, o0, o1) } else { None }
            } else if spec_wrong_quotes(src, cfg.style) && !in_interpolation(st) {
                let (message, fix) = if cfg.style == STYLE_SINGLE {
                    (MSG_PREFER_SINGLE, FIX_SINGLE)
                } else {
                    (MSG_PREFER_DOUBLE, FIX_DOUBLE)
                };
                let content = match text_at(t, i, kinds::STRING_NODE_UNESCAPED as int) {
                    Some(u) => u,
                    None => Seq::empty(),
                };
                Some((true, nd.start, nd.end, message, DETECT_OPPOSITE, fix, content))
            } else {
                Some((false, 0, 0, 0, DETECT_CORRECT, FIX_NONE, Seq::empty()))
            }
        },
    }
}

/// The opening quote of part `p` of a continued string, if it has one.
pub open spec fn part_quote(s: Seq<u8>, t: SyntaxTree, p: int) -> Option<u8> {
    let k = t.nodes@[p].kind;
    let f = if k == kinds::STRING_NODE {
        kinds::STRING_NODE_OPENING_LOC
    } else {
        kinds::INTERPOLATED_STRING_NODE_OPENING_LOC
    };
    if k == kinds::STRING_NODE || k == kinds::INTERPOLATED_STRING_NODE {
        match range_at(t, p, f as int) {
            Some((o0, o1)) => Some(quote_of(s, o0, o1)),
            None => None,
        }
    } else {
        None
    }
}

/// Over the first `k` parts: the first opening quote met and whether a
/// different one follows.
pub open spec fn quotes_seen(s: Seq<u8>, t: SyntaxTree, parts: Seq<usize>, k: int) -> (Option<u8>, bool)
    decreases k,
{
    if k <= 0 {
        (None, false)
    } else {
        let (first, mixed) = quotes_seen(s, t, parts, k - 1);
        match part_quote(s, t, parts[k - 1] as int) {
            Some(q) => match first {
                None => (Some(q), mixed),
                Some(f) => (Some(f), mixed || q != f),
            },
            None => (first, mixed),
        }
    }
}

/// Every part is a string literal or a continued string.
pub open spec fn all_string_parts(t: SyntaxTree, parts: Seq<usize>) -> bool {
    forall|j: int| 0 <= j < parts.len() ==> {
        let k = #[trigger] t.nodes@[parts[j] as int].kind;
        k == kinds::STRING_NODE || k == kinds::INTERPOLATED_STRING_NODE
    }
}

/// Every part's quotes are wrong for `style`.
pub open spec fn all_parts_wrong(s: Seq<u8>, t: SyntaxTree, parts: Seq<usize>, style: u8) -> bool {
    forall|j: int| 0 <= j < parts.len() ==> spec_wrong_quotes(#[trigger] node_src(s, t, parts[j] as int), style)
}

/// Some part is a continued string or needs double quotes.
pub open spec fn some_part_needs_double(s: Seq<u8>, t: SyntaxTree, parts: Seq<usize>) -> bool {
    exists|j: int| 0 <= j < parts.len() && #[trigger] part_needs_double(s, t, parts[j] as int)
}

/// Part `p` is a continued string or needs double quotes.
pub open spec fn part_needs_double(s: Seq<u8>, t: SyntaxTree, p: int) -> bool {
    t.nodes@[p].kind == kinds::INTERPOLATED_STRING_NODE || spec_double_quotes_required(node_src(s, t, p))
}

/// A continued string `i` with parts `parts` and opening quote `q`, judged
/// against the style.
pub open spec fn quote_style_record(s: Seq<u8>, t: SyntaxTree, style: u8, i: int, parts: Seq<usize>, q: u8)
    -> Option<Record>
{
    let nd = t.nodes@[i];
    if q == 39u8 && style == STYLE_DOUBLE {
        if all_parts_wrong(s, t, parts, style) { Some(multiline_record(style, nd.start, nd.end)) } else { None }
    } else if q == 34u8 && style == STYLE_SINGLE && !some_part_needs_double(s, t, parts) {
        Some(multiline_record(style, nd.start, nd.end))
    } else {
        None
    }
}

/// The interpolated string `i` in consistent mode: what it records, and
/// whether its parts are then ignored.
pub open spec fn dstr_result(s: Seq<u8>, t: SyntaxTree, style: u8, i: int) -> (Option<Record>, bool) {
    let opening = range_at(t, i, kinds::INTERPOLATED_STRING_NODE_OPENING_LOC as int);
    let parts = list_at(t, i, kinds::INTERPOLATED_STRING_NODE_PARTS as int);
    let nd = t.nodes@[i];
    if opening matches Some((o0, o1)) && is_heredoc(s, o0, o1) {
        (None, false)
    } else if !all_string_parts(t, parts) {
        (None, false)
    } else {
        let (first, mixed) = quotes_seen(s, t, parts, parts.len() as int);
        let rec = if mixed {
            Some((true, nd.start, nd.end, MSG_INCONSISTENT, DETECT_NONE, FIX_NONE, Seq::empty()))
        } else {
            match first {
                Some(q) => quote_style_record(s, t, style, i, parts, q),
                None => match opening {
                    Some((o0, o1)) => quote_style_record(s, t, style, i, parts, quote_of(s, o0, o1)),
                    None => None,
                },
            }
        };
        (rec, true)
    }
}

/// `r` followed by the record in `o`, if any.
pub open spec fn push_opt(r: Seq<Record>, o: Option<Record>) -> Seq<Record> {
    match o {
        Some(x) => r.push(x),
        None => r,
    }
}

/// Node kinds whose interpolations count (interpolated strings, symbols and
/// regexps, and regexps).
pub open spec fn is_dstr_kind(k: u16) -> bool {
    k == kinds::INTERPOLATED_STRING_NODE || k == kinds::INTERPOLATED_SYMBOL_NODE
        || k == kinds::INTERPOLATED_REGULAR_EXPRESSION_NODE || k == kinds::REGULAR_EXPRESSION_NODE
}

/// The frames and records after one event.
pub open spec fn step(s: Seq<u8>, t: SyntaxTree, cfg: Config, st: (Seq<Frame>, Seq<Record>), ev: Event)
    -> (Seq<Frame>, Seq<Record>)
{
    match ev {
        Event::Enter(i) => {
            let k = t.nodes@[i as int].kind;
            let is_interp = k == kinds::EMBEDDED_STATEMENTS_NODE || k == kinds::EMBEDDED_VARIABLE_NODE;
            if k == kinds::INTERPOLATED_STRING_NODE && cfg.consistent_multiline && !in_ignored(st.0) {
                let (rec, ignored) = dstr_result(s, t, cfg.style, i as int);
                (st.0.push(Frame { is_interp, is_ignored: ignored, is_dstr: is_dstr_kind(k) }), push_opt(st.1, rec))
            } else {
                (st.0.push(Frame { is_interp, is_ignored: false, is_dstr: is_dstr_kind(k) }), st.1)
            }
        },
        Event::Leave(_) => (if st.0.len() > 0 { st.0.drop_last() } else { st.0 }, st.1),
        Event::Leaf(i) => {
            if t.nodes@[i as int].kind == kinds::STRING_NODE {
                (st.0, push_opt(st.1, str_record(s, t, cfg, st.0, i as int)))
            } else {
                st
            }
        },
        _ => st,
    }
}

/// The frames and records after the first `k` events.
pub open spec fn run(s: Seq<u8>, t: SyntaxTree, cfg: Config, evs: Seq<Event>, k: int) -> (Seq<Frame>, Seq<Record>)
    decreases k,
{
    if k <= 0 {
        (Seq::empty(), Seq::empty())
    } else {
        step(s, t, cfg, run(s, t, cfg, evs, k - 1), evs[k - 1])
    }
}

/// Along the walk, the frames mirror the open nodes: one frame per open
/// node, an interpolation frame for `#{...}` and `#@x`, a frame whose
/// interpolations count for an interpolated string, symbol or regexp or a
/// regexp, and no ignored frame unless multiline strings are judged whole.
pub proof fn frames_mirror_open_nodes(s: Seq<u8>, t: SyntaxTree, cfg: Config, evs: Seq<Event>, k: int)
    ensures
        run(s, t, cfg, evs, k).0.len() == open_nodes(evs, k).len(),
        forall|a: int| 0 <= a < open_nodes(evs, k).len() ==> {
            let kd = t.nodes@[open_nodes(evs, k)[a] as int].kind;
            let f = #[trigger] run(s, t, cfg, evs, k).0[a];
            &&& f.is_interp == (kd == kinds::EMBEDDED_STATEMENTS_NODE || kd == kinds::EMBEDDED_VARIABLE_NODE)
            &&& f.is_dstr == (kd == kinds::INTERPOLATED_STRING_NODE || kd == kinds::INTERPOLATED_SYMBOL_NODE
                || kd == kinds::INTERPOLATED_REGULAR_EXPRESSION_NODE || kd == kinds::REGULAR_EXPRESSION_NODE)
            &&& !cfg.consistent_multiline ==> !f.is_ignored
        },
    decreases k,
{
    if k > 0 {
        frames_mirror_open_nodes(s, t, cfg, evs, k - 1);
        let st = run(s, t, cfg, evs, k - 1).0;
        let st2 = run(s, t, cfg, evs, k).0;
        let o = open_nodes(evs, k - 1);
        let o2 = open_nodes(evs, k);
        assert forall|a: int| 0 <= a < o2.len() implies {
            let kd = t.nodes@[o2[a] as int].kind;
            let f = #[trigger] st2[a];
            &&& f.is_interp == (kd == kinds::EMBEDDED_STATEMENTS_NODE || kd == kinds::EMBEDDED_VARIABLE_NODE)
            &&& f.is_dstr == (kd == kinds::INTERPOLATED_STRING_NODE || kd == kinds::INTERPOLATED_SYMBOL_NODE
                || kd == kinds::INTERPOLATED_REGULAR_EXPRESSION_NODE || kd == kinds::REGULAR_EXPRESSION_NODE)
            &&& !cfg.consistent_multiline ==> !f.is_ignored
        } by {
            if a < o.len() {
                assert(o2[a] == o[a]);
                assert(st2[a] == st[a]);
            }
        }
    }
}

/// The records only grow along the walk: those after `k` events stay, in
/// place, after `m >= k` events.
pub proof fn records_grow(s: Seq<u8>, t: SyntaxTree, cfg: Config, evs: Seq<Event>, k: int, m: int)
    requires
        k <= m,
    ensures
        run(s, t, cfg, evs, k).1.len() <= run(s, t, cfg, evs, m).1.len(),
        forall|j: int| 0 <= j < run(s, t, cfg, evs, k).1.len() ==> #[trigger] run(s, t, cfg, evs, m).1[j] == run(s, t, cfg, evs, k).1[j],
    decreases m - k,
{
    if k < m {
        records_grow(s, t, cfg, evs, k, m - 1);
        let a = run(s, t, cfg, evs, m - 1).1;
        let b = run(s, t, cfg, evs, m).1;
        assert(b.len() >= a.len());
        assert forall|j: int| 0 <= j < a.len() implies #[trigger] b[j] == a[j] by {}
    }
}

/// A double-quoted single-line literal without `'` and without a backslash
/// is wrong for the single-quote style.
proof fn plain_double_quoted_is_wrong(src: Seq<u8>)
    requires
        src.len() > 0,
        src[0] == 34u8,
        forall|p: int| 0 <= p < src.len() ==> src[p] != 39u8 && src[p] != 92u8,
    ensures
        spec_wrong_quotes(src, STYLE_SINGLE),
{
    assert forall|i: int| !#[trigger] single_quote_at(src, i) by {}
    assert forall|j: int| !#[trigger] lone_escape_at(src, j) by {
        if 0 < j <= src.len() {
            assert(src[j - 1] != 92u8);
        }
    }
}

/// Under the single-quote style, a double-quoted string literal on one line
/// with no `'` and no backslash, reached outside every interpolation, is an
/// offense covering exactly the literal, with the single-quote message and
/// fix.
pub proof fn plain_double_quoted_literal_is_offense(s: Seq<u8>, t: SyntaxTree, cfg: Config, evs: Seq<Event>, k: int,
    i: usize)
    requires
        0 <= k < evs.len(),
        evs[k] == Event::Leaf(i),
        i < t.nodes@.len(),
        t.nodes@[i as int].kind == kinds::STRING_NODE,
        cfg.style == STYLE_SINGLE,
        !cfg.consistent_multiline,
        range_at(t, i as int, kinds::STRING_NODE_OPENING_LOC as int) matches Some((o0, _)) && o0 < s.len() && s[o0 as int]
            == 34u8,
        t.nodes@[i as int].start < t.nodes@[i as int].end <= s.len(),
        s[t.nodes@[i as int].start as int] == 34u8,
        forall|p: int| t.nodes@[i as int].start <= p < t.nodes@[i as int].end ==> s[p] != 10u8 && s[p] != 39u8 && s[p] != 92u8,
        forall|a: int| 0 <= a < open_nodes(evs, k).len() ==> t.nodes@[#[trigger] open_nodes(evs, k)[a] as int].kind
            != kinds::EMBEDDED_STATEMENTS_NODE && t.nodes@[open_nodes(evs, k)[a] as int].kind != kinds::EMBEDDED_VARIABLE_NODE,
    ensures
        exists|j: int| 0 <= j < run(s, t, cfg, evs, evs.len() as int).1.len() && {
            let r = #[trigger] run(s, t, cfg, evs, evs.len() as int).1[j];
            &&& r.0
            &&& r.1 == t.nodes@[i as int].start
            &&& r.2 == t.nodes@[i as int].end
            &&& r.3 == MSG_PREFER_SINGLE
            &&& r.5 == FIX_SINGLE
        },
{
    let nd = t.nodes@[i as int];
    frames_mirror_open_nodes(s, t, cfg, evs, k);
    let st = run(s, t, cfg, evs, k).0;
    let src = node_src(s, t, i as int);
    assert(!in_ignored(st));
    assert(!in_interpolation(st));
    assert(!src.contains(10u8)) by {
        if src.contains(10u8) {
            let q = choose|q: int| 0 <= q < src.len() && src[q] == 10u8;
            assert(s[nd.start + q] == 10u8);
        }
    }
    plain_double_quoted_is_wrong(src);
    let rec = str_record(s, t, cfg, st, i as int)->0;
    assert(str_record(s, t, cfg, st, i as int) is Some);
    assert(rec.0 && rec.1 == nd.start && rec.2 == nd.end && rec.3 == MSG_PREFER_SINGLE && rec.5 == FIX_SINGLE);
    let before = run(s, t, cfg, evs, k).1;
    assert(run(s, t, cfg, evs, k + 1).1 == before.push(rec));
    records_grow(s, t, cfg, evs, k + 1, evs.len() as int);
    assert(run(s, t, cfg, evs, evs.len() as int).1[before.len() as int] == rec);
}

/// Under the double-quote style, a single-quoted string literal on one line
/// with no `"`, no backslash and no `#`, reached outside every
/// interpolation, is an offense covering exactly the literal, with the
/// double-quote message and fix.
pub proof fn plain_single_quoted_literal_is_offense(s: Seq<u8>, t: SyntaxTree, cfg: Config, evs: Seq<Event>, k: int,
    i: usize)
    requires
        0 <= k < evs.len(),
        evs[k] == Event::Leaf(i),
        i < t.nodes@.len(),
        t.nodes@[i as int].kind == kinds::STRING_NODE,
        cfg.style == STYLE_DOUBLE,
        !cfg.consistent_multiline,
        range_at(t, i as int, kinds::STRING_NODE_OPENING_LOC as int) matches Some((o0, _)) && o0 < s.len() && s[o0 as int]
            == 39u8,
        t.nodes@[i as int].start < t.nodes@[i as int].end <= s.len(),
        s[t.nodes@[i as int].start as int] == 39u8,
        forall|p: int| t.nodes@[i as int].start <= p < t.nodes@[i as int].end ==> s[p] != 10u8 && s[p] != 34u8 && s[p] != 92u8
            && s[p] != 35u8,
        forall|a: int| 0 <= a < open_nodes(evs, k).len() ==> t.nodes@[#[trigger] open_nodes(evs, k)[a] as int].kind
            != kinds::EMBEDDED_STATEMENTS_NODE && t.nodes@[open_nodes(evs, k)[a] as int].kind != kinds::EMBEDDED_VARIABLE_NODE,
    ensures
        exists|j: int| 0 <= j < run(s, t, cfg, evs, evs.len() as int).1.len() && {
            let r = #[trigger] run(s, t, cfg, evs, evs.len() as int).1[j];
            &&& r.0
            &&& r.1 == t.nodes@[i as int].start
            &&& r.2 == t.nodes@[i as int].end
            &&& r.3 == MSG_PREFER_DOUBLE
            &&& r.5 == FIX_DOUBLE
        },
{
    let nd = t.nodes@[i as int];
    frames_mirror_open_nodes(s, t, cfg, evs, k);
    let st = run(s, t, cfg, evs, k).0;
    let src = node_src(s, t, i as int);
    assert(!in_ignored(st));
    assert(!in_interpolation(st));
    assert(!src.contains(10u8)) by {
        if src.contains(10u8) {
            let q = choose|q: int| 0 <= q < src.len() && src[q] == 10u8;
            assert(s[nd.start + q] == 10u8);
        }
    }
    assert forall|x: int| !#[trigger] double_keep_at(src, x) by {
        if 0 <= x < src.len() {
            assert(src[x] == s[nd.start + x]);
        }
    }
    assert(spec_wrong_quotes(src, STYLE_DOUBLE));
    let rec = str_record(s, t, cfg, st, i as int)->0;
    assert(str_record(s, t, cfg, st, i as int) is Some);
    assert(rec.0 && rec.1 == nd.start && rec.2 == nd.end && rec.3 == MSG_PREFER_DOUBLE && rec.5 == FIX_DOUBLE);
    let before = run(s, t, cfg, evs, k).1;
    assert(run(s, t, cfg, evs, k + 1).1 == before.push(rec));
    records_grow(s, t, cfg, evs, k + 1, evs.len() as int);
    assert(run(s, t, cfg, evs, evs.len() as int).1[before.len() as int] == rec);
}

/// A string literal on one line reached inside `#{...}` of an interpolated
/// string adds no offense, whatever its quotes.
pub proof fn literal_inside_interpolation_is_no_offense(s: Seq<u8>, t: SyntaxTree, cfg: Config, evs: Seq<Event>,
    k: int, i: usize, a: int, b: int)
    requires
        0 <= k < evs.len(),
        evs[k] == Event::Leaf(i),
        i < t.nodes@.len(),
        t.nodes@[i as int].start <= t.nodes@[i as int].end <= s.len(),
        forall|p: int| t.nodes@[i as int].start <= p < t.nodes@[i as int].end ==> s[p] != 10u8,
        0 <= a < b < open_nodes(evs, k).len(),
        t.nodes@[open_nodes(evs, k)[a] as int].kind == kinds::INTERPOLATED_STRING_NODE,
        t.nodes@[open_nodes(evs, k)[b] as int].kind == kinds::EMBEDDED_STATEMENTS_NODE,
    ensures
        forall|j: int| run(s, t, cfg, evs, k).1.len() <= j < run(s, t, cfg, evs, k + 1).1.len()
            ==> !(#[trigger] run(s, t, cfg, evs, evs.len() as int).1[j]).0,
{
    let nd = t.nodes@[i as int];
    frames_mirror_open_nodes(s, t, cfg, evs, k);
    let st = run(s, t, cfg, evs, k).0;
    assert(st[a].is_dstr && st[b].is_interp);
    assert(in_interpolation(st));
    let src = node_src(s, t, i as int);
    assert(!src.contains(10u8)) by {
        if src.contains(10u8) {
            let q = choose|q: int| 0 <= q < src.len() && src[q] == 10u8;
            assert(s[nd.start + q] == 10u8);
        }
    }
    records_grow(s, t, cfg, evs, k + 1, evs.len() as int);
    let before = run(s, t, cfg, evs, k).1;
    let after = run(s, t, cfg, evs, k + 1).1;
    assert forall|j: int| before.len() <= j < after.len() implies !(#[trigger] run(s, t, cfg, evs, evs.len() as int).1[j]).0 by {
        assert(run(s, t, cfg, evs, evs.len() as int).1[j] == after[j]);
        assert(after == before.push(str_record(s, t, cfg, st, i as int)->0));
    }
}

/// The records of `source`.
pub fn check_string_literals(source: &[u8], cfg: &Config) -> (r: Vec<StringLiteralsOffense>)
    ensures
        exists|t: SyntaxTree| #[trigger] tree_of(t, source@) && (if tree_wf(t) {
            &&& r@.len() == run(source@, t, *cfg, walk_events(t), walk_events(t).len() as int).1.len()
            &&& forall|k: int| 0 <= k < r@.len() ==> record_is(#[trigger] r@[k], run(source@, t, *cfg, walk_events(t), walk_events(t).len() as int).1[k])
        } else {
            r@.len() == 0
        }),
{
    let t = parse_tree(source);
    if !check_tree(&t) {
        assert(tree_of(t, source@));
        return Vec::new();
    }
    let evs = walk(&t);
    let r = string_literals_records(source, &t, &evs, cfg);
    assert(tree_of(t, source@));
    r
}

/// The records of the parsed `source` over the walk `evs`.
pub fn string_literals_records(source: &[u8], t: &SyntaxTree, evs: &Vec<Event>, cfg: &Config)
    -> (r: Vec<StringLiteralsOffense>)
    requires
        tree_wf(*t),
        t.source_len == source@.len(),
        events_in(evs@, t.nodes@.len() as nat),
    ensures
        r@.len() == run(source@, *t, *cfg, evs@, evs@.len() as int).1.len(),
        forall|k: int| 0 <= k < r@.len() ==> record_is(#[trigger] r@[k], run(source@, *t, *cfg, evs@, evs@.len() as int).1[k]),
{
    let mut stack: Vec<Frame> = Vec::new();
    let mut out: Vec<StringLiteralsOffense> = Vec::new();
    let ghost mut recs: Seq<Record> = Seq::empty();
    let mut k: usize = 0;
    while k < evs.len()
        invariant
            tree_wf(*t),
            t.source_len == source@.len(),
            events_in(evs@, t.nodes@.len() as nat),
            k <= evs@.len(),
            (stack@, recs) == run(source@, *t, *cfg, evs@, k as int),
            out@.len() == recs.len(),
            forall|q: int| 0 <= q < out@.len() ==> record_is(#[trigger] out@[q], recs[q]),
        decreases evs.len() - k,
    {
        let ev = evs[k];
        assert(event_node(evs@[k as int]) < t.nodes@.len());
        let ghost prev = recs;
        let ghost old_out = out@;
        match ev {
            Event::Enter(i) => {
                let kd = t.nodes[i].kind;
                let is_interp = kd == kinds::EMBEDDED_STATEMENTS_NODE || kd == kinds::EMBEDDED_VARIABLE_NODE;
                let is_dstr = kd == kinds::INTERPOLATED_STRING_NODE || kd == kinds::INTERPOLATED_SYMBOL_NODE
                    || kd == kinds::INTERPOLATED_REGULAR_EXPRESSION_NODE || kd == kinds::REGULAR_EXPRESSION_NODE;
                let mut ignored = false;
                if kd == kinds::INTERPOLATED_STRING_NODE && cfg.consistent_multiline && !ignored_of(&stack) {
                    let (rec, ign) = dstr_of(source, t, cfg.style, i);
                    ignored = ign;
                    match rec {
                        Some(o) => {
                            proof {
                                recs = recs.push(dstr_result(source@, *t, cfg.style, i as int).0.unwrap());
                            }
                            out.push(o);
                        },
                        None => {},
                    }
                }
                stack.push(Frame { is_interp, is_ignored: ignored, is_dstr });
            },
            Event::Leave(_) => {
                if stack.len() > 0 {
                    stack.pop();
                }
            },
            Event::Leaf(i) => {
                if t.nodes[i].kind == kinds::STRING_NODE {
                    match str_of(source, t, cfg, &stack, i) {
                        Some(o) => {
                            proof {
                                recs = recs.push(str_record(source@, *t, *cfg, stack@, i as int).unwrap());
                            }
                            out.push(o);
                        },
                        None => {},
                    }
                }
            },
            _ => {},
        }
        assert forall|q: int| 0 <= q < out@.len() implies record_is(#[trigger] out@[q], recs[q]) by {
            if q < old_out.len() {
                assert(out@[q] == old_out[q]);
                assert(recs[q] == prev[q]);
            }
        }
        k += 1;
    }
    out
}

/// [`in_ignored`] of the stack.
fn ignored_of(stack: &Vec<Frame>) -> (r: bool)
    ensures
        r == in_ignored(stack@),
{
    let mut j: usize = 0;
    while j < stack.len()
        invariant
            j <= stack@.len(),
            forall|a: int| 0 <= a < j ==> !(#[trigger] stack@[a]).is_ignored,
        decreases stack.len() - j,
    {
        if stack[j].is_ignored {
            assert(stack@[j as int].is_ignored);
            return true;
        }
        j += 1;
    }
    false
}

/// [`in_interpolation`] of the stack.
fn interpolation_of(stack: &Vec<Frame>) -> (r: bool)
    ensures
        r == in_interpolation(stack@),
{
    let mut seen_dstr = false;
    let mut j: usize = 0;
    while j < stack.len()
        invariant
            j <= stack@.len(),
            seen_dstr == exists|a: int| 0 <= a < j && #[trigger] stack@[a].is_dstr,
            forall|a: int, b: int| 0 <= a < b < j ==> !(#[trigger] stack@[a].is_dstr && #[trigger] stack@[b].is_interp),
        decreases stack.len() - j,
    {
        let f = stack[j];
        if f.is_interp && seen_dstr {
            let ghost a = choose|a: int| 0 <= a < j && #[trigger] stack@[a].is_dstr;
            assert(stack@[a].is_dstr && stack@[j as int].is_interp);
            return true;
        }
        if f.is_dstr {
            assert(stack@[j as int].is_dstr);
            seen_dstr = true;
        }
        j += 1;
    }
    false
}

/// The record of a spec [`Record`] that holds no content.
fn plain_record(is_offense: bool, start: usize, end: usize, message: u8, detect: u8, fix: u8)
    -> (o: StringLiteralsOffense)
    ensures
        record_is(o, (is_offense, start, end, message, detect, fix, Seq::empty())),
{
    let o = StringLiteralsOffense {
        is_offense, start_offset: start, end_offset: end, message, detect, fix, content: String::new(),
    };
    assert(decode_utf8(Seq::<u8>::empty()) =~= Seq::<char>::empty());
    o
}

/// [`multiline_record`].
fn multiline_record_of(style: u8, start: usize, end: usize) -> (o: StringLiteralsOffense)
    ensures
        record_is(o, multiline_record(style, start, end)),
{
    let message = if style == STYLE_SINGLE { MSG_PREFER_SINGLE } else { MSG_PREFER_DOUBLE };
    plain_record(true, start, end, message, DETECT_NONE, FIX_NONE)
}

/// [`str_record`].
fn str_of(source: &[u8], t: &SyntaxTree, cfg: &Config, stack: &Vec<Frame>, i: usize) -> (r: Option<StringLiteralsOffense>)
    requires
        tree_wf(*t),
        t.source_len == source@.len(),
        i < t.nodes@.len(),
    ensures
        match str_record(source@, *t, *cfg, stack@, i as int) {
            Some(x) => r matches Some(o) && record_is(o, x),
            None => r is None,
        },
{
    let (o0, o1) = match range(t, i, kinds::STRING_NODE_OPENING_LOC) {
        Some(p) => p,
        None => return None,
    };
    assert(node_wf(*t, i as int, t.source_len as nat));
    if (o1 - o0 >= 2 && source[o0] == 60u8 && source[o0 + 1] == 60u8) || ignored_of(stack) {
        return None;
    }
    let start = t.nodes[i].start;
    let end = t.nodes[i].end;
    let src = &source[start..end];
    assert(src@ == node_src(source@, *t, i as int));
    if contains_newline(src) {
        if cfg.consistent_multiline {
            return multiline_of(source, t, cfg.style, i, o0, o1);
        }
        return None;
    }
    if wrong_quotes(src, cfg.style) && !interpolation_of(stack) {
        let (message, fix) = if cfg.style == STYLE_SINGLE {
            (MSG_PREFER_SINGLE, FIX_SINGLE)
        } else {
            (MSG_PREFER_DOUBLE, FIX_DOUBLE)
        };
        let empty: Vec<u8> = Vec::new();
        let u = match text(t, i, kinds::STRING_NODE_UNESCAPED) {
            Some(u) => u,
            None => &empty,
        };
        let content = lossy_string(u);
        Some(StringLiteralsOffense {
            is_offense: true, start_offset: start, end_offset: end, message, detect: DETECT_OPPOSITE, fix, content,
        })
    } else {
        Some(plain_record(false, 0, 0, 0, DETECT_CORRECT, FIX_NONE))
    }
}

/// Whether `s` holds a newline.
fn contains_newline(s: &[u8]) -> (r: bool)
    ensures
        r == s@.contains(10u8),
{
    let mut j: usize = 0;
    while j < s.len()
        invariant
            j <= s@.len(),
            forall|q: int| 0 <= q < j ==> s@[q] != 10u8,
        decreases s.len() - j,
    {
        if s[j] == 10u8 {
            assert(s@[j as int] == 10u8);
            return true;
        }
        j += 1;
    }
    false
}

/// [`quote_of`].
fn quote_of_exec(source: &[u8], o0: usize, o1: usize) -> (q: u8)
    requires
        o0 <= o1 <= source@.len(),
    ensures
        q == quote_of(source@, o0, o1),
{
    if o0 < o1 { source[o0] } else { 34u8 }
}

/// [`multiline_literal`].
fn multiline_of(source: &[u8], t: &SyntaxTree, style: u8, i: usize, o0: usize, o1: usize)
    -> (r: Option<StringLiteralsOffense>)
    requires
        tree_wf(*t),
        t.source_len == source@.len(),
        i < t.nodes@.len(),
        o0 <= o1 <= source@.len(),
    ensures
        match multiline_literal(source@, *t, style, i as int, o0, o1) {
            Some(x) => r matches Some(o) && record_is(o, x),
            None => r is None,
        },
{
    let q = quote_of_exec(source, o0, o1);
    let content: &[u8] = match range(t, i, kinds::STRING_NODE_CONTENT_LOC) {
        Some((c0, c1)) => &source[c0..c1],
        None => {
            let e = &source[0..0];
            assert(e@ =~= Seq::<u8>::empty());
            e
        },
    };
    let start = t.nodes[i].start;
    let end = t.nodes[i].end;
    if q == 39u8 && style == STYLE_DOUBLE {
        if scan_lines(content, false, style) { Some(multiline_record_of(style, start, end)) } else { None }
    } else if q == 34u8 && style == STYLE_SINGLE {
        if !scan_lines(content, true, style) { Some(multiline_record_of(style, start, end)) } else { None }
    } else {
        None
    }
}

/// [`part_quote`].
fn part_quote_of(source: &[u8], t: &SyntaxTree, p: usize) -> (r: Option<u8>)
    requires
        tree_wf(*t),
        t.source_len == source@.len(),
        p < t.nodes@.len(),
    ensures
        r == part_quote(source@, *t, p as int),
{
    let k = t.nodes[p].kind;
    let f = if k == kinds::STRING_NODE {
        kinds::STRING_NODE_OPENING_LOC
    } else {
        kinds::INTERPOLATED_STRING_NODE_OPENING_LOC
    };
    if k == kinds::STRING_NODE || k == kinds::INTERPOLATED_STRING_NODE {
        match range(t, p, f) {
            Some((o0, o1)) => Some(quote_of_exec(source, o0, o1)),
            None => None,
        }
    } else {
        None
    }
}

/// [`dstr_result`], with the record built.
fn dstr_of(source: &[u8], t: &SyntaxTree, style: u8, i: usize) -> (r: (Option<StringLiteralsOffense>, bool))
    requires
        tree_wf(*t),
        t.source_len == source@.len(),
        i < t.nodes@.len(),
    ensures
        r.1 == dstr_result(source@, *t, style, i as int).1,
        match dstr_result(source@, *t, style, i as int).0 {
            Some(x) => r.0 matches Some(o) && record_is(o, x),
            None => r.0 is None,
        },
{
    let opening = range(t, i, kinds::INTERPOLATED_STRING_NODE_OPENING_LOC);
    if let Some((o0, o1)) = opening {
        if o1 - o0 >= 2 && source[o0] == 60u8 && source[o0 + 1] == 60u8 {
            return (None, false);
        }
    }
    let ghost parts_s = list_at(*t, i as int, kinds::INTERPOLATED_STRING_NODE_PARTS as int);
    let empty: Vec<usize> = Vec::new();
    let parts: &Vec<usize> = match children(t, i, kinds::INTERPOLATED_STRING_NODE_PARTS) {
        Some(p) => p,
        None => &empty,
    };
    assert(parts@ == parts_s);
    assert(indices_in(parts@, t.nodes@.len() as nat));
    // Every part a string literal; the first quote and whether another differs.
    let mut first: Option<u8> = None;
    let mut mixed = false;
    let mut j: usize = 0;
    while j < parts.len()
        invariant
            tree_wf(*t),
            t.source_len == source@.len(),
            i < t.nodes@.len(),
            j <= parts@.len(),
            parts@ == parts_s,
            parts_s == list_at(*t, i as int, kinds::INTERPOLATED_STRING_NODE_PARTS as int),
            opening == range_at(*t, i as int, kinds::INTERPOLATED_STRING_NODE_OPENING_LOC as int),
            !(opening matches Some((o0, o1)) && is_heredoc(source@, o0, o1)),
            indices_in(parts@, t.nodes@.len() as nat),
            (first, mixed) == quotes_seen(source@, *t, parts@, j as int),
            forall|q: int| 0 <= q < j ==> {
                let k = #[trigger] t.nodes@[parts@[q] as int].kind;
                k == kinds::STRING_NODE || k == kinds::INTERPOLATED_STRING_NODE
            },
        decreases parts.len() - j,
    {
        let p = parts[j];
        let k = t.nodes[p].kind;
        if k != kinds::STRING_NODE && k != kinds::INTERPOLATED_STRING_NODE {
            assert(!all_string_parts(*t, parts@));
            return (None, false);
        }
        match part_quote_of(source, t, p) {
            Some(q) => match first {
                None => { first = Some(q); },
                Some(f) => { mixed = mixed || q != f; },
            },
            None => {},
        }
        j += 1;
    }
    assert(all_string_parts(*t, parts@));
    let start = t.nodes[i].start;
    let end = t.nodes[i].end;
    if mixed {
        return (Some(plain_record(true, start, end, MSG_INCONSISTENT, DETECT_NONE, FIX_NONE)), true);
    }
    let q = match first {
        Some(q) => q,
        None => match opening {
            Some((o0, o1)) => quote_of_exec(source, o0, o1),
            None => return (None, true),
        },
    };
    (quote_style_of(source, t, style, i, parts, q), true)
}

/// [`quote_style_record`].
fn quote_style_of(source: &[u8], t: &SyntaxTree, style: u8, i: usize, parts: &Vec<usize>, q: u8)
    -> (r: Option<StringLiteralsOffense>)
    requires
        tree_wf(*t),
        t.source_len == source@.len(),
        i < t.nodes@.len(),
        indices_in(parts@, t.nodes@.len() as nat),
    ensures
        match quote_style_record(source@, *t, style, i as int, parts@, q) {
            Some(x) => r matches Some(o) && record_is(o, x),
            None => r is None,
        },
{
    if q == 39u8 && style == STYLE_DOUBLE {
        let mut j: usize = 0;
        while j < parts.len()
            invariant
                tree_wf(*t),
                t.source_len == source@.len(),
                j <= parts@.len(),
                q == 39u8 && style == STYLE_DOUBLE,
                indices_in(parts@, t.nodes@.len() as nat),
                forall|x: int| 0 <= x < j ==> spec_wrong_quotes(#[trigger] node_src(source@, *t, parts@[x] as int), style),
            decreases parts.len() - j,
        {
            let p = parts[j];
            assert(node_wf(*t, p as int, t.source_len as nat));
            let src = &source[t.nodes[p].start..t.nodes[p].end];
            assert(src@ == node_src(source@, *t, p as int));
            if !wrong_quotes(src, style) {
                assert(!spec_wrong_quotes(node_src(source@, *t, parts@[j as int] as int), style));
                assert(!all_parts_wrong(source@, *t, parts@, style));
                return None;
            }
            j += 1;
        }
        Some(multiline_record_of(style, t.nodes[i].start, t.nodes[i].end))
    } else if q == 34u8 && style == STYLE_SINGLE {
        let mut j: usize = 0;
        while j < parts.len()
            invariant
                tree_wf(*t),
                t.source_len == source@.len(),
                j <= parts@.len(),
                q == 34u8 && style == STYLE_SINGLE,
                !(q == 39u8 && style == STYLE_DOUBLE),
                indices_in(parts@, t.nodes@.len() as nat),
                forall|x: int| 0 <= x < j ==> !#[trigger] part_needs_double(source@, *t, parts@[x] as int),
            decreases parts.len() - j,
        {
            let p = parts[j];
            assert(node_wf(*t, p as int, t.source_len as nat));
            let src = &source[t.nodes[p].start..t.nodes[p].end];
            assert(src@ == node_src(source@, *t, p as int));
            let is_istr = t.nodes[p].kind == kinds::INTERPOLATED_STRING_NODE;
            let needs = double_quotes_required(src);
            if is_istr || needs {
                assert(part_needs_double(source@, *t, parts@[j as int] as int));
                return None;
            }
            assert(!part_needs_double(source@, *t, parts@[j as int] as int));
            j += 1;
        }
        Some(multiline_record_of(style, t.nodes[i].start, t.nodes[i].end))
    } else {
        None
    }
}

} // verus!
