//! `Style/StringLiteralsInInterpolation`: the configured quote style for
//! string literals inside an interpolation (`#{...}`, `#@x`) of an
//! interpolated string, symbol or regexp.
//!
//! A single-line string literal with an opening quote (not a heredoc) is an
//! offense when it sits inside such an interpolation and its quotes are
//! wrong for the style; otherwise it is recorded as a style that was met. A
//! literal that spans lines records nothing.

use vstd::prelude::*;
use vstd::utf8::{valid_utf8, decode_utf8};
use crate::syntax::{SyntaxTree, tree_wf, node_wf};
use crate::syntax::kinds;
use crate::syntax::access::{range, text, range_at, text_at};
use crate::syntax::flatten::{parse_tree, check_tree, tree_of};
use crate::syntax::walk::{open_nodes, walk_events, walk, Event, events_in, event_node};
use crate::rules::bytes::lossy_string;
use crate::rules::string_literals::{
    Frame, in_interpolation, is_dstr_kind, is_heredoc, node_src, spec_wrong_quotes, wrong_quotes, STYLE_SINGLE,
    single_quote_at, lone_escape_at, double_keep_at, STYLE_DOUBLE,
};

verus! {

/// Fix by rewriting the literal with single quotes.
pub const FIX_SINGLE: u8 = 0;
/// Fix by rewriting the literal with double quotes.
pub const FIX_DOUBLE: u8 = 1;

/// The opposite style was detected.
pub const DETECT_OPPOSITE: u8 = 0;
/// The configured style was detected.
pub const DETECT_CORRECT: u8 = 1;

/// `Style/StringLiteralsInInterpolation` configuration.
#[derive(Clone, Copy)]
pub struct Config {
    /// `STYLE_SINGLE` or `STYLE_DOUBLE`.
    pub style: u8,
}

/// One record of the walk, in walk order: an offense, or (`is_offense`
/// false) a marker that the configured style was met.
pub struct StringLiteralsInInterpolationOffense {
    pub is_offense: bool,
    pub start_offset: usize,
    pub end_offset: usize,
    pub detect: u8,
    pub fix: u8,
    /// The decoded content of an offending literal; empty otherwise.
    pub content: String,
}

/// A record as the specification sees it: offense flag, range, detection,
/// fix and the content's bytes.
pub type InterpRecord = (bool, usize, usize, u8, u8, Seq<u8>);

/// `o` is the record `r`; its content decodes `r`'s bytes where they are
/// valid UTF-8.
pub open spec fn record_is(o: StringLiteralsInInterpolationOffense, r: InterpRecord) -> bool {
    &&& o.is_offense == r.0
    &&& o.start_offset == r.1
    &&& o.end_offset == r.2
    &&& o.detect == r.3
    &&& o.fix == r.4
    &&& valid_utf8(r.5) ==> o.content@ == decode_utf8(r.5)
}

/// What the string literal `i` records under the open frames `st`.
pub open spec fn str_record(s: Seq<u8>, t: SyntaxTree, cfg: Config, st: Seq<Frame>, i: int) -> Option<InterpRecord> {
    match range_at(t, i, kinds::STRING_NODE_OPENING_LOC as int) {
        None => None,
        Some((o0, o1)) => {
            let src = node_src(s, t, i);
            let nd = t.nodes@[i];
            if is_heredoc(s, o0, o1) || src.contains(10u8) {
                None
            } else if in_interpolation(st) && spec_wrong_quotes(src, cfg.style) {
                let content = match text_at(t, i, kinds::STRING_NODE_UNESCAPED as int) {
                    Some(u) => u,
                    None => Seq::empty(),
                };
                Some((true, nd.start, nd.end, DETECT_OPPOSITE, if cfg.style == STYLE_SINGLE { FIX_SINGLE } else { FIX_DOUBLE },
                    content))
            } else {
                Some((false, 0, 0, DETECT_CORRECT, FIX_SINGLE, Seq::empty()))
            }
        },
    }
}

/// The frames and records after the first `k` events.
pub open spec fn run(s: Seq<u8>, t: SyntaxTree, cfg: Config, evs: Seq<Event>, k: int) -> (Seq<Frame>, Seq<InterpRecord>)
    decreases k,
{
    if k <= 0 {
        (Seq::empty(), Seq::empty())
    } else {
        let (st, recs) = run(s, t, cfg, evs, k - 1);
        match evs[k - 1] {
            Event::Enter(i) => {
                let kd = t.nodes@[i as int].kind;
                (st.push(Frame {
                    is_interp: kd == kinds::EMBEDDED_STATEMENTS_NODE || kd == kinds::EMBEDDED_VARIABLE_NODE,
                    is_ignored: false,
                    is_dstr: is_dstr_kind(kd),
                }), recs)
            },
            Event::Leave(_) => (if st.len() > 0 { st.drop_last() } else { st }, recs),
            Event::Leaf(i) => {
                if t.nodes@[i as int].kind == kinds::STRING_NODE {
                    (st, match str_record(s, t, cfg, st, i as int) { Some(r) => recs.push(r), None => recs })
                } else {
                    (st, recs)
                }
            },
            _ => (st, recs),
        }
    }
}

/// Along the walk, the frames mirror the open nodes: one frame per open
/// node, an interpolation frame for `#{...}` and `#@x`, and a frame whose
/// interpolations count for an interpolated string, symbol or regexp or a
/// regexp.
pub proof fn frames_mirror_open_nodes(s: Seq<u8>, t: SyntaxTree, cfg: Config, evs: Seq<Event>, k: int)
    ensures
        run(s, t, cfg, evs, k).0.len() == open_nodes(evs, k).len(),
        forall|a: int| 0 <= a < open_nodes(evs, k).len() ==> {
            let kd = t.nodes@[open_nodes(evs, k)[a] as int].kind;
            let f = #[trigger] run(s, t, cfg, evs, k).0[a];
            &&& f.is_interp == (kd == kinds::EMBEDDED_STATEMENTS_NODE || kd == kinds::EMBEDDED_VARIABLE_NODE)
            &&& f.is_dstr == (kd == kinds::INTERPOLATED_STRING_NODE || kd == kinds::INTERPOLATED_SYMBOL_NODE
                || kd == kinds::INTERPOLATED_REGULAR_EXPRESSION_NODE || kd == kinds::REGULAR_EXPRESSION_NODE)
        },
    decreases k,
{
    if k > 0 {
        frames_mirror_open_nodes(s, t, cfg, evs, k - 1);
        let st = run(s, t, cfg, evs, k - 1).0;
        let st2 = run(s, t, cfg, evs, k).0;
        let o = open_nodes(evs, k - 1);
        let o2 = open_nodes(evs, k);
        assert forall|a: int| 0 <= a < o2.len() implies {
            let kd = t.nodes@[o2[a] as int].kind;
            let f = #[trigger] st2[a];
            &&& f.is_interp == (kd == kinds::EMBEDDED_STATEMENTS_NODE || kd == kinds::EMBEDDED_VARIABLE_NODE)
            &&& f.is_dstr == (kd == kinds::INTERPOLATED_STRING_NODE || kd == kinds::INTERPOLATED_SYMBOL_NODE
                || kd == kinds::INTERPOLATED_REGULAR_EXPRESSION_NODE || kd == kinds::REGULAR_EXPRESSION_NODE)
        } by {
            if a < o.len() {
                assert(o2[a] == o[a]);
                assert(st2[a] == st[a]);
            }
        }
    }
}

/// The records only grow along the walk: those after `k` events stay, in
/// place, after `m >= k` events.
pub proof fn records_grow(s: Seq<u8>, t: SyntaxTree, cfg: Config, evs: Seq<Event>, k: int, m: int)
    requires
        k <= m,
    ensures
        run(s, t, cfg, evs, k).1.len() <= run(s, t, cfg, evs, m).1.len(),
        forall|j: int| 0 <= j < run(s, t, cfg, evs, k).1.len() ==> #[trigger] run(s, t, cfg, evs, m).1[j] == run(s, t, cfg, evs, k).1[j],
    decreases m - k,
{
    if k < m {
        records_grow(s, t, cfg, evs, k, m - 1);
        let a = run(s, t, cfg, evs, m - 1).1;
        let b = run(s, t, cfg, evs, m).1;
        assert(b.len() >= a.len());
        assert forall|j: int| 0 <= j < a.len() implies #[trigger] b[j] == a[j] by {}
    }
}

/// A string literal reached outside every interpolation (no `#{...}` or
/// `#@x` node open) adds no offense: whatever it records is a style that
/// was met.
pub proof fn literal_outside_interpolation_is_no_offense(s: Seq<u8>, t: SyntaxTree, cfg: Config, evs: Seq<Event>,
    k: int, i: usize)
    requires
        0 <= k < evs.len(),
        evs[k] == Event::Leaf(i),
        forall|a: int| 0 <= a < open_nodes(evs, k).len() ==> t.nodes@[#[trigger] open_nodes(evs, k)[a] as int].kind
            != kinds::EMBEDDED_STATEMENTS_NODE && t.nodes@[open_nodes(evs, k)[a] as int].kind != kinds::EMBEDDED_VARIABLE_NODE,
    ensures
        forall|j: int| run(s, t, cfg, evs, k).1.len() <= j < run(s, t, cfg, evs, k + 1).1.len()
            ==> !(#[trigger] run(s, t, cfg, evs, evs.len() as int).1[j]).0,
{
    frames_mirror_open_nodes(s, t, cfg, evs, k);
    let st = run(s, t, cfg, evs, k).0;
    assert(!in_interpolation(st));
    records_grow(s, t, cfg, evs, k + 1, evs.len() as int);
    let before = run(s, t, cfg, evs, k).1;
    let after = run(s, t, cfg, evs, k + 1).1;
    assert forall|j: int| before.len() <= j < after.len() implies !(#[trigger] run(s, t, cfg, evs, evs.len() as int).1[j]).0 by {
        assert(run(s, t, cfg, evs, evs.len() as int).1[j] == after[j]);
        assert(after == before.push(str_record(s, t, cfg, st, i as int)->0));
    }
}

/// Under the single-quote style, a double-quoted string literal on one line
/// with no `'` and no backslash, reached inside `#{...}` of an interpolated
/// string, is an offense covering exactly the literal, with the single-quote
/// fix.
pub proof fn wrong_quotes_inside_interpolation_is_offense(s: Seq<u8>, t: SyntaxTree, cfg: Config, evs: Seq<Event>,
    k: int, i: usize, a: int, b: int)
    requires
        0 <= k < evs.len(),
        evs[k] == Event::Leaf(i),
        i < t.nodes@.len(),
        t.nodes@[i as int].kind == kinds::STRING_NODE,
        cfg.style == STYLE_SINGLE,
        range_at(t, i as int, kinds::STRING_NODE_OPENING_LOC as int) matches Some((o0, _)) && o0 < s.len() && s[o0 as int]
            == 34u8,
        t.nodes@[i as int].start < t.nodes@[i as int].end <= s.len(),
        s[t.nodes@[i as int].start as int] == 34u8,
        forall|p: int| t.nodes@[i as int].start <= p < t.nodes@[i as int].end ==> s[p] != 10u8 && s[p] != 39u8 && s[p] != 92u8,
        0 <= a < b < open_nodes(evs, k).len(),
        t.nodes@[open_nodes(evs, k)[a] as int].kind == kinds::INTERPOLATED_STRING_NODE,
        t.nodes@[open_nodes(evs, k)[b] as int].kind == kinds::EMBEDDED_STATEMENTS_NODE,
    ensures
        exists|j: int| 0 <= j < run(s, t, cfg, evs, evs.len() as int).1.len() && {
            let r = #[trigger] run(s, t, cfg, evs, evs.len() as int).1[j];
            &&& r.0
            &&& r.1 == t.nodes@[i as int].start
            &&& r.2 == t.nodes@[i as int].end
            &&& r.4 == FIX_SINGLE
        },
{
    let nd = t.nodes@[i as int];
    frames_mirror_open_nodes(s, t, cfg, evs, k);
    let st = run(s, t, cfg, evs, k).0;
    assert(st[a].is_dstr && st[b].is_interp);
    assert(in_interpolation(st));
    let src = node_src(s, t, i as int);
    assert(!src.contains(10u8)) by {
        if src.contains(10u8) {
            let q = choose|q: int| 0 <= q < src.len() && src[q] == 10u8;
            assert(s[nd.start + q] == 10u8);
        }
    }
    assert forall|x: int| !#[trigger] single_quote_at(src, x) by {}
    assert forall|j: int| !#[trigger] lone_escape_at(src, j) by {
        if 0 < j <= src.len() {
            assert(src[j - 1] != 92u8);
        }
    }
    assert(spec_wrong_quotes(src, STYLE_SINGLE));
    let rec = str_record(s, t, cfg, st, i as int)->0;
    assert(str_record(s, t, cfg, st, i as int) is Some);
    assert(rec.0 && rec.1 == nd.start && rec.2 == nd.end && rec.4 == FIX_SINGLE);
    let before = run(s, t, cfg, evs, k).1;
    assert(run(s, t, cfg, evs, k + 1).1 == before.push(rec));
    records_grow(s, t, cfg, evs, k + 1, evs.len() as int);
    assert(run(s, t, cfg, evs, evs.len() as int).1[before.len() as int] == rec);
}

/// Under the double-quote style, a single-quoted string literal on one line
/// with no `"`, no backslash and no `#`, reached inside `#{...}` of an
/// interpolated string, is an offense covering exactly the literal, with the
/// double-quote fix.
pub proof fn single_quotes_inside_interpolation_is_offense(s: Seq<u8>, t: SyntaxTree, cfg: Config, evs: Seq<Event>,
    k: int, i: usize, a: int, b: int)
    requires
        0 <= k < evs.len(),
        evs[k] == Event::Leaf(i),
        i < t.nodes@.len(),
        t.nodes@[i as int].kind == kinds::STRING_NODE,
        cfg.style == STYLE_DOUBLE,
        range_at(t, i as int, kinds::STRING_NODE_OPENING_LOC as int) matches Some((o0, _)) && o0 < s.len() && s[o0 as int]
            == 39u8,
        t.nodes@[i as int].start < t.nodes@[i as int].end <= s.len(),
        s[t.nodes@[i as int].start as int] == 39u8,
        forall|p: int| t.nodes@[i as int].start <= p < t.nodes@[i as int].end ==> s[p] != 10u8 && s[p] != 34u8 && s[p] != 92u8
            && s[p] != 35u8,
        0 <= a < b < open_nodes(evs, k).len(),
        t.nodes@[open_nodes(evs, k)[a] as int].kind == kinds::INTERPOLATED_STRING_NODE,
        t.nodes@[open_nodes(evs, k)[b] as int].kind == kinds::EMBEDDED_STATEMENTS_NODE,
    ensures
        exists|j: int| 0 <= j < run(s, t, cfg, evs, evs.len() as int).1.len() && {
            let r = #[trigger] run(s, t, cfg, evs, evs.len() as int).1[j];
            &&& r.0
            &&& r.1 == t.nodes@[i as int].start
            &&& r.2 == t.nodes@[i as int].end
            &&& r.4 == FIX_DOUBLE
        },
{
    let nd = t.nodes@[i as int];
    frames_mirror_open_nodes(s, t, cfg, evs, k);
    let st = run(s, t, cfg, evs, k).0;
    assert(st[a].is_dstr && st[b].is_interp);
    assert(in_interpolation(st));
    let src = node_src(s, t, i as int);
    assert(!src.contains(10u8)) by {
        if src.contains(10u8) {
            let q = choose|q: int| 0 <= q < src.len() && src[q] == 10u8;
            assert(s[nd.start + q] == 10u8);
        }
    }
    assert forall|x: int| !#[trigger] double_keep_at(src, x) by {
        if 0 <= x < src.len() {
            assert(src[x] == s[nd.start + x]);
        }
    }
    assert(spec_wrong_quotes(src, STYLE_DOUBLE));
    let rec = str_record(s, t, cfg, st, i as int)->0;
    assert(str_record(s, t, cfg, st, i as int) is Some);
    assert(rec.0 && rec.1 == nd.start && rec.2 == nd.end && rec.4 == FIX_DOUBLE);
    let before = run(s, t, cfg, evs, k).1;
    assert(run(s, t, cfg, evs, k + 1).1 == before.push(rec));
    records_grow(s, t, cfg, evs, k + 1, evs.len() as int);
    assert(run(s, t, cfg, evs, evs.len() as int).1[before.len() as int] == rec);
}

/// The records of `source`.
pub fn check_string_literals_in_interpolation(source: &[u8], cfg: &Config)
    -> (r: Vec<StringLiteralsInInterpolationOffense>)
    ensures
        exists|t: SyntaxTree| #[trigger] tree_of(t, source@) && (if tree_wf(t) {
            &&& r@.len() == run(source@, t, *cfg, walk_events(t), walk_events(t).len() as int).1.len()
            &&& forall|k: int| 0 <= k < r@.len() ==> record_is(#[trigger] r@[k], run(source@, t, *cfg, walk_events(t), walk_events(t).len() as int).1[k])
        } else {
            r@.len() == 0
        }),
{
    let t = parse_tree(source);
    if !check_tree(&t) {
        assert(tree_of(t, source@));
        return Vec::new();
    }
    let evs = walk(&t);
    let r = interpolation_records(source, &t, &evs, cfg);
    assert(tree_of(t, source@));
    r
}

/// The records of the parsed `source` over the walk `evs`.
pub fn interpolation_records(source: &[u8], t: &SyntaxTree, evs: &Vec<Event>, cfg: &Config)
    -> (r: Vec<StringLiteralsInInterpolationOffense>)
    requires
        tree_wf(*t),
        t.source_len == source@.len(),
        events_in(evs@, t.nodes@.len() as nat),
    ensures
        r@.len() == run(source@, *t, *cfg, evs@, evs@.len() as int).1.len(),
        forall|k: int| 0 <= k < r@.len() ==> record_is(#[trigger] r@[k], run(source@, *t, *cfg, evs@, evs@.len() as int).1[k]),
{
    let mut stack: Vec<Frame> = Vec::new();
    let mut out: Vec<StringLiteralsInInterpolationOffense> = Vec::new();
    let ghost mut recs: Seq<InterpRecord> = Seq::empty();
    let mut k: usize = 0;
    while k < evs.len()
        invariant
            tree_wf(*t),
            t.source_len == source@.len(),
            events_in(evs@, t.nodes@.len() as nat),
            k <= evs@.len(),
            (stack@, recs) == run(source@, *t, *cfg, evs@, k as int),
            out@.len() == recs.len(),
            forall|q: int| 0 <= q < out@.len() ==> record_is(#[trigger] out@[q], recs[q]),
        decreases evs.len() - k,
    {
        assert(event_node(evs@[k as int]) < t.nodes@.len());
        let ghost prev = recs;
        let ghost old_out = out@;
        match evs[k] {
            Event::Enter(i) => {
                let kd = t.nodes[i].kind;
                stack.push(Frame {
                    is_interp: kd == kinds::EMBEDDED_STATEMENTS_NODE || kd == kinds::EMBEDDED_VARIABLE_NODE,
                    is_ignored: false,
                    is_dstr: kd == kinds::INTERPOLATED_STRING_NODE || kd == kinds::INTERPOLATED_SYMBOL_NODE
                        || kd == kinds::INTERPOLATED_REGULAR_EXPRESSION_NODE || kd == kinds::REGULAR_EXPRESSION_NODE,
                });
            },
            Event::Leave(_) => {
                if stack.len() > 0 {
                    stack.pop();
                }
            },
            Event::Leaf(i) => {
                if t.nodes[i].kind == kinds::STRING_NODE {
                    match str_of(source, t, cfg, &stack, i) {
                        Some(o) => {
                            proof {
                                recs = recs.push(str_record(source@, *t, *cfg, stack@, i as int).unwrap());
                            }
                            out.push(o);
                        },
                        None => {},
                    }
                }
            },
            _ => {},
        }
        assert forall|q: int| 0 <= q < out@.len() implies record_is(#[trigger] out@[q], recs[q]) by {
            if q < old_out.len() {
                assert(out@[q] == old_out[q]);
                assert(recs[q] == prev[q]);
            }
        }
        k += 1;
    }
    out
}

/// [`in_interpolation`] of the stack.
fn interpolation_of(stack: &Vec<Frame>) -> (r: bool)
    ensures
        r == in_interpolation(stack@),
{
    let mut seen_dstr = false;
    let mut j: usize = 0;
    while j < stack.len()
        invariant
            j <= stack@.len(),
            seen_dstr == exists|a: int| 0 <= a < j && #[trigger] stack@[a].is_dstr,
            forall|a: int, b: int| 0 <= a < b < j ==> !(#[trigger] stack@[a].is_dstr && #[trigger] stack@[b].is_interp),
        decreases stack.len() - j,
    {
        let f = stack[j];
        if f.is_interp && seen_dstr {
            let ghost a = choose|a: int| 0 <= a < j && #[trigger] stack@[a].is_dstr;
            assert(stack@[a].is_dstr && stack@[j as int].is_interp);
            return true;
        }
        if f.is_dstr {
            assert(stack@[j as int].is_dstr);
            seen_dstr = true;
        }
        j += 1;
    }
    false
}

/// Whether `s` holds a newline.
fn contains_newline(s: &[u8]) -> (r: bool)
    ensures
        r == s@.contains(10u8),
{
    let mut j: usize = 0;
    while j < s.len()
        invariant
            j <= s@.len(),
            forall|q: int| 0 <= q < j ==> s@[q] != 10u8,
        decreases s.len() - j,
    {
        if s[j] == 10u8 {
            assert(s@[j as int] == 10u8);
            return true;
        }
        j += 1;
    }
    false
}

/// [`str_record`].
fn str_of(source: &[u8], t: &SyntaxTree, cfg: &Config, stack: &Vec<Frame>, i: usize)
    -> (r: Option<StringLiteralsInInterpolationOffense>)
    requires
        tree_wf(*t),
        t.source_len == source@.len(),
        i < t.nodes@.len(),
    ensures
        match str_record(source@, *t, *cfg, stack@, i as int) {
            Some(x) => r matches Some(o) && record_is(o, x),
            None => r is None,
        },
{
    let (o0, o1) = match range(t, i, kinds::STRING_NODE_OPENING_LOC) {
        Some(p) => p,
        None => return None,
    };
    assert(node_wf(*t, i as int, t.source_len as nat));
    let start = t.nodes[i].start;
    let end = t.nodes[i].end;
    let src = &source[start..end];
    assert(src@ == node_src(source@, *t, i as int));
    if (o1 - o0 >= 2 && source[o0] == 60u8 && source[o0 + 1] == 60u8) || contains_newline(src) {
        return None;
    }
    if interpolation_of(stack) && wrong_quotes(src, cfg.style) {
        let empty: Vec<u8> = Vec::new();
        let u = match text(t, i, kinds::STRING_NODE_UNESCAPED) {
            Some(u) => u,
            None => &empty,
        };
        let content = lossy_string(u);
        Some(StringLiteralsInInterpolationOffense {
            is_offense: true, start_offset: start, end_offset: end, detect: DETECT_OPPOSITE,
            fix: if cfg.style == STYLE_SINGLE { FIX_SINGLE } else { FIX_DOUBLE }, content,
        })
    } else {
        let o = StringLiteralsInInterpolationOffense {
            is_offense: false, start_offset: 0, end_offset: 0, detect: DETECT_CORRECT, fix: FIX_SINGLE,
            content: String::new(),
        };
        assert(decode_utf8(Seq::<u8>::empty()) =~= Seq::<char>::empty());
        Some(o)
    }
}

} // verus!
