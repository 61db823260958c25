//! `Style/StabbyLambdaParentheses`: the parameters of a stabby lambda
//! (`->(a) { }`) in parentheses or not, per `EnforcedStyle`.
//!
//! Only a lambda with at least one parameter is judged: `-> { }` and
//! `-> () { }` are never offenses. The offense covers the parameter list;
//! when parentheses are unwanted it also gives the `(` and `)` to remove.

use vstd::prelude::*;
use crate::syntax::{SyntaxTree, tree_wf};
use crate::syntax::kinds;
use crate::syntax::access::{child, range, child_at, range_at};
use crate::syntax::flatten::{parse_tree, check_tree, tree_of};
use crate::syntax::walk::{walk_events, walk, Event, events_in, event_node};

verus! {

/// `EnforcedStyle: require_parentheses` (the default).
pub const STYLE_REQUIRE_PARENTHESES: u8 = 0;
/// `EnforcedStyle: require_no_parentheses`.
pub const STYLE_REQUIRE_NO_PARENTHESES: u8 = 1;

/// The message for missing parentheses.
pub const MSG_REQUIRE: &'static str = "Wrap stabby lambda arguments with parentheses.";
/// The message for unwanted parentheses.
pub const MSG_NO_REQUIRE: &'static str = "Do not wrap stabby lambda arguments with parentheses.";

/// `Style/StabbyLambdaParentheses` configuration.
#[derive(Clone, Copy)]
pub struct Config {
    pub style: u8,
}

/// One offense: the parameter list `[start, end)`, and, when parentheses are
/// unwanted, the `(` and `)` ranges (zero otherwise).
pub struct StabbyLambdaParenthesesOffense {
    pub start: usize,
    pub end: usize,
    pub paren_open_start: usize,
    pub paren_open_end: usize,
    pub paren_close_start: usize,
    pub paren_close_end: usize,
    pub message: &'static str,
}

/// An offense as the specification sees it: the six offsets and whether
/// parentheses are wanted (which picks the message).
pub type StabbyRecord = (usize, usize, usize, usize, usize, usize, bool);

/// The offense of lambda `i`, if it has parameters whose parentheses break
/// the style.
pub open spec fn lambda_record(t: SyntaxTree, cfg: Config, i: int) -> Option<StabbyRecord> {
    match child_at(t, i, kinds::LAMBDA_NODE_PARAMETERS as int) {
        Some(bp) => {
            let b = bp as int;
            let want = cfg.style == STYLE_REQUIRE_PARENTHESES;
            let open = range_at(t, b, kinds::BLOCK_PARAMETERS_NODE_OPENING_LOC as int);
            let close = range_at(t, b, kinds::BLOCK_PARAMETERS_NODE_CLOSING_LOC as int);
            if t.nodes@[b].kind != kinds::BLOCK_PARAMETERS_NODE
                || child_at(t, b, kinds::BLOCK_PARAMETERS_NODE_PARAMETERS as int) is None
                || (open is Some) == want {
                None
            } else if want {
                Some((t.nodes@[b].start, t.nodes@[b].end, 0, 0, 0, 0, true))
            } else {
                match (open, close) {
                    (Some((o0, o1)), Some((c0, c1))) => Some((t.nodes@[b].start, t.nodes@[b].end, o0, o1, c0, c1, false)),
                    _ => None,
                }
            }
        },
        None => None,
    }
}

/// `o` is the record `r`.
pub open spec fn record_is(o: StabbyLambdaParenthesesOffense, r: StabbyRecord) -> bool {
    &&& o.start == r.0
    &&& o.end == r.1
    &&& o.paren_open_start == r.2
    &&& o.paren_open_end == r.3
    &&& o.paren_close_start == r.4
    &&& o.paren_close_end == r.5
    &&& o.message@ == if r.6 { MSG_REQUIRE@ } else { MSG_NO_REQUIRE@ }
}

/// The offenses of the first `k` events.
pub open spec fn run(t: SyntaxTree, cfg: Config, evs: Seq<Event>, k: int) -> Seq<StabbyRecord>
    decreases k,
{
    if k <= 0 {
        Seq::empty()
    } else {
        let prev = run(t, cfg, evs, k - 1);
        match evs[k - 1] {
            Event::Enter(i) => if t.nodes@[i as int].kind == kinds::LAMBDA_NODE {
                match lambda_record(t, cfg, i as int) { Some(r) => prev.push(r), None => prev }
            } else {
                prev
            },
            _ => prev,
        }
    }
}

/// The offenses of `source`.
pub fn check_stabby_lambda_parentheses(source: &[u8], config: Config) -> (r: Vec<StabbyLambdaParenthesesOffense>)
    ensures
        exists|t: SyntaxTree| #[trigger] tree_of(t, source@) && (if tree_wf(t) {
            &&& r@.len() == run(t, config, walk_events(t), walk_events(t).len() as int).len()
            &&& forall|k: int| 0 <= k < r@.len() ==> record_is(#[trigger] r@[k], run(t, config, walk_events(t), walk_events(t).len() as int)[k])
        } else {
            r@.len() == 0
        }),
{
    let t = parse_tree(source);
    if !check_tree(&t) {
        assert(tree_of(t, source@));
        return Vec::new();
    }
    let evs = walk(&t);
    let r = stabby_offenses(&t, &evs, config);
    assert(tree_of(t, source@));
    r
}

/// The offenses of a parsed source over the walk `evs`.
pub fn stabby_offenses(t: &SyntaxTree, evs: &Vec<Event>, cfg: Config) -> (r: Vec<StabbyLambdaParenthesesOffense>)
    requires
        tree_wf(*t),
        events_in(evs@, t.nodes@.len() as nat),
    ensures
        r@.len() == run(*t, cfg, evs@, evs@.len() as int).len(),
        forall|k: int| 0 <= k < r@.len() ==> record_is(#[trigger] r@[k], run(*t, cfg, evs@, evs@.len() as int)[k]),
{
    let mut out: Vec<StabbyLambdaParenthesesOffense> = Vec::new();
    let ghost mut recs: Seq<StabbyRecord> = Seq::empty();
    let mut k: usize = 0;
    while k < evs.len()
        invariant
            tree_wf(*t),
            events_in(evs@, t.nodes@.len() as nat),
            k <= evs@.len(),
            recs == run(*t, cfg, evs@, k as int),
            out@.len() == recs.len(),
            forall|q: int| 0 <= q < out@.len() ==> record_is(#[trigger] out@[q], recs[q]),
        decreases evs.len() - k,
    {
        assert(event_node(evs@[k as int]) < t.nodes@.len());
        let ghost prev = recs;
        let ghost old_out = out@;
        match evs[k] {
            Event::Enter(i) => {
                if t.nodes[i].kind == kinds::LAMBDA_NODE {
                    match lambda_offense(t, cfg, i) {
                        Some(o) => {
                            proof {
                                recs = recs.push(lambda_record(*t, cfg, i as int).unwrap());
                            }
                            out.push(o);
                        },
                        None => {},
                    }
                }
            },
            _ => {},
        }
        assert forall|q: int| 0 <= q < out@.len() implies record_is(#[trigger] out@[q], recs[q]) by {
            if q < old_out.len() {
                assert(out@[q] == old_out[q]);
                assert(recs[q] == prev[q]);
            }
        }
        k += 1;
    }
    out
}

/// [`lambda_record`], with the offense built.
fn lambda_offense(t: &SyntaxTree, cfg: Config, i: usize) -> (r: Option<StabbyLambdaParenthesesOffense>)
    requires
        tree_wf(*t),
        i < t.nodes@.len(),
    ensures
        match lambda_record(*t, cfg, i as int) {
            Some(x) => r matches Some(o) && record_is(o, x),
            None => r is None,
        },
{
    let b = match child(t, i, kinds::LAMBDA_NODE_PARAMETERS) {
        Some(b) => b,
        None => return None,
    };
    let want = cfg.style == STYLE_REQUIRE_PARENTHESES;
    let open = range(t, b, kinds::BLOCK_PARAMETERS_NODE_OPENING_LOC);
    let close = range(t, b, kinds::BLOCK_PARAMETERS_NODE_CLOSING_LOC);
    if t.nodes[b].kind != kinds::BLOCK_PARAMETERS_NODE || child(t, b, kinds::BLOCK_PARAMETERS_NODE_PARAMETERS).is_none()
        || open.is_some() == want {
        return None;
    }
    if want {
        Some(StabbyLambdaParenthesesOffense {
            start: t.nodes[b].start, end: t.nodes[b].end, paren_open_start: 0, paren_open_end: 0,
            paren_close_start: 0, paren_close_end: 0, message: MSG_REQUIRE,
        })
    } else {
        match (open, close) {
            (Some((o0, o1)), Some((c0, c1))) => Some(StabbyLambdaParenthesesOffense {
                start: t.nodes[b].start, end: t.nodes[b].end, paren_open_start: o0, paren_open_end: o1,
                paren_close_start: c0, paren_close_end: c1, message: MSG_NO_REQUIRE,
            }),
            _ => None,
        }
    }
}

/// A lambda without parameters (`-> {}`) is never an offense, whatever the
/// style.
pub proof fn lambda_without_parameters_never_offends(t: SyntaxTree, cfg: Config, i: int)
    requires
        child_at(t, i, kinds::LAMBDA_NODE_PARAMETERS as int) is None,
    ensures
        lambda_record(t, cfg, i) is None,
{
}

} // verus!
