//! `Layout/SpaceAroundOperators`, the walk: which operators are checked and
//! what each one's surroundings decide.
//!
//! The walk visits the operators of the tree in order: binary operator
//! method calls (not unary, not after `.` or `::`, not `[]`, `!`, `[]=`), the
//! `=` of a setter call, assignments and operator assignments, `&&`/`||`,
//! the `=>` of a hash pair (left to hash alignment in a table-style hash
//! whose pairs do not share lines), the `?` and `:` of a ternary, a class's
//! `<`, `class <<`, a rescue's `=>` and the pattern operators `|` and `=>`.
//!
//! Each operator is widened over the spaces and tabs, then the line breaks,
//! on both sides. An operator after a line break is not checked. Then:
//!
//! 1. `**` (unless its style is `space`) and a `/` before a rational
//!    literal (unless its style is `space`) must have no space around them;
//! 2. any other operator must have a space on both sides ("missing");
//! 3. two spaces on either side are an excess, which the alignment check
//!    decides later: the walk hands such operators on as candidates.
//!
//! It also collects the `=` of optional parameters and endless method
//! definitions, which the alignment check leaves out.

use vstd::prelude::*;
use crate::syntax::{SyntaxTree, tree_wf, node_wf};
use crate::syntax::kinds;
use crate::syntax::access::{child, range, text, children, child_at, range_at, text_at, list_at, args_of,
    args_of_node};
use crate::syntax::flatten::{parse_tree, check_tree, tree_of};
use crate::syntax::walk::{walk_events, walk, Event, events_in};
use crate::rules::lines::{line_start, line_start_of};
use crate::rules::space_scan::{nl_run_start, blank_run_start, surrounding_space_left};
use crate::rules::space_inside_block_braces::{surrounding_right, surrounding_right_of};
use crate::rules::space_before_first_arg::{operator_method, operator_method_of};
use vstd::slice::slice_subrange;

verus! {

/// `no_space` style of `**` and of a `/` before a rational literal.
pub const STYLE_NO_SPACE: u8 = 0;

/// `space` style of `**` and of a `/` before a rational literal.
pub const STYLE_SPACE: u8 = 1;

/// The configuration.
#[derive(Clone, Copy)]
pub struct Config {
    /// `EnforcedStyleForExponentOperator`: `space` allows `a ** b`.
    pub exponent_style: u8,
    /// `EnforcedStyleForRationalLiterals`: `space` allows `1 / 48r`.
    pub rational_style: u8,
    /// `AllowForAlignment`: extra spaces used to align are allowed.
    pub allow_for_alignment: bool,
    /// Hash rockets are aligned as a table, so a `=>` in a hash whose pairs
    /// do not share lines is left alone.
    pub hash_table_style: bool,
    /// Equal signs are force-aligned: an excess before an operator that ends
    /// the spaced range is fixed by adding one space after it.
    pub force_equal_sign_alignment: bool,
}

/// The message an offense reports.
#[derive(Clone, Copy, Debug, PartialEq, Eq, Structural)]
pub enum MessageKind {
    /// "Space around operator `op` detected." (`**`, rational `/`).
    Detected,
    /// "Surrounding space missing for operator `op`."
    Missing,
    /// "Operator `op` should be surrounded by a single space."
    SingleSpace,
}

/// One offense: the operator `[op_start, op_end)`, the spaced range
/// `[ws_start, ws_end)` the fix rewrites to `replacement`, the message and
/// the operator's text.
#[derive(Clone, Debug, PartialEq, Eq)]
pub struct SpaceAroundOperatorsOffense {
    pub op_start: usize,
    pub op_end: usize,
    pub ws_start: usize,
    pub ws_end: usize,
    pub kind: MessageKind,
    pub operator: Vec<u8>,
    pub replacement: Vec<u8>,
}

/// How the alignment check looks at an operator: as a plain assignment, or
/// as any other operator.
#[derive(Clone, Copy, Debug, PartialEq, Eq, Structural)]
pub enum AlignType {
    Assignment,
    Other,
}

/// An operator with an excess of space, for the alignment check: the
/// offense it would be, how to align it, and its right operand.
#[derive(Clone, Debug)]
pub struct ExcessCandidate {
    pub op_start: usize,
    pub op_end: usize,
    pub ws_start: usize,
    pub ws_end: usize,
    pub operator: Vec<u8>,
    pub replacement: Vec<u8>,
    pub align_type: AlignType,
    pub right_start: usize,
    pub right_end: usize,
}

/// What the walk finds: the offenses it decides, the excess candidates, and
/// the offsets of the `=` of optional parameters and endless definitions.
pub struct WalkResult {
    pub decided: Vec<SpaceAroundOperatorsOffense>,
    pub excess: Vec<ExcessCandidate>,
    pub def_equals: Vec<usize>,
}

/// One operator to check: how to align it, the operator, its right operand,
/// and whether that operand is a rational literal.
#[derive(Clone, Copy, Debug, PartialEq, Eq, Structural)]
pub struct OpCheck {
    pub align: AlignType,
    pub op_start: usize,
    pub op_end: usize,
    pub right_start: usize,
    pub right_end: usize,
    pub rational: bool,
}

/// Where a node's right operand comes from: one of its child fields, or the
/// node itself.
#[derive(Clone, Copy, PartialEq, Eq, Structural)]
pub enum RightOperand {
    Field(usize),
    Whole,
}

/// The operator field, the right operand and the alignment type of the node
/// kinds whose operator is checked as soon as both are there.
pub open spec fn simple_operator(k: u16) -> Option<(usize, RightOperand, AlignType)> {
    if k == kinds::LOCAL_VARIABLE_WRITE_NODE {
        Some((kinds::LOCAL_VARIABLE_WRITE_NODE_OPERATOR_LOC, RightOperand::Field(kinds::LOCAL_VARIABLE_WRITE_NODE_VALUE), AlignType::Assignment))
    } else if k == kinds::INSTANCE_VARIABLE_WRITE_NODE {
        Some((kinds::INSTANCE_VARIABLE_WRITE_NODE_OPERATOR_LOC, RightOperand::Field(kinds::INSTANCE_VARIABLE_WRITE_NODE_VALUE), AlignType::Assignment))
    } else if k == kinds::CLASS_VARIABLE_WRITE_NODE {
        Some((kinds::CLASS_VARIABLE_WRITE_NODE_OPERATOR_LOC, RightOperand::Field(kinds::CLASS_VARIABLE_WRITE_NODE_VALUE), AlignType::Assignment))
    } else if k == kinds::GLOBAL_VARIABLE_WRITE_NODE {
        Some((kinds::GLOBAL_VARIABLE_WRITE_NODE_OPERATOR_LOC, RightOperand::Field(kinds::GLOBAL_VARIABLE_WRITE_NODE_VALUE), AlignType::Assignment))
    } else if k == kinds::CONSTANT_WRITE_NODE {
        Some((kinds::CONSTANT_WRITE_NODE_OPERATOR_LOC, RightOperand::Field(kinds::CONSTANT_WRITE_NODE_VALUE), AlignType::Assignment))
    } else if k == kinds::CONSTANT_PATH_WRITE_NODE {
        Some((kinds::CONSTANT_PATH_WRITE_NODE_OPERATOR_LOC, RightOperand::Field(kinds::CONSTANT_PATH_WRITE_NODE_VALUE), AlignType::Assignment))
    } else if k == kinds::MULTI_WRITE_NODE {
        Some((kinds::MULTI_WRITE_NODE_OPERATOR_LOC, RightOperand::Field(kinds::MULTI_WRITE_NODE_VALUE), AlignType::Assignment))
    } else if k == kinds::LOCAL_VARIABLE_OPERATOR_WRITE_NODE {
        Some((kinds::LOCAL_VARIABLE_OPERATOR_WRITE_NODE_BINARY_OPERATOR_LOC, RightOperand::Field(kinds::LOCAL_VARIABLE_OPERATOR_WRITE_NODE_VALUE), AlignType::Other))
    } else if k == kinds::INSTANCE_VARIABLE_OPERATOR_WRITE_NODE {
        Some((kinds::INSTANCE_VARIABLE_OPERATOR_WRITE_NODE_BINARY_OPERATOR_LOC, RightOperand::Field(kinds::INSTANCE_VARIABLE_OPERATOR_WRITE_NODE_VALUE), AlignType::Other))
    } else if k == kinds::CLASS_VARIABLE_OPERATOR_WRITE_NODE {
        Some((kinds::CLASS_VARIABLE_OPERATOR_WRITE_NODE_BINARY_OPERATOR_LOC, RightOperand::Field(kinds::CLASS_VARIABLE_OPERATOR_WRITE_NODE_VALUE), AlignType::Other))
    } else if k == kinds::GLOBAL_VARIABLE_OPERATOR_WRITE_NODE {
        Some((kinds::GLOBAL_VARIABLE_OPERATOR_WRITE_NODE_BINARY_OPERATOR_LOC, RightOperand::Field(kinds::GLOBAL_VARIABLE_OPERATOR_WRITE_NODE_VALUE), AlignType::Other))
    } else if k == kinds::CONSTANT_OPERATOR_WRITE_NODE {
        Some((kinds::CONSTANT_OPERATOR_WRITE_NODE_BINARY_OPERATOR_LOC, RightOperand::Field(kinds::CONSTANT_OPERATOR_WRITE_NODE_VALUE), AlignType::Other))
    } else if k == kinds::CONSTANT_PATH_OPERATOR_WRITE_NODE {
        Some((kinds::CONSTANT_PATH_OPERATOR_WRITE_NODE_BINARY_OPERATOR_LOC, RightOperand::Field(kinds::CONSTANT_PATH_OPERATOR_WRITE_NODE_VALUE), AlignType::Other))
    } else if k == kinds::CALL_OPERATOR_WRITE_NODE {
        Some((kinds::CALL_OPERATOR_WRITE_NODE_BINARY_OPERATOR_LOC, RightOperand::Field(kinds::CALL_OPERATOR_WRITE_NODE_VALUE), AlignType::Other))
    } else if k == kinds::INDEX_OPERATOR_WRITE_NODE {
        Some((kinds::INDEX_OPERATOR_WRITE_NODE_BINARY_OPERATOR_LOC, RightOperand::Field(kinds::INDEX_OPERATOR_WRITE_NODE_VALUE), AlignType::Other))
    } else if k == kinds::LOCAL_VARIABLE_OR_WRITE_NODE {
        Some((kinds::LOCAL_VARIABLE_OR_WRITE_NODE_OPERATOR_LOC, RightOperand::Field(kinds::LOCAL_VARIABLE_OR_WRITE_NODE_VALUE), AlignType::Other))
    } else if k == kinds::INSTANCE_VARIABLE_OR_WRITE_NODE {
        Some((kinds::INSTANCE_VARIABLE_OR_WRITE_NODE_OPERATOR_LOC, RightOperand::Field(kinds::INSTANCE_VARIABLE_OR_WRITE_NODE_VALUE), AlignType::Other))
    } else if k == kinds::CLASS_VARIABLE_OR_WRITE_NODE {
        Some((kinds::CLASS_VARIABLE_OR_WRITE_NODE_OPERATOR_LOC, RightOperand::Field(kinds::CLASS_VARIABLE_OR_WRITE_NODE_VALUE), AlignType::Other))
    } else if k == kinds::GLOBAL_VARIABLE_OR_WRITE_NODE {
        Some((kinds::GLOBAL_VARIABLE_OR_WRITE_NODE_OPERATOR_LOC, RightOperand::Field(kinds::GLOBAL_VARIABLE_OR_WRITE_NODE_VALUE), AlignType::Other))
    } else if k == kinds::CONSTANT_OR_WRITE_NODE {
        Some((kinds::CONSTANT_OR_WRITE_NODE_OPERATOR_LOC, RightOperand::Field(kinds::CONSTANT_OR_WRITE_NODE_VALUE), AlignType::Other))
    } else if k == kinds::CONSTANT_PATH_OR_WRITE_NODE {
        Some((kinds::CONSTANT_PATH_OR_WRITE_NODE_OPERATOR_LOC, RightOperand::Field(kinds::CONSTANT_PATH_OR_WRITE_NODE_VALUE), AlignType::Other))
    } else if k == kinds::CALL_OR_WRITE_NODE {
        Some((kinds::CALL_OR_WRITE_NODE_OPERATOR_LOC, RightOperand::Field(kinds::CALL_OR_WRITE_NODE_VALUE), AlignType::Other))
    } else if k == kinds::INDEX_OR_WRITE_NODE {
        Some((kinds::INDEX_OR_WRITE_NODE_OPERATOR_LOC, RightOperand::Field(kinds::INDEX_OR_WRITE_NODE_VALUE), AlignType::Other))
    } else if k == kinds::LOCAL_VARIABLE_AND_WRITE_NODE {
        Some((kinds::LOCAL_VARIABLE_AND_WRITE_NODE_OPERATOR_LOC, RightOperand::Field(kinds::LOCAL_VARIABLE_AND_WRITE_NODE_VALUE), AlignType::Other))
    } else if k == kinds::INSTANCE_VARIABLE_AND_WRITE_NODE {
        Some((kinds::INSTANCE_VARIABLE_AND_WRITE_NODE_OPERATOR_LOC, RightOperand::Field(kinds::INSTANCE_VARIABLE_AND_WRITE_NODE_VALUE), AlignType::Other))
    } else if k == kinds::CLASS_VARIABLE_AND_WRITE_NODE {
        Some((kinds::CLASS_VARIABLE_AND_WRITE_NODE_OPERATOR_LOC, RightOperand::Field(kinds::CLASS_VARIABLE_AND_WRITE_NODE_VALUE), AlignType::Other))
    } else if k == kinds::GLOBAL_VARIABLE_AND_WRITE_NODE {
        Some((kinds::GLOBAL_VARIABLE_AND_WRITE_NODE_OPERATOR_LOC, RightOperand::Field(kinds::GLOBAL_VARIABLE_AND_WRITE_NODE_VALUE), AlignType::Other))
    } else if k == kinds::CONSTANT_AND_WRITE_NODE {
        Some((kinds::CONSTANT_AND_WRITE_NODE_OPERATOR_LOC, RightOperand::Field(kinds::CONSTANT_AND_WRITE_NODE_VALUE), AlignType::Other))
    } else if k == kinds::CONSTANT_PATH_AND_WRITE_NODE {
        Some((kinds::CONSTANT_PATH_AND_WRITE_NODE_OPERATOR_LOC, RightOperand::Field(kinds::CONSTANT_PATH_AND_WRITE_NODE_VALUE), AlignType::Other))
    } else if k == kinds::CALL_AND_WRITE_NODE {
        Some((kinds::CALL_AND_WRITE_NODE_OPERATOR_LOC, RightOperand::Field(kinds::CALL_AND_WRITE_NODE_VALUE), AlignType::Other))
    } else if k == kinds::INDEX_AND_WRITE_NODE {
        Some((kinds::INDEX_AND_WRITE_NODE_OPERATOR_LOC, RightOperand::Field(kinds::INDEX_AND_WRITE_NODE_VALUE), AlignType::Other))
    } else if k == kinds::AND_NODE {
        Some((kinds::AND_NODE_OPERATOR_LOC, RightOperand::Field(kinds::AND_NODE_RIGHT), AlignType::Other))
    } else if k == kinds::OR_NODE {
        Some((kinds::OR_NODE_OPERATOR_LOC, RightOperand::Field(kinds::OR_NODE_RIGHT), AlignType::Other))
    } else if k == kinds::CLASS_NODE {
        Some((kinds::CLASS_NODE_INHERITANCE_OPERATOR_LOC, RightOperand::Field(kinds::CLASS_NODE_SUPERCLASS), AlignType::Other))
    } else if k == kinds::SINGLETON_CLASS_NODE {
        Some((kinds::SINGLETON_CLASS_NODE_OPERATOR_LOC, RightOperand::Field(kinds::SINGLETON_CLASS_NODE_EXPRESSION), AlignType::Other))
    } else if k == kinds::RESCUE_NODE {
        Some((kinds::RESCUE_NODE_OPERATOR_LOC, RightOperand::Field(kinds::RESCUE_NODE_REFERENCE), AlignType::Other))
    } else if k == kinds::ALTERNATION_PATTERN_NODE {
        Some((kinds::ALTERNATION_PATTERN_NODE_OPERATOR_LOC, RightOperand::Whole, AlignType::Other))
    } else if k == kinds::CAPTURE_PATTERN_NODE {
        Some((kinds::CAPTURE_PATTERN_NODE_OPERATOR_LOC, RightOperand::Whole, AlignType::Other))
    } else if k == kinds::MATCH_REQUIRED_NODE {
        Some((kinds::MATCH_REQUIRED_NODE_OPERATOR_LOC, RightOperand::Whole, AlignType::Other))
    } else {
        None
    }
}

/// The byte range of node `n`.
pub open spec fn node_range(t: SyntaxTree, n: int) -> (usize, usize) {
    (t.nodes@[n].start, t.nodes@[n].end)
}

/// `[a, b)` holds the single byte `c`.
pub open spec fn one_byte(s: Seq<u8>, a: int, b: int, c: u8) -> bool {
    b == a + 1 && 0 <= a < s.len() && s[a] == c
}

/// `[a, b)` holds `=>`.
pub open spec fn is_rocket(s: Seq<u8>, a: int, b: int) -> bool {
    b == a + 2 && 0 <= a && a + 1 < s.len() && s[a] == 61u8 && s[a + 1] == 62u8
}

/// The first argument of call `i` (its arguments only).
pub open spec fn first_arg(t: SyntaxTree, i: int) -> Option<usize> {
    let a = args_of(t, i, kinds::CALL_NODE_ARGUMENTS as int);
    if a.len() > 0 { Some(a[0]) } else { None }
}

/// `[]`, `!` or `[]=`: operator methods that are never checked.
pub open spec fn irregular_method(n: Seq<u8>) -> bool {
    (n.len() == 1 && n[0] == 33u8) || (n.len() == 2 && n[0] == 91u8 && n[1] == 93u8) || (n.len() == 3 && n[0]
        == 91u8 && n[1] == 93u8 && n[2] == 61u8)
}

/// Call `i` is a binary operator: an operator method, not `[]`, `!` or
/// `[]=`, with no `.` or `::`, whose selector does not start the call.
pub open spec fn regular_operator(t: SyntaxTree, i: int) -> bool {
    &&& range_at(t, i, kinds::CALL_NODE_MESSAGE_LOC as int) matches Some((m0, _)) && m0 != t.nodes@[i].start
    &&& range_at(t, i, kinds::CALL_NODE_CALL_OPERATOR_LOC as int) is None
    &&& text_at(t, i, kinds::CALL_NODE_NAME as int) matches Some(n) && operator_method(n) && !irregular_method(n)
}

/// The operator of call `i`: the `=` of a setter with its first argument,
/// or the selector of a binary operator with its first argument (or the
/// selector's end) and whether that argument is a rational literal.
pub open spec fn call_checks(t: SyntaxTree, i: int) -> Seq<OpCheck> {
    match range_at(t, i, kinds::CALL_NODE_EQUAL_LOC as int) {
        Some((e0, e1)) => match first_arg(t, i) {
            Some(a) => seq![OpCheck { align: AlignType::Other, op_start: e0, op_end: e1, right_start: t.nodes@[a as int].start, right_end: t.nodes@[a as int].end, rational: false }],
            None => Seq::empty(),
        },
        None => if regular_operator(t, i) {
            let (m0, m1) = range_at(t, i, kinds::CALL_NODE_MESSAGE_LOC as int)->0;
            match first_arg(t, i) {
                Some(a) => seq![OpCheck { align: AlignType::Other, op_start: m0, op_end: m1, right_start: t.nodes@[a as int].start, right_end: t.nodes@[a as int].end, rational: t.nodes@[a as int].kind == kinds::RATIONAL_NODE }],
                None => seq![OpCheck { align: AlignType::Other, op_start: m0, op_end: m1, right_start: m1, right_end: m1, rational: false }],
            }
        } else {
            Seq::empty()
        },
    }
}

/// The range of the statements in field `f` of node `i`, or the empty range
/// at `at` without them.
pub open spec fn branch_range(t: SyntaxTree, i: int, f: int, at: usize) -> (usize, usize) {
    match child_at(t, i, f) {
        Some(b) => node_range(t, b as int),
        None => (at, at),
    }
}

/// The `?` and `:` of ternary `i`, each with its branch.
pub open spec fn ternary_checks(s: Seq<u8>, t: SyntaxTree, i: int) -> Seq<OpCheck> {
    match (range_at(t, i, kinds::IF_NODE_THEN_KEYWORD_LOC as int), child_at(t, i, kinds::IF_NODE_SUBSEQUENT as int)) {
        (Some((q0, q1)), Some(e)) => if one_byte(s, q0 as int, q1 as int, 63u8) && t.nodes@[e as int].kind
            == kinds::ELSE_NODE {
            match range_at(t, e as int, kinds::ELSE_NODE_ELSE_KEYWORD_LOC as int) {
                Some((c0, c1)) => if one_byte(s, c0 as int, c1 as int, 58u8) {
                    let qb = branch_range(t, i, kinds::IF_NODE_STATEMENTS as int, q1);
                    let cb = branch_range(t, e as int, kinds::ELSE_NODE_STATEMENTS as int, c1);
                    seq![
                        OpCheck { align: AlignType::Other, op_start: q0, op_end: q1, right_start: qb.0, right_end: qb.1, rational: false },
                        OpCheck { align: AlignType::Other, op_start: c0, op_end: c1, right_start: cb.0, right_end: cb.1, rational: false },
                    ]
                } else {
                    Seq::empty()
                },
                None => Seq::empty(),
            }
        } else {
            Seq::empty()
        },
        _ => Seq::empty(),
    }
}

/// The `=>` of pair `i`, with the whole pair as its right operand, unless
/// the enclosing hash is aligned as a table and its pairs do not share lines
/// (`same_line` is the innermost enclosing hash's answer, `false` with
/// none).
pub open spec fn pair_checks(s: Seq<u8>, t: SyntaxTree, cfg: Config, i: int, same_line: bool) -> Seq<OpCheck> {
    match range_at(t, i, kinds::ASSOC_NODE_OPERATOR_LOC as int) {
        Some((o0, o1)) => if is_rocket(s, o0 as int, o1 as int) && !(cfg.hash_table_style && !same_line) {
            seq![OpCheck { align: AlignType::Other, op_start: o0, op_end: o1, right_start: t.nodes@[i].start, right_end: t.nodes@[i].end, rational: false }]
        } else {
            Seq::empty()
        },
        None => Seq::empty(),
    }
}

/// The operator of a node of [`simple_operator`] kind, when it and the right
/// operand are there.
pub open spec fn simple_checks(t: SyntaxTree, i: int) -> Seq<OpCheck> {
    match simple_operator(t.nodes@[i].kind) {
        Some((of, rf, al)) => match range_at(t, i, of as int) {
            Some((o0, o1)) => match rf {
                RightOperand::Whole => seq![OpCheck { align: al, op_start: o0, op_end: o1, right_start: t.nodes@[i].start, right_end: t.nodes@[i].end, rational: false }],
                RightOperand::Field(f) => match child_at(t, i, f as int) {
                    Some(c) => seq![OpCheck { align: al, op_start: o0, op_end: o1, right_start: t.nodes@[c as int].start, right_end: t.nodes@[c as int].end, rational: false }],
                    None => Seq::empty(),
                },
            },
            None => Seq::empty(),
        },
        None => Seq::empty(),
    }
}

/// The operators that node `i` puts to the check, in order.
pub open spec fn node_checks(s: Seq<u8>, t: SyntaxTree, cfg: Config, i: int, same_line: bool) -> Seq<OpCheck> {
    let k = t.nodes@[i].kind;
    if k == kinds::CALL_NODE {
        call_checks(t, i)
    } else if k == kinds::ASSOC_NODE {
        pair_checks(s, t, cfg, i, same_line)
    } else if k == kinds::IF_NODE {
        ternary_checks(s, t, i)
    } else {
        simple_checks(t, i)
    }
}

/// The `=` that node `i` adds to those the alignment check leaves out: an
/// optional parameter's, or an endless definition's.
pub open spec fn node_def_equals(t: SyntaxTree, i: int) -> Seq<usize> {
    let k = t.nodes@[i].kind;
    if k == kinds::OPTIONAL_PARAMETER_NODE {
        match range_at(t, i, kinds::OPTIONAL_PARAMETER_NODE_OPERATOR_LOC as int) {
            Some((o0, _)) => seq![o0],
            None => Seq::empty(),
        }
    } else if k == kinds::DEF_NODE {
        match range_at(t, i, kinds::DEF_NODE_EQUAL_LOC as int) {
            Some((e0, _)) => seq![e0],
            None => Seq::empty(),
        }
    } else {
        Seq::empty()
    }
}

/// A hash or a hash without braces.
pub open spec fn is_hash(k: u16) -> bool {
    k == kinds::HASH_NODE || k == kinds::KEYWORD_HASH_NODE
}

/// The last byte of node `n` (its start when it is empty).
pub open spec fn last_byte(t: SyntaxTree, n: int) -> int {
    let nd = t.nodes@[n];
    if nd.end >= 1 && nd.end - 1 >= nd.start { nd.end - 1 } else { nd.start as int }
}

/// Among the elements `els[k..]`, with `prev` the last pair before them:
/// two consecutive pairs share a line (the end of one and the start of the
/// next, or the start of one and the end of the next).
pub open spec fn pairs_share_line_from(s: Seq<u8>, t: SyntaxTree, els: Seq<usize>, k: int, prev: Option<usize>) -> bool
    decreases els.len() - k,
{
    if k < 0 || k >= els.len() {
        false
    } else {
        let e = els[k];
        if t.nodes@[e as int].kind != kinds::ASSOC_NODE {
            pairs_share_line_from(s, t, els, k + 1, prev)
        } else {
            let here = match prev {
                Some(p) => line_start(s, last_byte(t, p as int)) == line_start(s, t.nodes@[e as int].start as int)
                    || line_start(s, t.nodes@[p as int].start as int) == line_start(s, last_byte(t, e as int)),
                None => false,
            };
            here || pairs_share_line_from(s, t, els, k + 1, Some(e))
        }
    }
}

/// Two consecutive pairs of hash `i` share a line.
pub open spec fn pairs_on_same_line(s: Seq<u8>, t: SyntaxTree, i: int) -> bool {
    let f = if t.nodes@[i].kind == kinds::HASH_NODE { kinds::HASH_NODE_ELEMENTS } else { kinds::KEYWORD_HASH_NODE_ELEMENTS };
    pairs_share_line_from(s, t, list_at(t, i, f as int), 0, None)
}

/// The walk's state: the answers of the open hashes, innermost last; the
/// operators to check; the `=` left out of alignment.
#[verifier::ext_equal]
pub struct OpWalk {
    pub hashes: Seq<bool>,
    pub checks: Seq<OpCheck>,
    pub def_equals: Seq<usize>,
}

/// The innermost open hash's answer, `false` with none.
pub open spec fn top(w: OpWalk) -> bool {
    if w.hashes.len() > 0 { w.hashes.last() } else { false }
}

/// The walk after event `e`.
pub open spec fn op_step(s: Seq<u8>, t: SyntaxTree, cfg: Config, w: OpWalk, e: Event) -> OpWalk {
    match e {
        Event::Enter(i) => if i < t.nodes@.len() {
            OpWalk {
                hashes: if is_hash(t.nodes@[i as int].kind) { w.hashes.push(pairs_on_same_line(s, t, i as int)) } else { w.hashes },
                checks: w.checks + node_checks(s, t, cfg, i as int, top(w)),
                def_equals: w.def_equals + node_def_equals(t, i as int),
            }
        } else {
            w
        },
        Event::EnterRescue(i) => if i < t.nodes@.len() {
            OpWalk { hashes: w.hashes, checks: w.checks + node_checks(s, t, cfg, i as int, top(w)), def_equals: w.def_equals + node_def_equals(t, i as int) }
        } else {
            w
        },
        Event::Leave(i) => if i < t.nodes@.len() && is_hash(t.nodes@[i as int].kind) && w.hashes.len() > 0 {
            OpWalk { hashes: w.hashes.drop_last(), checks: w.checks, def_equals: w.def_equals }
        } else {
            w
        },
        _ => w,
    }
}

/// The walk over the first `k` events.
pub open spec fn op_run(s: Seq<u8>, t: SyntaxTree, cfg: Config, evs: Seq<Event>, k: int) -> OpWalk
    decreases k,
{
    if k <= 0 {
        OpWalk { hashes: Seq::empty(), checks: Seq::empty(), def_equals: Seq::empty() }
    } else {
        op_step(s, t, cfg, op_run(s, t, cfg, evs, k - 1), evs[k - 1])
    }
}

/// A Ruby `\s`: space, tab, carriage return, newline, form feed, vertical
/// tab.
pub open spec fn ruby_ws(b: u8) -> bool {
    b == 32u8 || b == 9u8 || b == 13u8 || b == 10u8 || b == 12u8 || b == 11u8
}

/// A byte `String#strip` removes: a Ruby `\s` or NUL.
pub open spec fn strip_byte(b: u8) -> bool {
    ruby_ws(b) || b == 0u8
}

/// Past the strippable bytes of `r` from `a`.
pub open spec fn strip_start(r: Seq<u8>, a: int) -> int
    decreases r.len() - a,
{
    if 0 <= a < r.len() && strip_byte(r[a]) { strip_start(r, a + 1) } else { a }
}

/// Back over the strippable bytes of `r` before `b`, not past `a`.
pub open spec fn strip_end(r: Seq<u8>, a: int, b: int) -> int
    decreases b - a,
{
    if a < b && 0 < b <= r.len() && strip_byte(r[b - 1]) { strip_end(r, a, b - 1) } else { b }
}

/// `r` without the strippable bytes at either end.
pub open spec fn strip(r: Seq<u8>) -> Seq<u8> {
    let a = strip_start(r, 0);
    r.subrange(a, strip_end(r, a, r.len() as int))
}

/// `r` holds `**`.
pub open spec fn has_double_star(r: Seq<u8>) -> bool {
    exists|k: int| 0 <= k && k + 1 < r.len() && #[trigger] r[k] == 42u8 && r[k + 1] == 42u8
}

/// `r` holds `/`.
pub open spec fn has_slash(r: Seq<u8>) -> bool {
    exists|k: int| 0 <= k < r.len() && #[trigger] r[k] == 47u8
}

/// What the fix writes in place of the spaced range `r`: `**` or `/` with
/// no space where that is the style; the stripped operator, a space before
/// and the line break after, when `r` ends with a line break; `r` and one
/// more space where equal signs are force-aligned and `r` does not end with
/// a space; else the stripped operator between two spaces.
pub open spec fn replacement(cfg: Config, r: Seq<u8>, rational: bool) -> Seq<u8> {
    if has_double_star(r) && cfg.exponent_style != STYLE_SPACE {
        seq![42u8, 42u8]
    } else if has_slash(r) && rational && cfg.rational_style != STYLE_SPACE {
        seq![47u8]
    } else if r.len() > 0 && r.last() == 10u8 {
        seq![32u8] + strip(r) + seq![10u8]
    } else if cfg.force_equal_sign_alignment && !(r.len() > 0 && r.last() == 32u8) {
        r.push(32u8)
    } else {
        seq![32u8] + strip(r) + seq![32u8]
    }
}

/// The operator must have no space around it: `**` unless its style is
/// `space`, or `/` before a rational literal unless its style is `space`.
pub open spec fn no_surrounding_space(s: Seq<u8>, cfg: Config, c: OpCheck) -> bool {
    let (a, b) = (c.op_start as int, c.op_end as int);
    if b == a + 2 && 0 <= a && a + 1 < s.len() && s[a] == 42u8 && s[a + 1] == 42u8 {
        cfg.exponent_style != STYLE_SPACE
    } else if one_byte(s, a, b, 47u8) {
        c.rational && cfg.rational_style != STYLE_SPACE
    } else {
        false
    }
}

/// `w` starts and ends with a Ruby `\s`.
pub open spec fn surrounded(w: Seq<u8>) -> bool {
    w.len() > 0 && ruby_ws(w[0]) && ruby_ws(w.last())
}

/// `w` starts or ends with two spaces.
pub open spec fn has_excess(w: Seq<u8>) -> bool {
    w.len() >= 2 && ((w[0] == 32u8 && w[1] == 32u8) || (w[w.len() - 2] == 32u8 && w[w.len() - 1] == 32u8))
}

/// The spaced range of check `c`: over spaces and tabs, then line breaks,
/// on both sides of the operator.
pub open spec fn spaced(s: Seq<u8>, c: OpCheck) -> (int, int) {
    (nl_run_start(s, blank_run_start(s, c.op_start as int)), surrounding_right(s, c.op_end as int))
}

/// What check `c` finds: nothing, or the message with the spaced range and
/// the replacement. An operator whose spaced range starts with a line break
/// is not checked.
pub open spec fn outcome(s: Seq<u8>, cfg: Config, c: OpCheck) -> Option<(MessageKind, int, int, Seq<u8>)> {
    let (w0, w1) = spaced(s, c);
    let w = s.subrange(w0, w1);
    let repl = replacement(cfg, w, c.rational);
    if w.len() > 0 && w[0] == 10u8 {
        None
    } else if no_surrounding_space(s, cfg, c) {
        if w == s.subrange(c.op_start as int, c.op_end as int) {
            None
        } else {
            Some((MessageKind::Detected, w0, w1, repl))
        }
    } else if !surrounded(w) {
        Some((MessageKind::Missing, w0, w1, repl))
    } else if has_excess(w) {
        Some((MessageKind::SingleSpace, w0, w1, repl))
    } else {
        None
    }
}

/// An offense's fields as plain values.
pub type OffenseView = (usize, usize, int, int, MessageKind, Seq<u8>, Seq<u8>);

/// An excess candidate's fields as plain values.
pub type ExcessView = (usize, usize, int, int, Seq<u8>, Seq<u8>, AlignType, usize, usize);

/// The offenses the walk decides from `cs` (messages other than the single
/// space one), in order.
pub open spec fn decided_of(s: Seq<u8>, cfg: Config, cs: Seq<OpCheck>) -> Seq<OffenseView>
    decreases cs.len(),
{
    if cs.len() == 0 {
        Seq::empty()
    } else {
        let c = cs.last();
        decided_of(s, cfg, cs.drop_last()) + match outcome(s, cfg, c) {
            Some((k, w0, w1, repl)) => if k != MessageKind::SingleSpace {
                seq![(c.op_start, c.op_end, w0, w1, k, s.subrange(c.op_start as int, c.op_end as int), repl)]
            } else {
                Seq::empty()
            },
            None => Seq::empty(),
        }
    }
}

/// The excess candidates of `cs`, in order.
pub open spec fn excess_of(s: Seq<u8>, cfg: Config, cs: Seq<OpCheck>) -> Seq<ExcessView>
    decreases cs.len(),
{
    if cs.len() == 0 {
        Seq::empty()
    } else {
        let c = cs.last();
        excess_of(s, cfg, cs.drop_last()) + match outcome(s, cfg, c) {
            Some((k, w0, w1, repl)) => if k == MessageKind::SingleSpace {
                seq![(c.op_start, c.op_end, w0, w1, s.subrange(c.op_start as int, c.op_end as int), repl, c.align, c.right_start, c.right_end)]
            } else {
                Seq::empty()
            },
            None => Seq::empty(),
        }
    }
}

/// Offense `o` as plain values.
pub open spec fn offense_view(o: SpaceAroundOperatorsOffense) -> OffenseView {
    (o.op_start, o.op_end, o.ws_start as int, o.ws_end as int, o.kind, o.operator@, o.replacement@)
}

/// Candidate `x` as plain values.
pub open spec fn excess_view(x: ExcessCandidate) -> ExcessView {
    (x.op_start, x.op_end, x.ws_start as int, x.ws_end as int, x.operator@, x.replacement@, x.align_type, x.right_start, x.right_end)
}

/// [`simple_operator`].
fn simple_operator_of(k: u16) -> (r: Option<(usize, RightOperand, AlignType)>)
    ensures
        r == simple_operator(k),
{
    if k == kinds::LOCAL_VARIABLE_WRITE_NODE {
        Some((kinds::LOCAL_VARIABLE_WRITE_NODE_OPERATOR_LOC, RightOperand::Field(kinds::LOCAL_VARIABLE_WRITE_NODE_VALUE), AlignType::Assignment))
    } else if k == kinds::INSTANCE_VARIABLE_WRITE_NODE {
        Some((kinds::INSTANCE_VARIABLE_WRITE_NODE_OPERATOR_LOC, RightOperand::Field(kinds::INSTANCE_VARIABLE_WRITE_NODE_VALUE), AlignType::Assignment))
    } else if k == kinds::CLASS_VARIABLE_WRITE_NODE {
        Some((kinds::CLASS_VARIABLE_WRITE_NODE_OPERATOR_LOC, RightOperand::Field(kinds::CLASS_VARIABLE_WRITE_NODE_VALUE), AlignType::Assignment))
    } else if k == kinds::GLOBAL_VARIABLE_WRITE_NODE {
        Some((kinds::GLOBAL_VARIABLE_WRITE_NODE_OPERATOR_LOC, RightOperand::Field(kinds::GLOBAL_VARIABLE_WRITE_NODE_VALUE), AlignType::Assignment))
    } else if k == kinds::CONSTANT_WRITE_NODE {
        Some((kinds::CONSTANT_WRITE_NODE_OPERATOR_LOC, RightOperand::Field(kinds::CONSTANT_WRITE_NODE_VALUE), AlignType::Assignment))
    } else if k == kinds::CONSTANT_PATH_WRITE_NODE {
        Some((kinds::CONSTANT_PATH_WRITE_NODE_OPERATOR_LOC, RightOperand::Field(kinds::CONSTANT_PATH_WRITE_NODE_VALUE), AlignType::Assignment))
    } else if k == kinds::MULTI_WRITE_NODE {
        Some((kinds::MULTI_WRITE_NODE_OPERATOR_LOC, RightOperand::Field(kinds::MULTI_WRITE_NODE_VALUE), AlignType::Assignment))
    } else if k == kinds::LOCAL_VARIABLE_OPERATOR_WRITE_NODE {
        Some((kinds::LOCAL_VARIABLE_OPERATOR_WRITE_NODE_BINARY_OPERATOR_LOC, RightOperand::Field(kinds::LOCAL_VARIABLE_OPERATOR_WRITE_NODE_VALUE), AlignType::Other))
    } else if k == kinds::INSTANCE_VARIABLE_OPERATOR_WRITE_NODE {
        Some((kinds::INSTANCE_VARIABLE_OPERATOR_WRITE_NODE_BINARY_OPERATOR_LOC, RightOperand::Field(kinds::INSTANCE_VARIABLE_OPERATOR_WRITE_NODE_VALUE), AlignType::Other))
    } else if k == kinds::CLASS_VARIABLE_OPERATOR_WRITE_NODE {
        Some((kinds::CLASS_VARIABLE_OPERATOR_WRITE_NODE_BINARY_OPERATOR_LOC, RightOperand::Field(kinds::CLASS_VARIABLE_OPERATOR_WRITE_NODE_VALUE), AlignType::Other))
    } else if k == kinds::GLOBAL_VARIABLE_OPERATOR_WRITE_NODE {
        Some((kinds::GLOBAL_VARIABLE_OPERATOR_WRITE_NODE_BINARY_OPERATOR_LOC, RightOperand::Field(kinds::GLOBAL_VARIABLE_OPERATOR_WRITE_NODE_VALUE), AlignType::Other))
    } else if k == kinds::CONSTANT_OPERATOR_WRITE_NODE {
        Some((kinds::CONSTANT_OPERATOR_WRITE_NODE_BINARY_OPERATOR_LOC, RightOperand::Field(kinds::CONSTANT_OPERATOR_WRITE_NODE_VALUE), AlignType::Other))
    } else if k == kinds::CONSTANT_PATH_OPERATOR_WRITE_NODE {
        Some((kinds::CONSTANT_PATH_OPERATOR_WRITE_NODE_BINARY_OPERATOR_LOC, RightOperand::Field(kinds::CONSTANT_PATH_OPERATOR_WRITE_NODE_VALUE), AlignType::Other))
    } else if k == kinds::CALL_OPERATOR_WRITE_NODE {
        Some((kinds::CALL_OPERATOR_WRITE_NODE_BINARY_OPERATOR_LOC, RightOperand::Field(kinds::CALL_OPERATOR_WRITE_NODE_VALUE), AlignType::Other))
    } else if k == kinds::INDEX_OPERATOR_WRITE_NODE {
        Some((kinds::INDEX_OPERATOR_WRITE_NODE_BINARY_OPERATOR_LOC, RightOperand::Field(kinds::INDEX_OPERATOR_WRITE_NODE_VALUE), AlignType::Other))
    } else if k == kinds::LOCAL_VARIABLE_OR_WRITE_NODE {
        Some((kinds::LOCAL_VARIABLE_OR_WRITE_NODE_OPERATOR_LOC, RightOperand::Field(kinds::LOCAL_VARIABLE_OR_WRITE_NODE_VALUE), AlignType::Other))
    } else if k == kinds::INSTANCE_VARIABLE_OR_WRITE_NODE {
        Some((kinds::INSTANCE_VARIABLE_OR_WRITE_NODE_OPERATOR_LOC, RightOperand::Field(kinds::INSTANCE_VARIABLE_OR_WRITE_NODE_VALUE), AlignType::Other))
    } else if k == kinds::CLASS_VARIABLE_OR_WRITE_NODE {
        Some((kinds::CLASS_VARIABLE_OR_WRITE_NODE_OPERATOR_LOC, RightOperand::Field(kinds::CLASS_VARIABLE_OR_WRITE_NODE_VALUE), AlignType::Other))
    } else if k == kinds::GLOBAL_VARIABLE_OR_WRITE_NODE {
        Some((kinds::GLOBAL_VARIABLE_OR_WRITE_NODE_OPERATOR_LOC, RightOperand::Field(kinds::GLOBAL_VARIABLE_OR_WRITE_NODE_VALUE), AlignType::Other))
    } else if k == kinds::CONSTANT_OR_WRITE_NODE {
        Some((kinds::CONSTANT_OR_WRITE_NODE_OPERATOR_LOC, RightOperand::Field(kinds::CONSTANT_OR_WRITE_NODE_VALUE), AlignType::Other))
    } else if k == kinds::CONSTANT_PATH_OR_WRITE_NODE {
        Some((kinds::CONSTANT_PATH_OR_WRITE_NODE_OPERATOR_LOC, RightOperand::Field(kinds::CONSTANT_PATH_OR_WRITE_NODE_VALUE), AlignType::Other))
    } else if k == kinds::CALL_OR_WRITE_NODE {
        Some((kinds::CALL_OR_WRITE_NODE_OPERATOR_LOC, RightOperand::Field(kinds::CALL_OR_WRITE_NODE_VALUE), AlignType::Other))
    } else if k == kinds::INDEX_OR_WRITE_NODE {
        Some((kinds::INDEX_OR_WRITE_NODE_OPERATOR_LOC, RightOperand::Field(kinds::INDEX_OR_WRITE_NODE_VALUE), AlignType::Other))
    } else if k == kinds::LOCAL_VARIABLE_AND_WRITE_NODE {
        Some((kinds::LOCAL_VARIABLE_AND_WRITE_NODE_OPERATOR_LOC, RightOperand::Field(kinds::LOCAL_VARIABLE_AND_WRITE_NODE_VALUE), AlignType::Other))
    } else if k == kinds::INSTANCE_VARIABLE_AND_WRITE_NODE {
        Some((kinds::INSTANCE_VARIABLE_AND_WRITE_NODE_OPERATOR_LOC, RightOperand::Field(kinds::INSTANCE_VARIABLE_AND_WRITE_NODE_VALUE), AlignType::Other))
    } else if k == kinds::CLASS_VARIABLE_AND_WRITE_NODE {
        Some((kinds::CLASS_VARIABLE_AND_WRITE_NODE_OPERATOR_LOC, RightOperand::Field(kinds::CLASS_VARIABLE_AND_WRITE_NODE_VALUE), AlignType::Other))
    } else if k == kinds::GLOBAL_VARIABLE_AND_WRITE_NODE {
        Some((kinds::GLOBAL_VARIABLE_AND_WRITE_NODE_OPERATOR_LOC, RightOperand::Field(kinds::GLOBAL_VARIABLE_AND_WRITE_NODE_VALUE), AlignType::Other))
    } else if k == kinds::CONSTANT_AND_WRITE_NODE {
        Some((kinds::CONSTANT_AND_WRITE_NODE_OPERATOR_LOC, RightOperand::Field(kinds::CONSTANT_AND_WRITE_NODE_VALUE), AlignType::Other))
    } else if k == kinds::CONSTANT_PATH_AND_WRITE_NODE {
        Some((kinds::CONSTANT_PATH_AND_WRITE_NODE_OPERATOR_LOC, RightOperand::Field(kinds::CONSTANT_PATH_AND_WRITE_NODE_VALUE), AlignType::Other))
    } else if k == kinds::CALL_AND_WRITE_NODE {
        Some((kinds::CALL_AND_WRITE_NODE_OPERATOR_LOC, RightOperand::Field(kinds::CALL_AND_WRITE_NODE_VALUE), AlignType::Other))
    } else if k == kinds::INDEX_AND_WRITE_NODE {
        Some((kinds::INDEX_AND_WRITE_NODE_OPERATOR_LOC, RightOperand::Field(kinds::INDEX_AND_WRITE_NODE_VALUE), AlignType::Other))
    } else if k == kinds::AND_NODE {
        Some((kinds::AND_NODE_OPERATOR_LOC, RightOperand::Field(kinds::AND_NODE_RIGHT), AlignType::Other))
    } else if k == kinds::OR_NODE {
        Some((kinds::OR_NODE_OPERATOR_LOC, RightOperand::Field(kinds::OR_NODE_RIGHT), AlignType::Other))
    } else if k == kinds::CLASS_NODE {
        Some((kinds::CLASS_NODE_INHERITANCE_OPERATOR_LOC, RightOperand::Field(kinds::CLASS_NODE_SUPERCLASS), AlignType::Other))
    } else if k == kinds::SINGLETON_CLASS_NODE {
        Some((kinds::SINGLETON_CLASS_NODE_OPERATOR_LOC, RightOperand::Field(kinds::SINGLETON_CLASS_NODE_EXPRESSION), AlignType::Other))
    } else if k == kinds::RESCUE_NODE {
        Some((kinds::RESCUE_NODE_OPERATOR_LOC, RightOperand::Field(kinds::RESCUE_NODE_REFERENCE), AlignType::Other))
    } else if k == kinds::ALTERNATION_PATTERN_NODE {
        Some((kinds::ALTERNATION_PATTERN_NODE_OPERATOR_LOC, RightOperand::Whole, AlignType::Other))
    } else if k == kinds::CAPTURE_PATTERN_NODE {
        Some((kinds::CAPTURE_PATTERN_NODE_OPERATOR_LOC, RightOperand::Whole, AlignType::Other))
    } else if k == kinds::MATCH_REQUIRED_NODE {
        Some((kinds::MATCH_REQUIRED_NODE_OPERATOR_LOC, RightOperand::Whole, AlignType::Other))
    } else {
        None
    }
}


/// Checks are well placed: each operator lies in a source of `len` bytes.
pub open spec fn checks_ok(cs: Seq<OpCheck>, len: nat) -> bool {
    forall|j: int| 0 <= j < cs.len() ==> (#[trigger] cs[j]).op_start <= cs[j].op_end <= len
}

/// The range in field `f` of node `i` lies in the source.
proof fn lemma_range_in(t: SyntaxTree, i: int, f: int)
    requires
        tree_wf(t),
        0 <= i < t.nodes@.len(),
    ensures
        range_at(t, i, f) matches Some((a, b)) ==> a <= b <= t.source_len,
        child_at(t, i, f) matches Some(c) ==> c < t.nodes@.len(),
{
    assert(node_wf(t, i, t.source_len as nat));
    if 0 <= f < t.nodes@[i].fields@.len() {
        assert(crate::syntax::field_range_in(t.nodes@[i].fields@[f], t.source_len as nat));
        assert(crate::syntax::field_in(t.nodes@[i].fields@[f], t.nodes@.len() as nat));
    }
}

/// Appends the operators of call `i` ([`call_checks`]).
fn call_checks_into(s: &[u8], t: &SyntaxTree, i: usize, out: &mut Vec<OpCheck>)
    requires
        tree_wf(*t),
        t.source_len == s@.len(),
        i < t.nodes@.len(),
        checks_ok(old(out)@, s@.len()),
    ensures
        final(out)@ == old(out)@ + call_checks(*t, i as int),
        checks_ok(final(out)@, s@.len()),
{
    proof {
        lemma_range_in(*t, i as int, kinds::CALL_NODE_EQUAL_LOC as int);
        lemma_range_in(*t, i as int, kinds::CALL_NODE_MESSAGE_LOC as int);
    }
    let first = match args_of_node(t, i, kinds::CALL_NODE_ARGUMENTS) {
        Some(a) => if a.len() > 0 { Some(a[0]) } else { None },
        None => None,
    };
    assert(first == first_arg(*t, i as int));
    match range(t, i, kinds::CALL_NODE_EQUAL_LOC) {
        Some((e0, e1)) => {
            match first {
                Some(a) => {
                    out.push(OpCheck { align: AlignType::Other, op_start: e0, op_end: e1, right_start: t.nodes[a].start, right_end: t.nodes[a].end, rational: false });
                },
                None => {},
            }
        },
        None => {
            if regular_operator_of(t, i) {
                let (m0, m1) = match range(t, i, kinds::CALL_NODE_MESSAGE_LOC) {
                    Some(m) => m,
                    None => {
                        return;
                    },
                };
                match first {
                    Some(a) => {
                        out.push(OpCheck { align: AlignType::Other, op_start: m0, op_end: m1, right_start: t.nodes[a].start, right_end: t.nodes[a].end, rational: t.nodes[a].kind == kinds::RATIONAL_NODE });
                    },
                    None => {
                        out.push(OpCheck { align: AlignType::Other, op_start: m0, op_end: m1, right_start: m1, right_end: m1, rational: false });
                    },
                }
            }
        },
    }
    assert(final(out)@ =~= old(out)@ + call_checks(*t, i as int));
}

/// [`irregular_method`].
fn irregular_method_of(n: &Vec<u8>) -> (r: bool)
    ensures
        r == irregular_method(n@),
{
    (n.len() == 1 && n[0] == 33u8) || (n.len() == 2 && n[0] == 91u8 && n[1] == 93u8) || (n.len() == 3 && n[0]
        == 91u8 && n[1] == 93u8 && n[2] == 61u8)
}

/// [`regular_operator`].
fn regular_operator_of(t: &SyntaxTree, i: usize) -> (r: bool)
    requires
        tree_wf(*t),
        i < t.nodes@.len(),
    ensures
        r == regular_operator(*t, i as int),
{
    let msg_ok = match range(t, i, kinds::CALL_NODE_MESSAGE_LOC) {
        Some((m0, _)) => m0 != t.nodes[i].start,
        None => false,
    };
    let no_dot = range(t, i, kinds::CALL_NODE_CALL_OPERATOR_LOC).is_none();
    let name_ok = match text(t, i, kinds::CALL_NODE_NAME) {
        Some(n) => operator_method_of(n) && !irregular_method_of(n),
        None => false,
    };
    msg_ok && no_dot && name_ok
}

/// The range of the statements in field `f` of node `i` ([`branch_range`]).
fn branch_range_of(t: &SyntaxTree, i: usize, f: usize, at: usize) -> (r: (usize, usize))
    requires
        tree_wf(*t),
        i < t.nodes@.len(),
    ensures
        r == branch_range(*t, i as int, f as int, at),
{
    match child(t, i, f) {
        Some(b) => (t.nodes[b].start, t.nodes[b].end),
        None => (at, at),
    }
}

/// Appends the operators of ternary `i` ([`ternary_checks`]).
fn ternary_checks_into(s: &[u8], t: &SyntaxTree, i: usize, out: &mut Vec<OpCheck>)
    requires
        tree_wf(*t),
        t.source_len == s@.len(),
        i < t.nodes@.len(),
        checks_ok(old(out)@, s@.len()),
    ensures
        final(out)@ == old(out)@ + ternary_checks(s@, *t, i as int),
        checks_ok(final(out)@, s@.len()),
{
    proof {
        lemma_range_in(*t, i as int, kinds::IF_NODE_THEN_KEYWORD_LOC as int);
        lemma_range_in(*t, i as int, kinds::IF_NODE_SUBSEQUENT as int);
    }
    match (range(t, i, kinds::IF_NODE_THEN_KEYWORD_LOC), child(t, i, kinds::IF_NODE_SUBSEQUENT)) {
        (Some((q0, q1)), Some(e)) => {
            if q0 < s.len() && q1 == q0 + 1 && s[q0] == 63u8 && t.nodes[e].kind == kinds::ELSE_NODE {
                proof {
                    lemma_range_in(*t, e as int, kinds::ELSE_NODE_ELSE_KEYWORD_LOC as int);
                }
                match range(t, e, kinds::ELSE_NODE_ELSE_KEYWORD_LOC) {
                    Some((c0, c1)) => {
                        if c0 < s.len() && c1 == c0 + 1 && s[c0] == 58u8 {
                            let qb = branch_range_of(t, i, kinds::IF_NODE_STATEMENTS, q1);
                            let cb = branch_range_of(t, e, kinds::ELSE_NODE_STATEMENTS, c1);
                            out.push(OpCheck { align: AlignType::Other, op_start: q0, op_end: q1, right_start: qb.0, right_end: qb.1, rational: false });
                            out.push(OpCheck { align: AlignType::Other, op_start: c0, op_end: c1, right_start: cb.0, right_end: cb.1, rational: false });
                        }
                    },
                    None => {},
                }
            }
        },
        _ => {},
    }
    assert(final(out)@ =~= old(out)@ + ternary_checks(s@, *t, i as int));
}

/// Appends the `=>` of pair `i` ([`pair_checks`]).
fn pair_checks_into(s: &[u8], t: &SyntaxTree, cfg: Config, i: usize, same_line: bool, out: &mut Vec<OpCheck>)
    requires
        tree_wf(*t),
        t.source_len == s@.len(),
        i < t.nodes@.len(),
        checks_ok(old(out)@, s@.len()),
    ensures
        final(out)@ == old(out)@ + pair_checks(s@, *t, cfg, i as int, same_line),
        checks_ok(final(out)@, s@.len()),
{
    proof {
        lemma_range_in(*t, i as int, kinds::ASSOC_NODE_OPERATOR_LOC as int);
    }
    match range(t, i, kinds::ASSOC_NODE_OPERATOR_LOC) {
        Some((o0, o1)) => {
            let rocket = o1 >= o0 && o1 - o0 == 2 && o0 + 1 < s.len() && s[o0] == 61u8 && s[o0 + 1] == 62u8;
            if rocket && !(cfg.hash_table_style && !same_line) {
                out.push(OpCheck { align: AlignType::Other, op_start: o0, op_end: o1, right_start: t.nodes[i].start, right_end: t.nodes[i].end, rational: false });
            }
        },
        None => {},
    }
    assert(final(out)@ =~= old(out)@ + pair_checks(s@, *t, cfg, i as int, same_line));
}

/// Appends the operator of node `i` of [`simple_operator`] kind
/// ([`simple_checks`]).
fn simple_checks_into(t: &SyntaxTree, i: usize, out: &mut Vec<OpCheck>)
    requires
        tree_wf(*t),
        i < t.nodes@.len(),
        checks_ok(old(out)@, t.source_len as nat),
    ensures
        final(out)@ == old(out)@ + simple_checks(*t, i as int),
        checks_ok(final(out)@, t.source_len as nat),
{
    match simple_operator_of(t.nodes[i].kind) {
        Some((of, rf, al)) => {
            proof {
                lemma_range_in(*t, i as int, of as int);
            }
            match range(t, i, of) {
                Some((o0, o1)) => {
                    match rf {
                        RightOperand::Whole => {
                            out.push(OpCheck { align: al, op_start: o0, op_end: o1, right_start: t.nodes[i].start, right_end: t.nodes[i].end, rational: false });
                        },
                        RightOperand::Field(f) => {
                            match child(t, i, f) {
                                Some(c) => {
                                    out.push(OpCheck { align: al, op_start: o0, op_end: o1, right_start: t.nodes[c].start, right_end: t.nodes[c].end, rational: false });
                                },
                                None => {},
                            }
                        },
                    }
                },
                None => {},
            }
        },
        None => {},
    }
    assert(final(out)@ =~= old(out)@ + simple_checks(*t, i as int));
}

/// Appends the operators of node `i` ([`node_checks`]).
fn node_checks_into(s: &[u8], t: &SyntaxTree, cfg: Config, i: usize, same_line: bool, out: &mut Vec<OpCheck>)
    requires
        tree_wf(*t),
        t.source_len == s@.len(),
        i < t.nodes@.len(),
        checks_ok(old(out)@, s@.len()),
    ensures
        final(out)@ == old(out)@ + node_checks(s@, *t, cfg, i as int, same_line),
        checks_ok(final(out)@, s@.len()),
{
    let k = t.nodes[i].kind;
    if k == kinds::CALL_NODE {
        call_checks_into(s, t, i, out);
    } else if k == kinds::ASSOC_NODE {
        pair_checks_into(s, t, cfg, i, same_line, out);
    } else if k == kinds::IF_NODE {
        ternary_checks_into(s, t, i, out);
    } else {
        simple_checks_into(t, i, out);
    }
}

/// Appends the `=` of node `i` that alignment leaves out
/// ([`node_def_equals`]).
fn node_def_equals_into(t: &SyntaxTree, i: usize, out: &mut Vec<usize>)
    requires
        tree_wf(*t),
        i < t.nodes@.len(),
    ensures
        final(out)@ == old(out)@ + node_def_equals(*t, i as int),
{
    let k = t.nodes[i].kind;
    if k == kinds::OPTIONAL_PARAMETER_NODE {
        match range(t, i, kinds::OPTIONAL_PARAMETER_NODE_OPERATOR_LOC) {
            Some((o0, _)) => out.push(o0),
            None => {},
        }
    } else if k == kinds::DEF_NODE {
        match range(t, i, kinds::DEF_NODE_EQUAL_LOC) {
            Some((e0, _)) => out.push(e0),
            None => {},
        }
    }
    assert(final(out)@ =~= old(out)@ + node_def_equals(*t, i as int));
}

/// [`last_byte`].
fn last_byte_of(t: &SyntaxTree, n: usize) -> (r: usize)
    requires
        n < t.nodes@.len(),
    ensures
        r == last_byte(*t, n as int),
{
    let nd = &t.nodes[n];
    if nd.end >= 1 && nd.end - 1 >= nd.start { nd.end - 1 } else { nd.start }
}

/// [`pairs_on_same_line`].
fn pairs_on_same_line_of(s: &[u8], t: &SyntaxTree, i: usize) -> (r: bool)
    requires
        tree_wf(*t),
        t.source_len == s@.len(),
        i < t.nodes@.len(),
    ensures
        r == pairs_on_same_line(s@, *t, i as int),
{
    let f = if t.nodes[i].kind == kinds::HASH_NODE { kinds::HASH_NODE_ELEMENTS } else { kinds::KEYWORD_HASH_NODE_ELEMENTS };
    proof {
        assert(node_wf(*t, i as int, t.source_len as nat));
        if (f as int) < t.nodes@[i as int].fields@.len() {
            assert(crate::syntax::field_in(t.nodes@[i as int].fields@[f as int], t.nodes@.len() as nat));
        }
    }
    let els = match children(t, i, f) {
        Some(v) => v,
        None => {
            return false;
        },
    };
    assert(els@ == list_at(*t, i as int, f as int));
    let mut prev: Option<usize> = None;
    let mut k: usize = 0;
    while k < els.len()
        invariant
            tree_wf(*t),
            t.source_len == s@.len(),
            k <= els@.len(),
            crate::syntax::indices_in(els@, t.nodes@.len() as nat),
            prev matches Some(p) ==> p < t.nodes@.len(),
            pairs_share_line_from(s@, *t, els@, k as int, prev) == pairs_share_line_from(s@, *t, els@, 0, None),
            pairs_share_line_from(s@, *t, els@, 0, None) == pairs_on_same_line(s@, *t, i as int),
        decreases els.len() - k,
    {
        let e = els[k];
        assert(els@[k as int] < t.nodes@.len());
        if t.nodes[e].kind == kinds::ASSOC_NODE {
            proof {
                assert(node_wf(*t, e as int, t.source_len as nat));
            }
            match prev {
                Some(p) => {
                    proof {
                        assert(node_wf(*t, p as int, t.source_len as nat));
                    }
                    let pl = last_byte_of(t, p);
                    let el = last_byte_of(t, e);
                    let a = line_start_of(s, pl) == line_start_of(s, t.nodes[e].start);
                    let b = line_start_of(s, t.nodes[p].start) == line_start_of(s, el);
                    if a || b {
                        return true;
                    }
                },
                None => {},
            }
            prev = Some(e);
        }
        k += 1;
    }
    false
}

/// The operators and the left-out `=` of the walk ([`op_run`]).
fn op_walk_of(s: &[u8], t: &SyntaxTree, cfg: Config, evs: &Vec<Event>) -> (r: (Vec<OpCheck>, Vec<usize>))
    requires
        tree_wf(*t),
        t.source_len == s@.len(),
        events_in(evs@, t.nodes@.len() as nat),
    ensures
        r.0@ == op_run(s@, *t, cfg, evs@, evs@.len() as int).checks,
        r.1@ == op_run(s@, *t, cfg, evs@, evs@.len() as int).def_equals,
        checks_ok(r.0@, s@.len()),
{
    let mut hashes: Vec<bool> = Vec::new();
    let mut checks: Vec<OpCheck> = Vec::new();
    let mut def_eq: Vec<usize> = Vec::new();
    let mut k: usize = 0;
    while k < evs.len()
        invariant
            tree_wf(*t),
            t.source_len == s@.len(),
            events_in(evs@, t.nodes@.len() as nat),
            k <= evs@.len(),
            hashes@ == op_run(s@, *t, cfg, evs@, k as int).hashes,
            checks@ == op_run(s@, *t, cfg, evs@, k as int).checks,
            def_eq@ == op_run(s@, *t, cfg, evs@, k as int).def_equals,
            checks_ok(checks@, s@.len()),
        decreases evs.len() - k,
    {
        let ghost w = op_run(s@, *t, cfg, evs@, k as int);
        assert(crate::syntax::walk::event_node(evs@[k as int]) < t.nodes@.len());
        let top_now = if hashes.len() > 0 { hashes[hashes.len() - 1] } else { false };
        assert(top_now == top(w));
        match evs[k] {
            Event::Enter(i) => {
                node_checks_into(s, t, cfg, i, top_now, &mut checks);
                node_def_equals_into(t, i, &mut def_eq);
                let kd = t.nodes[i].kind;
                if kd == kinds::HASH_NODE || kd == kinds::KEYWORD_HASH_NODE {
                    let same = pairs_on_same_line_of(s, t, i);
                    hashes.push(same);
                }
            },
            Event::EnterRescue(i) => {
                node_checks_into(s, t, cfg, i, top_now, &mut checks);
                node_def_equals_into(t, i, &mut def_eq);
            },
            Event::Leave(i) => {
                let kd = t.nodes[i].kind;
                if (kd == kinds::HASH_NODE || kd == kinds::KEYWORD_HASH_NODE) && hashes.len() > 0 {
                    hashes.pop();
                }
            },
            _ => {},
        }
        k += 1;
    }
    (checks, def_eq)
}


/// The checks only grow along the walk: those after `k` events stay, in
/// place, after `m >= k` events.
pub proof fn checks_grow(s: Seq<u8>, t: SyntaxTree, cfg: Config, evs: Seq<Event>, k: int, m: int)
    requires
        k <= m,
    ensures
        op_run(s, t, cfg, evs, k).checks.len() <= op_run(s, t, cfg, evs, m).checks.len(),
        forall|j: int| 0 <= j < op_run(s, t, cfg, evs, k).checks.len() ==> #[trigger] op_run(s, t, cfg, evs, m).checks[j]
            == op_run(s, t, cfg, evs, k).checks[j],
    decreases m - k,
{
    if k < m {
        checks_grow(s, t, cfg, evs, k, m - 1);
        let a = op_run(s, t, cfg, evs, m - 1).checks;
        let b = op_run(s, t, cfg, evs, m).checks;
        assert(b.len() >= a.len());
        assert forall|j: int| 0 <= j < a.len() implies #[trigger] b[j] == a[j] by {}
    }
}

/// Every check with an outcome other than the single-space one puts its
/// offense among the decided ones.
pub proof fn decided_holds_check(s: Seq<u8>, cfg: Config, cs: Seq<OpCheck>, m: int)
    requires
        0 <= m < cs.len(),
        outcome(s, cfg, cs[m]) matches Some((k, _, _, _)) && k != MessageKind::SingleSpace,
    ensures
        exists|j: int| 0 <= j < decided_of(s, cfg, cs).len() && {
            let d = #[trigger] decided_of(s, cfg, cs)[j];
            &&& d.0 == cs[m].op_start
            &&& d.1 == cs[m].op_end
            &&& d.4 == (outcome(s, cfg, cs[m])->0).0
        },
    decreases cs.len(),
{
    let prev = cs.drop_last();
    if m == cs.len() - 1 {
        let j = decided_of(s, cfg, prev).len() as int;
        assert(decided_of(s, cfg, cs)[j].0 == cs[m].op_start);
    } else {
        assert(prev[m] == cs[m]);
        decided_holds_check(s, cfg, prev, m);
        let j = choose|j: int| 0 <= j < decided_of(s, cfg, prev).len() && {
            let d = #[trigger] decided_of(s, cfg, prev)[j];
            &&& d.0 == prev[m].op_start
            &&& d.1 == prev[m].op_end
            &&& d.4 == (outcome(s, cfg, prev[m])->0).0
        };
        assert(decided_of(s, cfg, cs)[j] == decided_of(s, cfg, prev)[j]);
    }
}

/// The operator of an assignment (`=`, an operator assignment such as `+=`,
/// `||=` or `&&=`) of a variable, a constant, an attribute, an index or a
/// multiple assignment, of `&&`/`||` (and `and`/`or`), of a superclass `<`,
/// of `class <<`, of a rescue's `=>`, and of the pattern operators `|` and
/// `=>`, with no space on either side, is a missing-space offense at the
/// operator (`**` and a lone `/` have their own style and are left out).
pub proof fn unspaced_operator_is_missing(s: Seq<u8>, t: SyntaxTree, cfg: Config, evs: Seq<Event>, k: int, i: usize,
    o0: usize, o1: usize)
    requires
        0 <= k < evs.len(),
        evs[k] == Event::Enter(i),
        i < t.nodes@.len(),
        ({
            let kd = t.nodes@[i as int].kind;
            ||| kd == kinds::LOCAL_VARIABLE_WRITE_NODE && range_at(t, i as int, kinds::LOCAL_VARIABLE_WRITE_NODE_OPERATOR_LOC as int) == Some((o0, o1))
                && child_at(t, i as int, kinds::LOCAL_VARIABLE_WRITE_NODE_VALUE as int) is Some
            ||| kd == kinds::INSTANCE_VARIABLE_WRITE_NODE && range_at(t, i as int, kinds::INSTANCE_VARIABLE_WRITE_NODE_OPERATOR_LOC as int) == Some((o0, o1))
                && child_at(t, i as int, kinds::INSTANCE_VARIABLE_WRITE_NODE_VALUE as int) is Some
            ||| kd == kinds::CLASS_VARIABLE_WRITE_NODE && range_at(t, i as int, kinds::CLASS_VARIABLE_WRITE_NODE_OPERATOR_LOC as int) == Some((o0, o1))
                && child_at(t, i as int, kinds::CLASS_VARIABLE_WRITE_NODE_VALUE as int) is Some
            ||| kd == kinds::GLOBAL_VARIABLE_WRITE_NODE && range_at(t, i as int, kinds::GLOBAL_VARIABLE_WRITE_NODE_OPERATOR_LOC as int) == Some((o0, o1))
                && child_at(t, i as int, kinds::GLOBAL_VARIABLE_WRITE_NODE_VALUE as int) is Some
            ||| kd == kinds::CONSTANT_WRITE_NODE && range_at(t, i as int, kinds::CONSTANT_WRITE_NODE_OPERATOR_LOC as int) == Some((o0, o1))
                && child_at(t, i as int, kinds::CONSTANT_WRITE_NODE_VALUE as int) is Some
            ||| kd == kinds::CONSTANT_PATH_WRITE_NODE && range_at(t, i as int, kinds::CONSTANT_PATH_WRITE_NODE_OPERATOR_LOC as int) == Some((o0, o1))
                && child_at(t, i as int, kinds::CONSTANT_PATH_WRITE_NODE_VALUE as int) is Some
            ||| kd == kinds::MULTI_WRITE_NODE && range_at(t, i as int, kinds::MULTI_WRITE_NODE_OPERATOR_LOC as int) == Some((o0, o1))
                && child_at(t, i as int, kinds::MULTI_WRITE_NODE_VALUE as int) is Some
            ||| kd == kinds::LOCAL_VARIABLE_OPERATOR_WRITE_NODE && range_at(t, i as int, kinds::LOCAL_VARIABLE_OPERATOR_WRITE_NODE_BINARY_OPERATOR_LOC as int) == Some((o0, o1))
                && child_at(t, i as int, kinds::LOCAL_VARIABLE_OPERATOR_WRITE_NODE_VALUE as int) is Some
            ||| kd == kinds::INSTANCE_VARIABLE_OPERATOR_WRITE_NODE && range_at(t, i as int, kinds::INSTANCE_VARIABLE_OPERATOR_WRITE_NODE_BINARY_OPERATOR_LOC as int) == Some((o0, o1))
                && child_at(t, i as int, kinds::INSTANCE_VARIABLE_OPERATOR_WRITE_NODE_VALUE as int) is Some
            ||| kd == kinds::CLASS_VARIABLE_OPERATOR_WRITE_NODE && range_at(t, i as int, kinds::CLASS_VARIABLE_OPERATOR_WRITE_NODE_BINARY_OPERATOR_LOC as int) == Some((o0, o1))
                && child_at(t, i as int, kinds::CLASS_VARIABLE_OPERATOR_WRITE_NODE_VALUE as int) is Some
            ||| kd == kinds::GLOBAL_VARIABLE_OPERATOR_WRITE_NODE && range_at(t, i as int, kinds::GLOBAL_VARIABLE_OPERATOR_WRITE_NODE_BINARY_OPERATOR_LOC as int) == Some((o0, o1))
                && child_at(t, i as int, kinds::GLOBAL_VARIABLE_OPERATOR_WRITE_NODE_VALUE as int) is Some
            ||| kd == kinds::CONSTANT_OPERATOR_WRITE_NODE && range_at(t, i as int, kinds::CONSTANT_OPERATOR_WRITE_NODE_BINARY_OPERATOR_LOC as int) == Some((o0, o1))
                && child_at(t, i as int, kinds::CONSTANT_OPERATOR_WRITE_NODE_VALUE as int) is Some
            ||| kd == kinds::CONSTANT_PATH_OPERATOR_WRITE_NODE && range_at(t, i as int, kinds::CONSTANT_PATH_OPERATOR_WRITE_NODE_BINARY_OPERATOR_LOC as int) == Some((o0, o1))
                && child_at(t, i as int, kinds::CONSTANT_PATH_OPERATOR_WRITE_NODE_VALUE as int) is Some
            ||| kd == kinds::CALL_OPERATOR_WRITE_NODE && range_at(t, i as int, kinds::CALL_OPERATOR_WRITE_NODE_BINARY_OPERATOR_LOC as int) == Some((o0, o1))
                && child_at(t, i as int, kinds::CALL_OPERATOR_WRITE_NODE_VALUE as int) is Some
            ||| kd == kinds::INDEX_OPERATOR_WRITE_NODE && range_at(t, i as int, kinds::INDEX_OPERATOR_WRITE_NODE_BINARY_OPERATOR_LOC as int) == Some((o0, o1))
                && child_at(t, i as int, kinds::INDEX_OPERATOR_WRITE_NODE_VALUE as int) is Some
            ||| kd == kinds::LOCAL_VARIABLE_OR_WRITE_NODE && range_at(t, i as int, kinds::LOCAL_VARIABLE_OR_WRITE_NODE_OPERATOR_LOC as int) == Some((o0, o1))
                && child_at(t, i as int, kinds::LOCAL_VARIABLE_OR_WRITE_NODE_VALUE as int) is Some
            ||| kd == kinds::INSTANCE_VARIABLE_OR_WRITE_NODE && range_at(t, i as int, kinds::INSTANCE_VARIABLE_OR_WRITE_NODE_OPERATOR_LOC as int) == Some((o0, o1))
                && child_at(t, i as int, kinds::INSTANCE_VARIABLE_OR_WRITE_NODE_VALUE as int) is Some
            ||| kd == kinds::CLASS_VARIABLE_OR_WRITE_NODE && range_at(t, i as int, kinds::CLASS_VARIABLE_OR_WRITE_NODE_OPERATOR_LOC as int) == Some((o0, o1))
                && child_at(t, i as int, kinds::CLASS_VARIABLE_OR_WRITE_NODE_VALUE as int) is Some
            ||| kd == kinds::GLOBAL_VARIABLE_OR_WRITE_NODE && range_at(t, i as int, kinds::GLOBAL_VARIABLE_OR_WRITE_NODE_OPERATOR_LOC as int) == Some((o0, o1))
                && child_at(t, i as int, kinds::GLOBAL_VARIABLE_OR_WRITE_NODE_VALUE as int) is Some
            ||| kd == kinds::CONSTANT_OR_WRITE_NODE && range_at(t, i as int, kinds::CONSTANT_OR_WRITE_NODE_OPERATOR_LOC as int) == Some((o0, o1))
                && child_at(t, i as int, kinds::CONSTANT_OR_WRITE_NODE_VALUE as int) is Some
            ||| kd == kinds::CONSTANT_PATH_OR_WRITE_NODE && range_at(t, i as int, kinds::CONSTANT_PATH_OR_WRITE_NODE_OPERATOR_LOC as int) == Some((o0, o1))
                && child_at(t, i as int, kinds::CONSTANT_PATH_OR_WRITE_NODE_VALUE as int) is Some
            ||| kd == kinds::CALL_OR_WRITE_NODE && range_at(t, i as int, kinds::CALL_OR_WRITE_NODE_OPERATOR_LOC as int) == Some((o0, o1))
                && child_at(t, i as int, kinds::CALL_OR_WRITE_NODE_VALUE as int) is Some
            ||| kd == kinds::INDEX_OR_WRITE_NODE && range_at(t, i as int, kinds::INDEX_OR_WRITE_NODE_OPERATOR_LOC as int) == Some((o0, o1))
                && child_at(t, i as int, kinds::INDEX_OR_WRITE_NODE_VALUE as int) is Some
            ||| kd == kinds::LOCAL_VARIABLE_AND_WRITE_NODE && range_at(t, i as int, kinds::LOCAL_VARIABLE_AND_WRITE_NODE_OPERATOR_LOC as int) == Some((o0, o1))
                && child_at(t, i as int, kinds::LOCAL_VARIABLE_AND_WRITE_NODE_VALUE as int) is Some
            ||| kd == kinds::INSTANCE_VARIABLE_AND_WRITE_NODE && range_at(t, i as int, kinds::INSTANCE_VARIABLE_AND_WRITE_NODE_OPERATOR_LOC as int) == Some((o0, o1))
                && child_at(t, i as int, kinds::INSTANCE_VARIABLE_AND_WRITE_NODE_VALUE as int) is Some
            ||| kd == kinds::CLASS_VARIABLE_AND_WRITE_NODE && range_at(t, i as int, kinds::CLASS_VARIABLE_AND_WRITE_NODE_OPERATOR_LOC as int) == Some((o0, o1))
                && child_at(t, i as int, kinds::CLASS_VARIABLE_AND_WRITE_NODE_VALUE as int) is Some
            ||| kd == kinds::GLOBAL_VARIABLE_AND_WRITE_NODE && range_at(t, i as int, kinds::GLOBAL_VARIABLE_AND_WRITE_NODE_OPERATOR_LOC as int) == Some((o0, o1))
                && child_at(t, i as int, kinds::GLOBAL_VARIABLE_AND_WRITE_NODE_VALUE as int) is Some
            ||| kd == kinds::CONSTANT_AND_WRITE_NODE && range_at(t, i as int, kinds::CONSTANT_AND_WRITE_NODE_OPERATOR_LOC as int) == Some((o0, o1))
                && child_at(t, i as int, kinds::CONSTANT_AND_WRITE_NODE_VALUE as int) is Some
            ||| kd == kinds::CONSTANT_PATH_AND_WRITE_NODE && range_at(t, i as int, kinds::CONSTANT_PATH_AND_WRITE_NODE_OPERATOR_LOC as int) == Some((o0, o1))
                && child_at(t, i as int, kinds::CONSTANT_PATH_AND_WRITE_NODE_VALUE as int) is Some
            ||| kd == kinds::CALL_AND_WRITE_NODE && range_at(t, i as int, kinds::CALL_AND_WRITE_NODE_OPERATOR_LOC as int) == Some((o0, o1))
                && child_at(t, i as int, kinds::CALL_AND_WRITE_NODE_VALUE as int) is Some
            ||| kd == kinds::INDEX_AND_WRITE_NODE && range_at(t, i as int, kinds::INDEX_AND_WRITE_NODE_OPERATOR_LOC as int) == Some((o0, o1))
                && child_at(t, i as int, kinds::INDEX_AND_WRITE_NODE_VALUE as int) is Some
            ||| kd == kinds::AND_NODE && range_at(t, i as int, kinds::AND_NODE_OPERATOR_LOC as int) == Some((o0, o1))
                && child_at(t, i as int, kinds::AND_NODE_RIGHT as int) is Some
            ||| kd == kinds::OR_NODE && range_at(t, i as int, kinds::OR_NODE_OPERATOR_LOC as int) == Some((o0, o1))
                && child_at(t, i as int, kinds::OR_NODE_RIGHT as int) is Some
            ||| kd == kinds::CLASS_NODE && range_at(t, i as int, kinds::CLASS_NODE_INHERITANCE_OPERATOR_LOC as int) == Some((o0, o1))
                && child_at(t, i as int, kinds::CLASS_NODE_SUPERCLASS as int) is Some
            ||| kd == kinds::SINGLETON_CLASS_NODE && range_at(t, i as int, kinds::SINGLETON_CLASS_NODE_OPERATOR_LOC as int) == Some((o0, o1))
                && child_at(t, i as int, kinds::SINGLETON_CLASS_NODE_EXPRESSION as int) is Some
            ||| kd == kinds::RESCUE_NODE && range_at(t, i as int, kinds::RESCUE_NODE_OPERATOR_LOC as int) == Some((o0, o1))
                && child_at(t, i as int, kinds::RESCUE_NODE_REFERENCE as int) is Some
            ||| kd == kinds::ALTERNATION_PATTERN_NODE && range_at(t, i as int, kinds::ALTERNATION_PATTERN_NODE_OPERATOR_LOC as int) == Some((o0, o1))
            ||| kd == kinds::CAPTURE_PATTERN_NODE && range_at(t, i as int, kinds::CAPTURE_PATTERN_NODE_OPERATOR_LOC as int) == Some((o0, o1))
            ||| kd == kinds::MATCH_REQUIRED_NODE && range_at(t, i as int, kinds::MATCH_REQUIRED_NODE_OPERATOR_LOC as int) == Some((o0, o1))
        }),
        0 < o0 < o1 < s.len(),
        !(o1 == o0 + 2 && s[o0 as int] == 42u8 && s[o0 + 1] == 42u8),
        !(o1 == o0 + 1 && s[o0 as int] == 47u8),
        !ruby_ws(s[o0 as int]),
        !ruby_ws(s[o0 - 1]),
        !ruby_ws(s[o1 as int]),
    ensures
        exists|j: int| 0 <= j < decided_of(s, cfg, op_run(s, t, cfg, evs, evs.len() as int).checks).len() && {
            let d = #[trigger] decided_of(s, cfg, op_run(s, t, cfg, evs, evs.len() as int).checks)[j];
            &&& d.0 == o0
            &&& d.1 == o1
            &&& d.4 == MessageKind::Missing
        },
{
    let w = op_run(s, t, cfg, evs, k);
    let nc = node_checks(s, t, cfg, i as int, top(w));
    let kd = t.nodes@[i as int].kind;
    if kd == kinds::LOCAL_VARIABLE_WRITE_NODE {
        assert(simple_operator(kd) == Some((kinds::LOCAL_VARIABLE_WRITE_NODE_OPERATOR_LOC, RightOperand::Field(kinds::LOCAL_VARIABLE_WRITE_NODE_VALUE), AlignType::Assignment)));
    } else if kd == kinds::INSTANCE_VARIABLE_WRITE_NODE {
        assert(simple_operator(kd) == Some((kinds::INSTANCE_VARIABLE_WRITE_NODE_OPERATOR_LOC, RightOperand::Field(kinds::INSTANCE_VARIABLE_WRITE_NODE_VALUE), AlignType::Assignment)));
    } else if kd == kinds::CLASS_VARIABLE_WRITE_NODE {
        assert(simple_operator(kd) == Some((kinds::CLASS_VARIABLE_WRITE_NODE_OPERATOR_LOC, RightOperand::Field(kinds::CLASS_VARIABLE_WRITE_NODE_VALUE), AlignType::Assignment)));
    } else if kd == kinds::GLOBAL_VARIABLE_WRITE_NODE {
        assert(simple_operator(kd) == Some((kinds::GLOBAL_VARIABLE_WRITE_NODE_OPERATOR_LOC, RightOperand::Field(kinds::GLOBAL_VARIABLE_WRITE_NODE_VALUE), AlignType::Assignment)));
    } else if kd == kinds::CONSTANT_WRITE_NODE {
        assert(simple_operator(kd) == Some((kinds::CONSTANT_WRITE_NODE_OPERATOR_LOC, RightOperand::Field(kinds::CONSTANT_WRITE_NODE_VALUE), AlignType::Assignment)));
    } else if kd == kinds::CONSTANT_PATH_WRITE_NODE {
        assert(simple_operator(kd) == Some((kinds::CONSTANT_PATH_WRITE_NODE_OPERATOR_LOC, RightOperand::Field(kinds::CONSTANT_PATH_WRITE_NODE_VALUE), AlignType::Assignment)));
    } else if kd == kinds::MULTI_WRITE_NODE {
        assert(simple_operator(kd) == Some((kinds::MULTI_WRITE_NODE_OPERATOR_LOC, RightOperand::Field(kinds::MULTI_WRITE_NODE_VALUE), AlignType::Assignment)));
    } else if kd == kinds::LOCAL_VARIABLE_OPERATOR_WRITE_NODE {
        assert(simple_operator(kd) == Some((kinds::LOCAL_VARIABLE_OPERATOR_WRITE_NODE_BINARY_OPERATOR_LOC, RightOperand::Field(kinds::LOCAL_VARIABLE_OPERATOR_WRITE_NODE_VALUE), AlignType::Other)));
    } else if kd == kinds::INSTANCE_VARIABLE_OPERATOR_WRITE_NODE {
        assert(simple_operator(kd) == Some((kinds::INSTANCE_VARIABLE_OPERATOR_WRITE_NODE_BINARY_OPERATOR_LOC, RightOperand::Field(kinds::INSTANCE_VARIABLE_OPERATOR_WRITE_NODE_VALUE), AlignType::Other)));
    } else if kd == kinds::CLASS_VARIABLE_OPERATOR_WRITE_NODE {
        assert(simple_operator(kd) == Some((kinds::CLASS_VARIABLE_OPERATOR_WRITE_NODE_BINARY_OPERATOR_LOC, RightOperand::Field(kinds::CLASS_VARIABLE_OPERATOR_WRITE_NODE_VALUE), AlignType::Other)));
    } else if kd == kinds::GLOBAL_VARIABLE_OPERATOR_WRITE_NODE {
        assert(simple_operator(kd) == Some((kinds::GLOBAL_VARIABLE_OPERATOR_WRITE_NODE_BINARY_OPERATOR_LOC, RightOperand::Field(kinds::GLOBAL_VARIABLE_OPERATOR_WRITE_NODE_VALUE), AlignType::Other)));
    } else if kd == kinds::CONSTANT_OPERATOR_WRITE_NODE {
        assert(simple_operator(kd) == Some((kinds::CONSTANT_OPERATOR_WRITE_NODE_BINARY_OPERATOR_LOC, RightOperand::Field(kinds::CONSTANT_OPERATOR_WRITE_NODE_VALUE), AlignType::Other)));
    } else if kd == kinds::CONSTANT_PATH_OPERATOR_WRITE_NODE {
        assert(simple_operator(kd) == Some((kinds::CONSTANT_PATH_OPERATOR_WRITE_NODE_BINARY_OPERATOR_LOC, RightOperand::Field(kinds::CONSTANT_PATH_OPERATOR_WRITE_NODE_VALUE), AlignType::Other)));
    } else if kd == kinds::CALL_OPERATOR_WRITE_NODE {
        assert(simple_operator(kd) == Some((kinds::CALL_OPERATOR_WRITE_NODE_BINARY_OPERATOR_LOC, RightOperand::Field(kinds::CALL_OPERATOR_WRITE_NODE_VALUE), AlignType::Other)));
    } else if kd == kinds::INDEX_OPERATOR_WRITE_NODE {
        assert(simple_operator(kd) == Some((kinds::INDEX_OPERATOR_WRITE_NODE_BINARY_OPERATOR_LOC, RightOperand::Field(kinds::INDEX_OPERATOR_WRITE_NODE_VALUE), AlignType::Other)));
    } else if kd == kinds::LOCAL_VARIABLE_OR_WRITE_NODE {
        assert(simple_operator(kd) == Some((kinds::LOCAL_VARIABLE_OR_WRITE_NODE_OPERATOR_LOC, RightOperand::Field(kinds::LOCAL_VARIABLE_OR_WRITE_NODE_VALUE), AlignType::Other)));
    } else if kd == kinds::INSTANCE_VARIABLE_OR_WRITE_NODE {
        assert(simple_operator(kd) == Some((kinds::INSTANCE_VARIABLE_OR_WRITE_NODE_OPERATOR_LOC, RightOperand::Field(kinds::INSTANCE_VARIABLE_OR_WRITE_NODE_VALUE), AlignType::Other)));
    } else if kd == kinds::CLASS_VARIABLE_OR_WRITE_NODE {
        assert(simple_operator(kd) == Some((kinds::CLASS_VARIABLE_OR_WRITE_NODE_OPERATOR_LOC, RightOperand::Field(kinds::CLASS_VARIABLE_OR_WRITE_NODE_VALUE), AlignType::Other)));
    } else if kd == kinds::GLOBAL_VARIABLE_OR_WRITE_NODE {
        assert(simple_operator(kd) == Some((kinds::GLOBAL_VARIABLE_OR_WRITE_NODE_OPERATOR_LOC, RightOperand::Field(kinds::GLOBAL_VARIABLE_OR_WRITE_NODE_VALUE), AlignType::Other)));
    } else if kd == kinds::CONSTANT_OR_WRITE_NODE {
        assert(simple_operator(kd) == Some((kinds::CONSTANT_OR_WRITE_NODE_OPERATOR_LOC, RightOperand::Field(kinds::CONSTANT_OR_WRITE_NODE_VALUE), AlignType::Other)));
    } else if kd == kinds::CONSTANT_PATH_OR_WRITE_NODE {
        assert(simple_operator(kd) == Some((kinds::CONSTANT_PATH_OR_WRITE_NODE_OPERATOR_LOC, RightOperand::Field(kinds::CONSTANT_PATH_OR_WRITE_NODE_VALUE), AlignType::Other)));
    } else if kd == kinds::CALL_OR_WRITE_NODE {
        assert(simple_operator(kd) == Some((kinds::CALL_OR_WRITE_NODE_OPERATOR_LOC, RightOperand::Field(kinds::CALL_OR_WRITE_NODE_VALUE), AlignType::Other)));
    } else if kd == kinds::INDEX_OR_WRITE_NODE {
        assert(simple_operator(kd) == Some((kinds::INDEX_OR_WRITE_NODE_OPERATOR_LOC, RightOperand::Field(kinds::INDEX_OR_WRITE_NODE_VALUE), AlignType::Other)));
    } else if kd == kinds::LOCAL_VARIABLE_AND_WRITE_NODE {
        assert(simple_operator(kd) == Some((kinds::LOCAL_VARIABLE_AND_WRITE_NODE_OPERATOR_LOC, RightOperand::Field(kinds::LOCAL_VARIABLE_AND_WRITE_NODE_VALUE), AlignType::Other)));
    } else if kd == kinds::INSTANCE_VARIABLE_AND_WRITE_NODE {
        assert(simple_operator(kd) == Some((kinds::INSTANCE_VARIABLE_AND_WRITE_NODE_OPERATOR_LOC, RightOperand::Field(kinds::INSTANCE_VARIABLE_AND_WRITE_NODE_VALUE), AlignType::Other)));
    } else if kd == kinds::CLASS_VARIABLE_AND_WRITE_NODE {
        assert(simple_operator(kd) == Some((kinds::CLASS_VARIABLE_AND_WRITE_NODE_OPERATOR_LOC, RightOperand::Field(kinds::CLASS_VARIABLE_AND_WRITE_NODE_VALUE), AlignType::Other)));
    } else if kd == kinds::GLOBAL_VARIABLE_AND_WRITE_NODE {
        assert(simple_operator(kd) == Some((kinds::GLOBAL_VARIABLE_AND_WRITE_NODE_OPERATOR_LOC, RightOperand::Field(kinds::GLOBAL_VARIABLE_AND_WRITE_NODE_VALUE), AlignType::Other)));
    } else if kd == kinds::CONSTANT_AND_WRITE_NODE {
        assert(simple_operator(kd) == Some((kinds::CONSTANT_AND_WRITE_NODE_OPERATOR_LOC, RightOperand::Field(kinds::CONSTANT_AND_WRITE_NODE_VALUE), AlignType::Other)));
    } else if kd == kinds::CONSTANT_PATH_AND_WRITE_NODE {
        assert(simple_operator(kd) == Some((kinds::CONSTANT_PATH_AND_WRITE_NODE_OPERATOR_LOC, RightOperand::Field(kinds::CONSTANT_PATH_AND_WRITE_NODE_VALUE), AlignType::Other)));
    } else if kd == kinds::CALL_AND_WRITE_NODE {
        assert(simple_operator(kd) == Some((kinds::CALL_AND_WRITE_NODE_OPERATOR_LOC, RightOperand::Field(kinds::CALL_AND_WRITE_NODE_VALUE), AlignType::Other)));
    } else if kd == kinds::INDEX_AND_WRITE_NODE {
        assert(simple_operator(kd) == Some((kinds::INDEX_AND_WRITE_NODE_OPERATOR_LOC, RightOperand::Field(kinds::INDEX_AND_WRITE_NODE_VALUE), AlignType::Other)));
    } else if kd == kinds::AND_NODE {
        assert(simple_operator(kd) == Some((kinds::AND_NODE_OPERATOR_LOC, RightOperand::Field(kinds::AND_NODE_RIGHT), AlignType::Other)));
    } else if kd == kinds::OR_NODE {
        assert(simple_operator(kd) == Some((kinds::OR_NODE_OPERATOR_LOC, RightOperand::Field(kinds::OR_NODE_RIGHT), AlignType::Other)));
    } else if kd == kinds::CLASS_NODE {
        assert(simple_operator(kd) == Some((kinds::CLASS_NODE_INHERITANCE_OPERATOR_LOC, RightOperand::Field(kinds::CLASS_NODE_SUPERCLASS), AlignType::Other)));
    } else if kd == kinds::SINGLETON_CLASS_NODE {
        assert(simple_operator(kd) == Some((kinds::SINGLETON_CLASS_NODE_OPERATOR_LOC, RightOperand::Field(kinds::SINGLETON_CLASS_NODE_EXPRESSION), AlignType::Other)));
    } else if kd == kinds::RESCUE_NODE {
        assert(simple_operator(kd) == Some((kinds::RESCUE_NODE_OPERATOR_LOC, RightOperand::Field(kinds::RESCUE_NODE_REFERENCE), AlignType::Other)));
    } else if kd == kinds::ALTERNATION_PATTERN_NODE {
        assert(simple_operator(kd) == Some((kinds::ALTERNATION_PATTERN_NODE_OPERATOR_LOC, RightOperand::Whole, AlignType::Other)));
    } else if kd == kinds::CAPTURE_PATTERN_NODE {
        assert(simple_operator(kd) == Some((kinds::CAPTURE_PATTERN_NODE_OPERATOR_LOC, RightOperand::Whole, AlignType::Other)));
    } else if kd == kinds::MATCH_REQUIRED_NODE {
        assert(simple_operator(kd) == Some((kinds::MATCH_REQUIRED_NODE_OPERATOR_LOC, RightOperand::Whole, AlignType::Other)));
    }
    assert(nc == simple_checks(t, i as int));
    assert(nc.len() == 1 && nc[0].op_start == o0 && nc[0].op_end == o1);
    let c = nc[0];
    assert(op_run(s, t, cfg, evs, k + 1).checks == w.checks + nc);
    assert(op_run(s, t, cfg, evs, k + 1).checks[w.checks.len() as int] == c);
    checks_grow(s, t, cfg, evs, k + 1, evs.len() as int);
    let cs = op_run(s, t, cfg, evs, evs.len() as int).checks;
    assert(cs[w.checks.len() as int] == c);
    assert(blank_run_start(s, o0 as int) == o0);
    assert(nl_run_start(s, o0 as int) == o0);
    assert(surrounding_right(s, o1 as int) == o1);
    let sub = s.subrange(o0 as int, o1 as int);
    assert(sub[0] == s[o0 as int]);
    assert(!no_surrounding_space(s, cfg, c));
    assert(outcome(s, cfg, c) matches Some((kk, _, _, _)) && kk == MessageKind::Missing);
    decided_holds_check(s, cfg, cs, w.checks.len() as int);
}

/// The walk of `source`: nothing where it does not parse into a well-formed
/// tree.
pub fn run_walk(source: &[u8], config: Config) -> (r: WalkResult)
    ensures
        exists|t: SyntaxTree| #[trigger] tree_of(t, source@) && (if tree_wf(t) {
            &&& r.decided@.len() == decided_of(source@, config, op_run(source@, t, config, walk_events(t), walk_events(t).len() as int).checks).len()
            &&& forall|j: int| 0 <= j < r.decided@.len() ==> offense_view(#[trigger] r.decided@[j]) == decided_of(source@, config,
                op_run(source@, t, config, walk_events(t), walk_events(t).len() as int).checks)[j]
            &&& r.excess@.len() == excess_of(source@, config, op_run(source@, t, config, walk_events(t), walk_events(t).len() as int).checks).len()
            &&& forall|j: int| 0 <= j < r.excess@.len() ==> excess_view(#[trigger] r.excess@[j]) == excess_of(source@, config,
                op_run(source@, t, config, walk_events(t), walk_events(t).len() as int).checks)[j]
            &&& r.def_equals@ == op_run(source@, t, config, walk_events(t), walk_events(t).len() as int).def_equals
        } else {
            r.decided@.len() == 0 && r.excess@.len() == 0 && r.def_equals@.len() == 0
        }),
{
    let t = parse_tree(source);
    if !check_tree(&t) {
        assert(tree_of(t, source@));
        return WalkResult { decided: Vec::new(), excess: Vec::new(), def_equals: Vec::new() };
    }
    let evs = walk(&t);
    let r = space_around_operators_walk(source, &t, &evs, config);
    assert(tree_of(t, source@));
    r
}

/// The walk of `t`: the decided offenses and the excess candidates of the
/// operators it visits, in order, and the `=` that alignment leaves out.
pub fn space_around_operators_walk(source: &[u8], t: &SyntaxTree, evs: &Vec<Event>, config: Config) -> (r: WalkResult)
    requires
        tree_wf(*t),
        t.source_len == source@.len(),
        events_in(evs@, t.nodes@.len() as nat),
    ensures
        r.decided@.len() == decided_of(source@, config, op_run(source@, *t, config, evs@, evs@.len() as int).checks).len(),
        forall|j: int| 0 <= j < r.decided@.len() ==> offense_view(#[trigger] r.decided@[j]) == decided_of(source@, config,
            op_run(source@, *t, config, evs@, evs@.len() as int).checks)[j],
        r.excess@.len() == excess_of(source@, config, op_run(source@, *t, config, evs@, evs@.len() as int).checks).len(),
        forall|j: int| 0 <= j < r.excess@.len() ==> excess_view(#[trigger] r.excess@[j]) == excess_of(source@, config,
            op_run(source@, *t, config, evs@, evs@.len() as int).checks)[j],
        r.def_equals@ == op_run(source@, *t, config, evs@, evs@.len() as int).def_equals,
{
    let (checks, def_equals) = op_walk_of(source, t, config, evs);
    let (decided, excess) = outcomes_of(source, config, &checks);
    WalkResult { decided, excess, def_equals }
}

/// The decided offenses and the excess candidates of `cs`
/// ([`decided_of`], [`excess_of`]).
fn outcomes_of(s: &[u8], cfg: Config, cs: &Vec<OpCheck>) -> (r: (Vec<SpaceAroundOperatorsOffense>, Vec<ExcessCandidate>))
    requires
        checks_ok(cs@, s@.len()),
    ensures
        r.0@.len() == decided_of(s@, cfg, cs@).len(),
        forall|j: int| 0 <= j < r.0@.len() ==> offense_view(#[trigger] r.0@[j]) == decided_of(s@, cfg, cs@)[j],
        r.1@.len() == excess_of(s@, cfg, cs@).len(),
        forall|j: int| 0 <= j < r.1@.len() ==> excess_view(#[trigger] r.1@[j]) == excess_of(s@, cfg, cs@)[j],
{
    let mut decided: Vec<SpaceAroundOperatorsOffense> = Vec::new();
    let mut excess: Vec<ExcessCandidate> = Vec::new();
    let mut k: usize = 0;
    while k < cs.len()
        invariant
            checks_ok(cs@, s@.len()),
            k <= cs@.len(),
            decided@.len() == decided_of(s@, cfg, cs@.subrange(0, k as int)).len(),
            forall|j: int| 0 <= j < decided@.len() ==> offense_view(#[trigger] decided@[j]) == decided_of(s@, cfg,
                cs@.subrange(0, k as int))[j],
            excess@.len() == excess_of(s@, cfg, cs@.subrange(0, k as int)).len(),
            forall|j: int| 0 <= j < excess@.len() ==> excess_view(#[trigger] excess@[j]) == excess_of(s@, cfg,
                cs@.subrange(0, k as int))[j],
        decreases cs.len() - k,
    {
        let c = cs[k];
        let ghost pre = cs@.subrange(0, k as int);
        let ghost next = cs@.subrange(0, k + 1);
        proof {
            assert(next.drop_last() =~= pre);
            assert(next.last() == c);
        }
        let ghost d0 = decided@;
        let ghost x0 = excess@;
        match outcome_of(s, cfg, c) {
            Some((kind, w0, w1, repl)) => {
                let mut op: Vec<u8> = Vec::new();
                push_range(&mut op, s, c.op_start, c.op_end);
                if kind != MessageKind::SingleSpace {
                    decided.push(SpaceAroundOperatorsOffense { op_start: c.op_start, op_end: c.op_end, ws_start: w0, ws_end: w1, kind, operator: op, replacement: repl });
                    proof {
                        assert(decided_of(s@, cfg, next) == decided_of(s@, cfg, pre).push(offense_view(decided@[decided@.len() - 1])));
                        assert(excess_of(s@, cfg, next) =~= excess_of(s@, cfg, pre));
                        assert forall|j: int| 0 <= j < decided@.len() implies offense_view(#[trigger] decided@[j]) == decided_of(s@, cfg, next)[j] by {
                            if j < d0.len() {
                                assert(decided@[j] == d0[j]);
                            }
                        }
                    }
                } else {
                    excess.push(ExcessCandidate { op_start: c.op_start, op_end: c.op_end, ws_start: w0, ws_end: w1, operator: op, replacement: repl, align_type: c.align, right_start: c.right_start, right_end: c.right_end });
                    proof {
                        assert(excess_of(s@, cfg, next) == excess_of(s@, cfg, pre).push(excess_view(excess@[excess@.len() - 1])));
                        assert(decided_of(s@, cfg, next) =~= decided_of(s@, cfg, pre));
                        assert forall|j: int| 0 <= j < excess@.len() implies excess_view(#[trigger] excess@[j]) == excess_of(s@, cfg, next)[j] by {
                            if j < x0.len() {
                                assert(excess@[j] == x0[j]);
                            }
                        }
                    }
                }
            },
            None => {
                proof {
                    assert(decided_of(s@, cfg, next) =~= decided_of(s@, cfg, pre));
                    assert(excess_of(s@, cfg, next) =~= excess_of(s@, cfg, pre));
                }
            },
        }
        k += 1;
    }
    assert(cs@.subrange(0, cs@.len() as int) =~= cs@);
    (decided, excess)
}

/// Appends `r[a..b]` to `out`.
fn push_range(out: &mut Vec<u8>, r: &[u8], a: usize, b: usize)
    requires
        a <= b <= r@.len(),
    ensures
        final(out)@ == old(out)@ + r@.subrange(a as int, b as int),
{
    let mut k = a;
    while k < b
        invariant
            a <= k <= b <= r@.len(),
            out@ == old(out)@ + r@.subrange(a as int, k as int),
        decreases b - k,
    {
        out.push(r[k]);
        k += 1;
        assert(r@.subrange(a as int, k as int) =~= r@.subrange(a as int, k - 1).push(r@[k - 1]));
    }
}

/// What check `c` finds ([`outcome`]).
fn outcome_of(s: &[u8], cfg: Config, c: OpCheck) -> (r: Option<(MessageKind, usize, usize, Vec<u8>)>)
    requires
        c.op_start <= c.op_end <= s@.len(),
    ensures
        match (r, outcome(s@, cfg, c)) {
            (None, None) => true,
            (Some((k, w0, w1, v)), Some((k2, x0, x1, rep))) => k == k2 && w0 == x0 && w1 == x1 && v@ == rep,
            _ => false,
        },
{
    let w0 = surrounding_space_left(s, c.op_start);
    let w1 = surrounding_right_of(s, c.op_end);
    let w = slice_subrange(s, w0, w1);
    if w.len() > 0 && w[0] == 10u8 {
        return None;
    }
    let a = c.op_start;
    let b = c.op_end;
    let star = b >= a && b - a == 2 && a + 1 < s.len() && s[a] == 42u8 && s[a + 1] == 42u8;
    let slash = b >= a && b - a == 1 && a < s.len() && s[a] == 47u8;
    let nss = if star {
        cfg.exponent_style != STYLE_SPACE
    } else if slash {
        c.rational && cfg.rational_style != STYLE_SPACE
    } else {
        false
    };
    assert(nss == no_surrounding_space(s@, cfg, c));
    if nss {
        proof {
            if w@ == s@.subrange(a as int, b as int) {
                assert(w@.len() == b - a);
            }
            if w0 == a && w1 == b {
                assert(w@ =~= s@.subrange(a as int, b as int));
            }
        }
        if w0 == a && w1 == b {
            return None;
        }
        let repl = replacement_of(cfg, w, c.rational);
        return Some((MessageKind::Detected, w0, w1, repl));
    }
    let n = w.len();
    let sur = n > 0 && is_ruby_ws(w[0]) && is_ruby_ws(w[n - 1]);
    if !sur {
        let repl = replacement_of(cfg, w, c.rational);
        return Some((MessageKind::Missing, w0, w1, repl));
    }
    let ex = n >= 2 && ((w[0] == 32u8 && w[1] == 32u8) || (w[n - 2] == 32u8 && w[n - 1] == 32u8));
    if ex {
        let repl = replacement_of(cfg, w, c.rational);
        return Some((MessageKind::SingleSpace, w0, w1, repl));
    }
    None
}

/// [`ruby_ws`].
fn is_ruby_ws(b: u8) -> (r: bool)
    ensures
        r == ruby_ws(b),
{
    b == 32u8 || b == 9u8 || b == 13u8 || b == 10u8 || b == 12u8 || b == 11u8
}

/// What the fix writes in place of `r` ([`replacement`]).
fn replacement_of(cfg: Config, r: &[u8], rational: bool) -> (out: Vec<u8>)
    ensures
        out@ == replacement(cfg, r@, rational),
{
    let n = r.len();
    let mut star = false;
    let mut k: usize = 0;
    while k < n && k + 1 < n
        invariant
            n == r@.len(),
            k <= n,
            star == (exists|j: int| 0 <= j < k && j + 1 < n && #[trigger] r@[j] == 42u8 && r@[j + 1] == 42u8),
        decreases n - k,
    {
        if r[k] == 42u8 && r[k + 1] == 42u8 {
            star = true;
        }
        k += 1;
    }
    assert(star == has_double_star(r@)) by {
        if has_double_star(r@) {
            let j = choose|j: int| 0 <= j && j + 1 < r@.len() && #[trigger] r@[j] == 42u8 && r@[j + 1] == 42u8;
            assert(j < k);
        }
    }
    if star && cfg.exponent_style != STYLE_SPACE {
        let mut v: Vec<u8> = Vec::new();
        v.push(42u8);
        v.push(42u8);
        assert(v@ =~= seq![42u8, 42u8]);
        return v;
    }
    let mut slash = false;
    let mut k: usize = 0;
    while k < n
        invariant
            n == r@.len(),
            k <= n,
            slash == (exists|j: int| 0 <= j < k && #[trigger] r@[j] == 47u8),
        decreases n - k,
    {
        if r[k] == 47u8 {
            slash = true;
        }
        k += 1;
    }
    if slash && rational && cfg.rational_style != STYLE_SPACE {
        let mut v: Vec<u8> = Vec::new();
        v.push(47u8);
        assert(v@ =~= seq![47u8]);
        return v;
    }
    let (a, b) = strip_of(r);
    if n > 0 && r[n - 1] == 10u8 {
        let mut v: Vec<u8> = Vec::new();
        v.push(32u8);
        push_range(&mut v, r, a, b);
        v.push(10u8);
        assert(v@ =~= seq![32u8] + strip(r@) + seq![10u8]);
        return v;
    }
    if cfg.force_equal_sign_alignment && !(n > 0 && r[n - 1] == 32u8) {
        let mut v: Vec<u8> = Vec::new();
        push_range(&mut v, r, 0, n);
        v.push(32u8);
        assert(r@.subrange(0, n as int) =~= r@);
        assert(v@ =~= r@.push(32u8));
        return v;
    }
    let mut v: Vec<u8> = Vec::new();
    v.push(32u8);
    push_range(&mut v, r, a, b);
    v.push(32u8);
    assert(v@ =~= seq![32u8] + strip(r@) + seq![32u8]);
    v
}

/// The bounds of [`strip`] in `r`.
fn strip_of(r: &[u8]) -> (ab: (usize, usize))
    ensures
        ab.0 <= ab.1 <= r@.len(),
        r@.subrange(ab.0 as int, ab.1 as int) == strip(r@),
{
    let n = r.len();
    let mut a: usize = 0;
    while a < n && (is_ruby_ws(r[a]) || r[a] == 0u8)
        invariant
            n == r@.len(),
            a <= n,
            strip_start(r@, a as int) == strip_start(r@, 0),
        decreases n - a,
    {
        a += 1;
    }
    let mut b: usize = n;
    while a < b && (is_ruby_ws(r[b - 1]) || r[b - 1] == 0u8)
        invariant
            n == r@.len(),
            a <= b <= n,
            a == strip_start(r@, 0),
            strip_end(r@, a as int, b as int) == strip_end(r@, a as int, n as int),
        decreases b - a,
    {
        b -= 1;
    }
    (a, b)
}


/// Only `**` and `/` are ever reported for having space around them: every
/// decided offense with that message is one of the two.
pub proof fn detected_only_for_exponent_or_slash(s: Seq<u8>, cfg: Config, cs: Seq<OpCheck>)
    requires
        checks_ok(cs, s.len()),
    ensures
        forall|j: int|
            0 <= j < decided_of(s, cfg, cs).len() && (#[trigger] decided_of(s, cfg, cs)[j]).4 == MessageKind::Detected
                ==> decided_of(s, cfg, cs)[j].5 == seq![42u8, 42u8] || decided_of(s, cfg, cs)[j].5 == seq![47u8],
    decreases cs.len(),
{
    if cs.len() > 0 {
        let c = cs.last();
        let pre = cs.drop_last();
        assert(checks_ok(pre, s.len())) by {
            assert forall|j: int| 0 <= j < pre.len() implies (#[trigger] pre[j]).op_start <= pre[j].op_end <= s.len() by {
                assert(pre[j] == cs[j]);
            }
        }
        detected_only_for_exponent_or_slash(s, cfg, pre);
        let all = decided_of(s, cfg, cs);
        let prev = decided_of(s, cfg, pre);
        assert(c.op_start <= c.op_end <= s.len());
        match outcome(s, cfg, c) {
            Some((k, w0, w1, repl)) => {
                if k != MessageKind::SingleSpace {
                    let o = (c.op_start, c.op_end, w0, w1, k, s.subrange(c.op_start as int, c.op_end as int), repl);
                    assert(all == prev + seq![o]);
                    if k == MessageKind::Detected {
                        let (a, b) = (c.op_start as int, c.op_end as int);
                        if b == a + 2 && 0 <= a && a + 1 < s.len() && s[a] == 42u8 && s[a + 1] == 42u8 {
                            assert(s.subrange(a, b) =~= seq![42u8, 42u8]);
                        } else {
                            assert(one_byte(s, a, b, 47u8));
                            assert(s.subrange(a, b) =~= seq![47u8]);
                        }
                    }
                    assert forall|j: int|
                        0 <= j < all.len() && (#[trigger] all[j]).4 == MessageKind::Detected implies all[j].5 == seq![
                        42u8,
                        42u8,
                    ] || all[j].5 == seq![47u8] by {
                        if j < prev.len() {
                            assert(all[j] == prev[j]);
                        } else {
                            assert(all[j] == o);
                        }
                    }
                } else {
                    assert(all =~= prev);
                }
            },
            None => {
                assert(all =~= prev);
            },
        }
    }
}

} // verus!
