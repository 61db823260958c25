//! What the RSpec rules read off one call: its name and roles, the kind of
//! block it carries, its receiver, its arguments and their literals.

use vstd::prelude::*;
use crate::syntax::{SyntaxTree, tree_wf, node_wf, indices_in};
use crate::syntax::kinds;
use crate::syntax::access::{child, range, text, children, args_of_node, child_at, range_at, text_at, list_at,
    args_of};
use crate::rules::bytes::vec_is;
use crate::rules::rspec_language::RSpecConfig;

verus! {

/// The block a call carries, in the parser gem's terms: none, a block pass
/// (`&blk`), a block with ordinary or no parameters, one with numbered
/// parameters (`_1`) or one with `it`.
#[derive(Clone, Copy, PartialEq, Eq, Structural, Debug)]
pub enum BlockKind {
    NoBlock,
    BlockArg,
    Plain,
    Numbered,
    It,
}

/// A literal name of a memoized helper: a symbol or a string (their node),
/// an interpolated or `%()`-empty one (its range, compared by the parser
/// gem's node equality elsewhere), or none.
#[derive(Clone, Copy, PartialEq, Eq, Structural, Debug)]
pub enum VarDef {
    Sym(usize),
    Str(usize),
    Dyn(usize, usize),
    Nil,
}

/// A literal first argument of a helper or subject call under a top-level
/// group: its range, its kind (0 symbol, 1 string, 2 interpolated symbol)
/// and its node.
#[derive(Clone, Copy, PartialEq, Eq, Structural, Debug)]
pub struct VarCandidate {
    pub start: usize,
    pub end: usize,
    pub kind: u8,
    pub node: usize,
}

/// The name of call `i`.
pub open spec fn call_name(t: SyntaxTree, i: int) -> Seq<u8> {
    match text_at(t, i, kinds::CALL_NODE_NAME as int) {
        Some(n) => n,
        None => Seq::empty(),
    }
}

/// The role mask of call `i`.
pub open spec fn role(cfg: RSpecConfig, t: SyntaxTree, i: int) -> u32 {
    cfg.spec_roles_of(call_name(t, i))
}

/// The block kind of call `i`.
pub open spec fn block_kind(t: SyntaxTree, i: int) -> BlockKind {
    match child_at(t, i, kinds::CALL_NODE_BLOCK as int) {
        None => BlockKind::NoBlock,
        Some(b) => if t.nodes@[b as int].kind == kinds::BLOCK_NODE {
            match child_at(t, b as int, kinds::BLOCK_NODE_PARAMETERS as int) {
                Some(p) => if t.nodes@[p as int].kind == kinds::NUMBERED_PARAMETERS_NODE {
                    BlockKind::Numbered
                } else if t.nodes@[p as int].kind == kinds::IT_PARAMETERS_NODE {
                    BlockKind::It
                } else {
                    BlockKind::Plain
                },
                None => BlockKind::Plain,
            }
        } else {
            BlockKind::BlockArg
        },
    }
}

/// A block literal of any kind.
pub open spec fn is_literal_block(k: BlockKind) -> bool {
    k == BlockKind::Plain || k == BlockKind::Numbered || k == BlockKind::It
}

/// The receiver of call `i`.
pub open spec fn receiver(t: SyntaxTree, i: int) -> Option<usize> {
    child_at(t, i, kinds::CALL_NODE_RECEIVER as int)
}

/// The number of arguments of call `i` (a block pass not counted).
pub open spec fn n_args(t: SyntaxTree, i: int) -> nat {
    args_of(t, i, kinds::CALL_NODE_ARGUMENTS as int).len()
}

/// The first argument of call `i`.
pub open spec fn first_arg(t: SyntaxTree, i: int) -> Option<usize> {
    let a = args_of(t, i, kinds::CALL_NODE_ARGUMENTS as int);
    if a.len() > 0 { Some(a[0]) } else { None }
}

/// `RSpec`.
pub open spec fn rspec_word() -> Seq<u8> {
    seq![82u8, 83u8, 112u8, 101u8, 99u8]
}

/// Node `r` is the constant `RSpec` or `::RSpec`.
pub open spec fn rspec_const(t: SyntaxTree, r: int) -> bool {
    let k = t.nodes@[r].kind;
    ||| k == kinds::CONSTANT_READ_NODE && text_at(t, r, kinds::CONSTANT_READ_NODE_NAME as int) == Some(rspec_word())
    ||| k == kinds::CONSTANT_PATH_NODE && child_at(t, r, kinds::CONSTANT_PATH_NODE_PARENT as int) is None
        && text_at(t, r, kinds::CONSTANT_PATH_NODE_NAME as int) == Some(rspec_word())
}

/// Call `i` has no receiver, or `RSpec` / `::RSpec`.
pub open spec fn rspec_recv(t: SyntaxTree, i: int) -> bool {
    match receiver(t, i) {
        None => true,
        Some(r) => rspec_const(t, r as int),
    }
}

/// The range of call `i` without a block literal after it: up to its
/// closing parenthesis, a block pass, its last argument or its name.
pub open spec fn send_range(t: SyntaxTree, i: int) -> (usize, usize) {
    let nd = t.nodes@[i];
    let args = args_of(t, i, kinds::CALL_NODE_ARGUMENTS as int);
    match range_at(t, i, kinds::CALL_NODE_CLOSING_LOC as int) {
        Some((_, c1)) => (nd.start, c1),
        None => if block_kind(t, i) == BlockKind::BlockArg {
            (nd.start, t.nodes@[child_at(t, i, kinds::CALL_NODE_BLOCK as int)->0 as int].end)
        } else if args.len() > 0 {
            (nd.start, t.nodes@[args.last() as int].end)
        } else {
            match range_at(t, i, kinds::CALL_NODE_MESSAGE_LOC as int) {
                Some((_, m1)) => (nd.start, m1),
                None => (nd.start, nd.end),
            }
        },
    }
}

/// The range of the name of call `i`, or of the whole call without one.
pub open spec fn selector_range(t: SyntaxTree, i: int) -> (usize, usize) {
    match range_at(t, i, kinds::CALL_NODE_MESSAGE_LOC as int) {
        Some(m) => m,
        None => (t.nodes@[i].start, t.nodes@[i].end),
    }
}

/// Node `n` is a symbol spelled `w1` or `w2`.
pub open spec fn sym_named(t: SyntaxTree, n: int, w1: Seq<u8>, w2: Seq<u8>) -> bool {
    t.nodes@[n].kind == kinds::SYMBOL_NODE && match text_at(t, n, kinds::SYMBOL_NODE_UNESCAPED as int) {
        Some(v) => v == w1 || v == w2,
        None => false,
    }
}

/// The elements of node `l` when it is a hash, braced or not.
pub open spec fn hash_elements(t: SyntaxTree, l: int) -> Seq<usize> {
    let k = t.nodes@[l].kind;
    if k == kinds::HASH_NODE {
        list_at(t, l, kinds::HASH_NODE_ELEMENTS as int)
    } else if k == kinds::KEYWORD_HASH_NODE {
        list_at(t, l, kinds::KEYWORD_HASH_NODE_ELEMENTS as int)
    } else {
        Seq::empty()
    }
}

/// Node `e` is a pair whose key is a symbol spelled `w1` or `w2`.
pub open spec fn pair_named(t: SyntaxTree, e: int, w1: Seq<u8>, w2: Seq<u8>) -> bool {
    t.nodes@[e].kind == kinds::ASSOC_NODE && match child_at(t, e, kinds::ASSOC_NODE_KEY as int) {
        Some(k) => sym_named(t, k as int, w1, w2),
        None => false,
    }
}

/// An argument of call `i` is a symbol spelled `w1` or `w2`, or its last
/// argument is a hash with a pair keyed by one.
pub open spec fn has_symbol_metadata(t: SyntaxTree, i: int, w1: Seq<u8>, w2: Seq<u8>) -> bool {
    let a = args_of(t, i, kinds::CALL_NODE_ARGUMENTS as int);
    ||| exists|j: int| 0 <= j < a.len() && sym_named(t, #[trigger] a[j] as int, w1, w2)
    ||| a.len() > 0 && exists|e: int| 0 <= e < hash_elements(t, a.last() as int).len()
        && pair_named(t, #[trigger] hash_elements(t, a.last() as int)[e] as int, w1, w2)
}

/// `focus`.
pub open spec fn focus_word() -> Seq<u8> {
    seq![102u8, 111u8, 99u8, 117u8, 115u8]
}

/// `skip`.
pub open spec fn skip_word() -> Seq<u8> {
    seq![115u8, 107u8, 105u8, 112u8]
}

/// `pending`.
pub open spec fn pending_word() -> Seq<u8> {
    seq![112u8, 101u8, 110u8, 100u8, 105u8, 110u8, 103u8]
}

/// The string node `n` is an empty percent string (`%()`), which the parser
/// gem reads as an interpolated string.
pub open spec fn parser_dstr(s: Seq<u8>, t: SyntaxTree, n: int) -> bool {
    &&& text_at(t, n, kinds::STRING_NODE_UNESCAPED as int) == Some(Seq::<u8>::empty())
    &&& range_at(t, n, kinds::STRING_NODE_OPENING_LOC as int) matches Some((o0, o1)) && o0 < o1 && o0 < s.len()
        && s[o0 as int] == 37u8
}

/// The literal name of helper or subject call `i`.
pub open spec fn var_def(s: Seq<u8>, t: SyntaxTree, i: int) -> VarDef {
    match first_arg(t, i) {
        None => VarDef::Nil,
        Some(f) => {
            let k = t.nodes@[f as int].kind;
            let rg = (t.nodes@[f as int].start, t.nodes@[f as int].end);
            if k == kinds::SYMBOL_NODE {
                VarDef::Sym(f)
            } else if k == kinds::STRING_NODE {
                if parser_dstr(s, t, f as int) { VarDef::Dyn(rg.0, rg.1) } else { VarDef::Str(f) }
            } else if k == kinds::INTERPOLATED_SYMBOL_NODE || k == kinds::INTERPOLATED_STRING_NODE {
                VarDef::Dyn(rg.0, rg.1)
            } else {
                VarDef::Nil
            }
        },
    }
}

/// `let!`.
pub open spec fn let_bang_word() -> Seq<u8> {
    seq![108u8, 101u8, 116u8, 33u8]
}

/// The name of call `i` when it is `let!` with one symbol (kind 0) or string
/// (kind 1) argument: the kind and the node.
pub open spec fn bang_name(t: SyntaxTree, i: int) -> Option<(u8, usize)> {
    if call_name(t, i) == let_bang_word() && n_args(t, i) == 1 {
        let f = first_arg(t, i)->0;
        if t.nodes@[f as int].kind == kinds::SYMBOL_NODE {
            Some((0u8, f))
        } else if t.nodes@[f as int].kind == kinds::STRING_NODE {
            Some((1u8, f))
        } else {
            None
        }
    } else {
        None
    }
}

/// The literal first argument of call `i` as a variable-name candidate.
pub open spec fn var_candidate(s: Seq<u8>, t: SyntaxTree, i: int) -> Option<VarCandidate> {
    match first_arg(t, i) {
        None => None,
        Some(f) => {
            let k = t.nodes@[f as int].kind;
            let (a, b) = (t.nodes@[f as int].start, t.nodes@[f as int].end);
            if k == kinds::SYMBOL_NODE {
                Some(VarCandidate { start: a, end: b, kind: 0, node: f })
            } else if k == kinds::STRING_NODE && !parser_dstr(s, t, f as int) {
                Some(VarCandidate { start: a, end: b, kind: 1, node: f })
            } else if k == kinds::INTERPOLATED_SYMBOL_NODE {
                Some(VarCandidate { start: a, end: b, kind: 2, node: f })
            } else {
                None
            }
        },
    }
}

/// The text of the symbol or string node `n`.
pub open spec fn lit_text(t: SyntaxTree, n: int) -> Seq<u8> {
    let f = if t.nodes@[n].kind == kinds::SYMBOL_NODE { kinds::SYMBOL_NODE_UNESCAPED } else {
        kinds::STRING_NODE_UNESCAPED };
    match text_at(t, n, f as int) {
        Some(v) => v,
        None => Seq::empty(),
    }
}

/// Statement `c` defines a subject: a receiverless call with a subject role
/// and a block with ordinary parameters.
pub open spec fn is_subject_def(cfg: RSpecConfig, t: SyntaxTree, c: int) -> bool {
    &&& t.nodes@[c].kind == kinds::CALL_NODE
    &&& receiver(t, c) is None
    &&& role(cfg, t, c) & crate::rules::rspec_language::roles::SUBJECTS != 0
    &&& block_kind(t, c) == BlockKind::Plain
}

/// Of the statements `stmts` from `k` on, whether the first subject
/// definition names its subject.
pub open spec fn first_subject_def(cfg: RSpecConfig, t: SyntaxTree, stmts: Seq<usize>, k: int) -> Option<bool>
    decreases stmts.len() - k,
{
    if k < 0 || k >= stmts.len() {
        None
    } else if is_subject_def(cfg, t, stmts[k] as int) {
        Some(n_args(t, stmts[k] as int) > 0)
    } else {
        first_subject_def(cfg, t, stmts, k + 1)
    }
}

/// Of the statements of the block of call `i`, whether the first subject
/// definition names its subject.
pub open spec fn direct_subject_def(cfg: RSpecConfig, t: SyntaxTree, i: int) -> Option<bool> {
    match child_at(t, i, kinds::CALL_NODE_BLOCK as int) {
        Some(b) => if t.nodes@[b as int].kind != kinds::BLOCK_NODE {
            None
        } else {
            match child_at(t, b as int, kinds::BLOCK_NODE_BODY as int) {
                Some(body) => if t.nodes@[body as int].kind == kinds::STATEMENTS_NODE {
                    first_subject_def(cfg, t, list_at(t, body as int, kinds::STATEMENTS_NODE_BODY as int), 0)
                } else {
                    None
                },
                None => None,
            }
        },
        None => None,
    }
}

/// The first argument of call `i` is a constant.
pub open spec fn const_first_arg(t: SyntaxTree, i: int) -> bool {
    first_arg(t, i) matches Some(f) && (t.nodes@[f as int].kind == kinds::CONSTANT_READ_NODE
        || t.nodes@[f as int].kind == kinds::CONSTANT_PATH_NODE)
}

/// [`call_name`].
pub fn call_name_of<'a>(t: &'a SyntaxTree, i: usize) -> (r: &'a [u8])
    requires
        i < t.nodes@.len(),
    ensures
        r@ == call_name(*t, i as int),
{
    match text(t, i, kinds::CALL_NODE_NAME) {
        Some(v) => v.as_slice(),
        None => &[],
    }
}

/// [`role`].
pub fn role_of(cfg: &RSpecConfig, t: &SyntaxTree, i: usize) -> (r: u32)
    requires
        cfg.wf(),
        i < t.nodes@.len(),
    ensures
        r == role(*cfg, *t, i as int),
{
    cfg.roles_of(call_name_of(t, i))
}

/// [`block_kind`].
pub fn block_kind_of(t: &SyntaxTree, i: usize) -> (r: BlockKind)
    requires
        tree_wf(*t),
        i < t.nodes@.len(),
    ensures
        r == block_kind(*t, i as int),
{
    match child(t, i, kinds::CALL_NODE_BLOCK) {
        None => BlockKind::NoBlock,
        Some(b) => if t.nodes[b].kind == kinds::BLOCK_NODE {
            match child(t, b, kinds::BLOCK_NODE_PARAMETERS) {
                Some(p) => if t.nodes[p].kind == kinds::NUMBERED_PARAMETERS_NODE {
                    BlockKind::Numbered
                } else if t.nodes[p].kind == kinds::IT_PARAMETERS_NODE {
                    BlockKind::It
                } else {
                    BlockKind::Plain
                },
                None => BlockKind::Plain,
            }
        } else {
            BlockKind::BlockArg
        },
    }
}

/// [`rspec_recv`].
pub fn rspec_recv_of(t: &SyntaxTree, i: usize) -> (r: bool)
    requires
        tree_wf(*t),
        i < t.nodes@.len(),
    ensures
        r == rspec_recv(*t, i as int),
{
    let w: &[u8] = &[82u8, 83u8, 112u8, 101u8, 99u8];
    assert(w@ =~= rspec_word());
    match child(t, i, kinds::CALL_NODE_RECEIVER) {
        None => true,
        Some(r) => {
            let k = t.nodes[r].kind;
            if k == kinds::CONSTANT_READ_NODE {
                match text(t, r, kinds::CONSTANT_READ_NODE_NAME) {
                    Some(n) => vec_is(n, w),
                    None => false,
                }
            } else if k == kinds::CONSTANT_PATH_NODE {
                child(t, r, kinds::CONSTANT_PATH_NODE_PARENT).is_none() && match text(t, r,
                    kinds::CONSTANT_PATH_NODE_NAME) {
                    Some(n) => vec_is(n, w),
                    None => false,
                }
            } else {
                false
            }
        },
    }
}

/// [`n_args`] and [`first_arg`].
pub fn args_info(t: &SyntaxTree, i: usize) -> (r: (usize, Option<usize>))
    requires
        tree_wf(*t),
        i < t.nodes@.len(),
    ensures
        r.0 == n_args(*t, i as int),
        r.1 == first_arg(*t, i as int),
        r.1 matches Some(f) ==> f < t.nodes@.len(),
{
    match args_of_node(t, i, kinds::CALL_NODE_ARGUMENTS) {
        Some(a) => if a.len() > 0 { (a.len(), Some(a[0])) } else { (0, None) },
        None => (0, None),
    }
}

/// [`send_range`].
pub fn send_range_of(t: &SyntaxTree, i: usize) -> (r: (usize, usize))
    requires
        tree_wf(*t),
        i < t.nodes@.len(),
    ensures
        r == send_range(*t, i as int),
{
    assert(node_wf(*t, i as int, t.source_len as nat));
    let start = t.nodes[i].start;
    if let Some((_, c1)) = range(t, i, kinds::CALL_NODE_CLOSING_LOC) {
        return (start, c1);
    }
    if block_kind_of(t, i) == BlockKind::BlockArg {
        let b = child(t, i, kinds::CALL_NODE_BLOCK).unwrap();
        return (start, t.nodes[b].end);
    }
    if let Some(a) = args_of_node(t, i, kinds::CALL_NODE_ARGUMENTS) {
        if a.len() > 0 {
            return (start, t.nodes[a[a.len() - 1]].end);
        }
    }
    match range(t, i, kinds::CALL_NODE_MESSAGE_LOC) {
        Some((_, m1)) => (start, m1),
        None => (start, t.nodes[i].end),
    }
}

/// [`selector_range`].
pub fn selector_range_of(t: &SyntaxTree, i: usize) -> (r: (usize, usize))
    requires
        tree_wf(*t),
        i < t.nodes@.len(),
    ensures
        r == selector_range(*t, i as int),
{
    match range(t, i, kinds::CALL_NODE_MESSAGE_LOC) {
        Some(m) => m,
        None => (t.nodes[i].start, t.nodes[i].end),
    }
}

/// [`sym_named`].
fn sym_named_of(t: &SyntaxTree, n: usize, w1: &[u8], w2: &[u8]) -> (r: bool)
    requires
        tree_wf(*t),
        n < t.nodes@.len(),
    ensures
        r == sym_named(*t, n as int, w1@, w2@),
{
    if t.nodes[n].kind != kinds::SYMBOL_NODE {
        return false;
    }
    match text(t, n, kinds::SYMBOL_NODE_UNESCAPED) {
        Some(v) => vec_is(v, w1) || vec_is(v, w2),
        None => false,
    }
}

/// [`has_symbol_metadata`].
pub fn has_symbol_metadata_of(t: &SyntaxTree, i: usize, w1: &[u8], w2: &[u8]) -> (r: bool)
    requires
        tree_wf(*t),
        i < t.nodes@.len(),
    ensures
        r == has_symbol_metadata(*t, i as int, w1@, w2@),
{
    let a = match args_of_node(t, i, kinds::CALL_NODE_ARGUMENTS) {
        Some(a) => a,
        None => return false,
    };
    let mut j: usize = 0;
    while j < a.len()
        invariant
            tree_wf(*t),
            indices_in(a@, t.nodes@.len() as nat),
            i < t.nodes@.len(),
            a@ == args_of(*t, i as int, kinds::CALL_NODE_ARGUMENTS as int),
            j <= a@.len(),
            forall|q: int| 0 <= q < j ==> !sym_named(*t, #[trigger] a@[q] as int, w1@, w2@),
        decreases a.len() - j,
    {
        if sym_named_of(t, a[j], w1, w2) {
            return true;
        }
        j += 1;
    }
    if a.len() == 0 {
        return false;
    }
    let l = a[a.len() - 1];
    let k = t.nodes[l].kind;
    let els = if k == kinds::HASH_NODE {
        children(t, l, kinds::HASH_NODE_ELEMENTS)
    } else if k == kinds::KEYWORD_HASH_NODE {
        children(t, l, kinds::KEYWORD_HASH_NODE_ELEMENTS)
    } else {
        None
    };
    let els = match els {
        Some(e) => e,
        None => {
            assert(hash_elements(*t, l as int).len() == 0);
            return false;
        },
    };
    assert(els@ == hash_elements(*t, l as int));
    let mut e: usize = 0;
    while e < els.len()
        invariant
            tree_wf(*t),
            indices_in(els@, t.nodes@.len() as nat),
            i < t.nodes@.len(),
            a@ == args_of(*t, i as int, kinds::CALL_NODE_ARGUMENTS as int),
            a@.len() > 0,
            l == a@.last(),
            els@ == hash_elements(*t, l as int),
            e <= els@.len(),
            forall|q: int| 0 <= q < e ==> !pair_named(*t, #[trigger] els@[q] as int, w1@, w2@),
        decreases els.len() - e,
    {
        let x = els[e];
        if t.nodes[x].kind == kinds::ASSOC_NODE {
            match child(t, x, kinds::ASSOC_NODE_KEY) {
                Some(key) => if sym_named_of(t, key, w1, w2) {
                    return true;
                },
                None => {},
            }
        }
        e += 1;
    }
    false
}

/// [`parser_dstr`].
pub fn parser_dstr_of(s: &[u8], t: &SyntaxTree, n: usize) -> (r: bool)
    requires
        tree_wf(*t),
        n < t.nodes@.len(),
    ensures
        r == parser_dstr(s@, *t, n as int),
{
    let empty = match text(t, n, kinds::STRING_NODE_UNESCAPED) {
        Some(v) => v.len() == 0,
        None => false,
    };
    proof {
        if let Some(v) = text_at(*t, n as int, kinds::STRING_NODE_UNESCAPED as int) {
            if v.len() == 0 {
                assert(v =~= Seq::<u8>::empty());
            }
        }
    }
    if !empty {
        return false;
    }
    match range(t, n, kinds::STRING_NODE_OPENING_LOC) {
        Some((o0, o1)) => o0 < o1 && o0 < s.len() && s[o0] == 37u8,
        None => false,
    }
}

/// [`var_def`].
pub fn var_def_of(s: &[u8], t: &SyntaxTree, i: usize) -> (r: VarDef)
    requires
        tree_wf(*t),
        i < t.nodes@.len(),
    ensures
        r == var_def(s@, *t, i as int),
        r matches VarDef::Sym(n) ==> n < t.nodes@.len(),
        r matches VarDef::Str(n) ==> n < t.nodes@.len(),
{
    match args_info(t, i).1 {
        None => VarDef::Nil,
        Some(f) => {
            let k = t.nodes[f].kind;
            let (a, b) = (t.nodes[f].start, t.nodes[f].end);
            if k == kinds::SYMBOL_NODE {
                VarDef::Sym(f)
            } else if k == kinds::STRING_NODE {
                if parser_dstr_of(s, t, f) { VarDef::Dyn(a, b) } else { VarDef::Str(f) }
            } else if k == kinds::INTERPOLATED_SYMBOL_NODE || k == kinds::INTERPOLATED_STRING_NODE {
                VarDef::Dyn(a, b)
            } else {
                VarDef::Nil
            }
        },
    }
}

/// [`bang_name`].
pub fn bang_name_of(t: &SyntaxTree, i: usize) -> (r: Option<(u8, usize)>)
    requires
        tree_wf(*t),
        i < t.nodes@.len(),
    ensures
        r == bang_name(*t, i as int),
        r matches Some((_, n)) ==> n < t.nodes@.len(),
{
    let w: &[u8] = &[108u8, 101u8, 116u8, 33u8];
    assert(w@ =~= let_bang_word());
    let nm = call_name_of(t, i);
    let (n, f) = args_info(t, i);
    let is_bang = nm.len() == 4 && nm[0] == 108u8 && nm[1] == 101u8 && nm[2] == 116u8 && nm[3] == 33u8;
    assert(is_bang == (nm@ == let_bang_word())) by {
        if nm@.len() == 4 && nm@[0] == 108u8 && nm@[1] == 101u8 && nm@[2] == 116u8 && nm@[3] == 33u8 {
            assert(nm@ =~= let_bang_word());
        }
    }
    if is_bang && n == 1 {
        let f = f.unwrap();
        if t.nodes[f].kind == kinds::SYMBOL_NODE {
            Some((0u8, f))
        } else if t.nodes[f].kind == kinds::STRING_NODE {
            Some((1u8, f))
        } else {
            None
        }
    } else {
        None
    }
}

/// [`var_candidate`].
pub fn var_candidate_of(s: &[u8], t: &SyntaxTree, i: usize) -> (r: Option<VarCandidate>)
    requires
        tree_wf(*t),
        i < t.nodes@.len(),
    ensures
        r == var_candidate(s@, *t, i as int),
        r matches Some(c) ==> c.node < t.nodes@.len(),
{
    match args_info(t, i).1 {
        None => None,
        Some(f) => {
            let k = t.nodes[f].kind;
            let (a, b) = (t.nodes[f].start, t.nodes[f].end);
            if k == kinds::SYMBOL_NODE {
                Some(VarCandidate { start: a, end: b, kind: 0, node: f })
            } else if k == kinds::STRING_NODE && !parser_dstr_of(s, t, f) {
                Some(VarCandidate { start: a, end: b, kind: 1, node: f })
            } else if k == kinds::INTERPOLATED_SYMBOL_NODE {
                Some(VarCandidate { start: a, end: b, kind: 2, node: f })
            } else {
                None
            }
        },
    }
}

/// [`lit_text`].
pub fn lit_text_of<'a>(t: &'a SyntaxTree, n: usize) -> (r: &'a [u8])
    requires
        n < t.nodes@.len(),
    ensures
        r@ == lit_text(*t, n as int),
{
    let f = if t.nodes[n].kind == kinds::SYMBOL_NODE { kinds::SYMBOL_NODE_UNESCAPED } else {
        kinds::STRING_NODE_UNESCAPED };
    match text(t, n, f) {
        Some(v) => v.as_slice(),
        None => &[],
    }
}

/// [`direct_subject_def`].
pub fn direct_subject_def_of(cfg: &RSpecConfig, t: &SyntaxTree, i: usize) -> (r: Option<bool>)
    requires
        cfg.wf(),
        tree_wf(*t),
        i < t.nodes@.len(),
    ensures
        r == direct_subject_def(*cfg, *t, i as int),
{
    let b = match child(t, i, kinds::CALL_NODE_BLOCK) {
        Some(b) => b,
        None => return None,
    };
    if t.nodes[b].kind != kinds::BLOCK_NODE {
        return None;
    }
    let body = match child(t, b, kinds::BLOCK_NODE_BODY) {
        Some(x) => x,
        None => return None,
    };
    if t.nodes[body].kind != kinds::STATEMENTS_NODE {
        return None;
    }
    let stmts = match children(t, body, kinds::STATEMENTS_NODE_BODY) {
        Some(v) => v,
        None => {
            assert(first_subject_def(*cfg, *t, Seq::<usize>::empty(), 0) is None);
            return None;
        },
    };
    let mut k: usize = 0;
    while k < stmts.len()
        invariant
            cfg.wf(),
            tree_wf(*t),
            indices_in(stmts@, t.nodes@.len() as nat),
            k <= stmts@.len(),
            direct_subject_def(*cfg, *t, i as int) == first_subject_def(*cfg, *t, stmts@, k as int),
        decreases stmts.len() - k,
    {
        let c = stmts[k];
        if t.nodes[c].kind == kinds::CALL_NODE && child(t, c, kinds::CALL_NODE_RECEIVER).is_none()
            && role_of(cfg, t, c) & crate::rules::rspec_language::roles::SUBJECTS != 0 && block_kind_of(t, c)
            == BlockKind::Plain {
            return Some(args_info(t, c).0 > 0);
        }
        k += 1;
    }
    None
}

/// [`const_first_arg`].
pub fn const_first_arg_of(t: &SyntaxTree, i: usize) -> (r: bool)
    requires
        tree_wf(*t),
        i < t.nodes@.len(),
    ensures
        r == const_first_arg(*t, i as int),
{
    match args_info(t, i).1 {
        Some(f) => t.nodes[f].kind == kinds::CONSTANT_READ_NODE || t.nodes[f].kind == kinds::CONSTANT_PATH_NODE,
        None => false,
    }
}

} // verus!
