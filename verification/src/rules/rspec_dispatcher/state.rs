//! The walk of the RSpec rules.
//!
//! Every entered node pushes a frame, every left node pops one. A call
//! whose name has a role may open a scope (a block literal with ordinary
//! parameters) and may be collected as a `let`, a `subject` or an example.
//! A collected item belongs to the open scopes from the innermost outwards
//! up to and including the first that halts its collection: a scope change
//! (a group with an RSpec receiver or an `include_*` block) or an example
//! halts all three; a `let` scope halts the lets and a `subject` scope the
//! subjects. The scopes outlive the walk: the verdicts are taken after it.

use vstd::prelude::*;
use crate::syntax::{SyntaxTree, tree_wf, node_wf};
use crate::syntax::kinds;
use crate::syntax::walk::Event;
use crate::rules::rspec_language::{RSpecConfig, roles};
use super::calls::{BlockKind, VarDef, VarCandidate, call_name, role, block_kind, is_literal_block, receiver, n_args,
    rspec_recv, send_range, selector_range, has_symbol_metadata, focus_word, skip_word, pending_word, var_def,
    bang_name, var_candidate, direct_subject_def, const_first_arg, call_name_of, role_of, block_kind_of,
    rspec_recv_of, args_info, send_range_of, selector_range_of, has_symbol_metadata_of, var_def_of, bang_name_of,
    var_candidate_of, direct_subject_def_of, const_first_arg_of};

verus! {

/// The roles `RSpec/Focus` looks for focus metadata on: regular and skipped
/// groups and examples, pending examples and shared groups.
pub const FOCUSABLE: u32 = roles::EG_REGULAR | roles::EG_SKIPPED | roles::EX_REGULAR | roles::EX_SKIPPED
    | roles::EX_PENDING | roles::SG_ALL;

/// The focused groups and examples.
pub const FOCUSED: u32 = roles::EG_FOCUSED | roles::EX_FOCUSED;

/// The names that make a call a `RSpec/PendingWithoutReason` candidate:
/// skipped and pending examples, skipped groups.
pub const SKIP_PENDING: u32 = roles::EX_SKIPPED | roles::EX_PENDING | roles::EG_SKIPPED;

/// The roles whose blocks carry metadata: examples, groups, shared groups
/// and hooks.
pub const METADATA_ROLES: u32 = roles::EX_ALL | roles::EG_ALL | roles::SG_ALL | roles::HOOKS;

/// One open node: whether it opened a scope, and whether it is a top-level
/// spec group.
#[derive(Clone, Copy)]
pub struct Frame {
    pub opened_scope: bool,
    pub top_spec: bool,
}

/// A block literal with ordinary parameters on a call with a role.
#[derive(Clone, Copy)]
pub struct Scope {
    /// The scope that was innermost when this one opened.
    pub parent: Option<usize>,
    /// The range of the call with its block.
    pub range: (usize, usize),
    /// A group or shared group with an RSpec receiver, or an `include_*`
    /// block.
    pub scope_change: bool,
    /// A group or shared group with an RSpec receiver.
    pub spec_group: bool,
    /// A group with an RSpec receiver.
    pub example_group: bool,
    /// A receiverless example.
    pub example: bool,
    /// A receiverless example or hook.
    pub example_or_hook: bool,
    /// A `shared_examples` group with an RSpec receiver.
    pub shared_examples: bool,
    /// Whether the first subject definition among the block's statements
    /// names its subject; none without one.
    pub subject_def_named: Option<bool>,
    /// The call is a collected `let`.
    pub let_barrier: bool,
    /// The call is a collected `subject`.
    pub subject_barrier: bool,
    /// A group whose first argument is a constant.
    pub described_class_candidate: bool,
}

/// A collected `let`: its range without the block, its name when it is
/// `let!` with one symbol or string, and its literal name.
#[derive(Clone, Copy)]
pub struct LetItem {
    pub send_range: (usize, usize),
    pub bang: Option<(u8, usize)>,
    pub var_def: VarDef,
}

/// The three collections of the scopes.
#[derive(Clone, Copy, PartialEq, Eq, Structural)]
pub enum Collection {
    Lets,
    Subjects,
    Examples,
}

/// The state of the walk, as values.
#[verifier::ext_equal]
pub struct Walk {
    pub stack: Seq<Frame>,
    pub scope_stack: Seq<usize>,
    pub scopes: Seq<Scope>,
    pub let_items: Seq<LetItem>,
    /// `(scope, item)`: the item belongs to the scope; in collection order.
    pub let_links: Seq<(usize, usize)>,
    pub subject_items: Seq<VarDef>,
    pub subject_links: Seq<(usize, usize)>,
    /// The ranges of the collected examples.
    pub example_items: Seq<(usize, usize)>,
    pub example_links: Seq<(usize, usize)>,
    /// The receiverless calls without arguments or block pass.
    pub zero_arg_calls: Seq<usize>,
    pub candidates: Seq<VarCandidate>,
    pub named_subject: Seq<(usize, usize)>,
    pub anchors: Seq<(usize, usize)>,
    pub focus: Seq<(usize, usize)>,
    pub pending: Seq<(usize, usize)>,
}

/// The state before the walk.
pub open spec fn initial_walk() -> Walk {
    Walk {
        stack: Seq::empty(),
        scope_stack: Seq::empty(),
        scopes: Seq::empty(),
        let_items: Seq::empty(),
        let_links: Seq::empty(),
        subject_items: Seq::empty(),
        subject_links: Seq::empty(),
        example_items: Seq::empty(),
        example_links: Seq::empty(),
        zero_arg_calls: Seq::empty(),
        candidates: Seq::empty(),
        named_subject: Seq::empty(),
        anchors: Seq::empty(),
        focus: Seq::empty(),
        pending: Seq::empty(),
    }
}

/// Scope `sc` halts collection `c`.
pub open spec fn halts(sc: Scope, c: Collection) -> bool {
    sc.scope_change || sc.example || match c {
        Collection::Lets => sc.let_barrier,
        Collection::Subjects => sc.subject_barrier,
        Collection::Examples => false,
    }
}

/// The links of `item` to the open scopes `stk[..k]`, innermost first, up to
/// and including the first that halts `c`.
pub open spec fn attribute(scopes: Seq<Scope>, stk: Seq<usize>, k: int, item: usize, c: Collection) -> Seq<
    (usize, usize),
>
    decreases k,
{
    if k <= 0 {
        Seq::empty()
    } else {
        let sc = stk[k - 1];
        seq![(sc, item)] + if halts(scopes[sc as int], c) {
            Seq::empty()
        } else {
            attribute(scopes, stk, k - 1, item, c)
        }
    }
}

/// One of the open scopes `stk[..k]` is an example or hook.
pub open spec fn any_example_or_hook(scopes: Seq<Scope>, stk: Seq<usize>, k: int) -> bool
    decreases k,
{
    k > 0 && (scopes[stk[k - 1] as int].example_or_hook || any_example_or_hook(scopes, stk, k - 1))
}

/// From the outermost open scope `stk[k]` inwards, the first that is an
/// example or hook comes before any `shared_examples` group.
pub open spec fn example_before_shared(scopes: Seq<Scope>, stk: Seq<usize>, k: int) -> bool
    decreases stk.len() - k,
{
    if k < 0 || k >= stk.len() {
        false
    } else if scopes[stk[k] as int].example_or_hook {
        true
    } else if scopes[stk[k] as int].shared_examples {
        false
    } else {
        example_before_shared(scopes, stk, k + 1)
    }
}

/// Of the open scopes `stk[..k]`, the innermost that defines a subject
/// names it.
pub open spec fn nearest_subject_named(scopes: Seq<Scope>, stk: Seq<usize>, k: int) -> bool
    decreases k,
{
    if k <= 0 {
        false
    } else {
        match scopes[stk[k - 1] as int].subject_def_named {
            Some(n) => n,
            None => nearest_subject_named(scopes, stk, k - 1),
        }
    }
}

/// A bare `subject` inside the open scopes `stk` is a `RSpec/NamedSubject`
/// offense: it lies in an example or hook (with `IgnoreSharedExamples`, one
/// not inside a `shared_examples` group), and under `named_only` the
/// nearest subject definition names its subject.
pub open spec fn named_subject_offense(cfg: RSpecConfig, scopes: Seq<Scope>, stk: Seq<usize>) -> bool {
    let ok = if cfg.named_subject_ignore_shared {
        example_before_shared(scopes, stk, 0)
    } else {
        any_example_or_hook(scopes, stk, stk.len() as int)
    };
    ok && (cfg.named_subject_style != 1 || nearest_subject_named(scopes, stk, stk.len() as int))
}

/// An open node is a top-level spec group.
pub open spec fn top_open(stack: Seq<Frame>) -> bool {
    exists|k: int| 0 <= k < stack.len() && (#[trigger] stack[k]).top_spec
}

/// `subject`.
pub open spec fn subject_word() -> Seq<u8> {
    seq![115u8, 117u8, 98u8, 106u8, 101u8, 99u8, 116u8]
}

/// `configure`.
pub open spec fn configure_word() -> Seq<u8> {
    seq![99u8, 111u8, 110u8, 102u8, 105u8, 103u8, 117u8, 114u8, 101u8]
}

/// What entering call `i` records whatever its role: a receiverless call
/// without arguments or block pass, a bare `subject` that is a
/// `RSpec/NamedSubject` offense, an `RSpec.configure` block.
pub open spec fn enter_head(t: SyntaxTree, cfg: RSpecConfig, w: Walk, i: int) -> Walk {
    let kind = block_kind(t, i);
    let recv_none = receiver(t, i) is None;
    let zero = recv_none && n_args(t, i) == 0 && kind != BlockKind::BlockArg;
    Walk {
        zero_arg_calls: if zero { w.zero_arg_calls.push(i as usize) } else { w.zero_arg_calls },
        named_subject: if zero && call_name(t, i) == subject_word() && named_subject_offense(cfg, w.scopes,
            w.scope_stack) {
            w.named_subject.push(selector_range(t, i))
        } else {
            w.named_subject
        },
        anchors: if rspec_recv(t, i) && call_name(t, i) == configure_word() && is_literal_block(kind) {
            w.anchors.push((t.nodes@[i].start, t.nodes@[i].end))
        } else {
            w.anchors
        },
        ..w
    }
}

/// What entering call `i`, which has a role, records for the rules that
/// read single calls: a block with metadata, a focus or pending candidate,
/// a literal variable name under a top-level group.
pub open spec fn enter_marks(s: Seq<u8>, t: SyntaxTree, cfg: RSpecConfig, w: Walk, i: int) -> Walk {
    let rl = role(cfg, t, i);
    let kind = block_kind(t, i);
    let n = n_args(t, i);
    let rr = rspec_recv(t, i);
    Walk {
        anchors: if rr && is_literal_block(kind) && rl & METADATA_ROLES != 0 && n >= 1 {
            w.anchors.push((t.nodes@[i].start, t.nodes@[i].end))
        } else {
            w.anchors
        },
        focus: if rr && (rl & FOCUSED != 0 || (rl & FOCUSABLE != 0 && has_symbol_metadata(t, i, focus_word(),
            focus_word()))) {
            w.focus.push(send_range(t, i))
        } else {
            w.focus
        },
        pending: if rl & SKIP_PENDING != 0 || has_symbol_metadata(t, i, skip_word(), pending_word()) {
            w.pending.push(send_range(t, i))
        } else {
            w.pending
        },
        candidates: if top_open(w.stack) && receiver(t, i) is None && rl & (roles::HELPERS | roles::SUBJECTS) != 0
            && n > 0 && var_candidate(s, t, i) is Some {
            w.candidates.push(var_candidate(s, t, i)->0)
        } else {
            w.candidates
        },
        ..w
    }
}

/// Call `i` is collected as a `let`.
pub open spec fn is_let(cfg: RSpecConfig, t: SyntaxTree, i: int) -> bool {
    let kind = block_kind(t, i);
    receiver(t, i) is None && role(cfg, t, i) & roles::HELPERS != 0 && (kind == BlockKind::Plain || (kind
        == BlockKind::BlockArg && n_args(t, i) == 1))
}

/// Call `i` is collected as a `subject`.
pub open spec fn is_subject(cfg: RSpecConfig, t: SyntaxTree, i: int) -> bool {
    receiver(t, i) is None && role(cfg, t, i) & roles::SUBJECTS != 0 && block_kind(t, i) == BlockKind::Plain
}

/// Call `i` is collected as an example.
pub open spec fn is_example(cfg: RSpecConfig, t: SyntaxTree, i: int) -> bool {
    receiver(t, i) is None && role(cfg, t, i) & roles::EX_ALL != 0 && block_kind(t, i) == BlockKind::Plain
}

/// The scope call `i`, which has a role and a block with ordinary
/// parameters, opens inside the open scopes of `w`.
pub open spec fn new_scope(cfg: RSpecConfig, t: SyntaxTree, w: Walk, i: int) -> Scope {
    let rl = role(cfg, t, i);
    let recv_none = receiver(t, i) is None;
    let rr = rspec_recv(t, i);
    let spec_group = rr && rl & (roles::EG_ALL | roles::SG_ALL) != 0;
    let example_group = rr && rl & roles::EG_ALL != 0;
    Scope {
        parent: if w.scope_stack.len() > 0 { Some(w.scope_stack.last()) } else { None },
        range: (t.nodes@[i].start, t.nodes@[i].end),
        scope_change: spec_group || (recv_none && rl & roles::INC_ALL != 0),
        spec_group,
        example_group,
        example: is_example(cfg, t, i),
        example_or_hook: recv_none && rl & (roles::EX_ALL | roles::HOOKS) != 0,
        shared_examples: rr && rl & roles::SG_EXAMPLES != 0,
        subject_def_named: direct_subject_def(cfg, t, i),
        let_barrier: is_let(cfg, t, i),
        subject_barrier: is_subject(cfg, t, i),
        described_class_candidate: example_group && const_first_arg(t, i),
    }
}

/// What entering call `i`, which has a role, adds to the scopes: the item
/// it is collected as, linked to the open scopes, and the scope it opens.
pub open spec fn enter_collect(s: Seq<u8>, t: SyntaxTree, cfg: RSpecConfig, w: Walk, i: int) -> Walk {
    let depth = w.scope_stack.len() as int;
    let plain = block_kind(t, i) == BlockKind::Plain;
    Walk {
        let_items: if is_let(cfg, t, i) {
            w.let_items.push(LetItem { send_range: send_range(t, i), bang: bang_name(t, i), var_def: var_def(s, t, i) })
        } else {
            w.let_items
        },
        let_links: if is_let(cfg, t, i) {
            w.let_links + attribute(w.scopes, w.scope_stack, depth, w.let_items.len() as usize, Collection::Lets)
        } else {
            w.let_links
        },
        subject_items: if is_subject(cfg, t, i) { w.subject_items.push(var_def(s, t, i)) } else { w.subject_items },
        subject_links: if is_subject(cfg, t, i) {
            w.subject_links + attribute(w.scopes, w.scope_stack, depth, w.subject_items.len() as usize,
                Collection::Subjects)
        } else {
            w.subject_links
        },
        example_items: if is_example(cfg, t, i) {
            w.example_items.push((t.nodes@[i].start, t.nodes@[i].end))
        } else {
            w.example_items
        },
        example_links: if is_example(cfg, t, i) {
            w.example_links + attribute(w.scopes, w.scope_stack, depth, w.example_items.len() as usize,
                Collection::Examples)
        } else {
            w.example_links
        },
        scopes: if plain { w.scopes.push(new_scope(cfg, t, w, i)) } else { w.scopes },
        scope_stack: if plain { w.scope_stack.push(w.scopes.len() as usize) } else { w.scope_stack },
        ..w
    }
}

/// The frame of call `i`: whether it opens a scope, and whether it is a
/// top-level spec group (entered with only the root open).
pub open spec fn call_frame(cfg: RSpecConfig, t: SyntaxTree, w: Walk, i: int) -> Frame {
    let rl = role(cfg, t, i);
    let kind = block_kind(t, i);
    if rl == 0 {
        Frame { opened_scope: false, top_spec: false }
    } else {
        Frame {
            opened_scope: kind == BlockKind::Plain,
            top_spec: w.stack.len() == 1 && is_literal_block(kind) && rspec_recv(t, i) && rl & (roles::EG_ALL
                | roles::SG_ALL) != 0,
        }
    }
}

/// The state after entering call `i`, before its frame is pushed, and that
/// frame. A call without a role records only [`enter_head`].
pub open spec fn enter_call(s: Seq<u8>, t: SyntaxTree, cfg: RSpecConfig, w: Walk, i: int) -> (Walk, Frame) {
    let w1 = enter_head(t, cfg, w, i);
    if role(cfg, t, i) == 0 {
        (w1, call_frame(cfg, t, w, i))
    } else {
        (enter_collect(s, t, cfg, enter_marks(s, t, cfg, w1, i), i), call_frame(cfg, t, w, i))
    }
}

/// The state after event `e`.
pub open spec fn step(s: Seq<u8>, t: SyntaxTree, cfg: RSpecConfig, w: Walk, e: Event) -> Walk {
    match e {
        Event::Enter(i) => if i < t.nodes@.len() && t.nodes@[i as int].kind == kinds::CALL_NODE {
            let (w2, f) = enter_call(s, t, cfg, w, i as int);
            Walk { stack: w2.stack.push(f), ..w2 }
        } else {
            Walk { stack: w.stack.push(Frame { opened_scope: false, top_spec: false }), ..w }
        },
        Event::Leave(_) => leave_walk(w),
        _ => w,
    }
}

/// The state after leaving the innermost open node: its frame popped, and
/// its scope when it opened one.
pub open spec fn leave_walk(w: Walk) -> Walk {
    if w.stack.len() > 0 {
        let f = w.stack.last();
        Walk {
            stack: w.stack.drop_last(),
            scope_stack: if f.opened_scope && w.scope_stack.len() > 0 {
                w.scope_stack.drop_last()
            } else {
                w.scope_stack
            },
            ..w
        }
    } else {
        w
    }
}

/// The state after the first `k` events of `evs`.
pub open spec fn run(s: Seq<u8>, t: SyntaxTree, cfg: RSpecConfig, evs: Seq<Event>, k: int) -> Walk
    decreases k,
{
    if k <= 0 {
        initial_walk()
    } else {
        step(s, t, cfg, run(s, t, cfg, evs, k - 1), evs[k - 1])
    }
}

/// Along any run, every group described by a constant is a group: the
/// scopes are made by [`new_scope`] alone.
pub proof fn run_described_are_groups(s: Seq<u8>, t: SyntaxTree, cfg: RSpecConfig, evs: Seq<Event>, k: int)
    ensures
        forall|h: int|
            0 <= h < run(s, t, cfg, evs, k).scopes.len() && (#[trigger] run(s, t, cfg, evs, k).scopes[h]).described_class_candidate
                ==> run(s, t, cfg, evs, k).scopes[h].example_group,
    decreases k,
{
    if k > 0 {
        run_described_are_groups(s, t, cfg, evs, k - 1);
        let w = run(s, t, cfg, evs, k - 1);
        let w2 = run(s, t, cfg, evs, k);
        if let Event::Enter(i) = evs[k - 1] {
            if i < t.nodes@.len() && t.nodes@[i as int].kind == kinds::CALL_NODE {
                let w1 = enter_head(t, cfg, w, i as int);
                assert(w1.scopes == w.scopes);
                if role(cfg, t, i as int) != 0 {
                    let wm = enter_marks(s, t, cfg, w1, i as int);
                    assert(wm.scopes == w.scopes);
                    let wc = enter_collect(s, t, cfg, wm, i as int);
                    assert(w2.scopes == wc.scopes);
                    assert forall|h: int| 0 <= h < w2.scopes.len() && (#[trigger] w2.scopes[h]).described_class_candidate
                        implies w2.scopes[h].example_group by {
                        if h < w.scopes.len() {
                            assert(w2.scopes[h] == w.scopes[h]);
                        }
                    }
                }
            }
        }
    }
}

/// Call `i` is a spec group (or shared group) with a literal block and a
/// `nil`, `RSpec` or `::RSpec` receiver: entered at the top level, it opens
/// a top-level spec group.
pub open spec fn spec_group_block_call(cfg: RSpecConfig, t: SyntaxTree, i: int) -> bool {
    is_literal_block(block_kind(t, i)) && rspec_recv(t, i) && role(cfg, t, i) & (roles::EG_ALL | roles::SG_ALL) != 0
}

/// Along a run over a tree without a spec group call with a literal block,
/// no top-level spec group ever opens, so no variable name is collected.
pub proof fn run_without_group_calls(s: Seq<u8>, t: SyntaxTree, cfg: RSpecConfig, evs: Seq<Event>, k: int)
    requires
        forall|i: int| 0 <= i < t.nodes@.len() && t.nodes@[i].kind == kinds::CALL_NODE ==> !#[trigger] spec_group_block_call(cfg, t, i),
    ensures
        run(s, t, cfg, evs, k).candidates.len() == 0,
        !top_open(run(s, t, cfg, evs, k).stack),
    decreases k,
{
    if k > 0 {
        run_without_group_calls(s, t, cfg, evs, k - 1);
        let w = run(s, t, cfg, evs, k - 1);
        let w2 = run(s, t, cfg, evs, k);
        match evs[k - 1] {
            Event::Enter(i) => {
                if i < t.nodes@.len() && t.nodes@[i as int].kind == kinds::CALL_NODE {
                    assert(!spec_group_block_call(cfg, t, i as int));
                    let w1 = enter_head(t, cfg, w, i as int);
                    assert(w1.stack == w.stack && w1.candidates == w.candidates);
                    let f = call_frame(cfg, t, w, i as int);
                    assert(!f.top_spec);
                    if role(cfg, t, i as int) != 0 {
                        let wm = enter_marks(s, t, cfg, w1, i as int);
                        assert(wm.candidates == w.candidates && wm.stack == w.stack);
                        let wc = enter_collect(s, t, cfg, wm, i as int);
                        assert(wc.candidates == w.candidates && wc.stack == w.stack);
                        assert(w2.stack == w.stack.push(f));
                    } else {
                        assert(w2.stack == w.stack.push(f));
                    }
                    assert forall|j: int| 0 <= j < w2.stack.len() implies !(#[trigger] w2.stack[j]).top_spec by {
                        if j < w.stack.len() {
                            assert(w2.stack[j] == w.stack[j]);
                        }
                    }
                } else {
                    assert forall|j: int| 0 <= j < w2.stack.len() implies !(#[trigger] w2.stack[j]).top_spec by {
                        if j < w.stack.len() {
                            assert(w2.stack[j] == w.stack[j]);
                        }
                    }
                }
            },
            Event::Leave(_) => {
                if w.stack.len() > 0 {
                    assert forall|j: int| 0 <= j < w2.stack.len() implies !(#[trigger] w2.stack[j]).top_spec by {
                        assert(w2.stack[j] == w.stack[j]);
                    }
                }
            },
            _ => {},
        }
    }
}

/// Scope `sc` was opened by call `i`: a call with a plain block, whose range
/// the scope takes, and which is a spec group (or, for `example_group`, a
/// group) exactly when it has a `nil`, `RSpec` or `::RSpec` receiver and such
/// a role.
pub open spec fn scope_of_call(cfg: RSpecConfig, t: SyntaxTree, sc: Scope, i: int) -> bool {
    &&& 0 <= i < t.nodes@.len()
    &&& t.nodes@[i].kind == kinds::CALL_NODE
    &&& block_kind(t, i) == BlockKind::Plain
    &&& sc.range == (t.nodes@[i].start, t.nodes@[i].end)
    &&& sc.spec_group == (rspec_recv(t, i) && role(cfg, t, i) & (roles::EG_ALL | roles::SG_ALL) != 0)
    &&& sc.example_group == (rspec_recv(t, i) && role(cfg, t, i) & roles::EG_ALL != 0)
}

/// Some call of `t` with a plain block, a `nil`, `RSpec` or `::RSpec`
/// receiver and a group role (`ExampleGroups`, or with `shared` also
/// `SharedGroups`) has the range `r`.
pub open spec fn group_call_with_range(cfg: RSpecConfig, t: SyntaxTree, r: (usize, usize), shared: bool) -> bool {
    exists|i: int| {
        &&& 0 <= i < t.nodes@.len()
        &&& t.nodes@[i].kind == kinds::CALL_NODE
        &&& block_kind(t, i) == BlockKind::Plain
        &&& rspec_recv(t, i)
        &&& role(cfg, t, i) & (if shared { roles::EG_ALL | roles::SG_ALL } else { roles::EG_ALL }) != 0
        &&& (#[trigger] t.nodes@[i]).start == r.0 && t.nodes@[i].end == r.1
    }
}

/// Scope `sc` was opened by some call of `t` ([`scope_of_call`]).
pub open spec fn opened_by_call(cfg: RSpecConfig, t: SyntaxTree, sc: Scope) -> bool {
    exists|i: int| #[trigger] scope_of_call(cfg, t, sc, i)
}

/// Along any run, every scope was opened by a call ([`scope_of_call`]).
pub proof fn run_scopes_are_calls(s: Seq<u8>, t: SyntaxTree, cfg: RSpecConfig, evs: Seq<Event>, k: int)
    ensures
        forall|h: int| 0 <= h < run(s, t, cfg, evs, k).scopes.len() ==> opened_by_call(
            cfg,
            t,
            #[trigger] run(s, t, cfg, evs, k).scopes[h],
        ),
    decreases k,
{
    if k > 0 {
        run_scopes_are_calls(s, t, cfg, evs, k - 1);
        let w = run(s, t, cfg, evs, k - 1);
        let w2 = run(s, t, cfg, evs, k);
        let mut opened: Option<int> = None;
        match evs[k - 1] {
            Event::Enter(i) => {
                if i < t.nodes@.len() && t.nodes@[i as int].kind == kinds::CALL_NODE {
                    let w1 = enter_head(t, cfg, w, i as int);
                    assert(w1.scopes == w.scopes);
                    if role(cfg, t, i as int) != 0 {
                        let wm = enter_marks(s, t, cfg, w1, i as int);
                        assert(wm.scopes == w.scopes);
                        let wc = enter_collect(s, t, cfg, wm, i as int);
                        assert(w2.scopes == wc.scopes);
                        if block_kind(t, i as int) == BlockKind::Plain {
                            opened = Some(i as int);
                            assert(w2.scopes == w.scopes.push(new_scope(cfg, t, wm, i as int)));
                        } else {
                            assert(w2.scopes == w.scopes);
                        }
                    } else {
                        assert(w2.scopes == w.scopes);
                    }
                } else {
                    assert(w2.scopes == w.scopes);
                }
            },
            Event::Leave(_) => {
                assert(w2.scopes == w.scopes);
            },
            _ => {
                assert(w2.scopes == w.scopes);
            },
        }
        assert forall|h: int| 0 <= h < w2.scopes.len() implies opened_by_call(cfg, t, #[trigger] w2.scopes[h]) by {
            if h < w.scopes.len() {
                assert(w2.scopes[h] == w.scopes[h]);
            } else {
                let i = opened->0;
                assert(scope_of_call(cfg, t, w2.scopes[h], i));
            }
        }
    }
}

/// `r` lies within a source of `len` bytes.
pub open spec fn range_in(r: (usize, usize), len: nat) -> bool {
    r.0 <= r.1 <= len
}

/// Along any run over a well-formed tree, the ranges of the scopes are node
/// ranges, so they lie within the source.
pub proof fn run_ranges_in(s: Seq<u8>, t: SyntaxTree, cfg: RSpecConfig, evs: Seq<Event>, k: int)
    requires
        tree_wf(t),
    ensures
        forall|h: int| 0 <= h < run(s, t, cfg, evs, k).scopes.len() ==> range_in(
            (#[trigger] run(s, t, cfg, evs, k).scopes[h]).range,
            t.source_len as nat,
        ),
    decreases k,
{
    if k > 0 {
        run_ranges_in(s, t, cfg, evs, k - 1);
        let w = run(s, t, cfg, evs, k - 1);
        let w2 = run(s, t, cfg, evs, k);
        if let Event::Enter(i) = evs[k - 1] {
            if i < t.nodes@.len() && t.nodes@[i as int].kind == kinds::CALL_NODE {
                assert(node_wf(t, i as int, t.source_len as nat));
                let w1 = enter_head(t, cfg, w, i as int);
                assert(w1.scopes == w.scopes);
                if role(cfg, t, i as int) != 0 {
                    let wm = enter_marks(s, t, cfg, w1, i as int);
                    assert(wm.scopes == w.scopes);
                    let wc = enter_collect(s, t, cfg, wm, i as int);
                    assert(w2.scopes == wc.scopes);
                    assert forall|h: int| 0 <= h < w2.scopes.len() implies range_in(
                        (#[trigger] w2.scopes[h]).range,
                        t.source_len as nat,
                    ) by {
                        if h < w.scopes.len() {
                            assert(w2.scopes[h] == w.scopes[h]);
                        }
                    }
                }
            }
        }
    }
}

/// The indices of the state point where they should: open scopes and links
/// at scopes and items, a scope's parent before it, nodes in the tree.
pub open spec fn walk_wf(t: SyntaxTree, w: Walk) -> bool {
    let n = t.nodes@.len();
    &&& forall|k: int| 0 <= k < w.scope_stack.len() ==> #[trigger] w.scope_stack[k] < w.scopes.len()
    &&& forall|g: int| 0 <= g < w.scopes.len() ==> parent_before(#[trigger] w.scopes[g], g)
    &&& forall|k: int| 0 <= k < w.let_links.len() ==> (#[trigger] w.let_links[k]).0 < w.scopes.len()
        && w.let_links[k].1 < w.let_items.len()
    &&& forall|k: int| 0 <= k < w.subject_links.len() ==> (#[trigger] w.subject_links[k]).0 < w.scopes.len()
        && w.subject_links[k].1 < w.subject_items.len()
    &&& forall|k: int| 0 <= k < w.example_links.len() ==> (#[trigger] w.example_links[k]).0 < w.scopes.len()
        && w.example_links[k].1 < w.example_items.len()
    &&& forall|k: int| 0 <= k < w.let_items.len() ==> let_item_in(#[trigger] w.let_items[k], n)
    &&& forall|k: int| 0 <= k < w.subject_items.len() ==> var_def_in(#[trigger] w.subject_items[k], n)
    &&& forall|k: int| 0 <= k < w.zero_arg_calls.len() ==> #[trigger] w.zero_arg_calls[k] < n
    &&& forall|k: int| 0 <= k < w.candidates.len() ==> (#[trigger] w.candidates[k]).node < n
}

/// The parent of scope `sc`, numbered `g`, comes before it.
pub open spec fn parent_before(sc: Scope, g: int) -> bool {
    match sc.parent {
        Some(p) => p < g,
        None => true,
    }
}

/// The nodes a `let` names are among `n` nodes.
pub open spec fn let_item_in(l: LetItem, n: nat) -> bool {
    &&& match l.bang {
        Some(b) => b.1 < n,
        None => true,
    }
    &&& var_def_in(l.var_def, n)
}

/// A literal name's node, if any, is one of `n` nodes.
pub open spec fn var_def_in(v: VarDef, n: nat) -> bool {
    match v {
        VarDef::Sym(x) => x < n,
        VarDef::Str(x) => x < n,
        _ => true,
    }
}

/// The RSpec rules' walk: its configuration and state.
pub struct RSpecDispatcherRule<'c> {
    pub cfg: &'c RSpecConfig,
    pub stack: Vec<Frame>,
    pub scope_stack: Vec<usize>,
    pub scopes: Vec<Scope>,
    pub let_items: Vec<LetItem>,
    pub let_links: Vec<(usize, usize)>,
    pub subject_items: Vec<VarDef>,
    pub subject_links: Vec<(usize, usize)>,
    pub example_items: Vec<(usize, usize)>,
    pub example_links: Vec<(usize, usize)>,
    pub zero_arg_calls: Vec<usize>,
    pub candidates: Vec<VarCandidate>,
    pub named_subject: Vec<(usize, usize)>,
    pub anchors: Vec<(usize, usize)>,
    pub focus: Vec<(usize, usize)>,
    pub pending: Vec<(usize, usize)>,
}

impl<'c> RSpecDispatcherRule<'c> {
    /// The state as values.
    pub open spec fn walk(&self) -> Walk {
        Walk {
            stack: self.stack@,
            scope_stack: self.scope_stack@,
            scopes: self.scopes@,
            let_items: self.let_items@,
            let_links: self.let_links@,
            subject_items: self.subject_items@,
            subject_links: self.subject_links@,
            example_items: self.example_items@,
            example_links: self.example_links@,
            zero_arg_calls: self.zero_arg_calls@,
            candidates: self.candidates@,
            named_subject: self.named_subject@,
            anchors: self.anchors@,
            focus: self.focus@,
            pending: self.pending@,
        }
    }

    /// Enters node `i`.
    pub fn enter(&mut self, s: &[u8], t: &SyntaxTree, i: usize)
        requires
            old(self).cfg.wf(),
            tree_wf(*t),
            t.source_len == s@.len(),
            walk_wf(*t, old(self).walk()),
        ensures
            final(self).cfg == old(self).cfg,
            final(self).walk() == step(s@, *t, *old(self).cfg, old(self).walk(), Event::Enter(i)),
            walk_wf(*t, final(self).walk()),
    {
        if i < t.nodes.len() && t.nodes[i].kind == kinds::CALL_NODE {
            let f = self.handle_call(s, t, i);
            let ghost before = self.walk();
            self.stack.push(f);
            proof {
                lemma_wf_stack(*t, before, self.stack@);
                assert(self.walk() =~= Walk { stack: self.stack@, ..before });
            }
        } else {
            let ghost before = self.walk();
            self.stack.push(Frame { opened_scope: false, top_spec: false });
            proof {
                lemma_wf_stack(*t, before, self.stack@);
                assert(self.walk() =~= Walk { stack: self.stack@, ..before });
            }
        }
    }

    /// Leaves the innermost open node.
    pub fn leave(&mut self)
        ensures
            final(self).cfg == old(self).cfg,
            final(self).walk() == leave_walk(old(self).walk()),
    {
        if self.stack.len() > 0 {
            let f = self.stack.pop().unwrap();
            if f.opened_scope && self.scope_stack.len() > 0 {
                self.scope_stack.pop();
            }
        }
    }

    /// Enters call `i`: records what it contributes and returns its frame.
    fn handle_call(&mut self, s: &[u8], t: &SyntaxTree, i: usize) -> (f: Frame)
        requires
            old(self).cfg.wf(),
            tree_wf(*t),
            t.source_len == s@.len(),
            i < t.nodes@.len(),
            walk_wf(*t, old(self).walk()),
        ensures
            final(self).cfg == old(self).cfg,
            (final(self).walk(), f) == enter_call(s@, *t, *old(self).cfg, old(self).walk(), i as int),
            walk_wf(*t, final(self).walk()),
    {
        let ghost w = self.walk();
        let ghost cfg = *self.cfg;
        let f = self.call_frame_of(t, i);
        self.handle_head(t, i);
        let ghost w1 = self.walk();
        assert(w1 == enter_head(*t, cfg, w, i as int));
        if role_of(self.cfg, t, i) == 0 {
            assert(enter_call(s@, *t, cfg, w, i as int) == (w1, f));
            return f;
        }
        self.handle_marks(s, t, i);
        let ghost w2 = self.walk();
        assert(w2 == enter_marks(s@, *t, cfg, w1, i as int));
        self.handle_collect(s, t, i);
        assert(self.walk() == enter_collect(s@, *t, cfg, w2, i as int));
        assert(enter_call(s@, *t, cfg, w, i as int) == (self.walk(), f));
        f
    }

    /// [`call_frame`].
    fn call_frame_of(&self, t: &SyntaxTree, i: usize) -> (f: Frame)
        requires
            self.cfg.wf(),
            tree_wf(*t),
            i < t.nodes@.len(),
        ensures
            f == call_frame(*self.cfg, *t, self.walk(), i as int),
    {
        let rl = role_of(self.cfg, t, i);
        let kind = block_kind_of(t, i);
        if rl == 0 {
            return Frame { opened_scope: false, top_spec: false };
        }
        let literal = kind == BlockKind::Plain || kind == BlockKind::Numbered || kind == BlockKind::It;
        Frame {
            opened_scope: kind == BlockKind::Plain,
            top_spec: self.stack.len() == 1 && literal && rspec_recv_of(t, i) && rl & (roles::EG_ALL | roles::SG_ALL)
                != 0,
        }
    }

    /// [`enter_head`].
    fn handle_head(&mut self, t: &SyntaxTree, i: usize)
        requires
            old(self).cfg.wf(),
            tree_wf(*t),
            i < t.nodes@.len(),
            walk_wf(*t, old(self).walk()),
        ensures
            final(self).cfg == old(self).cfg,
            final(self).walk() == enter_head(*t, *old(self).cfg, old(self).walk(), i as int),
            walk_wf(*t, final(self).walk()),
    {
        let ghost w = self.walk();
        let kind = block_kind_of(t, i);
        let recv_none = t_receiver_none(t, i);
        let (n, _) = args_info(t, i);
        let name = call_name_of(t, i);
        assert(walk_wf(*t, w));
        assert(w.scope_stack == self.scope_stack@);
        assert(forall|k: int| 0 <= k < w.scope_stack.len() ==> #[trigger] w.scope_stack[k] < w.scopes.len());
        if recv_none && n == 0 && kind != BlockKind::BlockArg {
            self.zero_arg_calls.push(i);
            let subject: &[u8] = &[115u8, 117u8, 98u8, 106u8, 101u8, 99u8, 116u8];
            assert(subject@ =~= subject_word());
            if crate::rules::bytes::slices_equal(name, subject) && named_subject_offense_of(self.cfg, &self.scopes,
                &self.scope_stack) {
                self.named_subject.push(selector_range_of(t, i));
            }
        }
        let configure: &[u8] = &[99u8, 111u8, 110u8, 102u8, 105u8, 103u8, 117u8, 114u8, 101u8];
        assert(configure@ =~= configure_word());
        let literal = kind == BlockKind::Plain || kind == BlockKind::Numbered || kind == BlockKind::It;
        if rspec_recv_of(t, i) && crate::rules::bytes::slices_equal(name, configure) && literal {
            assert(node_wf(*t, i as int, t.source_len as nat));
            self.anchors.push((t.nodes[i].start, t.nodes[i].end));
        }
        assert(self.walk() =~= enter_head(*t, *self.cfg, w, i as int));
    }

    /// [`enter_marks`].
    fn handle_marks(&mut self, s: &[u8], t: &SyntaxTree, i: usize)
        requires
            old(self).cfg.wf(),
            tree_wf(*t),
            t.source_len == s@.len(),
            i < t.nodes@.len(),
            walk_wf(*t, old(self).walk()),
        ensures
            final(self).cfg == old(self).cfg,
            final(self).walk() == enter_marks(s@, *t, *old(self).cfg, old(self).walk(), i as int),
            walk_wf(*t, final(self).walk()),
    {
        let ghost w = self.walk();
        let rl = role_of(self.cfg, t, i);
        let kind = block_kind_of(t, i);
        let (n, _) = args_info(t, i);
        let rr = rspec_recv_of(t, i);
        let literal = kind == BlockKind::Plain || kind == BlockKind::Numbered || kind == BlockKind::It;
        if rr && literal && rl & METADATA_ROLES != 0 && n >= 1 {
            assert(node_wf(*t, i as int, t.source_len as nat));
            self.anchors.push((t.nodes[i].start, t.nodes[i].end));
        }
        let focus: &[u8] = &[102u8, 111u8, 99u8, 117u8, 115u8];
        assert(focus@ =~= focus_word());
        if rr && (rl & FOCUSED != 0 || (rl & FOCUSABLE != 0 && has_symbol_metadata_of(t, i, focus, focus))) {
            self.focus.push(send_range_of(t, i));
        }
        let skip: &[u8] = &[115u8, 107u8, 105u8, 112u8];
        let pending: &[u8] = &[112u8, 101u8, 110u8, 100u8, 105u8, 110u8, 103u8];
        assert(skip@ =~= skip_word());
        assert(pending@ =~= pending_word());
        if rl & SKIP_PENDING != 0 || has_symbol_metadata_of(t, i, skip, pending) {
            self.pending.push(send_range_of(t, i));
        }
        if top_open_of(&self.stack) && t_receiver_none(t, i) && rl & (roles::HELPERS | roles::SUBJECTS) != 0 && n > 0 {
            match var_candidate_of(s, t, i) {
                Some(c) => self.candidates.push(c),
                None => {},
            }
        }
        assert(self.walk() =~= enter_marks(s@, *t, *self.cfg, w, i as int));
    }

    /// [`enter_collect`].
    #[verifier::rlimit(40)]
    fn handle_collect(&mut self, s: &[u8], t: &SyntaxTree, i: usize)
        requires
            old(self).cfg.wf(),
            tree_wf(*t),
            t.source_len == s@.len(),
            i < t.nodes@.len(),
            walk_wf(*t, old(self).walk()),
        ensures
            final(self).cfg == old(self).cfg,
            final(self).walk() == enter_collect(s@, *t, *old(self).cfg, old(self).walk(), i as int),
            walk_wf(*t, final(self).walk()),
    {
        let ghost w = self.walk();
        let cfg = self.cfg;
        let rl = role_of(cfg, t, i);
        let kind = block_kind_of(t, i);
        let recv_none = t_receiver_none(t, i);
        let (n, _) = args_info(t, i);
        let rr = rspec_recv_of(t, i);
        let is_let = recv_none && rl & roles::HELPERS != 0 && (kind == BlockKind::Plain || (kind == BlockKind::BlockArg
            && n == 1));
        let is_subject = recv_none && rl & roles::SUBJECTS != 0 && kind == BlockKind::Plain;
        let is_example = recv_none && rl & roles::EX_ALL != 0 && kind == BlockKind::Plain;
        assert(node_wf(*t, i as int, t.source_len as nat));
        if is_let {
            let item = self.let_items.len();
            self.let_items.push(LetItem { send_range: send_range_of(t, i), bang: bang_name_of(t, i), var_def: var_def_of(
                s, t, i) });
            attribute_into(&mut self.let_links, &self.scopes, &self.scope_stack, item, Collection::Lets);
        }
        if is_subject {
            let item = self.subject_items.len();
            self.subject_items.push(var_def_of(s, t, i));
            attribute_into(&mut self.subject_links, &self.scopes, &self.scope_stack, item, Collection::Subjects);
        }
        if is_example {
            let item = self.example_items.len();
            self.example_items.push((t.nodes[i].start, t.nodes[i].end));
            attribute_into(&mut self.example_links, &self.scopes, &self.scope_stack, item, Collection::Examples);
        }
        if kind == BlockKind::Plain {
            let spec_group = rr && rl & (roles::EG_ALL | roles::SG_ALL) != 0;
            let example_group = rr && rl & roles::EG_ALL != 0;
            let parent = if self.scope_stack.len() > 0 {
                Some(self.scope_stack[self.scope_stack.len() - 1])
            } else {
                None
            };
            let scope = Scope {
                parent,
                range: (t.nodes[i].start, t.nodes[i].end),
                scope_change: spec_group || (recv_none && rl & roles::INC_ALL != 0),
                spec_group,
                example_group,
                example: is_example,
                example_or_hook: recv_none && rl & (roles::EX_ALL | roles::HOOKS) != 0,
                shared_examples: rr && rl & roles::SG_EXAMPLES != 0,
                subject_def_named: direct_subject_def_of(cfg, t, i),
                let_barrier: is_let,
                subject_barrier: is_subject,
                described_class_candidate: example_group && const_first_arg_of(t, i),
            };
            assert(scope == new_scope(*cfg, *t, w, i as int));
            let g = self.scopes.len();
            self.scopes.push(scope);
            self.scope_stack.push(g);
        }
        assert(self.walk() =~= enter_collect(s@, *t, *cfg, w, i as int));
    }
}

/// Leaving a node keeps the state well formed.
pub proof fn lemma_leave_wf(t: SyntaxTree, w: Walk)
    requires
        walk_wf(t, w),
    ensures
        walk_wf(t, leave_walk(w)),
{
    let v = leave_walk(w);
    assert forall|k: int| 0 <= k < v.scope_stack.len() implies #[trigger] v.scope_stack[k] < v.scopes.len() by {
        assert(v.scope_stack[k] == w.scope_stack[k]);
    }
}

/// Only the stacks of `w` and `v` differ: `v` is well formed as `w` is.
proof fn lemma_wf_stack(t: SyntaxTree, w: Walk, st: Seq<Frame>)
    requires
        walk_wf(t, w),
    ensures
        walk_wf(t, Walk { stack: st, ..w }),
{
}

/// Whether call `i` has no receiver.
fn t_receiver_none(t: &SyntaxTree, i: usize) -> (r: bool)
    requires
        tree_wf(*t),
        i < t.nodes@.len(),
    ensures
        r == (receiver(*t, i as int) is None),
{
    crate::syntax::access::child(t, i, kinds::CALL_NODE_RECEIVER).is_none()
}

/// Whether scope `sc` halts collection `c`.
fn halts_of(sc: &Scope, c: Collection) -> (r: bool)
    ensures
        r == halts(*sc, c),
{
    sc.scope_change || sc.example || match c {
        Collection::Lets => sc.let_barrier,
        Collection::Subjects => sc.subject_barrier,
        Collection::Examples => false,
    }
}

/// Appends the links of `item` to the open scopes `stk` ([`attribute`]).
fn attribute_into(links: &mut Vec<(usize, usize)>, scopes: &Vec<Scope>, stk: &Vec<usize>, item: usize, c: Collection)
    requires
        forall|k: int| 0 <= k < stk@.len() ==> #[trigger] stk@[k] < scopes@.len(),
    ensures
        final(links)@ == old(links)@ + attribute(scopes@, stk@, stk@.len() as int, item, c),
        forall|q: int| old(links)@.len() <= q < final(links)@.len() ==> (#[trigger] final(links)@[q]).0 < scopes@.len()
            && final(links)@[q].1 == item,
{
    let ghost target = old(links)@ + attribute(scopes@, stk@, stk@.len() as int, item, c);
    let mut j = stk.len();
    let mut go = true;
    while go && j > 0
        invariant
            j <= stk@.len(),
            forall|k: int| 0 <= k < stk@.len() ==> #[trigger] stk@[k] < scopes@.len(),
            go ==> links@ + attribute(scopes@, stk@, j as int, item, c) == target,
            !go ==> links@ == target,
            links@.len() >= old(links)@.len(),
            forall|q: int| old(links)@.len() <= q < links@.len() ==> (#[trigger] links@[q]).0 < scopes@.len()
                && links@[q].1 == item,
        decreases (if go { j + 1 } else { 0 }),
    {
        let sc = stk[j - 1];
        let ghost before = links@;
        links.push((sc, item));
        let ghost rest = if halts(scopes@[sc as int], c) { Seq::empty() } else { attribute(scopes@, stk@, j - 1, item,
            c) };
        assert(before + attribute(scopes@, stk@, j as int, item, c) == before + (seq![(sc, item)] + rest));
        assert(before + (seq![(sc, item)] + rest) =~= links@ + rest);
        if halts_of(&scopes[sc], c) {
            assert(links@ + rest =~= links@);
            go = false;
        } else {
            j -= 1;
        }
    }
    if go {
        assert(links@ + attribute(scopes@, stk@, 0, item, c) =~= links@);
    }
}

/// Whether an open node is a top-level spec group ([`top_open`]).
fn top_open_of(stack: &Vec<Frame>) -> (r: bool)
    ensures
        r == top_open(stack@),
{
    let mut k: usize = 0;
    while k < stack.len()
        invariant
            k <= stack@.len(),
            forall|q: int| 0 <= q < k ==> !(#[trigger] stack@[q]).top_spec,
        decreases stack.len() - k,
    {
        if stack[k].top_spec {
            return true;
        }
        k += 1;
    }
    false
}

/// [`named_subject_offense`].
fn named_subject_offense_of(cfg: &RSpecConfig, scopes: &Vec<Scope>, stk: &Vec<usize>) -> (r: bool)
    requires
        forall|k: int| 0 <= k < stk@.len() ==> #[trigger] stk@[k] < scopes@.len(),
    ensures
        r == named_subject_offense(*cfg, scopes@, stk@),
{
    let ok = if cfg.named_subject_ignore_shared {
        let mut k: usize = 0;
        let mut found = false;
        let mut go = true;
        while go && k < stk.len()
            invariant
                k <= stk@.len(),
                forall|q: int| 0 <= q < stk@.len() ==> #[trigger] stk@[q] < scopes@.len(),
                go ==> example_before_shared(scopes@, stk@, 0) == example_before_shared(scopes@, stk@, k as int),
                go ==> !found,
                !go ==> found == example_before_shared(scopes@, stk@, 0),
            decreases stk@.len() - k + (if go { 1int } else { 0int }),
        {
            let sc = &scopes[stk[k]];
            if sc.example_or_hook {
                found = true;
                go = false;
            } else if sc.shared_examples {
                found = false;
                go = false;
            } else {
                k += 1;
            }
        }
        if go {
            assert(!example_before_shared(scopes@, stk@, k as int));
        }
        found
    } else {
        let mut k = stk.len();
        let mut found = false;
        while k > 0 && !found
            invariant
                k <= stk@.len(),
                forall|q: int| 0 <= q < stk@.len() ==> #[trigger] stk@[q] < scopes@.len(),
                !found ==> any_example_or_hook(scopes@, stk@, stk@.len() as int) == any_example_or_hook(scopes@, stk@,
                    k as int),
                found ==> any_example_or_hook(scopes@, stk@, stk@.len() as int),
            decreases k + (if found { 0int } else { 1int }),
        {
            if scopes[stk[k - 1]].example_or_hook {
                found = true;
                proof { lemma_any_from(scopes@, stk@, k as int, stk@.len() as int); }
            } else {
                k -= 1;
            }
        }
        found
    };
    if !ok {
        return false;
    }
    if cfg.named_subject_style != 1 {
        return true;
    }
    let mut k = stk.len();
    while k > 0
        invariant
            k <= stk@.len(),
            forall|q: int| 0 <= q < stk@.len() ==> #[trigger] stk@[q] < scopes@.len(),
            named_subject_offense(*cfg, scopes@, stk@) == nearest_subject_named(scopes@, stk@, stk@.len() as int),
            nearest_subject_named(scopes@, stk@, stk@.len() as int) == nearest_subject_named(scopes@, stk@, k as int),
        decreases k,
    {
        match scopes[stk[k - 1]].subject_def_named {
            Some(named) => {
                return named;
            },
            None => {
                k -= 1;
            },
        }
    }
    false
}

/// An example or hook among `stk[..k]` is one among `stk[..m]` for `m >= k`.
proof fn lemma_any_from(scopes: Seq<Scope>, stk: Seq<usize>, k: int, m: int)
    requires
        0 < k <= m <= stk.len(),
        scopes[stk[k - 1] as int].example_or_hook,
    ensures
        any_example_or_hook(scopes, stk, m),
    decreases m - k,
{
    if m > k {
        lemma_any_from(scopes, stk, k, m - 1);
    }
}

} // verus!
