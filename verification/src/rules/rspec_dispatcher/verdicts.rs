//! The verdicts of the RSpec rules, taken from the state after the walk.

use vstd::prelude::*;
use crate::syntax::{SyntaxTree, tree_wf};
use crate::rules::bytes::{lossy_text, lossy_string, slices_equal};
use crate::rules::rspec_language::RSpecConfig;
use super::calls::{VarDef, VarCandidate, call_name, lit_text, call_name_of, lit_text_of};
use super::naming::{spec_matches_style, matches_style};
use super::state::{Walk, walk_wf, RSpecDispatcherRule, range_in};

verus! {

/// One `RSpec/VariableName` offense: the literal name's range, its kind (0
/// symbol, 1 string), its text, and whether it has the other style.
#[derive(Debug, Clone, PartialEq)]
pub struct VarNameOffense {
    pub start: usize,
    pub end: usize,
    pub kind: u8,
    pub value: String,
    pub valid_alt: bool,
}

/// One `RSpec/VariableDefinition` offense: the literal name's range, its
/// kind (0 symbol, 1 string, 2 interpolated symbol) and its text (empty for
/// an interpolated symbol).
#[derive(Debug, Clone, PartialEq)]
pub struct VarDefOffense {
    pub start: usize,
    pub end: usize,
    pub kind: u8,
    pub value: String,
}

/// A spec group that may have too many memoized helpers: its range, the
/// number of distinct symbol, string and absent names among its helpers,
/// and the ranges of the interpolated names, whose equality is left to the
/// parser gem.
#[derive(Debug, Clone, PartialEq)]
pub struct MmhGroup {
    pub start: usize,
    pub end: usize,
    pub rust_distinct: usize,
    pub dsym_dstr_ranges: Vec<(usize, usize)>,
}

/// What the RSpec rules found in one source.
#[derive(Debug)]
pub struct RSpecResult {
    /// `RSpec/VariableName`: the offenses, and the names that have the
    /// style with their kinds.
    pub variable_name: (Vec<VarNameOffense>, Vec<(String, u8)>),
    /// `RSpec/LetSetup`: the `let!` calls whose name nothing in their group
    /// calls.
    pub let_setup: Vec<(usize, usize)>,
    /// `RSpec/VariableDefinition`.
    pub variable_definition: Vec<VarDefOffense>,
    /// `RSpec/MultipleMemoizedHelpers`.
    pub multiple_memoized_helpers: Vec<MmhGroup>,
    /// `RSpec/RepeatedDescription`: per group with two examples or more,
    /// their ranges.
    pub repeated_description: Vec<Vec<(usize, usize)>>,
    /// `RSpec/RepeatedExample`: the same groups.
    pub repeated_example: Vec<Vec<(usize, usize)>>,
    /// `RSpec/NamedSubject`: the bare `subject` references.
    pub named_subject: Vec<(usize, usize)>,
    /// The blocks whose metadata the metadata rules read.
    pub metadata_anchors: Vec<(usize, usize)>,
    /// `RSpec/Focus` candidates.
    pub focus: Vec<(usize, usize)>,
    /// `RSpec/PendingWithoutReason` candidates.
    pub pending_without_reason: Vec<(usize, usize)>,
    /// `RSpec/EmptyExampleGroup` candidates: every group's block.
    pub empty_example_group: Vec<(usize, usize)>,
    /// `RSpec/DescribedClass` candidates: groups described by a constant.
    pub described_class: Vec<(usize, usize)>,
}

/// The text of a variable-name candidate.
pub open spec fn cand_value(t: SyntaxTree, c: VarCandidate) -> Seq<char> {
    lossy_text(lit_text(t, c.node as int))
}

/// The style whose match makes an offense's `valid_alt`: camelCase for
/// snake_case, snake_case otherwise.
pub open spec fn alt_style(style: u8) -> u8 {
    if style == 0 { 1 } else { 0 }
}

/// The `RSpec/VariableName` offenses among the first `k` candidates:
/// symbol and string names without the configured style.
pub open spec fn vn_offenses(cfg: RSpecConfig, t: SyntaxTree, cands: Seq<VarCandidate>, k: int) -> Seq<
    (usize, usize, u8, Seq<char>, bool),
>
    decreases k,
{
    if k <= 0 {
        Seq::empty()
    } else {
        let c = cands[k - 1];
        let v = cand_value(t, c);
        vn_offenses(cfg, t, cands, k - 1) + if c.kind <= 1 && !spec_matches_style(v, cfg.variable_name_style) {
            seq![(c.start, c.end, c.kind, v, spec_matches_style(v, alt_style(cfg.variable_name_style)))]
        } else {
            Seq::empty()
        }
    }
}

/// The symbol and string names among the first `k` candidates that have
/// the configured style, with their kinds.
pub open spec fn vn_passing(cfg: RSpecConfig, t: SyntaxTree, cands: Seq<VarCandidate>, k: int) -> Seq<
    (Seq<char>, u8),
>
    decreases k,
{
    if k <= 0 {
        Seq::empty()
    } else {
        let c = cands[k - 1];
        let v = cand_value(t, c);
        vn_passing(cfg, t, cands, k - 1) + if c.kind <= 1 && spec_matches_style(v, cfg.variable_name_style) {
            seq![(v, c.kind)]
        } else {
            Seq::empty()
        }
    }
}

/// The `RSpec/VariableDefinition` offenses among the first `k` candidates:
/// under `symbols` the strings, under `strings` the symbols and the
/// interpolated symbols.
pub open spec fn vd_offenses(cfg: RSpecConfig, t: SyntaxTree, cands: Seq<VarCandidate>, k: int) -> Seq<
    (usize, usize, u8, Seq<char>),
>
    decreases k,
{
    if k <= 0 {
        Seq::empty()
    } else {
        let c = cands[k - 1];
        let st = cfg.variable_definition_style;
        vd_offenses(cfg, t, cands, k - 1) + if (c.kind == 0 && st == 1) || (c.kind == 1 && st == 0) {
            seq![(c.start, c.end, c.kind, cand_value(t, c))]
        } else if c.kind == 2 && st == 1 {
            seq![(c.start, c.end, 2u8, Seq::<char>::empty())]
        } else {
            Seq::empty()
        }
    }
}

/// The `let` names `b` and `x` are the same `let!` name: same kind, same
/// text.
pub open spec fn same_bang(t: SyntaxTree, x: Option<(u8, usize)>, b: (u8, usize)) -> bool {
    x matches Some(y) && y.0 == b.0 && lit_text(t, y.1 as int) == lit_text(t, b.1 as int)
}

/// Scope `p` collects a `let!` named `b`.
pub open spec fn has_bang(t: SyntaxTree, w: Walk, p: int, b: (u8, usize)) -> bool {
    exists|k: int| 0 <= k < w.let_links.len() && (#[trigger] w.let_links[k]).0 == p && same_bang(t,
        w.let_items[w.let_links[k].1 as int].bang, b)
}

/// Scope `p` or one around it is a scope change that collects a `let!`
/// named `b`.
pub open spec fn overridden(t: SyntaxTree, w: Walk, p: int, b: (u8, usize)) -> bool
    decreases p,
{
    if p < 0 || p >= w.scopes.len() {
        false
    } else {
        ||| w.scopes[p].scope_change && has_bang(t, w, p, b)
        ||| match w.scopes[p].parent {
            Some(q) => q < p && overridden(t, w, q as int, b),
            None => false,
        }
    }
}

/// A receiverless call named `name` without arguments or block pass starts
/// in `r`.
pub open spec fn called_within(t: SyntaxTree, w: Walk, r: (usize, usize), name: Seq<u8>) -> bool {
    exists|k: int| 0 <= k < w.zero_arg_calls.len() && r.0 <= t.nodes@[#[trigger] w.zero_arg_calls[k] as int].start
        < r.1 && call_name(t, w.zero_arg_calls[k] as int) == name
}

/// `let` item `li` of scope `g` is a `RSpec/LetSetup` offense: a `let!`
/// name that no scope around `g` overrides and nothing in `g` calls.
pub open spec fn let_reported(t: SyntaxTree, w: Walk, g: int, li: int) -> bool {
    match w.let_items[li].bang {
        Some(b) => {
            &&& !(match w.scopes[g].parent {
                Some(p) => overridden(t, w, p as int, b),
                None => false,
            })
            &&& !called_within(t, w, w.scopes[g].range, lit_text(t, b.1 as int))
        },
        None => false,
    }
}

/// The offenses among the first `k` links of scope `g`.
pub open spec fn setup_in(t: SyntaxTree, w: Walk, g: int, k: int) -> Seq<(usize, usize)>
    decreases k,
{
    if k <= 0 {
        Seq::empty()
    } else {
        let l = w.let_links[k - 1];
        setup_in(t, w, g, k - 1) + if l.0 == g && let_reported(t, w, g, l.1 as int) {
            seq![w.let_items[l.1 as int].send_range]
        } else {
            Seq::empty()
        }
    }
}

/// The `RSpec/LetSetup` offenses of the first `g` scopes that change scope.
pub open spec fn let_setup_upto(t: SyntaxTree, w: Walk, g: int) -> Seq<(usize, usize)>
    decreases g,
{
    if g <= 0 {
        Seq::empty()
    } else {
        let_setup_upto(t, w, g - 1) + if w.scopes[g - 1].scope_change {
            setup_in(t, w, g - 1, w.let_links.len() as int)
        } else {
            Seq::empty()
        }
    }
}

/// Scope `p` is `g` or one of the scopes around it.
pub open spec fn in_chain(w: Walk, g: int, p: int) -> bool
    decreases g,
{
    if g < 0 || g >= w.scopes.len() {
        false
    } else {
        p == g || match w.scopes[g].parent {
            Some(q) => q < g && in_chain(w, q as int, p),
            None => false,
        }
    }
}

/// Item `item` is linked to scope `g` or one around it.
pub open spec fn visible(w: Walk, links: Seq<(usize, usize)>, g: int, item: int) -> bool {
    exists|k: int| 0 <= k < links.len() && (#[trigger] links[k]).1 == item && in_chain(w, g, links[k].0 as int)
}

/// The names of the first `m` items that are visible from scope `g`, in
/// item order.
pub open spec fn visible_defs(w: Walk, links: Seq<(usize, usize)>, items: Seq<VarDef>, g: int, m: int) -> Seq<
    VarDef,
>
    decreases m,
{
    if m <= 0 {
        Seq::empty()
    } else {
        visible_defs(w, links, items, g, m - 1) + if visible(w, links, g, m - 1) {
            seq![items[m - 1]]
        } else {
            Seq::empty()
        }
    }
}

/// The names of the `let` items.
pub open spec fn let_defs(w: Walk) -> Seq<VarDef> {
    Seq::new(w.let_items.len(), |k: int| w.let_items[k].var_def)
}

/// The names of the memoized helpers visible from scope `g`: the `let`s,
/// then (unless `AllowSubject`) the subjects.
pub open spec fn helper_defs(cfg: RSpecConfig, w: Walk, g: int) -> Seq<VarDef> {
    visible_defs(w, w.let_links, let_defs(w), g, w.let_items.len() as int) + if cfg.mmh_allow_subject {
        Seq::empty()
    } else {
        visible_defs(w, w.subject_links, w.subject_items, g, w.subject_items.len() as int)
    }
}

/// What identifies a name without the parser gem: a symbol's text, a
/// string's text, or no name; none for an interpolated name.
pub open spec fn identity(t: SyntaxTree, v: VarDef) -> Option<(u8, Seq<u8>)> {
    match v {
        VarDef::Sym(n) => Some((0u8, lit_text(t, n as int))),
        VarDef::Str(n) => Some((1u8, lit_text(t, n as int))),
        VarDef::Nil => Some((2u8, Seq::empty())),
        VarDef::Dyn(_, _) => None,
    }
}

/// The identities of `defs`.
pub open spec fn identities(t: SyntaxTree, defs: Seq<VarDef>) -> Set<(u8, Seq<u8>)> {
    Set::new(|x: (u8, Seq<u8>)| exists|k: int| 0 <= k < defs.len() && identity(t, #[trigger] defs[k]) == Some(x))
}

/// The ranges of the interpolated names of `defs`, in order.
pub open spec fn dyn_ranges(defs: Seq<VarDef>) -> Seq<(usize, usize)>
    decreases defs.len(),
{
    if defs.len() == 0 {
        Seq::empty()
    } else {
        dyn_ranges(defs.drop_last()) + match defs.last() {
            VarDef::Dyn(a, b) => seq![(a, b)],
            _ => Seq::empty(),
        }
    }
}

/// The `RSpec/MultipleMemoizedHelpers` groups among the first `g` scopes:
/// spec groups whose distinct identities and interpolated names together
/// exceed `Max`.
pub open spec fn mmh_upto(cfg: RSpecConfig, t: SyntaxTree, w: Walk, g: int) -> Seq<
    (usize, usize, nat, Seq<(usize, usize)>),
>
    decreases g,
{
    if g <= 0 {
        Seq::empty()
    } else {
        let defs = helper_defs(cfg, w, g - 1);
        let d = identities(t, defs).len();
        let r = dyn_ranges(defs);
        mmh_upto(cfg, t, w, g - 1) + if w.scopes[g - 1].spec_group && d + r.len() > cfg.mmh_max {
            seq![(w.scopes[g - 1].range.0, w.scopes[g - 1].range.1, d, r)]
        } else {
            Seq::empty()
        }
    }
}

/// The ranges of the examples linked to scope `g` among the first `k`
/// links.
pub open spec fn examples_of(w: Walk, g: int, k: int) -> Seq<(usize, usize)>
    decreases k,
{
    if k <= 0 {
        Seq::empty()
    } else {
        let l = w.example_links[k - 1];
        examples_of(w, g, k - 1) + if l.0 == g {
            seq![w.example_items[l.1 as int]]
        } else {
            Seq::empty()
        }
    }
}

/// The example ranges of the groups among the first `g` scopes that have
/// two examples or more.
pub open spec fn repeated_upto(w: Walk, g: int) -> Seq<Seq<(usize, usize)>>
    decreases g,
{
    if g <= 0 {
        Seq::empty()
    } else {
        let ex = examples_of(w, g - 1, w.example_links.len() as int);
        repeated_upto(w, g - 1) + if w.scopes[g - 1].example_group && ex.len() >= 2 {
            seq![ex]
        } else {
            Seq::empty()
        }
    }
}

/// The ranges of the groups among the first `g` scopes.
pub open spec fn groups_upto(w: Walk, g: int) -> Seq<(usize, usize)>
    decreases g,
{
    if g <= 0 {
        Seq::empty()
    } else {
        groups_upto(w, g - 1) + if w.scopes[g - 1].example_group {
            seq![w.scopes[g - 1].range]
        } else {
            Seq::empty()
        }
    }
}

/// The ranges of the groups described by a constant among the first `g`
/// scopes.
pub open spec fn described_upto(w: Walk, g: int) -> Seq<(usize, usize)>
    decreases g,
{
    if g <= 0 {
        Seq::empty()
    } else {
        described_upto(w, g - 1) + if w.scopes[g - 1].described_class_candidate {
            seq![w.scopes[g - 1].range]
        } else {
            Seq::empty()
        }
    }
}

/// `a` is `b` with some items left out and the rest kept in order, item `k`
/// of `a` being item `idx[k]` of `b`.
pub open spec fn subsequence_by(a: Seq<(usize, usize)>, b: Seq<(usize, usize)>, idx: Seq<int>) -> bool {
    &&& idx.len() == a.len()
    &&& forall|k: int| 0 <= k < a.len() ==> 0 <= #[trigger] idx[k] < b.len() && a[k] == b[idx[k]]
    &&& forall|j: int, k: int| 0 <= j < k < a.len() ==> #[trigger] idx[j] < #[trigger] idx[k]
}

/// `a` is `b` with some items left out and the rest kept in order.
pub open spec fn is_subsequence(a: Seq<(usize, usize)>, b: Seq<(usize, usize)>) -> bool {
    exists|idx: Seq<int>| #[trigger] subsequence_by(a, b, idx)
}

/// Where every group described by a constant is a group, the described
/// groups among the first `g` scopes are a subsequence of the groups.
pub proof fn described_groups_among_groups(w: Walk, g: int)
    requires
        forall|h: int| 0 <= h < w.scopes.len() && (#[trigger] w.scopes[h]).described_class_candidate
            ==> w.scopes[h].example_group,
        g <= w.scopes.len(),
    ensures
        is_subsequence(described_upto(w, g), groups_upto(w, g)),
    decreases g,
{
    if g <= 0 {
        assert(subsequence_by(described_upto(w, g), groups_upto(w, g), Seq::<int>::empty()));
    } else {
        described_groups_among_groups(w, g - 1);
        let a0 = described_upto(w, g - 1);
        let b0 = groups_upto(w, g - 1);
        let idx = choose|idx: Seq<int>| #[trigger] subsequence_by(a0, b0, idx);
        let a = described_upto(w, g);
        let b = groups_upto(w, g);
        assert forall|k: int| 0 <= k < b0.len() implies #[trigger] b[k] == b0[k] by {}
        if w.scopes[g - 1].described_class_candidate {
            let idx2 = idx.push(b0.len() as int);
            assert(a == a0.push(w.scopes[g - 1].range));
            assert(b == b0.push(w.scopes[g - 1].range));
            assert forall|k: int| 0 <= k < a.len() implies 0 <= #[trigger] idx2[k] < b.len() && a[k] == b[idx2[k]] by {
                if k < a0.len() {
                    assert(idx2[k] == idx[k]);
                }
            }
            assert forall|j: int, k: int| 0 <= j < k < a.len() implies #[trigger] idx2[j] < #[trigger] idx2[k] by {
                if k < a0.len() {
                    assert(idx2[j] == idx[j] && idx2[k] == idx[k]);
                } else {
                    assert(idx2[j] == idx[j]);
                }
            }
            assert(subsequence_by(a, b, idx2));
        } else {
            assert(a == a0);
            assert forall|k: int| 0 <= k < a.len() implies 0 <= #[trigger] idx[k] < b.len() && a[k] == b[idx[k]] by {}
            assert(subsequence_by(a, b, idx));
        }
    }
}

/// Where the scopes' ranges lie within `len` bytes, so do the groups and the
/// `RSpec/MultipleMemoizedHelpers` groups among the first `g` scopes.
pub proof fn verdict_ranges_in(cfg: RSpecConfig, t: SyntaxTree, w: Walk, g: int, len: nat)
    requires
        forall|h: int| 0 <= h < w.scopes.len() ==> range_in((#[trigger] w.scopes[h]).range, len),
        g <= w.scopes.len(),
    ensures
        forall|k: int| 0 <= k < groups_upto(w, g).len() ==> range_in(#[trigger] groups_upto(w, g)[k], len),
        forall|k: int| 0 <= k < mmh_upto(cfg, t, w, g).len() ==> range_in(
            ((#[trigger] mmh_upto(cfg, t, w, g)[k]).0, mmh_upto(cfg, t, w, g)[k].1),
            len,
        ),
    decreases g,
{
    if g > 0 {
        verdict_ranges_in(cfg, t, w, g - 1, len);
        let gp = groups_upto(w, g - 1);
        let mp = mmh_upto(cfg, t, w, g - 1);
        assert forall|k: int| 0 <= k < groups_upto(w, g).len() implies range_in(#[trigger] groups_upto(w, g)[k], len) by {
            if k < gp.len() {
                assert(groups_upto(w, g)[k] == gp[k]);
            }
        }
        assert forall|k: int| 0 <= k < mmh_upto(cfg, t, w, g).len() implies range_in(
            ((#[trigger] mmh_upto(cfg, t, w, g)[k]).0, mmh_upto(cfg, t, w, g)[k].1),
            len,
        ) by {
            if k < mp.len() {
                assert(mmh_upto(cfg, t, w, g)[k] == mp[k]);
            }
        }
    }
}

/// `r` is the range of a scope of `w` that is a group.
pub open spec fn group_scope_range(w: Walk, r: (usize, usize)) -> bool {
    exists|h: int| 0 <= h < w.scopes.len() && (#[trigger] w.scopes[h]).example_group && w.scopes[h].range == r
}

/// `r` is the range of a scope of `w` that is a spec group.
pub open spec fn spec_group_scope_range(w: Walk, r: (usize, usize)) -> bool {
    exists|h: int| 0 <= h < w.scopes.len() && (#[trigger] w.scopes[h]).spec_group && w.scopes[h].range == r
}

/// Every group among the first `g` scopes is the range of a scope that is a
/// group, and every `RSpec/MultipleMemoizedHelpers` group the range of a
/// scope that is a spec group.
pub proof fn verdict_groups_are_scopes(cfg: RSpecConfig, t: SyntaxTree, w: Walk, g: int)
    requires
        g <= w.scopes.len(),
    ensures
        forall|k: int| 0 <= k < groups_upto(w, g).len() ==> group_scope_range(w, #[trigger] groups_upto(w, g)[k]),
        forall|k: int| 0 <= k < mmh_upto(cfg, t, w, g).len() ==> spec_group_scope_range(
            w,
            ((#[trigger] mmh_upto(cfg, t, w, g)[k]).0, mmh_upto(cfg, t, w, g)[k].1),
        ),
    decreases g,
{
    if g > 0 {
        verdict_groups_are_scopes(cfg, t, w, g - 1);
        let gp = groups_upto(w, g - 1);
        let mp = mmh_upto(cfg, t, w, g - 1);
        assert forall|k: int| 0 <= k < groups_upto(w, g).len() implies group_scope_range(w, #[trigger] groups_upto(w, g)[k]) by {
            if k < gp.len() {
                assert(groups_upto(w, g)[k] == gp[k]);
            } else {
                assert(w.scopes[g - 1].example_group && w.scopes[g - 1].range == groups_upto(w, g)[k]);
            }
        }
        assert forall|k: int| 0 <= k < mmh_upto(cfg, t, w, g).len() implies spec_group_scope_range(
            w,
            ((#[trigger] mmh_upto(cfg, t, w, g)[k]).0, mmh_upto(cfg, t, w, g)[k].1),
        ) by {
            if k < mp.len() {
                assert(mmh_upto(cfg, t, w, g)[k] == mp[k]);
            } else {
                assert(w.scopes[g - 1].spec_group);
            }
        }
    }
}

/// `RSpecResult` as values: each list as in the specs above.
pub open spec fn result_matches(cfg: RSpecConfig, t: SyntaxTree, w: Walk, r: RSpecResult) -> bool {
    let cands = w.candidates;
    let n = cands.len() as int;
    let vno = vn_offenses(cfg, t, cands, n);
    let vnp = vn_passing(cfg, t, cands, n);
    let vdo = vd_offenses(cfg, t, cands, n);
    let mmh = mmh_upto(cfg, t, w, w.scopes.len() as int);
    let rep = repeated_upto(w, w.scopes.len() as int);
    &&& r.variable_name.0@.len() == vno.len()
    &&& forall|k: int| 0 <= k < vno.len() ==> {
        let o = #[trigger] r.variable_name.0@[k];
        (o.start, o.end, o.kind, o.value@, o.valid_alt) == vno[k]
    }
    &&& r.variable_name.1@.len() == vnp.len()
    &&& forall|k: int| 0 <= k < vnp.len() ==> ((#[trigger] r.variable_name.1@[k]).0@, r.variable_name.1@[k].1)
        == vnp[k]
    &&& r.variable_definition@.len() == vdo.len()
    &&& forall|k: int| 0 <= k < vdo.len() ==> {
        let o = #[trigger] r.variable_definition@[k];
        (o.start, o.end, o.kind, o.value@) == vdo[k]
    }
    &&& r.let_setup@ == let_setup_upto(t, w, w.scopes.len() as int)
    &&& r.multiple_memoized_helpers@.len() == mmh.len()
    &&& forall|k: int| 0 <= k < mmh.len() ==> {
        let o = #[trigger] r.multiple_memoized_helpers@[k];
        (o.start, o.end, o.rust_distinct as nat, o.dsym_dstr_ranges@) == mmh[k]
    }
    &&& r.repeated_description@.len() == rep.len()
    &&& forall|k: int| 0 <= k < rep.len() ==> (#[trigger] r.repeated_description@[k])@ == rep[k]
    &&& r.repeated_example@.len() == rep.len()
    &&& forall|k: int| 0 <= k < rep.len() ==> (#[trigger] r.repeated_example@[k])@ == rep[k]
    &&& r.named_subject@ == w.named_subject
    &&& r.metadata_anchors@ == w.anchors
    &&& r.focus@ == w.focus
    &&& r.pending_without_reason@ == w.pending
    &&& r.empty_example_group@ == groups_upto(w, w.scopes.len() as int)
    &&& r.described_class@ == described_upto(w, w.scopes.len() as int)
}


/// `RSpec/RepeatedDescription` and `RSpec/RepeatedExample` read the same
/// groups: the two lists of a result are equal.
pub proof fn repeated_slots_agree(cfg: RSpecConfig, t: SyntaxTree, w: Walk, r: RSpecResult)
    requires
        result_matches(cfg, t, w, r),
    ensures
        r.repeated_description@.len() == r.repeated_example@.len(),
        forall|k: int| 0 <= k < r.repeated_description@.len() ==> (#[trigger] r.repeated_description@[k])@
            == r.repeated_example@[k]@,
{
    let rep = repeated_upto(w, w.scopes.len() as int);
    assert forall|k: int| 0 <= k < r.repeated_description@.len() implies (#[trigger] r.repeated_description@[k])@
        == r.repeated_example@[k]@ by {
        assert(r.repeated_description@[k]@ == rep[k]);
        assert(r.repeated_example@[k]@ == rep[k]);
    }
}

/// Every group of repeated examples holds two examples or more.
pub proof fn repeated_groups_have_two(w: Walk, g: int)
    ensures
        forall|k: int| 0 <= k < repeated_upto(w, g).len() ==> (#[trigger] repeated_upto(w, g)[k]).len() >= 2,
    decreases g,
{
    if g > 0 {
        repeated_groups_have_two(w, g - 1);
        let prev = repeated_upto(w, g - 1);
        assert forall|k: int| 0 <= k < repeated_upto(w, g).len() implies (#[trigger] repeated_upto(w, g)[k]).len()
            >= 2 by {
            if k < prev.len() {
                assert(repeated_upto(w, g)[k] == prev[k]);
            }
        }
    }
}

/// Every `RSpec/MultipleMemoizedHelpers` group has more identities and
/// interpolated names together than `Max`.
pub proof fn mmh_groups_exceed_max(cfg: RSpecConfig, t: SyntaxTree, w: Walk, g: int)
    ensures
        forall|k: int| 0 <= k < mmh_upto(cfg, t, w, g).len() ==> (#[trigger] mmh_upto(cfg, t, w, g)[k]).2
            + mmh_upto(cfg, t, w, g)[k].3.len() > cfg.mmh_max,
    decreases g,
{
    if g > 0 {
        mmh_groups_exceed_max(cfg, t, w, g - 1);
        let prev = mmh_upto(cfg, t, w, g - 1);
        assert forall|k: int| 0 <= k < mmh_upto(cfg, t, w, g).len() implies (#[trigger] mmh_upto(cfg, t, w, g)[k]).2
            + mmh_upto(cfg, t, w, g)[k].3.len() > cfg.mmh_max by {
            if k < prev.len() {
                assert(mmh_upto(cfg, t, w, g)[k] == prev[k]);
            }
        }
    }
}

/// `RSpec/VariableDefinition` follows the style: under `symbols` (0) only
/// string names are offenses, under `strings` (1) only symbol and
/// interpolated symbol names, under any other style none.
pub proof fn variable_definition_follows_style(cfg: RSpecConfig, t: SyntaxTree, cands: Seq<VarCandidate>, k: int)
    ensures
        forall|j: int| 0 <= j < vd_offenses(cfg, t, cands, k).len() ==> {
            let o = #[trigger] vd_offenses(cfg, t, cands, k)[j];
            (o.2 == 1 && cfg.variable_definition_style == 0) || ((o.2 == 0 || o.2 == 2)
                && cfg.variable_definition_style == 1)
        },
    decreases k,
{
    if k > 0 {
        variable_definition_follows_style(cfg, t, cands, k - 1);
        let prev = vd_offenses(cfg, t, cands, k - 1);
        assert forall|j: int| 0 <= j < vd_offenses(cfg, t, cands, k).len() implies {
            let o = #[trigger] vd_offenses(cfg, t, cands, k)[j];
            (o.2 == 1 && cfg.variable_definition_style == 0) || ((o.2 == 0 || o.2 == 2)
                && cfg.variable_definition_style == 1)
        } by {
            if j < prev.len() {
                assert(vd_offenses(cfg, t, cands, k)[j] == prev[j]);
            }
        }
    }
}

/// `RSpec/VariableName` sorts by the style: every offense's name lacks the
/// configured style (and `valid_alt` tells whether it has the other one),
/// every passing name has it; both hold symbol and string names only
/// (kinds 0 and 1).
pub proof fn variable_name_follows_style(cfg: RSpecConfig, t: SyntaxTree, cands: Seq<VarCandidate>, k: int)
    ensures
        forall|j: int| 0 <= j < vn_offenses(cfg, t, cands, k).len() ==> {
            let o = #[trigger] vn_offenses(cfg, t, cands, k)[j];
            !spec_matches_style(o.3, cfg.variable_name_style) && o.4 == spec_matches_style(o.3, alt_style(
                cfg.variable_name_style)) && o.2 <= 1
        },
        forall|j: int| 0 <= j < vn_passing(cfg, t, cands, k).len() ==> spec_matches_style(
            (#[trigger] vn_passing(cfg, t, cands, k)[j]).0, cfg.variable_name_style) && vn_passing(cfg, t, cands,
            k)[j].1 <= 1,
    decreases k,
{
    if k > 0 {
        variable_name_follows_style(cfg, t, cands, k - 1);
        let po = vn_offenses(cfg, t, cands, k - 1);
        let pp = vn_passing(cfg, t, cands, k - 1);
        assert forall|j: int| 0 <= j < vn_offenses(cfg, t, cands, k).len() implies {
            let o = #[trigger] vn_offenses(cfg, t, cands, k)[j];
            !spec_matches_style(o.3, cfg.variable_name_style) && o.4 == spec_matches_style(o.3, alt_style(
                cfg.variable_name_style)) && o.2 <= 1
        } by {
            if j < po.len() {
                assert(vn_offenses(cfg, t, cands, k)[j] == po[j]);
            }
        }
        assert forall|j: int| 0 <= j < vn_passing(cfg, t, cands, k).len() implies spec_matches_style(
            (#[trigger] vn_passing(cfg, t, cands, k)[j]).0, cfg.variable_name_style) && vn_passing(cfg, t, cands,
            k)[j].1 <= 1 by {
            if j < pp.len() {
                assert(vn_passing(cfg, t, cands, k)[j] == pp[j]);
            }
        }
    }
}

/// The view of a variable-name offense.
pub open spec fn vn_view(o: VarNameOffense) -> (usize, usize, u8, Seq<char>, bool) {
    (o.start, o.end, o.kind, o.value@, o.valid_alt)
}

/// The view of a variable-definition offense.
pub open spec fn vd_view(o: VarDefOffense) -> (usize, usize, u8, Seq<char>) {
    (o.start, o.end, o.kind, o.value@)
}

/// Whether the names `a` and `b`, neither interpolated, have the same
/// identity.
fn same_identity_of(t: &SyntaxTree, a: VarDef, b: VarDef) -> (r: bool)
    requires
        tree_wf(*t),
        super::state::var_def_in(a, t.nodes@.len()),
        super::state::var_def_in(b, t.nodes@.len()),
        !(a is Dyn),
        !(b is Dyn),
    ensures
        r == (identity(*t, a) == identity(*t, b)),
{
    match (a, b) {
        (VarDef::Sym(x), VarDef::Sym(y)) => slices_equal(lit_text_of(t, x), lit_text_of(t, y)),
        (VarDef::Str(x), VarDef::Str(y)) => slices_equal(lit_text_of(t, x), lit_text_of(t, y)),
        (VarDef::Nil, VarDef::Nil) => true,
        _ => false,
    }
}

/// The number of identities of `defs` and the ranges of their interpolated
/// names.
fn distinct_of(t: &SyntaxTree, defs: &Vec<VarDef>) -> (r: (usize, Vec<(usize, usize)>))
    requires
        tree_wf(*t),
        forall|k: int| 0 <= k < defs@.len() ==> super::state::var_def_in(#[trigger] defs@[k], t.nodes@.len()),
    ensures
        r.0 == identities(*t, defs@).len(),
        r.1@ == dyn_ranges(defs@),
{
    let mut seen: Vec<VarDef> = Vec::new();
    let mut ranges: Vec<(usize, usize)> = Vec::new();
    let ghost mut ids: Seq<(u8, Seq<u8>)> = Seq::empty();
    let mut k: usize = 0;
    while k < defs.len()
        invariant
            tree_wf(*t),
            forall|q: int| 0 <= q < defs@.len() ==> super::state::var_def_in(#[trigger] defs@[q], t.nodes@.len()),
            k <= defs@.len(),
            seen@.len() == ids.len(),
            forall|j: int| 0 <= j < seen@.len() ==> !(#[trigger] seen@[j] is Dyn) && super::state::var_def_in(
                seen@[j], t.nodes@.len()) && identity(*t, seen@[j]) == Some(ids[j]),
            ids.no_duplicates(),
            ids.to_set() == identities(*t, defs@.subrange(0, k as int)),
            ranges@ == dyn_ranges(defs@.subrange(0, k as int)),
        decreases defs.len() - k,
    {
        let d = defs[k];
        let ghost pre = defs@.subrange(0, k as int);
        let ghost cur = defs@.subrange(0, k + 1);
        assert(cur.drop_last() =~= pre);
        assert(cur.last() == d);
        match d {
            VarDef::Dyn(a, b) => {
                ranges.push((a, b));
                assert(identities(*t, cur) =~= identities(*t, pre)) by {
                    assert forall|x: (u8, Seq<u8>)| identities(*t, cur).contains(x) implies identities(*t,
                        pre).contains(x) by {
                        let q = choose|q: int| 0 <= q < cur.len() && identity(*t, #[trigger] cur[q]) == Some(x);
                        assert(q < k);
                        assert(pre[q] == cur[q]);
                    }
                    assert forall|x: (u8, Seq<u8>)| identities(*t, pre).contains(x) implies identities(*t,
                        cur).contains(x) by {
                        let q = choose|q: int| 0 <= q < pre.len() && identity(*t, #[trigger] pre[q]) == Some(x);
                        assert(pre[q] == cur[q]);
                    }
                }
            },
            _ => {
                let ghost x = identity(*t, d)->0;
                let mut found = false;
                let mut j: usize = 0;
                while j < seen.len()
                    invariant
                        tree_wf(*t),
                        j <= seen@.len(),
                        !(d is Dyn),
                        super::state::var_def_in(d, t.nodes@.len()),
                        x == identity(*t, d)->0,
                        identity(*t, d) is Some,
                        seen@.len() == ids.len(),
                        forall|q: int| 0 <= q < seen@.len() ==> !(#[trigger] seen@[q] is Dyn)
                            && super::state::var_def_in(seen@[q], t.nodes@.len()) && identity(*t, seen@[q]) == Some(ids[q]),
                        found <==> exists|q: int| 0 <= q < j && ids[q] == x,
                    decreases seen.len() - j,
                {
                    if same_identity_of(t, seen[j], d) {
                        found = true;
                    }
                    j += 1;
                }
                assert(found <==> ids.contains(x));
                assert(identities(*t, cur) =~= identities(*t, pre).insert(x)) by {
                    assert forall|y: (u8, Seq<u8>)| identities(*t, cur).contains(y) implies identities(*t,
                        pre).insert(x).contains(y) by {
                        let q = choose|q: int| 0 <= q < cur.len() && identity(*t, #[trigger] cur[q]) == Some(y);
                        if q < k {
                            assert(pre[q] == cur[q]);
                        }
                    }
                    assert forall|y: (u8, Seq<u8>)| identities(*t, pre).insert(x).contains(y) implies identities(*t,
                        cur).contains(y) by {
                        if y == x {
                            assert(identity(*t, cur[k as int]) == Some(y));
                        } else {
                            let q = choose|q: int| 0 <= q < pre.len() && identity(*t, #[trigger] pre[q]) == Some(y);
                            assert(pre[q] == cur[q]);
                        }
                    }
                }
                if !found {
                    seen.push(d);
                    proof {
                        let old_ids = ids;
                        ids = ids.push(x);
                        assert(ids.to_set() =~= old_ids.to_set().insert(x)) by {
                            assert forall|y: (u8, Seq<u8>)| ids.contains(y) implies old_ids.to_set().insert(x).contains(
                                y) by {
                                let q = choose|q: int| 0 <= q < ids.len() && ids[q] == y;
                                if q < old_ids.len() {
                                    assert(old_ids[q] == y);
                                }
                            }
                            assert forall|y: (u8, Seq<u8>)| old_ids.to_set().insert(x).contains(y) implies ids.contains(
                                y) by {
                                if y == x {
                                    assert(ids[old_ids.len() as int] == x);
                                } else {
                                    let q = choose|q: int| 0 <= q < old_ids.len() && old_ids[q] == y;
                                    assert(ids[q] == y);
                                }
                            }
                        }
                        assert forall|a: int, b: int| 0 <= a < ids.len() && 0 <= b < ids.len() && a != b implies ids[a]
                            != ids[b] by {
                            if a < old_ids.len() && b < old_ids.len() {
                                assert(old_ids[a] != old_ids[b]);
                            } else if a == old_ids.len() {
                                assert(ids[b] == old_ids[b]);
                            } else {
                                assert(ids[a] == old_ids[a]);
                            }
                        }
                    }
                } else {
                    proof {
                        let q = choose|q: int| 0 <= q < ids.len() && ids[q] == x;
                        assert(ids.to_set().contains(x));
                        assert(ids.to_set().insert(x) =~= ids.to_set());
                    }
                }
            },
        }
        k += 1;
    }
    assert(defs@.subrange(0, defs@.len() as int) =~= defs@);
    proof {
        ids.unique_seq_to_set();
    }
    (seen.len(), ranges)
}

impl<'c> RSpecDispatcherRule<'c> {
    /// `RSpec/VariableName`.
    fn variable_name_of(&self, t: &SyntaxTree) -> (r: (Vec<VarNameOffense>, Vec<(String, u8)>))
        requires
            tree_wf(*t),
            walk_wf(*t, self.walk()),
        ensures
            r.0@.len() == vn_offenses(*self.cfg, *t, self.candidates@, self.candidates@.len() as int).len(),
            forall|k: int| 0 <= k < r.0@.len() ==> vn_view(#[trigger] r.0@[k]) == vn_offenses(*self.cfg, *t,
                self.candidates@, self.candidates@.len() as int)[k],
            r.1@.len() == vn_passing(*self.cfg, *t, self.candidates@, self.candidates@.len() as int).len(),
            forall|k: int| 0 <= k < r.1@.len() ==> ((#[trigger] r.1@[k]).0@, r.1@[k].1) == vn_passing(*self.cfg, *t,
                self.candidates@, self.candidates@.len() as int)[k],
    {
        let cfg = self.cfg;
        let style = cfg.variable_name_style;
        let alt: u8 = if style == 0 { 1 } else { 0 };
        let mut offs: Vec<VarNameOffense> = Vec::new();
        let mut pass: Vec<(String, u8)> = Vec::new();
        let mut k: usize = 0;
        while k < self.candidates.len()
            invariant
                tree_wf(*t),
                walk_wf(*t, self.walk()),
                k <= self.candidates@.len(),
                style == cfg.variable_name_style,
                alt == super::verdicts::alt_style(style),
                offs@.len() == vn_offenses(*cfg, *t, self.candidates@, k as int).len(),
                forall|q: int| 0 <= q < offs@.len() ==> vn_view(#[trigger] offs@[q]) == vn_offenses(*cfg, *t,
                    self.candidates@, k as int)[q],
                pass@.len() == vn_passing(*cfg, *t, self.candidates@, k as int).len(),
                forall|q: int| 0 <= q < pass@.len() ==> ((#[trigger] pass@[q]).0@, pass@[q].1) == vn_passing(*cfg, *t,
                    self.candidates@, k as int)[q],
            decreases self.candidates.len() - k,
        {
            let c = self.candidates[k];
            assert(self.walk().candidates[k as int] == c);
            assert(c.node < t.nodes@.len());
            if c.kind <= 1 {
                let v = lossy_string(lit_text_of(t, c.node));
                if matches_style(v.as_str(), style) {
                    pass.push((v, c.kind));
                } else {
                    let va = matches_style(v.as_str(), alt);
                    offs.push(VarNameOffense { start: c.start, end: c.end, kind: c.kind, value: v, valid_alt: va });
                }
            }
            k += 1;
        }
        (offs, pass)
    }

    /// `RSpec/VariableDefinition`.
    fn variable_definition_of(&self, t: &SyntaxTree) -> (r: Vec<VarDefOffense>)
        requires
            tree_wf(*t),
            walk_wf(*t, self.walk()),
        ensures
            r@.len() == vd_offenses(*self.cfg, *t, self.candidates@, self.candidates@.len() as int).len(),
            forall|k: int| 0 <= k < r@.len() ==> vd_view(#[trigger] r@[k]) == vd_offenses(*self.cfg, *t,
                self.candidates@, self.candidates@.len() as int)[k],
    {
        let cfg = self.cfg;
        let st = cfg.variable_definition_style;
        let mut offs: Vec<VarDefOffense> = Vec::new();
        let mut k: usize = 0;
        while k < self.candidates.len()
            invariant
                tree_wf(*t),
                walk_wf(*t, self.walk()),
                k <= self.candidates@.len(),
                st == cfg.variable_definition_style,
                offs@.len() == vd_offenses(*cfg, *t, self.candidates@, k as int).len(),
                forall|q: int| 0 <= q < offs@.len() ==> vd_view(#[trigger] offs@[q]) == vd_offenses(*cfg, *t,
                    self.candidates@, k as int)[q],
            decreases self.candidates.len() - k,
        {
            let c = self.candidates[k];
            assert(self.walk().candidates[k as int] == c);
            assert(c.node < t.nodes@.len());
            if (c.kind == 0 && st == 1) || (c.kind == 1 && st == 0) {
                let v = lossy_string(lit_text_of(t, c.node));
                offs.push(VarDefOffense { start: c.start, end: c.end, kind: c.kind, value: v });
            } else if c.kind == 2 && st == 1 {
                let v = String::new();
                offs.push(VarDefOffense { start: c.start, end: c.end, kind: 2, value: v });
            }
            k += 1;
        }
        offs
    }

    /// Whether the `let` names `x` and `b` are the same `let!` name.
    fn same_bang_of(&self, t: &SyntaxTree, x: Option<(u8, usize)>, b: (u8, usize)) -> (r: bool)
        requires
            x matches Some(y) ==> y.1 < t.nodes@.len(),
            b.1 < t.nodes@.len(),
        ensures
            r == same_bang(*t, x, b),
    {
        match x {
            Some(y) => y.0 == b.0 && slices_equal(lit_text_of(t, y.1), lit_text_of(t, b.1)),
            None => false,
        }
    }

    /// [`has_bang`].
    fn has_bang_of(&self, t: &SyntaxTree, p: usize, b: (u8, usize)) -> (r: bool)
        requires
            tree_wf(*t),
            walk_wf(*t, self.walk()),
            b.1 < t.nodes@.len(),
        ensures
            r == has_bang(*t, self.walk(), p as int, b),
    {
        let mut k: usize = 0;
        while k < self.let_links.len()
            invariant
                walk_wf(*t, self.walk()),
                b.1 < t.nodes@.len(),
                k <= self.let_links@.len(),
                forall|q: int| 0 <= q < k ==> !((#[trigger] self.let_links@[q]).0 == p && same_bang(*t,
                    self.let_items@[self.let_links@[q].1 as int].bang, b)),
            decreases self.let_links.len() - k,
        {
            let (g, li) = self.let_links[k];
            assert(self.walk().let_links[k as int] == (g, li));
            assert(super::state::let_item_in(self.walk().let_items[li as int], t.nodes@.len()));
            if g == p && self.same_bang_of(t, self.let_items[li].bang, b) {
                assert(self.walk().let_links[k as int].0 == p);
                return true;
            }
            k += 1;
        }
        false
    }

    /// [`overridden`].
    fn overridden_of(&self, t: &SyntaxTree, p: usize, b: (u8, usize)) -> (r: bool)
        requires
            tree_wf(*t),
            walk_wf(*t, self.walk()),
            b.1 < t.nodes@.len(),
        ensures
            r == overridden(*t, self.walk(), p as int, b),
    {
        let mut cur = p;
        loop
            invariant
                tree_wf(*t),
                walk_wf(*t, self.walk()),
                b.1 < t.nodes@.len(),
                overridden(*t, self.walk(), p as int, b) == overridden(*t, self.walk(), cur as int, b),
            decreases cur,
        {
            if cur >= self.scopes.len() {
                return false;
            }
            if self.scopes[cur].scope_change && self.has_bang_of(t, cur, b) {
                return true;
            }
            match self.scopes[cur].parent {
                Some(q) => {
                    if q < cur {
                        cur = q;
                    } else {
                        return false;
                    }
                },
                None => {
                    return false;
                },
            }
        }
    }

    /// [`called_within`].
    fn called_within_of(&self, t: &SyntaxTree, r: (usize, usize), name: &[u8]) -> (b: bool)
        requires
            tree_wf(*t),
            walk_wf(*t, self.walk()),
        ensures
            b == called_within(*t, self.walk(), r, name@),
    {
        let mut k: usize = 0;
        while k < self.zero_arg_calls.len()
            invariant
                tree_wf(*t),
                walk_wf(*t, self.walk()),
                k <= self.zero_arg_calls@.len(),
                forall|q: int| 0 <= q < k ==> !(r.0 <= t.nodes@[#[trigger] self.zero_arg_calls@[q] as int].start < r.1
                    && call_name(*t, self.zero_arg_calls@[q] as int) == name@),
            decreases self.zero_arg_calls.len() - k,
        {
            let c = self.zero_arg_calls[k];
            assert(self.walk().zero_arg_calls[k as int] == c);
            let st = t.nodes[c].start;
            if r.0 <= st && st < r.1 && slices_equal(call_name_of(t, c), name) {
                return true;
            }
            k += 1;
        }
        false
    }

    /// [`let_reported`].
    fn let_reported_of(&self, t: &SyntaxTree, g: usize, li: usize) -> (r: bool)
        requires
            tree_wf(*t),
            walk_wf(*t, self.walk()),
            g < self.scopes@.len(),
            li < self.let_items@.len(),
        ensures
            r == let_reported(*t, self.walk(), g as int, li as int),
    {
        assert(super::state::let_item_in(self.walk().let_items[li as int], t.nodes@.len()));
        match self.let_items[li].bang {
            Some(b) => {
                let over = match self.scopes[g].parent {
                    Some(p) => self.overridden_of(t, p, b),
                    None => false,
                };
                !over && !self.called_within_of(t, self.scopes[g].range, lit_text_of(t, b.1))
            },
            None => false,
        }
    }

    /// `RSpec/LetSetup` ([`let_setup_upto`]).
    fn let_setup_of(&self, t: &SyntaxTree) -> (r: Vec<(usize, usize)>)
        requires
            tree_wf(*t),
            walk_wf(*t, self.walk()),
        ensures
            r@ == let_setup_upto(*t, self.walk(), self.scopes@.len() as int),
    {
        let mut out: Vec<(usize, usize)> = Vec::new();
        let mut g: usize = 0;
        while g < self.scopes.len()
            invariant
                tree_wf(*t),
                walk_wf(*t, self.walk()),
                g <= self.scopes@.len(),
                out@ == let_setup_upto(*t, self.walk(), g as int),
            decreases self.scopes.len() - g,
        {
            if self.scopes[g].scope_change {
                let ghost base = out@;
                let mut k: usize = 0;
                while k < self.let_links.len()
                    invariant
                        tree_wf(*t),
                        walk_wf(*t, self.walk()),
                        g < self.scopes@.len(),
                        k <= self.let_links@.len(),
                        out@ == base + setup_in(*t, self.walk(), g as int, k as int),
                    decreases self.let_links.len() - k,
                {
                    let (sg, li) = self.let_links[k];
                    assert(self.walk().let_links[k as int] == (sg, li));
                    if sg == g && self.let_reported_of(t, g, li) {
                        out.push(self.let_items[li].send_range);
                    }
                    assert(out@ =~= base + setup_in(*t, self.walk(), g as int, k + 1));
                    k += 1;
                }
            }
            assert(out@ =~= let_setup_upto(*t, self.walk(), g + 1));
            g += 1;
        }
        out
    }

    /// [`in_chain`].
    fn in_chain_of(&self, g: usize, p: usize) -> (r: bool)
        ensures
            r == in_chain(self.walk(), g as int, p as int),
    {
        let mut cur = g;
        loop
            invariant
                in_chain(self.walk(), g as int, p as int) == in_chain(self.walk(), cur as int, p as int),
            decreases cur,
        {
            if cur >= self.scopes.len() {
                return false;
            }
            if cur == p {
                return true;
            }
            match self.scopes[cur].parent {
                Some(q) => {
                    if q < cur {
                        cur = q;
                    } else {
                        return false;
                    }
                },
                None => {
                    return false;
                },
            }
        }
    }

    /// [`visible`].
    fn visible_of(&self, links: &Vec<(usize, usize)>, g: usize, item: usize) -> (r: bool)
        ensures
            r == visible(self.walk(), links@, g as int, item as int),
    {
        let mut k: usize = 0;
        while k < links.len()
            invariant
                k <= links@.len(),
                forall|q: int| 0 <= q < k ==> !((#[trigger] links@[q]).1 == item && in_chain(self.walk(), g as int,
                    links@[q].0 as int)),
            decreases links.len() - k,
        {
            if links[k].1 == item && self.in_chain_of(g, links[k].0) {
                return true;
            }
            k += 1;
        }
        false
    }

    /// [`helper_defs`].
    fn helper_defs_of(&self, t: &SyntaxTree, g: usize) -> (r: Vec<VarDef>)
        requires
            walk_wf(*t, self.walk()),
        ensures
            r@ == helper_defs(*self.cfg, self.walk(), g as int),
            forall|k: int| 0 <= k < r@.len() ==> super::state::var_def_in(#[trigger] r@[k], t.nodes@.len()),
    {
        let mut out: Vec<VarDef> = Vec::new();
        let mut m: usize = 0;
        while m < self.let_items.len()
            invariant
                walk_wf(*t, self.walk()),
                m <= self.let_items@.len(),
                out@ == visible_defs(self.walk(), self.let_links@, let_defs(self.walk()), g as int, m as int),
                forall|k: int| 0 <= k < out@.len() ==> super::state::var_def_in(#[trigger] out@[k], t.nodes@.len()),
            decreases self.let_items.len() - m,
        {
            if self.visible_of(&self.let_links, g, m) {
                assert(super::state::let_item_in(self.walk().let_items[m as int], t.nodes@.len()));
                assert(let_defs(self.walk())[m as int] == self.let_items@[m as int].var_def);
                out.push(self.let_items[m].var_def);
            }
            m += 1;
        }
        if !self.cfg.mmh_allow_subject {
            let ghost base = out@;
            let mut m: usize = 0;
            while m < self.subject_items.len()
                invariant
                    walk_wf(*t, self.walk()),
                    m <= self.subject_items@.len(),
                    out@ == base + visible_defs(self.walk(), self.subject_links@, self.subject_items@, g as int,
                        m as int),
                    forall|k: int| 0 <= k < out@.len() ==> super::state::var_def_in(#[trigger] out@[k],
                        t.nodes@.len()),
                decreases self.subject_items.len() - m,
            {
                if self.visible_of(&self.subject_links, g, m) {
                    assert(self.walk().subject_items[m as int] == self.subject_items@[m as int]);
                    out.push(self.subject_items[m]);
                }
                assert(out@ =~= base + visible_defs(self.walk(), self.subject_links@, self.subject_items@, g as int,
                    m + 1));
                m += 1;
            }
        } else {
            assert(out@ =~= out@ + Seq::<VarDef>::empty());
        }
        out
    }

    /// `RSpec/MultipleMemoizedHelpers` ([`mmh_upto`]).
    fn mmh_of(&self, t: &SyntaxTree) -> (r: Vec<MmhGroup>)
        requires
            tree_wf(*t),
            walk_wf(*t, self.walk()),
        ensures
            r@.len() == mmh_upto(*self.cfg, *t, self.walk(), self.scopes@.len() as int).len(),
            forall|k: int| 0 <= k < r@.len() ==> {
                let o = #[trigger] r@[k];
                (o.start, o.end, o.rust_distinct as nat, o.dsym_dstr_ranges@) == mmh_upto(*self.cfg, *t, self.walk(),
                    self.scopes@.len() as int)[k]
            },
    {
        let cfg = self.cfg;
        let mut out: Vec<MmhGroup> = Vec::new();
        let mut g: usize = 0;
        while g < self.scopes.len()
            invariant
                tree_wf(*t),
                walk_wf(*t, self.walk()),
                g <= self.scopes@.len(),
                cfg == self.cfg,
                out@.len() == mmh_upto(*cfg, *t, self.walk(), g as int).len(),
                forall|k: int| 0 <= k < out@.len() ==> {
                    let o = #[trigger] out@[k];
                    (o.start, o.end, o.rust_distinct as nat, o.dsym_dstr_ranges@) == mmh_upto(*cfg, *t, self.walk(),
                        g as int)[k]
                },
            decreases self.scopes.len() - g,
        {
            let ghost prev = mmh_upto(*cfg, *t, self.walk(), g as int);
            let ghost next = mmh_upto(*cfg, *t, self.walk(), g + 1);
            let ghost sdefs = helper_defs(*cfg, self.walk(), g as int);
            assert(next == prev + if self.walk().scopes[g as int].spec_group && identities(*t, sdefs).len()
                + dyn_ranges(sdefs).len() > cfg.mmh_max {
                seq![(self.walk().scopes[g as int].range.0, self.walk().scopes[g as int].range.1, identities(*t,
                    sdefs).len(), dyn_ranges(sdefs))]
            } else {
                Seq::empty()
            });
            if self.scopes[g].spec_group {
                let defs = self.helper_defs_of(t, g);
                let (d, ranges) = distinct_of(t, &defs);
                let total: i128 = d as i128 + ranges.len() as i128;
                if total > cfg.mmh_max as i128 {
                    let ghost rv = ranges@;
                    out.push(MmhGroup {
                        start: self.scopes[g].range.0,
                        end: self.scopes[g].range.1,
                        rust_distinct: d,
                        dsym_dstr_ranges: ranges,
                    });
                    assert(next == prev.push((self.walk().scopes[g as int].range.0, self.walk().scopes[g as int].range.1,
                        d as nat, rv)));
                } else {
                    assert(next == prev);
                }
            } else {
                assert(next == prev);
            }
            assert(forall|k: int| 0 <= k < prev.len() ==> mmh_upto(*cfg, *t, self.walk(), g + 1)[k] == prev[k]);
            g += 1;
        }
        out
    }

    /// The example ranges of scope `g` ([`examples_of`]).
    fn examples_of_scope(&self, g: usize) -> (r: Vec<(usize, usize)>)
        requires
            forall|k: int| 0 <= k < self.example_links@.len() ==> (#[trigger] self.example_links@[k]).1
                < self.example_items@.len(),
        ensures
            r@ == examples_of(self.walk(), g as int, self.example_links@.len() as int),
    {
        let mut out: Vec<(usize, usize)> = Vec::new();
        let mut k: usize = 0;
        while k < self.example_links.len()
            invariant
                k <= self.example_links@.len(),
                forall|q: int| 0 <= q < self.example_links@.len() ==> (#[trigger] self.example_links@[q]).1
                    < self.example_items@.len(),
                out@ == examples_of(self.walk(), g as int, k as int),
            decreases self.example_links.len() - k,
        {
            let (sg, ei) = self.example_links[k];
            if sg == g {
                out.push(self.example_items[ei]);
            }
            k += 1;
        }
        out
    }

    /// `RSpec/RepeatedDescription` and `RSpec/RepeatedExample`
    /// ([`repeated_upto`]), twice.
    fn repeated_of(&self, t: &SyntaxTree) -> (r: (Vec<Vec<(usize, usize)>>, Vec<Vec<(usize, usize)>>))
        requires
            walk_wf(*t, self.walk()),
        ensures
            r.0@.len() == repeated_upto(self.walk(), self.scopes@.len() as int).len(),
            forall|k: int| 0 <= k < r.0@.len() ==> (#[trigger] r.0@[k])@ == repeated_upto(self.walk(),
                self.scopes@.len() as int)[k],
            r.1@.len() == repeated_upto(self.walk(), self.scopes@.len() as int).len(),
            forall|k: int| 0 <= k < r.1@.len() ==> (#[trigger] r.1@[k])@ == repeated_upto(self.walk(),
                self.scopes@.len() as int)[k],
    {
        assert(forall|k: int| 0 <= k < self.example_links@.len() ==> (#[trigger] self.example_links@[k]).1
            < self.example_items@.len()) by {
            assert forall|k: int| 0 <= k < self.example_links@.len() implies (#[trigger] self.example_links@[k]).1
                < self.example_items@.len() by {
                assert(self.walk().example_links[k] == self.example_links@[k]);
            }
        }
        let mut a: Vec<Vec<(usize, usize)>> = Vec::new();
        let mut b: Vec<Vec<(usize, usize)>> = Vec::new();
        let mut g: usize = 0;
        while g < self.scopes.len()
            invariant
                g <= self.scopes@.len(),
                forall|k: int| 0 <= k < self.example_links@.len() ==> (#[trigger] self.example_links@[k]).1
                    < self.example_items@.len(),
                a@.len() == repeated_upto(self.walk(), g as int).len(),
                forall|k: int| 0 <= k < a@.len() ==> (#[trigger] a@[k])@ == repeated_upto(self.walk(), g as int)[k],
                b@.len() == repeated_upto(self.walk(), g as int).len(),
                forall|k: int| 0 <= k < b@.len() ==> (#[trigger] b@[k])@ == repeated_upto(self.walk(), g as int)[k],
            decreases self.scopes.len() - g,
        {
            let ghost prev = repeated_upto(self.walk(), g as int);
            if self.scopes[g].example_group {
                let ex = self.examples_of_scope(g);
                if ex.len() >= 2 {
                    let ex2 = self.examples_of_scope(g);
                    a.push(ex);
                    b.push(ex2);
                }
            }
            assert(forall|k: int| 0 <= k < prev.len() ==> repeated_upto(self.walk(), g + 1)[k] == prev[k]);
            g += 1;
        }
        (a, b)
    }

    /// `RSpec/EmptyExampleGroup` ([`groups_upto`]) and `RSpec/DescribedClass`
    /// ([`described_upto`]).
    fn group_ranges_of(&self) -> (r: (Vec<(usize, usize)>, Vec<(usize, usize)>))
        ensures
            r.0@ == groups_upto(self.walk(), self.scopes@.len() as int),
            r.1@ == described_upto(self.walk(), self.scopes@.len() as int),
    {
        let mut a: Vec<(usize, usize)> = Vec::new();
        let mut b: Vec<(usize, usize)> = Vec::new();
        let mut g: usize = 0;
        while g < self.scopes.len()
            invariant
                g <= self.scopes@.len(),
                a@ == groups_upto(self.walk(), g as int),
                b@ == described_upto(self.walk(), g as int),
            decreases self.scopes.len() - g,
        {
            if self.scopes[g].example_group {
                a.push(self.scopes[g].range);
            }
            if self.scopes[g].described_class_candidate {
                b.push(self.scopes[g].range);
            }
            g += 1;
        }
        (a, b)
    }

    /// The verdicts of the rules on the state after the walk.
    pub fn finish(self, t: &SyntaxTree) -> (r: RSpecResult)
        requires
            tree_wf(*t),
            walk_wf(*t, self.walk()),
        ensures
            result_matches(*self.cfg, *t, self.walk(), r),
    {
        let ghost w = self.walk();
        let variable_name = self.variable_name_of(t);
        let variable_definition = self.variable_definition_of(t);
        let let_setup = self.let_setup_of(t);
        let multiple_memoized_helpers = self.mmh_of(t);
        let (repeated_description, repeated_example) = self.repeated_of(t);
        let (empty_example_group, described_class) = self.group_ranges_of();
        RSpecResult {
            variable_name,
            let_setup,
            variable_definition,
            multiple_memoized_helpers,
            repeated_description,
            repeated_example,
            named_subject: self.named_subject,
            metadata_anchors: self.anchors,
            focus: self.focus,
            pending_without_reason: self.pending,
            empty_example_group,
            described_class,
        }
    }
}

} // verus!
