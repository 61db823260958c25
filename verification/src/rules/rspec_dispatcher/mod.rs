//! The RSpec rules that share one walk: `RSpec/VariableName`,
//! `RSpec/VariableDefinition`, `RSpec/LetSetup`,
//! `RSpec/MultipleMemoizedHelpers`, `RSpec/RepeatedDescription`,
//! `RSpec/RepeatedExample`, `RSpec/NamedSubject`, the metadata rules,
//! `RSpec/Focus`, `RSpec/PendingWithoutReason`, `RSpec/EmptyExampleGroup`
//! and `RSpec/DescribedClass`.
//!
//! Every call is classified once against `RSpec/Language` ([`calls`]); the
//! walk keeps the open scopes and what belongs to them ([`state`]); the
//! verdicts are taken once the walk is over ([`verdicts`]). Some rules get
//! candidates only (ranges of calls or blocks): the comparison of parser
//! nodes that decides them is not made here.

pub mod naming;
pub mod calls;
pub mod state;
pub mod verdicts;

use vstd::prelude::*;
use crate::syntax::{SyntaxTree, tree_wf};
use crate::syntax::kinds;
use crate::syntax::walk::{Event, walk, walk_events, events_in};
use crate::syntax::flatten::{parse_tree, check_tree, tree_of};
use crate::rules::rspec_language::RSpecConfig;
use state::{initial_walk, run, walk_wf, lemma_leave_wf, run_described_are_groups, run_ranges_in, run_without_group_calls,
    spec_group_block_call, run_scopes_are_calls, group_call_with_range, opened_by_call, scope_of_call};
use verdicts::{result_matches, alt_style, is_subsequence, described_groups_among_groups, repeated_slots_agree,
    repeated_groups_have_two, mmh_groups_exceed_max, variable_name_follows_style, verdict_ranges_in,
    verdict_groups_are_scopes, group_scope_range, spec_group_scope_range};
use naming::spec_matches_style;
pub use state::RSpecDispatcherRule;
pub use verdicts::{VarNameOffense, VarDefOffense, MmhGroup, RSpecResult};
pub use naming::{snake_case, camel_case, matches_style};

verus! {

/// A walk over nothing yet, with configuration `cfg`.
pub fn build_rule<'c>(cfg: &'c RSpecConfig) -> (r: RSpecDispatcherRule<'c>)
    ensures
        r.cfg == cfg,
        r.walk() == initial_walk(),
{
    let r = RSpecDispatcherRule {
        cfg,
        stack: Vec::new(),
        scope_stack: Vec::new(),
        scopes: Vec::new(),
        let_items: Vec::new(),
        let_links: Vec::new(),
        subject_items: Vec::new(),
        subject_links: Vec::new(),
        example_items: Vec::new(),
        example_links: Vec::new(),
        zero_arg_calls: Vec::new(),
        candidates: Vec::new(),
        named_subject: Vec::new(),
        anchors: Vec::new(),
        focus: Vec::new(),
        pending: Vec::new(),
    };
    assert(r.walk() =~= initial_walk());
    r
}

/// What the RSpec rules find along the walk `evs` of `t`: the verdicts on
/// the state after all the events.
pub fn rspec_result(source: &[u8], t: &SyntaxTree, evs: &Vec<Event>, cfg: &RSpecConfig) -> (r: RSpecResult)
    requires
        tree_wf(*t),
        t.source_len == source@.len(),
        events_in(evs@, t.nodes@.len() as nat),
        cfg.wf(),
    ensures
        result_matches(*cfg, *t, run(source@, *t, *cfg, evs@, evs@.len() as int), r),
{
    let mut rule = build_rule(cfg);
    let mut k: usize = 0;
    while k < evs.len()
        invariant
            tree_wf(*t),
            t.source_len == source@.len(),
            events_in(evs@, t.nodes@.len() as nat),
            cfg.wf(),
            rule.cfg == cfg,
            k <= evs@.len(),
            rule.walk() == run(source@, *t, *cfg, evs@, k as int),
            walk_wf(*t, rule.walk()),
        decreases evs.len() - k,
    {
        let e = evs[k];
        match e {
            Event::Enter(i) => {
                rule.enter(source, t, i);
            },
            Event::Leave(_) => {
                let ghost before = rule.walk();
                rule.leave();
                proof { lemma_leave_wf(*t, before); }
            },
            _ => {},
        }
        k += 1;
    }
    rule.finish(t)
}

/// A result with nothing in it.
pub open spec fn result_empty(r: RSpecResult) -> bool {
    &&& r.variable_name.0@.len() == 0
    &&& r.variable_name.1@.len() == 0
    &&& r.let_setup@.len() == 0
    &&& r.variable_definition@.len() == 0
    &&& r.multiple_memoized_helpers@.len() == 0
    &&& r.repeated_description@.len() == 0
    &&& r.repeated_example@.len() == 0
    &&& r.named_subject@.len() == 0
    &&& r.metadata_anchors@.len() == 0
    &&& r.focus@.len() == 0
    &&& r.pending_without_reason@.len() == 0
    &&& r.empty_example_group@.len() == 0
    &&& r.described_class@.len() == 0
}

/// `r` is what the RSpec rules find in `source` as parsed: the verdicts on the
/// walk of a well-formed tree of the source, or nothing where the parsed tree
/// is not well formed.
pub open spec fn source_result(source: Seq<u8>, cfg: RSpecConfig, r: RSpecResult) -> bool {
    exists|t: SyntaxTree| #[trigger] tree_of(t, source) && (if tree_wf(t) {
        result_matches(cfg, t, run(source, t, cfg, walk_events(t), walk_events(t).len() as int), r)
    } else {
        result_empty(r)
    })
}

/// What every result of the RSpec rules keeps, whatever the source:
/// - `RSpec/VariableName` reports symbol and string names (kinds 0 and 1)
///   only; an offense's name lacks the configured style, and `valid_alt`
///   tells whether it has the other one; a passing name has the style;
/// - every `RSpec/MultipleMemoizedHelpers` group has more distinct helpers
///   and interpolated names together than `Max`;
/// - `RSpec/RepeatedDescription` and `RSpec/RepeatedExample` list the same
///   groups, each of two examples or more;
/// - the groups `RSpec/DescribedClass` lists are among those
///   `RSpec/EmptyExampleGroup` lists, in the same order;
/// - the ranges of these groups and of the memoized-helper groups lie
///   within the source;
/// - on the tree of the source, every memoized-helper group is the range of a
///   call with a plain block, a `nil`, `RSpec` or `::RSpec` receiver and an
///   `ExampleGroups` or `SharedGroups` name, and every empty-example-group
///   candidate that of such a call with an `ExampleGroups` name.
pub proof fn source_result_laws(source: Seq<u8>, cfg: RSpecConfig, r: RSpecResult)
    requires
        source_result(source, cfg, r),
    ensures
        forall|k: int| 0 <= k < r.variable_name.0@.len() ==> {
            let o = #[trigger] r.variable_name.0@[k];
            &&& !spec_matches_style(o.value@, cfg.variable_name_style)
            &&& o.valid_alt == spec_matches_style(o.value@, alt_style(cfg.variable_name_style))
            &&& o.kind <= 1
        },
        forall|k: int| 0 <= k < r.variable_name.1@.len() ==> spec_matches_style(
            (#[trigger] r.variable_name.1@[k]).0@, cfg.variable_name_style) && r.variable_name.1@[k].1 <= 1,
        forall|k: int| 0 <= k < r.multiple_memoized_helpers@.len() ==> (#[trigger] r.multiple_memoized_helpers@[k]).rust_distinct
            + r.multiple_memoized_helpers@[k].dsym_dstr_ranges@.len() > cfg.mmh_max,
        r.repeated_description@.len() == r.repeated_example@.len(),
        forall|k: int| 0 <= k < r.repeated_description@.len() ==> (#[trigger] r.repeated_description@[k])@
            == r.repeated_example@[k]@ && r.repeated_description@[k]@.len() >= 2,
        is_subsequence(r.described_class@, r.empty_example_group@),
        forall|k: int| 0 <= k < r.empty_example_group@.len() ==> (#[trigger] r.empty_example_group@[k]).0
            <= r.empty_example_group@[k].1 <= source.len(),
        forall|k: int| 0 <= k < r.described_class@.len() ==> (#[trigger] r.described_class@[k]).0
            <= r.described_class@[k].1 <= source.len(),
        forall|k: int| 0 <= k < r.multiple_memoized_helpers@.len() ==> (#[trigger] r.multiple_memoized_helpers@[k]).start
            <= r.multiple_memoized_helpers@[k].end <= source.len(),
        exists|t: SyntaxTree| #[trigger] tree_of(t, source) && {
            &&& forall|k: int| 0 <= k < r.multiple_memoized_helpers@.len() ==> group_call_with_range(
                cfg,
                t,
                ((#[trigger] r.multiple_memoized_helpers@[k]).start, r.multiple_memoized_helpers@[k].end),
                true,
            )
            &&& forall|k: int| 0 <= k < r.empty_example_group@.len() ==> group_call_with_range(
                cfg,
                t,
                #[trigger] r.empty_example_group@[k],
                false,
            )
        },
{
    let t = choose|t: SyntaxTree| #[trigger] tree_of(t, source) && (if tree_wf(t) {
        result_matches(cfg, t, run(source, t, cfg, walk_events(t), walk_events(t).len() as int), r)
    } else {
        result_empty(r)
    });
    if tree_wf(t) {
        let evs = walk_events(t);
        let w = run(source, t, cfg, evs, evs.len() as int);
        let n = w.candidates.len() as int;
        let g = w.scopes.len() as int;
        variable_name_follows_style(cfg, t, w.candidates, n);
        mmh_groups_exceed_max(cfg, t, w, g);
        repeated_slots_agree(cfg, t, w, r);
        repeated_groups_have_two(w, g);
        run_described_are_groups(source, t, cfg, evs, evs.len() as int);
        described_groups_among_groups(w, g);
        run_ranges_in(source, t, cfg, evs, evs.len() as int);
        run_scopes_are_calls(source, t, cfg, evs, evs.len() as int);
        verdict_groups_are_scopes(cfg, t, w, g);
        assert forall|k: int| 0 <= k < r.multiple_memoized_helpers@.len() implies group_call_with_range(
            cfg,
            t,
            ((#[trigger] r.multiple_memoized_helpers@[k]).start, r.multiple_memoized_helpers@[k].end),
            true,
        ) by {
            let mm = verdicts::mmh_upto(cfg, t, w, g);
            let rg = (r.multiple_memoized_helpers@[k].start, r.multiple_memoized_helpers@[k].end);
            assert(rg == (mm[k].0, mm[k].1));
            assert(spec_group_scope_range(w, (mm[k].0, mm[k].1)));
            let h = choose|h: int| 0 <= h < w.scopes.len() && (#[trigger] w.scopes[h]).spec_group && w.scopes[h].range == rg;
            assert(opened_by_call(cfg, t, w.scopes[h]));
            let i = choose|i: int| #[trigger] scope_of_call(cfg, t, w.scopes[h], i);
            assert(t.nodes@[i].start == rg.0);
        }
        assert forall|k: int| 0 <= k < r.empty_example_group@.len() implies group_call_with_range(
            cfg,
            t,
            #[trigger] r.empty_example_group@[k],
            false,
        ) by {
            let rg = r.empty_example_group@[k];
            assert(group_scope_range(w, verdicts::groups_upto(w, g)[k]));
            let h = choose|h: int| 0 <= h < w.scopes.len() && (#[trigger] w.scopes[h]).example_group && w.scopes[h].range == rg;
            assert(opened_by_call(cfg, t, w.scopes[h]));
            let i = choose|i: int| #[trigger] scope_of_call(cfg, t, w.scopes[h], i);
            assert(t.nodes@[i].start == rg.0);
        }
        verdict_ranges_in(cfg, t, w, g, source.len());
        let idx = choose|idx: Seq<int>| #[trigger] verdicts::subsequence_by(r.described_class@, r.empty_example_group@, idx);
        assert forall|k: int| 0 <= k < r.described_class@.len() implies (#[trigger] r.described_class@[k]).0
            <= r.described_class@[k].1 <= source.len() by {
            assert(r.described_class@[k] == r.empty_example_group@[idx[k]]);
        }
        let vno = verdicts::vn_offenses(cfg, t, w.candidates, n);
        let vnp = verdicts::vn_passing(cfg, t, w.candidates, n);
        let mmh = verdicts::mmh_upto(cfg, t, w, g);
        let rep = verdicts::repeated_upto(w, g);
        assert forall|k: int| 0 <= k < r.variable_name.0@.len() implies {
            let o = #[trigger] r.variable_name.0@[k];
            &&& !spec_matches_style(o.value@, cfg.variable_name_style)
            &&& o.valid_alt == spec_matches_style(o.value@, alt_style(cfg.variable_name_style))
            &&& o.kind <= 1
        } by {
            assert(r.variable_name.0@[k].value@ == vno[k].3 && r.variable_name.0@[k].kind == vno[k].2);
        }
        assert forall|k: int| 0 <= k < r.variable_name.1@.len() implies spec_matches_style(
            (#[trigger] r.variable_name.1@[k]).0@, cfg.variable_name_style) && r.variable_name.1@[k].1 <= 1 by {
            assert(r.variable_name.1@[k].0@ == vnp[k].0 && r.variable_name.1@[k].1 == vnp[k].1);
        }
        assert forall|k: int| 0 <= k < r.multiple_memoized_helpers@.len() implies (#[trigger] r.multiple_memoized_helpers@[k]).rust_distinct
            + r.multiple_memoized_helpers@[k].dsym_dstr_ranges@.len() > cfg.mmh_max by {
            assert(r.multiple_memoized_helpers@[k].start == mmh[k].0 && r.multiple_memoized_helpers@[k].end == mmh[k].1);
        }
        assert forall|k: int| 0 <= k < r.multiple_memoized_helpers@.len() implies (#[trigger] r.multiple_memoized_helpers@[k]).start
            <= r.multiple_memoized_helpers@[k].end <= source.len() by {
            assert(r.multiple_memoized_helpers@[k].start == mmh[k].0 && r.multiple_memoized_helpers@[k].end == mmh[k].1);
        }
        assert forall|k: int| 0 <= k < r.repeated_description@.len() implies (#[trigger] r.repeated_description@[k])@
            == r.repeated_example@[k]@ && r.repeated_description@[k]@.len() >= 2 by {
            assert(r.repeated_description@[k]@ == rep[k]);
        }
    } else {
        assert(verdicts::subsequence_by(r.described_class@, r.empty_example_group@, Seq::<int>::empty()));
    }
}

/// `RSpec/VariableName` and `RSpec/VariableDefinition` read names under a
/// top-level spec group only: where no call of the tree is a spec group with
/// a literal block and a `nil`, `RSpec` or `::RSpec` receiver, the walk of
/// the tree gives neither any offense nor any passing name.
pub proof fn no_spec_group_no_variable_names(source: Seq<u8>, t: SyntaxTree, cfg: RSpecConfig, r: RSpecResult)
    requires
        result_matches(cfg, t, run(source, t, cfg, walk_events(t), walk_events(t).len() as int), r),
        forall|i: int| 0 <= i < t.nodes@.len() && t.nodes@[i].kind == kinds::CALL_NODE ==> !#[trigger] spec_group_block_call(cfg, t, i),
    ensures
        r.variable_name.0@.len() == 0,
        r.variable_name.1@.len() == 0,
        r.variable_definition@.len() == 0,
{
    let evs = walk_events(t);
    run_without_group_calls(source, t, cfg, evs, evs.len() as int);
}

/// The same for the result on a source: where the tree of the source has no
/// call that is a spec group with a literal block and a `nil`, `RSpec` or
/// `::RSpec` receiver, `RSpec/VariableName` and `RSpec/VariableDefinition`
/// find nothing.
pub proof fn no_spec_group_no_variable_names_in_source(source: Seq<u8>, cfg: RSpecConfig, r: RSpecResult)
    requires
        source_result(source, cfg, r),
        forall|t: SyntaxTree| #[trigger] tree_of(t, source) ==> forall|i: int|
            0 <= i < t.nodes@.len() && t.nodes@[i].kind == kinds::CALL_NODE ==> !#[trigger] spec_group_block_call(cfg, t, i),
    ensures
        r.variable_name.0@.len() == 0,
        r.variable_name.1@.len() == 0,
        r.variable_definition@.len() == 0,
{
    let t = choose|t: SyntaxTree| #[trigger] tree_of(t, source) && (if tree_wf(t) {
        result_matches(cfg, t, run(source, t, cfg, walk_events(t), walk_events(t).len() as int), r)
    } else {
        result_empty(r)
    });
    if tree_wf(t) {
        no_spec_group_no_variable_names(source, t, cfg, r);
    }
}

/// A result with nothing in it.
fn empty_result() -> (r: RSpecResult)
    ensures
        r.variable_name.0@.len() == 0,
        r.variable_name.1@.len() == 0,
        r.let_setup@.len() == 0,
        r.variable_definition@.len() == 0,
        r.multiple_memoized_helpers@.len() == 0,
        r.repeated_description@.len() == 0,
        r.repeated_example@.len() == 0,
        r.named_subject@.len() == 0,
        r.metadata_anchors@.len() == 0,
        r.focus@.len() == 0,
        r.pending_without_reason@.len() == 0,
        r.empty_example_group@.len() == 0,
        r.described_class@.len() == 0,
{
    RSpecResult {
        variable_name: (Vec::new(), Vec::new()),
        let_setup: Vec::new(),
        variable_definition: Vec::new(),
        multiple_memoized_helpers: Vec::new(),
        repeated_description: Vec::new(),
        repeated_example: Vec::new(),
        named_subject: Vec::new(),
        metadata_anchors: Vec::new(),
        focus: Vec::new(),
        pending_without_reason: Vec::new(),
        empty_example_group: Vec::new(),
        described_class: Vec::new(),
    }
}

/// The RSpec rules on `source`; nothing where it does not parse into a
/// well-formed tree.
fn run_source(source: &[u8], cfg: &RSpecConfig) -> (r: RSpecResult)
    requires
        cfg.wf(),
    ensures
        source_result(source@, *cfg, r),
{
    let t = parse_tree(source);
    if !check_tree(&t) {
        let r = empty_result();
        assert(tree_of(t, source@));
        return r;
    }
    let evs = walk(&t);
    let r = rspec_result(source, &t, &evs, cfg);
    assert(tree_of(t, source@));
    r
}

/// `RSpec/VariableName`: the offenses, and the names that have the style
/// with their kinds.
pub fn check_rspec_variable_name(source: &[u8], cfg: &RSpecConfig) -> (r: (Vec<VarNameOffense>, Vec<(String, u8)>))
    requires
        cfg.wf(),
    ensures
        exists|all: RSpecResult| #[trigger] source_result(source@, *cfg, all) && r == all.variable_name,
{
    let all = run_source(source, cfg);
    all.variable_name
}

/// `RSpec/LetSetup`: the `let!` calls whose name nothing calls.
pub fn check_rspec_let_setup(source: &[u8], cfg: &RSpecConfig) -> (r: Vec<(usize, usize)>)
    requires
        cfg.wf(),
    ensures
        exists|all: RSpecResult| #[trigger] source_result(source@, *cfg, all) && r == all.let_setup,
{
    let all = run_source(source, cfg);
    all.let_setup
}

/// `RSpec/VariableDefinition`.
pub fn check_rspec_variable_definition(source: &[u8], cfg: &RSpecConfig) -> (r: Vec<VarDefOffense>)
    requires
        cfg.wf(),
    ensures
        exists|all: RSpecResult| #[trigger] source_result(source@, *cfg, all) && r == all.variable_definition,
{
    let all = run_source(source, cfg);
    all.variable_definition
}

/// `RSpec/MultipleMemoizedHelpers`: the groups that may have too many
/// helpers.
pub fn check_rspec_multiple_memoized_helpers(source: &[u8], cfg: &RSpecConfig) -> (r: Vec<MmhGroup>)
    requires
        cfg.wf(),
    ensures
        exists|all: RSpecResult| #[trigger] source_result(source@, *cfg, all) && r == all.multiple_memoized_helpers,
{
    let all = run_source(source, cfg);
    all.multiple_memoized_helpers
}

/// `RSpec/RepeatedDescription`: per group with two examples or more, their
/// ranges.
pub fn check_rspec_repeated_description(source: &[u8], cfg: &RSpecConfig) -> (r: Vec<Vec<(usize, usize)>>)
    requires
        cfg.wf(),
    ensures
        exists|all: RSpecResult| #[trigger] source_result(source@, *cfg, all) && r == all.repeated_description,
{
    let all = run_source(source, cfg);
    all.repeated_description
}

/// `RSpec/RepeatedExample`: the same groups.
pub fn check_rspec_repeated_example(source: &[u8], cfg: &RSpecConfig) -> (r: Vec<Vec<(usize, usize)>>)
    requires
        cfg.wf(),
    ensures
        exists|all: RSpecResult| #[trigger] source_result(source@, *cfg, all) && r == all.repeated_example,
{
    let all = run_source(source, cfg);
    all.repeated_example
}

/// `RSpec/NamedSubject`: the bare `subject` references.
pub fn check_rspec_named_subject(source: &[u8], cfg: &RSpecConfig) -> (r: Vec<(usize, usize)>)
    requires
        cfg.wf(),
    ensures
        exists|all: RSpecResult| #[trigger] source_result(source@, *cfg, all) && r == all.named_subject,
{
    let all = run_source(source, cfg);
    all.named_subject
}

/// The blocks whose metadata the metadata rules read.
pub fn check_rspec_metadata_anchors(source: &[u8], cfg: &RSpecConfig) -> (r: Vec<(usize, usize)>)
    requires
        cfg.wf(),
    ensures
        exists|all: RSpecResult| #[trigger] source_result(source@, *cfg, all) && r == all.metadata_anchors,
{
    let all = run_source(source, cfg);
    all.metadata_anchors
}

/// `RSpec/Focus` candidates.
pub fn check_rspec_focus(source: &[u8], cfg: &RSpecConfig) -> (r: Vec<(usize, usize)>)
    requires
        cfg.wf(),
    ensures
        exists|all: RSpecResult| #[trigger] source_result(source@, *cfg, all) && r == all.focus,
{
    let all = run_source(source, cfg);
    all.focus
}

/// `RSpec/PendingWithoutReason` candidates.
pub fn check_rspec_pending_without_reason(source: &[u8], cfg: &RSpecConfig) -> (r: Vec<(usize, usize)>)
    requires
        cfg.wf(),
    ensures
        exists|all: RSpecResult| #[trigger] source_result(source@, *cfg, all) && r == all.pending_without_reason,
{
    let all = run_source(source, cfg);
    all.pending_without_reason
}

/// `RSpec/EmptyExampleGroup` candidates.
pub fn check_rspec_empty_example_group(source: &[u8], cfg: &RSpecConfig) -> (r: Vec<(usize, usize)>)
    requires
        cfg.wf(),
    ensures
        exists|all: RSpecResult| #[trigger] source_result(source@, *cfg, all) && r == all.empty_example_group,
{
    let all = run_source(source, cfg);
    all.empty_example_group
}

/// `RSpec/DescribedClass` candidates.
pub fn check_rspec_described_class(source: &[u8], cfg: &RSpecConfig) -> (r: Vec<(usize, usize)>)
    requires
        cfg.wf(),
    ensures
        exists|all: RSpecResult| #[trigger] source_result(source@, *cfg, all) && r == all.described_class,
{
    let all = run_source(source, cfg);
    all.described_class
}

} // verus!
