use shirobai_core::rules::rspec_language::roles;
use shirobai_core::rules::rspec_language::RSpecConfig;

/// The rubocop-rspec default Language lists in wire order.
fn default_role_lists() -> Vec<Vec<String>> {
    let v = |names: &[&str]| names.iter().map(|s| s.to_string()).collect::<Vec<_>>();
    vec![
        v(&["describe", "context", "feature", "example_group"]),
        v(&["fdescribe", "fcontext", "ffeature"]),
        v(&["xdescribe", "xcontext", "xfeature"]),
        v(&["it", "specify", "example", "scenario", "its"]),
        v(&["fit", "fspecify", "fexample", "fscenario", "focus"]),
        v(&["xit", "xspecify", "xexample", "xscenario", "skip"]),
        v(&["pending"]),
        v(&[
            "are_expected",
            "expect",
            "expect_any_instance_of",
            "is_expected",
            "should",
            "should_not",
            "should_not_receive",
            "should_receive",
        ]),
        v(&["let", "let!"]),
        v(&[
            "prepend_before",
            "before",
            "append_before",
            "around",
            "prepend_after",
            "after",
            "append_after",
        ]),
        v(&["raise_error", "raise_exception"]),
        v(&["it_behaves_like", "it_should_behave_like", "include_examples"]),
        v(&["include_context"]),
        v(&["shared_examples", "shared_examples_for"]),
        v(&["shared_context"]),
        v(&["subject", "subject!"]),
    ]
}

#[test]
fn classifies_default_names() {
    let cfg = RSpecConfig::from_role_lists(&default_role_lists()).unwrap();
    assert_eq!(cfg.roles_of(b"describe"), roles::EG_REGULAR);
    assert_eq!(cfg.roles_of(b"fdescribe"), roles::EG_FOCUSED);
    assert_eq!(cfg.roles_of(b"xit"), roles::EX_SKIPPED);
    assert_eq!(cfg.roles_of(b"its"), roles::EX_REGULAR);
    assert_eq!(cfg.roles_of(b"let!"), roles::HELPERS);
    assert_eq!(cfg.roles_of(b"subject!"), roles::SUBJECTS);
    assert_eq!(cfg.roles_of(b"include_context"), roles::INC_CONTEXT);
    assert_eq!(cfg.roles_of(b"shared_context"), roles::SG_CONTEXT);
    assert_eq!(cfg.roles_of(b"nonsense"), 0);
    assert_ne!(cfg.roles_of(b"describe") & roles::EG_ALL, 0);
    assert_eq!(cfg.roles_of(b"describe") & roles::EX_ALL, 0);
}

#[test]
fn a_name_can_carry_several_roles() {
    let mut lists = default_role_lists();
    // A user alias registered both as an example and as a helper.
    lists[3].push("given".to_string());
    lists[8].push("given".to_string());
    let cfg = RSpecConfig::from_role_lists(&lists).unwrap();
    assert_eq!(cfg.roles_of(b"given"), roles::EX_REGULAR | roles::HELPERS);
}

#[test]
fn wrong_list_count_errors() {
    assert!(RSpecConfig::from_role_lists(&vec![vec![]; 15]).is_err());
}

#[test]
fn segment_errors_name_the_count() {
    let e = RSpecConfig::from_segment(&[1, 0], &default_role_lists()).unwrap_err();
    assert_eq!(e, "rspec segment expects 5 nums, got 2");
    let e = RSpecConfig::from_segment(&[1, 0, 0, 5, 1], &vec![vec![]; 3]).unwrap_err();
    assert_eq!(e, "rspec segment expects 16 role lists, got 3");
    let e = RSpecConfig::from_role_lists(&vec![vec![]; 15]).unwrap_err();
    assert_eq!(e, "rspec segment expects 16 role lists, got 15");
    let e = RSpecConfig::from_role_lists(&vec![vec![]; 120]).unwrap_err();
    assert_eq!(e, "rspec segment expects 16 role lists, got 120");
}

#[test]
fn enabled_segment_builds_its_config() {
    assert!(RSpecConfig::from_segment(&[0, 1, 1, 9, 0], &[]).unwrap().is_none());
    let c = RSpecConfig::from_segment(&[1, 1, 1, 7, 0], &default_role_lists()).unwrap().unwrap();
    assert_eq!(c.variable_name_style, 1);
    assert_eq!(c.variable_definition_style, 1);
    assert_eq!(c.mmh_max, 7);
    assert!(!c.mmh_allow_subject);
    assert_eq!(c.roles_of(b"let"), roles::HELPERS);
}

#[test]
fn several_roles_leave_other_names_alone() {
    let mut lists = default_role_lists();
    lists[3].push("given".to_string());
    lists[8].push("given".to_string());
    let cfg = RSpecConfig::from_role_lists(&lists).unwrap();
    assert_eq!(cfg.roles_of(b"given"), 264);
    assert_eq!(cfg.roles_of(b"describe"), roles::EG_REGULAR);
    assert_eq!(cfg.roles_of(b"nonsense"), 0);
}
