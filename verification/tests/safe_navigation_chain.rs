use shirobai_core::rules::safe_navigation_chain::check_safe_navigation_chain;

fn run(source: &str) -> Vec<(usize, usize, String)> {
    check_safe_navigation_chain(
        source.as_bytes(),
        &["nil?".to_string(), "present?".to_string()],
    )
    .into_iter()
    .map(|o| (o.start_offset, o.end_offset, o.replacement))
    .collect()
}

#[test]
fn basic_chain() {
    let got = run("x&.foo.bar");
    assert_eq!(got.len(), 1);
    assert_eq!(got[0].2, "&.bar");
    assert_eq!(&"x&.foo.bar"[got[0].0..got[0].1], ".bar");
}

#[test]
fn accepts_safe_chain() {
    assert!(run("x&.foo&.bar").is_empty());
}

#[test]
fn accepts_nil_method() {
    assert!(run("x&.foo.nil?").is_empty());
}

#[test]
fn operator_correction() {
    let got = run("x&.foo < bar");
    assert_eq!(got.len(), 1);
    assert_eq!(got[0].2, "&. < bar");
}

#[test]
fn brackets_correction() {
    let got = run("x&.foo[bar]");
    assert_eq!(got.len(), 1);
    assert_eq!(got[0].2, "&.[](bar)");
}
