//! The snapshot of the registrations.
use agent_locksmith::registrations::auth_spec::AuthSpec;
use agent_locksmith::registrations::catalog::Catalog;
use agent_locksmith::registrations::kind::Kind;
use agent_locksmith::registrations::repo::Registration;

fn r(name: &str, kind: Kind, disabled: bool) -> Registration {
    let mut r = Registration::new(
        name.to_string(),
        kind,
        String::new(),
        "https://example.com".to_string(),
        AuthSpec::NoAuth,
    );
    r.disabled = disabled;
    r
}

#[test]
fn lookup_active_skips_disabled() {
    let c = Catalog::from_rows(vec![
        r("foo", Kind::Tool, false),
        r("bar", Kind::Tool, true),
    ]);
    assert!(c.lookup_active("foo").is_some());
    assert!(c.lookup_active("bar").is_none());
    assert!(c.lookup_any("bar").is_some());
}

#[test]
fn iter_enabled_by_kind_filters() {
    let c = Catalog::from_rows(vec![
        r("a", Kind::Tool, false),
        r("b", Kind::Model, false),
        r("c", Kind::Tool, true),
        r("d", Kind::Infra, false),
    ]);
    let tools: Vec<_> = c
        .iter_enabled_by_kind(Kind::Tool)
        .iter()
        .map(|r| r.name.clone())
        .collect();
    assert_eq!(tools, vec!["a"]);
    let models: Vec<_> = c
        .iter_enabled_by_kind(Kind::Model)
        .iter()
        .map(|r| r.name.clone())
        .collect();
    assert_eq!(models, vec!["b"]);
}
