//! Agents and what they may call.
use agent_locksmith::auth_v2::AgentIdentity;

fn ident(allow: Option<&[&str]>, deny: Option<&[&str]>) -> AgentIdentity {
    AgentIdentity {
        public_id: "test-pid".into(),
        name: "test".into(),
        tool_allowlist: allow.map(|s| s.iter().map(|t| t.to_string()).collect()),
        tool_denylist: deny.map(|s| s.iter().map(|t| t.to_string()).collect()),
    }
}

#[test]
fn allows_tool_when_no_lists() {
    assert!(ident(None, None).allows_tool("anything").is_ok());
}

#[test]
fn allows_tool_enforces_allowlist_membership() {
    let id = ident(Some(&["github", "tavily"]), None);
    assert!(id.allows_tool("github").is_ok());
    assert_eq!(id.allows_tool("anthropic"), Err("not_in_allowlist"));
}

#[test]
fn allows_tool_enforces_denylist_exclusion() {
    let id = ident(None, Some(&["dangerous"]));
    assert!(id.allows_tool("safe").is_ok());
    assert_eq!(id.allows_tool("dangerous"), Err("in_denylist"));
}

#[test]
fn allows_tool_denylist_wins_when_both_overlap() {
    let id = ident(Some(&["x", "y"]), Some(&["x"]));
    assert_eq!(
        id.allows_tool("x"),
        Err("in_denylist"),
        "explicit deny must win over allowlist membership"
    );
    assert!(
        id.allows_tool("y").is_ok(),
        "non-overlapping allow still works"
    );
}

#[test]
fn allows_tool_empty_allowlist_denies_all() {
    let id = ident(Some(&[]), None);
    assert_eq!(id.allows_tool("anything"), Err("not_in_allowlist"));
    assert_eq!(id.allows_tool(""), Err("not_in_allowlist"));
}

#[test]
fn allows_tool_empty_denylist_is_noop() {
    let id = ident(None, Some(&[]));
    assert!(id.allows_tool("anything").is_ok());
}
