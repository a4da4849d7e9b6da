//! The pool of HTTP clients.
use std::sync::Arc;

use agent_locksmith::client_pool::{client_or_default, ClientPool, ToolFingerprint};
use agent_locksmith::config::{
    AppConfig, AuthMode, EgressMode, ListenConfig, ShutdownConfig, ToolConfig, ToolTimeouts,
};

fn tool(name: &str, request_seconds: u64) -> ToolConfig {
    ToolConfig {
        name: name.to_string(),
        description: String::new(),
        upstream: "http://x".to_string(),
        egress: EgressMode::Direct,
        auth: None,
        timeouts: ToolTimeouts {
            request_seconds,
            idle_seconds: 60,
        },
        body_limit_bytes: 1024,
    }
}

fn empty_config() -> AppConfig {
    AppConfig {
        listen: ListenConfig {
            host: "127.0.0.1".to_string(),
            port: 9200,
            auth_mode: AuthMode::Bearer,
            admin_socket: None,
        },
        inbound_auth: None,
        egress_proxy: None,
        logging: None,
        shutdown: ShutdownConfig::default(),
        tools: vec![],
        operator_credentials_path: None,
        database: None,
        audit: None,
    }
}

#[test]
fn returns_same_arc_for_unchanged_tool() {
    let mut pool = ClientPool::new();
    let cfg = empty_config();
    let t = tool("github", 30);
    let a = pool.get_or_build(&t, &cfg).unwrap();
    let b = pool.get_or_build(&t, &cfg).unwrap();
    assert!(
        Arc::ptr_eq(&a, &b),
        "second lookup should return the cached Arc"
    );
    assert_eq!(pool.len(), 1);
}

#[test]
fn rebuilds_when_fingerprint_changes() {
    let mut pool = ClientPool::new();
    let cfg = empty_config();
    let a = pool.get_or_build(&tool("github", 30), &cfg).unwrap();
    let b = pool.get_or_build(&tool("github", 60), &cfg).unwrap();
    assert!(
        !Arc::ptr_eq(&a, &b),
        "different fingerprint must produce a new client"
    );
    assert_eq!(pool.len(), 1, "still one entry; old replaced");
}

#[test]
fn independent_entries_per_tool() {
    let mut pool = ClientPool::new();
    let cfg = empty_config();
    let github = pool.get_or_build(&tool("github", 30), &cfg).unwrap();
    let anthropic = pool.get_or_build(&tool("anthropic", 30), &cfg).unwrap();
    assert!(!Arc::ptr_eq(&github, &anthropic));
    assert_eq!(pool.len(), 2);
}

#[test]
fn cleanup_removed_drops_unlisted_entries() {
    let mut pool = ClientPool::new();
    let cfg = empty_config();
    let _g = pool.get_or_build(&tool("github", 30), &cfg);
    let _a = pool.get_or_build(&tool("anthropic", 30), &cfg);
    assert_eq!(pool.len(), 2);
    pool.cleanup_removed(&["anthropic"]);
    assert_eq!(pool.len(), 1);
}

#[test]
fn the_proxy_counts_only_for_proxied_tools() {
    let mut pool = ClientPool::new();
    let mut cfg = empty_config();
    let a = pool.get_or_build(&tool("github", 30), &cfg).unwrap();
    cfg.egress_proxy = Some("http://127.0.0.1:3128".to_string());
    let b = pool.get_or_build(&tool("github", 30), &cfg).unwrap();
    assert!(Arc::ptr_eq(&a, &b));
    let mut proxied = tool("github", 30);
    proxied.egress = EgressMode::Proxied;
    let c = pool.get_or_build(&proxied, &cfg).unwrap();
    assert!(!Arc::ptr_eq(&b, &c));
}

#[test]
fn a_proxy_that_cannot_be_read_is_left_out() {
    let mut pool = ClientPool::new();
    let mut cfg = empty_config();
    cfg.egress_proxy = Some("http://".to_string());
    let mut proxied = tool("github", 30);
    proxied.egress = EgressMode::Proxied;
    let a = pool.get_or_build(&proxied, &cfg).unwrap();
    let b = pool.get_or_build(&proxied, &cfg).unwrap();
    assert!(Arc::ptr_eq(&a, &b));
    assert_eq!(pool.len(), 1);
    cfg.egress_proxy = Some("http://127.0.0.1:3128".to_string());
    let c = pool.get_or_build(&proxied, &cfg).unwrap();
    assert!(!Arc::ptr_eq(&a, &c));
    assert!(!format!("{:?}", a).contains("3128"));
    assert!(format!("{:?}", c).contains("3128"));
    assert!(format!("{:?}", c).contains("30s"));
    assert_eq!(pool.len(), 1);
}

#[test]
fn a_built_client_is_kept_and_a_missing_one_is_not() {
    let mut pool = ClientPool::new();
    let cfg = empty_config();
    let t = tool("github", 30);
    let wanted = ToolFingerprint::of(t.timeouts, t.egress, &cfg);
    assert!(pool.keep_built("github", wanted, None).is_none());
    assert_eq!(pool.len(), 0);
    let wanted = ToolFingerprint::of(t.timeouts, t.egress, &cfg);
    let kept = pool.keep_built("github", wanted, client_or_default(None)).unwrap();
    assert_eq!(pool.len(), 1);
    let again = pool.get_or_build(&t, &cfg).unwrap();
    assert!(Arc::ptr_eq(&kept, &again));
}
