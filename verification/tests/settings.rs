//! Configuration, the mirror of the audit log, and the daemon's own rules.
use agent_locksmith::audit::{AuditEvent, Decision, EventClass};
use agent_locksmith::audit_sink::{
    active_path, is_mirror_file, next_target, prune_oldest, serialize, utc_date, RotatedFile,
    SinkState,
};
use agent_locksmith::calendar::date_at;
use agent_locksmith::cli::output::render_scalar;
use agent_locksmith::config::{
    config_creds, expand_env_vars, expand_env_vars_within, load_tree, AdminSocketConfig, AppConfig,
    AuditConfig, AuthMode, DatabaseConfig, EgressMode, ListenConfig, ShutdownConfig,
    ToolAuthConfig, ToolConfig, ToolTimeouts,
};
use agent_locksmith::daemon::{
    admin_plan, drained, retention_cutoff, sweep_interval, DaemonError,
};
use agent_locksmith::deprecation::{default_registry, emit_deprecation};
use agent_locksmith::secret::Secret;

fn env(pairs: &[(&str, &str)]) -> Vec<(String, String)> {
    pairs
        .iter()
        .map(|(k, v)| (k.to_string(), v.to_string()))
        .collect()
}

#[test]
fn variables_are_put_in() {
    let e = env(&[("A", "1"), ("B", "${A}")]);
    assert_eq!(expand_env_vars("x ${A} y", &e), "x 1 y");
    assert_eq!(expand_env_vars("${MISSING}!", &e), "!");
    assert_eq!(
        expand_env_vars_within("${B}", &e, 100),
        Some("1".to_string())
    );
    let endless = env(&[("L", "${L}")]);
    assert_eq!(expand_env_vars_within("${L}", &endless, 100), None);
}

#[test]
fn old_fields_are_moved_and_named() {
    let mut registry = default_registry();
    let raw = "tools:\n  - name: a\n    upstream: ${U}\n    cloud: true\n    timeout_seconds: 9\n";
    let (tree, warnings) = load_tree(raw, &env(&[("U", "http://u")]), 1000, &mut registry).unwrap();
    let text = render_scalar(&tree);
    assert!(text.contains(r#""upstream":"http://u""#));
    assert!(text.contains(r#""egress":"proxied""#));
    assert!(text.contains(r#""request_seconds":9"#));
    assert!(!text.contains("cloud"));
    assert_eq!(warnings.len(), 2);
    assert!(load_tree("a: [", &vec![], 10, &mut registry).is_err());
}

#[test]
fn each_old_field_is_named_once() {
    let mut registry = default_registry();
    assert!(emit_deprecation(&mut registry, "telemetry").is_some());
    assert!(emit_deprecation(&mut registry, "telemetry").is_none());
    assert!(emit_deprecation(&mut registry, "nothing").is_none());
}

#[test]
fn events_are_mirrored_one_per_line() {
    let e = AuditEvent::bare(7, EventClass::Proxy, "proxy_request", Decision::Allowed);
    let line = serialize(&e);
    assert!(line.ends_with("}\n"));
    let v: serde_json::Value = serde_json::from_str(&line).unwrap();
    assert_eq!(v["event"], "proxy_request");
    assert_eq!(v["decision"], "allowed");
}

#[test]
fn a_new_file_is_started_each_day_and_when_one_is_full() {
    let mut s = SinkState::opened("2026-01-01", Some(90));
    assert!(!s.daily_rotation_due("2026-01-01"));
    assert!(s.daily_rotation_due("2026-01-02"));
    assert!(!s.cap_rotation_due(10, 100));
    assert!(s.cap_rotation_due(11, 100));
    assert!(!s.cap_rotation_due(usize::MAX, u64::MAX));
    s.appended(10, true);
    assert!(s.cap_rotation_due(1, 100));
    let first = active_path("audit", "2026-01-01");
    let next = next_target("audit", "2026-01-01", &vec![first.clone()]);
    assert_ne!(first, next);
    assert!(is_mirror_file(&first, "audit"));
    assert!(is_mirror_file(&next, "audit"));
    assert!(!is_mirror_file("other.log", "audit"));
}

#[test]
fn the_oldest_files_go() {
    let file = |mtime: i128, name: &str| RotatedFile {
        mtime,
        name: name.to_string(),
    };
    let gone: Vec<String> = prune_oldest(vec![file(3, "c"), file(1, "a"), file(2, "b")], 2)
        .into_iter()
        .map(|f| f.name)
        .collect();
    assert_eq!(gone, vec!["a"]);
    assert!(prune_oldest(vec![file(3, "c")], 2).is_empty());
    assert!(prune_oldest(vec![file(3, "c"), file(1, "a")], 2).is_empty());
    assert_eq!(prune_oldest(vec![file(3, "c"), file(1, "a")], 0).len(), 2);
}

#[test]
fn days_are_written_with_leading_zeros() {
    assert_eq!(date_at(0), "1970-01-01");
    assert_eq!(date_at(1_709_164_800), "2024-02-29");
    assert_eq!(utc_date().len(), 10);
}

fn config(socket: bool, database: bool, operators: bool) -> AppConfig {
    AppConfig {
        listen: ListenConfig {
            host: "127.0.0.1".to_string(),
            port: 9200,
            auth_mode: AuthMode::Bearer,
            admin_socket: if socket {
                Some(AdminSocketConfig {
                    path: "/s".to_string(),
                })
            } else {
                None
            },
        },
        inbound_auth: None,
        egress_proxy: None,
        logging: None,
        shutdown: ShutdownConfig::default(),
        tools: vec![],
        operator_credentials_path: if operators {
            Some("/o".to_string())
        } else {
            None
        },
        database: if database {
            Some(DatabaseConfig {
                path: "/d".to_string(),
            })
        } else {
            None
        },
        audit: None,
    }
}

#[test]
fn configured_credentials_count_unless_they_are_empty() {
    let tool = |name: &str, value: Option<&str>| ToolConfig {
        name: name.to_string(),
        description: String::new(),
        upstream: "http://x".to_string(),
        egress: EgressMode::Direct,
        auth: value.map(|v| ToolAuthConfig {
            header: "x-key".to_string(),
            value: Secret::new(v.to_string()),
        }),
        timeouts: ToolTimeouts::default(),
        body_limit_bytes: 1024,
    };
    let mut c = config(false, false, false);
    c.tools = vec![
        tool("a", Some("one")),
        tool("b", Some("")),
        tool("c", None),
        tool("a", Some("two")),
        tool("a", Some("")),
    ];
    let creds = config_creds(&c);
    assert_eq!(creds.get("a").unwrap().expose(), "two");
    assert!(creds.get("b").is_none());
    assert!(creds.get("c").is_none());
}

#[test]
fn the_administration_needs_a_database_and_operators() {
    assert!(admin_plan(&config(false, false, false)).unwrap().is_none());
    let p = admin_plan(&config(true, true, true)).unwrap().unwrap();
    assert_eq!((p.socket, p.database, p.operators), ("/s".into(), "/d".into(), "/o".into()));
    for c in [config(true, false, true), config(true, true, false)] {
        match admin_plan(&c) {
            Err(e) => assert!(e
                .message()
                .starts_with("admin substrate misconfigured: listen.admin_socket is set but")),
            Ok(_) => panic!("something is missing"),
        }
    }
}

#[test]
fn old_rows_are_swept() {
    assert_eq!(retention_cutoff(90 * 86_400_000 + 5, 90), 5);
    assert_eq!(retention_cutoff(-5, 1), -86_400_005);
    let mut c = AuditConfig::default();
    assert_eq!(sweep_interval(&c), 3600);
    c.sweep_interval_seconds = 0;
    assert_eq!(sweep_interval(&c), 1);
}

#[test]
fn the_first_listener_that_failed_is_named() {
    let e = |s: &str| Some(s.to_string());
    assert!(drained(None, None, None).is_ok());
    match drained(e("a"), e("b"), None) {
        Err(DaemonError::Server(m)) => assert_eq!(m, "agent listener: a"),
        _ => panic!("a listener failed"),
    }
    match drained(None, None, e("c")) {
        Err(DaemonError::Server(m)) => assert_eq!(m, "admin HTTPS listener: c"),
        _ => panic!("a listener failed"),
    }
}
