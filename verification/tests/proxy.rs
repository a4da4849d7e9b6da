//! The way of a request through the proxy.
use agent_locksmith::app::{livez_handler, readyz_handler, tools_handler, version_handler};
use agent_locksmith::audit::Decision;
use agent_locksmith::auth::AuthenticatedAs;
use agent_locksmith::auth_v2::AgentIdentity;
use agent_locksmith::cli::output::render_scalar;
use agent_locksmith::config::{
    AppConfig, AuthMode, EgressMode, ListenConfig, ShutdownConfig, ToolAuthConfig, ToolConfig,
    ToolTimeouts,
};
use agent_locksmith::headers::{forward_response_headers, Header};
use agent_locksmith::proxy::{
    apply_buffered_response_controls, build_streaming_truncate_callback, build_upstream_request,
    handle_upstream_response, proxy_handler, record_upstream_error, request_body_limit, url_host,
    ApplyOutcome, BufferedStep, Forward, Moment, ProxyAuth, ProxyStart, ProxyTarget,
    RedactionRecord, RequestCtx, ResponseControls, ResponseStep,
};
use agent_locksmith::registrations::{AuthSpec, Catalog, Kind, Registration};
use agent_locksmith::reply::Reply;
use agent_locksmith::secret::{ResolvedCreds, Secret};

const AT: Moment = Moment {
    ts_ms: 1000,
    latency_ms: 5,
};

fn identity(deny: &[&str]) -> AgentIdentity {
    AgentIdentity {
        public_id: "p1".to_string(),
        name: "hermes".to_string(),
        tool_allowlist: None,
        tool_denylist: Some(deny.iter().map(|s| s.to_string()).collect()),
    }
}

fn ctx(tool: &str, id: Option<&AgentIdentity>) -> RequestCtx {
    RequestCtx::snapshot(
        tool.to_string(),
        format!("/api/{tool}/v1/x"),
        "POST".to_string(),
        Some(AuthenticatedAs::Bearer),
        id,
    )
}

fn row(name: &str, auth: AuthSpec, disabled: bool) -> Registration {
    let mut r = Registration::new(
        name.to_string(),
        Kind::Tool,
        "d".to_string(),
        "https://up.example:8443/base//".to_string(),
        auth,
    );
    r.disabled = disabled;
    r
}

fn tool(name: &str, value: Option<&str>) -> ToolConfig {
    ToolConfig {
        name: name.to_string(),
        description: "t".to_string(),
        upstream: "http://old.example".to_string(),
        egress: EgressMode::Direct,
        auth: value.map(|v| ToolAuthConfig {
            header: "X-Key".to_string(),
            value: Secret::new(v.to_string()),
        }),
        timeouts: ToolTimeouts::default(),
        body_limit_bytes: 1024,
    }
}

fn config(tools: Vec<ToolConfig>) -> AppConfig {
    AppConfig {
        listen: ListenConfig {
            host: "127.0.0.1".to_string(),
            port: 9200,
            auth_mode: AuthMode::Bearer,
            admin_socket: None,
        },
        inbound_auth: None,
        egress_proxy: None,
        logging: None,
        shutdown: ShutdownConfig::default(),
        tools,
        operator_credentials_path: None,
        database: None,
        audit: None,
    }
}

fn body(r: &Reply) -> String {
    render_scalar(r.body.as_ref().unwrap())
}

fn start(tool_name: &str, id: Option<&AgentIdentity>, rows: Vec<Registration>) -> ProxyStart {
    let catalog = Catalog::from_rows(rows);
    let cfg = config(vec![tool("old", Some("v")), tool("dead", Some(""))]);
    proxy_handler(&ctx(tool_name, id), id, &catalog, &cfg, "v1/x", AT)
}

fn forward(s: ProxyStart) -> Forward {
    match s {
        ProxyStart::Forward(f) => f,
        ProxyStart::Refuse(r) => panic!("refused with {}", r.reply.status),
    }
}

#[test]
fn an_agent_that_may_not_call_is_refused_first() {
    let id = identity(&["github"]);
    match start("github", Some(&id), vec![]) {
        ProxyStart::Refuse(r) => {
            assert_eq!(r.reply.status, 403);
            assert_eq!(
                body(&r.reply),
                r#"{"error":{"code":"tool_not_allowed","message":"tool access denied","type":"authz_error"}}"#
            );
            assert_eq!(r.audit.event, "authz_denied");
            assert_eq!(r.audit.agent_public_id, Some("p1".to_string()));
            assert_eq!(r.audit.auth_method, Some("bearer".to_string()));
            assert_eq!(
                render_scalar(r.audit.details.as_ref().unwrap()),
                r#"{"reason":"in_denylist"}"#
            );
        }
        ProxyStart::Forward(_) => panic!("the agent may not call this"),
    }
}

#[test]
fn requests_go_to_registrations_before_configured_tools() {
    let f = forward(start("old", None, vec![row("old", AuthSpec::NoAuth, false)]));
    assert_eq!(f.upstream_url, "https://up.example:8443/base/v1/x");
    assert_eq!(f.upstream_host, Some("up.example".to_string()));
    assert_eq!(f.target.auth.audit_mode(), "none");
    let f = forward(start("old", None, vec![row("old", AuthSpec::NoAuth, true)]));
    assert_eq!(f.upstream_url, "http://old.example/v1/x");
    assert_eq!(f.target.auth.audit_mode(), "config");
    assert_eq!(
        f.target.auth.strip_header_lower(),
        Some("x-key".to_string())
    );
}

#[test]
fn unknown_and_disabled_tools_are_not_found() {
    for name in ["nowhere", "gone", "dead"] {
        match start(name, None, vec![row("gone", AuthSpec::NoAuth, true)]) {
            ProxyStart::Refuse(r) => {
                assert_eq!(r.reply.status, 404);
                assert_eq!(
                    body(&r.reply),
                    format!(
                        r#"{{"error":{{"code":"tool_not_found","message":"Unknown tool: {name}","type":"not_found"}}}}"#
                    )
                );
                assert!(matches!(r.audit.decision, Decision::Denied));
            }
            ProxyStart::Forward(_) => panic!("nothing is there"),
        }
    }
}

fn header(name: &str, value: &str) -> Header {
    Header {
        name: name.to_string(),
        value: value.as_bytes().to_vec(),
    }
}

fn names(headers: &[Header]) -> Vec<String> {
    headers.iter().map(|h| h.name.clone()).collect()
}

fn creds(name: &str, value: &str) -> ResolvedCreds {
    let mut c = ResolvedCreds::new();
    c.insert(name.to_string(), Secret::new(value.to_string()));
    c
}

fn target(auth: AuthSpec) -> ProxyTarget {
    ProxyTarget::from_registration(&row("github", auth, false))
}

#[test]
fn agents_cannot_set_the_upstreams_credential() {
    let sent = vec![
        header("Host", "evil"),
        header("authorization", "Bearer mine"),
        header("X-Api-Key", "mine"),
        header("x-custom", "mine"),
        header("accept", "json"),
    ];
    let t = target(AuthSpec::Header {
        header: "X-Custom".to_string(),
        env_var: "V".to_string(),
    });
    let r = build_upstream_request(&t, &sent, &creds("github", "s3"), b"x".to_vec());
    assert_eq!(names(&r.headers), vec!["accept", "X-Custom"]);
    assert_eq!(r.headers[1].value, b"s3");
    assert_eq!(r.body, Some(b"x".to_vec()));

    let t = target(AuthSpec::Bearer {
        env_var: "V".to_string(),
    });
    let r = build_upstream_request(&t, &sent, &creds("github", "s3"), vec![]);
    assert_eq!(names(&r.headers), vec!["x-custom", "accept", "Authorization"]);
    assert_eq!(r.headers[2].value, b"Bearer s3");
    assert_eq!(r.body, None);

    let r = build_upstream_request(&t, &sent, &creds("other", "s3"), vec![]);
    assert_eq!(names(&r.headers), vec!["x-custom", "accept"]);
    let r = build_upstream_request(
        &target(AuthSpec::NoAuth),
        &sent,
        &creds("github", "s3"),
        vec![],
    );
    assert_eq!(names(&r.headers), vec!["x-custom", "accept"]);
}

#[test]
fn headers_are_stripped_by_the_rules_of_unicode() {
    let auth = ProxyAuth::Header {
        header: "X-\u{c4}".to_string(),
        audit_mode: "config",
    };
    assert_eq!(auth.strip_header_lower(), Some("x-\u{e4}".to_string()));
}

#[test]
fn hop_by_hop_headers_end_at_the_proxy() {
    let kept = forward_response_headers(&vec![
        header("Transfer-Encoding", "chunked"),
        header("content-length", "3"),
        header("content-type", "text/plain"),
        header("TE", "x"),
        header("etag", "1"),
        header("etag", "2"),
    ]);
    assert_eq!(names(&kept), vec!["content-type", "etag"]);
    assert_eq!(kept[1].value, b"2");
}

fn answered(controls: Option<ResponseControls>, status: u16) -> ResponseStep {
    handle_upstream_response(
        &ctx("github", None),
        &target(AuthSpec::NoAuth),
        Some("up.example".to_string()),
        status,
        &Some("text/html".to_string()),
        &vec![header("content-type", "text/html")],
        controls,
        AT,
    )
}

#[test]
fn replies_are_streamed_searched_or_refused() {
    match answered(None, 503) {
        ResponseStep::Stream {
            status,
            size_cap,
            audit,
            ..
        } => {
            assert_eq!(status, 503);
            assert_eq!(size_cap, None);
            assert_eq!(audit.event, "proxy_request");
            assert!(matches!(audit.decision, Decision::Error));
            assert_eq!(
                render_scalar(audit.details.as_ref().unwrap()),
                r#"{"auth_mode":"none"}"#
            );
        }
        _ => panic!("the reply is streamed"),
    }
    let controls = |content_type_allowed, redacts| {
        Some(ResponseControls {
            content_type_allowed,
            redacts,
            size_cap: Some(9),
        })
    };
    assert!(matches!(
        answered(controls(true, false), 200),
        ResponseStep::Stream {
            size_cap: Some(9),
            ..
        }
    ));
    assert!(matches!(
        answered(controls(true, true), 200),
        ResponseStep::Buffer { .. }
    ));
    match answered(controls(false, true), 200) {
        ResponseStep::Refuse(r) => {
            assert_eq!(r.reply.status, 502);
            assert_eq!(
                render_scalar(r.audit.details.as_ref().unwrap()),
                r#"{"observed_content_type":"text/html"}"#
            );
        }
        _ => panic!("the content is not allowed"),
    }
}

#[test]
fn searched_replies_leave_a_row_for_each_finding_and_one_for_the_request() {
    let run = |outcome| {
        apply_buffered_response_controls(
            &ctx("github", None),
            &target(AuthSpec::NoAuth),
            None,
            200,
            outcome,
            AT,
        )
    };
    let found = ApplyOutcome::Allowed {
        body: b"clean".to_vec(),
        redactions: vec![RedactionRecord {
            pattern_id: "p".to_string(),
            matches: 2,
            match_hash: "h".to_string(),
        }],
    };
    match run(found) {
        BufferedStep::Serve { body, audits, .. } => {
            assert_eq!(body, b"clean");
            let events: Vec<&str> = audits.iter().map(|a| a.event.as_str()).collect();
            assert_eq!(events, vec!["response_redaction", "proxy_request"]);
        }
        BufferedStep::Refuse(_) => panic!("the reply may be handed on"),
    }
    for (outcome, event) in [
        (
            ApplyOutcome::SizeExceeded {
                observed: 10,
                cap: 5,
            },
            "response_size_exceeded",
        ),
        (
            ApplyOutcome::ContentTypeDisallowed {
                observed_type: "x".to_string(),
            },
            "response_content_type_disallowed",
        ),
        (
            ApplyOutcome::ReadFailed {
                error: "cut".to_string(),
            },
            "upstream_body_read_error",
        ),
    ] {
        match run(outcome) {
            BufferedStep::Refuse(r) => {
                assert_eq!(r.reply.status, 502);
                assert_eq!(r.audit.event, event);
            }
            BufferedStep::Serve { .. } => panic!("the reply is refused"),
        }
    }
}

#[test]
fn failures_of_the_upstream_are_told_apart() {
    let c = ctx("github", None);
    let t = target(AuthSpec::NoAuth);
    let late = record_upstream_error(&c, &t, None, true, AT);
    assert_eq!(late.reply.status, 504);
    assert_eq!(late.audit.event, "timeout");
    let down = record_upstream_error(&c, &t, None, false, AT);
    assert_eq!(down.reply.status, 502);
    assert_eq!(down.audit.event, "upstream_error");
    let cut = build_streaming_truncate_callback(&c, &None, 200, 5, 9, 7);
    assert_eq!(
        render_scalar(cut.details.as_ref().unwrap()),
        r#"{"cap_bytes":5,"flow":"streaming","observed_bytes":9}"#
    );
}

#[test]
fn hosts_are_cut_out_of_addresses() {
    assert_eq!(url_host("https://a.b/c"), Some("a.b".to_string()));
    assert_eq!(url_host("http://a:1/c"), Some("a".to_string()));
    assert_eq!(url_host("a.b"), Some("a.b".to_string()));
    assert_eq!(url_host("https:///c"), None);
    assert_eq!(request_body_limit(10), 10);
}

#[test]
fn readiness_rests_on_the_credentials() {
    let cfg = config(vec![tool("a", Some("v")), tool("b", None)]);
    let r = readyz_handler(&cfg, &ResolvedCreds::new(), 3);
    assert_eq!(r.status, 503);
    assert_eq!(
        body(&r),
        r#"{"reason":"tool_credentials_unresolved","status":"not_ready","tools":["a"]}"#
    );
    assert_eq!(readyz_handler(&cfg, &creds("a", ""), 3).status, 503);
    let r = readyz_handler(&cfg, &creds("a", "v"), 3);
    assert_eq!(r.status, 200);
    assert_eq!(body(&r), r#"{"status":"ready","uptime_seconds":3}"#);
    let r = tools_handler(&cfg, &ResolvedCreds::new());
    assert_eq!(
        body(&r),
        r#"{"tools":[{"description":"t","name":"b","path":"/api/b","type":"api"}]}"#
    );
    assert_eq!(
        body(&livez_handler(9)),
        r#"{"status":"live","uptime_seconds":9}"#
    );
    assert_eq!(
        body(&version_handler("1", "n")),
        r#"{"name":"n","version":"1"}"#
    );
}
