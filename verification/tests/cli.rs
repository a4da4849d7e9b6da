//! The command line.
use agent_locksmith::cli::client::{root_or_refuse, CliClient, CliError, Outgoing};
use agent_locksmith::cli::commands::registration::{
    do_list, do_put, parse_auth_spec, parse_metadata_kv, CliKind, PutOpts,
};
use agent_locksmith::cli::commands::{agent, audit, export, mtls, oauth, self_svc, tool};
use agent_locksmith::cli::output::{print, render_scalar, Format};
use agent_locksmith::json::Json;

fn object(members: &[(&str, &str)]) -> Json {
    Json::Object(
        members
            .iter()
            .map(|(k, v)| (k.to_string(), Json::Str(v.to_string())))
            .collect(),
    )
}

#[test]
fn ts143_parse_auth_none() {
    let v = parse_auth_spec(Some("none")).unwrap().unwrap();
    assert_eq!(v, object(&[("kind", "none")]));
}

#[test]
fn ts143_parse_auth_bearer() {
    let v = parse_auth_spec(Some("bearer=OPENAI_API_KEY"))
        .unwrap()
        .unwrap();
    assert_eq!(
        v,
        object(&[("kind", "bearer"), ("env_var", "OPENAI_API_KEY")])
    );
}

#[test]
fn ts143_parse_auth_header() {
    let v = parse_auth_spec(Some("header:x-api-key=ANTHROPIC_API_KEY"))
        .unwrap()
        .unwrap();
    assert_eq!(
        v,
        object(&[
            ("kind", "header"),
            ("header", "x-api-key"),
            ("env_var", "ANTHROPIC_API_KEY"),
        ])
    );
}

#[test]
fn ts143_parse_auth_omitted_returns_none() {
    let v = parse_auth_spec(None).unwrap();
    assert!(
        v.is_none(),
        "omitted --auth maps to None (server applies kind defaults)"
    );
}

#[test]
fn ts143_parse_auth_rejects_garbage() {
    assert!(parse_auth_spec(Some("oauth=foo")).is_err());
    assert!(parse_auth_spec(Some("bearer=")).is_err());
    assert!(parse_auth_spec(Some("header:=KEY")).is_err());
    assert!(parse_auth_spec(Some("header:NAME=")).is_err());
    assert!(parse_auth_spec(Some("")).is_err());
}

#[test]
fn ts144_parse_metadata_kv() {
    let (k, v) = parse_metadata_kv("modality=text").unwrap();
    assert_eq!(k, "modality");
    assert_eq!(v, "text");

    // Empty value allowed (operator can clear a default).
    let (k, v) = parse_metadata_kv("flag=").unwrap();
    assert_eq!(k, "flag");
    assert_eq!(v, "");

    // Empty key rejected.
    assert!(parse_metadata_kv("=value").is_err());
    assert!(parse_metadata_kv("no-equals").is_err());
}

#[test]
fn ts140_url_segment_per_kind() {
    assert_eq!(CliKind::Tool.url_segment(), "tools");
    assert_eq!(CliKind::Model.url_segment(), "models");
    assert_eq!(CliKind::Infra.url_segment(), "infra");
}

fn opts(upstream: &str) -> PutOpts {
    PutOpts {
        upstream: upstream.to_string(),
        auth: None,
        egress: None,
        timeout_request: None,
        timeout_idle: None,
        body_limit: None,
        metadata: vec![],
        description: None,
    }
}

#[test]
fn put_sends_only_what_was_named() {
    let token = Some("lkop_t".to_string());
    let call = do_put(CliKind::Tool, "github", &opts("https://api.github.com"), token).unwrap();
    assert_eq!(call.method, "PUT");
    assert_eq!(call.path, "/admin/operator/tools/github");
    assert_eq!(
        render_scalar(call.body.as_ref().unwrap()),
        r#"{"upstream":"https://api.github.com"}"#
    );

    let mut all = opts("https://u");
    all.auth = Some(" bearer=TOK ".to_string());
    all.egress = Some("direct".to_string());
    all.timeout_idle = Some(5);
    all.body_limit = Some(1024);
    all.description = Some("d".to_string());
    all.metadata = vec![
        ("modality".to_string(), "text".to_string()),
        ("modality".to_string(), "image".to_string()),
    ];
    let call = do_put(CliKind::Model, "m", &all, Some("t".to_string())).unwrap();
    assert_eq!(
        render_scalar(call.body.as_ref().unwrap()),
        concat_lines(&[
            r#"{"auth":{"env_var":"TOK","kind":"bearer"},"body_limit_bytes":1024,"#,
            r#""description":"d","egress":"direct","metadata":{"modality":"image"},"#,
            r#""timeouts":{"idle_seconds":5},"upstream":"https://u"}"#,
        ])
    );
}

fn concat_lines(parts: &[&str]) -> String {
    parts.join("")
}

#[test]
fn a_command_of_an_operator_needs_the_token_first() {
    let mut bad = opts("https://u");
    bad.auth = Some("garbage".to_string());
    assert!(matches!(
        do_put(CliKind::Tool, "x", &bad, None),
        Err(CliError::MissingOpToken)
    ));
    assert!(matches!(
        do_put(CliKind::Tool, "x", &bad, Some("t".to_string())),
        Err(CliError::Usage(_))
    ));
}

#[test]
fn lists_are_read_from_their_member() {
    let call = do_list(CliKind::Infra, Some("t".to_string())).unwrap();
    assert_eq!(call.path, "/admin/operator/infra");
    let out = call
        .finish(200, br#"{"infras":[{"name":"a"},{"name":"bb"}]}"#, Format::Table)
        .unwrap();
    assert_eq!(out, "name\n----\na   \nbb  \n");
}

#[test]
fn tables_take_their_columns_from_the_first_row() {
    let rows = Json::Array(vec![
        Json::object()
            .with("b", Json::text("x"))
            .with("a", Json::Null),
        Json::object()
            .with("b", Json::text("long"))
            .with("c", Json::Bool(true)),
    ]);
    assert_eq!(
        print(&rows, Format::Table),
        "a  b   \n-  ----\n-  x   \n-  long\n"
    );
    assert_eq!(print(&Json::Array(vec![]), Format::Table), "(no rows)\n");
    let one = Json::object()
        .with("z", Json::integer(-3))
        .with("a", Json::Array(vec![Json::count(1)]));
    assert_eq!(print(&one, Format::Table), "a: [1]\nz: -3\n");
    assert_eq!(
        print(&Json::object().with("k", Json::text("v")), Format::Json),
        "{\n  \"k\": \"v\"\n}\n"
    );
    assert_eq!(
        print(&Json::object().with("k", Json::text("v")), Format::Yaml),
        "k: v\n\n"
    );
}

#[test]
fn refusals_give_their_exit_codes() {
    let call = do_list(CliKind::Tool, Some("t".to_string())).unwrap();
    for (status, code) in [(401u16, 3u8), (403, 3), (404, 4), (409, 5), (500, 1)] {
        let e = call.finish(status, b"no", Format::Json).unwrap_err();
        assert_eq!(e.exit_code(), code);
        assert_eq!(e.message(), format!("daemon returned {status}: no"));
    }
    let e = call.finish(200, b"not json", Format::Json).unwrap_err();
    assert!(matches!(e, CliError::Decode(_)));
    assert_eq!(e.exit_code(), 1);
    assert_eq!(CliError::Usage(String::new()).exit_code(), 2);
    assert_eq!(CliError::MissingAgentToken.exit_code(), 3);
    let odd = call.finish(500, &[0xff, b'a'], Format::Json).unwrap_err();
    assert_eq!(odd.message(), "daemon returned 500: \u{fffd}a");
}

#[test]
fn requests_go_to_the_socket_or_to_the_address() {
    let call = self_svc::status(Some("lk_a.b".to_string())).unwrap();
    let socket = CliClient::new("/run/x.sock");
    match call.outgoing(&socket) {
        Outgoing::Uds(r) => {
            assert_eq!(r.socket, "/run/x.sock");
            assert_eq!(r.path, "/admin/agent/status");
            assert_eq!(
                r.headers,
                vec![
                    ("host".to_string(), "locksmith.local".to_string()),
                    ("authorization".to_string(), "Bearer lk_a.b".to_string()),
                ]
            );
            assert!(r.body.is_empty());
        }
        Outgoing::Https(_) => panic!("the socket was asked for"),
    }
    let https = CliClient::from_options("/run/x.sock", Some("http://h:1//"), None).unwrap();
    let call = self_svc::rotate(None, Some("lk_a.b.c".to_string())).unwrap();
    match call.outgoing(&https) {
        Outgoing::Https(r) => {
            assert_eq!(r.url, "http://h:1/admin/agent/rotate");
            assert_eq!(r.method, "POST");
            assert_eq!(r.body.unwrap(), br#"{"current_secret":"b.c"}"#);
            assert_eq!(r.headers.len(), 2);
        }
        Outgoing::Uds(_) => panic!("the address was asked for"),
    }
    assert!(matches!(
        CliClient::from_options("/s", Some("ftp://h"), None),
        Err(CliError::InvalidAdminUrl(_))
    ));
    assert!(matches!(
        CliClient::from_options("/s", Some("https://h"), Some(Err("gone".to_string()))),
        Err(CliError::Io(_))
    ));
    match CliClient::from_options(
        "/s",
        Some("https://h"),
        Some(Ok(b"-----BEGIN CERTIFICATE-----\nAAAA\n-----END CERTIFICATE-----\n".to_vec())),
    ) {
        Err(CliError::HttpsTransport(m)) => {
            assert!(m.starts_with("CA bundle: ") || m.starts_with("client build: "));
        }
        _ => panic!("that is no certificate"),
    }
    match CliClient::over_https("https://h", Err("no provider".to_string())) {
        Err(CliError::HttpsTransport(m)) => assert_eq!(m, "client build: no provider"),
        _ => panic!("nothing was built"),
    }
    match root_or_refuse(Err("no text".to_string())) {
        Err(CliError::HttpsTransport(m)) => assert_eq!(m, "CA bundle: no text"),
        _ => panic!("nothing was read"),
    }
    assert!(matches!(
        self_svc::rotate(None, Some("nodot".to_string())),
        Err(CliError::MalformedAgentToken)
    ));
}

#[test]
fn lists_of_an_agent_change_as_named() {
    let cmd = agent::AgentCmd::Modify {
        id: "a1".to_string(),
        allowlist: Some(vec!["-".to_string()]),
        denylist: None,
    };
    let call = agent::run(cmd, Some("t".to_string())).unwrap();
    assert_eq!(call.path, "/admin/operator/agents/a1");
    assert_eq!(
        render_scalar(call.body.as_ref().unwrap()),
        r#"{"allowlist":null}"#
    );
    let cmd = agent::AgentCmd::Modify {
        id: "a1".to_string(),
        allowlist: None,
        denylist: Some(vec!["x".to_string(), "y".to_string()]),
    };
    let call = agent::run(cmd, Some("t".to_string())).unwrap();
    assert_eq!(
        render_scalar(call.body.as_ref().unwrap()),
        r#"{"denylist":["x","y"]}"#
    );
}

fn credential(auth: Option<&str>, no_auth: bool, session: Option<&str>) -> agent::SetCredentialArgs {
    agent::SetCredentialArgs {
        id: "a1".to_string(),
        registration: "codex".to_string(),
        auth: auth.map(str::to_string),
        no_auth,
        oauth_session: session.map(str::to_string),
    }
}

#[test]
fn own_credentials_take_their_form_from_the_flags() {
    let json = |a| agent::build_auth_spec(&a).map(|j| render_scalar(&j));
    assert_eq!(
        json(credential(None, true, None)).unwrap(),
        r#"{"kind":"none"}"#
    );
    assert_eq!(
        json(credential(Some("header=X-Key:VAR"), false, None)).unwrap(),
        r#"{"env_var":"VAR","header":"X-Key","kind":"header"}"#
    );
    assert!(json(credential(None, false, Some("hermes")))
        .unwrap()
        .contains(r#""session_label":"hermes""#));
    let bad = json(credential(None, false, Some("a b"))).unwrap_err();
    assert_eq!(
        bad.message(),
        "usage: session label must be ascii alphanumeric / '-' / '_'; got: \"a b\""
    );
    assert!(json(credential(None, false, None)).is_err());
    assert!(json(credential(Some("bearer="), false, None)).is_err());
    assert!(json(credential(Some("header=:V"), false, None)).is_err());
    assert!(json(credential(Some("token"), false, None)).is_err());
}

#[test]
fn audit_queries_name_their_conditions() {
    let cmd = audit::AuditCmd::Query {
        agent: Some("a1".to_string()),
        tool: None,
        event_class: None,
        decision: Some("denied".to_string()),
        since_ms: Some(-5),
        until_ms: None,
        limit: Some(10),
        offset: None,
    };
    let call = audit::run(cmd, Some("t".to_string())).unwrap();
    assert_eq!(
        call.path,
        "/admin/operator/audit?agent=a1&decision=denied&since_ms=-5&limit=10"
    );
}

#[test]
fn exports_are_never_tables() {
    let call = export::run(export::ExportCmd::Agents, Some("t".to_string())).unwrap();
    let out = call
        .finish(200, br#"{"agents":["a"]}"#, Format::Table)
        .unwrap();
    assert_eq!(out, "- a\n\n");
}

#[test]
fn labels_go_into_the_query() {
    let status = |label: Option<&str>| {
        oauth::run(
            oauth::OauthCmd::Status {
                name: "codex".to_string(),
                label: label.map(str::to_string),
            },
            Ok(String::new()),
            Some("t".to_string()),
        )
    };
    assert_eq!(status(None).unwrap().path, "/admin/operator/oauth/codex");
    assert_eq!(
        status(Some("default")).unwrap().path,
        "/admin/operator/oauth/codex"
    );
    assert_eq!(
        status(Some("hermes")).unwrap().path,
        "/admin/operator/oauth/codex?label=hermes"
    );
    assert!(status(Some("a&b")).is_err());
    assert_eq!(
        oauth::with_label_query("/x?y=1", Some("l")).unwrap(),
        "/x?y=1&label=l"
    );
}

#[test]
fn sessions_are_made_from_a_token_that_is_there() {
    let make = |token: Option<&str>, stdin: bool, text: &str| {
        oauth::run(
            oauth::OauthCmd::Bootstrap(oauth::BootstrapArgs {
                name: "codex".to_string(),
                label: None,
                refresh_token: token.map(str::to_string),
                refresh_token_stdin: stdin,
            }),
            Ok(text.to_string()),
            Some("t".to_string()),
        )
    };
    let call = make(None, true, " rt \n").unwrap();
    assert_eq!(call.path, "/admin/operator/oauth/codex/bootstrap");
    assert_eq!(
        render_scalar(call.body.as_ref().unwrap()),
        r#"{"refresh_token":"rt"}"#
    );
    assert!(make(Some("  "), false, "").is_err());
    assert!(make(None, false, "").is_err());
}

#[test]
fn deletions_do_not_read_the_answer() {
    let cmd = tool::ToolCmd::Delete {
        name: "x".to_string(),
    };
    let call = tool::run(cmd, Some("t".to_string())).unwrap();
    assert_eq!(call.method, "DELETE");
    assert_eq!(call.finish(204, b"", Format::Table).unwrap(), "");
}

#[test]
fn a_revoked_serial_is_on_the_list() {
    let revoke = |existing: &str, reason: Option<&str>| {
        let cmd = mtls::MtlsCmd::Revoke {
            serial: " 0AFF ".to_string(),
            blocklist_path: "/b".to_string(),
            reason: reason.map(str::to_string),
        };
        match mtls::run(Format::Table, cmd, existing) {
            mtls::MtlsStep::Write { text, notice, .. } => {
                assert_eq!(notice, "Revoked serial 0aff in /b");
                text
            }
            _ => panic!("nothing to write"),
        }
    };
    assert_eq!(revoke("", None), "0aff\n");
    assert_eq!(revoke("01", Some("lost")), "01\n# lost\n0aff\n");
    let cmd = mtls::MtlsCmd::ListBlocklist {
        blocklist_path: "/b".to_string(),
    };
    match mtls::run(Format::Json, cmd, "01\n# lost\n\n 0AFF\n") {
        mtls::MtlsStep::Show(s) => assert_eq!(s, "[\n  \"01\",\n  \"0AFF\"\n]\n"),
        _ => panic!("nothing to show"),
    }
}
