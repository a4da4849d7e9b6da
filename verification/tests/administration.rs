//! The administration of agents.
use agent_locksmith::admin::bootstrap_listener::{handle_register, is_served};
use agent_locksmith::admin::https::tls_load_error;
use agent_locksmith::admin::service::{
    bootstrap_scope, created_agent, get_agent, list_tools_for_agent, mint_bootstrap_token,
    register_agent, register_inserted, register_start, registered_agent, rotate_agent, AdminError,
    CreateAgentInput, MintBootstrapInput, RegisterInput, RegisterStep,
};
use agent_locksmith::admin::uds::{
    admin_err_response, agent_auth_middleware, agent_to_json, op_query_audit,
    operator_auth_middleware, AuditQueryParams, OperatorGate,
};
use agent_locksmith::admin::uds_client::{UdsClient, UdsClientError};
use agent_locksmith::auth_v2::AgentIdentity;
use agent_locksmith::cli::output::render_scalar;
use agent_locksmith::config::{
    AppConfig, AuthMode, EgressMode, ListenConfig, ShutdownConfig, ToolConfig, ToolTimeouts,
};
use agent_locksmith::repo::{
    AgentRecord, BootstrapScope, ParsedToken, RepoError, TokenNamespace,
};
use agent_locksmith::reply::Reply;
use agent_locksmith::secret::Secret;

fn secret(s: &str) -> Secret {
    Secret::new(s.to_string())
}

fn body(r: &Reply) -> serde_json::Value {
    serde_json::from_str(&render_scalar(r.body.as_ref().unwrap())).unwrap()
}

fn scope(single_use: bool) -> BootstrapScope {
    BootstrapScope {
        tool_allowlist: Some(vec!["github".to_string()]),
        expires_at: None,
        single_use,
    }
}

#[test]
fn agents_register_with_a_bootstrap_token() {
    let token = |namespace| {
        Some(ParsedToken {
            namespace,
            public_id: "b1".to_string(),
            secret: secret("s"),
        })
    };
    assert!(register_start(token(TokenNamespace::Bootstrap)).is_ok());
    assert!(matches!(
        register_start(token(TokenNamespace::Agent)),
        Err(AdminError::InvalidBootstrap)
    ));
    assert!(register_start(None).is_err());
    let input = RegisterInput {
        bootstrap_token: secret("lkbt_b1.s"),
        name: "hermes".to_string(),
        description: None,
        metadata: None,
    };
    let new = registered_agent(input, &scope(true));
    assert_eq!(new.name, "hermes");
    assert_eq!(new.allowlist, Some(vec!["github".to_string()]));

    let end = register_agent("p1".to_string(), &secret("x"), scope(true), Ok(()));
    let out = end.result.ok().unwrap();
    assert_eq!(out.token, "lk_p1.x");
    assert!(!end.revoke);
    let raced = register_agent(
        "p1".to_string(),
        &secret("x"),
        scope(true),
        Err(RepoError::InvalidCredential),
    );
    assert!(raced.revoke);
    assert!(raced.result.is_err());
}

#[test]
fn a_taken_name_uses_no_token() {
    let taken = Err(RepoError::AgentNameConflict("hermes".to_string()));
    assert!(matches!(
        register_inserted(taken),
        RegisterStep::Refuse(AdminError::AgentNameConflict)
    ));
    match register_inserted(Ok((7, "p1".to_string(), secret("x")))) {
        RegisterStep::Consume { number, public_id, secret } => {
            assert_eq!((number, public_id.as_str(), secret.expose()), (7, "p1", "x"));
        }
        RegisterStep::Refuse(_) => panic!("the agent was stored"),
    }
}

#[test]
fn the_bootstrap_listener_serves_one_thing() {
    assert!(is_served("POST", "/admin/agent/register"));
    assert!(!is_served("GET", "/admin/agent/register"));
    assert!(!is_served("POST", "/admin/agent/status"));
    for (e, status, code) in [
        (AdminError::InvalidBootstrap, 401, "invalid_credential"),
        (AdminError::AgentNameConflict, 409, "agent_name_conflict"),
        (AdminError::AgentNotFound, 404, "agent_not_found"),
        (AdminError::RotationInProgress, 500, "backend_error"),
    ] {
        let r = handle_register(&Err(e));
        assert_eq!(r.status, status);
        assert_eq!(body(&r)["error"]["code"], code);
        let kind = match status {
            404 => "not_found",
            409 => "conflict",
            _ => "auth_error",
        };
        assert_eq!(body(&r)["error"]["type"], kind);
    }
    let denied = admin_err_response(&AdminError::NotAuthorized);
    assert_eq!(body(&denied)["error"]["type"], "authz_error");
    assert_eq!(
        admin_err_response(&AdminError::RotationInProgress).status,
        409
    );
    assert_eq!(
        tls_load_error("/c", "/k", "gone"),
        "TLS PEM load failed (cert=/c, key=/k): gone"
    );
}

#[test]
fn tokens_are_shown_once() {
    let minted = mint_bootstrap_token(
        bootstrap_scope(MintBootstrapInput {
            tool_allowlist: None,
            expires_at: Some(9),
            single_use: true,
        }),
        Ok(("b1".to_string(), secret("s"))),
    )
    .ok()
    .unwrap();
    assert!(minted.token.ends_with("b1.s"));
    let id = AgentIdentity {
        public_id: "p1".to_string(),
        name: "n".to_string(),
        tool_allowlist: None,
        tool_denylist: None,
    };
    let rotated = rotate_agent(&id, Ok(secret("new"))).ok().unwrap();
    assert_eq!(rotated.token, "lk_p1.new");
    assert!(matches!(
        rotate_agent(&id, Err(RepoError::RotationInProgress("p1".to_string()))),
        Err(AdminError::RotationInProgress)
    ));
}

fn record(name: &str) -> AgentRecord {
    AgentRecord {
        id: 1,
        public_id: "p1".to_string(),
        name: name.to_string(),
        description: None,
        secret_hash: "HASH".to_string(),
        tool_allowlist: None,
        tool_denylist: None,
        metadata: None,
        registered_at: 0,
        last_used_at: None,
        expires_at: None,
        revoked_at: None,
        cert_identity: None,
    }
}

#[test]
fn agents_are_found_by_id_and_then_by_name() {
    assert_eq!(
        get_agent(Ok(Some(record("a"))), Ok(None)).ok().unwrap().name,
        "a"
    );
    assert_eq!(
        get_agent(Ok(None), Ok(Some(record("b")))).ok().unwrap().name,
        "b"
    );
    assert!(matches!(
        get_agent(Ok(None), Ok(None)),
        Err(AdminError::AgentNotFound)
    ));
    assert!(!render_scalar(&agent_to_json(&record("a"))).contains("HASH"));
    let new = created_agent(CreateAgentInput {
        name: "n".to_string(),
        description: None,
        allowlist: None,
        denylist: Some(vec!["x".to_string()]),
        metadata: None,
        expires_at: None,
    });
    assert_eq!(new.denylist, Some(vec!["x".to_string()]));
}

#[test]
fn agents_see_the_tools_they_may_call() {
    let tool = |name: &str| ToolConfig {
        name: name.to_string(),
        description: String::new(),
        upstream: "http://x".to_string(),
        egress: EgressMode::Proxied,
        auth: None,
        timeouts: ToolTimeouts::default(),
        body_limit_bytes: 1,
    };
    let config = AppConfig {
        listen: ListenConfig {
            host: "127.0.0.1".to_string(),
            port: 1,
            auth_mode: AuthMode::Bearer,
            admin_socket: None,
        },
        inbound_auth: None,
        egress_proxy: None,
        logging: None,
        shutdown: ShutdownConfig::default(),
        tools: vec![tool("a"), tool("b")],
        operator_credentials_path: None,
        database: None,
        audit: None,
    };
    let id = AgentIdentity {
        public_id: "p".to_string(),
        name: "n".to_string(),
        tool_allowlist: Some(vec!["b".to_string()]),
        tool_denylist: None,
    };
    let seen: Vec<String> = list_tools_for_agent(&id, &config)
        .into_iter()
        .map(|t| t.name)
        .collect();
    assert_eq!(seen, vec!["b"]);
}

#[test]
fn operators_show_a_certificate_or_a_token() {
    assert!(matches!(
        operator_auth_middleware(None, false, Some("Bearer t".to_string())),
        OperatorGate::TestBearer(_)
    ));
    match operator_auth_middleware(None, false, None) {
        OperatorGate::Refuse(r) => assert_eq!(r.status, 401),
        _ => panic!("nothing was shown"),
    }
    assert!(matches!(
        operator_auth_middleware(Some(AuthMode::Both), true, None),
        OperatorGate::TestCert
    ));
    assert!(matches!(
        agent_auth_middleware(None),
        OperatorGate::Refuse(_)
    ));
}

fn query(class: Option<&str>, decision: Option<&str>, limit: Option<u32>) -> AuditQueryParams {
    AuditQueryParams {
        since_ms: None,
        until_ms: None,
        agent: Some("p1".to_string()),
        tool: None,
        event_class: class.map(str::to_string),
        decision: decision.map(str::to_string),
        limit,
        offset: None,
    }
}

#[test]
fn audit_queries_are_checked() {
    let (filter, page) = op_query_audit(query(Some("security"), Some("denied"), None))
        .ok()
        .unwrap();
    assert_eq!(filter.agent_public_id, Some("p1".to_string()));
    assert_eq!(filter.event_class.unwrap().as_str(), "security");
    assert_eq!(page.limit, 100);
    assert_eq!(page.offset, 0);
    match op_query_audit(query(Some("weird"), None, None)) {
        Err(r) => assert_eq!(r.status, 400),
        Ok(_) => panic!("there is no such class"),
    }
    assert!(op_query_audit(query(None, Some("maybe"), None)).is_err());
}

#[test]
fn the_socket_names_a_host() {
    let r = UdsClient::new("/s").request("PUT", "/p", &vec![], Some(b"x".to_vec()));
    assert_eq!(r.headers.len(), 1);
    assert_eq!(r.headers[0].0, "host");
    assert_eq!(r.body, b"x");
    let e = UdsClientError::Connect {
        path: "/s".to_string(),
        source: "gone".to_string(),
    };
    assert_eq!(e.message(), "connect /s: gone");
}
