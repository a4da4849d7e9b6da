//! Who is calling.
use agent_locksmith::argon2_helper::{hash, HashError};
use agent_locksmith::audit::{Decision, EventClass};
use agent_locksmith::auth::{
    after_test, auth_middleware, is_open_path, Admission, AuthenticatedAs, GateStep,
};
use agent_locksmith::auth_v2::agent::{bearer_token, BearerStep};
use agent_locksmith::auth_v2::operator::{OperatorRecord, OperatorsFile};
use agent_locksmith::auth_v2::{
    AgentAuthenticator, AgentIdentity, AuthError, BearerAuthenticator, OperatorAuthenticator,
};
use agent_locksmith::config::{AuthMode, InboundAuthConfig};
use agent_locksmith::repo::{AgentRecord, ParsedToken, TokenNamespace};
use agent_locksmith::secret::Secret;

fn secret(s: &str) -> Secret {
    Secret::new(s.to_string())
}

fn token(namespace: TokenNamespace, id: &str, s: &str) -> ParsedToken {
    ParsedToken {
        namespace,
        public_id: id.to_string(),
        secret: secret(s),
    }
}

fn agent(hash: String) -> AgentRecord {
    AgentRecord {
        id: 1,
        public_id: "p1".to_string(),
        name: "hermes".to_string(),
        description: None,
        secret_hash: hash,
        tool_allowlist: None,
        tool_denylist: None,
        metadata: None,
        registered_at: 0,
        last_used_at: None,
        expires_at: None,
        revoked_at: None,
        cert_identity: None,
    }
}

#[test]
fn tokens_stand_behind_the_word_bearer() {
    assert_eq!(bearer_token("Bearer lk_a.b"), Some("lk_a.b".to_string()));
    assert_eq!(bearer_token("Basic x"), None);
}

#[test]
fn only_the_right_secret_gets_in() {
    let auth = BearerAuthenticator::with_audit(true).unwrap();
    let h = hash(&secret("right")).unwrap();
    let step = auth.authenticate_bearer(
        "Bearer lk_p1.right",
        Some(token(TokenNamespace::Agent, "p1", "right")),
        5,
    );
    let s = match step {
        BearerStep::Lookup { public_id, secret } => {
            assert_eq!(public_id, "p1");
            secret
        }
        BearerStep::Done(_) => panic!("the agent is to be looked up"),
    };
    let ok = auth.resolve(Ok(Some(agent(h.clone()))), &s, 10, 5);
    assert_eq!(ok.result.unwrap().public_id, "p1");
    assert_eq!(ok.touch, Some("p1".to_string()));
    assert!(ok.audit.is_none());

    let wrong = auth.resolve(Ok(Some(agent(h.clone()))), &secret("wrong"), 10, 5);
    assert!(matches!(wrong.result, Err(AuthError::InvalidCredential)));
    assert!(wrong.audit.is_some());
    let unknown = auth.resolve(Ok(None), &secret("right"), 10, 5);
    assert!(matches!(unknown.result, Err(AuthError::InvalidCredential)));

    let mut expired = agent(h.clone());
    expired.expires_at = Some(9);
    assert!(matches!(
        auth.resolve(Ok(Some(expired)), &secret("right"), 10, 5).result,
        Err(AuthError::Expired)
    ));
    let mut revoked = agent(h);
    revoked.revoked_at = Some(1);
    assert!(matches!(
        auth.resolve(Ok(Some(revoked)), &secret("right"), 10, 5).result,
        Err(AuthError::InvalidCredential)
    ));
    assert!(matches!(
        auth.resolve(Err("down".to_string()), &secret("x"), 10, 5).result,
        Err(AuthError::Backend(_))
    ));
}

#[test]
fn tokens_of_operators_are_none_of_agents() {
    let auth = BearerAuthenticator::new().unwrap();
    let step = auth.authenticate_bearer(
        "Bearer lkop_o.x",
        Some(token(TokenNamespace::Operator, "o", "x")),
        5,
    );
    match step {
        BearerStep::Done(o) => {
            assert!(matches!(o.result, Err(AuthError::InvalidCredential)));
            assert!(o.audit.is_none());
        }
        BearerStep::Lookup { .. } => panic!("the token is an operator's"),
    }
}

#[test]
fn a_verdict_that_failed_is_no_verdict() {
    let auth = BearerAuthenticator::new().unwrap();
    let o = auth.judge(
        agent(String::new()),
        Err(HashError::Hash("bad".to_string())),
        0,
        0,
    );
    assert!(o.result.is_err());
}

fn operators() -> OperatorsFile {
    OperatorsFile {
        operators: vec![OperatorRecord {
            name: "root".to_string(),
            public_id: "o1".to_string(),
            token_hash: hash(&secret("right")).unwrap(),
            scope: None,
            cert_identity: Some("root.local".to_string()),
        }],
    }
}

#[test]
fn only_listed_operators_get_in() {
    let auth = OperatorAuthenticator::load_with_audit(operators(), true).ok().unwrap();
    let call = |id: &str, s: &str| {
        auth.authenticate_bearer(
            "Bearer t",
            Some(token(TokenNamespace::Operator, id, s)),
            5,
        )
    };
    assert_eq!(call("o1", "right").result.ok().unwrap().name, "root");
    assert!(call("o1", "wrong").result.is_err());
    let stranger = call("o2", "right");
    assert!(stranger.result.is_err());
    assert!(stranger.audit.is_some());
    assert!(auth
        .authenticate_bearer("Bearer t", None, 5)
        .result
        .is_err());
    let missing = auth.authenticate_bearer("Basic t", None, 5);
    assert!(matches!(missing.result, Err(AuthError::MissingCredential)));
    let event = missing.audit.unwrap();
    assert_eq!(event.event, "operator_auth_failure");
    assert_eq!(event.event_class, EventClass::Security);
    assert_eq!(event.decision, Decision::Denied);
    assert_eq!(
        event.details.as_ref().and_then(|d| d.get("reason")).and_then(|r| r.as_text()),
        Some("missing_credential")
    );
    assert_eq!(
        auth.authenticate_cert_identity("root.local", 5)
            .result
            .ok()
            .unwrap()
            .name,
        "root"
    );
    let unknown = auth.authenticate_cert_identity("other", 5);
    assert!(unknown.result.is_err());
    assert!(unknown.audit.is_some());
}

#[test]
fn an_authenticator_can_be_made_with_a_given_decoy() {
    let auth = OperatorAuthenticator::with_decoy(operators(), hash(&secret("d")).unwrap(), false);
    let missing = auth.authenticate_bearer("Basic t", None, 5);
    assert!(matches!(missing.result, Err(AuthError::MissingCredential)));
    assert!(missing.audit.is_none());
    let right = Some(token(TokenNamespace::Operator, "o1", "right"));
    assert_eq!(auth.authenticate_bearer("Bearer t", right, 5).result.ok().unwrap().name, "root");
    let agents = BearerAuthenticator::with_decoy("no hash".to_string(), true);
    let out = agents.resolve(Ok(None), &secret("x"), 1, 5);
    assert!(matches!(out.result, Err(AuthError::InvalidCredential)));
    assert_eq!(out.audit.unwrap().event, "auth_failure");
}

#[test]
fn the_listener_asks_for_what_its_mode_says() {
    let gate = |mode, cert, testable, known, header: Option<&str>| {
        auth_middleware(
            "/api/x/y",
            mode,
            cert,
            testable,
            known,
            &None,
            header.map(str::to_string),
        )
    };
    assert!(is_open_path("/livez"));
    assert!(!is_open_path("/api/x"));
    assert!(matches!(
        auth_middleware("/readyz", AuthMode::Mtls, false, false, true, &None, None),
        GateStep::Open
    ));
    assert!(matches!(
        gate(AuthMode::Mtls, true, true, true, None),
        GateStep::TestCert
    ));
    match gate(AuthMode::Mtls, false, true, true, Some("Bearer lk_a.b")) {
        GateStep::Refuse(r) => assert_eq!(r.status, 401),
        _ => panic!("a certificate is needed"),
    }
    match gate(AuthMode::Mtls, true, false, true, None) {
        GateStep::Refuse(r) => assert_eq!(r.status, 500),
        _ => panic!("nothing can test the certificate"),
    }
    match gate(AuthMode::Bearer, false, false, true, None) {
        GateStep::Refuse(r) => assert_eq!(r.status, 401),
        _ => panic!("a token is needed"),
    }
    match gate(AuthMode::Both, false, true, true, Some("Bearer lk_a.b")) {
        GateStep::TestBearer(h) => assert_eq!(h, "Bearer lk_a.b"),
        _ => panic!("the token is to be tested"),
    }
}

#[test]
fn the_shared_token_counts_where_no_agents_are_known() {
    let inbound = Some(InboundAuthConfig {
        mode: "bearer".to_string(),
        token: Some(secret("shared")),
    });
    let gate = |header: Option<&str>| {
        auth_middleware(
            "/api/x/y",
            AuthMode::Bearer,
            false,
            false,
            false,
            &inbound,
            header.map(str::to_string),
        )
    };
    assert!(matches!(gate(Some("Bearer shared")), GateStep::Shared));
    assert!(matches!(gate(Some("Bearer other")), GateStep::Refuse(_)));
    assert!(matches!(gate(None), GateStep::Refuse(_)));
}

#[test]
fn tests_end_in_admission_or_refusal() {
    let id = AgentIdentity {
        public_id: "p".to_string(),
        name: "n".to_string(),
        tool_allowlist: None,
        tool_denylist: None,
    };
    match after_test(AuthenticatedAs::Mtls, Ok(id)) {
        Admission::Admit { identity, .. } => assert_eq!(identity.public_id, "p"),
        Admission::Refuse(_) => panic!("the agent is let in"),
    }
    match after_test(AuthenticatedAs::Bearer, Err(AuthError::Revoked)) {
        Admission::Refuse(r) => assert_eq!(r.status, 401),
        Admission::Admit { .. } => panic!("the agent was revoked"),
    }
}
