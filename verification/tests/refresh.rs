//! New tokens for OAuth sessions.
use agent_locksmith::cli::output::render_scalar;
use agent_locksmith::oauth::admin::{
    bootstrap_conclude, bootstrap_end, bootstrap_finished, bootstrap_start, bootstrap_start_with,
    collision_warnings, create_refused,
    op_oauth_bootstrap, op_oauth_list, op_oauth_revoke, op_oauth_status, BootstrapBody, LabelQuery,
};
use agent_locksmith::oauth::refresh::{
    after_exchange, degrade_on_failure, is_still_due, refresh_or_degrade, refresh_request,
    refresh_session, refresh_session_with, refresh_threshold, Exchange, RefreshError, TokenResponse,
};
use agent_locksmith::oauth::sealing::SealingKey;
use agent_locksmith::oauth::session::{OauthSession, OauthSessionError};
use agent_locksmith::oauth::store::OauthSessionRepository;
use agent_locksmith::registrations::{AuthSpec, Catalog, Kind, Registration, RegistrationError};
use agent_locksmith::reply::Reply;

fn registration(auth: AuthSpec) -> Registration {
    Registration::new_at(
        "codex".to_string(),
        Kind::Model,
        String::new(),
        "https://up".to_string(),
        auth,
        0,
    )
}

fn pkce() -> AuthSpec {
    AuthSpec::OauthPkce {
        client_id: "cid".to_string(),
        redirect_uri: "http://localhost".to_string(),
        scopes: vec![],
        auth_url: "https://a".to_string(),
        token_url: "https://t".to_string(),
        session_label: None,
    }
}

fn catalog(auth: AuthSpec) -> Catalog {
    Catalog::from_rows(vec![registration(auth)])
}

fn kept(expires_at: i64) -> (OauthSessionRepository, SealingKey, OauthSession) {
    let mut repo = OauthSessionRepository::new();
    let key = SealingKey::generate().unwrap();
    let s = repo
        .create_at(
            &key,
            "codex",
            "default",
            "rt",
            Some("at"),
            Some(expires_at),
            "",
            1,
        )
        .unwrap();
    (repo, key, s)
}

fn tokens(refresh_token: Option<&str>) -> Exchange {
    Exchange::Tokens(TokenResponse {
        access_token: "at-2".to_string(),
        expires_in: Some(100),
        refresh_token: refresh_token.map(str::to_string),
        token_type: None,
    })
}

fn body(r: &Reply) -> serde_json::Value {
    serde_json::from_str(&render_scalar(r.body.as_ref().unwrap())).unwrap()
}

#[test]
fn the_provider_is_asked_with_the_refresh_token() {
    let (_, _, s) = kept(10);
    let q = refresh_request(&catalog(pkce()), &s).ok().unwrap();
    assert_eq!(q.token_url, "https://t");
    assert_eq!(
        q.form(),
        vec![
            ("grant_type".to_string(), "refresh_token".to_string()),
            ("refresh_token".to_string(), "rt".to_string()),
            ("client_id".to_string(), "cid".to_string()),
        ]
    );
    assert!(matches!(
        refresh_request(&catalog(AuthSpec::NoAuth), &s),
        Err(RefreshError::NotOauth(_))
    ));
    assert!(matches!(
        refresh_request(&Catalog::from_rows(vec![]), &s),
        Err(RefreshError::RegistrationGone(_))
    ));
}

#[test]
fn answers_of_the_provider_are_told_apart() {
    let replied = |status| {
        after_exchange(
            Exchange::Replied {
                status,
                body: "no".to_string(),
            },
            1000,
        )
    };
    assert!(matches!(
        replied(400),
        Err(RefreshError::Revoked { status: 400, .. })
    ));
    assert!(matches!(
        replied(401),
        Err(RefreshError::Revoked { status: 401, .. })
    ));
    assert!(matches!(
        replied(503),
        Err(RefreshError::ProviderError { status: 503, .. })
    ));
    assert!(matches!(
        after_exchange(Exchange::Failed("x".to_string()), 0),
        Err(RefreshError::Network(_))
    ));
    assert!(matches!(
        after_exchange(Exchange::Malformed("x".to_string()), 0),
        Err(RefreshError::BadResponse(_))
    ));
    let t = after_exchange(tokens(None), 1000).ok().unwrap();
    assert_eq!(t.access_token, "at-2");
    assert_eq!(t.expires_at, 1100);
}

#[test]
fn a_refresh_replaces_the_tokens() {
    let (mut repo, key, s) = kept(10);
    let next = refresh_session(&mut repo, &catalog(pkce()), &key, &s, tokens(None), 1000)
        .ok()
        .unwrap();
    assert_eq!(next.access_token.unwrap().expose(), "at-2");
    assert_eq!(next.refresh_token.expose(), "rt");
    let next = refresh_session(
        &mut repo,
        &catalog(pkce()),
        &key,
        &s,
        tokens(Some("rt-2")),
        1000,
    )
    .ok()
    .unwrap();
    assert_eq!(next.refresh_token.expose(), "rt-2");
    assert_eq!(next.access_token_expires_at, Some(1100));
}

#[test]
fn a_failed_refresh_leaves_the_tokens_and_degrades_the_session() {
    let (mut repo, key, s) = kept(10);
    let failed = Exchange::Failed("down".to_string());
    let e = refresh_or_degrade(&mut repo, &catalog(pkce()), &key, &s, failed, 1000);
    assert!(matches!(e, Err(RefreshError::Network(_))));
    let now = repo.get(&key, "codex", "default").unwrap().unwrap();
    assert!(now.degraded);
    assert_eq!(now.access_token.as_ref().unwrap().expose(), "at");
    assert!(repo.list_pending_refresh(1000).is_empty());
    assert!(!is_still_due(&Some(now), 1000));
    assert!(!is_still_due(&None, 0));
    let (_, _, due) = kept(10);
    assert!(is_still_due(&Some(due), 0));
}

#[test]
fn a_short_lived_token_is_renewed_later() {
    // Ten minutes from 1 to 601: the margin is a quarter of that, 150 seconds.
    let at = |now| {
        let (_, _, s) = kept(601);
        is_still_due(&Some(s), now)
    };
    assert_eq!(refresh_threshold(301), 601);
    assert!(!at(301));
    assert!(!at(450));
    assert!(at(451));
    // A day: five minutes.
    let (_, _, day) = kept(86401);
    assert!(!is_still_due(&Some(day), 86100));
    let (_, _, day) = kept(86401);
    assert!(is_still_due(&Some(day), 86101));
    let (_, _, far) = kept(i64::MAX);
    assert!(is_still_due(&Some(far), i64::MAX));
}

#[test]
fn a_renewal_with_given_nonces_is_fixed() {
    let (mut repo, key, s) = kept(10);
    let cat = catalog(pkce());
    let (a, r) = ([1u8; 12], [2u8; 12]);
    let got = refresh_session_with(&mut repo, &cat, &key, &s, tokens(Some("rt-2")), &a, &r, 1000);
    let next = got.ok().unwrap();
    assert_eq!(next.access_token.unwrap().expose(), "at-2");
    assert_eq!(next.refresh_token.expose(), "rt-2");
    let row = repo.row("codex", "default").unwrap();
    assert_eq!(row.access_nonce, Some(a.to_vec()));
    assert_eq!(row.refresh_nonce, r.to_vec());
    let ct = key.seal_with(b"at-2", &a).unwrap();
    assert_eq!(row.access_ciphertext, Some(ct));
    let _ = repo.delete("codex", "default");
    match refresh_session_with(&mut repo, &cat, &key, &s, tokens(None), &a, &r, 1000) {
        Err(RefreshError::Persist(m)) => assert_eq!(m, "session vanished after update"),
        _ => panic!("there is no such session"),
    }
    let (mut repo, key, s) = kept(10);
    let lost = Err(RefreshError::BadResponse("x".to_string()));
    assert!(degrade_on_failure(&mut repo, &s, lost, 5).is_err());
    assert!(repo.get(&key, "codex", "default").unwrap().unwrap().degraded);
}

#[test]
fn a_start_with_a_given_nonce_is_fixed() {
    let mut repo = OauthSessionRepository::new();
    let key = SealingKey::generate().unwrap();
    let found = Ok(Some(registration(pkce())));
    let sent = BootstrapBody { refresh_token: "rt".to_string() };
    let n = [3u8; 12];
    let s = bootstrap_start_with(&mut repo, &key, &found, "codex", "default", &sent, &n, 7);
    let s = s.ok().unwrap();
    assert_eq!(s.created_at, 7);
    assert_eq!(repo.row("codex", "default").unwrap().refresh_nonce, n.to_vec());
    let twice = bootstrap_start_with(&mut repo, &key, &found, "codex", "default", &sent, &n, 8);
    assert_eq!(twice.err().unwrap().status, 409);
    let failed = Err(RefreshError::Network("down".to_string()));
    assert_eq!(bootstrap_conclude(&mut repo, &s, &failed).status, 502);
    assert!(repo.row("codex", "default").is_none());
    let absent = bootstrap_start_with(&mut repo, &key, &Ok(None), "x", "default", &sent, &n, 8);
    assert_eq!(absent.err().unwrap().status, 404);
}

#[test]
fn sessions_are_made_only_for_oauth_registrations() {
    assert!(op_oauth_bootstrap(&Ok(Some(registration(pkce())))).is_none());
    let r = op_oauth_bootstrap(&Ok(Some(registration(AuthSpec::NoAuth)))).unwrap();
    assert_eq!(r.status, 400);
    assert_eq!(op_oauth_bootstrap(&Ok(None)).unwrap().status, 404);
    let e = Err(RegistrationError::Backend("x".to_string()));
    assert_eq!(op_oauth_bootstrap(&e).unwrap().status, 500);
    let unique = OauthSessionError::Database("UNIQUE constraint failed: x".to_string());
    assert_eq!(create_refused(&unique).status, 409);
    let other = OauthSessionError::Database("disk".to_string());
    assert_eq!(create_refused(&other).status, 500);
}

#[test]
fn sessions_are_shown_without_their_tokens() {
    let (mut repo, key, s) = kept(10);
    let (r, _) = bootstrap_finished(&Ok(s), &vec!["w".to_string()]);
    assert_eq!(r.status, 200);
    let text = body(&r).to_string();
    assert!(!text.contains("\"rt\"") && !text.contains("\"at\""));
    let got = repo.get(&key, "codex", "default");
    let r = op_oauth_status("codex", "default", &got);
    assert_eq!(r.status, 200);
    assert_eq!(body(&r)["name"], "codex");
    let r = op_oauth_status("codex", "x", &Ok(None));
    assert_eq!(r.status, 200);
    assert_eq!(body(&r)["present"], false);
    repo.create_at(&key, "codex", "hermes", "rt", None, None, "", 1)
        .unwrap();
    let lines = repo.list_all();
    let w = collision_warnings(&Some(repo.list_all()), "codex", "hermes");
    assert_eq!(w.len(), 1);
    assert!(collision_warnings(&Some(lines), "other", "x").is_empty());
    assert_eq!(
        body(&op_oauth_list(&Ok(repo.list_all())))["sessions"]
            .as_array()
            .unwrap()
            .len(),
        2
    );
    assert_eq!(op_oauth_revoke(&Ok(false)).status, 204);
    assert_eq!(LabelQuery { label: None }.label_or_default(), "default");
}

#[test]
fn a_start_that_failed_leaves_no_trace() {
    let mut repo = OauthSessionRepository::new();
    let key = SealingKey::generate().unwrap();
    let sent = BootstrapBody {
        refresh_token: "rt".to_string(),
    };
    let found = Ok(Some(registration(pkce())));
    let missing = bootstrap_start(&mut repo, &key, &Ok(None), "codex", "default", &sent, 5);
    assert_eq!(missing.unwrap_err().status, 404);
    let s = bootstrap_start(&mut repo, &key, &found, "codex", "default", &sent, 5)
        .ok()
        .unwrap();
    assert!(s.access_token.is_none());
    let again = bootstrap_start(&mut repo, &key, &found, "codex", "default", &sent, 6);
    assert_eq!(again.unwrap_err().status, 409);
    let failed = Exchange::Failed("unreachable".to_string());
    let r = bootstrap_end(&mut repo, &catalog(pkce()), &key, &s, failed, 7);
    assert_eq!(r.status, 502);
    assert_eq!(body(&r)["error"]["code"], "oauth_bootstrap_failed");
    assert!(repo.list_all().is_empty());
}

#[test]
fn a_session_is_started_with_its_first_tokens() {
    let (mut repo, key, _) = kept(10);
    let sent = BootstrapBody {
        refresh_token: "rt-b".to_string(),
    };
    let found = Ok(Some(registration(pkce())));
    let s = bootstrap_start(&mut repo, &key, &found, "codex", "b", &sent, 5)
        .ok()
        .unwrap();
    let r = bootstrap_end(&mut repo, &catalog(pkce()), &key, &s, tokens(None), 7);
    assert_eq!(r.status, 200);
    assert_eq!(body(&r)["access_token_expires_at"], 107);
    assert_eq!(body(&r)["warnings"].as_array().unwrap().len(), 1);
    let now_kept = repo.get(&key, "codex", "b").unwrap().unwrap();
    assert_eq!(now_kept.access_token.unwrap().expose(), "at-2");
    assert_eq!(now_kept.refresh_token.expose(), "rt-b");
}
