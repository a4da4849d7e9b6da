//! Registrations: names, rows, seeds, and what operators do with them.
use agent_locksmith::auth_v2::AgentIdentity;
use agent_locksmith::cli::output::render_scalar;
use agent_locksmith::config::{EgressMode, ToolTimeouts};
use agent_locksmith::json::Json;
use agent_locksmith::oauth::sealing::SealingKey;
use agent_locksmith::registrations::api::{
    clear_finished, credential_finished, credential_stored, env_creds, given_up, list_public,
    op_delete, op_delete_credential, op_enable, op_get, op_list, op_put, op_put_credential,
    op_put_credential_with, put_finished, refresh_runtime, registration_to_admin_json, stored_creds, ClearStep,
    CredentialStep, DeleteStep, PutBody, PutCredentialBody, PutStep, StoredCredential,
};
use agent_locksmith::registrations::kind::Kind;
use agent_locksmith::registrations::repo::{registration_to_row, row_to_registration};
use agent_locksmith::registrations::seed_loader::{
    apply_catalog_parsed, seed_path_from_env, semver_lt, SeedCatalog, SeedEntry, SeedLoadError,
    SeedResult,
};
use agent_locksmith::registrations::table::RegistrationTable;
use agent_locksmith::registrations::{
    validate_name, AuthSpec, Catalog, Registration, RegistrationError,
};
use agent_locksmith::reply::Reply;
use agent_locksmith::secret::{ResolvedCreds, Secret};

fn row(name: &str, kind: Kind, auth: AuthSpec) -> Registration {
    Registration::new_at(
        name.to_string(),
        kind,
        "about".to_string(),
        "https://up".to_string(),
        auth,
        100,
    )
}

fn bearer(var: &str) -> AuthSpec {
    AuthSpec::Bearer {
        env_var: var.to_string(),
    }
}

fn body(r: &Reply) -> serde_json::Value {
    serde_json::from_str(&render_scalar(r.body.as_ref().unwrap())).unwrap()
}

#[test]
fn names_that_cannot_be_registered() {
    assert!(validate_name("github-2").is_ok());
    assert!(validate_name(&"a".repeat(64)).is_ok());
    for bad in ["", "Upper", "a/b", "a_b", "\u{e4}"] {
        assert!(matches!(
            validate_name(bad),
            Err(RegistrationError::InvalidName(_))
        ));
    }
    assert!(matches!(
        validate_name(&"a".repeat(65)),
        Err(RegistrationError::InvalidName(_))
    ));
    for reserved in ["tools", "livez", "admin", "api"] {
        assert!(matches!(
            validate_name(reserved),
            Err(RegistrationError::ReservedName)
        ));
    }
}

#[test]
fn rows_come_back_as_they_were_kept() {
    let mut r = row("a", Kind::Model, bearer("V"));
    r.egress = EgressMode::Direct;
    r.timeouts = ToolTimeouts {
        request_seconds: 7,
        idle_seconds: 8,
    };
    r.metadata = Json::object().with("modality", Json::text("text"));
    r.disabled = true;
    let back = row_to_registration(registration_to_row(&r)).unwrap();
    assert_eq!(back.name, "a");
    assert_eq!(back.kind.as_str(), "model");
    assert_eq!(back.auth, bearer("V"));
    assert!(back.egress == EgressMode::Direct);
    assert_eq!(back.timeouts.idle_seconds, 8);
    assert_eq!(back.metadata, r.metadata);
    assert!(back.disabled);
    assert_eq!(back.created_at, 100);

    r.metadata = Json::object()
        .with("z", Json::count(u64::MAX))
        .with("a", Json::Array(vec![Json::integer(i64::MIN), Json::Null]))
        .with("é\n\"", Json::object().with("b", Json::Bool(true)));
    let back = row_to_registration(registration_to_row(&r)).unwrap();
    for key in ["z", "a", "é\n\""] {
        assert_eq!(back.metadata.get(key), r.metadata.get(key));
    }
    let nested = |depth: usize| {
        let mut j = Json::Null;
        for _ in 0..depth {
            j = Json::Array(vec![j]);
        }
        j
    };
    r.metadata = nested(127);
    let back = row_to_registration(registration_to_row(&r)).unwrap();
    assert_eq!(back.metadata, r.metadata);
    r.metadata = nested(128);
    assert!(row_to_registration(registration_to_row(&r)).is_err());
    r.metadata = Json::object();

    let mut bad = registration_to_row(&r);
    bad.kind = "weird".to_string();
    match row_to_registration(bad) {
        Err(RegistrationError::Backend(m)) => assert_eq!(m, "unexpected kind in DB: weird"),
        _ => panic!("the kind is none"),
    }
    let mut bad = registration_to_row(&r);
    bad.auth_json = "{".to_string();
    match row_to_registration(bad) {
        Err(RegistrationError::Backend(m)) => assert!(m.starts_with("deserialize auth: ")),
        _ => panic!("the text is no JSON"),
    }
}

fn put(auth: Option<AuthSpec>) -> PutBody {
    PutBody {
        description: "d".to_string(),
        upstream: "https://new".to_string(),
        auth,
        egress: None,
        timeouts: None,
        body_limit_bytes: None,
        metadata: None,
    }
}

fn refused(s: PutStep) -> (u16, String) {
    match s {
        PutStep::Refuse(r) => {
            let code = body(&r)["error"]["code"].as_str().unwrap().to_string();
            (r.status, code)
        }
        PutStep::Write { .. } => panic!("the request is refused"),
    }
}

#[test]
fn what_is_put_is_checked() {
    let put_new = |kind, name: &str, b| op_put(kind, name.to_string(), b, &Ok(None), 200);
    assert_eq!(
        refused(put_new(Kind::Tool, "UP", put(Some(AuthSpec::NoAuth)))),
        (400, "invalid_name".to_string())
    );
    assert_eq!(
        refused(put_new(Kind::Tool, "tools", put(Some(AuthSpec::NoAuth)))),
        (400, "reserved_name".to_string())
    );
    assert_eq!(
        refused(put_new(Kind::Tool, "a", put(None))),
        (400, "auth_required".to_string())
    );
    match put_new(Kind::Infra, "a", put(None)) {
        PutStep::Write { row, is_update } => {
            assert!(!is_update);
            assert_eq!(row.auth, AuthSpec::NoAuth);
            assert!(row.egress == EgressMode::Proxied);
            assert_eq!(row.body_limit_bytes, 10 * 1024 * 1024);
            assert_eq!((row.created_at, row.updated_at), (200, 200));
        }
        PutStep::Refuse(_) => panic!("infrastructure needs no credential"),
    }
    assert!(matches!(
        put_new(Kind::Model, "a", put(Some(AuthSpec::NoAuth))),
        PutStep::Write { .. }
    ));
    let other = Ok(Some(row("a", Kind::Model, bearer("V"))));
    assert_eq!(
        refused(op_put(
            Kind::Tool,
            "a".to_string(),
            put(Some(AuthSpec::NoAuth)),
            &other,
            200
        ))
        .0,
        409
    );
}

#[test]
fn what_is_put_keeps_the_state_of_the_row() {
    let mut was = row("a", Kind::Tool, bearer("V"));
    was.disabled = true;
    was.seed = true;
    match op_put(
        Kind::Tool,
        "a".to_string(),
        put(Some(bearer("W"))),
        &Ok(Some(was)),
        200,
    ) {
        PutStep::Write { row, is_update } => {
            assert!(is_update);
            assert!(row.disabled);
            assert!(!row.seed);
            assert_eq!(row.created_at, 100);
            assert_eq!(row.updated_at, 200);
            let r = put_finished(&row, &Ok(()));
            assert_eq!(r.status, 200);
            assert_eq!(body(&r)["auth"]["env_var"], "W");
            let failed = put_finished(&row, &Err(RegistrationError::Backend("x".to_string())));
            assert_eq!(failed.status, 500);
        }
        PutStep::Refuse(_) => panic!("the row may be changed"),
    }
}

#[test]
fn seeds_are_disabled_and_others_removed() {
    let mut seed = row("s", Kind::Tool, AuthSpec::NoAuth);
    seed.seed = true;
    assert!(matches!(
        op_delete(Kind::Tool, "s", &Ok(Some(seed))),
        DeleteStep::Disable
    ));
    assert!(matches!(
        op_delete(Kind::Tool, "o", &Ok(Some(row("o", Kind::Tool, AuthSpec::NoAuth)))),
        DeleteStep::Remove
    ));
    match op_delete(Kind::Tool, "x", &Ok(None)) {
        DeleteStep::Refuse(r) => {
            assert_eq!(r.status, 404);
            assert_eq!(body(&r)["error"]["code"], "unknown_name");
            assert_eq!(body(&r)["error"]["message"], "registration not found: x");
        }
        _ => panic!("nothing is there"),
    }
    assert!(op_enable(Kind::Tool, "o", &Ok(Some(row("o", Kind::Tool, AuthSpec::NoAuth)))).is_none());
    assert_eq!(
        op_enable(Kind::Model, "o", &Ok(Some(row("o", Kind::Tool, AuthSpec::NoAuth))))
            .unwrap()
            .status,
        409
    );
}

#[test]
fn lists_and_rows_are_shown_without_values() {
    let rows = Ok(vec![row("a", Kind::Infra, bearer("V"))]);
    let r = op_list(Kind::Infra, &rows);
    assert_eq!(body(&r)["infras"][0]["name"], "a");
    assert_eq!(body(&r)["infras"][0]["auth"]["kind"], "bearer");
    let got = op_get(Kind::Tool, "a", &Ok(Some(row("a", Kind::Infra, bearer("V")))));
    assert_eq!(got.status, 409);
    assert_eq!(body(&got)["error"]["code"], "wrong_kind");
    let j = registration_to_admin_json(&row("a", Kind::Tool, bearer("V")));
    assert!(!render_scalar(&j).contains("value"));
}

#[test]
fn agents_see_what_they_may_call() {
    let id = AgentIdentity {
        public_id: "p".to_string(),
        name: "n".to_string(),
        tool_allowlist: None,
        tool_denylist: Some(vec!["b".to_string()]),
    };
    let mut off = row("c", Kind::Tool, AuthSpec::NoAuth);
    off.disabled = true;
    let rows = vec![
        row("a", Kind::Tool, AuthSpec::NoAuth),
        row("b", Kind::Tool, AuthSpec::NoAuth),
        off,
        row("d", Kind::Model, AuthSpec::NoAuth),
    ];
    let seen: Vec<String> = list_public(&rows, Kind::Tool, Some(&id))
        .iter()
        .map(render_scalar)
        .collect();
    assert_eq!(
        seen,
        vec![r#"{"description":"about","name":"a","path":"/api/a","type":"api"}"#]
    );
    assert_eq!(list_public(&rows, Kind::Tool, None).len(), 2);
}

#[test]
fn values_are_stored_sealed_and_given_up() {
    let key = SealingKey::generate().unwrap();
    let stored = row(
        "a",
        Kind::Tool,
        AuthSpec::StoredBearer {
            secret_ref: "cs_1".to_string(),
        },
    );
    let body_of = |v: &str| PutCredentialBody {
        value: v.to_string(),
    };
    match op_put_credential(
        Some(&key),
        Kind::Tool,
        "a",
        body_of("hush"),
        &Ok(Some(row("a", Kind::Tool, bearer("V")))),
    ) {
        CredentialStep::Store { ciphertext, nonce } => {
            assert_eq!(key.unseal(&ciphertext, &nonce).unwrap(), b"hush");
        }
        CredentialStep::Refuse(r) => panic!("refused with {}", r.status),
    }
    let held = Ok(Some(row("a", Kind::Tool, bearer("V"))));
    let n = [7u8; 12];
    match op_put_credential_with(Some(&key), Kind::Tool, "a", body_of("hush"), &held, &n) {
        CredentialStep::Store { ciphertext, nonce } => {
            assert_eq!(nonce, n.to_vec());
            assert_eq!(ciphertext, key.seal_with(b"hush", &n).unwrap());
        }
        CredentialStep::Refuse(r) => panic!("refused with {}", r.status),
    }
    let lost = credential_stored(stored.clone(), Ok("cs_2".to_string()), 300).ok().unwrap();
    let failed = Err(RegistrationError::Backend("disk".to_string()));
    assert_eq!(given_up(lost, &failed), None);
    let write = credential_stored(stored, Ok("cs_2".to_string()), 300).ok().unwrap();
    assert_eq!(write.old_ref, Some("cs_1".to_string()));
    assert_eq!(write.row.auth.stored_secret_ref(), Some("cs_2"));
    let done = credential_finished("cs_2", 300, &Ok(()));
    assert_eq!(done.status, 200);
    assert_eq!(body(&done)["secret_ref"], "cs_2");
    match op_delete_credential(true, Kind::Tool, "a", Ok(Some(write.row)), 400) {
        ClearStep::Write(w) => {
            assert_eq!(w.old_ref, Some("cs_2".to_string()));
            assert_eq!(w.row.auth.stored_secret_ref(), None);
            assert_eq!(given_up(w, &Ok(())), Some("cs_2".to_string()));
        }
        ClearStep::Answer(r) => panic!("answered with {}", r.status),
    }
    assert!(clear_finished(&Ok(())).status < 300);
    match op_put_credential(None, Kind::Tool, "a", body_of("x"), &Ok(None)) {
        CredentialStep::Refuse(r) => assert!(r.status >= 400),
        CredentialStep::Store { .. } => panic!("nothing can be sealed"),
    }
}

fn seed(name: &str, description: &str) -> SeedEntry {
    SeedEntry {
        name: name.to_string(),
        kind: Kind::Tool,
        description: description.to_string(),
        upstream: "https://seed".to_string(),
        auth: Some(AuthSpec::NoAuth),
        egress: None,
        timeouts: None,
        body_limit_bytes: None,
        metadata: None,
    }
}

fn catalog(version: &str, entries: Vec<SeedEntry>) -> SeedCatalog {
    SeedCatalog {
        version: version.to_string(),
        entries,
    }
}

#[test]
fn seeds_are_loaded_once_per_version() {
    let mut table = RegistrationTable::new();
    let mut version = None;
    let (_, r) = apply_catalog_parsed(
        &mut table,
        &mut version,
        catalog("1.2.0", vec![seed("a", "one"), seed("b", "one")]),
        10,
    );
    assert!(matches!(
        r,
        Ok(SeedResult::Applied {
            inserted: 2,
            updated: 0,
            skipped: 0
        })
    ));
    assert_eq!(version, Some("1.2.0".to_string()));

    // An operator takes one over and disables the other.
    let mut mine = table.get("a").unwrap().clone();
    mine.seed = false;
    mine.description = "mine".to_string();
    table.put(mine);
    table.set_disabled("b", true, 11);

    let (w, r) = apply_catalog_parsed(
        &mut table,
        &mut version,
        catalog("1.2.0", vec![seed("a", "two")]),
        12,
    );
    assert!(matches!(r, Ok(SeedResult::Current)));
    assert!(w.is_empty());
    let (_, r) = apply_catalog_parsed(
        &mut table,
        &mut version,
        catalog("1.1.9", vec![seed("a", "two")]),
        12,
    );
    assert!(matches!(r, Ok(SeedResult::Older)));
    let (_, r) = apply_catalog_parsed(
        &mut table,
        &mut version,
        catalog("1.10.0", vec![seed("a", "two"), seed("b", "two")]),
        12,
    );
    assert!(matches!(
        r,
        Ok(SeedResult::Applied {
            inserted: 0,
            updated: 1,
            skipped: 1
        })
    ));
    assert_eq!(table.get("a").unwrap().description, "mine");
    assert_eq!(table.get("b").unwrap().description, "two");
    assert!(table.get("b").unwrap().disabled);

    let mut bad = seed("c", "x");
    bad.auth = None;
    let (_, r) = apply_catalog_parsed(&mut table, &mut version, catalog("2", vec![bad]), 13);
    assert!(matches!(r, Err(SeedLoadError::Entry { .. })));
}

#[test]
fn a_bad_seed_catalogue_changes_nothing() {
    let mut table = RegistrationTable::new();
    let mut version = None;
    let mut bad = seed("b", "x");
    bad.auth = Some(AuthSpec::OpBearer {
        reference: "https://vault".to_string(),
    });
    let all = vec![seed("a", "x"), bad];
    let (w, r) = apply_catalog_parsed(&mut table, &mut version, catalog("1", all), 1);
    match r {
        Err(SeedLoadError::Entry { name, error, .. }) => {
            assert_eq!(name, "b");
            assert!(matches!(error, RegistrationError::InvalidMetadata(_)));
        }
        _ => panic!("the reference has another scheme"),
    }
    assert!(w.is_empty());
    assert_eq!(table.len(), 0);

    // The same name under two kinds, found before the first entry is written.
    let mut other = seed("a", "x");
    other.kind = Kind::Model;
    let all = vec![seed("z", "x"), seed("a", "x"), other];
    let (w, r) = apply_catalog_parsed(&mut table, &mut version, catalog("1", all), 1);
    match r {
        Err(SeedLoadError::Entry { name, error, .. }) => {
            assert_eq!(name, "a");
            assert!(matches!(error, RegistrationError::WrongKind { .. }));
        }
        _ => panic!("a name belongs to one kind"),
    }
    assert!(w.is_empty());
    assert_eq!(table.len(), 0);
    assert_eq!(version, None);
}

#[test]
fn versions_are_compared_by_their_numbers() {
    assert!(semver_lt("1.9.0", "1.10.0"));
    assert!(!semver_lt("1.10.0", "1.9.0"));
    assert!(!semver_lt("1.0.0", "1.0.0"));
    assert_eq!(seed_path_from_env(Some(String::new())), None);
    assert_eq!(seed_path_from_env(Some("/x".to_string())), Some("/x".to_string()));
    assert!(seed_path_from_env(None).is_some());
}

#[test]
fn changes_reach_the_proxy() {
    let rows = vec![
        row("a", Kind::Tool, bearer("VA")),
        row("b", Kind::Tool, bearer("VB")),
        row("c", Kind::Tool, AuthSpec::NoAuth),
    ];
    let env = vec![("VA".to_string(), "new".to_string())];
    let found = env_creds(&rows, &env);
    assert_eq!(found.get("a").unwrap().expose(), "new");
    assert!(found.get("b").is_none());
    let mut creds = ResolvedCreds::new();
    creds.insert("a".to_string(), Secret::new("old".to_string()));
    creds.insert("z".to_string(), Secret::new("kept".to_string()));
    let none = ResolvedCreds::new();
    let empty = Catalog::from_rows(vec![]);
    let (catalog, creds) = refresh_runtime(Ok(rows), &env, none, empty, creds);
    assert!(catalog.lookup_active("c").is_some());
    assert_eq!(creds.get("a").unwrap().expose(), "new");
    assert_eq!(creds.get("z").unwrap().expose(), "kept");
    let (catalog, creds) = refresh_runtime(
        Err(RegistrationError::Backend("down".to_string())),
        &vec![],
        ResolvedCreds::new(),
        catalog,
        creds,
    );
    assert_eq!(catalog.len(), 3);
    assert_eq!(creds.get("a").unwrap().expose(), "new");
}

#[test]
fn metadata_with_a_name_of_the_json_library_is_not_read_back() {
    let mut r = row("a", Kind::Tool, AuthSpec::NoAuth);
    let name = "$serde_json::private::RawValue";
    r.metadata = Json::object().with(name, Json::text("[1]"));
    let stored = registration_to_row(&r);
    let back = row_to_registration(stored);
    let same = match back {
        Ok(b) => b.metadata.get(name).is_some(),
        Err(_) => false,
    };
    assert!(!same);
    r.metadata = Json::object().with("serde_json", Json::text("[1]"));
    let back = row_to_registration(registration_to_row(&r)).unwrap();
    assert_eq!(back.metadata.get("serde_json").and_then(|j| j.as_text()), Some("[1]"));
}

#[test]
fn stored_credentials_are_opened() {
    let key = SealingKey::generate().unwrap();
    let stored = |name: &str, plain: &[u8], nonce: Vec<u8>| StoredCredential {
        name: name.to_string(),
        ciphertext: key.seal_with(plain, &[9; 12]).unwrap(),
        nonce,
    };
    let all = vec![
        stored("a", b"first", vec![9; 12]),
        stored("b", b"other nonce", vec![8; 12]),
        stored("c", b"short nonce", vec![9; 11]),
        stored("d", &[0xff, 0xfe], vec![9; 12]),
        stored("a", b"last", vec![9; 12]),
    ];
    let creds = stored_creds(&key, &all);
    assert_eq!(creds.get("a").unwrap().expose(), "last");
    for name in ["b", "c", "d"] {
        assert!(creds.get(name).is_none());
    }
    let rows = vec![row("a", Kind::Tool, bearer("VA"))];
    let env = vec![("VA".to_string(), "from env".to_string())];
    let empty = Catalog::from_rows(vec![]);
    let (_, merged) = refresh_runtime(Ok(rows), &env, creds, empty, ResolvedCreds::new());
    assert_eq!(merged.get("a").unwrap().expose(), "last");
}

#[test]
fn rows_stand_in_the_order_of_their_names() {
    let mut t = RegistrationTable::new();
    for n in ["m", "a", "z"] {
        assert!(t.create(row(n, Kind::Tool, AuthSpec::NoAuth)).is_ok());
    }
    assert!(matches!(
        t.create(row("a", Kind::Model, AuthSpec::NoAuth)),
        Err(RegistrationError::Backend(_))
    ));
    let names: Vec<&str> = t.list(None).iter().map(|r| r.name.as_str()).collect();
    assert_eq!(names, vec!["a", "m", "z"]);
    assert!(t.delete("m"));
    assert!(!t.delete("m"));
    assert_eq!(t.len(), 2);
    assert!(!t.set_disabled("m", true, 1));
}
