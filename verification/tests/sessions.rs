//! The kept OAuth sessions.
use std::time::{SystemTime, UNIX_EPOCH};

use agent_locksmith::oauth::sealing::SealingKey;
use agent_locksmith::oauth::session::{
    renew_row_with, seal_session_with, unseal_session, OauthSessionError, DEFAULT_SESSION_LABEL,
};
use agent_locksmith::oauth::store::OauthSessionRepository;

const DEF: &str = DEFAULT_SESSION_LABEL;

fn fresh_repo() -> (OauthSessionRepository, SealingKey) {
    (OauthSessionRepository::new(), SealingKey::generate().unwrap())
}

fn unix_now() -> i64 {
    SystemTime::now()
        .duration_since(UNIX_EPOCH)
        .unwrap()
        .as_secs() as i64
}

#[test]
fn create_and_get_roundtrip() {
    let (mut repo, key) = fresh_repo();
    let session = repo
        .create(
            &key,
            "codex",
            DEF,
            "refresh-token-abc",
            Some("access-token-xyz"),
            Some(unix_now() + 3600),
            "openai-api",
        )
        .unwrap();
    assert_eq!(session.name, "codex");
    assert_eq!(session.session_label, DEF);
    assert_eq!(session.refresh_token.expose(), "refresh-token-abc");
    assert_eq!(
        session.access_token.as_ref().unwrap().expose(),
        "access-token-xyz"
    );

    let back = repo.get(&key, "codex", DEF).unwrap().unwrap();
    assert_eq!(back.refresh_token.expose(), "refresh-token-abc");
    assert_eq!(
        back.access_token.as_ref().unwrap().expose(),
        "access-token-xyz"
    );
    assert_eq!(back.scope, "openai-api");
    assert!(!back.degraded);
}

#[test]
fn update_tokens_replaces_access_only() {
    let (mut repo, key) = fresh_repo();
    repo.create(&key, "x", DEF, "refresh-1", Some("access-1"), Some(100), "")
        .unwrap();
    repo.update_tokens(&key, "x", DEF, "access-2", 200, None)
        .unwrap();
    let s = repo.get(&key, "x", DEF).unwrap().unwrap();
    assert_eq!(s.refresh_token.expose(), "refresh-1"); // unchanged
    assert_eq!(s.access_token.as_ref().unwrap().expose(), "access-2");
    assert_eq!(s.access_token_expires_at, Some(200));
}

#[test]
fn update_tokens_replaces_both_when_refresh_supplied() {
    let (mut repo, key) = fresh_repo();
    repo.create(&key, "x", DEF, "refresh-1", Some("access-1"), Some(100), "")
        .unwrap();
    repo.update_tokens(&key, "x", DEF, "access-2", 200, Some("refresh-2"))
        .unwrap();
    let s = repo.get(&key, "x", DEF).unwrap().unwrap();
    assert_eq!(s.refresh_token.expose(), "refresh-2");
    assert_eq!(s.access_token.as_ref().unwrap().expose(), "access-2");
}

#[test]
fn mark_degraded_clears_on_update() {
    let (mut repo, key) = fresh_repo();
    repo.create(&key, "x", DEF, "rt", Some("at"), Some(100), "")
        .unwrap();
    repo.mark_degraded("x", DEF);
    assert!(repo.get(&key, "x", DEF).unwrap().unwrap().degraded);

    // A successful refresh clears the flag.
    repo.update_tokens(&key, "x", DEF, "at-2", 200, None)
        .unwrap();
    assert!(!repo.get(&key, "x", DEF).unwrap().unwrap().degraded);
}

#[test]
fn list_pending_refresh_filters_degraded() {
    let (mut repo, key) = fresh_repo();
    let now = unix_now();
    repo.create(&key, "due", DEF, "rt", Some("at"), Some(now), "")
        .unwrap();
    repo.create(&key, "future", DEF, "rt", Some("at"), Some(now + 3600), "")
        .unwrap();
    repo.create(&key, "degraded", DEF, "rt", Some("at"), Some(now), "")
        .unwrap();
    repo.mark_degraded("degraded", DEF);

    // Threshold = now + 60 → "due" is pending; "future" not yet;
    // "degraded" is filtered out even though it's expired.
    let pending: Vec<(String, String)> = repo
        .list_pending_refresh(now + 60)
        .into_iter()
        .map(|p| (p.name, p.session_label))
        .collect();
    assert_eq!(pending, vec![("due".to_string(), DEF.to_string())]);
}

#[test]
fn audit_session_id_is_stable_for_same_session() {
    let (mut repo, key) = fresh_repo();
    let s1 = repo
        .create(&key, "x", DEF, "rt", Some("at"), Some(100), "")
        .unwrap();
    let id1 = s1.audit_session_id();
    // Reload — should get the same audit ID.
    let s2 = repo.get(&key, "x", DEF).unwrap().unwrap();
    assert_eq!(id1, s2.audit_session_id());
    assert_eq!(id1.len(), 16); // 8 bytes → 16 hex chars
}

#[test]
fn delete_clears_session() {
    let (mut repo, key) = fresh_repo();
    repo.create(&key, "x", DEF, "rt", Some("at"), Some(100), "")
        .unwrap();
    assert!(repo.delete("x", DEF));
    assert!(repo.get(&key, "x", DEF).unwrap().is_none());
    assert!(!repo.delete("x", DEF)); // idempotent
}

#[test]
fn unseal_with_wrong_key_returns_sealing_error() {
    let (mut repo, key1) = fresh_repo();
    repo.create(&key1, "x", DEF, "rt", Some("at"), Some(100), "")
        .unwrap();
    let key2 = SealingKey::generate().unwrap();
    let got = repo.get(&key2, "x", DEF);
    assert!(matches!(got, Err(OauthSessionError::Sealing(_))));
}

#[test]
fn two_labels_under_same_name_coexist() {
    let (mut repo, key) = fresh_repo();
    repo.create(&key, "codex", "hermes", "rt-h", Some("at-h"), Some(100), "")
        .unwrap();
    repo.create(
        &key,
        "codex",
        "openclaw",
        "rt-o",
        Some("at-o"),
        Some(200),
        "",
    )
    .unwrap();

    let h = repo.get(&key, "codex", "hermes").unwrap().unwrap();
    let o = repo.get(&key, "codex", "openclaw").unwrap().unwrap();
    assert_eq!(h.refresh_token.expose(), "rt-h");
    assert_eq!(o.refresh_token.expose(), "rt-o");
    // Audit IDs are distinct because session_label is part of the
    // hash input.
    assert_ne!(h.audit_session_id(), o.audit_session_id());
}

#[test]
fn get_with_wrong_label_returns_none() {
    let (mut repo, key) = fresh_repo();
    repo.create(&key, "codex", "hermes", "rt", Some("at"), Some(100), "")
        .unwrap();
    // Asking for the same name under a label we never created
    // returns None rather than spilling the wrong label's session.
    assert!(repo.get(&key, "codex", "openclaw").unwrap().is_none());
    assert!(repo.get(&key, "codex", DEF).unwrap().is_none());
}

#[test]
fn delete_one_label_leaves_other_intact() {
    let (mut repo, key) = fresh_repo();
    repo.create(&key, "codex", "hermes", "rt", Some("at"), Some(100), "")
        .unwrap();
    repo.create(&key, "codex", "openclaw", "rt", Some("at"), Some(100), "")
        .unwrap();
    assert!(repo.delete("codex", "hermes"));
    assert!(repo.get(&key, "codex", "hermes").unwrap().is_none());
    // openclaw's session is untouched.
    assert!(repo.get(&key, "codex", "openclaw").unwrap().is_some());
}

#[test]
fn list_pending_refresh_returns_label_too() {
    let (mut repo, key) = fresh_repo();
    let now = unix_now();
    repo.create(&key, "codex", "hermes", "rt", Some("at"), Some(now), "")
        .unwrap();
    repo.create(&key, "codex", "openclaw", "rt", Some("at"), Some(now), "")
        .unwrap();
    let pending: Vec<(String, String)> = repo
        .list_pending_refresh(now + 60)
        .into_iter()
        .map(|p| (p.name, p.session_label))
        .collect();
    assert_eq!(pending.len(), 2);
    assert!(pending
        .iter()
        .any(|p| p == &("codex".to_string(), "hermes".to_string())));
    assert!(pending
        .iter()
        .any(|p| p == &("codex".to_string(), "openclaw".to_string())));
}

#[test]
fn list_all_returns_all_label_pairs() {
    let (mut repo, key) = fresh_repo();
    repo.create(&key, "codex", DEF, "rt", Some("at"), Some(100), "")
        .unwrap();
    repo.create(&key, "codex", "hermes", "rt", Some("at"), Some(200), "")
        .unwrap();
    repo.create(&key, "anthropic-oauth", DEF, "rt", None, None, "")
        .unwrap();
    let rows = repo.list_all();
    assert_eq!(rows.len(), 3);
}

#[test]
fn a_second_session_under_one_label_is_refused() {
    let (mut repo, key) = fresh_repo();
    repo.create(&key, "x", DEF, "rt", None, None, "").unwrap();
    assert!(repo.create(&key, "x", DEF, "rt-2", None, None, "").is_err());
    let s = repo.get(&key, "x", DEF).unwrap().unwrap();
    assert_eq!(s.refresh_token.expose(), "rt");
}

#[test]
fn tokens_of_no_session_change_nothing() {
    let (mut repo, key) = fresh_repo();
    assert!(repo.update_tokens(&key, "x", DEF, "at", 1, None).is_ok());
    assert!(repo.list_all().is_empty());
}

#[test]
fn a_sealed_session_is_kept_once() {
    let (mut repo, key) = fresh_repo();
    let (r, a) = ([1u8; 12], [2u8; 12]);
    let at = Some("at");
    let made = seal_session_with(&key, "x", DEF, "rt", at, Some(9), "s", &r, &a, 5);
    let (row, session) = made.unwrap();
    assert_eq!(row.refresh_ciphertext, key.seal_with(b"rt", &r).unwrap());
    assert_eq!(row.access_nonce, Some(a.to_vec()));
    assert_eq!(unseal_session(&key, &row).unwrap().refresh_token.expose(), "rt");
    assert_eq!(repo.create_sealed(row, session).unwrap().created_at, 5);
    let again = repo.create_with(&key, "x", DEF, "rt", at, Some(9), "s", &r, &a, 6);
    assert!(matches!(again, Err(OauthSessionError::Database(_))));
    assert_eq!(repo.row("x", DEF).unwrap().created_at, 5);
    assert!(repo.create_with(&key, "y", DEF, "rt", None, None, "", &r, &[], 6).is_ok());
    assert_eq!(repo.row("y", DEF).unwrap().access_nonce, None);
}

#[test]
fn new_tokens_are_kept_with_the_nonces_that_are_given() {
    let (mut repo, key) = fresh_repo();
    repo.create_at(&key, "x", DEF, "rt", Some("at"), Some(9), "", 1).unwrap();
    let (a, r) = ([4u8; 12], [5u8; 12]);
    repo.update_tokens_with(&key, "x", DEF, "at-2", 20, Some("rt-2"), &a, &r, 3).unwrap();
    let row = repo.row("x", DEF).unwrap().copy();
    assert_eq!(row.access_nonce, Some(a.to_vec()));
    assert_eq!(row.refresh_nonce, r.to_vec());
    assert_eq!(row.updated_at, 3);
    let renewed = renew_row_with(row, (vec![1], vec![2]), None, None, 30, 4);
    assert_eq!(renewed.access_ciphertext, Some(vec![1]));
    assert_eq!(renewed.refresh_nonce, r.to_vec());
    assert_eq!(renewed.access_token_expires_at, Some(30));
    assert!(repo.update_tokens_at(&key, "gone", DEF, "at", 20, None, 3).is_ok());
    assert!(repo.row("gone", DEF).is_none());
}
