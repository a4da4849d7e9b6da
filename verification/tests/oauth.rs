//! OAuth sessions.
use agent_locksmith::deprecation::default_registry;
use agent_locksmith::json::Json;
use agent_locksmith::oauth::jwt::{decode_jwt_payload, extract_chatgpt_account_id};
use agent_locksmith::oauth::refresh::{refresh_safety_margin_secs, RefreshLockMap};
use base64::engine::general_purpose::URL_SAFE_NO_PAD;
use base64::Engine;

#[test]
fn default_registry_has_expected_entries() {
    let reg = default_registry();
    assert!(reg.lookup("tools[].cloud").is_some());
    assert!(reg.lookup("telemetry").is_some());
    assert!(reg.lookup("tools[].timeout_seconds").is_some());
}

#[test]
fn safety_margin_uses_five_minutes_for_long_lifetime() {
    // 1-hour token: lifetime/4 = 900s; capped at 300s.
    assert_eq!(refresh_safety_margin_secs(3600), 300);
    // 24-hour token: lifetime/4 = 21600s; capped at 300s.
    assert_eq!(refresh_safety_margin_secs(86400), 300);
}

#[test]
fn safety_margin_uses_quarter_for_short_lifetime() {
    // 15-min token: lifetime/4 = 225s; floor at 60s; chosen 225.
    assert_eq!(refresh_safety_margin_secs(900), 225);
}

#[test]
fn safety_margin_floors_at_sixty() {
    // 2-min token: lifetime/4 = 30s; floored to 60s.
    assert_eq!(refresh_safety_margin_secs(120), 60);
    // 30-second token (pathological): lifetime/4 = 7s; floor 60s.
    assert_eq!(refresh_safety_margin_secs(30), 60);
}

#[test]
fn lock_map_returns_same_lock_for_same_name() {
    let mut map = RefreshLockMap::new();
    let l1 = map.get("codex", "default");
    let l2 = map.get("codex", "default");
    assert_eq!(l1, l2);

    let l3 = map.get("anthropic-oauth", "default");
    assert_ne!(l1, l3);
}

/// A token with the given payload; header and signature are placeholders.
fn jwt_with_payload(payload: &str) -> String {
    let header = URL_SAFE_NO_PAD.encode(b"{\"alg\":\"none\"}");
    let payload = URL_SAFE_NO_PAD.encode(payload.as_bytes());
    let sig = URL_SAFE_NO_PAD.encode(b"sig");
    format!("{header}.{payload}.{sig}")
}

#[test]
fn extracts_account_id_from_valid_jwt() {
    let token = jwt_with_payload(
        r#"{"sub":"google-oauth2|123","https://api.openai.com/auth":{"chatgpt_account_id":"83e64542-54c5-4210-bb33-3631c727a27b","chatgpt_plan_type":"pro"}}"#,
    );
    assert_eq!(
        extract_chatgpt_account_id(&token),
        Some("83e64542-54c5-4210-bb33-3631c727a27b".to_string()),
    );
}

#[test]
fn returns_none_for_jwt_without_openai_auth_namespace() {
    let token = jwt_with_payload(r#"{"sub":"user","iss":"https://example.com"}"#);
    assert_eq!(extract_chatgpt_account_id(&token), None);
}

#[test]
fn returns_none_when_account_id_claim_missing() {
    let token =
        jwt_with_payload(r#"{"https://api.openai.com/auth":{"chatgpt_plan_type":"pro"}}"#);
    assert_eq!(extract_chatgpt_account_id(&token), None);
}

#[test]
fn returns_none_when_account_id_is_empty_string() {
    let token = jwt_with_payload(r#"{"https://api.openai.com/auth":{"chatgpt_account_id":""}}"#);
    assert_eq!(extract_chatgpt_account_id(&token), None);
}

#[test]
fn returns_none_for_non_jwt_input() {
    assert_eq!(extract_chatgpt_account_id(""), None);
    assert_eq!(extract_chatgpt_account_id("not-a-jwt"), None);
    assert_eq!(extract_chatgpt_account_id("only.two"), None);
    assert_eq!(extract_chatgpt_account_id("a.b.c.d"), None);
}

#[test]
fn returns_none_for_locksmith_bearer_format() {
    assert_eq!(
        extract_chatgpt_account_id(
            "lk_lb5_TwfeYLh_9E6z9E5IcQ.tANCHDtQawZAdTgGGb0_tLAqgesRynAHRtZ0S1CYpAU",
        ),
        None,
    );
}

#[test]
fn returns_none_for_malformed_base64_payload() {
    // Three parts but middle isn't valid base64url.
    assert_eq!(extract_chatgpt_account_id("hdr.{not_b64$$$}.sig"), None);
}

#[test]
fn returns_none_when_payload_is_not_json() {
    let header = URL_SAFE_NO_PAD.encode(b"{\"alg\":\"none\"}");
    let payload = URL_SAFE_NO_PAD.encode(b"plain text not json");
    let sig = URL_SAFE_NO_PAD.encode(b"sig");
    let token = format!("{header}.{payload}.{sig}");
    assert_eq!(extract_chatgpt_account_id(&token), None);
}

#[test]
fn decode_jwt_payload_returns_full_object() {
    let token = jwt_with_payload(r#"{"foo":"bar","n":42}"#);
    let decoded = decode_jwt_payload(&token).unwrap();
    let expected = Json::Object(vec![
        ("foo".to_string(), Json::Str("bar".to_string())),
        ("n".to_string(), Json::Number("42".to_string())),
    ]);
    assert_eq!(decoded, expected);
}
