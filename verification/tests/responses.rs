//! Answers to callers that were not let in.
use std::time::Duration;

use agent_locksmith::auth_v2::{auth_error_response, AuthError};
use agent_locksmith::cli::output::render_scalar;
use agent_locksmith::reply::Reply;

fn body_json(resp: &Reply) -> serde_json::Value {
    let text = render_scalar(resp.body.as_ref().unwrap());
    serde_json::from_str(&text).unwrap()
}

#[test]
fn auth_auth_error_response_missing_credential_is_401() {
    let resp = auth_error_response(&AuthError::MissingCredential);
    assert_eq!(resp.status, 401);
    let body = body_json(&resp);
    assert_eq!(body["error"]["type"], "auth_error");
    assert_eq!(body["error"]["code"], "invalid_credential");
}

#[test]
fn auth_auth_error_response_expired_is_401_with_expired_code() {
    let resp = auth_error_response(&AuthError::Expired);
    assert_eq!(resp.status, 401);
    let body = body_json(&resp);
    assert_eq!(body["error"]["code"], "expired");
}

#[test]
fn auth_ts16_rate_limited_renders_429_with_retry_after_header() {
    let resp = auth_error_response(&AuthError::RateLimited {
        retry_after: Duration::from_secs(7),
    });
    assert_eq!(resp.status, 429);
    assert_eq!(resp.retry_after, Some(7));
    let body = body_json(&resp);
    assert_eq!(body["error"]["code"], "rate_limited");
}

#[test]
fn auth_error_response_backend_is_500_with_generic_message() {
    let resp = auth_error_response(&AuthError::Backend("internals".into()));
    assert_eq!(resp.status, 500);
    let body = body_json(&resp);
    assert_eq!(body["error"]["code"], "backend_error");
}

#[test]
fn mod_auth_error_response_missing_credential_is_401() {
    let resp = auth_error_response(&AuthError::MissingCredential);
    assert_eq!(resp.status, 401);
    let body = body_json(&resp);
    assert_eq!(body["error"]["type"], "auth_error");
    assert_eq!(body["error"]["code"], "invalid_credential");
}

#[test]
fn mod_auth_error_response_expired_is_401_with_expired_code() {
    let resp = auth_error_response(&AuthError::Expired);
    assert_eq!(resp.status, 401);
    let body = body_json(&resp);
    assert_eq!(body["error"]["code"], "expired");
}

#[test]
fn mod_ts16_rate_limited_renders_429_with_retry_after_header() {
    let resp = auth_error_response(&AuthError::RateLimited {
        retry_after: Duration::from_secs(7),
    });
    assert_eq!(resp.status, 429);
    assert_eq!(resp.retry_after, Some(7));
    let body = body_json(&resp);
    assert_eq!(body["error"]["code"], "rate_limited");
}

#[test]
fn auth_error_response_backend_renders_500_with_generic_message() {
    let resp = auth_error_response(&AuthError::Backend("sqlx: table users not found".into()));
    assert_eq!(resp.status, 500);
    let body = body_json(&resp);
    assert_eq!(body["error"]["code"], "backend_error");
    assert_eq!(
        body["error"]["message"], "internal error",
        "wire message must be generic"
    );
    let serialized = body.to_string();
    assert!(
        !serialized.contains("sqlx") && !serialized.contains("table users"),
        "Backend's inner discriminator must not appear in wire body: {serialized}"
    );
}

#[test]
fn auth_error_response_mtls_misconfigured_renders_generic_500() {
    let resp = auth_error_response(&AuthError::MtlsMisconfigured);
    assert_eq!(resp.status, 500);
    let body = body_json(&resp);
    assert_eq!(body["error"]["code"], "internal_error");
    assert_eq!(
        body["error"]["message"], "internal error",
        "wire message must be generic"
    );
}
