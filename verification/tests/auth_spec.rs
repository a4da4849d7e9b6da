//! How a registration authenticates to its upstream.
use agent_locksmith::cli::output::render_scalar;
use agent_locksmith::registrations::auth_spec::AuthSpec;

#[test]
fn is_stored_and_secret_ref_accessor() {
    let sh = AuthSpec::StoredHeader {
        header: "x".into(),
        secret_ref: "cs_1".into(),
    };
    let sb = AuthSpec::StoredBearer {
        secret_ref: "cs_2".into(),
    };
    assert!(sh.is_stored());
    assert!(sb.is_stored());
    assert_eq!(sh.stored_secret_ref(), Some("cs_1"));
    assert_eq!(sb.stored_secret_ref(), Some("cs_2"));

    let env = AuthSpec::Bearer {
        env_var: "TOK".into(),
    };
    assert!(!env.is_stored());
    assert_eq!(env.stored_secret_ref(), None);
    assert!(!AuthSpec::NoAuth.is_stored());
}

#[test]
fn is_op_and_reference_accessor() {
    let oh = AuthSpec::OpHeader {
        header: "x".into(),
        reference: "op://v/i/f".into(),
    };
    let ob = AuthSpec::OpBearer {
        reference: "op://v/i/g".into(),
    };
    assert!(oh.is_op());
    assert!(ob.is_op());
    assert_eq!(oh.op_reference(), Some("op://v/i/f"));
    assert_eq!(ob.op_reference(), Some("op://v/i/g"));
    assert!(ob.injects_header());
    assert!(!ob.is_stored());
    assert!(!ob.is_oauth());
    assert!(ob.to_secret_ref().is_none());

    let env = AuthSpec::Bearer {
        env_var: "TOK".into(),
    };
    assert!(!env.is_op());
    assert_eq!(env.op_reference(), None);
}

#[test]
fn validate_op_reference_rejects_non_op_scheme() {
    assert!(AuthSpec::OpBearer {
        reference: "op://vault/item/field".into(),
    }
    .validate_op_reference()
    .is_ok());
    assert!(AuthSpec::OpBearer {
        reference: "https://not-op".into(),
    }
    .validate_op_reference()
    .is_err());
    assert!(
        AuthSpec::OpBearer {
            reference: "op://".into(),
        }
        .validate_op_reference()
        .is_err(),
        "bare scheme with no path is rejected"
    );
    // Non-op variants pass trivially.
    assert!(AuthSpec::NoAuth.validate_op_reference().is_ok());
}

#[test]
fn stored_variants_inject_but_are_not_oauth_and_have_no_env_secret_ref() {
    let sb = AuthSpec::StoredBearer {
        secret_ref: "cs_x".into(),
    };
    assert!(sb.injects_header(), "stored injects a header");
    assert!(!sb.is_oauth());
    // Does not resolve via the env-var static resolver.
    assert!(sb.to_secret_ref().is_none());
    assert_eq!(sb.session_label_or_default(), None);
}

fn serialized(spec: &AuthSpec) -> String {
    render_scalar(&spec.to_json())
}

#[test]
fn stored_bearer_serde_roundtrip_and_tag() {
    let spec = AuthSpec::StoredBearer {
        secret_ref: "cs_deadbeef".to_string(),
    };
    let json = serialized(&spec);
    assert!(json.contains(r#""kind":"stored_bearer""#), "tag: {json}");
    assert!(json.contains(r#""secret_ref":"cs_deadbeef""#));
    // No value ever appears in the serialized shape.
    assert!(!json.to_lowercase().contains("value"));
    let back: AuthSpec = AuthSpec::from_json(&spec.to_json()).unwrap();
    assert_eq!(back, spec);
}

#[test]
fn stored_header_serde_roundtrip_and_tag() {
    let spec = AuthSpec::StoredHeader {
        header: "x-api-key".to_string(),
        secret_ref: "cs_abc123".to_string(),
    };
    let json = serialized(&spec);
    assert!(json.contains(r#""kind":"stored_header""#), "tag: {json}");
    let back: AuthSpec = AuthSpec::from_json(&spec.to_json()).unwrap();
    assert_eq!(back, spec);
}

#[test]
fn op_bearer_serde_roundtrip_and_tag() {
    let spec = AuthSpec::OpBearer {
        reference: "op://vault/item/field".to_string(),
    };
    let json = serialized(&spec);
    assert!(json.contains(r#""kind":"op_bearer""#), "tag: {json}");
    assert!(json.contains(r#""reference":"op://vault/item/field""#));
    // No value ever appears in the serialized shape.
    assert!(!json.to_lowercase().contains("value"));
    let back: AuthSpec = AuthSpec::from_json(&spec.to_json()).unwrap();
    assert_eq!(back, spec);
}

#[test]
fn op_header_serde_roundtrip_and_tag() {
    let spec = AuthSpec::OpHeader {
        header: "x-api-key".to_string(),
        reference: "op://vault/item/field".to_string(),
    };
    let json = serialized(&spec);
    assert!(json.contains(r#""kind":"op_header""#), "tag: {json}");
    let back: AuthSpec = AuthSpec::from_json(&spec.to_json()).unwrap();
    assert_eq!(back, spec);
}

#[test]
fn no_authspec_variant_serializes_a_value() {
    let allowed: std::collections::HashSet<&str> = [
        "kind",
        "header",
        "env_var",
        "secret_ref",
        "reference",
        "client_id",
        "redirect_uri",
        "scopes",
        "auth_url",
        "token_url",
        "device_url",
        "session_label",
    ]
    .into_iter()
    .collect();

    let every_variant = vec![
        AuthSpec::NoAuth,
        AuthSpec::Header {
            header: "x-api-key".into(),
            env_var: "TOOL_KEY".into(),
        },
        AuthSpec::Bearer {
            env_var: "TOOL_KEY".into(),
        },
        AuthSpec::StoredHeader {
            header: "x-api-key".into(),
            secret_ref: "cs_ref".into(),
        },
        AuthSpec::StoredBearer {
            secret_ref: "cs_ref".into(),
        },
        AuthSpec::OpHeader {
            header: "x-api-key".into(),
            reference: "op://vault/item/field".into(),
        },
        AuthSpec::OpBearer {
            reference: "op://vault/item/field".into(),
        },
        AuthSpec::OauthPkce {
            client_id: "cid".into(),
            redirect_uri: "http://127.0.0.1/cb".into(),
            scopes: vec!["s".into()],
            auth_url: "https://a".into(),
            token_url: "https://t".into(),
            session_label: Some("lbl".into()),
        },
        AuthSpec::OauthDeviceCode {
            client_id: "cid".into(),
            scopes: vec!["s".into()],
            device_url: "https://d".into(),
            token_url: "https://t".into(),
            session_label: None,
        },
    ];

    for spec in every_variant {
        let val: serde_json::Value = serde_json::from_str(&serialized(&spec)).unwrap();
        let obj = val.as_object().expect("AuthSpec serializes to an object");
        for key in obj.keys() {
            assert!(
                allowed.contains(key.as_str()),
                "AuthSpec {spec:?} serialized an unexpected field `{key}`",
            );
        }
    }
}
