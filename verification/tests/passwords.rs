//! Hashed secrets.
use agent_locksmith::argon2_helper::{hash, hash_salted, verify, HashError};
use agent_locksmith::secret::Secret;

#[test]
fn hash_verify_roundtrip() {
    let s = Secret::new("correct-horse-battery-staple".to_string());
    let h = hash(&s).expect("hash ok");
    assert!(verify(&h, &s).expect("verify ok"));
}

#[test]
fn verify_rejects_wrong_secret() {
    let h = hash(&Secret::new("real".to_string())).expect("hash ok");
    let bad = Secret::new("fake".to_string());
    assert!(!verify(&h, &bad).expect("verify ok"));
}

#[test]
fn hash_includes_argon2id_marker() {
    let h = hash(&Secret::new("x".to_string())).expect("hash ok");
    assert!(h.starts_with("$argon2id$"));
}

#[test]
fn each_hash_uses_unique_salt() {
    let s = Secret::new("same-secret".to_string());
    let a = hash(&s).expect("hash ok");
    let b = hash(&s).expect("hash ok");
    assert_ne!(a, b, "salts must differ between hashes");
    // Both should still verify against the same secret.
    assert!(verify(&a, &s).expect("verify ok"));
    assert!(verify(&b, &s).expect("verify ok"));
}

#[test]
fn a_hash_rests_on_its_secret_and_its_salt() {
    let s = Secret::new("same-secret".to_string());
    let h = hash_salted(&s, &[7; 16]).expect("hash ok");
    assert!(h.starts_with("$argon2id$v=19$m=4096,t=3,p=1$BwcHBwcHBwcHBwcHBwcHBw$"));
    assert_eq!(hash_salted(&s, &[7; 16]).expect("hash ok"), h);
    assert_ne!(hash_salted(&s, &[8; 16]).expect("hash ok"), h);
    assert!(verify(&h, &s).expect("verify ok"));
    let empty = Secret::new(String::new());
    assert!(hash_salted(&empty, &[7; 16]).is_ok());
}

#[test]
fn malformed_hashes_are_errors() {
    let s = Secret::new("x".to_string());
    assert!(matches!(verify("no hash at all", &s), Err(HashError::Hash(_))));
    let h = hash(&s).expect("hash ok");
    for lanes in ["p=536870912", "p=4294967295"] {
        let many = h.replace("p=1", lanes);
        assert!(matches!(verify(&many, &s), Err(HashError::Verify(_))));
    }
    // What cannot be read is an error of the hash, whatever it asks for.
    let torn = format!("{}$", h.replace("p=1", "p=536870912"));
    assert!(matches!(verify(&torn, &s), Err(HashError::Hash(_))));
    let unread = "no hash,p=536870912";
    match (verify(unread, &s), verify("no hash", &s)) {
        (Err(HashError::Hash(a)), Err(HashError::Hash(b))) => assert_eq!(a, b),
        _ => panic!("no PHC string"),
    }
    // A string without a salt stands for no secret.
    assert!(!verify("$argon2id$v=19$m=4096,t=3,p=536870912", &s).expect("verify ok"));
    assert!(!verify("$argon2id$v=19$m=4096,t=3,p=1", &s).expect("verify ok"));
    // The last number of lanes counts.
    assert!(verify(&h.replace("p=1", "p=536870912,p=1"), &s).expect("verify ok"));
    for lanes in ["p=100000000", "p=4294967296", "p=0536870912", "p=0"] {
        assert!(matches!(verify(&h.replace("p=1", lanes), &s), Err(HashError::Verify(_))));
    }
    let eight = h.replace("p=1", "p=99999999");
    assert!(matches!(verify(&eight, &s), Err(HashError::Verify(_))));
}

#[test]
fn secrets_do_not_show_themselves() {
    let s = Secret::new("hush".to_string());
    assert_eq!(s.expose(), "hush");
    assert!(!format!("{s:?}").contains("hush"));
}
