//! Sealed tokens.
use agent_locksmith::oauth::sealing::{SealingKey, SealingKeyError, NONCE_LEN};
use base64::engine::general_purpose::STANDARD;
use base64::Engine;

#[test]
fn seal_unseal_roundtrip() {
    let key = SealingKey::generate().unwrap();
    let plaintext = b"refresh-token-abc-123";
    let (ct, nonce) = key.seal(plaintext).unwrap();
    let recovered = key.unseal(&ct, &nonce).unwrap();
    assert_eq!(recovered, plaintext);
    assert_ne!(ct, plaintext.to_vec());
    assert_eq!(nonce.len(), NONCE_LEN);
}

#[test]
fn seal_produces_unique_ciphertexts() {
    let key = SealingKey::generate().unwrap();
    let plaintext = b"same-plaintext";
    let (ct1, nonce1) = key.seal(plaintext).unwrap();
    let (ct2, nonce2) = key.seal(plaintext).unwrap();
    assert_ne!(ct1, ct2, "fresh nonce should yield distinct ciphertexts");
    assert_ne!(nonce1, nonce2);
}

#[test]
fn unseal_with_wrong_key_fails() {
    let k1 = SealingKey::generate().unwrap();
    let k2 = SealingKey::generate().unwrap();
    let (ct, nonce) = k1.seal(b"secret").unwrap();
    let err = k2.unseal(&ct, &nonce).unwrap_err();
    assert!(matches!(err, SealingKeyError::Decrypt));
}

#[test]
fn unseal_with_tampered_ciphertext_fails() {
    let key = SealingKey::generate().unwrap();
    let (mut ct, nonce) = key.seal(b"secret").unwrap();
    ct[0] ^= 0xff; // flip a bit
    let err = key.unseal(&ct, &nonce).unwrap_err();
    assert!(matches!(err, SealingKeyError::Decrypt));
}

fn refused(r: Result<SealingKey, SealingKeyError>) -> SealingKeyError {
    match r {
        Ok(_) => panic!("a key was read"),
        Err(e) => e,
    }
}

#[test]
fn from_b64_rejects_wrong_length() {
    let too_short = STANDARD.encode([0u8; 16]);
    let err = refused(SealingKey::from_b64(&too_short));
    assert!(matches!(err, SealingKeyError::InvalidLength(16)));
}

#[test]
fn from_b64_rejects_invalid_base64() {
    let err = refused(SealingKey::from_b64("not-valid-base64!!!"));
    assert!(matches!(err, SealingKeyError::InvalidBase64(_)));
}

#[test]
fn unseal_rejects_short_nonce() {
    let key = SealingKey::generate().unwrap();
    let err = key.unseal(b"ciphertext", &[0u8; 8]).unwrap_err();
    assert!(matches!(err, SealingKeyError::InvalidNonce(8)));
}

#[test]
fn a_key_comes_from_the_environment_or_not_at_all() {
    assert!(matches!(
        refused(SealingKey::from_env(None)),
        SealingKeyError::EnvVarUnset
    ));
    let text = STANDARD.encode([7u8; 32]);
    let a = SealingKey::from_env(Some(text.clone())).unwrap();
    let b = SealingKey::from_b64(&text).unwrap();
    let (ct, nonce) = a.seal(b"shared").unwrap();
    assert_eq!(b.unseal(&ct, &nonce).unwrap(), b"shared");
}
