//! Sealing of stored tokens: AES-256 in GCM with a fresh nonce per row.
use aes_gcm::aead::Aead;
use aes_gcm::{Aes256Gcm, KeyInit, Nonce};
use vstd::prelude::*;
use vstd::string::StringSliceAdditionalSpecFns;

use crate::encoding::{standard_decode, standard_decoded, standard_encode};
use crate::random::random_bytes;
use crate::secret::Secret;
use crate::text::{cat, decimal, show_u64, trim, trimmed};

verus! {

/// The environment variable that holds the sealing key.
pub const SEALING_KEY_ENV: &'static str = "LOCKSMITH_OAUTH_SEALING_KEY";

/// The bytes of a nonce.
pub const NONCE_LEN: usize = 12;

/// The bytes of a key.
pub const KEY_LEN: usize = 32;

/// The longest plaintext that can be sealed, in bytes.
pub const PLAINTEXT_MAX: u64 = 0x10_0000_0000;

/// Why a key could not be made, or a text not sealed or opened.
#[derive(Debug)]
pub enum SealingKeyError {
    /// The environment variable is absent or empty.
    EnvVarUnset,
    /// The text of the key is not base64.
    InvalidBase64(String),
    /// The key has not 32 bytes.
    InvalidLength(usize),
    /// The nonce has not 12 bytes.
    InvalidNonce(usize),
    /// The ciphertext was not sealed with this key and nonce.
    Decrypt,
    /// No random bytes could be had.
    NonceGenFailed(String),
}

/// What a [`SealingKeyError`] says.
pub ghost enum SealingFault {
    EnvVarUnset,
    InvalidBase64(Seq<char>),
    InvalidLength(usize),
    InvalidNonce(usize),
    Decrypt,
    NonceGenFailed(Seq<char>),
}

impl View for SealingKeyError {
    type V = SealingFault;

    open spec fn view(&self) -> SealingFault {
        match self {
            SealingKeyError::EnvVarUnset => SealingFault::EnvVarUnset,
            SealingKeyError::InvalidBase64(m) => SealingFault::InvalidBase64(m@),
            SealingKeyError::InvalidLength(n) => SealingFault::InvalidLength(*n),
            SealingKeyError::InvalidNonce(n) => SealingFault::InvalidNonce(*n),
            SealingKeyError::Decrypt => SealingFault::Decrypt,
            SealingKeyError::NonceGenFailed(m) => SealingFault::NonceGenFailed(m@),
        }
    }
}

/// The text of an error.
pub open spec fn sealing_message(e: SealingFault) -> Seq<char> {
    match e {
        SealingFault::EnvVarUnset => "LOCKSMITH_OAUTH_SEALING_KEY env var not set or empty"@,
        SealingFault::InvalidBase64(
            m,
        ) => "LOCKSMITH_OAUTH_SEALING_KEY is not valid base64: "@ + m,
        SealingFault::InvalidLength(
            n,
        ) => "LOCKSMITH_OAUTH_SEALING_KEY must decode to 32 bytes, got "@ + decimal(n as nat),
        SealingFault::InvalidNonce(n) => "OAuth ciphertext nonce must be 12 bytes, got "@
            + decimal(n as nat),
        SealingFault::Decrypt =>
        "OAuth ciphertext failed authentication (wrong key or tampered)"@,
        SealingFault::NonceGenFailed(m) => "failed to generate AES-GCM nonce: "@ + m,
    }
}

impl SealingKeyError {
    /// The text of the error.
    pub fn message(&self) -> (r: String)
        ensures
            r@ == sealing_message(self@),
    {
        match self {
            SealingKeyError::EnvVarUnset => {
                "LOCKSMITH_OAUTH_SEALING_KEY env var not set or empty".to_string()
            },
            SealingKeyError::InvalidBase64(m) => cat(
                "LOCKSMITH_OAUTH_SEALING_KEY is not valid base64: ",
                m.as_str(),
            ),
            SealingKeyError::InvalidLength(n) => cat(
                "LOCKSMITH_OAUTH_SEALING_KEY must decode to 32 bytes, got ",
                show_u64(*n as u64).as_str(),
            ),
            SealingKeyError::InvalidNonce(n) => cat(
                "OAuth ciphertext nonce must be 12 bytes, got ",
                show_u64(*n as u64).as_str(),
            ),
            SealingKeyError::Decrypt => {
                "OAuth ciphertext failed authentication (wrong key or tampered)".to_string()
            },
            SealingKeyError::NonceGenFailed(m) => cat(
                "failed to generate AES-GCM nonce: ",
                m.as_str(),
            ),
        }
    }
}

/// What AES-256-GCM makes of a plaintext: the ciphertext with its tag, or nothing
/// where the plaintext is too long.
pub uninterp spec fn gcm_sealed(key: Seq<u8>, nonce: Seq<u8>, plaintext: Seq<u8>) -> Option<
    Seq<u8>,
>;

/// What AES-256-GCM opens a ciphertext to, or nothing where its tag does not
/// match.
pub uninterp spec fn gcm_opened(key: Seq<u8>, nonce: Seq<u8>, ciphertext: Seq<u8>) -> Option<
    Seq<u8>,
>;

/// Whether sealing gave `r`: the ciphertext is sixteen bytes longer than the
/// plaintext and opens to it again, and there is none only where the plaintext is
/// too long.
pub open spec fn sealed_as(
    key: Seq<u8>,
    nonce: Seq<u8>,
    plaintext: Seq<u8>,
    r: Option<Vec<u8>>,
) -> bool {
    match r {
        Some(ct) => gcm_sealed(key, nonce, plaintext) == Some(ct@) && ct@.len() == plaintext.len()
            + 16 && gcm_opened(key, nonce, ct@) == Some(plaintext) && plaintext.len()
            <= PLAINTEXT_MAX,
        None => gcm_sealed(key, nonce, plaintext) is None && plaintext.len() > PLAINTEXT_MAX,
    }
}

/// `Aead::encrypt` of `Aes256Gcm`, without associated data. What comes out
/// depends on the key, the nonce and the plaintext alone; `Aead::decrypt` with
/// the same key and nonce gives the plaintext back. It fails only on a plaintext
/// of more than 2^36 bytes. The key must have 32 bytes and the nonce 12.
#[verifier::external_body]
fn gcm_seal(key: &[u8], nonce: &[u8], plaintext: &[u8]) -> (r: Option<Vec<u8>>)
    requires
        key@.len() == 32,
        nonce@.len() == 12,
    ensures
        match r {
            Some(ct) => gcm_sealed(key@, nonce@, plaintext@) == Some(ct@) && ct@.len()
                == plaintext@.len() + 16 && gcm_opened(key@, nonce@, ct@) == Some(plaintext@)
                && plaintext@.len() <= PLAINTEXT_MAX,
            None => gcm_sealed(key@, nonce@, plaintext@) is None && plaintext@.len()
                > PLAINTEXT_MAX,
        },
{
    let cipher = Aes256Gcm::new_from_slice(key).ok()?;
    cipher.encrypt(Nonce::from_slice(nonce), plaintext).ok()
}

/// `Aead::decrypt` of `Aes256Gcm`, without associated data. What comes out
/// depends on the key, the nonce and the ciphertext alone. A ciphertext shorter
/// than its tag of sixteen bytes opens to nothing. The key must have 32 bytes and
/// the nonce 12.
#[verifier::external_body]
fn gcm_open(key: &[u8], nonce: &[u8], ciphertext: &[u8]) -> (r: Option<Vec<u8>>)
    requires
        key@.len() == 32,
        nonce@.len() == 12,
    ensures
        match r {
            Some(plain) => gcm_opened(key@, nonce@, ciphertext@) == Some(plain@),
            None => gcm_opened(key@, nonce@, ciphertext@) is None,
        },
        r is Some ==> ciphertext@.len() >= 16,
{
    let cipher = Aes256Gcm::new_from_slice(key).ok()?;
    cipher.decrypt(Nonce::from_slice(nonce), ciphertext).ok()
}

/// A key of 32 bytes.
pub struct SealingKey {
    key: Secret,
}

/// Whether a text is the base64 form of a key.
pub open spec fn key_text(text: Seq<char>) -> bool {
    standard_decoded(text) is Ok && standard_decoded(text)->Ok_0.len() == KEY_LEN
}

impl SealingKey {
    #[verifier::type_invariant]
    spec fn wf(self) -> bool {
        key_text(self.key@)
    }

    /// The bytes of the key.
    pub closed spec fn bytes(self) -> Seq<u8> {
        standard_decoded(self.key@)->Ok_0
    }

    fn of_bytes(bytes: &[u8]) -> (r: SealingKey)
        requires
            bytes@.len() == KEY_LEN,
        ensures
            r.bytes() == bytes@,
    {
        let text = standard_encode(bytes);
        SealingKey { key: Secret::new(text) }
    }

    /// The key from the value of the environment variable. An absent or empty
    /// value is no key.
    pub fn from_env(value: Option<String>) -> (r: Result<SealingKey, SealingKeyError>)
        ensures
            match value {
                None => r == Err::<SealingKey, _>(SealingKeyError::EnvVarUnset),
                Some(raw) => if raw@.len() == 0 {
                    r == Err::<SealingKey, _>(SealingKeyError::EnvVarUnset)
                } else {
                    read_as(raw@, r)
                },
            },
    {
        match value {
            None => Err(SealingKeyError::EnvVarUnset),
            Some(raw) => {
                if crate::text::same(raw.as_str(), "") {
                    proof {
                        reveal_strlit("");
                    }
                    Err(SealingKeyError::EnvVarUnset)
                } else {
                    proof {
                        reveal_strlit("");
                        assert(raw@.len() == 0 ==> raw@ =~= ""@);
                    }
                    SealingKey::from_b64(raw.as_str())
                }
            },
        }
    }

    /// The key from its base64 text, with white space round it taken off.
    pub fn from_b64(b64: &str) -> (r: Result<SealingKey, SealingKeyError>)
        ensures
            read_as(b64@, r),
    {
        let bytes = match standard_decode(trim(b64).as_str()) {
            Ok(b) => b,
            Err(e) => {
                return Err(SealingKeyError::InvalidBase64(e));
            },
        };
        if bytes.len() != KEY_LEN {
            return Err(SealingKeyError::InvalidLength(bytes.len()));
        }
        Ok(SealingKey::of_bytes(bytes.as_slice()))
    }

    /// A fresh random key.
    pub fn generate() -> (r: Result<SealingKey, SealingKeyError>)
        ensures
            match r {
                Ok(k) => k.bytes().len() == KEY_LEN,
                Err(e) => e is NonceGenFailed,
            },
    {
        match random_bytes(KEY_LEN) {
            Ok(bytes) => Ok(SealingKey::of_bytes(bytes.as_slice())),
            Err(e) => Err(SealingKeyError::NonceGenFailed(e)),
        }
    }

    fn raw(&self) -> (r: Vec<u8>)
        ensures
            r@ == self.bytes(),
            r@.len() == KEY_LEN,
    {
        proof {
            use_type_invariant(self);
        }
        match standard_decode(self.key.expose()) {
            Ok(b) => b,
            Err(_) => Vec::new(),
        }
    }

    /// Seals a plaintext with a fresh random nonce and gives the ciphertext and
    /// the nonce. Opening that ciphertext with that nonce gives the plaintext
    /// back.
    pub fn seal(&self, plaintext: &[u8]) -> (r: Result<(Vec<u8>, Vec<u8>), SealingKeyError>)
        ensures
            match r {
                Ok(sealed) => sealed.1@.len() == NONCE_LEN && sealed_as(
                    self.bytes(),
                    sealed.1@,
                    plaintext@,
                    Some(sealed.0),
                ),
                Err(SealingKeyError::NonceGenFailed(_)) => true,
                Err(e) => e == SealingKeyError::Decrypt && plaintext@.len() > PLAINTEXT_MAX,
            },
    {
        match random_bytes(NONCE_LEN) {
            Ok(nonce) => match self.seal_with(plaintext, nonce.as_slice()) {
                Ok(ct) => Ok((ct, nonce)),
                Err(e) => Err(e),
            },
            Err(e) => Err(SealingKeyError::NonceGenFailed(e)),
        }
    }

    /// Seals a plaintext with the given nonce.
    pub fn seal_with(&self, plaintext: &[u8], nonce: &[u8]) -> (r: Result<
        Vec<u8>,
        SealingKeyError,
    >)
        ensures
            nonce@.len() != NONCE_LEN ==> r == Err::<Vec<u8>, _>(
                SealingKeyError::InvalidNonce(nonce@.len() as usize),
            ),
            nonce@.len() == NONCE_LEN ==> match r {
                Ok(ct) => sealed_as(self.bytes(), nonce@, plaintext@, Some(ct)),
                Err(e) => e == SealingKeyError::Decrypt && plaintext@.len() > PLAINTEXT_MAX,
            },
    {
        if nonce.len() != NONCE_LEN {
            return Err(SealingKeyError::InvalidNonce(nonce.len()));
        }
        let key = self.raw();
        match gcm_seal(key.as_slice(), nonce, plaintext) {
            Some(ct) => Ok(ct),
            None => Err(SealingKeyError::Decrypt),
        }
    }

    /// Opens a ciphertext with the nonce that it was sealed with.
    pub fn unseal(&self, ciphertext: &[u8], nonce: &[u8]) -> (r: Result<Vec<u8>, SealingKeyError>)
        ensures
            match r {
                Ok(plain) => unsealed(self.bytes(), ciphertext@, nonce@) == Ok::<
                    Seq<u8>,
                    SealingFault,
                >(plain@),
                Err(e) => unsealed(self.bytes(), ciphertext@, nonce@) == Err::<
                    Seq<u8>,
                    SealingFault,
                >(e@),
            },
            ciphertext@.len() < 16 ==> r is Err,
    {
        if nonce.len() != NONCE_LEN {
            return Err(SealingKeyError::InvalidNonce(nonce.len()));
        }
        let key = self.raw();
        match gcm_open(key.as_slice(), nonce, ciphertext) {
            Some(plain) => Ok(plain),
            None => Err(SealingKeyError::Decrypt),
        }
    }
}

impl Clone for SealingKey {
    fn clone(&self) -> (r: Self)
        ensures
            r.bytes() == self.bytes(),
    {
        proof {
            use_type_invariant(self);
        }
        SealingKey { key: self.key.clone() }
    }
}

/// What opening a ciphertext gives: a nonce must have twelve bytes, and a ciphertext that
/// the cipher does not open is refused.
pub open spec fn unsealed(key: Seq<u8>, ciphertext: Seq<u8>, nonce: Seq<u8>) -> Result<
    Seq<u8>,
    SealingFault,
> {
    if nonce.len() != NONCE_LEN {
        Err(SealingFault::InvalidNonce(nonce.len() as usize))
    } else {
        match gcm_opened(key, nonce, ciphertext) {
            Some(plain) => Ok(plain),
            None => Err(SealingFault::Decrypt),
        }
    }
}

/// Whether `r` is what reading the base64 text of a key gives.
pub open spec fn read_as(b64: Seq<char>, r: Result<SealingKey, SealingKeyError>) -> bool {
    match standard_decoded(trimmed(b64)) {
        Err(m) => r matches Err(SealingKeyError::InvalidBase64(said)) && said@ == m,
        Ok(bytes) => if bytes.len() == KEY_LEN {
            r matches Ok(k) && k.bytes() == bytes
        } else {
            r matches Err(SealingKeyError::InvalidLength(n)) && n == bytes.len()
        },
    }
}

/// What was sealed with a key and a nonce is opened by that key and nonce to the same
/// bytes. Where the cipher does not open it under another key, or does not open another
/// ciphertext, it is refused as not authentic; so is a nonce of another length, as such.
pub proof fn law_sealed_is_opened(
    key: Seq<u8>,
    other_key: Seq<u8>,
    plaintext: Seq<u8>,
    nonce: Seq<u8>,
    ciphertext: Vec<u8>,
    changed: Seq<u8>,
    bad_nonce: Seq<u8>,
)
    requires
        nonce.len() == NONCE_LEN,
        sealed_as(key, nonce, plaintext, Some(ciphertext)),
        bad_nonce.len() != NONCE_LEN,
    ensures
        unsealed(key, ciphertext@, nonce) == Ok::<Seq<u8>, SealingFault>(plaintext),
        gcm_opened(other_key, nonce, ciphertext@) is None ==> unsealed(
            other_key,
            ciphertext@,
            nonce,
        ) == Err::<Seq<u8>, SealingFault>(SealingFault::Decrypt),
        gcm_opened(key, nonce, changed) is None ==> unsealed(key, changed, nonce) == Err::<
            Seq<u8>,
            SealingFault,
        >(SealingFault::Decrypt),
        unsealed(key, changed, bad_nonce) == Err::<Seq<u8>, SealingFault>(
            SealingFault::InvalidNonce(bad_nonce.len() as usize),
        ),
{
}

/// A text is a key exactly if, without the white space around it, it is the base64 form of 32
/// bytes, and the key is those bytes; else the error says what is wrong.
pub proof fn law_keys_have_thirty_two_bytes(
    b64: Seq<char>,
    r: Result<SealingKey, SealingKeyError>,
)
    requires
        read_as(b64, r),
    ensures
        r is Ok <==> standard_decoded(trimmed(b64)) is Ok && standard_decoded(
            trimmed(b64),
        )->Ok_0.len() == 32,
        r is Ok ==> Ok::<Seq<u8>, Seq<char>>(r->Ok_0.bytes()) == standard_decoded(trimmed(b64)),
        r is Err && standard_decoded(trimmed(b64)) is Err ==> r->Err_0@
            == SealingFault::InvalidBase64(standard_decoded(trimmed(b64))->Err_0),
        r is Err && standard_decoded(trimmed(b64)) is Ok ==> (r->Err_0 matches
            SealingKeyError::InvalidLength(n) && n == standard_decoded(trimmed(b64))->Ok_0.len()),
{
}

/// A nonce has twelve bytes: with another, nothing is opened.
pub proof fn law_nonces_have_twelve_bytes(key: Seq<u8>, ciphertext: Seq<u8>, nonce: Seq<u8>)
    ensures
        nonce.len() != 12 ==> unsealed(key, ciphertext, nonce) is Err,
        nonce.len() == 12 ==> (unsealed(key, ciphertext, nonce) is Ok <==> gcm_opened(
            key,
            nonce,
            ciphertext,
        ) is Some),
        unsealed(key, ciphertext, nonce) matches Ok(p) ==> gcm_opened(key, nonce, ciphertext)
            == Some(p),
{
}

/// The messages of errors end in what is known of them: the cause, or the number of bytes
/// that was found.
pub proof fn law_messages_end_in_the_cause(m: Seq<char>, n: usize)
    ensures
        crate::text::ends_in(sealing_message(SealingFault::InvalidBase64(m)), m),
        crate::text::ends_in(sealing_message(SealingFault::NonceGenFailed(m)), m),
        crate::text::ends_in(sealing_message(SealingFault::InvalidLength(n)), decimal(n as nat)),
        crate::text::ends_in(sealing_message(SealingFault::InvalidNonce(n)), decimal(n as nat)),
{
    broadcast use crate::text::lemma_ends_in;

}

} // verus!
