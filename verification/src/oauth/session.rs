//! Sessions with OAuth providers: the tokens in the clear while they are used,
//! and sealed where they are kept.
use sha2::{Digest, Sha256};
use vstd::prelude::*;
use vstd::string::StringSliceAdditionalSpecFns;
use vstd::utf8::{decode_utf8, encode_utf8, valid_utf8};

use crate::encoding::{hex, to_hex};
use crate::mtls::copy_bytes;
use crate::oauth::jwt::{account_of, extract_chatgpt_account_id};
use crate::oauth::sealing::{
    gcm_opened, gcm_sealed, sealing_message, SealingFault, SealingKey, SealingKeyError, NONCE_LEN,
    PLAINTEXT_MAX,
};
use crate::random::random_bytes;
use crate::secret::Secret;
use crate::text::{cat, cat3, copy_opt, decimal_int, joined, opt_text, read_utf8, show_i64};

verus! {

/// The label of a session that was given none.
pub const DEFAULT_SESSION_LABEL: &'static str = "default";

/// The SHA-256 digest of bytes.
pub uninterp spec fn sha256(bytes: Seq<u8>) -> Seq<u8>;

/// `Sha256::digest`: the digest, 32 bytes, which depends on the bytes alone.
#[verifier::external_body]
fn digest(bytes: &[u8]) -> (r: Vec<u8>)
    ensures
        r@ == sha256(bytes@),
        r@.len() == 32,
{
    Sha256::digest(bytes).to_vec()
}

/// A session with its tokens in the clear.
#[derive(Debug)]
pub struct OauthSession {
    pub name: String,
    pub session_label: String,
    pub refresh_token: Secret,
    pub access_token: Option<Secret>,
    /// When the access token ends; none until the first exchange of tokens.
    pub access_token_expires_at: Option<i64>,
    pub scope: String,
    /// The last exchange of tokens failed.
    pub degraded: bool,
    pub created_at: i64,
    pub updated_at: i64,
    /// The account that the access token names.
    pub account_id: Option<String>,
}

/// What an [`OauthSession`] says.
#[verifier::ext_equal]
pub ghost struct SessionView {
    pub name: Seq<char>,
    pub session_label: Seq<char>,
    pub refresh_token: Seq<char>,
    pub access_token: Option<Seq<char>>,
    pub access_token_expires_at: Option<i64>,
    pub scope: Seq<char>,
    pub degraded: bool,
    pub created_at: i64,
    pub updated_at: i64,
    pub account_id: Option<Seq<char>>,
}

/// The view of an optional secret.
pub open spec fn opt_secret(s: Option<Secret>) -> Option<Seq<char>> {
    match s {
        Some(x) => Some(x@),
        None => None,
    }
}

impl View for OauthSession {
    type V = SessionView;

    open spec fn view(&self) -> SessionView {
        SessionView {
            name: self.name@,
            session_label: self.session_label@,
            refresh_token: self.refresh_token@,
            access_token: opt_secret(self.access_token),
            access_token_expires_at: self.access_token_expires_at,
            scope: self.scope@,
            degraded: self.degraded,
            created_at: self.created_at,
            updated_at: self.updated_at,
            account_id: opt_text(self.account_id),
        }
    }
}

/// By what a session is recorded: sixteen hexadecimal digits of a digest of its
/// name, its label and the time that it was made.
pub open spec fn session_id(name: Seq<char>, label: Seq<char>, created_at: i64) -> Seq<char> {
    hex(
        sha256(
            encode_utf8(name + ":"@ + label + ":"@ + decimal_int(created_at as int)),
        ).take(8),
    )
}

impl OauthSession {
    /// By what the session is recorded. No token goes into it.
    pub fn audit_session_id(&self) -> (r: String)
        ensures
            r@ == session_id(self.name@, self.session_label@, self.created_at),
            r@.len() == 16,
    {
        let head = cat3(self.name.as_str(), ":", self.session_label.as_str());
        let made = show_i64(self.created_at);
        let text = cat3(head.as_str(), ":", made.as_str());
        let sum = digest(text.as_str().as_bytes());
        let mut first: Vec<u8> = Vec::new();
        let mut i: usize = 0;
        while i < 8
            invariant
                i <= 8,
                sum@.len() == 32,
                first@ == sum@.take(i as int),
            decreases 8 - i,
        {
            first.push(sum[i]);
            i = i + 1;
            assert(sum@.take(i as int) =~= sum@.take(i - 1).push(sum@[i - 1]));
        }
        proof {
            crate::encoding::lemma_hex(first@);
        }
        to_hex(first.as_slice())
    }
}

/// What is recorded of a session does not change when its tokens do.
pub proof fn law_session_id_rests_on_no_token(a: SessionView, b: SessionView)
    requires
        a.name == b.name,
        a.session_label == b.session_label,
        a.created_at == b.created_at,
    ensures
        session_id(a.name, a.session_label, a.created_at) == session_id(
            b.name,
            b.session_label,
            b.created_at,
        ),
{
}

/// Why a session could not be kept or read.
#[derive(Debug)]
pub enum OauthSessionError {
    /// A token could not be sealed or opened.
    Sealing(SealingKeyError),
    /// The store refused.
    Database(String),
    /// What is kept is not what a session can be.
    Invariant(&'static str),
}

/// What an [`OauthSessionError`] says.
pub ghost enum SessionFault {
    Sealing(SealingFault),
    Database(Seq<char>),
    Invariant(Seq<char>),
}

impl View for OauthSessionError {
    type V = SessionFault;

    open spec fn view(&self) -> SessionFault {
        match self {
            OauthSessionError::Sealing(e) => SessionFault::Sealing(e@),
            OauthSessionError::Database(m) => SessionFault::Database(m@),
            OauthSessionError::Invariant(m) => SessionFault::Invariant(m@),
        }
    }
}

/// The text of an error.
pub open spec fn session_message(e: SessionFault) -> Seq<char> {
    match e {
        SessionFault::Sealing(s) => "sealing: "@ + sealing_message(s),
        SessionFault::Database(m) => "database: "@ + m,
        SessionFault::Invariant(m) => "invariant violation: "@ + m,
    }
}

impl OauthSessionError {
    /// The text of the error.
    pub fn message(&self) -> (r: String)
        ensures
            r@ == session_message(self@),
    {
        match self {
            OauthSessionError::Sealing(e) => cat("sealing: ", e.message().as_str()),
            OauthSessionError::Database(m) => cat("database: ", m.as_str()),
            OauthSessionError::Invariant(m) => cat("invariant violation: ", m),
        }
    }
}

/// A session as it is kept.
#[derive(Debug)]
pub struct SealedSession {
    pub name: String,
    pub session_label: String,
    pub refresh_ciphertext: Vec<u8>,
    pub refresh_nonce: Vec<u8>,
    pub access_ciphertext: Option<Vec<u8>>,
    pub access_nonce: Option<Vec<u8>>,
    pub access_token_expires_at: Option<i64>,
    pub scope: String,
    pub degraded: bool,
    pub created_at: i64,
    pub updated_at: i64,
    pub account_id: Option<String>,
}

/// What a [`SealedSession`] says.
#[verifier::ext_equal]
pub ghost struct SealedView {
    pub name: Seq<char>,
    pub session_label: Seq<char>,
    pub refresh_ciphertext: Seq<u8>,
    pub refresh_nonce: Seq<u8>,
    pub access_ciphertext: Option<Seq<u8>>,
    pub access_nonce: Option<Seq<u8>>,
    pub access_token_expires_at: Option<i64>,
    pub scope: Seq<char>,
    pub degraded: bool,
    pub created_at: i64,
    pub updated_at: i64,
    pub account_id: Option<Seq<char>>,
}

/// The view of optional bytes.
pub open spec fn opt_bytes(b: Option<Vec<u8>>) -> Option<Seq<u8>> {
    match b {
        Some(x) => Some(x@),
        None => None,
    }
}

impl View for SealedSession {
    type V = SealedView;

    open spec fn view(&self) -> SealedView {
        SealedView {
            name: self.name@,
            session_label: self.session_label@,
            refresh_ciphertext: self.refresh_ciphertext@,
            refresh_nonce: self.refresh_nonce@,
            access_ciphertext: opt_bytes(self.access_ciphertext),
            access_nonce: opt_bytes(self.access_nonce),
            access_token_expires_at: self.access_token_expires_at,
            scope: self.scope@,
            degraded: self.degraded,
            created_at: self.created_at,
            updated_at: self.updated_at,
            account_id: opt_text(self.account_id),
        }
    }
}

fn copy_opt_bytes(b: &Option<Vec<u8>>) -> (r: Option<Vec<u8>>)
    ensures
        opt_bytes(r) == opt_bytes(*b),
{
    match b {
        Some(x) => Some(copy_bytes(x.as_slice())),
        None => None,
    }
}

impl SealedSession {
    /// A copy of the row.
    pub fn copy(&self) -> (r: SealedSession)
        ensures
            r@ == self@,
    {
        SealedSession {
            name: self.name.clone(),
            session_label: self.session_label.clone(),
            refresh_ciphertext: copy_bytes(self.refresh_ciphertext.as_slice()),
            refresh_nonce: copy_bytes(self.refresh_nonce.as_slice()),
            access_ciphertext: copy_opt_bytes(&self.access_ciphertext),
            access_nonce: copy_opt_bytes(&self.access_nonce),
            access_token_expires_at: self.access_token_expires_at,
            scope: self.scope.clone(),
            degraded: self.degraded,
            created_at: self.created_at,
            updated_at: self.updated_at,
            account_id: copy_opt(&self.account_id),
        }
    }
}

/// What a sealed token opens to, or what is wrong with it. `what` is said of a
/// token that is no text.
pub open spec fn token_in(key: Seq<u8>, ciphertext: Seq<u8>, nonce: Seq<u8>, what: Seq<char>) -> Result<
    Seq<char>,
    SessionFault,
> {
    if nonce.len() != NONCE_LEN {
        Err(SessionFault::Sealing(SealingFault::InvalidNonce(nonce.len() as usize)))
    } else {
        match gcm_opened(key, nonce, ciphertext) {
            None => Err(SessionFault::Sealing(SealingFault::Decrypt)),
            Some(plain) => if valid_utf8(plain) {
                Ok(decode_utf8(plain))
            } else {
                Err(SessionFault::Invariant(what))
            },
        }
    }
}

/// Whether a token was sealed as a ciphertext and a nonce.
pub open spec fn token_sealed(key: Seq<u8>, token: Seq<char>, ct: Seq<u8>, nonce: Seq<u8>) -> bool {
    &&& nonce.len() == NONCE_LEN
    &&& gcm_sealed(key, nonce, encode_utf8(token)) == Some(ct)
    &&& gcm_opened(key, nonce, ct) == Some(encode_utf8(token))
}

fn open_token(key: &SealingKey, ciphertext: &Vec<u8>, nonce: &Vec<u8>, what: &'static str) -> (r:
    Result<Secret, OauthSessionError>)
    ensures
        match r {
            Ok(s) => token_in(key.bytes(), ciphertext@, nonce@, what@) == Ok::<
                Seq<char>,
                SessionFault,
            >(s@),
            Err(e) => token_in(key.bytes(), ciphertext@, nonce@, what@) == Err::<
                Seq<char>,
                SessionFault,
            >(e@),
        },
{
    match key.unseal(ciphertext.as_slice(), nonce.as_slice()) {
        Ok(plain) => match read_utf8(plain) {
            Some(text) => Ok(Secret::new(text)),
            None => Err(OauthSessionError::Invariant(what)),
        },
        Err(e) => Err(OauthSessionError::Sealing(e)),
    }
}

/// Whether a token is short enough to be sealed.
pub open spec fn sealable(token: Seq<char>) -> bool {
    encode_utf8(token).len() <= PLAINTEXT_MAX
}

/// Whether a token that may be absent is short enough to be sealed.
pub open spec fn opt_sealable(token: Option<Seq<char>>) -> bool {
    token is Some ==> sealable(token->Some_0)
}

/// The error of a token that is too long to be sealed.
pub open spec fn too_long() -> SessionFault {
    SessionFault::Sealing(SealingFault::Decrypt)
}

/// Whether an error says that no random bytes could be had for a nonce.
pub open spec fn no_nonce(e: SessionFault) -> bool {
    e matches SessionFault::Sealing(s) && s is NonceGenFailed
}

fn seal_token(key: &SealingKey, token: &str, nonce: &[u8]) -> (r: Result<
    Vec<u8>,
    OauthSessionError,
>)
    requires
        nonce@.len() == NONCE_LEN,
    ensures
        r is Ok <==> sealable(token@),
        match r {
            Ok(ct) => token_sealed(key.bytes(), token@, ct@, nonce@),
            Err(e) => e@ == too_long(),
        },
{
    match key.seal_with(token.as_bytes(), nonce) {
        Ok(ct) => Ok(ct),
        Err(e) => Err(OauthSessionError::Sealing(e)),
    }
}

/// A nonce for a token, as far as there is one to be sealed.
pub fn draw_nonce(wanted: bool) -> (r: Result<Vec<u8>, OauthSessionError>)
    ensures
        match r {
            Ok(nonce) => nonce@.len() == if wanted {
                NONCE_LEN as nat
            } else {
                0
            },
            Err(e) => wanted && no_nonce(e@),
        },
{
    if !wanted {
        return Ok(Vec::new());
    }
    match random_bytes(NONCE_LEN) {
        Ok(nonce) => Ok(nonce),
        Err(e) => Err(OauthSessionError::Sealing(SealingKeyError::NonceGenFailed(e))),
    }
}

/// What is said of a refresh token that is no text.
pub open spec fn refresh_not_text() -> Seq<char> {
    "refresh-token plaintext is not UTF-8"@
}

/// What is said of an access token that is no text.
pub open spec fn access_not_text() -> Seq<char> {
    "access-token plaintext is not UTF-8"@
}

/// The access token of a row.
pub open spec fn access_in(key: Seq<u8>, row: SealedView) -> Result<
    Option<Seq<char>>,
    SessionFault,
> {
    match (row.access_ciphertext, row.access_nonce) {
        (Some(ct), Some(nonce)) => match token_in(key, ct, nonce, access_not_text()) {
            Ok(t) => Ok(Some(t)),
            Err(e) => Err(e),
        },
        (None, None) => Ok(None),
        _ => Err(
            SessionFault::Invariant("access_token_ciphertext / access_token_nonce out of sync"@),
        ),
    }
}

/// The session that a row holds, opened with a key.
pub open spec fn session_of(key: Seq<u8>, row: SealedView) -> Result<SessionView, SessionFault> {
    match token_in(key, row.refresh_ciphertext, row.refresh_nonce, refresh_not_text()) {
        Err(e) => Err(e),
        Ok(refresh_token) => match access_in(key, row) {
            Err(e) => Err(e),
            Ok(access_token) => Ok(
                SessionView {
                    name: row.name,
                    session_label: row.session_label,
                    refresh_token,
                    access_token,
                    access_token_expires_at: row.access_token_expires_at,
                    scope: row.scope,
                    degraded: row.degraded,
                    created_at: row.created_at,
                    updated_at: row.updated_at,
                    account_id: row.account_id,
                },
            ),
        },
    }
}

/// The view of what opening a row gave.
pub open spec fn session_result(r: Result<OauthSession, OauthSessionError>) -> Result<
    SessionView,
    SessionFault,
> {
    match r {
        Ok(s) => Ok(s@),
        Err(e) => Err(e@),
    }
}

/// Opens a row.
pub fn unseal_session(key: &SealingKey, row: &SealedSession) -> (r: Result<
    OauthSession,
    OauthSessionError,
>)
    ensures
        session_result(r) == session_of(key.bytes(), row@),
{
    let refresh_token = match open_token(
        key,
        &row.refresh_ciphertext,
        &row.refresh_nonce,
        "refresh-token plaintext is not UTF-8",
    ) {
        Ok(t) => t,
        Err(e) => {
            return Err(e);
        },
    };
    let access_token = match (&row.access_ciphertext, &row.access_nonce) {
        (Some(ct), Some(nonce)) => match open_token(
            key,
            ct,
            nonce,
            "access-token plaintext is not UTF-8",
        ) {
            Ok(t) => Some(t),
            Err(e) => {
                return Err(e);
            },
        },
        (None, None) => None,
        _ => {
            return Err(
                OauthSessionError::Invariant(
                    "access_token_ciphertext / access_token_nonce out of sync",
                ),
            );
        },
    };
    Ok(
        OauthSession {
            name: row.name.clone(),
            session_label: row.session_label.clone(),
            refresh_token,
            access_token,
            access_token_expires_at: row.access_token_expires_at,
            scope: row.scope.clone(),
            degraded: row.degraded,
            created_at: row.created_at,
            updated_at: row.updated_at,
            account_id: copy_opt(&row.account_id),
        },
    )
}

/// A fresh session. The account is the one that the access token names.
pub open spec fn new_session(
    name: Seq<char>,
    label: Seq<char>,
    refresh_token: Seq<char>,
    access_token: Option<Seq<char>>,
    expires_at: Option<i64>,
    scope: Seq<char>,
    now: i64,
) -> SessionView {
    SessionView {
        name,
        session_label: label,
        refresh_token,
        access_token,
        access_token_expires_at: expires_at,
        scope,
        degraded: false,
        created_at: now,
        updated_at: now,
        account_id: match access_token {
            Some(t) => account_of(t),
            None => None,
        },
    }
}

/// The view of an optional token.
pub open spec fn opt_str(s: Option<&str>) -> Option<Seq<char>> {
    match s {
        Some(x) => Some(x@),
        None => None,
    }
}

/// Seals a fresh session with the given nonces: the row that is kept, and the
/// session. Opening the row with the same key gives the session. Only a token that is
/// too long cannot be sealed.
pub fn seal_session_with(
    key: &SealingKey,
    name: &str,
    label: &str,
    refresh_token: &str,
    access_token: Option<&str>,
    expires_at: Option<i64>,
    scope: &str,
    refresh_nonce: &[u8],
    access_nonce: &[u8],
    now: i64,
) -> (r: Result<(SealedSession, OauthSession), OauthSessionError>)
    requires
        refresh_nonce@.len() == NONCE_LEN,
        access_token is Some ==> access_nonce@.len() == NONCE_LEN,
    ensures
        r is Ok <==> sealable(refresh_token@) && opt_sealable(opt_str(access_token)),
        match r {
            Ok(s) => s.1@ == new_session(
                name@,
                label@,
                refresh_token@,
                opt_str(access_token),
                expires_at,
                scope@,
                now,
            ) && sealed_row(key.bytes(), s.1@, refresh_nonce@, access_nonce@, s.0@),
            Err(e) => e@ == too_long(),
        },
{
    broadcast use vstd::utf8::group_utf8_lib;

    let refresh_ciphertext = match seal_token(key, refresh_token, refresh_nonce) {
        Ok(ct) => ct,
        Err(e) => {
            return Err(e);
        },
    };
    let (access_ciphertext, kept_nonce) = match access_token {
        Some(t) => match seal_token(key, t, access_nonce) {
            Ok(ct) => (Some(ct), Some(copy_bytes(access_nonce))),
            Err(e) => {
                return Err(e);
            },
        },
        None => (None, None),
    };
    let account_id = match access_token {
        Some(t) => extract_chatgpt_account_id(t),
        None => None,
    };
    let row = SealedSession {
        name: name.to_string(),
        session_label: label.to_string(),
        refresh_ciphertext,
        refresh_nonce: copy_bytes(refresh_nonce),
        access_ciphertext,
        access_nonce: kept_nonce,
        access_token_expires_at: expires_at,
        scope: scope.to_string(),
        degraded: false,
        created_at: now,
        updated_at: now,
        account_id: copy_opt(&account_id),
    };
    let session = OauthSession {
        name: name.to_string(),
        session_label: label.to_string(),
        refresh_token: Secret::new(refresh_token.to_string()),
        access_token: match access_token {
            Some(t) => Some(Secret::new(t.to_string())),
            None => None,
        },
        access_token_expires_at: expires_at,
        scope: scope.to_string(),
        degraded: false,
        created_at: now,
        updated_at: now,
        account_id,
    };
    Ok((row, session))
}

/// Whether `row` is the session `s`, sealed with the given nonces.
pub open spec fn sealed_row(
    key: Seq<u8>,
    s: SessionView,
    refresh_nonce: Seq<u8>,
    access_nonce: Seq<u8>,
    row: SealedView,
) -> bool {
    &&& row == (SealedView {
        name: s.name,
        session_label: s.session_label,
        refresh_ciphertext: row.refresh_ciphertext,
        refresh_nonce,
        access_ciphertext: row.access_ciphertext,
        access_nonce: if s.access_token is Some {
            Some(access_nonce)
        } else {
            None
        },
        access_token_expires_at: s.access_token_expires_at,
        scope: s.scope,
        degraded: s.degraded,
        created_at: s.created_at,
        updated_at: s.updated_at,
        account_id: s.account_id,
    })
    &&& token_sealed(key, s.refresh_token, row.refresh_ciphertext, refresh_nonce)
    &&& match s.access_token {
        Some(t) => row.access_ciphertext is Some && token_sealed(
            key,
            t,
            row.access_ciphertext->Some_0,
            access_nonce,
        ),
        None => row.access_ciphertext is None,
    }
}

/// A sealed session is opened by its key to what it was.
pub proof fn law_sealed_session_is_read_back(
    key: Seq<u8>,
    s: SessionView,
    refresh_nonce: Seq<u8>,
    access_nonce: Seq<u8>,
    row: SealedView,
)
    requires
        sealed_row(key, s, refresh_nonce, access_nonce, row),
    ensures
        session_of(key, row) == Ok::<SessionView, SessionFault>(s),
{
    broadcast use vstd::utf8::group_utf8_lib;

}

/// A session after new tokens came: the refresh token changes only where a new
/// one came, and the session is in order again.
pub open spec fn renewed_session(
    s: SessionView,
    access_token: Seq<char>,
    expires_at: i64,
    refresh_token: Option<Seq<char>>,
    now: i64,
) -> SessionView {
    SessionView {
        access_token: Some(access_token),
        access_token_expires_at: Some(expires_at),
        refresh_token: match refresh_token {
            Some(t) => t,
            None => s.refresh_token,
        },
        account_id: account_of(access_token),
        degraded: false,
        updated_at: now,
        ..s
    }
}

/// Whether `n` is the row `row` after new tokens came.
pub open spec fn renewed_row(
    key: Seq<u8>,
    row: SealedView,
    n: SealedView,
    access_token: Seq<char>,
    expires_at: i64,
    refresh_token: Option<Seq<char>>,
    now: i64,
) -> bool {
    &&& n == (SealedView {
        access_ciphertext: n.access_ciphertext,
        access_nonce: n.access_nonce,
        refresh_ciphertext: n.refresh_ciphertext,
        refresh_nonce: n.refresh_nonce,
        access_token_expires_at: Some(expires_at),
        account_id: account_of(access_token),
        degraded: false,
        updated_at: now,
        ..row
    })
    &&& n.access_ciphertext is Some && n.access_nonce is Some
    &&& token_sealed(key, access_token, n.access_ciphertext->Some_0, n.access_nonce->Some_0)
    &&& match refresh_token {
        Some(t) => token_sealed(key, t, n.refresh_ciphertext, n.refresh_nonce),
        None => n.refresh_ciphertext == row.refresh_ciphertext && n.refresh_nonce
            == row.refresh_nonce,
    }
}

/// The row with new tokens, which are given as they were sealed.
pub fn renew_row_with(
    row: SealedSession,
    access: (Vec<u8>, Vec<u8>),
    refresh: Option<(Vec<u8>, Vec<u8>)>,
    account_id: Option<String>,
    expires_at: i64,
    now: i64,
) -> (r: SealedSession)
    ensures
        r@ == (SealedView {
            access_ciphertext: Some(access.0@),
            access_nonce: Some(access.1@),
            refresh_ciphertext: match refresh {
                Some(s) => s.0@,
                None => row@.refresh_ciphertext,
            },
            refresh_nonce: match refresh {
                Some(s) => s.1@,
                None => row@.refresh_nonce,
            },
            access_token_expires_at: Some(expires_at),
            account_id: opt_text(account_id),
            degraded: false,
            updated_at: now,
            ..row@
        }),
{
    let (refresh_ciphertext, refresh_nonce) = match refresh {
        Some(s) => s,
        None => (row.refresh_ciphertext, row.refresh_nonce),
    };
    SealedSession {
        name: row.name,
        session_label: row.session_label,
        refresh_ciphertext,
        refresh_nonce,
        access_ciphertext: Some(access.0),
        access_nonce: Some(access.1),
        access_token_expires_at: Some(expires_at),
        scope: row.scope,
        degraded: false,
        created_at: row.created_at,
        updated_at: now,
        account_id,
    }
}

/// The row with new tokens, sealed with the given nonces. Only a token that is too
/// long cannot be sealed.
pub fn renew_row(
    key: &SealingKey,
    row: SealedSession,
    access_token: &str,
    expires_at: i64,
    refresh_token: Option<&str>,
    access_nonce: &[u8],
    refresh_nonce: &[u8],
    now: i64,
) -> (r: Result<SealedSession, OauthSessionError>)
    requires
        access_nonce@.len() == NONCE_LEN,
        refresh_token is Some ==> refresh_nonce@.len() == NONCE_LEN,
    ensures
        r is Ok <==> sealable(access_token@) && opt_sealable(opt_str(refresh_token)),
        match r {
            Ok(n) => renewed_row(
                key.bytes(),
                row@,
                n@,
                access_token@,
                expires_at,
                opt_str(refresh_token),
                now,
            ) && n@.access_nonce == Some(access_nonce@) && (refresh_token is Some
                ==> n@.refresh_nonce == refresh_nonce@),
            Err(e) => e@ == too_long(),
        },
{
    let access_ct = match seal_token(key, access_token, access_nonce) {
        Ok(ct) => ct,
        Err(e) => {
            return Err(e);
        },
    };
    let refresh = match refresh_token {
        Some(t) => match seal_token(key, t, refresh_nonce) {
            Ok(ct) => Some((ct, copy_bytes(refresh_nonce))),
            Err(e) => {
                return Err(e);
            },
        },
        None => None,
    };
    let account_id = extract_chatgpt_account_id(access_token);
    let access = (access_ct, copy_bytes(access_nonce));
    Ok(renew_row_with(row, access, refresh, account_id, expires_at, now))
}

/// What is read of a renewed row is the session with the new tokens: the access
/// token is the new one, the refresh token the new one or else the old one, and
/// the session is in order again.
pub proof fn law_renewed_session_is_read_back(
    key: Seq<u8>,
    row: SealedView,
    n: SealedView,
    access_token: Seq<char>,
    expires_at: i64,
    refresh_token: Option<Seq<char>>,
    now: i64,
)
    requires
        session_of(key, row) is Ok,
        renewed_row(key, row, n, access_token, expires_at, refresh_token, now),
    ensures
        session_of(key, n) == Ok::<SessionView, SessionFault>(
            renewed_session(
                session_of(key, row)->Ok_0,
                access_token,
                expires_at,
                refresh_token,
                now,
            ),
        ),
{
    broadcast use vstd::utf8::group_utf8_lib;

}

/// A session that is started has the given name, label, tokens and scope, is in order, and
/// was made and changed now; its account is the one that its access token names.
pub proof fn law_new_session_is_as_given(
    name: Seq<char>,
    label: Seq<char>,
    refresh_token: Seq<char>,
    access_token: Option<Seq<char>>,
    expires_at: Option<i64>,
    scope: Seq<char>,
    now: i64,
)
    ensures
        ({
            let s = new_session(name, label, refresh_token, access_token, expires_at, scope, now);
            &&& s.name == name && s.session_label == label && s.scope == scope
            &&& s.refresh_token == refresh_token && s.access_token == access_token
            &&& s.access_token_expires_at == expires_at && !s.degraded
            &&& s.created_at == now && s.updated_at == now
            &&& access_token is None ==> s.account_id is None
            &&& access_token matches Some(t) ==> s.account_id == account_of(t)
        }),
{
}

/// Renewing a session replaces its access token and when it ends, and its refresh token
/// where a new one came; the session is in order again, and changed now. Its name, label,
/// scope and when it was made stay.
pub proof fn law_renewal_replaces_the_tokens_only(
    s: SessionView,
    access_token: Seq<char>,
    expires_at: i64,
    refresh_token: Option<Seq<char>>,
    now: i64,
)
    ensures
        ({
            let r = renewed_session(s, access_token, expires_at, refresh_token, now);
            &&& r.access_token == Some(access_token)
            &&& r.access_token_expires_at == Some(expires_at)
            &&& refresh_token matches Some(t) ==> r.refresh_token == t
            &&& refresh_token is None ==> r.refresh_token == s.refresh_token
            &&& !r.degraded && r.updated_at == now && r.account_id == account_of(access_token)
            &&& r.name == s.name && r.session_label == s.session_label && r.scope == s.scope
            &&& r.created_at == s.created_at
        }),
{
}

/// A session that was opened says what its row says, and its tokens are what the cipher
/// opens. A token that is not a text, or half of one, is not given out.
pub proof fn law_opened_session_says_what_its_row_says(
    key: Seq<u8>,
    row: SealedSession,
    s: OauthSession,
)
    requires
        session_of(key, row@) == Ok::<SessionView, SessionFault>(s@),
    ensures
        s.name@ == row.name@,
        s.session_label@ == row.session_label@,
        s.access_token_expires_at == row.access_token_expires_at,
        s.scope@ == row.scope@,
        s.degraded == row.degraded,
        s.created_at == row.created_at,
        s.updated_at == row.updated_at,
        opt_text(s.account_id) == opt_text(row.account_id),
        gcm_opened(key, row.refresh_nonce@, row.refresh_ciphertext@) matches Some(plain)
            && valid_utf8(plain) && s.refresh_token@ == decode_utf8(plain),
        s.access_token is Some <==> row.access_ciphertext is Some,
        s.access_token is Some <==> row.access_nonce is Some,
        s.access_token matches Some(t) ==> (gcm_opened(
            key,
            row.access_nonce->Some_0@,
            row.access_ciphertext->Some_0@,
        ) matches Some(plain) && t@ == decode_utf8(plain)),
{
}

/// The id by which a session is recorded is that of its name, label and time of making,
/// with a colon between each two.
pub proof fn law_session_ids_are_made_of_name_label_and_time(
    name: Seq<char>,
    label: Seq<char>,
    created_at: i64,
)
    requires
        created_at >= 0,
    ensures
        session_id(name, label, created_at) == hex(
            sha256(
                encode_utf8(
                    joined(seq![name, label, decimal_int(created_at as int)], ":"@),
                ),
            ).subrange(0, 8),
        ),
{
    let parts = seq![name, label, decimal_int(created_at as int)];
    assert(parts.drop_last() =~= seq![name, label]);
    assert(seq![name, label].drop_last() =~= seq![name]);
    assert(joined(seq![name], ":"@) == name);
    assert(joined(seq![name, label], ":"@) == name + ":"@ + label);
    assert(joined(parts, ":"@) =~= name + ":"@ + label + ":"@ + decimal_int(created_at as int));
}

/// The message of an error ends in its cause.
pub proof fn law_messages_end_in_the_cause(s: SealingFault, m: Seq<char>)
    ensures
        crate::text::ends_in(session_message(SessionFault::Sealing(s)), sealing_message(s)),
        crate::text::ends_in(session_message(SessionFault::Database(m)), m),
        crate::text::ends_in(session_message(SessionFault::Invariant(m)), m),
{
    broadcast use crate::text::lemma_ends_in;

}

/// What may be absent is there exactly if it is, and is then what it says.
pub proof fn law_absent_is_absent(s: Secret, b: Vec<u8>, t: &str)
    ensures
        opt_secret(Some(s)) == Some(s@),
        opt_secret(None) is None,
        opt_bytes(Some(b)) == Some(b@),
        opt_bytes(None) is None,
        opt_str(Some(t)) == Some(t@),
        opt_str(None) is None,
{
}

/// A token of up to 2^36 bytes can be sealed, and so can none at all.
pub proof fn law_what_tokens_can_be_sealed(token: Seq<char>)
    ensures
        sealable(token) <==> encode_utf8(token).len() <= 68_719_476_736,
        opt_sealable(Some(token)) <==> sealable(token),
        opt_sealable(None),
{
}

} // verus!
