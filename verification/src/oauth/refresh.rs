//! New access tokens for sessions, before the old ones end.
//!
//! A failed exchange marks the session as degraded and is not tried again: an
//! operator has to start the session anew.
use vstd::prelude::*;

use crate::oauth::sealing::{SealingKey, NONCE_LEN};
use crate::oauth::session::{
    no_nonce, opt_sealable, opt_str, renewed_row, renewed_session, sealable, session_message,
    session_of, too_long, OauthSession, OauthSessionError, SealedView, SessionFault, SessionView,
};
use crate::oauth::store::{degraded_in, pending, OauthSessionRepository, SessionKey};
use crate::registrations::auth_spec::AuthView;
use crate::registrations::repo::RegistrationView;
use crate::registrations::table::row_at;
use crate::registrations::{AuthSpec, Catalog};
use crate::secret::Secret;
use crate::text::{cat, cat3, cat4, decimal, opt_text, pair_views, same, show_u64, string_of};

verus! {

/// How many seconds before its end a token is renewed at most.
pub const DEFAULT_REFRESH_SAFETY_MARGIN_SECS: i64 = 300;

/// How many seconds before its end a token is renewed at least.
pub const MIN_REFRESH_SAFETY_MARGIN_SECS: i64 = 60;

/// How many seconds lie between two looks at the sessions.
pub const REFRESH_TICK_SECS: u64 = 30;

/// How long a token lives whose provider does not say.
pub const DEFAULT_LIFETIME_SECS: i64 = 3600;

/// How many seconds before its end a token is renewed: a quarter of its life, at
/// most five minutes and at least one.
pub open spec fn safety_margin(lifetime: int) -> int {
    if lifetime / 4 >= 300 {
        300
    } else if lifetime / 4 <= 60 {
        60
    } else {
        lifetime / 4
    }
}

/// How many seconds before its end a token is renewed that lives for the given
/// number of seconds.
pub fn refresh_safety_margin_secs(lifetime_secs: i64) -> (r: i64)
    ensures
        r == safety_margin(lifetime_secs as int),
{
    if lifetime_secs <= 0 {
        return MIN_REFRESH_SAFETY_MARGIN_SECS;
    }
    let by_quarter: i64 = lifetime_secs / 4;
    let chosen: i64 = if DEFAULT_REFRESH_SAFETY_MARGIN_SECS < by_quarter {
        DEFAULT_REFRESH_SAFETY_MARGIN_SECS
    } else {
        by_quarter
    };
    if chosen < MIN_REFRESH_SAFETY_MARGIN_SECS {
        MIN_REFRESH_SAFETY_MARGIN_SECS
    } else {
        chosen
    }
}

/// The margin lies between one and five minutes.
pub proof fn law_margin_is_bounded(lifetime: int)
    ensures
        MIN_REFRESH_SAFETY_MARGIN_SECS <= safety_margin(lifetime)
            <= DEFAULT_REFRESH_SAFETY_MARGIN_SECS,
{
}

/// A token that lives longer is not renewed with a smaller margin.
pub proof fn law_margin_is_monotone(a: int, b: int)
    requires
        a <= b,
    ensures
        safety_margin(a) <= safety_margin(b),
{
}

/// The sessions that have locks, one lock for each. A lock is given by its place
/// in the list.
pub struct RefreshLockMap {
    keys: Vec<(String, String)>,
}

spec fn pair_keys(v: Seq<(String, String)>) -> Seq<SessionKey> {
    Seq::new(v.len(), |i: int| SessionKey { name: v[i].0@, label: v[i].1@ })
}

impl RefreshLockMap {
    #[verifier::type_invariant]
    spec fn wf(self) -> bool {
        pair_keys(self.keys@).no_duplicates()
    }

    /// The sessions that have locks, in the order of the locks.
    pub closed spec fn locked(self) -> Seq<SessionKey> {
        pair_keys(self.keys@)
    }

    /// No locks.
    pub fn new() -> (r: RefreshLockMap)
        ensures
            r.locked() == Seq::<SessionKey>::empty(),
    {
        let r = RefreshLockMap { keys: Vec::new() };
        assert(r.locked() =~= Seq::<SessionKey>::empty());
        r
    }

    /// The place of a session's lock. A session without a lock gets one at the
    /// end.
    pub fn get(&mut self, name: &str, label: &str) -> (r: usize)
        ensures
            lock_given(
                old(self).locked(),
                final(self).locked(),
                SessionKey { name: name@, label: label@ },
                r as int,
            ),
    {
        proof {
            use_type_invariant(&*self);
        }
        let ghost was = self.locked();
        let ghost k = SessionKey { name: name@, label: label@ };
        let mut i: usize = 0;
        while i < self.keys.len()
            invariant
                i <= self.keys@.len(),
                was == self.locked(),
                was.len() == self.keys@.len(),
                k == (SessionKey { name: name@, label: label@ }),
                was.no_duplicates(),
                *self == *old(self),
                forall|j: int| 0 <= j < i ==> #[trigger] was[j] != k,
            decreases self.keys.len() - i,
        {
            assert(was[i as int] == (SessionKey {
                name: self.keys@[i as int].0@,
                label: self.keys@[i as int].1@,
            }));
            if same(self.keys[i].0.as_str(), name) && same(self.keys[i].1.as_str(), label) {
                return i;
            }
            i = i + 1;
        }
        assert(!was.contains(k));
        let mut keys: Vec<(String, String)> = Vec::new();
        std::mem::swap(&mut keys, &mut self.keys);
        keys.push((name.to_string(), label.to_string()));
        assert(pair_keys(keys@) =~= was.push(k));
        self.keys = keys;
        i
    }
}

/// Why the tokens of a session could not be renewed.
#[derive(Debug)]
pub enum RefreshError {
    /// The registration is gone or disabled.
    RegistrationGone(String),
    /// The registration is not of an OAuth kind.
    NotOauth(String),
    /// The provider could not be reached.
    Network(String),
    /// The provider refused.
    Revoked { status: u16, body_excerpt: String },
    /// The provider failed.
    ProviderError { status: u16, body_excerpt: String },
    /// The provider's answer cannot be read.
    BadResponse(String),
    /// The new tokens could not be kept.
    Persist(String),
}

/// What a [`RefreshError`] says.
pub ghost enum RefreshFault {
    RegistrationGone(Seq<char>),
    NotOauth(Seq<char>),
    Network(Seq<char>),
    Revoked { status: u16, body_excerpt: Seq<char> },
    ProviderError { status: u16, body_excerpt: Seq<char> },
    BadResponse(Seq<char>),
    Persist(Seq<char>),
}

impl View for RefreshError {
    type V = RefreshFault;

    open spec fn view(&self) -> RefreshFault {
        match self {
            RefreshError::RegistrationGone(n) => RefreshFault::RegistrationGone(n@),
            RefreshError::NotOauth(n) => RefreshFault::NotOauth(n@),
            RefreshError::Network(m) => RefreshFault::Network(m@),
            RefreshError::Revoked { status, body_excerpt } => RefreshFault::Revoked {
                status: *status,
                body_excerpt: body_excerpt@,
            },
            RefreshError::ProviderError { status, body_excerpt } => RefreshFault::ProviderError {
                status: *status,
                body_excerpt: body_excerpt@,
            },
            RefreshError::BadResponse(m) => RefreshFault::BadResponse(m@),
            RefreshError::Persist(m) => RefreshFault::Persist(m@),
        }
    }
}

/// The word by which an error is recorded.
pub open spec fn refresh_cause(e: RefreshFault) -> Seq<char> {
    match e {
        RefreshFault::RegistrationGone(_) => "registration_gone"@,
        RefreshFault::NotOauth(_) => "not_oauth"@,
        RefreshFault::Network(_) => "network_error"@,
        RefreshFault::Revoked { .. } => "revoked"@,
        RefreshFault::ProviderError { .. } => "provider_5xx"@,
        RefreshFault::BadResponse(_) => "bad_response"@,
        RefreshFault::Persist(_) => "persist_failed"@,
    }
}

/// The text of an error.
pub open spec fn refresh_message(e: RefreshFault) -> Seq<char> {
    match e {
        RefreshFault::RegistrationGone(n) => "registration "@ + n
            + " disappeared from catalog before refresh"@,
        RefreshFault::NotOauth(n) => "registration "@ + n
            + " is not an OAuth shape (programming error)"@,
        RefreshFault::Network(m) => "network error contacting token endpoint: "@ + m,
        RefreshFault::Revoked { status, body_excerpt } => "provider rejected refresh ("@ + decimal(
            status as nat,
        ) + "): "@ + body_excerpt,
        RefreshFault::ProviderError { status, body_excerpt } => "provider error during refresh ("@
            + decimal(status as nat) + "): "@ + body_excerpt,
        RefreshFault::BadResponse(m) => "provider returned malformed token response: "@ + m,
        RefreshFault::Persist(m) => "failed to persist refreshed tokens: "@ + m,
    }
}

impl RefreshError {
    /// The word by which the error is recorded.
    pub fn audit_cause(&self) -> (r: &'static str)
        ensures
            r@ == refresh_cause(self@),
    {
        match self {
            RefreshError::RegistrationGone(_) => "registration_gone",
            RefreshError::NotOauth(_) => "not_oauth",
            RefreshError::Network(_) => "network_error",
            RefreshError::Revoked { .. } => "revoked",
            RefreshError::ProviderError { .. } => "provider_5xx",
            RefreshError::BadResponse(_) => "bad_response",
            RefreshError::Persist(_) => "persist_failed",
        }
    }

    /// The text of the error.
    pub fn message(&self) -> (r: String)
        ensures
            r@ == refresh_message(self@),
    {
        match self {
            RefreshError::RegistrationGone(n) => cat3(
                "registration ",
                n.as_str(),
                " disappeared from catalog before refresh",
            ),
            RefreshError::NotOauth(n) => cat3(
                "registration ",
                n.as_str(),
                " is not an OAuth shape (programming error)",
            ),
            RefreshError::Network(m) => cat(
                "network error contacting token endpoint: ",
                m.as_str(),
            ),
            RefreshError::Revoked { status, body_excerpt } => cat4(
                "provider rejected refresh (",
                show_u64(*status as u64).as_str(),
                "): ",
                body_excerpt.as_str(),
            ),
            RefreshError::ProviderError { status, body_excerpt } => cat4(
                "provider error during refresh (",
                show_u64(*status as u64).as_str(),
                "): ",
                body_excerpt.as_str(),
            ),
            RefreshError::BadResponse(m) => cat(
                "provider returned malformed token response: ",
                m.as_str(),
            ),
            RefreshError::Persist(m) => cat("failed to persist refreshed tokens: ", m.as_str()),
        }
    }
}

/// What is asked of a provider: where, with which refresh token, as which client.
pub struct RefreshRequest {
    pub token_url: String,
    pub refresh_token: Secret,
    pub client_id: String,
}

/// What a [`RefreshRequest`] says.
#[verifier::ext_equal]
pub ghost struct RequestView {
    pub token_url: Seq<char>,
    pub refresh_token: Seq<char>,
    pub client_id: Seq<char>,
}

impl View for RefreshRequest {
    type V = RequestView;

    open spec fn view(&self) -> RequestView {
        RequestView {
            token_url: self.token_url@,
            refresh_token: self.refresh_token@,
            client_id: self.client_id@,
        }
    }
}

/// Where and as which client tokens are exchanged.
pub open spec fn token_endpoint(a: AuthView) -> Option<(Seq<char>, Seq<char>)> {
    match a {
        AuthView::OauthPkce { token_url, client_id, .. } => Some((token_url, client_id)),
        AuthView::OauthDeviceCode { token_url, client_id, .. } => Some((token_url, client_id)),
        _ => None,
    }
}

/// What is asked of a session's provider. The registration must be there, must
/// not be disabled, and must be of an OAuth kind.
pub open spec fn asked(
    catalog: Map<Seq<char>, RegistrationView>,
    name: Seq<char>,
    refresh_token: Seq<char>,
) -> Result<RequestView, RefreshFault> {
    let row = row_at(catalog, name);
    if row is None || row->Some_0.disabled {
        Err(RefreshFault::RegistrationGone(name))
    } else {
        match token_endpoint(row->Some_0.auth) {
            None => Err(RefreshFault::NotOauth(name)),
            Some(e) => Ok(RequestView { token_url: e.0, refresh_token, client_id: e.1 }),
        }
    }
}

/// What is asked of a session's provider.
pub fn refresh_request(catalog: &Catalog, session: &OauthSession) -> (r: Result<
    RefreshRequest,
    RefreshError,
>)
    requires
        catalog.wf(),
    ensures
        match r {
            Ok(q) => asked(catalog.by_name(), session.name@, session.refresh_token@) == Ok::<
                RequestView,
                RefreshFault,
            >(q@),
            Err(e) => asked(catalog.by_name(), session.name@, session.refresh_token@) == Err::<
                RequestView,
                RefreshFault,
            >(e@),
        },
{
    let registration = match catalog.lookup_active(session.name.as_str()) {
        Some(r) => r,
        None => {
            return Err(RefreshError::RegistrationGone(session.name.clone()));
        },
    };
    match &registration.auth {
        AuthSpec::OauthPkce { token_url, client_id, .. }
        | AuthSpec::OauthDeviceCode { token_url, client_id, .. } => Ok(
            RefreshRequest {
                token_url: token_url.clone(),
                refresh_token: session.refresh_token.clone(),
                client_id: client_id.clone(),
            },
        ),
        _ => Err(RefreshError::NotOauth(session.name.clone())),
    }
}

/// The form that is sent: its members in order.
pub open spec fn form_of(q: RequestView) -> Seq<(Seq<char>, Seq<char>)> {
    seq![
        ("grant_type"@, "refresh_token"@),
        ("refresh_token"@, q.refresh_token),
        ("client_id"@, q.client_id),
    ]
}

impl RefreshRequest {
    /// The form that is sent.
    pub fn form(&self) -> (r: Vec<(String, String)>)
        ensures
            pair_views(r@) == form_of(self@),
    {
        let mut out: Vec<(String, String)> = Vec::new();
        out.push(("grant_type".to_string(), "refresh_token".to_string()));
        out.push(("refresh_token".to_string(), self.refresh_token.expose().to_string()));
        out.push(("client_id".to_string(), self.client_id.clone()));
        assert(pair_views(out@) =~= form_of(self@));
        out
    }
}

/// The tokens that a provider gave.
pub struct TokenResponse {
    pub access_token: String,
    pub expires_in: Option<i64>,
    pub refresh_token: Option<String>,
    pub token_type: Option<String>,
}

/// What came back from a provider.
pub enum Exchange {
    /// Nothing: the provider could not be reached.
    Failed(String),
    /// A reply with this status and text.
    Replied { status: u16, body: String },
    /// A reply that succeeded and cannot be read.
    Malformed(String),
    /// Tokens.
    Tokens(TokenResponse),
}

/// The first 256 characters of a text.
pub open spec fn excerpt(body: Seq<char>) -> Seq<char> {
    if body.len() <= 256 {
        body
    } else {
        body.take(256)
    }
}

fn body_excerpt(body: &str) -> (r: String)
    ensures
        r@ == excerpt(body@),
{
    let cs = crate::text::chars_of(body);
    let n: usize = if cs.len() <= 256 {
        cs.len()
    } else {
        256
    };
    assert(body@.subrange(0, n as int) =~= excerpt(body@));
    string_of(&cs, 0, n)
}

/// New tokens and when the access token ends.
pub struct NewTokens {
    pub access_token: String,
    pub expires_at: i64,
    pub refresh_token: Option<String>,
}

/// What [`NewTokens`] says.
#[verifier::ext_equal]
pub ghost struct TokensView {
    pub access_token: Seq<char>,
    pub expires_at: i64,
    pub refresh_token: Option<Seq<char>>,
}

impl View for NewTokens {
    type V = TokensView;

    open spec fn view(&self) -> TokensView {
        TokensView {
            access_token: self.access_token@,
            expires_at: self.expires_at,
            refresh_token: opt_text(self.refresh_token),
        }
    }
}

/// When a token ends that lives for some seconds from now; around the end of the
/// type's range the sum wraps.
pub open spec fn expiry(now: i64, lifetime: i64) -> i64 {
    now.wrapping_add(lifetime)
}

/// How long a token lives.
pub open spec fn lifetime_of(t: TokenResponse) -> i64 {
    match t.expires_in {
        Some(n) => n,
        None => DEFAULT_LIFETIME_SECS,
    }
}

/// What is made of what came back from a provider. A status from 400 to 499 means
/// that the refresh token is no longer good.
pub open spec fn exchanged(x: Exchange, now: i64) -> Result<TokensView, RefreshFault> {
    match x {
        Exchange::Failed(m) => Err(RefreshFault::Network(m@)),
        Exchange::Replied { status, body } => if 400 <= status < 500 {
            Err(RefreshFault::Revoked { status, body_excerpt: excerpt(body@) })
        } else {
            Err(RefreshFault::ProviderError { status, body_excerpt: excerpt(body@) })
        },
        Exchange::Malformed(m) => Err(RefreshFault::BadResponse(m@)),
        Exchange::Tokens(t) => Ok(
            TokensView {
                access_token: t.access_token@,
                expires_at: expiry(now, lifetime_of(t)),
                refresh_token: opt_text(t.refresh_token),
            },
        ),
    }
}

/// Whether a status says that a request succeeded.
pub open spec fn succeeded(status: u16) -> bool {
    200 <= status < 300
}

/// Whether a status says that a request succeeded.
pub fn is_success(status: u16) -> (r: bool)
    ensures
        r == succeeded(status),
{
    status >= 200 && status < 300
}

/// What is made of what came back from a provider.
pub fn after_exchange(x: Exchange, now: i64) -> (r: Result<NewTokens, RefreshError>)
    ensures
        match r {
            Ok(t) => exchanged(x, now) == Ok::<TokensView, RefreshFault>(t@),
            Err(e) => exchanged(x, now) == Err::<TokensView, RefreshFault>(e@),
        },
{
    match x {
        Exchange::Failed(m) => Err(RefreshError::Network(m)),
        Exchange::Replied { status, body } => {
            let body_excerpt = body_excerpt(body.as_str());
            if status >= 400 && status < 500 {
                Err(RefreshError::Revoked { status, body_excerpt })
            } else {
                Err(RefreshError::ProviderError { status, body_excerpt })
            }
        },
        Exchange::Malformed(m) => Err(RefreshError::BadResponse(m)),
        Exchange::Tokens(t) => {
            let lifetime: i64 = match t.expires_in {
                Some(n) => n,
                None => DEFAULT_LIFETIME_SECS,
            };
            Ok(
                NewTokens {
                    access_token: t.access_token,
                    expires_at: now.wrapping_add(lifetime),
                    refresh_token: t.refresh_token,
                },
            )
        },
    }
}

/// The view of what renewing a session gave.
pub open spec fn refresh_result(r: Result<OauthSession, RefreshError>) -> Result<
    SessionView,
    RefreshFault,
> {
    match r {
        Ok(s) => Ok(s@),
        Err(e) => Err(e@),
    }
}

/// What renewing a session gives, given what keeping the new tokens and reading
/// the session again gave.
pub open spec fn kept_result(
    updated: Result<(), OauthSessionError>,
    got: Result<Option<OauthSession>, OauthSessionError>,
) -> Result<SessionView, RefreshFault> {
    match updated {
        Err(e) => Err(RefreshFault::Persist(session_message(e@))),
        Ok(()) => match got {
            Err(e) => Err(RefreshFault::Persist(session_message(e@))),
            Ok(None) => Err(RefreshFault::Persist("session vanished after update"@)),
            Ok(Some(s)) => Ok(s@),
        },
    }
}

/// What renewing a session gives, given what keeping the new tokens and reading
/// the session again gave.
pub fn after_persist(
    updated: Result<(), OauthSessionError>,
    got: Result<Option<OauthSession>, OauthSessionError>,
) -> (r: Result<OauthSession, RefreshError>)
    ensures
        refresh_result(r) == kept_result(updated, got),
{
    match updated {
        Err(e) => Err(RefreshError::Persist(e.message())),
        Ok(()) => match got {
            Err(e) => Err(RefreshError::Persist(e.message())),
            Ok(None) => Err(RefreshError::Persist("session vanished after update".to_string())),
            Ok(Some(s)) => Ok(s),
        },
    }
}

/// The tokens that came back for a session, where its provider could be asked and gave
/// some.
pub open spec fn answered(
    catalog: Map<Seq<char>, RegistrationView>,
    s: SessionView,
    x: Exchange,
    now: i64,
) -> Result<TokensView, RefreshFault> {
    match asked(catalog, s.name, s.refresh_token) {
        Err(e) => Err(e),
        Ok(_) => exchanged(x, now),
    }
}

fn answer(catalog: &Catalog, session: &OauthSession, exchange: Exchange, now: i64) -> (r: Result<
    NewTokens,
    RefreshError,
>)
    requires
        catalog.wf(),
    ensures
        match r {
            Ok(t) => answered(catalog.by_name(), session@, exchange, now) == Ok::<
                TokensView,
                RefreshFault,
            >(t@),
            Err(e) => answered(catalog.by_name(), session@, exchange, now) == Err::<
                TokensView,
                RefreshFault,
            >(e@),
        },
{
    match refresh_request(catalog, session) {
        Ok(_) => after_exchange(exchange, now),
        Err(e) => Err(e),
    }
}

/// Keeps the tokens that came back from a session's provider, sealed with the given
/// nonces, and gives the session as it is kept from then on. Where the exchange failed
/// nothing is kept.
pub fn refresh_session_with(
    repo: &mut OauthSessionRepository,
    catalog: &Catalog,
    key: &SealingKey,
    session: &OauthSession,
    exchange: Exchange,
    access_nonce: &[u8],
    refresh_nonce: &[u8],
    now: i64,
) -> (r: Result<OauthSession, RefreshError>)
    requires
        catalog.wf(),
        access_nonce@.len() == NONCE_LEN,
        refresh_nonce@.len() == NONCE_LEN,
    ensures
        refreshed_with(
            *old(repo),
            *final(repo),
            catalog.by_name(),
            key.bytes(),
            session@,
            exchange,
            now,
            r,
        ),
{
    let tokens = match answer(catalog, session, exchange, now) {
        Ok(t) => t,
        Err(e) => {
            return Err(e);
        },
    };
    let rotated = match &tokens.refresh_token {
        Some(t) => Some(t.as_str()),
        None => None,
    };
    assert(opt_str(rotated) == tokens@.refresh_token);
    let updated = repo.update_tokens_with(
        key,
        session.name.as_str(),
        session.session_label.as_str(),
        tokens.access_token.as_str(),
        tokens.expires_at,
        rotated,
        access_nonce,
        refresh_nonce,
        now,
    );
    let got = repo.get(key, session.name.as_str(), session.session_label.as_str());
    after_persist(updated, got)
}

/// Keeps the tokens that came back from a session's provider, sealed with fresh random
/// nonces, and gives the session as it is kept from then on. Where the exchange failed
/// nothing is kept.
pub fn refresh_session(
    repo: &mut OauthSessionRepository,
    catalog: &Catalog,
    key: &SealingKey,
    session: &OauthSession,
    exchange: Exchange,
    now: i64,
) -> (r: Result<OauthSession, RefreshError>)
    requires
        catalog.wf(),
    ensures
        refreshed(
            *old(repo),
            *final(repo),
            catalog.by_name(),
            key.bytes(),
            session@,
            exchange,
            now,
            r,
        ),
{
    let tokens = match answer(catalog, session, exchange, now) {
        Ok(t) => t,
        Err(e) => {
            return Err(e);
        },
    };
    let rotated = match &tokens.refresh_token {
        Some(t) => Some(t.as_str()),
        None => None,
    };
    assert(opt_str(rotated) == tokens@.refresh_token);
    let ghost was = repo.kept();
    let updated = repo.update_tokens_at(
        key,
        session.name.as_str(),
        session.session_label.as_str(),
        tokens.access_token.as_str(),
        tokens.expires_at,
        rotated,
        now,
    );
    let got = repo.get(key, session.name.as_str(), session.session_label.as_str());
    let ghost f = updated->Err_0@;
    let r = after_persist(updated, got);
    proof {
        if updated is Err && no_nonce(f) {
            assert(nonce_message(session_message(f)));
        }
    }
    r
}

/// Whether a text is that of an error that says that no random bytes could be had for a
/// nonce.
pub open spec fn nonce_message(text: Seq<char>) -> bool {
    exists|f: SessionFault| no_nonce(f) && text == #[trigger] session_message(f)
}

/// What renewing a session gives, given the session as it is kept from then on.
pub open spec fn reread(key: Seq<u8>, row: SealedView) -> Result<SessionView, RefreshFault> {
    match session_of(key, row) {
        Ok(s) => Ok(s),
        Err(f) => Err(RefreshFault::Persist(session_message(f))),
    }
}

/// Whether renewing a session gave `r` and left `after`, where there were nonces to seal
/// the new tokens with. They are kept, and the session is read again, unless there is
/// no such session or a new token is too long.
pub open spec fn refreshed_with(
    before: OauthSessionRepository,
    after: OauthSessionRepository,
    catalog: Map<Seq<char>, RegistrationView>,
    key: Seq<u8>,
    s: SessionView,
    x: Exchange,
    now: i64,
    r: Result<OauthSession, RefreshError>,
) -> bool {
    let k = SessionKey { name: s.name, label: s.session_label };
    match answered(catalog, s, x, now) {
        Err(e) => refresh_result(r) == Err::<SessionView, RefreshFault>(e) && after.kept()
            == before.kept(),
        Ok(t) => if !before.kept().contains_key(k) {
            refresh_result(r) == Err::<SessionView, RefreshFault>(
                RefreshFault::Persist("session vanished after update"@),
            ) && after.kept() == before.kept()
        } else if !(sealable(t.access_token) && opt_sealable(t.refresh_token)) {
            refresh_result(r) == Err::<SessionView, RefreshFault>(
                RefreshFault::Persist(session_message(too_long())),
            ) && after.kept() == before.kept()
        } else {
            &&& after.kept().contains_key(k)
            &&& after.kept() == before.kept().insert(k, after.kept()[k])
            &&& renewed_row(
                key,
                before.kept()[k],
                after.kept()[k],
                t.access_token,
                t.expires_at,
                t.refresh_token,
                now,
            )
            &&& refresh_result(r) == reread(key, after.kept()[k])
        },
    }
}

/// Whether renewing a session gave `r` and left `after`. Where there were no random
/// bytes for the nonces nothing is kept.
pub open spec fn refreshed(
    before: OauthSessionRepository,
    after: OauthSessionRepository,
    catalog: Map<Seq<char>, RegistrationView>,
    key: Seq<u8>,
    s: SessionView,
    x: Exchange,
    now: i64,
    r: Result<OauthSession, RefreshError>,
) -> bool {
    ||| refreshed_with(before, after, catalog, key, s, x, now, r)
    ||| {
        &&& answered(catalog, s, x, now) is Ok
        &&& before.kept().contains_key(SessionKey { name: s.name, label: s.session_label })
        &&& refresh_result(r) matches Err(RefreshFault::Persist(m)) && nonce_message(m)
        &&& after.kept() == before.kept()
    }
}

/// The time up to which tokens are renewed that end before it.
pub fn refresh_threshold(now: i64) -> (r: i64)
    ensures
        r == expiry(now, DEFAULT_REFRESH_SAFETY_MARGIN_SECS),
{
    now.wrapping_add(DEFAULT_REFRESH_SAFETY_MARGIN_SECS)
}

/// Whether a session that was read again is still due: it is there and in order, and
/// its token ends within the margin that goes with its life. A token lives from the time
/// that it was kept.
pub open spec fn still_due(s: Option<SessionView>, now: i64) -> bool {
    match s {
        Some(x) => !x.degraded && match x.access_token_expires_at {
            Some(at) => at <= now + safety_margin(at - x.updated_at),
            None => true,
        },
        None => false,
    }
}

/// The view of an optional session.
pub open spec fn opt_session(s: Option<OauthSession>) -> Option<SessionView> {
    match s {
        Some(x) => Some(x@),
        None => None,
    }
}

/// Whether a session that was read again is still due.
pub fn is_still_due(session: &Option<OauthSession>, now: i64) -> (r: bool)
    ensures
        r == still_due(opt_session(*session), now),
{
    match session {
        Some(s) => {
            if s.degraded {
                return false;
            }
            match s.access_token_expires_at {
                Some(at) => {
                    let lifetime: i64 = match at.checked_sub(s.updated_at) {
                        Some(n) => n,
                        None => {
                            if at < s.updated_at {
                                i64::MIN
                            } else {
                                i64::MAX
                            }
                        },
                    };
                    let margin: i64 = refresh_safety_margin_secs(lifetime);
                    at as i128 <= now as i128 + margin as i128
                },
                None => true,
            }
        },
        None => false,
    }
}

/// A session that is due by the margin of its own token is among those that the list of
/// pending ones holds.
pub proof fn law_due_session_is_listed(key: Seq<u8>, row: SealedView, now: i64)
    requires
        session_of(key, row) is Ok,
        still_due(Some(session_of(key, row)->Ok_0), now),
        row.access_token_expires_at is Some,
        now + DEFAULT_REFRESH_SAFETY_MARGIN_SECS <= i64::MAX,
    ensures
        pending(row, expiry(now, DEFAULT_REFRESH_SAFETY_MARGIN_SECS)),
{
}

/// Ends the renewal of a session: where it failed, the session is degraded from then on.
pub fn degrade_on_failure(
    repo: &mut OauthSessionRepository,
    session: &OauthSession,
    result: Result<OauthSession, RefreshError>,
    now: i64,
) -> (r: Result<OauthSession, RefreshError>)
    ensures
        r == result,
        final(repo).kept() == if result is Ok {
            old(repo).kept()
        } else {
            degraded_in(
                old(repo).kept(),
                SessionKey { name: session.name@, label: session.session_label@ },
                now,
            )
        },
{
    if result.is_err() {
        repo.mark_degraded_at(session.name.as_str(), session.session_label.as_str(), now);
    }
    result
}

/// Renews a session that is due; where that fails, the session is degraded from
/// then on.
pub fn refresh_or_degrade(
    repo: &mut OauthSessionRepository,
    catalog: &Catalog,
    key: &SealingKey,
    session: &OauthSession,
    exchange: Exchange,
    now: i64,
) -> (r: Result<OauthSession, RefreshError>)
    requires
        catalog.wf(),
    ensures
        exists|mid: OauthSessionRepository|
            {
                &&& #[trigger] refreshed(
                    *old(repo),
                    mid,
                    catalog.by_name(),
                    key.bytes(),
                    session@,
                    exchange,
                    now,
                    r,
                )
                &&& final(repo).kept() == if r is Ok {
                    mid.kept()
                } else {
                    degraded_in(
                        mid.kept(),
                        SessionKey { name: session.name@, label: session.session_label@ },
                        now,
                    )
                }
            },
{
    let result = refresh_session(repo, catalog, key, session, exchange, now);
    let ghost mid = *repo;
    assert(refreshed(
        *old(repo),
        mid,
        catalog.by_name(),
        key.bytes(),
        session@,
        exchange,
        now,
        result,
    ));
    degrade_on_failure(repo, session, result, now)
}

/// Where a session is kept and can be opened, its provider gave tokens, and there are
/// nonces to seal them with, the renewal succeeds.
pub proof fn law_refresh_succeeds(
    before: OauthSessionRepository,
    after: OauthSessionRepository,
    catalog: Map<Seq<char>, RegistrationView>,
    key: Seq<u8>,
    s: SessionView,
    t: TokenResponse,
    now: i64,
    r: Result<OauthSession, RefreshError>,
)
    requires
        refreshed_with(before, after, catalog, key, s, Exchange::Tokens(t), now, r),
        asked(catalog, s.name, s.refresh_token) is Ok,
        sealable(t.access_token@),
        opt_sealable(opt_text(t.refresh_token)),
        before.kept().contains_key(SessionKey { name: s.name, label: s.session_label }),
        session_of(
            key,
            before.kept()[SessionKey { name: s.name, label: s.session_label }],
        ) == Ok::<SessionView, SessionFault>(s),
    ensures
        refresh_result(r) == Ok::<SessionView, RefreshFault>(
            renewed_session(
                s,
                t.access_token@,
                expiry(now, lifetime_of(t)),
                opt_text(t.refresh_token),
                now,
            ),
        ),
{
    let k = SessionKey { name: s.name, label: s.session_label };
    crate::oauth::session::law_renewed_session_is_read_back(
        key,
        before.kept()[k],
        after.kept()[k],
        t.access_token@,
        expiry(now, lifetime_of(t)),
        opt_text(t.refresh_token),
        now,
    );
}

/// Whatever came of a renewal, the other sessions stay as they are.
pub proof fn law_refresh_leaves_other_sessions(
    before: OauthSessionRepository,
    after: OauthSessionRepository,
    catalog: Map<Seq<char>, RegistrationView>,
    key: Seq<u8>,
    s: SessionView,
    x: Exchange,
    now: i64,
    r: Result<OauthSession, RefreshError>,
    other: SessionKey,
)
    requires
        refreshed(before, after, catalog, key, s, x, now, r),
        other != (SessionKey { name: s.name, label: s.session_label }),
    ensures
        after.kept().contains_key(other) == before.kept().contains_key(other),
        after.kept().contains_key(other) ==> after.kept()[other] == before.kept()[other],
{
}

/// After a successful exchange the session holds the new access token and is in
/// order, and it keeps its refresh token unless the provider sent a new one.
pub proof fn law_refresh_replaces_tokens(
    before: OauthSessionRepository,
    after: OauthSessionRepository,
    catalog: Map<Seq<char>, RegistrationView>,
    key: Seq<u8>,
    s: SessionView,
    t: TokenResponse,
    now: i64,
    r: Result<OauthSession, RefreshError>,
)
    requires
        refreshed(before, after, catalog, key, s, Exchange::Tokens(t), now, r),
        r is Ok,
        before.kept().contains_key(SessionKey { name: s.name, label: s.session_label }),
        session_of(
            key,
            before.kept()[SessionKey { name: s.name, label: s.session_label }],
        ) == Ok::<SessionView, SessionFault>(s),
    ensures
        r->Ok_0@ == renewed_session(
            s,
            t.access_token@,
            expiry(now, lifetime_of(t)),
            opt_text(t.refresh_token),
            now,
        ),
        !r->Ok_0@.degraded,
{
    let k = SessionKey { name: s.name, label: s.session_label };
    crate::oauth::session::law_renewed_session_is_read_back(
        key,
        before.kept()[k],
        after.kept()[k],
        t.access_token@,
        expiry(now, lifetime_of(t)),
        opt_text(t.refresh_token),
        now,
    );
}

/// The provider of a session whose registration is of the PKCE kind is asked at the
/// registration's token address, as its client, with the session's refresh token.
pub proof fn law_pkce_provider_is_asked_at_its_token_address(
    catalog: Map<Seq<char>, RegistrationView>,
    name: Seq<char>,
    refresh_token: Seq<char>,
    client_id: Seq<char>,
    redirect_uri: Seq<char>,
    scopes: Seq<Seq<char>>,
    auth_url: Seq<char>,
    token_url: Seq<char>,
    session_label: Option<Seq<char>>,
)
    requires
        catalog.contains_key(name),
        !catalog[name].disabled,
        catalog[name].auth == (AuthView::OauthPkce {
            client_id,
            redirect_uri,
            scopes,
            auth_url,
            token_url,
            session_label,
        }),
    ensures
        asked(catalog, name, refresh_token) == Ok::<RequestView, RefreshFault>(
            RequestView { token_url, client_id, refresh_token },
        ),
{
}

/// The provider of a session whose registration is of the device kind is asked at the
/// registration's token address, as its client, with the session's refresh token; not at
/// the address where devices are let in.
pub proof fn law_device_provider_is_asked_at_its_token_address(
    catalog: Map<Seq<char>, RegistrationView>,
    name: Seq<char>,
    refresh_token: Seq<char>,
)
    requires
        catalog.contains_key(name),
        !catalog[name].disabled,
        catalog[name].auth is OauthDeviceCode,
    ensures
        asked(catalog, name, refresh_token) == Ok::<RequestView, RefreshFault>(
            RequestView {
                token_url: catalog[name].auth->OauthDeviceCode_token_url,
                client_id: catalog[name].auth->OauthDeviceCode_client_id,
                refresh_token,
            },
        ),
{
}

/// Nobody is asked for a registration that is gone, that is disabled, or that is of no
/// OAuth kind.
pub proof fn law_others_are_not_asked(
    catalog: Map<Seq<char>, RegistrationView>,
    name: Seq<char>,
    refresh_token: Seq<char>,
)
    ensures
        !catalog.contains_key(name) ==> asked(catalog, name, refresh_token) == Err::<
            RequestView,
            RefreshFault,
        >(RefreshFault::RegistrationGone(name)),
        catalog.contains_key(name) && catalog[name].disabled ==> asked(
            catalog,
            name,
            refresh_token,
        ) == Err::<RequestView, RefreshFault>(RefreshFault::RegistrationGone(name)),
        catalog.contains_key(name) && !catalog[name].disabled && !(
        catalog[name].auth is OauthPkce) && !(catalog[name].auth is OauthDeviceCode) ==> asked(
            catalog,
            name,
            refresh_token,
        ) == Err::<RequestView, RefreshFault>(RefreshFault::NotOauth(name)),
{
}

/// What is asked for is written as a form with three members: the grant of a refresh
/// token, the token itself, and the client.
pub proof fn law_form_asks_for_a_refresh(q: RequestView)
    ensures
        form_of(q).len() == 3,
        form_of(q).contains(("grant_type"@, "refresh_token"@)),
        form_of(q).contains(("refresh_token"@, q.refresh_token)),
        form_of(q).contains(("client_id"@, q.client_id)),
{
    let f = form_of(q);
    assert(f[0] == ("grant_type"@, "refresh_token"@));
    assert(f[1] == ("refresh_token"@, q.refresh_token));
    assert(f[2] == ("client_id"@, q.client_id));
}

/// Tokens that a provider gave are taken as they are. The access token ends as many seconds
/// from now as the provider says, and an hour from now where it does not say.
pub proof fn law_tokens_are_taken_as_given(t: TokenResponse, now: i64)
    requires
        0 <= now,
        now + 3600 <= i64::MAX,
        t.expires_in is Some ==> i64::MIN <= now + t.expires_in->Some_0 <= i64::MAX,
    ensures
        exchanged(Exchange::Tokens(t), now) matches Ok(x) && x.access_token == t.access_token@
            && x.refresh_token == opt_text(t.refresh_token) && x.expires_at == now + (
        match t.expires_in {
            Some(n) => n as int,
            None => 3600,
        }),
{
}

/// A provider that refuses with a status from 400 to 499 has revoked the token, any other
/// answer without tokens is the provider's failure; both are told with the status and the
/// beginning of the answer. Where nothing came back, or nothing that can be read, that is
/// what is told.
pub proof fn law_failed_exchanges_are_told_apart(status: u16, body: String, m: String, now: i64)
    ensures
        400 <= status <= 499 ==> (exchanged(Exchange::Replied { status, body }, now) matches Err(
            RefreshFault::Revoked { status: s, body_excerpt },
        ) && s == status && body_excerpt.is_prefix_of(body@)),
        !(400 <= status <= 499) ==> (exchanged(Exchange::Replied { status, body }, now) matches Err(
            RefreshFault::ProviderError { status: s, body_excerpt },
        ) && s == status && body_excerpt.is_prefix_of(body@)),
        body@.len() <= 256 ==> excerpt(body@) == body@,
        excerpt(body@).len() <= 256,
        exchanged(Exchange::Failed(m), now) == Err::<TokensView, RefreshFault>(
            RefreshFault::Network(m@),
        ),
        exchanged(Exchange::Malformed(m), now) == Err::<TokensView, RefreshFault>(
            RefreshFault::BadResponse(m@),
        ),
{
}

/// A token is renewed before it ends, and not long before: within the margin of its life
/// it is due, and outside it is not. A degraded session is never due.
pub proof fn law_tokens_are_renewed_shortly_before_their_end(s: SessionView, at: i64, now: i64)
    requires
        s.access_token_expires_at == Some(at),
    ensures
        s.degraded ==> !still_due(Some(s), now),
        !s.degraded && at <= now + 60 ==> still_due(Some(s), now),
        at > now + 300 ==> !still_due(Some(s), now),
        !s.degraded && at - s.updated_at >= 1200 && at <= now + 300 ==> still_due(Some(s), now),
        0 <= at - s.updated_at && at > now + 60 && 4 * (at - now) > at - s.updated_at
            ==> !still_due(Some(s), now),
        !s.degraded && 4 * (at - now) <= at - s.updated_at && at <= now + 300 ==> still_due(
            Some(s),
            now,
        ),
{
}

/// Each failure of a renewal is recorded under a word of its own.
pub proof fn law_causes_are_told_apart(e: RefreshError)
    ensures
        refresh_cause(e@) == "registration_gone"@ <==> e is RegistrationGone,
        refresh_cause(e@) == "not_oauth"@ <==> e is NotOauth,
        refresh_cause(e@) == "network_error"@ <==> e is Network,
        refresh_cause(e@) == "revoked"@ <==> e is Revoked,
        refresh_cause(e@) == "provider_5xx"@ <==> e is ProviderError,
        refresh_cause(e@) == "bad_response"@ <==> e is BadResponse,
        refresh_cause(e@) == "persist_failed"@ <==> e is Persist,
{
    reveal_strlit("registration_gone");
    reveal_strlit("not_oauth");
    reveal_strlit("network_error");
    reveal_strlit("revoked");
    reveal_strlit("provider_5xx");
    reveal_strlit("bad_response");
    reveal_strlit("persist_failed");
    assert("registration_gone"@.len() == 17);
    assert("not_oauth"@.len() == 9);
    assert("network_error"@.len() == 13);
    assert("revoked"@.len() == 7);
    assert("provider_5xx"@.len() == 12 && "provider_5xx"@[0] == 'p');
    assert("bad_response"@.len() == 12 && "bad_response"@[0] == 'b');
    assert("persist_failed"@.len() == 14);
}

/// A renewal succeeds only if the new tokens were kept and the session could be read again,
/// and then gives that session.
pub proof fn law_renewal_gives_the_session_as_kept(
    updated: Result<(), OauthSessionError>,
    got: Result<Option<OauthSession>, OauthSessionError>,
)
    ensures
        kept_result(updated, got) is Ok <==> updated is Ok && (got matches Ok(Some(_))),
        updated is Ok && got is Ok && got->Ok_0 is Some ==> kept_result(updated, got)->Ok_0
            == got->Ok_0->Some_0@,
        kept_result(updated, got) matches Err(e) ==> e is Persist,
{
}

/// The message of an error names the registration, or ends in what the provider or the
/// store said, and gives the provider's status where there was one.
pub proof fn law_messages_say_the_cause(m: Seq<char>, status: u16)
    ensures
        refresh_message(RefreshFault::RegistrationGone(m)) == "registration "@ + m
            + " disappeared from catalog before refresh"@,
        refresh_message(RefreshFault::NotOauth(m)) == "registration "@ + m
            + " is not an OAuth shape (programming error)"@,
        crate::text::ends_in(refresh_message(RefreshFault::Network(m)), m),
        crate::text::ends_in(refresh_message(RefreshFault::BadResponse(m)), m),
        crate::text::ends_in(refresh_message(RefreshFault::Persist(m)), m),
        crate::text::ends_in(
            refresh_message(RefreshFault::Revoked { status, body_excerpt: m }),
            decimal(status as nat) + "): "@ + m,
        ),
        crate::text::ends_in(
            refresh_message(RefreshFault::ProviderError { status, body_excerpt: m }),
            decimal(status as nat) + "): "@ + m,
        ),
{
    broadcast use crate::text::lemma_ends_in;

    let tail = decimal(status as nat) + "): "@ + m;
    assert(refresh_message(RefreshFault::Revoked { status, body_excerpt: m })
        =~= "provider rejected refresh ("@ + tail);
    assert(refresh_message(RefreshFault::ProviderError { status, body_excerpt: m })
        =~= "provider error during refresh ("@ + tail);
}

/// Whether asking for the lock of a session gave place `r`, with the locks that there were
/// and those that there are.
pub open spec fn lock_given(
    was: Seq<SessionKey>,
    is: Seq<SessionKey>,
    k: SessionKey,
    r: int,
) -> bool {
    &&& is == if was.contains(k) {
        was
    } else {
        was.push(k)
    }
    &&& 0 <= r < is.len()
    &&& is[r] == k
    &&& is.no_duplicates()
}

/// A session has one lock: two requests get the same place exactly if they are about the
/// same session, and a lock that was given keeps its place.
pub proof fn law_one_lock_per_session(
    a: Seq<SessionKey>,
    b: Seq<SessionKey>,
    c: Seq<SessionKey>,
    k: SessionKey,
    l: SessionKey,
    r: int,
    s: int,
)
    requires
        lock_given(a, b, k, r),
        lock_given(b, c, l, s),
    ensures
        r == s <==> k == l,
        c[r] == k,
        k == l ==> c == b,
        b.contains(k) && c.contains(l),
        a.len() <= b.len() <= a.len() + 1,
        forall|i: int| 0 <= i < a.len() ==> b[i] == a[i],
{
    assert(b.contains(b[r]));
    assert(c.contains(c[s]));
}

/// A request succeeded exactly if the status is in the two hundreds.
pub proof fn law_success_is_in_the_two_hundreds(status: u16)
    ensures
        succeeded(status) <==> status / 100 == 2,
{
}

/// A session that may be absent is there exactly if it is, and is then what it says.
pub proof fn law_absent_is_absent(s: OauthSession)
    ensures
        opt_session(Some(s)) == Some(s@),
        opt_session(None) is None,
{
}

} // verus!
