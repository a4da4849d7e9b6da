//! The kept sessions, one per registration and label, in the order of these.
use vstd::prelude::*;

use crate::clock::unix_now;
use crate::oauth::sealing::{gcm_opened, SealingFault, SealingKey, NONCE_LEN};
use crate::oauth::session::{
    draw_nonce, law_sealed_session_is_read_back, new_session, no_nonce, opt_sealable, opt_str,
    renew_row, renewed_row, seal_session_with, sealable, sealed_row, session_of, session_result,
    too_long, unseal_session, OauthSession, OauthSessionError, SealedSession, SealedView,
    SessionFault, SessionView,
};
use crate::text::{
    before, lemma_before_irreflexive, lemma_before_total, lemma_before_transitive, precedes, same,
};

verus! {

/// What a session is found by: the name of its registration and its label.
#[verifier::ext_equal]
pub ghost struct SessionKey {
    pub name: Seq<char>,
    pub label: Seq<char>,
}

/// What a row is found by.
pub open spec fn key_of(r: SealedView) -> SessionKey {
    SessionKey { name: r.name, label: r.session_label }
}

/// The order of sessions: by name, then by label.
pub open spec fn key_before(a: SessionKey, b: SessionKey) -> bool {
    before(a.name, b.name) || (a.name == b.name && before(a.label, b.label))
}

proof fn lemma_key_irreflexive(a: SessionKey)
    ensures
        !key_before(a, a),
{
    lemma_before_irreflexive(a.name);
    lemma_before_irreflexive(a.label);
}

proof fn lemma_key_transitive(a: SessionKey, b: SessionKey, c: SessionKey)
    requires
        key_before(a, b),
        key_before(b, c),
    ensures
        key_before(a, c),
{
    if before(a.name, b.name) && before(b.name, c.name) {
        lemma_before_transitive(a.name, b.name, c.name);
    } else if a.name == b.name && b.name == c.name {
        lemma_before_transitive(a.label, b.label, c.label);
    }
}

proof fn lemma_key_total(a: SessionKey, b: SessionKey)
    ensures
        key_before(a, b) || key_before(b, a) || a == b,
{
    if a.name != b.name {
        lemma_before_total(a.name, b.name);
    } else if a.label != b.label {
        lemma_before_total(a.label, b.label);
    }
}

/// What rows say.
pub open spec fn sealed_views(v: Seq<SealedSession>) -> Seq<SealedView> {
    Seq::new(v.len(), |i: int| v[i]@)
}

/// Whether the rows stand in order, each name and label once.
pub open spec fn ordered(v: Seq<SealedView>) -> bool {
    forall|i: int, j: int|
        0 <= i < j < v.len() ==> key_before(key_of(#[trigger] v[i]), key_of(#[trigger] v[j]))
}

/// Whether there is a row with the given name and label.
pub open spec fn has_session(v: Seq<SealedView>, k: SessionKey) -> bool {
    exists|i: int| 0 <= i < v.len() && key_of(#[trigger] v[i]) == k
}

/// The rows by their names and labels.
pub open spec fn by_key(v: Seq<SealedView>) -> Map<SessionKey, SealedView> {
    Map::new(
        |k: SessionKey| has_session(v, k),
        |k: SessionKey| v[choose|i: int| 0 <= i < v.len() && key_of(#[trigger] v[i]) == k],
    )
}

proof fn lemma_unique(v: Seq<SealedView>, i: int, j: int)
    requires
        ordered(v),
        0 <= i < v.len(),
        0 <= j < v.len(),
        key_of(v[i]) == key_of(v[j]),
    ensures
        i == j,
{
    lemma_key_irreflexive(key_of(v[i]));
    if i < j {
        assert(key_before(key_of(v[i]), key_of(v[j])));
    } else if j < i {
        assert(key_before(key_of(v[j]), key_of(v[i])));
    }
}

proof fn lemma_by_key(v: Seq<SealedView>, i: int)
    requires
        ordered(v),
        0 <= i < v.len(),
    ensures
        by_key(v).contains_key(key_of(v[i])),
        by_key(v)[key_of(v[i])] == v[i],
{
    let k = key_of(v[i]);
    assert(has_session(v, k));
    let j = choose|j: int| 0 <= j < v.len() && key_of(#[trigger] v[j]) == k;
    lemma_unique(v, i, j);
}

proof fn lemma_put(v: Seq<SealedView>, w: Seq<SealedView>, x: SealedView, k: int)
    requires
        ordered(v),
        ordered(w),
        0 <= k < w.len(),
        w[k] == x,
        (k < v.len() && key_of(v[k]) == key_of(x) && w == v.update(k, x)) || (k <= v.len()
            && !has_session(v, key_of(x)) && w == v.insert(k, x)),
    ensures
        by_key(w) == by_key(v).insert(key_of(x), x),
{
    let a = by_key(w);
    let b = by_key(v).insert(key_of(x), x);
    lemma_by_key(w, k);
    assert forall|n: SessionKey| a.contains_key(n) <==> b.contains_key(n) by {
        if has_session(w, n) {
            let i = choose|i: int| 0 <= i < w.len() && key_of(#[trigger] w[i]) == n;
            if i != k {
                let q = if w == v.update(k, x) || i < k {
                    i
                } else {
                    i - 1
                };
                assert(v[q] == w[i]);
                assert(has_session(v, n));
            }
        }
        if has_session(v, n) {
            let i = choose|i: int| 0 <= i < v.len() && key_of(#[trigger] v[i]) == n;
            let q = if w == v.update(k, x) || i < k {
                i
            } else {
                i + 1
            };
            assert(key_of(w[q]) == n);
            assert(has_session(w, n));
        }
    }
    assert forall|n: SessionKey| a.contains_key(n) implies a[n] == b[n] by {
        if n != key_of(x) {
            assert(has_session(v, n));
            let i = choose|i: int| 0 <= i < v.len() && key_of(#[trigger] v[i]) == n;
            let q = if w == v.update(k, x) || i < k {
                i
            } else {
                i + 1
            };
            assert(w[q] == v[i]);
            lemma_by_key(w, q);
            lemma_by_key(v, i);
        }
    }
    assert(a =~= b);
}

proof fn lemma_taken_out(v: Seq<SealedView>, w: Seq<SealedView>, k: int)
    requires
        ordered(v),
        ordered(w),
        0 <= k < v.len(),
        w == v.remove(k),
    ensures
        by_key(w) == by_key(v).remove(key_of(v[k])),
{
    let a = by_key(w);
    let b = by_key(v).remove(key_of(v[k]));
    assert forall|n: SessionKey| a.contains_key(n) <==> b.contains_key(n) by {
        if has_session(w, n) {
            let i = choose|i: int| 0 <= i < w.len() && key_of(#[trigger] w[i]) == n;
            let q = if i < k {
                i
            } else {
                i + 1
            };
            assert(v[q] == w[i]);
            if n == key_of(v[k]) {
                lemma_unique(v, q, k);
            }
            assert(has_session(v, n));
        }
        if has_session(v, n) && n != key_of(v[k]) {
            let i = choose|i: int| 0 <= i < v.len() && key_of(#[trigger] v[i]) == n;
            let q = if i < k {
                i
            } else {
                i - 1
            };
            assert(w[q] == v[i]);
            assert(has_session(w, n));
        }
    }
    assert forall|n: SessionKey| a.contains_key(n) implies a[n] == b[n] by {
        assert(has_session(w, n));
        let i = choose|i: int| 0 <= i < w.len() && key_of(#[trigger] w[i]) == n;
        let q = if i < k {
            i
        } else {
            i + 1
        };
        assert(v[q] == w[i]);
        lemma_by_key(v, q);
        lemma_by_key(w, i);
    }
    assert(a =~= b);
}

/// Whether a session's token ends by a given time, and the session is in order.
pub open spec fn pending(r: SealedView, threshold: i64) -> bool {
    !r.degraded && r.access_token_expires_at is Some && r.access_token_expires_at->Some_0
        <= threshold
}

/// A session that is due for new tokens.
pub struct PendingSession {
    pub name: String,
    pub session_label: String,
    pub expires_at: i64,
}

/// What a [`PendingSession`] says.
#[verifier::ext_equal]
pub ghost struct PendingView {
    pub key: SessionKey,
    pub expires_at: i64,
}

impl View for PendingSession {
    type V = PendingView;

    open spec fn view(&self) -> PendingView {
        PendingView {
            key: SessionKey { name: self.name@, label: self.session_label@ },
            expires_at: self.expires_at,
        }
    }
}

/// What is said of sessions that are due.
pub open spec fn pending_views(v: Seq<PendingSession>) -> Seq<PendingView> {
    Seq::new(v.len(), |i: int| v[i]@)
}

/// What a row that is due says of itself.
pub open spec fn due(r: SealedView) -> PendingView {
    PendingView { key: key_of(r), expires_at: r.access_token_expires_at->Some_0 }
}

/// Whether what ends first stands first.
pub open spec fn by_expiry(v: Seq<PendingView>) -> bool {
    forall|i: int, j: int|
        0 <= i < j < v.len() ==> (#[trigger] v[i]).expires_at <= (#[trigger] v[j]).expires_at
}

/// A line of the list of sessions.
pub struct SessionLine {
    pub name: String,
    pub session_label: String,
    pub degraded: bool,
    pub expires_at: Option<i64>,
}

/// What a [`SessionLine`] says.
#[verifier::ext_equal]
pub ghost struct LineView {
    pub key: SessionKey,
    pub degraded: bool,
    pub expires_at: Option<i64>,
}

impl View for SessionLine {
    type V = LineView;

    open spec fn view(&self) -> LineView {
        LineView {
            key: SessionKey { name: self.name@, label: self.session_label@ },
            degraded: self.degraded,
            expires_at: self.expires_at,
        }
    }
}

/// What is said of the lines of a list.
pub open spec fn line_views(v: Seq<SessionLine>) -> Seq<LineView> {
    Seq::new(v.len(), |i: int| v[i]@)
}

/// The line of a row.
pub open spec fn line_of(r: SealedView) -> LineView {
    LineView { key: key_of(r), degraded: r.degraded, expires_at: r.access_token_expires_at }
}

/// The kept sessions.
pub struct OauthSessionRepository {
    rows: Vec<SealedSession>,
}

impl OauthSessionRepository {
    #[verifier::type_invariant]
    spec fn wf(self) -> bool {
        ordered(sealed_views(self.rows@))
    }

    /// The rows, in order.
    pub closed spec fn rows(self) -> Seq<SealedView> {
        sealed_views(self.rows@)
    }

    /// The rows by their names and labels.
    pub open spec fn kept(self) -> Map<SessionKey, SealedView> {
        by_key(self.rows())
    }

    /// No sessions.
    pub fn new() -> (r: OauthSessionRepository)
        ensures
            r.kept() == Map::<SessionKey, SealedView>::empty(),
    {
        let r = OauthSessionRepository { rows: Vec::new() };
        assert(r.kept() =~= Map::<SessionKey, SealedView>::empty());
        r
    }

    fn place(&self, name: &str, label: &str) -> (r: (usize, bool))
        ensures
            r.0 <= self.rows@.len(),
            forall|i: int|
                0 <= i < r.0 ==> key_before(
                    key_of(#[trigger] self.rows()[i]),
                    SessionKey { name: name@, label: label@ },
                ),
            r.1 ==> r.0 < self.rows@.len() && key_of(self.rows()[r.0 as int]) == (SessionKey {
                name: name@,
                label: label@,
            }),
            !r.1 ==> !has_session(self.rows(), SessionKey { name: name@, label: label@ })
                && forall|i: int|
                r.0 <= i < self.rows@.len() ==> key_before(
                    SessionKey { name: name@, label: label@ },
                    key_of(#[trigger] self.rows()[i]),
                ),
    {
        proof {
            use_type_invariant(self);
        }
        let ghost v = self.rows();
        let ghost key = SessionKey { name: name@, label: label@ };
        let mut k: usize = 0;
        let mut going = true;
        while k < self.rows.len() && going
            invariant
                k <= self.rows@.len(),
                v == self.rows(),
                v.len() == self.rows@.len(),
                key == (SessionKey { name: name@, label: label@ }),
                forall|i: int| 0 <= i < k ==> key_before(key_of(#[trigger] v[i]), key),
                !going ==> k < self.rows@.len() && !key_before(key_of(v[k as int]), key),
            decreases self.rows.len() - k,
                (if going {
                    1int
                } else {
                    0int
                }),
        {
            let row = &self.rows[k];
            assert(v[k as int] == row@);
            if precedes(row.name.as_str(), name) || (same(row.name.as_str(), name) && precedes(
                row.session_label.as_str(),
                label,
            )) {
                k = k + 1;
            } else {
                going = false;
            }
        }
        if k < self.rows.len() && same(self.rows[k].name.as_str(), name) && same(
            self.rows[k].session_label.as_str(),
            label,
        ) {
            (k, true)
        } else {
            proof {
                if k < v.len() {
                    lemma_key_total(key_of(v[k as int]), key);
                    assert(key_of(v[k as int]) != key);
                }
                assert forall|i: int| k <= i < v.len() implies key_before(
                    key,
                    key_of(#[trigger] v[i]),
                ) by {
                    if i > k {
                        assert(key_before(key_of(v[k as int]), key_of(v[i])));
                        lemma_key_transitive(key, key_of(v[k as int]), key_of(v[i]));
                    }
                }
                if has_session(v, key) {
                    let i = choose|i: int| 0 <= i < v.len() && key_of(#[trigger] v[i]) == key;
                    lemma_key_irreflexive(key);
                    if i < k {
                        assert(key_before(key_of(v[i]), key));
                    } else {
                        assert(key_before(key, key_of(v[i])));
                    }
                }
            }
            (k, false)
        }
    }

    /// Puts a row under its name and label, in the place of the one that was
    /// there.
    pub fn put(&mut self, row: SealedSession)
        ensures
            final(self).kept() == old(self).kept().insert(key_of(row@), row@),
    {
        proof {
            use_type_invariant(&*self);
        }
        let ghost v = self.rows();
        let ghost x = row@;
        let (k, found) = self.place(row.name.as_str(), row.session_label.as_str());
        let mut rows: Vec<SealedSession> = Vec::new();
        std::mem::swap(&mut rows, &mut self.rows);
        if found {
            rows.set(k, row);
            proof {
                let w = sealed_views(rows@);
                assert(w =~= v.update(k as int, x));
                assert(ordered(w));
                lemma_put(v, w, x, k as int);
            }
        } else {
            rows.insert(k, row);
            proof {
                let w = sealed_views(rows@);
                assert(w =~= v.insert(k as int, x));
                assert forall|i: int, j: int| 0 <= i < j < w.len() implies key_before(
                    key_of(#[trigger] w[i]),
                    key_of(#[trigger] w[j]),
                ) by {
                    let a = if i < k {
                        i
                    } else {
                        i - 1
                    };
                    let b = if j < k {
                        j
                    } else {
                        j - 1
                    };
                    if i != k {
                        assert(w[i] == v[a]);
                    }
                    if j != k {
                        assert(w[j] == v[b]);
                    }
                }
                lemma_put(v, w, x, k as int);
            }
        }
        self.rows = rows;
    }

    /// The row with the given name and label.
    pub fn row(&self, name: &str, label: &str) -> (r: Option<&SealedSession>)
        ensures
            ({
                let key = SessionKey { name: name@, label: label@ };
                match r {
                    Some(x) => self.kept().contains_key(key) && self.kept()[key] == x@,
                    None => !self.kept().contains_key(key),
                }
            }),
    {
        proof {
            use_type_invariant(self);
        }
        let (k, found) = self.place(name, label);
        if found {
            proof {
                lemma_by_key(self.rows(), k as int);
            }
            Some(&self.rows[k])
        } else {
            None
        }
    }

    /// Keeps a fresh session that was sealed as a row, and gives it back. Refused where
    /// there is one with that name and label.
    pub fn create_sealed(&mut self, row: SealedSession, session: OauthSession) -> (r: Result<
        OauthSession,
        OauthSessionError,
    >)
        ensures
            r is Ok <==> !old(self).kept().contains_key(key_of(row@)),
            match r {
                Ok(x) => x@ == session@ && final(self).kept() == old(self).kept().insert(
                    key_of(row@),
                    row@,
                ),
                Err(e) => e@ == SessionFault::Database(unique_message()) && final(self).kept()
                    == old(self).kept(),
            },
    {
        if self.row(row.name.as_str(), row.session_label.as_str()).is_some() {
            return Err(OauthSessionError::Database(unique_violation()));
        }
        self.put(row);
        Ok(session)
    }

    /// Keeps a fresh session, sealed with the given nonces. Refused where a token is too
    /// long, and where there is a session with that name and label.
    pub fn create_with(
        &mut self,
        key: &SealingKey,
        name: &str,
        session_label: &str,
        refresh_token: &str,
        access_token: Option<&str>,
        access_token_expires_at: Option<i64>,
        scope: &str,
        refresh_nonce: &[u8],
        access_nonce: &[u8],
        now: i64,
    ) -> (r: Result<OauthSession, OauthSessionError>)
        requires
            refresh_nonce@.len() == NONCE_LEN,
            access_token is Some ==> access_nonce@.len() == NONCE_LEN,
        ensures
            ({
                let s = new_session(
                    name@,
                    session_label@,
                    refresh_token@,
                    opt_str(access_token),
                    access_token_expires_at,
                    scope@,
                    now,
                );
                &&& created_with(*old(self), *final(self), key.bytes(), s, r)
                &&& r is Ok ==> sealed_row(
                    key.bytes(),
                    s,
                    refresh_nonce@,
                    access_nonce@,
                    final(self).kept()[SessionKey { name: name@, label: session_label@ }],
                )
            }),
    {
        let (row, session) = match seal_session_with(
            key,
            name,
            session_label,
            refresh_token,
            access_token,
            access_token_expires_at,
            scope,
            refresh_nonce,
            access_nonce,
            now,
        ) {
            Ok(s) => s,
            Err(e) => {
                return Err(e);
            },
        };
        proof {
            law_sealed_session_is_read_back(
                key.bytes(),
                session@,
                refresh_nonce@,
                access_nonce@,
                row@,
            );
        }
        self.create_sealed(row, session)
    }

    /// Keeps a fresh session, sealed with fresh random nonces.
    pub fn create_at(
        &mut self,
        key: &SealingKey,
        name: &str,
        session_label: &str,
        refresh_token: &str,
        access_token: Option<&str>,
        access_token_expires_at: Option<i64>,
        scope: &str,
        now: i64,
    ) -> (r: Result<OauthSession, OauthSessionError>)
        ensures
            created(
                *old(self),
                *final(self),
                key.bytes(),
                new_session(
                    name@,
                    session_label@,
                    refresh_token@,
                    opt_str(access_token),
                    access_token_expires_at,
                    scope@,
                    now,
                ),
                r,
            ),
    {
        let refresh_nonce = match draw_nonce(true) {
            Ok(n) => n,
            Err(e) => {
                return Err(e);
            },
        };
        let access_nonce = match draw_nonce(access_token.is_some()) {
            Ok(n) => n,
            Err(e) => {
                return Err(e);
            },
        };
        self.create_with(
            key,
            name,
            session_label,
            refresh_token,
            access_token,
            access_token_expires_at,
            scope,
            refresh_nonce.as_slice(),
            access_nonce.as_slice(),
            now,
        )
    }

    /// Keeps a fresh session that is made now.
    pub fn create(
        &mut self,
        key: &SealingKey,
        name: &str,
        session_label: &str,
        refresh_token: &str,
        access_token: Option<&str>,
        access_token_expires_at: Option<i64>,
        scope: &str,
    ) -> (r: Result<OauthSession, OauthSessionError>)
        ensures
            exists|now: i64|
                created(
                    *old(self),
                    *final(self),
                    key.bytes(),
                    #[trigger] new_session(
                        name@,
                        session_label@,
                        refresh_token@,
                        opt_str(access_token),
                        access_token_expires_at,
                        scope@,
                        now,
                    ),
                    r,
                ),
    {
        self.create_at(
            key,
            name,
            session_label,
            refresh_token,
            access_token,
            access_token_expires_at,
            scope,
            unix_now(),
        )
    }

    /// Keeps new tokens of a session, sealed with the given nonces. Where there is no
    /// such session nothing is kept.
    pub fn update_tokens_with(
        &mut self,
        key: &SealingKey,
        name: &str,
        session_label: &str,
        new_access_token: &str,
        new_access_token_expires_at: i64,
        new_refresh_token: Option<&str>,
        access_nonce: &[u8],
        refresh_nonce: &[u8],
        now: i64,
    ) -> (r: Result<(), OauthSessionError>)
        requires
            access_nonce@.len() == NONCE_LEN,
            new_refresh_token is Some ==> refresh_nonce@.len() == NONCE_LEN,
        ensures
            ({
                let k = SessionKey { name: name@, label: session_label@ };
                &&& updated_with(
                    old(self).kept(),
                    final(self).kept(),
                    key.bytes(),
                    k,
                    new_access_token@,
                    new_access_token_expires_at,
                    opt_str(new_refresh_token),
                    now,
                    r,
                )
                &&& r is Ok && old(self).kept().contains_key(k) ==> ({
                    let is = final(self).kept()[k];
                    is.access_nonce == Some(access_nonce@) && (new_refresh_token is Some
                        ==> is.refresh_nonce == refresh_nonce@)
                })
            }),
    {
        proof {
            use_type_invariant(&*self);
        }
        let row = match self.row(name, session_label) {
            Some(x) => x.copy(),
            None => {
                return Ok(());
            },
        };
        assert(key_of(row@) == (SessionKey { name: name@, label: session_label@ })) by {
            lemma_found(self.rows(), SessionKey { name: name@, label: session_label@ });
        }
        match renew_row(
            key,
            row,
            new_access_token,
            new_access_token_expires_at,
            new_refresh_token,
            access_nonce,
            refresh_nonce,
            now,
        ) {
            Ok(next) => {
                self.put(next);
                Ok(())
            },
            Err(e) => Err(e),
        }
    }

    /// Keeps new tokens of a session, sealed with fresh random nonces. Where there is no
    /// such session nothing is kept.
    pub fn update_tokens_at(
        &mut self,
        key: &SealingKey,
        name: &str,
        session_label: &str,
        new_access_token: &str,
        new_access_token_expires_at: i64,
        new_refresh_token: Option<&str>,
        now: i64,
    ) -> (r: Result<(), OauthSessionError>)
        ensures
            updated(
                old(self).kept(),
                final(self).kept(),
                key.bytes(),
                SessionKey { name: name@, label: session_label@ },
                new_access_token@,
                new_access_token_expires_at,
                opt_str(new_refresh_token),
                now,
                r,
            ),
    {
        if self.row(name, session_label).is_none() {
            return Ok(());
        }
        let access_nonce = match draw_nonce(true) {
            Ok(n) => n,
            Err(e) => {
                return Err(e);
            },
        };
        let refresh_nonce = match draw_nonce(new_refresh_token.is_some()) {
            Ok(n) => n,
            Err(e) => {
                return Err(e);
            },
        };
        self.update_tokens_with(
            key,
            name,
            session_label,
            new_access_token,
            new_access_token_expires_at,
            new_refresh_token,
            access_nonce.as_slice(),
            refresh_nonce.as_slice(),
            now,
        )
    }

    /// Keeps new tokens of a session, now.
    pub fn update_tokens(
        &mut self,
        key: &SealingKey,
        name: &str,
        session_label: &str,
        new_access_token: &str,
        new_access_token_expires_at: i64,
        new_refresh_token: Option<&str>,
    ) -> (r: Result<(), OauthSessionError>)
        ensures
            exists|now: i64| #[trigger]
                updated(
                    old(self).kept(),
                    final(self).kept(),
                    key.bytes(),
                    SessionKey { name: name@, label: session_label@ },
                    new_access_token@,
                    new_access_token_expires_at,
                    opt_str(new_refresh_token),
                    now,
                    r,
                ),
    {
        self.update_tokens_at(
            key,
            name,
            session_label,
            new_access_token,
            new_access_token_expires_at,
            new_refresh_token,
            unix_now(),
        )
    }

    /// Notes that the exchange of a session's tokens failed.
    pub fn mark_degraded_at(&mut self, name: &str, session_label: &str, now: i64)
        ensures
            final(self).kept() == degraded_in(
                old(self).kept(),
                SessionKey { name: name@, label: session_label@ },
                now,
            ),
    {
        proof {
            use_type_invariant(&*self);
        }
        let mut row = match self.row(name, session_label) {
            Some(x) => x.copy(),
            None => {
                return ;
            },
        };
        proof {
            lemma_found(self.rows(), SessionKey { name: name@, label: session_label@ });
        }
        row.degraded = true;
        row.updated_at = now;
        self.put(row);
    }

    /// Notes that the exchange of a session's tokens failed, now.
    pub fn mark_degraded(&mut self, name: &str, session_label: &str)
        ensures
            exists|now: i64|
                final(self).kept() == #[trigger] degraded_in(
                    old(self).kept(),
                    SessionKey { name: name@, label: session_label@ },
                    now,
                ),
    {
        self.mark_degraded_at(name, session_label, unix_now());
    }

    /// The session with the given name and label, opened with the key.
    pub fn get(&self, key: &SealingKey, name: &str, session_label: &str) -> (r: Result<
        Option<OauthSession>,
        OauthSessionError,
    >)
        ensures
            found_view(r) == found(
                self.kept(),
                key.bytes(),
                SessionKey { name: name@, label: session_label@ },
            ),
    {
        match self.row(name, session_label) {
            None => Ok(None),
            Some(row) => match unseal_session(key, row) {
                Ok(s) => Ok(Some(s)),
                Err(e) => Err(e),
            },
        }
    }

    /// Drops a session; whether there was one.
    pub fn delete(&mut self, name: &str, session_label: &str) -> (r: bool)
        ensures
            r == old(self).kept().contains_key(SessionKey { name: name@, label: session_label@ }),
            final(self).kept() == old(self).kept().remove(
                SessionKey { name: name@, label: session_label@ },
            ),
    {
        proof {
            use_type_invariant(&*self);
        }
        let ghost v = self.rows();
        let (k, found) = self.place(name, session_label);
        if !found {
            assert(self.kept() =~= old(self).kept().remove(
                SessionKey { name: name@, label: session_label@ },
            ));
            return false;
        }
        let mut rows: Vec<SealedSession> = Vec::new();
        std::mem::swap(&mut rows, &mut self.rows);
        let _gone = rows.remove(k);
        proof {
            let w = sealed_views(rows@);
            assert(w =~= v.remove(k as int));
            lemma_by_key(v, k as int);
            assert forall|i: int, j: int| 0 <= i < j < w.len() implies key_before(
                key_of(#[trigger] w[i]),
                key_of(#[trigger] w[j]),
            ) by {
                let a = if i < k {
                    i
                } else {
                    i + 1
                };
                let b = if j < k {
                    j
                } else {
                    j + 1
                };
                assert(w[i] == v[a] && w[j] == v[b]);
            }
            lemma_taken_out(v, w, k as int);
        }
        self.rows = rows;
        true
    }

    /// The sessions that are due for new tokens by the given time, the one whose
    /// token ends first in front.
    pub fn list_pending_refresh(&self, threshold_unix_secs: i64) -> (r: Vec<PendingSession>)
        ensures
            by_expiry(pending_views(r@)),
            pending_views(r@).to_multiset() == due_rows(
                self.rows(),
                threshold_unix_secs,
            ).to_multiset(),
    {
        let ghost v = self.rows();
        let mut out: Vec<PendingSession> = Vec::new();
        let mut i: usize = 0;
        assert(pending_views(out@) =~= due_rows(v.take(0), threshold_unix_secs));
        while i < self.rows.len()
            invariant
                i <= self.rows@.len(),
                v == self.rows(),
                v.len() == self.rows@.len(),
                by_expiry(pending_views(out@)),
                pending_views(out@).to_multiset() == due_rows(
                    v.take(i as int),
                    threshold_unix_secs,
                ).to_multiset(),
            decreases self.rows.len() - i,
        {
            let row = &self.rows[i];
            assert(v.take(i + 1).drop_last() =~= v.take(i as int));
            assert(v.take(i + 1).last() == row@);
            match row.access_token_expires_at {
                Some(at) => {
                    if !row.degraded && at <= threshold_unix_secs {
                        let x = PendingSession {
                            name: row.name.clone(),
                            session_label: row.session_label.clone(),
                            expires_at: at,
                        };
                        assert(x@ == due(row@));
                        proof {
                            vstd::seq_lib::to_multiset_build(
                                due_rows(v.take(i as int), threshold_unix_secs),
                                x@,
                            );
                        }
                        out = add_pending(out, x);
                    }
                },
                None => {},
            }
            i = i + 1;
        }
        assert(v.take(v.len() as int) =~= v);
        out
    }

    /// The list of sessions, in the order of names and labels.
    pub fn list_all(&self) -> (r: Vec<SessionLine>)
        ensures
            line_views(r@) == self.rows().map_values(|x: SealedView| line_of(x)),
    {
        let ghost all = self.rows().map_values(|x: SealedView| line_of(x));
        let mut out: Vec<SessionLine> = Vec::new();
        let mut i: usize = 0;
        assert(line_views(out@) =~= all.take(0));
        while i < self.rows.len()
            invariant
                i <= self.rows@.len(),
                all == self.rows().map_values(|x: SealedView| line_of(x)),
                all.len() == self.rows@.len(),
                line_views(out@) == all.take(i as int),
            decreases self.rows.len() - i,
        {
            let row = &self.rows[i];
            let ghost before_push = out@;
            out.push(
                SessionLine {
                    name: row.name.clone(),
                    session_label: row.session_label.clone(),
                    degraded: row.degraded,
                    expires_at: row.access_token_expires_at,
                },
            );
            assert(all[i as int] == line_of(row@));
            assert(line_views(out@) =~= line_views(before_push).push(all[i as int]));
            assert(all.take(i + 1) =~= all.take(i as int).push(all[i as int]));
            i = i + 1;
        }
        assert(all.take(all.len() as int) =~= all);
        out
    }
}

/// What is found under a name and a label, opened with a key.
pub open spec fn found(
    kept: Map<SessionKey, SealedView>,
    key: Seq<u8>,
    k: SessionKey,
) -> Result<Option<SessionView>, SessionFault> {
    if kept.contains_key(k) {
        match session_of(key, kept[k]) {
            Ok(s) => Ok(Some(s)),
            Err(e) => Err(e),
        }
    } else {
        Ok(None)
    }
}

/// The view of what was found.
pub open spec fn found_view(r: Result<Option<OauthSession>, OauthSessionError>) -> Result<
    Option<SessionView>,
    SessionFault,
> {
    match r {
        Ok(Some(s)) => Ok(Some(s@)),
        Ok(None) => Ok(None),
        Err(e) => Err(e@),
    }
}

/// The rows that are due by a given time.
pub open spec fn due_rows(v: Seq<SealedView>, threshold: i64) -> Seq<PendingView>
    decreases v.len(),
{
    if v.len() == 0 {
        Seq::empty()
    } else {
        let rest = due_rows(v.drop_last(), threshold);
        if pending(v.last(), threshold) {
            rest.push(due(v.last()))
        } else {
            rest
        }
    }
}

/// Puts one more into a list by expiry, behind those that end at the same time.
fn add_pending(v: Vec<PendingSession>, x: PendingSession) -> (r: Vec<PendingSession>)
    requires
        by_expiry(pending_views(v@)),
    ensures
        by_expiry(pending_views(r@)),
        pending_views(r@).to_multiset() == pending_views(v@).to_multiset().insert(x@),
{
    let ghost was = pending_views(v@);
    let ghost xv = x@;
    let mut out = v;
    let mut k: usize = out.len();
    while k > 0 && out[k - 1].expires_at > x.expires_at
        invariant
            k <= out@.len(),
            was == pending_views(out@),
            by_expiry(was),
            xv == x@,
            forall|i: int| k <= i < out@.len() ==> (#[trigger] was[i]).expires_at > xv.expires_at,
        decreases k,
    {
        assert(was[k - 1].expires_at == out@[k - 1].expires_at);
        k = k - 1;
    }
    proof {
        if k > 0 {
            assert(was[k - 1].expires_at == out@[k - 1].expires_at);
            assert forall|i: int| 0 <= i < k implies (#[trigger] was[i]).expires_at
                <= xv.expires_at by {
                if i < k - 1 {
                    assert(was[i].expires_at <= was[k - 1].expires_at);
                }
            }
        }
    }
    out.insert(k, x);
    proof {
        let now = pending_views(out@);
        assert(now =~= was.insert(k as int, xv));
        vstd::seq_lib::to_multiset_insert(was, k as int, xv);
        assert forall|i: int, j: int| 0 <= i < j < now.len() implies (#[trigger] now[i]).expires_at
            <= (#[trigger] now[j]).expires_at by {
            let a = if i < k {
                i
            } else {
                i - 1
            };
            let b = if j < k {
                j
            } else {
                j - 1
            };
            if i != k {
                assert(now[i] == was[a]);
            }
            if j != k {
                assert(now[j] == was[b]);
            }
        }
    }
    out
}

proof fn lemma_found(v: Seq<SealedView>, k: SessionKey)
    requires
        by_key(v).contains_key(k),
    ensures
        key_of(by_key(v)[k]) == k,
{
    assert(has_session(v, k));
}

/// What the store says of a second session with one name and label.
pub open spec fn unique_message() -> Seq<char> {
    "UNIQUE constraint failed: oauth_sessions.name, oauth_sessions.session_label"@
}

fn unique_violation() -> (r: String)
    ensures
        r@ == unique_message(),
{
    "UNIQUE constraint failed: oauth_sessions.name, oauth_sessions.session_label".to_string()
}

/// Why a fresh session cannot be kept, if so: one of its tokens is too long to be
/// sealed, or there is a session with its name and label.
pub open spec fn create_fault(kept: Map<SessionKey, SealedView>, s: SessionView) -> Option<
    SessionFault,
> {
    if !(sealable(s.refresh_token) && opt_sealable(s.access_token)) {
        Some(too_long())
    } else if kept.contains_key(SessionKey { name: s.name, label: s.session_label }) {
        Some(SessionFault::Database(unique_message()))
    } else {
        None
    }
}

/// Whether keeping the fresh session `s` gave `r` and left `after`, where there were
/// nonces to seal it with.
pub open spec fn created_with(
    before: OauthSessionRepository,
    after: OauthSessionRepository,
    key: Seq<u8>,
    s: SessionView,
    r: Result<OauthSession, OauthSessionError>,
) -> bool {
    let k = SessionKey { name: s.name, label: s.session_label };
    match create_fault(before.kept(), s) {
        Some(f) => session_result(r) == Err::<SessionView, SessionFault>(f) && after.kept()
            == before.kept(),
        None => {
            &&& session_result(r) == Ok::<SessionView, SessionFault>(s)
            &&& after.kept().contains_key(k)
            &&& after.kept() == before.kept().insert(k, after.kept()[k])
            &&& session_of(key, after.kept()[k]) == Ok::<SessionView, SessionFault>(s)
        },
    }
}

/// Whether keeping the fresh session `s` gave `r` and left `after`. Where there were no
/// random bytes for the nonces nothing is kept.
pub open spec fn created(
    before: OauthSessionRepository,
    after: OauthSessionRepository,
    key: Seq<u8>,
    s: SessionView,
    r: Result<OauthSession, OauthSessionError>,
) -> bool {
    if r is Err && no_nonce(r->Err_0@) {
        after.kept() == before.kept()
    } else {
        created_with(before, after, key, s, r)
    }
}

/// Whether keeping new tokens of the session at `k` gave `r` and left `is`, where there
/// were nonces to seal them with.
pub open spec fn updated_with(
    was: Map<SessionKey, SealedView>,
    is: Map<SessionKey, SealedView>,
    key: Seq<u8>,
    k: SessionKey,
    access_token: Seq<char>,
    expires_at: i64,
    refresh_token: Option<Seq<char>>,
    now: i64,
    r: Result<(), OauthSessionError>,
) -> bool {
    if !was.contains_key(k) {
        r is Ok && is == was
    } else if !(sealable(access_token) && opt_sealable(refresh_token)) {
        r is Err && r->Err_0@ == too_long() && is == was
    } else {
        &&& r is Ok
        &&& is.contains_key(k)
        &&& is == was.insert(k, is[k])
        &&& renewed_row(key, was[k], is[k], access_token, expires_at, refresh_token, now)
    }
}

/// Whether keeping new tokens of the session at `k` gave `r` and left `is`. Where there
/// were no random bytes for the nonces nothing is kept.
pub open spec fn updated(
    was: Map<SessionKey, SealedView>,
    is: Map<SessionKey, SealedView>,
    key: Seq<u8>,
    k: SessionKey,
    access_token: Seq<char>,
    expires_at: i64,
    refresh_token: Option<Seq<char>>,
    now: i64,
    r: Result<(), OauthSessionError>,
) -> bool {
    if was.contains_key(k) && r is Err && no_nonce(r->Err_0@) {
        is == was
    } else {
        updated_with(was, is, key, k, access_token, expires_at, refresh_token, now, r)
    }
}

/// The sessions after the exchange of tokens of one of them failed.
pub open spec fn degraded_in(
    m: Map<SessionKey, SealedView>,
    k: SessionKey,
    now: i64,
) -> Map<SessionKey, SealedView> {
    if m.contains_key(k) {
        m.insert(k, SealedView { degraded: true, updated_at: now, ..m[k] })
    } else {
        m
    }
}

/// A session that was kept is read back as it was, and the sessions under other names
/// and labels stay as they were, one that is not there included. Where the cipher does
/// not open the refresh token under another key, that key is refused.
pub proof fn law_created_session_is_read_back(
    before: OauthSessionRepository,
    after: OauthSessionRepository,
    key: Seq<u8>,
    other_key: Seq<u8>,
    s: SessionView,
    r: Result<OauthSession, OauthSessionError>,
    other: SessionKey,
)
    requires
        created(before, after, key, s, r),
        r is Ok,
    ensures
        ({
            let k = SessionKey { name: s.name, label: s.session_label };
            let row = after.kept()[k];
            &&& found(after.kept(), key, k) == Ok::<Option<SessionView>, SessionFault>(Some(s))
            &&& other != k ==> found(after.kept(), key, other) == found(before.kept(), key, other)
            &&& other != k && !before.kept().contains_key(other) ==> found(
                after.kept(),
                key,
                other,
            ) == Ok::<Option<SessionView>, SessionFault>(None)
            &&& gcm_opened(other_key, row.refresh_nonce, row.refresh_ciphertext) is None ==> found(
                after.kept(),
                other_key,
                k,
            ) == Err::<Option<SessionView>, SessionFault>(
                SessionFault::Sealing(SealingFault::Decrypt),
            )
        }),
{
}

/// A failed exchange of tokens shows in the session, and a session that is
/// degraded is not due again.
pub proof fn law_degraded_session_is_not_due(
    m: Map<SessionKey, SealedView>,
    k: SessionKey,
    now: i64,
    threshold: i64,
)
    requires
        m.contains_key(k),
    ensures
        degraded_in(m, k, now)[k].degraded,
        !pending(degraded_in(m, k, now)[k], threshold),
{
}

/// A session is due exactly if it is in order and its token ends by the given time; it is
/// listed with its own name, label and end.
pub proof fn law_what_sessions_are_due(r: SealedSession, threshold: i64)
    ensures
        pending(r@, threshold) <==> !r.degraded && (r.access_token_expires_at matches Some(at) && at
            <= threshold),
        due(r@).key.name == r.name@,
        due(r@).key.label == r.session_label@,
        r.access_token_expires_at matches Some(at) ==> due(r@).expires_at == at,
        line_of(r@).key == due(r@).key,
        line_of(r@).degraded == r.degraded,
        line_of(r@).expires_at == r.access_token_expires_at,
{
}

/// Each further row that is due is among the due ones, and no other.
pub proof fn law_due_rows_are_found_one_by_one(
    v: Seq<SealedView>,
    r: SealedView,
    threshold: i64,
)
    ensures
        due_rows(Seq::empty(), threshold).len() == 0,
        pending(r, threshold) ==> due_rows(v.push(r), threshold) == due_rows(v, threshold) + seq![
            due(r),
        ],
        !pending(r, threshold) ==> due_rows(v.push(r), threshold) == due_rows(v, threshold),
{
    assert(v.push(r).drop_last() =~= v);
    assert(due_rows(v, threshold) + seq![due(r)] =~= due_rows(v, threshold).push(due(r)));
}

/// A failed exchange marks its own session and when that was changed, and nothing else of
/// it; the other sessions stay as they are.
pub proof fn law_degrading_touches_one_session(
    m: Map<SessionKey, SealedView>,
    k: SessionKey,
    other: SessionKey,
    now: i64,
)
    ensures
        degraded_in(m, k, now).dom() == m.dom(),
        other != k && m.contains_key(other) ==> degraded_in(m, k, now)[other] == m[other],
        m.contains_key(k) ==> {
            let r = degraded_in(m, k, now)[k];
            &&& r.degraded && r.updated_at == now
            &&& r == (SealedView { degraded: r.degraded, updated_at: r.updated_at, ..m[k] })
        },
{
    assert(degraded_in(m, k, now).dom() =~= m.dom());
}

/// A session is kept unless one of its tokens is too long to be sealed, or one with its
/// name and label is there; one with another name or another label is no obstacle.
pub proof fn law_what_sessions_can_be_kept(kept: Map<SessionKey, SealedView>, s: SessionView)
    ensures
        create_fault(kept, s) is None <==> {
            &&& sealable(s.refresh_token)
            &&& s.access_token matches Some(t) ==> sealable(t)
            &&& !kept.contains_key(SessionKey { name: s.name, label: s.session_label })
        },
        create_fault(kept, s) matches Some(f) ==> f is Sealing || f is Database,
        sealable(s.refresh_token) && s.access_token is None && kept.contains_key(
            SessionKey { name: s.name, label: s.session_label },
        ) ==> create_fault(kept, s)->Some_0 is Database,
{
}

/// Sessions are ordered by name, and those of one name by label.
pub proof fn law_order_of_sessions(a: SessionKey, b: SessionKey)
    ensures
        before(a.name, b.name) ==> key_before(a, b) && !key_before(b, a),
        a.name == b.name ==> (key_before(a, b) <==> before(a.label, b.label)),
{
    lemma_before_irreflexive(a.name);
    if before(a.name, b.name) && before(b.name, a.name) {
        lemma_before_transitive(a.name, b.name, a.name);
    }
}

/// Keeping new tokens changes one session and no other, and of that one nothing but its
/// tokens, their end, the account, and that it is in order and changed now.
pub proof fn law_updating_touches_one_session(
    was: Map<SessionKey, SealedView>,
    is: Map<SessionKey, SealedView>,
    key: Seq<u8>,
    k: SessionKey,
    other: SessionKey,
    access_token: Seq<char>,
    expires_at: i64,
    refresh_token: Option<Seq<char>>,
    now: i64,
    r: Result<(), OauthSessionError>,
)
    requires
        updated(was, is, key, k, access_token, expires_at, refresh_token, now, r),
    ensures
        other != k ==> (is.contains_key(other) <==> was.contains_key(other)),
        other != k && was.contains_key(other) ==> is[other] == was[other],
        was.contains_key(k) <==> is.contains_key(k),
        r is Err ==> is == was,
        r is Ok && was.contains_key(k) ==> {
            &&& is[k].name == was[k].name && is[k].session_label == was[k].session_label
            &&& is[k].scope == was[k].scope && is[k].created_at == was[k].created_at
            &&& is[k].access_token_expires_at == Some(expires_at) && is[k].updated_at == now
            &&& is[k].degraded == false
            &&& gcm_opened(key, is[k].access_nonce->Some_0, is[k].access_ciphertext->Some_0) == Some(
                vstd::utf8::encode_utf8(access_token),
            )
            &&& refresh_token is None ==> is[k].refresh_ciphertext == was[k].refresh_ciphertext
                && is[k].refresh_nonce == was[k].refresh_nonce
            &&& refresh_token matches Some(t) ==> gcm_opened(
                key,
                is[k].refresh_nonce,
                is[k].refresh_ciphertext,
            ) == Some(vstd::utf8::encode_utf8(t))
        },
{
}

/// The sessions that are due are listed with the one whose token ends first in front.
pub proof fn law_first_to_end_is_first(v: Seq<PendingView>, i: int, j: int)
    requires
        by_expiry(v),
        0 <= i <= j < v.len(),
    ensures
        v[i].expires_at <= v[j].expires_at,
{
}

/// A session that was created is given back as it was meant and can be read with its key; one
/// that cannot be kept is refused, and then nothing changes.
pub proof fn law_creating_keeps_or_refuses(
    before: OauthSessionRepository,
    after: OauthSessionRepository,
    key: Seq<u8>,
    s: SessionView,
    r: Result<OauthSession, OauthSessionError>,
)
    requires
        created_with(before, after, key, s, r),
    ensures
        ({
            let k = SessionKey { name: s.name, label: s.session_label };
            &&& r is Ok <==> create_fault(before.kept(), s) is None
            &&& r is Ok ==> r->Ok_0@ == s && found(after.kept(), key, k) == Ok::<
                Option<SessionView>,
                SessionFault,
            >(Some(s))
            &&& r is Err ==> after.kept() == before.kept() && create_fault(before.kept(), s)
                == Some(r->Err_0@)
        }),
{
}

} // verus!
