//! Operators that present a token or a certificate.
use vstd::prelude::*;

use crate::argon2_helper;
use crate::argon2_helper::{
    hash_error_message, hash_of, lemma_short_is_hashable, no_salt_message, secret_matches,
    HashError, HashErrorView,
};
use crate::audit::{bare_event, detail, detail_text, AuditEvent, AuditView, Decision, EventClass};
use crate::auth_v2::agent::{bearer_in, bearer_token, opt_event, verdict_view};
use crate::auth_v2::{AuthError, AuthFault};
use crate::json::{jempty, jstr, opt_json, Json, JsonView};
use crate::repo::{opt_token, ParsedToken, TokenNamespace, TokenView};
use crate::secret::Secret;
use crate::text::{opt_text, same};

verus! {

/// An operator that was let in.
#[derive(Debug)]
pub struct OperatorIdentity {
    pub name: String,
    pub scope: Option<Json>,
}

/// What an [`OperatorIdentity`] says.
#[verifier::ext_equal]
pub ghost struct OperatorView {
    pub name: Seq<char>,
    pub scope: Option<JsonView>,
}

impl View for OperatorIdentity {
    type V = OperatorView;

    open spec fn view(&self) -> OperatorView {
        OperatorView { name: self.name@, scope: opt_json(self.scope) }
    }
}

/// An operator as the operators file lists it.
pub struct OperatorRecord {
    pub name: String,
    pub public_id: String,
    pub token_hash: String,
    pub scope: Option<Json>,
    pub cert_identity: Option<String>,
}

/// What an [`OperatorRecord`] says.
#[verifier::ext_equal]
pub ghost struct OperatorRecordView {
    pub name: Seq<char>,
    pub public_id: Seq<char>,
    pub token_hash: Seq<char>,
    pub scope: Option<JsonView>,
    pub cert_identity: Option<Seq<char>>,
}

impl View for OperatorRecord {
    type V = OperatorRecordView;

    open spec fn view(&self) -> OperatorRecordView {
        OperatorRecordView {
            name: self.name@,
            public_id: self.public_id@,
            token_hash: self.token_hash@,
            scope: opt_json(self.scope),
            cert_identity: opt_text(self.cert_identity),
        }
    }
}

/// The operators file.
pub struct OperatorsFile {
    pub operators: Vec<OperatorRecord>,
}

/// The views of listed operators.
pub open spec fn operator_views(v: Seq<OperatorRecord>) -> Seq<OperatorRecordView> {
    Seq::new(v.len(), |i: int| v[i]@)
}

/// The first operator with a public id.
pub open spec fn by_public_id(
    v: Seq<OperatorRecordView>,
    public_id: Seq<char>,
) -> Option<OperatorRecordView>
    decreases v.len(),
{
    if v.len() == 0 {
        None
    } else if v[0].public_id == public_id {
        Some(v[0])
    } else {
        by_public_id(v.skip(1), public_id)
    }
}

/// The first operator that a certificate identity belongs to.
pub open spec fn by_cert_identity(
    v: Seq<OperatorRecordView>,
    identity: Seq<char>,
) -> Option<OperatorRecordView>
    decreases v.len(),
{
    if v.len() == 0 {
        None
    } else if v[0].cert_identity == Some(identity) {
        Some(v[0])
    } else {
        by_cert_identity(v.skip(1), identity)
    }
}

/// The identity that a listed operator has.
pub open spec fn operator_of(r: OperatorRecordView) -> OperatorView {
    OperatorView { name: r.name, scope: r.scope }
}

fn operator_identity(record: &OperatorRecord) -> (r: OperatorIdentity)
    ensures
        r@ == operator_of(record@),
{
    OperatorIdentity { name: record.name.clone(), scope: crate::json::copy_opt(&record.scope) }
}

/// What came of an operator's attempt: the operator or the error, and what is to
/// be recorded of it.
pub struct OperatorOutcome {
    pub result: Result<OperatorIdentity, AuthError>,
    pub audit: Option<AuditEvent>,
}

/// What an [`OperatorOutcome`] says.
#[verifier::ext_equal]
pub ghost struct OperatorOutcomeView {
    pub result: Result<OperatorView, AuthFault>,
    pub audit: Option<AuditView>,
}

impl View for OperatorOutcome {
    type V = OperatorOutcomeView;

    open spec fn view(&self) -> OperatorOutcomeView {
        OperatorOutcomeView {
            result: match self.result {
                Ok(i) => Ok(i@),
                Err(e) => Err(e@),
            },
            audit: opt_event(self.audit),
        }
    }
}

/// What is recorded of an operator that was not let in by a token.
pub open spec fn operator_failure_event(
    name: Option<Seq<char>>,
    reason: Seq<char>,
    ts_ms: i64,
) -> AuditView {
    AuditView {
        operator_name: name,
        auth_method: Some("bearer"@),
        details: detail("reason"@, reason),
        ..bare_event(ts_ms as int, EventClass::Security, "operator_auth_failure"@, Decision::Denied)
    }
}

/// What is recorded of a certificate that belongs to no operator.
pub open spec fn cert_identity_failure_event(identity: Seq<char>, ts_ms: i64) -> AuditView {
    AuditView {
        auth_method: Some("mtls"@),
        details: Some(
            jempty().with("reason"@, jstr("unknown_cert_identity"@)).with(
                "cert_identity"@,
                jstr(identity),
            ),
        ),
        ..bare_event(ts_ms as int, EventClass::Security, "operator_auth_failure"@, Decision::Denied)
    }
}

/// The outcome of a refused attempt with a token.
pub open spec fn operator_refused(
    audit: bool,
    name: Option<Seq<char>>,
    reason: Seq<char>,
    ts_ms: i64,
    fault: AuthFault,
) -> OperatorOutcomeView {
    OperatorOutcomeView {
        result: Err(fault),
        audit: if audit {
            Some(operator_failure_event(name, reason, ts_ms))
        } else {
            None
        },
    }
}

/// The outcome for a listed operator, given what testing the presented secret
/// said.
pub open spec fn operator_judged(
    audit: bool,
    r: OperatorRecordView,
    verdict: Result<bool, HashErrorView>,
    ts_ms: i64,
) -> OperatorOutcomeView {
    match verdict {
        Ok(true) => OperatorOutcomeView { result: Ok(operator_of(r)), audit: None },
        Ok(false) => operator_refused(
            audit,
            Some(r.name),
            "secret_mismatch"@,
            ts_ms,
            AuthFault::InvalidCredential,
        ),
        Err(e) => OperatorOutcomeView {
            result: Err(AuthFault::Backend(hash_error_message(e))),
            audit: None,
        },
    }
}

/// The outcome of an attempt with a token, given what the token was parsed to.
pub open spec fn operator_bearer(
    audit: bool,
    records: Seq<OperatorRecordView>,
    header: Seq<char>,
    parsed: Option<TokenView>,
    ts_ms: i64,
) -> OperatorOutcomeView {
    if bearer_in(header) is None {
        operator_refused(audit, None, "missing_credential"@, ts_ms, AuthFault::MissingCredential)
    } else {
        match parsed {
            None => operator_refused(
                audit,
                None,
                "malformed_token"@,
                ts_ms,
                AuthFault::InvalidCredential,
            ),
            Some(t) => if t.namespace != TokenNamespace::Operator {
                operator_refused(
                    audit,
                    None,
                    "wrong_namespace"@,
                    ts_ms,
                    AuthFault::InvalidCredential,
                )
            } else {
                match by_public_id(records, t.public_id) {
                    None => operator_refused(
                        audit,
                        None,
                        "unknown_public_id"@,
                        ts_ms,
                        AuthFault::InvalidCredential,
                    ),
                    Some(r) => operator_judged(
                        audit,
                        r,
                        secret_matches(r.token_hash, t.secret),
                        ts_ms,
                    ),
                }
            },
        }
    }
}

/// The outcome of an attempt with a tested certificate.
pub open spec fn operator_by_cert(
    audit: bool,
    records: Seq<OperatorRecordView>,
    identity: Seq<char>,
    ts_ms: i64,
) -> OperatorOutcomeView {
    match by_cert_identity(records, identity) {
        Some(r) => OperatorOutcomeView { result: Ok(operator_of(r)), audit: None },
        None => OperatorOutcomeView {
            result: Err(AuthFault::InvalidCredential),
            audit: if audit {
                Some(cert_identity_failure_event(identity, ts_ms))
            } else {
                None
            },
        },
    }
}

/// Lets operators in by their tokens or certificates.
pub struct OperatorAuthenticator {
    records: Vec<OperatorRecord>,
    decoy_hash: String,
    audit: bool,
}

impl OperatorAuthenticator {
    /// The operators that are listed.
    pub closed spec fn listed(self) -> Seq<OperatorRecordView> {
        operator_views(self.records@)
    }

    /// Whether refused attempts are recorded.
    pub closed spec fn audits(self) -> bool {
        self.audit
    }

    /// The hash that is tested where there is no operator.
    pub closed spec fn decoy(self) -> Seq<char> {
        self.decoy_hash@
    }

    /// Lets the operators of a file in and records nothing.
    pub fn load(file: OperatorsFile) -> (r: Result<OperatorAuthenticator, AuthError>)
        ensures
            operators_loaded(file, false, r),
    {
        OperatorAuthenticator::load_with_audit(file, false)
    }

    /// Lets the operators of a file in; with `audit`, refused attempts are
    /// recorded.
    pub fn load_with_audit(file: OperatorsFile, audit: bool) -> (r: Result<
        OperatorAuthenticator,
        AuthError,
    >)
        ensures
            operators_loaded(file, audit, r),
    {
        let decoy = Secret::new("decoy-operator-secret-for-constant-time-on-miss".to_string());
        proof {
            reveal_strlit("decoy-operator-secret-for-constant-time-on-miss");
            lemma_short_is_hashable(decoy@);
        }
        match argon2_helper::hash(&decoy) {
            Ok(decoy_hash) => Ok(OperatorAuthenticator::with_decoy(file, decoy_hash, audit)),
            Err(e) => Err(AuthError::Backend(e.message())),
        }
    }

    /// Lets the operators of a file in, and tests the secrets of unknown ones
    /// against a given hash; with `audit`, refused attempts are recorded.
    pub fn with_decoy(file: OperatorsFile, decoy_hash: String, audit: bool) -> (r:
        OperatorAuthenticator)
        ensures
            r.listed() == operator_views(file.operators@),
            r.decoy() == decoy_hash@,
            r.audits() == audit,
    {
        OperatorAuthenticator { records: file.operators, decoy_hash, audit }
    }

    fn refuse(&self, name: Option<String>, reason: &str, ts_ms: i64, error: AuthError) -> (r:
        OperatorOutcome)
        ensures
            r@ == operator_refused(self.audits(), opt_text(name), reason@, ts_ms, error@),
    {
        let audit = if self.audit {
            let mut event = AuditEvent::bare(
                ts_ms,
                EventClass::Security,
                "operator_auth_failure",
                Decision::Denied,
            );
            event.operator_name = name;
            event.auth_method = Some("bearer".to_string());
            event.details = detail_text("reason", reason);
            Some(event)
        } else {
            None
        };
        OperatorOutcome { result: Err(error), audit }
    }

    fn find_public_id(&self, public_id: &str) -> (r: Option<usize>)
        ensures
            match r {
                Some(i) => i < self.records@.len() && by_public_id(self.listed(), public_id@)
                    == Some(self.records@[i as int]@),
                None => by_public_id(self.listed(), public_id@) is None,
            },
    {
        let mut i: usize = 0;
        let ghost all = self.listed();
        assert(all.skip(0) =~= all);
        while i < self.records.len()
            invariant
                i <= self.records@.len(),
                all == self.listed(),
                all.len() == self.records@.len(),
                by_public_id(all, public_id@) == by_public_id(all.skip(i as int), public_id@),
            decreases self.records.len() - i,
        {
            assert(all.skip(i as int)[0] == self.records@[i as int]@);
            if same(self.records[i].public_id.as_str(), public_id) {
                return Some(i);
            }
            assert(all.skip(i as int).skip(1) =~= all.skip(i + 1));
            i = i + 1;
        }
        None
    }

    fn find_cert_identity(&self, identity: &str) -> (r: Option<usize>)
        ensures
            match r {
                Some(i) => i < self.records@.len() && by_cert_identity(self.listed(), identity@)
                    == Some(self.records@[i as int]@),
                None => by_cert_identity(self.listed(), identity@) is None,
            },
    {
        let mut i: usize = 0;
        let ghost all = self.listed();
        assert(all.skip(0) =~= all);
        while i < self.records.len()
            invariant
                i <= self.records@.len(),
                all == self.listed(),
                all.len() == self.records@.len(),
                by_cert_identity(all, identity@) == by_cert_identity(all.skip(i as int), identity@),
            decreases self.records.len() - i,
        {
            assert(all.skip(i as int)[0] == self.records@[i as int]@);
            let hit = match &self.records[i].cert_identity {
                Some(c) => same(c.as_str(), identity),
                None => false,
            };
            if hit {
                return Some(i);
            }
            assert(all.skip(i as int).skip(1) =~= all.skip(i + 1));
            i = i + 1;
        }
        None
    }

    /// The outcome for a listed operator, given what testing the presented secret
    /// said.
    pub fn judge(
        &self,
        record: &OperatorRecord,
        verdict: Result<bool, HashError>,
        ts_ms: i64,
    ) -> (r: OperatorOutcome)
        ensures
            r@ == operator_judged(self.audits(), record@, verdict_view(verdict), ts_ms),
    {
        match verdict {
            Ok(true) => OperatorOutcome { result: Ok(operator_identity(record)), audit: None },
            Ok(false) => self.refuse(
                Some(record.name.clone()),
                "secret_mismatch",
                ts_ms,
                AuthError::InvalidCredential,
            ),
            Err(e) => OperatorOutcome {
                result: Err(AuthError::Backend(e.message())),
                audit: None,
            },
        }
    }

    /// Lets an operator in by an `Authorization` header, given what its token was
    /// parsed to.
    pub fn authenticate_bearer(&self, header: &str, parsed: Option<ParsedToken>, ts_ms: i64) -> (r:
        OperatorOutcome)
        ensures
            r@ == operator_bearer(
                self.audits(),
                self.listed(),
                header@,
                opt_token(parsed),
                ts_ms,
            ),
    {
        if bearer_token(header).is_none() {
            return self.refuse(None, "missing_credential", ts_ms, AuthError::MissingCredential);
        }
        let token = match parsed {
            Some(t) => t,
            None => {
                let dummy = Secret::new("dummy".to_string());
                let _ = argon2_helper::verify(self.decoy_hash.as_str(), &dummy);
                return self.refuse(None, "malformed_token", ts_ms, AuthError::InvalidCredential);
            },
        };
        if token.namespace != TokenNamespace::Operator {
            return self.refuse(None, "wrong_namespace", ts_ms, AuthError::InvalidCredential);
        }
        match self.find_public_id(token.public_id.as_str()) {
            None => {
                let dummy = Secret::new("dummy".to_string());
                let _ = argon2_helper::verify(self.decoy_hash.as_str(), &dummy);
                self.refuse(None, "unknown_public_id", ts_ms, AuthError::InvalidCredential)
            },
            Some(i) => {
                let record = &self.records[i];
                let verdict = argon2_helper::verify(record.token_hash.as_str(), &token.secret);
                self.judge(record, verdict, ts_ms)
            },
        }
    }

    /// Lets an operator in by the identity of a certificate that was tested
    /// before.
    pub fn authenticate_cert_identity(&self, cert_identity: &str, ts_ms: i64) -> (r:
        OperatorOutcome)
        ensures
            r@ == operator_by_cert(self.audits(), self.listed(), cert_identity@, ts_ms),
    {
        match self.find_cert_identity(cert_identity) {
            Some(i) => OperatorOutcome {
                result: Ok(operator_identity(&self.records[i])),
                audit: None,
            },
            None => {
                let audit = if self.audit {
                    let mut event = AuditEvent::bare(
                        ts_ms,
                        EventClass::Security,
                        "operator_auth_failure",
                        Decision::Denied,
                    );
                    event.auth_method = Some("mtls".to_string());
                    event.details = Some(
                        Json::object().with("reason", Json::text("unknown_cert_identity")).with(
                            "cert_identity",
                            Json::text(cert_identity),
                        ),
                    );
                    Some(event)
                } else {
                    None
                };
                OperatorOutcome { result: Err(AuthError::InvalidCredential), audit }
            },
        }
    }
}

/// Whether `r` lets in the operators of a file, or is the error for want of random
/// bytes.
pub open spec fn operators_loaded(
    file: OperatorsFile,
    audit: bool,
    r: Result<OperatorAuthenticator, AuthError>,
) -> bool {
    match r {
        Ok(a) => a.listed() == operator_views(file.operators@) && a.audits() == audit && hash_of(
            a.decoy(),
            "decoy-operator-secret-for-constant-time-on-miss"@,
        ),
        Err(e) => e@ matches AuthFault::Backend(m) && no_salt_message(m),
    }
}

/// An operator gets in by a token only if a listed operator has its public id and
/// its secret passes the test against that operator's hash.
pub proof fn law_only_listed_operators_get_in(
    audit: bool,
    records: Seq<OperatorRecordView>,
    header: Seq<char>,
    parsed: Option<TokenView>,
    ts_ms: i64,
)
    ensures
        operator_bearer(audit, records, header, parsed, ts_ms).result is Ok <==> ({
            &&& bearer_in(header) is Some
            &&& parsed is Some
            &&& parsed->Some_0.namespace == TokenNamespace::Operator
            &&& by_public_id(records, parsed->Some_0.public_id) is Some
            &&& secret_matches(
                by_public_id(records, parsed->Some_0.public_id)->Some_0.token_hash,
                parsed->Some_0.secret,
            ) == Ok::<bool, HashErrorView>(true)
        }),
{
}

/// Where refused attempts are recorded, every one is, a header without a token
/// included. Only an attempt that a hash that cannot be read ended is not.
pub proof fn law_refused_operators_are_recorded(
    records: Seq<OperatorRecordView>,
    header: Seq<char>,
    parsed: Option<TokenView>,
    ts_ms: i64,
)
    ensures
        operator_bearer(true, records, header, parsed, ts_ms).result matches Err(fault) && !(
        fault is Backend) ==> (operator_bearer(true, records, header, parsed, ts_ms).audit matches
            Some(e) && e.event == "operator_auth_failure"@ && e.event_class == EventClass::Security
            && e.decision == Decision::Denied),
{
}

/// The first listed operator with a public id is the one that a token with that id belongs
/// to; where none has it, the token belongs to nobody.
pub proof fn law_first_operator_with_the_id(v: Seq<OperatorRecordView>, public_id: Seq<char>)
    ensures
        by_public_id(v, public_id) is None <==> forall|k: int|
            0 <= k < v.len() ==> (#[trigger] v[k]).public_id != public_id,
        by_public_id(v, public_id) matches Some(r) ==> exists|k: int|
            0 <= k < v.len() && #[trigger] v[k] == r && r.public_id == public_id && forall|h: int|
                0 <= h < k ==> (#[trigger] v[h]).public_id != public_id,
    decreases v.len(),
{
    if v.len() > 0 && v[0].public_id != public_id {
        let rest = v.skip(1);
        law_first_operator_with_the_id(rest, public_id);
        if let Some(r) = by_public_id(rest, public_id) {
            let k = choose|k: int|
                0 <= k < rest.len() && #[trigger] rest[k] == r && r.public_id == public_id
                    && forall|h: int| 0 <= h < k ==> (#[trigger] rest[h]).public_id != public_id;
            assert(v[k + 1] == r);
            assert forall|h: int| 0 <= h < k + 1 implies (#[trigger] v[h]).public_id
                != public_id by {
                if h > 0 {
                    assert(rest[h - 1] == v[h]);
                }
            }
        } else {
            assert forall|h: int| 0 <= h < v.len() implies (#[trigger] v[h]).public_id
                != public_id by {
                if h > 0 {
                    assert(rest[h - 1] == v[h]);
                }
            }
        }
    }
}

/// The first listed operator with a certificate identity is the one that a certificate with
/// that identity belongs to.
pub proof fn law_first_operator_with_the_certificate(
    v: Seq<OperatorRecordView>,
    identity: Seq<char>,
)
    ensures
        by_cert_identity(v, identity) is None <==> forall|k: int|
            0 <= k < v.len() ==> (#[trigger] v[k]).cert_identity != Some(identity),
        by_cert_identity(v, identity) matches Some(r) ==> exists|k: int|
            0 <= k < v.len() && #[trigger] v[k] == r && r.cert_identity == Some(identity) && forall|
                h: int,
            |
                0 <= h < k ==> (#[trigger] v[h]).cert_identity != Some(identity),
    decreases v.len(),
{
    if v.len() > 0 && v[0].cert_identity != Some(identity) {
        let rest = v.skip(1);
        law_first_operator_with_the_certificate(rest, identity);
        if let Some(r) = by_cert_identity(rest, identity) {
            let k = choose|k: int|
                0 <= k < rest.len() && #[trigger] rest[k] == r && r.cert_identity == Some(identity)
                    && forall|h: int|
                    0 <= h < k ==> (#[trigger] rest[h]).cert_identity != Some(identity);
            assert(v[k + 1] == r);
            assert forall|h: int| 0 <= h < k + 1 implies (#[trigger] v[h]).cert_identity != Some(
                identity,
            ) by {
                if h > 0 {
                    assert(rest[h - 1] == v[h]);
                }
            }
        } else {
            assert forall|h: int| 0 <= h < v.len() implies (#[trigger] v[h]).cert_identity != Some(
                identity,
            ) by {
                if h > 0 {
                    assert(rest[h - 1] == v[h]);
                }
            }
        }
    }
}

/// An operator that gets in, by token or by certificate, has the name and the scope of the
/// listed one, and nothing is recorded of it.
pub proof fn law_operators_are_who_is_listed(
    audit: bool,
    r: OperatorRecord,
    header: Seq<char>,
    t: TokenView,
    identity: Seq<char>,
    ts_ms: i64,
)
    ensures
        r.public_id@ == t.public_id ==> (operator_bearer(audit, seq![r@], header, Some(t), ts_ms)
            matches OperatorOutcomeView { result: Ok(who), audit: said } ==> who.name == r.name@
            && who.scope == opt_json(r.scope) && said is None && t.namespace
            == TokenNamespace::Operator),
        opt_text(r.cert_identity) == Some(identity) ==> (operator_by_cert(
            audit,
            seq![r@],
            identity,
            ts_ms,
        ) matches OperatorOutcomeView { result: Ok(who), audit: None } && who.name == r.name@
            && who.scope == opt_json(r.scope)),
        r.public_id@ != t.public_id ==> operator_bearer(
            audit,
            seq![r@],
            header,
            Some(t),
            ts_ms,
        ).result is Err,
        opt_text(r.cert_identity) != Some(identity) ==> operator_by_cert(
            audit,
            seq![r@],
            identity,
            ts_ms,
        ).result == Err::<OperatorView, AuthFault>(AuthFault::InvalidCredential),
{
    let v = seq![r@];
    assert(v[0] == r@);
    assert(v.skip(1) =~= Seq::empty());
    assert(by_public_id(v.skip(1), t.public_id) is None);
    assert(by_cert_identity(v.skip(1), identity) is None);
}

/// An operator whose secret is wrong, whose id is not listed, or whose token is malformed or
/// an agent's, is told the same; only a header without a token is told apart.
pub proof fn law_refused_operators_are_told_alike(
    audit: bool,
    records: Seq<OperatorRecordView>,
    header: Seq<char>,
    parsed: Option<TokenView>,
    ts_ms: i64,
)
    ensures
        operator_bearer(audit, records, header, parsed, ts_ms).result matches Err(fault) ==> {
            &&& fault is MissingCredential <==> !(header.len() >= 7 && header.take(7)
                == "Bearer "@)
            &&& fault is MissingCredential || fault is InvalidCredential || fault is Backend
        },
        !audit ==> operator_bearer(audit, records, header, parsed, ts_ms).audit is None,
{
    reveal_strlit("Bearer ");
}

/// A refused operator's row says when, by what means and why, and names the operator once it
/// is known who is meant: there was no token, it was none, it was no operator's, nobody has
/// its id, the secret is wrong, or nobody has the certificate's identity, which is then said.
pub proof fn law_rows_say_why_operators_were_refused(
    records: Seq<OperatorRecordView>,
    header: Seq<char>,
    t: TokenView,
    identity: Seq<char>,
    ts_ms: i64,
)
    ensures
        ({
            let got = operator_bearer(true, records, header, Some(t), ts_ms).audit;
            let meant = by_public_id(records, t.public_id);
            &&& bearer_in(header) is None ==> got == Some(
                operator_failure_event(None, "missing_credential"@, ts_ms),
            )
            &&& bearer_in(header) is Some ==> operator_bearer(
                true,
                records,
                header,
                None,
                ts_ms,
            ).audit == Some(operator_failure_event(None, "malformed_token"@, ts_ms))
            &&& bearer_in(header) is Some && t.namespace != TokenNamespace::Operator ==> got
                == Some(operator_failure_event(None, "wrong_namespace"@, ts_ms))
            &&& bearer_in(header) is Some && t.namespace == TokenNamespace::Operator
                && meant is None ==> got == Some(
                operator_failure_event(None, "unknown_public_id"@, ts_ms),
            )
            &&& bearer_in(header) is Some && t.namespace == TokenNamespace::Operator
                && meant is Some && secret_matches(meant->Some_0.token_hash, t.secret) == Ok::<
                bool,
                HashErrorView,
            >(false) ==> got == Some(
                operator_failure_event(Some(meant->Some_0.name), "secret_mismatch"@, ts_ms),
            )
            &&& by_cert_identity(records, identity) is None ==> operator_by_cert(
                true,
                records,
                identity,
                ts_ms,
            ).audit == Some(cert_identity_failure_event(identity, ts_ms))
        }),
{
}

/// What the row about a refused operator holds.
pub proof fn law_rows_about_refused_operators(
    name: Option<Seq<char>>,
    reason: Seq<char>,
    identity: Seq<char>,
    ts_ms: i64,
)
    ensures
        ({
            let e = operator_failure_event(name, reason, ts_ms);
            let c = cert_identity_failure_event(identity, ts_ms);
            &&& e.ts_ms == ts_ms && c.ts_ms == ts_ms
            &&& e.event_class == EventClass::Security && c.event_class == EventClass::Security
            &&& e.event == "operator_auth_failure"@ && c.event == "operator_auth_failure"@
            &&& e.decision == Decision::Denied && c.decision == Decision::Denied
            &&& e.operator_name == name && c.operator_name is None
            &&& e.auth_method == Some("bearer"@) && c.auth_method == Some("mtls"@)
            &&& e.agent_public_id is None && c.agent_public_id is None
            &&& e.details matches Some(d)
            &&& crate::json::holds(d, "reason"@, JsonView::Str(reason))
            &&& c.details matches Some(f)
            &&& crate::json::holds(f, "reason"@, JsonView::Str("unknown_cert_identity"@))
            &&& crate::json::holds(f, "cert_identity"@, JsonView::Str(identity))
        }),
{
    broadcast use crate::json::lemma_with_holds;

}

} // verus!
