//! Agents that present a certificate.
use vstd::prelude::*;

use crate::audit::{bare_event, AuditEvent, AuditView, Decision, EventClass};
use crate::auth_v2::agent::{
    active, agent_identity, failed, found_view, identity_of, AuthOutcome, FoundView, IdentityView,
    OutcomeView,
};
use crate::auth_v2::{AuthError, AuthFault};
use crate::clock::unix_now;
use crate::json::{holds, jempty, jstr, lemma_with_holds, Json, JsonView};
use crate::mtls::validator::{
    identity_result, mtls_message, mtls_reason, validated, MtlsError, MtlsFault, MtlsIdentity,
    MtlsIdentityView, MtlsValidator,
};
use crate::repo::{opt_texts, AgentRecord, AgentView};

verus! {

/// What is recorded of a certificate that was not accepted.
pub open spec fn mtls_failure_event(e: MtlsFault, ts_ms: i64) -> AuditView {
    AuditView {
        auth_method: Some("mtls"@),
        details: Some(
            jempty().with("reason"@, jstr(mtls_reason(e))).with(
                "message"@,
                jstr(mtls_message(e)),
            ).with("serial_hex"@, JsonView::Null),
        ),
        ..bare_event(ts_ms as int, EventClass::Security, "mtls_auth_failure"@, Decision::Denied)
    }
}

/// What is recorded of an accepted certificate that belongs to no agent.
pub open spec fn mtls_unknown_event(id: MtlsIdentityView, ts_ms: i64) -> AuditView {
    AuditView {
        auth_method: Some("mtls"@),
        details: Some(
            jempty().with("identity"@, jstr(id.value)).with("kind"@, jstr(id.kind)).with(
                "serial_hex"@,
                jstr(id.serial_hex),
            ),
        ),
        ..bare_event(ts_ms as int, EventClass::Security, "mtls_unknown_identity"@, Decision::Denied)
    }
}

/// The outcome of a refused attempt with a certificate. The caller is not told
/// why.
pub open spec fn cert_refused(audit: bool, event: AuditView) -> OutcomeView {
    OutcomeView {
        result: Err(AuthFault::InvalidCredential),
        audit: if audit {
            Some(event)
        } else {
            None
        },
        touch: None,
    }
}

/// What is to be done with a presented certificate.
pub enum CertStep {
    /// The attempt is over.
    Done(AuthOutcome),
    /// The agent that this identity belongs to is to be looked up.
    Lookup(MtlsIdentity),
}

/// What a [`CertStep`] says.
pub ghost enum CertStepView {
    Done(OutcomeView),
    Lookup(MtlsIdentityView),
}

impl View for CertStep {
    type V = CertStepView;

    open spec fn view(&self) -> CertStepView {
        match self {
            CertStep::Done(o) => CertStepView::Done(o@),
            CertStep::Lookup(i) => CertStepView::Lookup(i@),
        }
    }
}

/// What is done after a certificate was tested.
pub open spec fn cert_step(
    audit: bool,
    tested: Result<MtlsIdentityView, MtlsFault>,
    ts_ms: i64,
) -> CertStepView {
    match tested {
        Ok(id) => CertStepView::Lookup(id),
        Err(e) => CertStepView::Done(cert_refused(audit, mtls_failure_event(e, ts_ms))),
    }
}

/// The outcome for what a lookup by a certificate's identity gave. An agent that was
/// revoked is no one's.
pub open spec fn cert_resolved(
    audit: bool,
    id: MtlsIdentityView,
    found: FoundView,
    ts_ms: i64,
) -> OutcomeView {
    match active(found) {
        FoundView::Failed(e) => failed(e),
        FoundView::Absent => cert_refused(audit, mtls_unknown_event(id, ts_ms)),
        FoundView::Agent(a) => OutcomeView { result: Ok(identity_of(a)), audit: None, touch: None },
    }
}

/// Lets agents in by their certificates.
pub struct MtlsAuthenticator {
    pub validator: MtlsValidator,
    pub audit: bool,
}

impl MtlsAuthenticator {
    /// Lets agents in and records nothing.
    pub fn new(validator: MtlsValidator) -> (r: MtlsAuthenticator)
        ensures
            r == (MtlsAuthenticator { validator, audit: false }),
    {
        MtlsAuthenticator { validator, audit: false }
    }

    /// Lets agents in; with `audit`, refused attempts are recorded.
    pub fn with_audit(validator: MtlsValidator, audit: bool) -> (r: MtlsAuthenticator)
        ensures
            r == (MtlsAuthenticator { validator, audit }),
    {
        MtlsAuthenticator { validator, audit }
    }

    /// What is done after a certificate was tested.
    pub fn after_validation(&self, tested: Result<MtlsIdentity, MtlsError>, ts_ms: i64) -> (r:
        CertStep)
        ensures
            r@ == cert_step(self.audit, identity_result(tested), ts_ms),
    {
        match tested {
            Ok(id) => CertStep::Lookup(id),
            Err(e) => {
                let audit = if self.audit {
                    let mut event = AuditEvent::bare(
                        ts_ms,
                        EventClass::Security,
                        "mtls_auth_failure",
                        Decision::Denied,
                    );
                    event.auth_method = Some("mtls".to_string());
                    event.details = Some(
                        Json::object().with("reason", Json::text(e.reason())).with(
                            "message",
                            Json::text(e.message().as_str()),
                        ).with("serial_hex", Json::Null),
                    );
                    Some(event)
                } else {
                    None
                };
                CertStep::Done(
                    AuthOutcome { result: Err(AuthError::InvalidCredential), audit, touch: None },
                )
            },
        }
    }

    /// Tests a certificate at a given time.
    pub fn authenticate_cert_at(&self, cert_der: &[u8], now: i64, ts_ms: i64) -> (r: CertStep)
        ensures
            r@ == cert_step(
                self.audit,
                validated(
                    self.validator.trusted(),
                    self.validator.blocked(),
                    self.validator.revoked(),
                    cert_der@,
                    now,
                ),
                ts_ms,
            ),
    {
        let tested = self.validator.validate_at(cert_der, now);
        self.after_validation(tested, ts_ms)
    }

    /// Tests a certificate now.
    pub fn authenticate_cert(&self, cert_der: &[u8], ts_ms: i64) -> (r: CertStep)
        ensures
            exists|now: i64|
                r@ == cert_step(
                    self.audit,
                    #[trigger] validated(
                        self.validator.trusted(),
                        self.validator.blocked(),
                        self.validator.revoked(),
                        cert_der@,
                        now,
                    ),
                    ts_ms,
                ),
    {
        self.authenticate_cert_at(cert_der, unix_now(), ts_ms)
    }

    fn unknown(&self, identity: &MtlsIdentity, ts_ms: i64) -> (r: AuthOutcome)
        ensures
            r@ == cert_refused(self.audit, mtls_unknown_event(identity@, ts_ms)),
    {
        let audit = if self.audit {
            let mut event = AuditEvent::bare(
                ts_ms,
                EventClass::Security,
                "mtls_unknown_identity",
                Decision::Denied,
            );
            event.auth_method = Some("mtls".to_string());
            event.details = Some(
                Json::object().with("identity", Json::text(identity.value.as_str())).with(
                    "kind",
                    Json::text(identity.kind),
                ).with("serial_hex", Json::text(identity.serial_hex.as_str())),
            );
            Some(event)
        } else {
            None
        };
        AuthOutcome { result: Err(AuthError::InvalidCredential), audit, touch: None }
    }

    /// The outcome for what a lookup by the certificate's identity gave.
    pub fn resolve(
        &self,
        identity: &MtlsIdentity,
        found: Result<Option<AgentRecord>, String>,
        ts_ms: i64,
    ) -> (r: AuthOutcome)
        ensures
            r@ == cert_resolved(self.audit, identity@, found_view(found), ts_ms),
    {
        match found {
            Ok(Some(agent)) => if agent.revoked_at.is_some() {
                self.unknown(identity, ts_ms)
            } else {
                AuthOutcome { result: Ok(agent_identity(agent)), audit: None, touch: None }
            },
            Ok(None) => self.unknown(identity, ts_ms),
            Err(e) => AuthOutcome {
                result: Err(AuthError::Backend(e)),
                audit: None,
                touch: None,
            },
        }
    }
}

/// The certificate of an agent that was revoked lets no one in, and its holder is
/// told what a stranger is told.
pub proof fn law_revoked_agents_are_strangers(
    audit: bool,
    id: MtlsIdentityView,
    agent: AgentView,
    ts_ms: i64,
)
    requires
        agent.revoked_at is Some,
    ensures
        cert_resolved(audit, id, FoundView::Agent(agent), ts_ms) == cert_resolved(
            audit,
            id,
            FoundView::Absent,
            ts_ms,
        ),
        cert_resolved(audit, id, FoundView::Agent(agent), ts_ms).result is Err,
{
}

/// Whatever is wrong with a certificate, the caller is told the same.
pub proof fn law_cert_refusals_are_told_alike(audit: bool, e: MtlsFault, f: MtlsFault, ts_ms: i64)
    ensures
        cert_step(audit, Err(e), ts_ms)->Done_0.result == cert_step(
            audit,
            Err(f),
            ts_ms,
        )->Done_0.result,
{
}

/// A good certificate lets in the agent that it belongs to: the id, the name and the lists
/// are those of the record, unless that agent was revoked.
pub proof fn law_certificates_let_their_agent_in(
    audit: bool,
    id: MtlsIdentityView,
    a: AgentRecord,
    ts_ms: i64,
)
    ensures
        ({
            let out = cert_resolved(audit, id, FoundView::Agent(a@), ts_ms);
            &&& out.result is Ok <==> a.revoked_at is None
            &&& out.result matches Ok(who) ==> {
                &&& who.public_id == a.public_id@ && who.name == a.name@
                &&& who.tool_allowlist == opt_texts(a.tool_allowlist)
                &&& who.tool_denylist == opt_texts(a.tool_denylist)
                &&& out.audit is None
            }
            &&& out.result matches Err(e) ==> e is InvalidCredential
        }),
        cert_resolved(audit, id, FoundView::Absent, ts_ms).result == Err::<IdentityView, AuthFault>(
            AuthFault::InvalidCredential,
        ),
        cert_resolved(audit, id, FoundView::Failed(id.value), ts_ms).result == Err::<
            IdentityView,
            AuthFault,
        >(AuthFault::Backend(id.value)),
        cert_step(audit, Ok(id), ts_ms) == CertStepView::Lookup(id),
{
}

/// What is recorded of a refused certificate says when, why, and, where its owner is not
/// known, who it says it is; nothing is recorded where nothing is to be.
pub proof fn law_refused_certificates_are_recorded(e: MtlsFault, id: MtlsIdentityView, ts_ms: i64)
    ensures
        ({
            let ev = mtls_failure_event(e, ts_ms);
            &&& ev.ts_ms == ts_ms && ev.event_class == EventClass::Security
            &&& ev.event == "mtls_auth_failure"@ && ev.decision == Decision::Denied
            &&& ev.auth_method == Some("mtls"@)
            &&& ev.details matches Some(d) && holds(d, "reason"@, JsonView::Str(mtls_reason(e)))
                && holds(d, "message"@, JsonView::Str(mtls_message(e)))
        }),
        ({
            let ev = mtls_unknown_event(id, ts_ms);
            &&& ev.ts_ms == ts_ms && ev.event_class == EventClass::Security
            &&& ev.event == "mtls_unknown_identity"@ && ev.decision == Decision::Denied
            &&& ev.auth_method == Some("mtls"@)
            &&& ev.details matches Some(d) && holds(d, "identity"@, JsonView::Str(id.value))
                && holds(d, "kind"@, JsonView::Str(id.kind)) && holds(
                d,
                "serial_hex"@,
                JsonView::Str(id.serial_hex),
            )
        }),
        cert_step(false, Err(e), ts_ms)->Done_0.audit is None,
        cert_step(true, Err(e), ts_ms)->Done_0.audit == Some(mtls_failure_event(e, ts_ms)),
        cert_resolved(true, id, FoundView::Absent, ts_ms).audit == Some(
            mtls_unknown_event(id, ts_ms),
        ),
        cert_resolved(false, id, FoundView::Absent, ts_ms).audit is None,
{
    broadcast use lemma_with_holds;

}

/// The row about a certificate that was not accepted holds the reason, the message and no
/// serial, and nothing else.
pub proof fn law_rows_about_bad_certificates(e: MtlsFault, id: MtlsIdentityView, ts_ms: i64)
    ensures
        mtls_failure_event(e, ts_ms).details == Some(
            JsonView::Object(
                seq![
                    ("reason"@, JsonView::Str(mtls_reason(e))),
                    ("message"@, JsonView::Str(mtls_message(e))),
                    ("serial_hex"@, JsonView::Null),
                ],
            ),
        ),
        mtls_unknown_event(id, ts_ms).details->Some_0->Object_0.len() == 3,
        mtls_failure_event(e, ts_ms).agent_public_id is None,
        mtls_unknown_event(id, ts_ms).agent_public_id is None,
{
    assert(mtls_failure_event(e, ts_ms).details->Some_0->Object_0 =~= seq![
        ("reason"@, JsonView::Str(mtls_reason(e))),
        ("message"@, JsonView::Str(mtls_message(e))),
        ("serial_hex"@, JsonView::Null),
    ]);
}

} // verus!
