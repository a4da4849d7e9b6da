//! Agents that present a token.
use vstd::prelude::*;

use crate::argon2_helper;
use crate::argon2_helper::{
    hash_error_message, hash_of, lemma_short_is_hashable, no_salt_message, secret_matches,
    HashError, HashErrorView,
};
use crate::audit::{bare_event, detail, detail_text, AuditEvent, AuditView, Decision, EventClass};
use crate::auth_v2::{AuthError, AuthFault};
use crate::json::JsonView;
use crate::repo::{
    opt_texts, opt_token, AgentRecord, AgentView, ParsedToken, TokenNamespace, TokenView,
};
use crate::secret::Secret;
use crate::text::{holds, starts, strip_prefix};

verus! {

/// An agent that was let in.
#[derive(Debug)]
pub struct AgentIdentity {
    pub public_id: String,
    pub name: String,
    pub tool_allowlist: Option<Vec<String>>,
    pub tool_denylist: Option<Vec<String>>,
}

/// What an [`AgentIdentity`] says.
#[verifier::ext_equal]
pub ghost struct IdentityView {
    pub public_id: Seq<char>,
    pub name: Seq<char>,
    pub tool_allowlist: Option<Seq<Seq<char>>>,
    pub tool_denylist: Option<Seq<Seq<char>>>,
}

impl View for AgentIdentity {
    type V = IdentityView;

    open spec fn view(&self) -> IdentityView {
        IdentityView {
            public_id: self.public_id@,
            name: self.name@,
            tool_allowlist: opt_texts(self.tool_allowlist),
            tool_denylist: opt_texts(self.tool_denylist),
        }
    }
}

/// Whether a tool is on the deny list.
pub open spec fn denied(i: IdentityView, tool: Seq<char>) -> bool {
    i.tool_denylist is Some && i.tool_denylist->Some_0.contains(tool)
}

/// Whether there is an allow list and the tool is not on it.
pub open spec fn not_allowed(i: IdentityView, tool: Seq<char>) -> bool {
    i.tool_allowlist is Some && !i.tool_allowlist->Some_0.contains(tool)
}

/// Whether an agent may call a tool, or why not. The deny list is looked at
/// first.
pub open spec fn acl(i: IdentityView, tool: Seq<char>) -> Result<(), Seq<char>> {
    if denied(i, tool) {
        Err("in_denylist"@)
    } else if not_allowed(i, tool) {
        Err("not_in_allowlist"@)
    } else {
        Ok(())
    }
}

impl AgentIdentity {
    /// Whether the agent may call a tool: it is on no deny list, and on the allow
    /// list if there is one.
    pub fn allows_tool(&self, tool_name: &str) -> (r: Result<(), &'static str>)
        ensures
            match r {
                Ok(()) => acl(self@, tool_name@) is Ok,
                Err(why) => acl(self@, tool_name@) == Err::<(), Seq<char>>(why@),
            },
    {
        match &self.tool_denylist {
            Some(deny) => {
                if holds(deny, tool_name) {
                    return Err("in_denylist");
                }
            },
            None => {},
        }
        match &self.tool_allowlist {
            Some(allow) => {
                if !holds(allow, tool_name) {
                    return Err("not_in_allowlist");
                }
            },
            None => {},
        }
        Ok(())
    }
}

/// An agent without lists may call every tool.
pub proof fn law_no_lists_allow_all(i: IdentityView, tool: Seq<char>)
    requires
        i.tool_allowlist is None,
        i.tool_denylist is None,
    ensures
        acl(i, tool) is Ok,
{
}

/// A denied tool stays denied whatever the allow list holds.
pub proof fn law_denial_wins(i: IdentityView, tool: Seq<char>)
    requires
        denied(i, tool),
    ensures
        acl(i, tool) == Err::<(), Seq<char>>("in_denylist"@),
{
}

/// An empty allow list lets nothing through.
pub proof fn law_empty_allowlist_denies_all(i: IdentityView, tool: Seq<char>)
    requires
        i.tool_allowlist == Some(Seq::<Seq<char>>::empty()),
    ensures
        acl(i, tool) is Err,
{
}

/// An empty deny list changes nothing.
pub proof fn law_empty_denylist_is_no_list(i: IdentityView, tool: Seq<char>)
    requires
        i.tool_denylist == Some(Seq::<Seq<char>>::empty()),
    ensures
        acl(i, tool) == acl(IdentityView { tool_denylist: None, ..i }, tool),
{
}

/// The identity that a stored agent has.
pub open spec fn identity_of(a: AgentView) -> IdentityView {
    IdentityView {
        public_id: a.public_id,
        name: a.name,
        tool_allowlist: a.tool_allowlist,
        tool_denylist: a.tool_denylist,
    }
}

/// The identity that a stored agent has.
pub fn agent_identity(record: AgentRecord) -> (r: AgentIdentity)
    ensures
        r@ == identity_of(record@),
{
    AgentIdentity {
        public_id: record.public_id,
        name: record.name,
        tool_allowlist: record.tool_allowlist,
        tool_denylist: record.tool_denylist,
    }
}

/// What came of an attempt to get in: the agent or the error, what is to be
/// recorded of it, and the agent whose last use is to be noted.
pub struct AuthOutcome {
    pub result: Result<AgentIdentity, AuthError>,
    pub audit: Option<AuditEvent>,
    pub touch: Option<String>,
}

/// What an [`AuthOutcome`] says.
#[verifier::ext_equal]
pub ghost struct OutcomeView {
    pub result: Result<IdentityView, AuthFault>,
    pub audit: Option<AuditView>,
    pub touch: Option<Seq<char>>,
}

/// The view of an optional event.
pub open spec fn opt_event(e: Option<AuditEvent>) -> Option<AuditView> {
    match e {
        Some(v) => Some(v@),
        None => None,
    }
}

impl View for AuthOutcome {
    type V = OutcomeView;

    open spec fn view(&self) -> OutcomeView {
        OutcomeView {
            result: match self.result {
                Ok(i) => Ok(i@),
                Err(e) => Err(e@),
            },
            audit: opt_event(self.audit),
            touch: crate::text::opt_text(self.touch),
        }
    }
}

/// What is recorded of an agent that was not let in.
pub open spec fn agent_failure_event(
    public_id: Option<Seq<char>>,
    reason: Seq<char>,
    ts_ms: i64,
) -> AuditView {
    AuditView {
        agent_public_id: public_id,
        auth_method: Some("bearer"@),
        details: detail("reason"@, reason),
        ..bare_event(ts_ms as int, EventClass::Security, "auth_failure"@, Decision::Denied)
    }
}

/// The outcome of a refused attempt; recorded where there is somewhere to record
/// it.
pub open spec fn refused(
    audit: bool,
    public_id: Option<Seq<char>>,
    reason: Seq<char>,
    ts_ms: i64,
    fault: AuthFault,
) -> OutcomeView {
    OutcomeView {
        result: Err(fault),
        audit: if audit {
            Some(agent_failure_event(public_id, reason, ts_ms))
        } else {
            None
        },
        touch: None,
    }
}

/// The outcome of an attempt that a failed store ended. Nothing is recorded.
pub open spec fn failed(message: Seq<char>) -> OutcomeView {
    OutcomeView { result: Err(AuthFault::Backend(message)), audit: None, touch: None }
}

/// What is to be done with a presented token.
pub enum BearerStep {
    /// The attempt is over.
    Done(AuthOutcome),
    /// The agent with this public id is to be looked up, and the secret tested
    /// against what is stored of it.
    Lookup { public_id: String, secret: Secret },
}

/// What a [`BearerStep`] says.
pub ghost enum StepView {
    Done(OutcomeView),
    Lookup { public_id: Seq<char>, secret: Seq<char> },
}

impl View for BearerStep {
    type V = StepView;

    open spec fn view(&self) -> StepView {
        match self {
            BearerStep::Done(o) => StepView::Done(o@),
            BearerStep::Lookup { public_id, secret } => StepView::Lookup {
                public_id: public_id@,
                secret: secret@,
            },
        }
    }
}

/// The token in an `Authorization` header of the scheme `Bearer`.
pub open spec fn bearer_in(header: Seq<char>) -> Option<Seq<char>> {
    if starts(header, "Bearer "@) {
        Some(header.skip("Bearer "@.len() as int))
    } else {
        None
    }
}

/// The token in an `Authorization` header of the scheme `Bearer`.
pub fn bearer_token(header: &str) -> (r: Option<String>)
    ensures
        crate::text::opt_text(r) == bearer_in(header@),
{
    strip_prefix(header, "Bearer ")
}

/// What is done with a header, given what its token was parsed to. A token of
/// another store is refused.
pub open spec fn bearer_step(
    audit: bool,
    header: Seq<char>,
    parsed: Option<TokenView>,
    ts_ms: i64,
) -> StepView {
    if bearer_in(header) is None {
        StepView::Done(
            refused(audit, None, "missing_credential"@, ts_ms, AuthFault::MissingCredential),
        )
    } else {
        match parsed {
            None => StepView::Done(
                refused(audit, None, "malformed_token"@, ts_ms, AuthFault::InvalidCredential),
            ),
            Some(t) => if t.namespace != TokenNamespace::Agent {
                StepView::Done(
                    refused(
                        audit,
                        Some(t.public_id),
                        "wrong_namespace"@,
                        ts_ms,
                        AuthFault::InvalidCredential,
                    ),
                )
            } else {
                StepView::Lookup { public_id: t.public_id, secret: t.secret }
            },
        }
    }
}

/// Whether an agent's time is over.
pub open spec fn expired(a: AgentView, now: i64) -> bool {
    a.expires_at is Some && a.expires_at->Some_0 < now
}

/// The outcome for a stored agent, given what testing the presented secret said.
/// An expired agent is told so whether or not its secret was right.
pub open spec fn judged(
    audit: bool,
    a: AgentView,
    verdict: Result<bool, HashErrorView>,
    now: i64,
    ts_ms: i64,
) -> OutcomeView {
    if expired(a, now) {
        refused(audit, Some(a.public_id), "expired"@, ts_ms, AuthFault::Expired)
    } else {
        match verdict {
            Err(e) => failed(hash_error_message(e)),
            Ok(false) => refused(
                audit,
                Some(a.public_id),
                "secret_mismatch"@,
                ts_ms,
                AuthFault::InvalidCredential,
            ),
            Ok(true) => OutcomeView {
                result: Ok(identity_of(a)),
                audit: None,
                touch: Some(a.public_id),
            },
        }
    }
}

/// What a lookup of an agent gave.
pub ghost enum FoundView {
    Failed(Seq<char>),
    Absent,
    Agent(AgentView),
}

/// The view of what a lookup of an agent gave.
pub open spec fn found_view(found: Result<Option<AgentRecord>, String>) -> FoundView {
    match found {
        Err(e) => FoundView::Failed(e@),
        Ok(None) => FoundView::Absent,
        Ok(Some(a)) => FoundView::Agent(a@),
    }
}

/// What a lookup gave of agents that count: one that was revoked is not there.
pub open spec fn active(found: FoundView) -> FoundView {
    match found {
        FoundView::Agent(a) => if a.revoked_at is Some {
            FoundView::Absent
        } else {
            found
        },
        _ => found,
    }
}

/// The outcome for what a lookup gave and a secret.
pub open spec fn resolved(
    audit: bool,
    found: FoundView,
    secret: Seq<char>,
    now: i64,
    ts_ms: i64,
) -> OutcomeView {
    match active(found) {
        FoundView::Failed(e) => failed(e),
        FoundView::Absent => refused(
            audit,
            None,
            "unknown_public_id"@,
            ts_ms,
            AuthFault::InvalidCredential,
        ),
        FoundView::Agent(a) => judged(
            audit,
            a,
            secret_matches(a.secret_hash, secret),
            now,
            ts_ms,
        ),
    }
}

/// Lets agents in by a credential: first what is presented is looked at, then,
/// where it names an agent, what is stored of that agent.
pub trait AgentAuthenticator {
    /// Looks at an `Authorization` header and at what its token was parsed to.
    fn authenticate_bearer(
        &self,
        header: &str,
        parsed: Option<ParsedToken>,
        ts_ms: i64,
    ) -> BearerStep;

    /// Tests the secret against what was found of the agent.
    fn resolve(
        &self,
        found: Result<Option<AgentRecord>, String>,
        secret: &Secret,
        now: i64,
        ts_ms: i64,
    ) -> AuthOutcome;
}

/// Lets agents in by their tokens. An unknown agent costs as much time as a known
/// one: the secret is then tested against a hash of no agent.
pub struct BearerAuthenticator {
    decoy_hash: String,
    audit: bool,
}

impl BearerAuthenticator {
    /// Whether refused attempts are recorded.
    pub closed spec fn audits(self) -> bool {
        self.audit
    }

    /// The hash that is tested where there is no agent.
    pub closed spec fn decoy(self) -> Seq<char> {
        self.decoy_hash@
    }

    /// Lets agents in and records nothing.
    pub fn new() -> (r: Result<BearerAuthenticator, AuthError>)
        ensures
            made(false, r),
    {
        BearerAuthenticator::with_audit(false)
    }

    /// Lets agents in; with `audit`, every refused attempt is recorded.
    pub fn with_audit(audit: bool) -> (r: Result<BearerAuthenticator, AuthError>)
        ensures
            made(audit, r),
    {
        let decoy = Secret::new(
            "decoy-secret-for-constant-time-on-miss-do-not-use-in-production".to_string(),
        );
        proof {
            reveal_strlit("decoy-secret-for-constant-time-on-miss-do-not-use-in-production");
            lemma_short_is_hashable(decoy@);
        }
        match argon2_helper::hash(&decoy) {
            Ok(decoy_hash) => Ok(BearerAuthenticator::with_decoy(decoy_hash, audit)),
            Err(e) => Err(AuthError::Backend(e.message())),
        }
    }

    /// Lets agents in, and tests the secrets of unknown ones against a given hash;
    /// with `audit`, every refused attempt is recorded.
    pub fn with_decoy(decoy_hash: String, audit: bool) -> (r: BearerAuthenticator)
        ensures
            r.decoy() == decoy_hash@,
            r.audits() == audit,
    {
        BearerAuthenticator { decoy_hash, audit }
    }

    fn refuse(&self, public_id: Option<String>, reason: &str, ts_ms: i64, error: AuthError) -> (r:
        AuthOutcome)
        ensures
            r@ == refused(
                self.audits(),
                crate::text::opt_text(public_id),
                reason@,
                ts_ms,
                error@,
            ),
    {
        let audit = if self.audit {
            let mut event = AuditEvent::bare(
                ts_ms,
                EventClass::Security,
                "auth_failure",
                Decision::Denied,
            );
            event.agent_public_id = public_id;
            event.auth_method = Some("bearer".to_string());
            event.details = detail_text("reason", reason);
            Some(event)
        } else {
            None
        };
        AuthOutcome { result: Err(error), audit, touch: None }
    }

    fn unknown(&self, secret: &Secret, ts_ms: i64) -> (r: AuthOutcome)
        ensures
            r@ == refused(
                self.audits(),
                None,
                "unknown_public_id"@,
                ts_ms,
                AuthFault::InvalidCredential,
            ),
    {
        let _ = argon2_helper::verify(self.decoy_hash.as_str(), secret);
        self.refuse(None, "unknown_public_id", ts_ms, AuthError::InvalidCredential)
    }

    /// The outcome for a stored agent, given what testing the presented secret
    /// said.
    pub fn judge(
        &self,
        record: AgentRecord,
        verdict: Result<bool, HashError>,
        now: i64,
        ts_ms: i64,
    ) -> (r: AuthOutcome)
        ensures
            r@ == judged(self.audits(), record@, verdict_view(verdict), now, ts_ms),
    {
        match record.expires_at {
            Some(expires_at) => {
                if expires_at < now {
                    return self.refuse(Some(record.public_id), "expired", ts_ms, AuthError::Expired);
                }
            },
            None => {},
        }
        match verdict {
            Ok(true) => {},
            Ok(false) => {
                return self.refuse(
                    Some(record.public_id),
                    "secret_mismatch",
                    ts_ms,
                    AuthError::InvalidCredential,
                );
            },
            Err(e) => {
                return AuthOutcome {
                    result: Err(AuthError::Backend(e.message())),
                    audit: None,
                    touch: None,
                };
            },
        }
        let touch = Some(record.public_id.clone());
        AuthOutcome { result: Ok(agent_identity(record)), audit: None, touch }
    }
}

/// The view of what testing a secret said.
pub open spec fn verdict_view(verdict: Result<bool, HashError>) -> Result<bool, HashErrorView> {
    match verdict {
        Ok(b) => Ok(b),
        Err(e) => Err(e@),
    }
}

/// Whether `r` is an authenticator that was made with `audit`, or the error for
/// want of random bytes.
pub open spec fn made(audit: bool, r: Result<BearerAuthenticator, AuthError>) -> bool {
    match r {
        Ok(a) => a.audits() == audit && hash_of(
            a.decoy(),
            "decoy-secret-for-constant-time-on-miss-do-not-use-in-production"@,
        ),
        Err(e) => e@ matches AuthFault::Backend(m) && no_salt_message(m),
    }
}

impl AgentAuthenticator for BearerAuthenticator {
    fn authenticate_bearer(&self, header: &str, parsed: Option<ParsedToken>, ts_ms: i64) -> (r:
        BearerStep)
        ensures
            r@ == bearer_step(self.audits(), header@, opt_token(parsed), ts_ms),
    {
        if bearer_token(header).is_none() {
            return BearerStep::Done(
                self.refuse(None, "missing_credential", ts_ms, AuthError::MissingCredential),
            );
        }
        match parsed {
            None => {
                let dummy = Secret::new("dummy".to_string());
                let _ = argon2_helper::verify(self.decoy_hash.as_str(), &dummy);
                BearerStep::Done(
                    self.refuse(None, "malformed_token", ts_ms, AuthError::InvalidCredential),
                )
            },
            Some(token) => {
                if token.namespace != TokenNamespace::Agent {
                    return BearerStep::Done(
                        self.refuse(
                            Some(token.public_id),
                            "wrong_namespace",
                            ts_ms,
                            AuthError::InvalidCredential,
                        ),
                    );
                }
                BearerStep::Lookup { public_id: token.public_id, secret: token.secret }
            },
        }
    }

    fn resolve(
        &self,
        found: Result<Option<AgentRecord>, String>,
        secret: &Secret,
        now: i64,
        ts_ms: i64,
    ) -> (r: AuthOutcome)
        ensures
            r@ == resolved(self.audits(), found_view(found), secret@, now, ts_ms),
    {
        match found {
            Err(e) => AuthOutcome { result: Err(AuthError::Backend(e)), audit: None, touch: None },
            Ok(None) => self.unknown(secret, ts_ms),
            Ok(Some(record)) => {
                if record.revoked_at.is_some() {
                    return self.unknown(secret, ts_ms);
                }
                let verdict = argon2_helper::verify(record.secret_hash.as_str(), secret);
                self.judge(record, verdict, now, ts_ms)
            },
        }
    }
}

/// An agent gets in only with a token whose secret passes the test against the
/// stored hash, and not after its time.
pub proof fn law_only_the_right_secret_gets_in(
    audit: bool,
    found: FoundView,
    secret: Seq<char>,
    now: i64,
    ts_ms: i64,
)
    ensures
        resolved(audit, found, secret, now, ts_ms).result is Ok <==> (found matches FoundView::Agent(
            a,
        ) && a.revoked_at is None && !expired(a, now) && secret_matches(a.secret_hash, secret) == Ok::<
            bool,
            HashErrorView,
        >(true)),
{
}

/// An unknown agent and a wrong secret are told the same.
pub proof fn law_unknown_and_wrong_are_told_alike(
    audit: bool,
    a: AgentView,
    secret: Seq<char>,
    now: i64,
    ts_ms: i64,
)
    requires
        !expired(a, now),
        secret_matches(a.secret_hash, secret) == Ok::<bool, HashErrorView>(false),
    ensures
        resolved(audit, FoundView::Agent(a), secret, now, ts_ms).result == resolved(
            audit,
            FoundView::Absent,
            secret,
            now,
            ts_ms,
        ).result,
{
}

/// An agent may call a tool exactly if the tool is not on its deny list and is on its allow
/// list, as far as it has such lists; a tool on both is refused for the deny list.
pub proof fn law_lists_say_what_may_be_called(i: AgentIdentity, tool: Seq<char>)
    ensures
        acl(i@, tool) is Ok <==> {
            &&& i.tool_denylist matches Some(d) ==> forall|k: int|
                0 <= k < d@.len() ==> (#[trigger] d@[k])@ != tool
            &&& i.tool_allowlist matches Some(l) ==> exists|k: int|
                0 <= k < l@.len() && (#[trigger] l@[k])@ == tool
        },
        (i.tool_denylist matches Some(d) && exists|k: int|
            0 <= k < d@.len() && (#[trigger] d@[k])@ == tool) <==> acl(i@, tool) == Err::<
            (),
            Seq<char>,
        >("in_denylist"@),
{
    reveal_strlit("in_denylist");
    reveal_strlit("not_in_allowlist");
    assert("in_denylist"@.len() != "not_in_allowlist"@.len());
    if let Some(d) = i.tool_denylist {
        let v = i@.tool_denylist->Some_0;
        assert forall|k: int| 0 <= k < d@.len() implies v[k] == (#[trigger] d@[k])@ by {}
        if v.contains(tool) {
            let k = v.index_of(tool);
            assert(d@[k]@ == tool);
        }
        if exists|k: int| 0 <= k < d@.len() && (#[trigger] d@[k])@ == tool {
            let k = choose|k: int| 0 <= k < d@.len() && (#[trigger] d@[k])@ == tool;
            assert(v[k] == tool);
        }
    }
    if let Some(l) = i.tool_allowlist {
        let v = i@.tool_allowlist->Some_0;
        assert forall|k: int| 0 <= k < l@.len() implies v[k] == (#[trigger] l@[k])@ by {}
        if v.contains(tool) {
            let k = v.index_of(tool);
            assert(l@[k]@ == tool);
        }
        if exists|k: int| 0 <= k < l@.len() && (#[trigger] l@[k])@ == tool {
            let k = choose|k: int| 0 <= k < l@.len() && (#[trigger] l@[k])@ == tool;
            assert(v[k] == tool);
        }
    }
}

/// An agent that gets in is the stored one: its id, its name and its lists are those of the
/// record. It was not revoked, its time is not over, its secret passed the test, its last
/// use is noted, and nothing is recorded of it.
pub proof fn law_stored_agent_gets_in(
    audit: bool,
    a: AgentRecord,
    secret: Seq<char>,
    now: i64,
    ts_ms: i64,
)
    ensures
        ({
            let out = resolved(audit, FoundView::Agent(a@), secret, now, ts_ms);
            let good = secret_matches(a.secret_hash@, secret);
            &&& out.result is Ok <==> {
                &&& a.revoked_at is None
                &&& a.expires_at is None || a.expires_at->Some_0 >= now
                &&& good is Ok && good->Ok_0
            }
            &&& out.result matches Ok(who) ==> {
                &&& who.public_id == a.public_id@ && who.name == a.name@
                &&& who.tool_allowlist == opt_texts(a.tool_allowlist)
                &&& who.tool_denylist == opt_texts(a.tool_denylist)
                &&& out.touch == Some(a.public_id@)
                &&& out.audit is None
            }
            &&& out.result is Err ==> out.touch is None
        }),
{
}

/// A revoked agent is told what an unknown one is told; one whose time is over is told so;
/// a wrong secret is an invalid credential; a failed store or a hash that cannot be read is
/// no fault of the caller.
pub proof fn law_agents_are_told_why_they_are_refused(
    audit: bool,
    a: AgentRecord,
    secret: Seq<char>,
    now: i64,
    ts_ms: i64,
)
    ensures
        ({
            let out = resolved(audit, FoundView::Agent(a@), secret, now, ts_ms);
            let unknown = resolved(audit, FoundView::Absent, secret, now, ts_ms);
            let good = secret_matches(a.secret_hash@, secret);
            let over = a.expires_at is Some && a.expires_at->Some_0 < now;
            &&& unknown.result == Err::<IdentityView, AuthFault>(AuthFault::InvalidCredential)
            &&& a.revoked_at is Some ==> out == unknown
            &&& a.revoked_at is None && over ==> out.result == Err::<IdentityView, AuthFault>(
                AuthFault::Expired,
            )
            &&& a.revoked_at is None && !over && good == Ok::<bool, HashErrorView>(false)
                ==> out.result == Err::<IdentityView, AuthFault>(AuthFault::InvalidCredential)
            &&& a.revoked_at is None && !over && good is Err ==> (out.result matches Err(
                AuthFault::Backend(_),
            )) && out.audit is None
        }),
        resolved(audit, FoundView::Failed(secret), secret, now, ts_ms).result == Err::<
            IdentityView,
            AuthFault,
        >(AuthFault::Backend(secret)),
{
}

/// Where refused attempts are recorded, a refused agent leaves a row of the security class
/// that says when, by which means, which agent and why; where they are not, it leaves none.
pub proof fn law_refused_agents_are_recorded(
    public_id: Option<Seq<char>>,
    reason: Seq<char>,
    ts_ms: i64,
    fault: AuthFault,
)
    ensures
        refused(false, public_id, reason, ts_ms, fault).audit is None,
        refused(true, public_id, reason, ts_ms, fault).audit matches Some(e) && {
            &&& e.ts_ms == ts_ms && e.event_class == EventClass::Security
            &&& e.event == "auth_failure"@ && e.decision == Decision::Denied
            &&& e.agent_public_id == public_id && e.auth_method == Some("bearer"@)
            &&& e.details matches Some(d) && d == JsonView::Object(
                seq![("reason"@, JsonView::Str(reason))],
            )
            &&& e.operator_name is None && e.tool is None && e.path is None
        },
{
    let d = refused(true, public_id, reason, ts_ms, fault).audit->Some_0.details->Some_0;
    assert(d->Object_0 =~= seq![("reason"@, JsonView::Str(reason))]);
}

/// A header is looked into only if it starts with `Bearer ` and its token is one of an
/// agent; then that token's agent is looked up, and that token's secret tested.
pub proof fn law_only_agent_tokens_are_looked_up(
    audit: bool,
    header: Seq<char>,
    parsed: Option<TokenView>,
    ts_ms: i64,
)
    ensures
        bearer_step(audit, header, parsed, ts_ms) is Lookup <==> header.len() >= 7 && header.take(7)
            == "Bearer "@ && parsed is Some && parsed->Some_0.namespace == TokenNamespace::Agent,
        bearer_step(audit, header, parsed, ts_ms) matches StepView::Lookup { public_id, secret }
            ==> public_id == parsed->Some_0.public_id && secret == parsed->Some_0.secret,
        bearer_step(audit, header, parsed, ts_ms) matches StepView::Done(out) ==> (
        out.result matches Err(fault) && (fault is MissingCredential <==> !(header.len() >= 7
            && header.take(7) == "Bearer "@)) && (fault is MissingCredential
            || fault is InvalidCredential)),
        bearer_in(header) matches Some(t) ==> header == "Bearer "@ + t,
        bearer_in("Bearer "@ + header) == Some(header),
{
    reveal_strlit("Bearer ");
    assert("Bearer "@.len() == 7);
    let full = "Bearer "@ + header;
    assert(full.skip(7) =~= header);
    assert(full.take(7) =~= "Bearer "@);
    if let Some(t) = bearer_in(header) {
        assert(header =~= header.take(7) + header.skip(7));
    }
}

/// A refused agent's row says why: there was no token, it was none, it was no agent's, nobody
/// or nobody that counts has its id, the agent's time is over, or the secret is wrong. The
/// agent is named from the moment on that it is known which one is meant.
pub proof fn law_rows_say_why_agents_were_refused(
    audit: bool,
    header: Seq<char>,
    t: TokenView,
    a: AgentRecord,
    secret: Seq<char>,
    now: i64,
    ts_ms: i64,
)
    ensures
        ({
            let good = secret_matches(a.secret_hash@, secret);
            let over = a.expires_at is Some && a.expires_at->Some_0 < now;
            let out = resolved(audit, FoundView::Agent(a@), secret, now, ts_ms);
            let missing = AuthFault::MissingCredential;
            let invalid = AuthFault::InvalidCredential;
            &&& bearer_in(header) is None ==> bearer_step(audit, header, Some(t), ts_ms)
                == StepView::Done(refused(audit, None, "missing_credential"@, ts_ms, missing))
            &&& bearer_in(header) is Some ==> bearer_step(audit, header, None, ts_ms)
                == StepView::Done(refused(audit, None, "malformed_token"@, ts_ms, invalid))
            &&& bearer_in(header) is Some && t.namespace != TokenNamespace::Agent ==> bearer_step(
                audit,
                header,
                Some(t),
                ts_ms,
            ) == StepView::Done(
                refused(audit, Some(t.public_id), "wrong_namespace"@, ts_ms, invalid),
            )
            &&& resolved(audit, FoundView::Absent, secret, now, ts_ms) == refused(
                audit,
                None,
                "unknown_public_id"@,
                ts_ms,
                invalid,
            )
            &&& a.revoked_at is None && over ==> out == refused(
                audit,
                Some(a.public_id@),
                "expired"@,
                ts_ms,
                AuthFault::Expired,
            )
            &&& a.revoked_at is None && !over && good == Ok::<bool, HashErrorView>(false) ==> out
                == refused(audit, Some(a.public_id@), "secret_mismatch"@, ts_ms, invalid)
        }),
{
}

/// A row that may be absent is there exactly if it is, and is then what it says; so is the
/// agent that a lookup gave.
pub proof fn law_absent_is_absent(e: AuditEvent, a: AgentRecord, m: String)
    ensures
        opt_event(Some(e)) == Some(e@),
        opt_event(None) is None,
        found_view(Ok(Some(a))) == FoundView::Agent(a@),
        found_view(Ok(None)) == FoundView::Absent,
        found_view(Err(m)) == FoundView::Failed(m@),
{
}

} // verus!
