//! The answers of the administrative listeners.
use vstd::prelude::*;

use crate::admin::service::{
    admin_message, info_views, scope_json, scope_to_json, AdminError, AdminFault, InfoView,
    ToolInfo,
};
use crate::audit::{
    audit_event_json, class_name, decision_name, event_json, AuditEvent, AuditView, Decision,
    EventClass,
};
use crate::auth_v2::{auth_code, auth_message, auth_status, AuthError, AuthFault};
use crate::config::AuthMode;
use crate::json::{
    holds, jempty, jint, jopt_int, jopt_str, jopt_strs, jstr, lemma_with_holds, views, Json,
    JsonView,
};
use crate::mtls::validator::{MtlsError, MtlsIdentity};
use crate::proxy::event_views;
use crate::repo::{opt_texts, AgentRecord, AgentView, BootstrapTokenRecord};
use crate::reply::{api_error, coded_error, empty_reply, reply, Reply, ReplyView};
use crate::text::{cat, opt_text, same};

verus! {

/// The answer to a caller that was not let in.
pub open spec fn auth_api_reply(e: AuthFault) -> ReplyView {
    reply(auth_status(e), coded_error(auth_message(e), "auth_error"@, auth_code(e)))
}

/// The answer to a caller that was not let in.
pub fn error_response(e: &AuthError) -> (r: Reply)
    ensures
        r@ == auth_api_reply(e@),
{
    Reply::coded(e.status(), e.message(), "auth_error", e.code())
}

/// The status and code of the answer to an error.
pub open spec fn admin_class(e: AdminFault) -> (u16, Seq<char>) {
    match e {
        AdminFault::InvalidBootstrap => (401, "invalid_credential"@),
        AdminFault::AgentNameConflict => (409, "agent_name_conflict"@),
        AdminFault::RotationInProgress => (409, "rotation_in_progress"@),
        AdminFault::AgentNotFound => (404, "agent_not_found"@),
        AdminFault::NotAuthorized => (403, "forbidden"@),
        AdminFault::Backend(_) => (500, "backend_error"@),
    }
}

/// The answer to an error.
pub open spec fn admin_reply(e: AdminFault) -> ReplyView {
    api_error(admin_class(e).0, admin_class(e).1, admin_message(e))
}

/// The answer to an error.
pub fn admin_err_response(e: &AdminError) -> (r: Reply)
    ensures
        r@ == admin_reply(e@),
{
    let (status, code): (u16, &str) = match e {
        AdminError::InvalidBootstrap => (401, "invalid_credential"),
        AdminError::AgentNameConflict => (409, "agent_name_conflict"),
        AdminError::RotationInProgress => (409, "rotation_in_progress"),
        AdminError::AgentNotFound => (404, "agent_not_found"),
        AdminError::NotAuthorized => (403, "forbidden"),
        AdminError::Backend(_) => (500, "backend_error"),
    };
    Reply::api(status, code, e.message().as_str())
}

/// What is done with a request before it is served.
pub enum OperatorGate {
    Refuse(Reply),
    /// The certificate is to be tested.
    TestCert,
    /// The `Authorization` header is to be tested.
    TestBearer(String),
}

/// What an [`OperatorGate`] says.
pub ghost enum OperatorGateView {
    Refuse(ReplyView),
    TestCert,
    TestBearer(Seq<char>),
}

impl View for OperatorGate {
    type V = OperatorGateView;

    open spec fn view(&self) -> OperatorGateView {
        match self {
            OperatorGate::Refuse(r) => OperatorGateView::Refuse(r@),
            OperatorGate::TestCert => OperatorGateView::TestCert,
            OperatorGate::TestBearer(h) => OperatorGateView::TestBearer(h@),
        }
    }
}

/// What is done with a request that has to show a token.
pub open spec fn header_gate(header: Option<Seq<char>>) -> OperatorGateView {
    match header {
        None => OperatorGateView::Refuse(auth_api_reply(AuthFault::MissingCredential)),
        Some(h) => OperatorGateView::TestBearer(h),
    }
}

/// What is done with an operator's request. `mode` is none on a listener without
/// certificates.
pub open spec fn operator_gate(
    mode: Option<AuthMode>,
    cert: bool,
    header: Option<Seq<char>>,
) -> OperatorGateView {
    if mode == Some(AuthMode::Mtls) && !cert {
        OperatorGateView::Refuse(auth_api_reply(AuthFault::MissingCredential))
    } else if cert && (mode == Some(AuthMode::Mtls) || mode == Some(AuthMode::Both)) {
        OperatorGateView::TestCert
    } else {
        header_gate(header)
    }
}

/// Decides what is done with an agent's request: it has to show its token.
pub fn agent_auth_middleware(header: Option<String>) -> (r: OperatorGate)
    ensures
        r@ == header_gate(opt_text(header)),
{
    match header {
        Some(h) => OperatorGate::TestBearer(h),
        None => OperatorGate::Refuse(error_response(&AuthError::MissingCredential)),
    }
}

/// Decides what is done with an operator's request.
pub fn operator_auth_middleware(mode: Option<AuthMode>, cert: bool, header: Option<String>) -> (r:
    OperatorGate)
    ensures
        r@ == operator_gate(mode, cert, opt_text(header)),
{
    match mode {
        Some(AuthMode::Mtls) => {
            if !cert {
                return OperatorGate::Refuse(error_response(&AuthError::MissingCredential));
            }
            return OperatorGate::TestCert;
        },
        Some(AuthMode::Both) => {
            if cert {
                return OperatorGate::TestCert;
            }
        },
        _ => {},
    }
    agent_auth_middleware(header)
}

/// Whose a tested certificate is, or the answer where it was not accepted. The
/// caller is not told why.
pub fn operator_cert(tested: Result<MtlsIdentity, MtlsError>) -> (r: Result<String, Reply>)
    ensures
        match tested {
            Ok(id) => r is Ok && r->Ok_0@ == id.value@,
            Err(_) => r is Err && r->Err_0@ == auth_api_reply(AuthFault::InvalidCredential),
        },
{
    match tested {
        Ok(id) => Ok(id.value),
        Err(_) => Err(error_response(&AuthError::InvalidCredential)),
    }
}

/// What an operator sees of an agent. The hash of its secret is not among it.
pub open spec fn agent_json(a: AgentView) -> JsonView {
    jempty().with("public_id"@, jstr(a.public_id)).with("name"@, jstr(a.name)).with(
        "description"@,
        jopt_str(a.description),
    ).with("tool_allowlist"@, crate::admin::service::jnames(a.tool_allowlist)).with(
        "tool_denylist"@,
        crate::admin::service::jnames(a.tool_denylist),
    ).with("registered_at"@, jint(a.registered_at as int)).with(
        "last_used_at"@,
        jopt_int(a.last_used_at),
    ).with("expires_at"@, jopt_int(a.expires_at)).with("revoked_at"@, jopt_int(a.revoked_at)).with(
        "cert_identity"@,
        jopt_str(a.cert_identity),
    )
}

fn names_json(v: &Option<Vec<String>>) -> (r: Json)
    ensures
        r@ == crate::admin::service::jnames(opt_texts(*v)),
{
    match v {
        Some(l) => Json::texts(l),
        None => Json::Null,
    }
}

/// What an operator sees of an agent.
pub fn agent_to_json(a: &AgentRecord) -> (r: Json)
    ensures
        r@ == agent_json(a@),
{
    Json::object().with("public_id", Json::text(a.public_id.as_str())).with(
        "name",
        Json::text(a.name.as_str()),
    ).with("description", Json::opt_text(&a.description)).with(
        "tool_allowlist",
        names_json(&a.tool_allowlist),
    ).with("tool_denylist", names_json(&a.tool_denylist)).with(
        "registered_at",
        Json::integer(a.registered_at),
    ).with("last_used_at", Json::opt_int(a.last_used_at)).with(
        "expires_at",
        Json::opt_int(a.expires_at),
    ).with("revoked_at", Json::opt_int(a.revoked_at)).with(
        "cert_identity",
        Json::opt_text(&a.cert_identity),
    )
}

/// What an operator sees of an agent does not depend on its secret.
pub proof fn law_agents_show_no_hash(a: AgentView, b: AgentView)
    requires
        b == (AgentView { secret_hash: b.secret_hash, ..a }),
    ensures
        agent_json(a) == agent_json(b),
{
}

/// What agents say.
pub open spec fn agent_views(v: Seq<AgentRecord>) -> Seq<AgentView> {
    Seq::new(v.len(), |i: int| v[i]@)
}

/// The answer to a request for the list of agents.
pub fn op_list_agents(agents: &Result<Vec<AgentRecord>, AdminError>) -> (r: Reply)
    ensures
        match *agents {
            Ok(v) => r@ == reply(
                200,
                jempty().with(
                    "agents"@,
                    JsonView::Array(agent_views(v@).map_values(|a: AgentView| agent_json(a))),
                ),
            ),
            Err(e) => r@ == admin_reply(e@),
        },
{
    match agents {
        Ok(v) => {
            let ghost all = agent_views(v@).map_values(|a: AgentView| agent_json(a));
            let mut out: Vec<Json> = Vec::new();
            let mut i: usize = 0;
            assert(views(out@) =~= all.take(0));
            while i < v.len()
                invariant
                    i <= v@.len(),
                    all == agent_views(v@).map_values(|a: AgentView| agent_json(a)),
                    all.len() == v@.len(),
                    views(out@) == all.take(i as int),
                decreases v.len() - i,
            {
                let ghost before = out@;
                let j = agent_to_json(&v[i]);
                let ghost jv = j@;
                assert(all[i as int] == agent_json(v@[i as int]@));
                out.push(j);
                assert(views(out@) =~= views(before).push(jv));
                assert(all.take(i + 1) =~= all.take(i as int).push(all[i as int]));
                i = i + 1;
            }
            assert(all.take(all.len() as int) =~= all);
            Reply::new(200, Json::object().with("agents", Json::array(out)))
        },
        Err(e) => admin_err_response(e),
    }
}

/// The answer to a look at an agent.
pub fn op_get_agent(agent: &Result<AgentRecord, AdminError>) -> (r: Reply)
    ensures
        match *agent {
            Ok(a) => r@ == reply(200, agent_json(a@)),
            Err(e) => r@ == admin_reply(e@),
        },
{
    match agent {
        Ok(a) => Reply::new(200, agent_to_json(a)),
        Err(e) => admin_err_response(e),
    }
}

/// The answer to a request that gives something.
pub fn answer(output: Result<Json, AdminError>) -> (r: Reply)
    ensures
        match output {
            Ok(j) => r@ == reply(200, j@),
            Err(e) => r@ == admin_reply(e@),
        },
{
    match output {
        Ok(j) => Reply::new(200, j),
        Err(e) => admin_err_response(&e),
    }
}

/// The answer to a request that gives nothing.
pub fn acknowledge(done: &Result<(), AdminError>) -> (r: Reply)
    ensures
        match *done {
            Ok(()) => r@ == empty_reply(204),
            Err(e) => r@ == admin_reply(e@),
        },
{
    match done {
        Ok(()) => Reply::empty(204),
        Err(e) => admin_err_response(e),
    }
}

/// What is shown of a tool, in JSON.
pub open spec fn info_json(i: InfoView) -> JsonView {
    jempty().with("name"@, jstr(i.name)).with("description"@, jstr(i.description)).with(
        "egress"@,
        jstr(i.egress),
    ).with("credential_present"@, JsonView::Bool(i.credential_present))
}

/// The answer to a request for the list of tools.
pub fn tools_reply(tools: &Vec<ToolInfo>) -> (r: Reply)
    ensures
        r@ == reply(
            200,
            jempty().with(
                "tools"@,
                JsonView::Array(info_views(tools@).map_values(|i: InfoView| info_json(i))),
            ),
        ),
{
    let ghost all = info_views(tools@).map_values(|i: InfoView| info_json(i));
    let mut out: Vec<Json> = Vec::new();
    let mut i: usize = 0;
    assert(views(out@) =~= all.take(0));
    while i < tools.len()
        invariant
            i <= tools@.len(),
            all == info_views(tools@).map_values(|i: InfoView| info_json(i)),
            all.len() == tools@.len(),
            views(out@) == all.take(i as int),
        decreases tools.len() - i,
    {
        let ghost before = out@;
        let t = &tools[i];
        let j = Json::object().with("name", Json::text(t.name.as_str())).with(
            "description",
            Json::text(t.description.as_str()),
        ).with("egress", Json::text(t.egress.as_str())).with(
            "credential_present",
            Json::Bool(t.credential_present),
        );
        let ghost jv = j@;
        assert(all[i as int] == info_json(t@));
        out.push(j);
        assert(views(out@) =~= views(before).push(jv));
        assert(all.take(i + 1) =~= all.take(i as int).push(all[i as int]));
        i = i + 1;
    }
    assert(all.take(all.len() as int) =~= all);
    Reply::new(200, Json::object().with("tools", Json::array(out)))
}

/// What an operator sees of a bootstrap token.
pub open spec fn token_json(t: BootstrapTokenRecord) -> JsonView {
    jempty().with("public_id"@, jstr(t.public_id@)).with("scope"@, scope_json(t.scope@)).with(
        "created_by"@,
        jstr(t.created_by@),
    ).with("created_at"@, jint(t.created_at as int)).with(
        "expires_at"@,
        jopt_int(t.expires_at),
    ).with("used_at"@, jopt_int(t.used_at)).with(
        "used_by_agent_id"@,
        jopt_int(t.used_by_agent_id),
    ).with("revoked_at"@, jopt_int(t.revoked_at))
}

fn token_to_json(t: &BootstrapTokenRecord) -> (r: Json)
    ensures
        r@ == token_json(*t),
{
    Json::object().with("public_id", Json::text(t.public_id.as_str())).with(
        "scope",
        scope_to_json(&t.scope),
    ).with("created_by", Json::text(t.created_by.as_str())).with(
        "created_at",
        Json::integer(t.created_at),
    ).with("expires_at", Json::opt_int(t.expires_at)).with(
        "used_at",
        Json::opt_int(t.used_at),
    ).with("used_by_agent_id", Json::opt_int(t.used_by_agent_id)).with(
        "revoked_at",
        Json::opt_int(t.revoked_at),
    )
}

/// The answer to a request for the list of bootstrap tokens.
pub fn op_list_bootstrap(tokens: &Result<Vec<BootstrapTokenRecord>, AdminError>) -> (r: Reply)
    ensures
        match *tokens {
            Ok(v) => r@ == reply(
                200,
                jempty().with(
                    "tokens"@,
                    JsonView::Array(v@.map_values(|t: BootstrapTokenRecord| token_json(t))),
                ),
            ),
            Err(e) => r@ == admin_reply(e@),
        },
{
    match tokens {
        Ok(v) => {
            let ghost all = v@.map_values(|t: BootstrapTokenRecord| token_json(t));
            let mut out: Vec<Json> = Vec::new();
            let mut i: usize = 0;
            assert(views(out@) =~= all.take(0));
            while i < v.len()
                invariant
                    i <= v@.len(),
                    all == v@.map_values(|t: BootstrapTokenRecord| token_json(t)),
                    all.len() == v@.len(),
                    views(out@) == all.take(i as int),
                decreases v.len() - i,
            {
                let ghost before = out@;
                let j = token_to_json(&v[i]);
                let ghost jv = j@;
                assert(all[i as int] == token_json(v@[i as int]));
                out.push(j);
                assert(views(out@) =~= views(before).push(jv));
                assert(all.take(i + 1) =~= all.take(i as int).push(all[i as int]));
                i = i + 1;
            }
            assert(all.take(all.len() as int) =~= all);
            Reply::new(200, Json::object().with("tokens", Json::array(out)))
        },
        Err(e) => admin_err_response(e),
    }
}

/// What an operator asks of the audit log.
pub struct AuditQueryParams {
    pub since_ms: Option<i64>,
    pub until_ms: Option<i64>,
    pub agent: Option<String>,
    pub tool: Option<String>,
    pub event_class: Option<String>,
    pub decision: Option<String>,
    pub limit: Option<u32>,
    pub offset: Option<u32>,
}

/// Which rows of the audit log are looked for.
pub struct AuditFilter {
    pub since_ms: Option<i64>,
    pub until_ms: Option<i64>,
    pub agent_public_id: Option<String>,
    pub tool: Option<String>,
    pub event_class: Option<EventClass>,
    pub decision: Option<Decision>,
}

/// Which part of the rows is given.
pub struct AuditPage {
    pub limit: u32,
    pub offset: u32,
}

/// The class with a name.
pub open spec fn class_named(s: Seq<char>) -> Option<EventClass> {
    if s == "proxy"@ {
        Some(EventClass::Proxy)
    } else if s == "operator"@ {
        Some(EventClass::Operator)
    } else if s == "security"@ {
        Some(EventClass::Security)
    } else {
        None
    }
}

/// The decision with a name.
pub open spec fn decision_named(s: Seq<char>) -> Option<Decision> {
    if s == "allowed"@ {
        Some(Decision::Allowed)
    } else if s == "denied"@ {
        Some(Decision::Denied)
    } else if s == "error"@ {
        Some(Decision::Error)
    } else {
        None
    }
}

fn read_class(s: &str) -> (r: Option<EventClass>)
    ensures
        r == class_named(s@),
{
    if same(s, "proxy") {
        Some(EventClass::Proxy)
    } else if same(s, "operator") {
        Some(EventClass::Operator)
    } else if same(s, "security") {
        Some(EventClass::Security)
    } else {
        None
    }
}

fn read_decision(s: &str) -> (r: Option<Decision>)
    ensures
        r == decision_named(s@),
{
    if same(s, "allowed") {
        Some(Decision::Allowed)
    } else if same(s, "denied") {
        Some(Decision::Denied)
    } else if same(s, "error") {
        Some(Decision::Error)
    } else {
        None
    }
}

/// Why a query is refused, if it is: it names a class or a decision that there is
/// not. The class is looked at first.
pub open spec fn query_refusal(q: AuditQueryParams) -> Option<ReplyView> {
    if q.event_class is Some && class_named(q.event_class->Some_0@) is None {
        Some(
            api_error(
                400,
                "invalid_event_class"@,
                "unknown event_class: "@ + q.event_class->Some_0@,
            ),
        )
    } else if q.decision is Some && decision_named(q.decision->Some_0@) is None {
        Some(api_error(400, "invalid_decision"@, "unknown decision: "@ + q.decision->Some_0@))
    } else {
        None
    }
}

/// Whether a filter and a page are those of a query: the first hundred rows, where it
/// does not say.
pub open spec fn audit_asked(q: AuditQueryParams, f: AuditFilter, p: AuditPage) -> bool {
    &&& f.since_ms == q.since_ms
    &&& f.until_ms == q.until_ms
    &&& f.agent_public_id == q.agent
    &&& f.tool == q.tool
    &&& f.event_class == match q.event_class {
        Some(s) => class_named(s@),
        None => None,
    }
    &&& f.decision == match q.decision {
        Some(s) => decision_named(s@),
        None => None,
    }
    &&& p.limit == match q.limit {
        Some(n) => n,
        None => 100,
    }
    &&& p.offset == match q.offset {
        Some(n) => n,
        None => 0,
    }
}

/// Which rows a query looks for, and which part of them it wants: the first
/// hundred, where it does not say.
pub fn op_query_audit(q: AuditQueryParams) -> (r: Result<(AuditFilter, AuditPage), Reply>)
    ensures
        match query_refusal(q) {
            Some(answer) => r is Err && r->Err_0@ == answer,
            None => r is Ok && audit_asked(q, r->Ok_0.0, r->Ok_0.1),
        },
{
    let event_class = match &q.event_class {
        Some(s) => match read_class(s.as_str()) {
            Some(c) => Some(c),
            None => {
                return Err(
                    Reply::api(
                        400,
                        "invalid_event_class",
                        cat("unknown event_class: ", s.as_str()).as_str(),
                    ),
                );
            },
        },
        None => None,
    };
    let decision = match &q.decision {
        Some(s) => match read_decision(s.as_str()) {
            Some(d) => Some(d),
            None => {
                return Err(
                    Reply::api(
                        400,
                        "invalid_decision",
                        cat("unknown decision: ", s.as_str()).as_str(),
                    ),
                );
            },
        },
        None => None,
    };
    let filter = AuditFilter {
        since_ms: q.since_ms,
        until_ms: q.until_ms,
        agent_public_id: q.agent,
        tool: q.tool,
        event_class,
        decision,
    };
    let page = AuditPage {
        limit: match q.limit {
            Some(n) => n,
            None => 100,
        },
        offset: match q.offset {
            Some(n) => n,
            None => 0,
        },
    };
    Ok((filter, page))
}

/// The answer to a query, given the rows.
pub fn audit_rows_reply(rows: &Result<Vec<AuditEvent>, AdminError>) -> (r: Reply)
    ensures
        match *rows {
            Ok(v) => r@ == reply(
                200,
                jempty().with(
                    "events"@,
                    JsonView::Array(event_views(v@).map_values(|e: AuditView| event_json(e))),
                ),
            ),
            Err(e) => r@ == admin_reply(e@),
        },
{
    match rows {
        Ok(v) => {
            let ghost all = event_views(v@).map_values(|e: AuditView| event_json(e));
            let mut out: Vec<Json> = Vec::new();
            let mut i: usize = 0;
            assert(views(out@) =~= all.take(0));
            while i < v.len()
                invariant
                    i <= v@.len(),
                    all == event_views(v@).map_values(|e: AuditView| event_json(e)),
                    all.len() == v@.len(),
                    views(out@) == all.take(i as int),
                decreases v.len() - i,
            {
                let ghost before = out@;
                let j = audit_event_json(&v[i]);
                let ghost jv = j@;
                assert(all[i as int] == event_json(v@[i as int]@));
                out.push(j);
                assert(views(out@) =~= views(before).push(jv));
                assert(all.take(i + 1) =~= all.take(i as int).push(all[i as int]));
                i = i + 1;
            }
            assert(all.take(all.len() as int) =~= all);
            Reply::new(200, Json::object().with("events", Json::array(out)))
        },
        Err(e) => admin_err_response(e),
    }
}

/// The class that a query finds under the name by which a class is written is that class,
/// and a name under which none is written finds none; the same for decisions.
pub proof fn law_reading_a_class_undoes_writing_it(c: EventClass, d: Decision, s: Seq<char>)
    ensures
        class_named(class_name(c)) == Some(c),
        decision_named(decision_name(d)) == Some(d),
        class_named(s) matches Some(x) ==> class_name(x) == s,
        decision_named(s) matches Some(x) ==> decision_name(x) == s,
{
    reveal_strlit("proxy");
    reveal_strlit("operator");
    reveal_strlit("security");
    reveal_strlit("allowed");
    reveal_strlit("denied");
    reveal_strlit("error");
    assert("proxy"@.len() != "operator"@.len());
    assert("operator"@[0] != "security"@[0]);
    assert("allowed"@.len() != "denied"@.len());
    assert("error"@.len() != "denied"@.len());
}

/// A query is refused exactly if it names a class or a decision under which no rows are
/// written, with 400 and the name that was not known; the class is looked at first.
pub proof fn law_unknown_names_are_refused(q: AuditQueryParams)
    ensures
        query_refusal(q) is Some <==> {
            ||| q.event_class is Some && forall|c: EventClass| #[trigger]
                class_name(c) != q.event_class->Some_0@
            ||| q.decision is Some && forall|d: Decision| #[trigger]
                decision_name(d) != q.decision->Some_0@
        },
        query_refusal(q) matches Some(r) ==> r.status == 400,
{
    assert forall|c: EventClass| class_named(#[trigger] class_name(c)) == Some(c) by {
        law_reading_a_class_undoes_writing_it(c, Decision::Allowed, Seq::empty());
    }
    assert forall|d: Decision| decision_named(#[trigger] decision_name(d)) == Some(d) by {
        law_reading_a_class_undoes_writing_it(EventClass::Proxy, d, Seq::empty());
    }
    if let Some(s) = q.event_class {
        law_reading_a_class_undoes_writing_it(EventClass::Proxy, Decision::Allowed, s@);
        if let Some(c) = class_named(s@) {
            assert(class_name(c) == s@);
        }
    }
    if let Some(s) = q.decision {
        law_reading_a_class_undoes_writing_it(EventClass::Proxy, Decision::Allowed, s@);
        if let Some(d) = decision_named(s@) {
            assert(decision_name(d) == s@);
        }
    }
}

/// An operator sees of an agent its id, name, description, lists, times and certificate,
/// each under its own name.
pub proof fn law_agents_are_shown_field_by_field(a: AgentRecord)
    ensures
        ({
            let j = agent_json(a@);
            &&& holds(j, "public_id"@, JsonView::Str(a.public_id@))
            &&& holds(j, "name"@, JsonView::Str(a.name@))
            &&& holds(j, "description"@, shown(opt_text(a.description)))
            &&& holds(j, "tool_allowlist"@, shown_list(a.tool_allowlist))
            &&& holds(j, "tool_denylist"@, shown_list(a.tool_denylist))
            &&& holds(j, "registered_at"@, jint(a.registered_at as int))
            &&& holds(j, "last_used_at"@, shown_time(a.last_used_at))
            &&& holds(j, "expires_at"@, shown_time(a.expires_at))
            &&& holds(j, "revoked_at"@, shown_time(a.revoked_at))
            &&& holds(j, "cert_identity"@, shown(opt_text(a.cert_identity)))
            &&& j->Object_0.len() == 10
        }),
{
    broadcast use lemma_with_holds;

    assert(jopt_strs(a.tool_allowlist) =~= shown_list(a.tool_allowlist)) by {
        if let Some(l) = a.tool_allowlist {
            assert(jopt_strs(a.tool_allowlist)->Array_0 =~= shown_list(
                a.tool_allowlist,
            )->Array_0);
        }
    }
    assert(jopt_strs(a.tool_denylist) =~= shown_list(a.tool_denylist)) by {
        if let Some(l) = a.tool_denylist {
            assert(jopt_strs(a.tool_denylist)->Array_0 =~= shown_list(a.tool_denylist)->Array_0);
        }
    }
}

/// A text that may be absent, as it is shown.
pub open spec fn shown(s: Option<Seq<char>>) -> JsonView {
    if s is Some {
        JsonView::Str(s->Some_0)
    } else {
        JsonView::Null
    }
}

/// A time that may be absent, as it is shown.
pub open spec fn shown_time(t: Option<i64>) -> JsonView {
    if t is Some {
        jint(t->Some_0 as int)
    } else {
        JsonView::Null
    }
}

/// A list that may be absent, as it is shown.
pub open spec fn shown_list(l: Option<Vec<String>>) -> JsonView {
    if l is Some {
        JsonView::Array(Seq::new(l->Some_0@.len(), |i: int| JsonView::Str(l->Some_0@[i]@)))
    } else {
        JsonView::Null
    }
}

/// An operator sees of a bootstrap token everything but its secret.
pub proof fn law_bootstrap_tokens_are_shown_field_by_field(t: BootstrapTokenRecord)
    ensures
        ({
            let j = token_json(t);
            &&& holds(j, "public_id"@, JsonView::Str(t.public_id@))
            &&& holds(j, "created_by"@, JsonView::Str(t.created_by@))
            &&& holds(j, "created_at"@, jint(t.created_at as int))
            &&& holds(j, "expires_at"@, shown_time(t.expires_at))
            &&& holds(j, "used_at"@, shown_time(t.used_at))
            &&& holds(j, "used_by_agent_id"@, shown_time(t.used_by_agent_id))
            &&& holds(j, "revoked_at"@, shown_time(t.revoked_at))
            &&& holds(j, "scope"@, scope_json(t.scope@))
            &&& j->Object_0.len() == 8
        }),
{
    broadcast use lemma_with_holds;

}

/// A tool is shown with its own name, description, way out, and whether it has its
/// credential.
pub proof fn law_tools_are_shown_field_by_field(i: InfoView)
    ensures
        holds(info_json(i), "name"@, JsonView::Str(i.name)),
        holds(info_json(i), "description"@, JsonView::Str(i.description)),
        holds(info_json(i), "egress"@, JsonView::Str(i.egress)),
        holds(info_json(i), "credential_present"@, JsonView::Bool(i.credential_present)),
        info_json(i)->Object_0.len() == 4,
{
    broadcast use lemma_with_holds;

}

/// Where only certificates count, an operator without one is refused; where both count, a
/// certificate that is shown is tested, and else the header is; where there are none, the
/// header is. A request without a credential is refused with 401.
pub proof fn law_operators_show_what_the_listener_asks_for(
    cert: bool,
    header: Option<Seq<char>>,
)
    ensures
        operator_gate(Some(AuthMode::Mtls), true, header) is TestCert,
        operator_gate(Some(AuthMode::Mtls), false, header) matches OperatorGateView::Refuse(r)
            && r.status == 401,
        operator_gate(Some(AuthMode::Both), true, header) is TestCert,
        forall|mode: Option<AuthMode>|
            (mode == Some(AuthMode::Both) && !cert) || mode == Some(AuthMode::Bearer) || mode is None
                ==> match header {
                Some(h) => #[trigger] operator_gate(mode, cert, header)
                    == OperatorGateView::TestBearer(h),
                None => operator_gate(mode, cert, header) matches OperatorGateView::Refuse(r)
                    && r.status == 401,
            },
{
}

/// Each error of the operator API has its status: 401 for a wrong bootstrap token, 403 for
/// what an operator may not do, 404 for an agent that is not there, 409 for a name that is
/// taken and for a second rotation, 500 for a failed store.
pub proof fn law_operator_errors_have_their_status(m: Seq<char>)
    ensures
        admin_reply(AdminFault::InvalidBootstrap).status == 401,
        admin_reply(AdminFault::NotAuthorized).status == 403,
        admin_reply(AdminFault::AgentNotFound).status == 404,
        admin_reply(AdminFault::AgentNameConflict).status == 409,
        admin_reply(AdminFault::RotationInProgress).status == 409,
        admin_reply(AdminFault::Backend(m)).status == 500,
{
}

/// A query that is not refused looks for the rows of its own span, agent and tool, and for
/// those that are written under the class and the decision that it names; a query that does
/// not name them looks for all. It gets a hundred rows from the first on, where it does not
/// say otherwise.
pub proof fn law_queries_find_what_they_ask_for(
    q: AuditQueryParams,
    f: AuditFilter,
    p: AuditPage,
)
    requires
        query_refusal(q) is None,
        audit_asked(q, f, p),
    ensures
        f.since_ms == q.since_ms,
        f.until_ms == q.until_ms,
        f.agent_public_id == q.agent,
        f.tool == q.tool,
        f.event_class is Some <==> q.event_class is Some,
        f.event_class is Some ==> class_name(f.event_class->Some_0) == q.event_class->Some_0@,
        f.decision is Some <==> q.decision is Some,
        f.decision is Some ==> decision_name(f.decision->Some_0) == q.decision->Some_0@,
        q.limit is Some ==> p.limit == q.limit->Some_0,
        q.limit is None ==> p.limit == 100,
        q.offset is Some ==> p.offset == q.offset->Some_0,
        q.offset is None ==> p.offset == 0,
{
    if let Some(s) = q.event_class {
        law_reading_a_class_undoes_writing_it(EventClass::Proxy, Decision::Allowed, s@);
    }
    if let Some(s) = q.decision {
        law_reading_a_class_undoes_writing_it(EventClass::Proxy, Decision::Allowed, s@);
    }
}

/// An error of the operator API is answered with its message and a code of its own, and a
/// caller that was not let in with the status, the message and the code of its fault.
pub proof fn law_operator_errors_have_their_code(e: AdminFault, a: AuthFault)
    ensures
        admin_reply(e).body == Some(
            coded_error(
                admin_message(e),
                crate::reply::error_kind(admin_reply(e).status),
                match e {
                    AdminFault::InvalidBootstrap => "invalid_credential"@,
                    AdminFault::AgentNameConflict => "agent_name_conflict"@,
                    AdminFault::RotationInProgress => "rotation_in_progress"@,
                    AdminFault::AgentNotFound => "agent_not_found"@,
                    AdminFault::NotAuthorized => "forbidden"@,
                    AdminFault::Backend(_) => "backend_error"@,
                },
            ),
        ),
        auth_api_reply(a).status == auth_status(a),
        auth_api_reply(a).body == Some(coded_error(auth_message(a), "auth_error"@, auth_code(a))),
{
}

/// A refused query is told which of its names is not known: the class before the decision.
pub proof fn law_refused_queries_are_told_the_name(q: AuditQueryParams)
    requires
        query_refusal(q) is Some,
    ensures
        ({
            let said = query_refusal(q)->Some_0.body;
            if q.event_class is Some && class_named(q.event_class->Some_0@) is None {
                said == Some(
                    coded_error(
                        "unknown event_class: "@ + q.event_class->Some_0@,
                        "bad_request"@,
                        "invalid_event_class"@,
                    ),
                )
            } else {
                said == Some(
                    coded_error(
                        "unknown decision: "@ + q.decision->Some_0@,
                        "bad_request"@,
                        "invalid_decision"@,
                    ),
                )
            }
        }),
{
}

} // verus!
