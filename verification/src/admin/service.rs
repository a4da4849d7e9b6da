//! What can be done with agents, whatever way a request came.
use vstd::prelude::*;

use crate::auth_v2::agent::{acl, AgentIdentity};
use crate::config::{egress_as_str, egress_name, tool_active, AppConfig, ToolConfig};
use crate::json::{jempty, jopt_int, jopt_str, jstr, jstrs, opt_json, Json, JsonView};
use crate::repo::{
    copy_opt_texts, opt_texts, opt_token, AgentRecord, AgentView, BootstrapScope, ParsedToken,
    RepoError, ScopeView, TokenNamespace, TokenView,
};
use crate::secret::Secret;
use crate::text::{cat, cat4, opt_text};

verus! {

/// Why an administrative request was refused.
#[derive(Debug)]
pub enum AdminError {
    InvalidBootstrap,
    AgentNameConflict,
    RotationInProgress,
    AgentNotFound,
    NotAuthorized,
    Backend(String),
}

/// What an [`AdminError`] says.
pub ghost enum AdminFault {
    InvalidBootstrap,
    AgentNameConflict,
    RotationInProgress,
    AgentNotFound,
    NotAuthorized,
    Backend(Seq<char>),
}

impl View for AdminError {
    type V = AdminFault;

    open spec fn view(&self) -> AdminFault {
        match self {
            AdminError::InvalidBootstrap => AdminFault::InvalidBootstrap,
            AdminError::AgentNameConflict => AdminFault::AgentNameConflict,
            AdminError::RotationInProgress => AdminFault::RotationInProgress,
            AdminError::AgentNotFound => AdminFault::AgentNotFound,
            AdminError::NotAuthorized => AdminFault::NotAuthorized,
            AdminError::Backend(m) => AdminFault::Backend(m@),
        }
    }
}

/// The text of an error.
pub open spec fn admin_message(e: AdminFault) -> Seq<char> {
    match e {
        AdminFault::InvalidBootstrap => "invalid bootstrap token"@,
        AdminFault::AgentNameConflict => "agent name conflict"@,
        AdminFault::RotationInProgress => "rotation in progress"@,
        AdminFault::AgentNotFound => "agent not found"@,
        AdminFault::NotAuthorized => "not authorized"@,
        AdminFault::Backend(m) => "backend: "@ + m,
    }
}

/// The error for what a store refused. A wrong secret can only be that of a
/// bootstrap token.
pub open spec fn admin_fault(e: RepoError) -> AdminFault {
    match e {
        RepoError::AgentNameConflict(_) => AdminFault::AgentNameConflict,
        RepoError::RotationInProgress(_) => AdminFault::RotationInProgress,
        RepoError::AgentNotFound => AdminFault::AgentNotFound,
        RepoError::InvalidCredential => AdminFault::InvalidBootstrap,
        RepoError::Backend(m) => AdminFault::Backend(m@),
    }
}

impl AdminError {
    /// The text of the error.
    pub fn message(&self) -> (r: String)
        ensures
            r@ == admin_message(self@),
    {
        match self {
            AdminError::InvalidBootstrap => "invalid bootstrap token".to_string(),
            AdminError::AgentNameConflict => "agent name conflict".to_string(),
            AdminError::RotationInProgress => "rotation in progress".to_string(),
            AdminError::AgentNotFound => "agent not found".to_string(),
            AdminError::NotAuthorized => "not authorized".to_string(),
            AdminError::Backend(m) => cat("backend: ", m.as_str()),
        }
    }

    /// The error for what a store refused.
    pub fn of_repo(e: RepoError) -> (r: AdminError)
        ensures
            r@ == admin_fault(e),
    {
        match e {
            RepoError::AgentNameConflict(_) => AdminError::AgentNameConflict,
            RepoError::RotationInProgress(_) => AdminError::RotationInProgress,
            RepoError::AgentNotFound => AdminError::AgentNotFound,
            RepoError::InvalidCredential => AdminError::InvalidBootstrap,
            RepoError::Backend(m) => AdminError::Backend(m),
        }
    }
}

/// What an agent sends to register itself.
pub struct RegisterInput {
    pub bootstrap_token: Secret,
    pub name: String,
    pub description: Option<String>,
    pub metadata: Option<Json>,
}

/// What comes back once, when an agent was made: its token among it.
#[derive(Debug)]
pub struct RegisterOutput {
    pub public_id: String,
    pub token: String,
    pub allowlist: Option<Vec<String>>,
}

/// What a [`RegisterOutput`] says.
#[verifier::ext_equal]
pub ghost struct RegisterView {
    pub public_id: Seq<char>,
    pub token: Seq<char>,
    pub allowlist: Option<Seq<Seq<char>>>,
}

impl View for RegisterOutput {
    type V = RegisterView;

    open spec fn view(&self) -> RegisterView {
        RegisterView {
            public_id: self.public_id@,
            token: self.token@,
            allowlist: opt_texts(self.allowlist),
        }
    }
}

/// A token: a prefix, the public id, a dot, the secret.
pub open spec fn token_text(prefix: Seq<char>, public_id: Seq<char>, secret: Seq<char>) -> Seq<
    char,
> {
    prefix + public_id + "."@ + secret
}

/// The token of an agent.
pub open spec fn agent_token(public_id: Seq<char>, secret: Seq<char>) -> Seq<char> {
    token_text("lk_"@, public_id, secret)
}

/// The token that invites an agent.
pub open spec fn invitation(public_id: Seq<char>, secret: Seq<char>) -> Seq<char> {
    token_text("lkbt_"@, public_id, secret)
}

fn token_of(prefix: &str, public_id: &str, secret: &Secret) -> (r: String)
    ensures
        r@ == token_text(prefix@, public_id@, secret@),
{
    cat4(prefix, public_id, ".", secret.expose())
}

/// A list of names in JSON, or null.
pub open spec fn jnames(v: Option<Seq<Seq<char>>>) -> JsonView {
    match v {
        Some(l) => jstrs(l),
        None => JsonView::Null,
    }
}

fn names_json(v: &Option<Vec<String>>) -> (r: Json)
    ensures
        r@ == jnames(opt_texts(*v)),
{
    match v {
        Some(l) => Json::texts(l),
        None => Json::Null,
    }
}

impl RegisterOutput {
    /// The output in JSON.
    pub fn to_json(&self) -> (r: Json)
        ensures
            r@ == jempty().with("public_id"@, jstr(self@.public_id)).with(
                "token"@,
                jstr(self@.token),
            ).with("allowlist"@, jnames(self@.allowlist)),
    {
        Json::object().with("public_id", Json::text(self.public_id.as_str())).with(
            "token",
            Json::text(self.token.as_str()),
        ).with("allowlist", names_json(&self.allowlist))
    }
}

/// What an agent sees of itself.
#[derive(Debug)]
pub struct AgentStatusOutput {
    pub public_id: String,
    pub name: String,
    pub description: Option<String>,
    pub allowlist: Option<Vec<String>>,
    pub denylist: Option<Vec<String>>,
    pub registered_at: i64,
    pub last_used_at: Option<i64>,
    pub expires_at: Option<i64>,
}

/// What an [`AgentStatusOutput`] says.
#[verifier::ext_equal]
pub ghost struct StatusView {
    pub public_id: Seq<char>,
    pub name: Seq<char>,
    pub description: Option<Seq<char>>,
    pub allowlist: Option<Seq<Seq<char>>>,
    pub denylist: Option<Seq<Seq<char>>>,
    pub registered_at: i64,
    pub last_used_at: Option<i64>,
    pub expires_at: Option<i64>,
}

impl View for AgentStatusOutput {
    type V = StatusView;

    open spec fn view(&self) -> StatusView {
        StatusView {
            public_id: self.public_id@,
            name: self.name@,
            description: opt_text(self.description),
            allowlist: opt_texts(self.allowlist),
            denylist: opt_texts(self.denylist),
            registered_at: self.registered_at,
            last_used_at: self.last_used_at,
            expires_at: self.expires_at,
        }
    }
}

/// What an agent sees of itself.
pub open spec fn status_of(a: AgentView) -> StatusView {
    StatusView {
        public_id: a.public_id,
        name: a.name,
        description: a.description,
        allowlist: a.tool_allowlist,
        denylist: a.tool_denylist,
        registered_at: a.registered_at,
        last_used_at: a.last_used_at,
        expires_at: a.expires_at,
    }
}

impl AgentStatusOutput {
    /// What an agent sees of itself.
    pub fn of_record(r: AgentRecord) -> (s: AgentStatusOutput)
        ensures
            s@ == status_of(r@),
    {
        AgentStatusOutput {
            public_id: r.public_id,
            name: r.name,
            description: r.description,
            allowlist: r.tool_allowlist,
            denylist: r.tool_denylist,
            registered_at: r.registered_at,
            last_used_at: r.last_used_at,
            expires_at: r.expires_at,
        }
    }

    /// The output in JSON.
    pub fn to_json(&self) -> (r: Json)
        ensures
            r@ == jempty().with("public_id"@, jstr(self@.public_id)).with(
                "name"@,
                jstr(self@.name),
            ).with("description"@, jopt_str(self@.description)).with(
                "allowlist"@,
                jnames(self@.allowlist),
            ).with("denylist"@, jnames(self@.denylist)).with(
                "registered_at"@,
                crate::json::jint(self@.registered_at as int),
            ).with("last_used_at"@, jopt_int(self@.last_used_at)).with(
                "expires_at"@,
                jopt_int(self@.expires_at),
            ),
    {
        Json::object().with("public_id", Json::text(self.public_id.as_str())).with(
            "name",
            Json::text(self.name.as_str()),
        ).with("description", Json::opt_text(&self.description)).with(
            "allowlist",
            names_json(&self.allowlist),
        ).with("denylist", names_json(&self.denylist)).with(
            "registered_at",
            Json::integer(self.registered_at),
        ).with("last_used_at", Json::opt_int(self.last_used_at)).with(
            "expires_at",
            Json::opt_int(self.expires_at),
        )
    }
}

/// What comes back once, when an agent got a new secret.
#[derive(Debug)]
pub struct RotateOutput {
    pub public_id: String,
    pub token: String,
}

impl RotateOutput {
    /// The output in JSON.
    pub fn to_json(&self) -> (r: Json)
        ensures
            r@ == jempty().with("public_id"@, jstr(self.public_id@)).with(
                "token"@,
                jstr(self.token@),
            ),
    {
        Json::object().with("public_id", Json::text(self.public_id.as_str())).with(
            "token",
            Json::text(self.token.as_str()),
        )
    }
}

/// What an operator sends to make an agent.
pub struct CreateAgentInput {
    pub name: String,
    pub description: Option<String>,
    pub allowlist: Option<Vec<String>>,
    pub denylist: Option<Vec<String>>,
    pub metadata: Option<Json>,
    pub expires_at: Option<i64>,
}

/// What an operator sends to change an agent: of each part nothing, or what it is
/// to be, which may be nothing.
pub struct ModifyAgentInput {
    pub allowlist: Option<Option<Vec<String>>>,
    pub denylist: Option<Option<Vec<String>>>,
    pub metadata: Option<Option<Json>>,
    pub expires_at: Option<Option<i64>>,
}

/// What an operator sends to make a bootstrap token.
#[derive(Debug)]
pub struct MintBootstrapInput {
    pub tool_allowlist: Option<Vec<String>>,
    pub expires_at: Option<i64>,
    pub single_use: bool,
}

/// A bootstrap token can be used once, where nothing else is said.
pub fn default_single_use() -> (r: bool)
    ensures
        r,
{
    true
}

/// What comes back once, when a bootstrap token was made.
pub struct MintBootstrapOutput {
    pub public_id: String,
    pub token: String,
    pub scope: BootstrapScope,
}

/// A scope in JSON.
pub open spec fn scope_json(s: ScopeView) -> JsonView {
    jempty().with("tool_allowlist"@, jnames(s.tool_allowlist)).with(
        "expires_at"@,
        jopt_int(s.expires_at),
    ).with("single_use"@, JsonView::Bool(s.single_use))
}

/// A scope in JSON.
pub fn scope_to_json(s: &BootstrapScope) -> (r: Json)
    ensures
        r@ == scope_json(s@),
{
    Json::object().with("tool_allowlist", names_json(&s.tool_allowlist)).with(
        "expires_at",
        Json::opt_int(s.expires_at),
    ).with("single_use", Json::Bool(s.single_use))
}

impl MintBootstrapOutput {
    /// The output in JSON.
    pub fn to_json(&self) -> (r: Json)
        ensures
            r@ == jempty().with("public_id"@, jstr(self.public_id@)).with(
                "token"@,
                jstr(self.token@),
            ).with("scope"@, scope_json(self.scope@)),
    {
        Json::object().with("public_id", Json::text(self.public_id.as_str())).with(
            "token",
            Json::text(self.token.as_str()),
        ).with("scope", scope_to_json(&self.scope))
    }
}

/// What is shown of a tool.
#[derive(Debug)]
pub struct ToolInfo {
    pub name: String,
    pub description: String,
    pub egress: String,
    pub credential_present: bool,
}

/// What a [`ToolInfo`] says.
#[verifier::ext_equal]
pub ghost struct InfoView {
    pub name: Seq<char>,
    pub description: Seq<char>,
    pub egress: Seq<char>,
    pub credential_present: bool,
}

impl View for ToolInfo {
    type V = InfoView;

    open spec fn view(&self) -> InfoView {
        InfoView {
            name: self.name@,
            description: self.description@,
            egress: self.egress@,
            credential_present: self.credential_present,
        }
    }
}

/// What is shown of a tool. A credential that is not needed counts as present.
pub open spec fn info_of(t: ToolConfig) -> InfoView {
    InfoView {
        name: t.name@,
        description: t.description@,
        egress: egress_name(t.egress),
        credential_present: tool_active(t),
    }
}

/// What is shown of tools.
pub open spec fn info_views(v: Seq<ToolInfo>) -> Seq<InfoView> {
    Seq::new(v.len(), |i: int| v[i]@)
}

fn tool_info(t: &ToolConfig) -> (r: ToolInfo)
    ensures
        r@ == info_of(*t),
{
    ToolInfo {
        name: t.name.clone(),
        description: t.description.clone(),
        egress: egress_as_str(t.egress).to_string(),
        credential_present: t.is_active(),
    }
}

/// What is shown of the tools that pass a test, in order.
pub open spec fn infos_where(tools: Seq<ToolConfig>, pass: spec_fn(Seq<char>) -> bool) -> Seq<
    InfoView,
>
    decreases tools.len(),
{
    if tools.len() == 0 {
        Seq::empty()
    } else {
        let rest = infos_where(tools.drop_last(), pass);
        if pass(tools.last().name@) {
            rest.push(info_of(tools.last()))
        } else {
            rest
        }
    }
}

/// What is to be stored of a new agent.
pub struct NewAgent {
    pub name: String,
    pub description: Option<String>,
    pub allowlist: Option<Vec<String>>,
    pub denylist: Option<Vec<String>>,
    pub metadata: Option<Json>,
    pub expires_at: Option<i64>,
}

/// What a [`NewAgent`] says.
#[verifier::ext_equal]
pub ghost struct NewAgentView {
    pub name: Seq<char>,
    pub description: Option<Seq<char>>,
    pub allowlist: Option<Seq<Seq<char>>>,
    pub denylist: Option<Seq<Seq<char>>>,
    pub metadata: Option<JsonView>,
    pub expires_at: Option<i64>,
}

impl View for NewAgent {
    type V = NewAgentView;

    open spec fn view(&self) -> NewAgentView {
        NewAgentView {
            name: self.name@,
            description: opt_text(self.description),
            allowlist: opt_texts(self.allowlist),
            denylist: opt_texts(self.denylist),
            metadata: opt_json(self.metadata),
            expires_at: self.expires_at,
        }
    }
}

/// Whether a token is a bootstrap token.
pub open spec fn bootstrap_token(parsed: Option<TokenView>) -> bool {
    parsed is Some && parsed->Some_0.namespace == TokenNamespace::Bootstrap
}

/// The start of a registration: the bootstrap token's parts, where it is one.
pub fn register_start(parsed: Option<ParsedToken>) -> (r: Result<ParsedToken, AdminError>)
    ensures
        match r {
            Ok(t) => bootstrap_token(opt_token(parsed)) && t@ == opt_token(parsed)->Some_0,
            Err(e) => !bootstrap_token(opt_token(parsed)) && e@ == AdminFault::InvalidBootstrap,
        },
{
    match parsed {
        Some(t) => {
            if t.namespace != TokenNamespace::Bootstrap {
                return Err(AdminError::InvalidBootstrap);
            }
            Ok(t)
        },
        None => Err(AdminError::InvalidBootstrap),
    }
}

/// The agent that is made for a registration: what it says of itself, with the tools of the
/// token that invited it.
pub open spec fn registered_view(input: RegisterInput, scope: BootstrapScope) -> NewAgentView {
    NewAgentView {
        name: input.name@,
        description: opt_text(input.description),
        allowlist: scope@.tool_allowlist,
        denylist: None,
        metadata: opt_json(input.metadata),
        expires_at: None,
    }
}

/// The agent that an operator makes: what the operator says of it.
pub open spec fn created_view(input: CreateAgentInput) -> NewAgentView {
    NewAgentView {
        name: input.name@,
        description: opt_text(input.description),
        allowlist: opt_texts(input.allowlist),
        denylist: opt_texts(input.denylist),
        metadata: opt_json(input.metadata),
        expires_at: input.expires_at,
    }
}

/// The agent that a registration makes: it may call what the bootstrap token lets
/// it call.
pub fn registered_agent(input: RegisterInput, scope: &BootstrapScope) -> (r: NewAgent)
    ensures
        r@ == registered_view(input, *scope),
{
    NewAgent {
        name: input.name,
        description: input.description,
        allowlist: copy_opt_texts(&scope.tool_allowlist),
        denylist: None,
        metadata: input.metadata,
        expires_at: None,
    }
}

/// The agent that an operator makes.
pub fn created_agent(input: CreateAgentInput) -> (r: NewAgent)
    ensures
        r@ == created_view(input),
{
    NewAgent {
        name: input.name,
        description: input.description,
        allowlist: input.allowlist,
        denylist: input.denylist,
        metadata: input.metadata,
        expires_at: input.expires_at,
    }
}

/// What is done after a new agent was to be stored.
pub enum RegisterStep {
    /// The registration is over, and the bootstrap token stays as it is.
    Refuse(AdminError),
    /// The bootstrap token is to be used up for the agent with this number.
    Consume { number: i64, public_id: String, secret: Secret },
}

/// What a [`RegisterStep`] says.
pub ghost enum RegisterStepView {
    Refuse(AdminFault),
    Consume { number: i64, public_id: Seq<char>, secret: Seq<char> },
}

impl View for RegisterStep {
    type V = RegisterStepView;

    open spec fn view(&self) -> RegisterStepView {
        match self {
            RegisterStep::Refuse(e) => RegisterStepView::Refuse(e@),
            RegisterStep::Consume { number, public_id, secret } => RegisterStepView::Consume {
                number: *number,
                public_id: public_id@,
                secret: secret@,
            },
        }
    }
}

/// What is done after a new agent was to be stored: only for an agent that is there
/// the bootstrap token is used up.
pub open spec fn after_insert(
    inserted: Result<(i64, String, Secret), RepoError>,
) -> RegisterStepView {
    match inserted {
        Err(e) => RegisterStepView::Refuse(admin_fault(e)),
        Ok(a) => RegisterStepView::Consume { number: a.0, public_id: a.1@, secret: a.2@ },
    }
}

/// What is done after a new agent was to be stored.
pub fn register_inserted(inserted: Result<(i64, String, Secret), RepoError>) -> (r: RegisterStep)
    ensures
        r@ == after_insert(inserted),
{
    match inserted {
        Err(e) => RegisterStep::Refuse(AdminError::of_repo(e)),
        Ok((number, public_id, secret)) => RegisterStep::Consume { number, public_id, secret },
    }
}

/// A name that is taken is refused as such, and the bootstrap token is not used up: it
/// is for an agent that was stored, and for no other.
pub proof fn law_taken_name_uses_no_token(inserted: Result<(i64, String, Secret), RepoError>)
    ensures
        after_insert(inserted) is Consume <==> inserted is Ok,
        inserted matches Err(RepoError::AgentNameConflict(_)) ==> after_insert(inserted)
            == RegisterStepView::Refuse(AdminFault::AgentNameConflict),
{
}

/// The end of a registration, after the agent was made: the answer, and whether
/// the agent is to be revoked again.
pub struct RegisterEnd {
    pub result: Result<RegisterOutput, AdminError>,
    pub revoke: bool,
}

/// What a [`RegisterEnd`] says.
#[verifier::ext_equal]
pub ghost struct EndView {
    pub result: Result<RegisterView, AdminFault>,
    pub revoke: bool,
}

impl View for RegisterEnd {
    type V = EndView;

    open spec fn view(&self) -> EndView {
        EndView {
            result: match self.result {
                Ok(o) => Ok(o@),
                Err(e) => Err(e@),
            },
            revoke: self.revoke,
        }
    }
}

/// The end of a registration, given what the using up of the bootstrap token
/// gave: where that failed, the agent is revoked again, so that no agent stays
/// without a token used up for it.
pub open spec fn register_end(
    public_id: Seq<char>,
    secret: Seq<char>,
    scope: ScopeView,
    consumed: Result<(), RepoError>,
) -> EndView {
    match consumed {
        Err(e) => EndView { result: Err(admin_fault(e)), revoke: true },
        Ok(()) => EndView {
            result: Ok(
                RegisterView {
                    public_id,
                    token: agent_token(public_id, secret),
                    allowlist: scope.tool_allowlist,
                },
            ),
            revoke: false,
        },
    }
}

/// The end of a registration.
pub fn register_agent(
    public_id: String,
    secret: &Secret,
    scope: BootstrapScope,
    consumed: Result<(), RepoError>,
) -> (r: RegisterEnd)
    ensures
        r@ == register_end(public_id@, secret@, scope@, consumed),
{
    match consumed {
        Err(e) => RegisterEnd { result: Err(AdminError::of_repo(e)), revoke: true },
        Ok(()) => {
            let token = token_of("lk_", public_id.as_str(), secret);
            RegisterEnd {
                result: Ok(RegisterOutput { public_id, token, allowlist: scope.tool_allowlist }),
                revoke: false,
            }
        },
    }
}

/// A registration succeeds only where its bootstrap token was used up, and the
/// agent is kept exactly then.
pub proof fn law_registration_uses_the_token_up(
    public_id: Seq<char>,
    secret: Seq<char>,
    scope: ScopeView,
    consumed: Result<(), RepoError>,
)
    ensures
        ({
            let end = register_end(public_id, secret, scope, consumed);
            (end.result is Ok <==> consumed is Ok) && (end.revoke <==> consumed is Err)
        }),
{
}

/// The agent that was looked up, where there is one.
pub open spec fn found_agent(found: Result<Option<AgentRecord>, RepoError>) -> Result<
    AgentView,
    AdminFault,
> {
    match found {
        Err(e) => Err(admin_fault(e)),
        Ok(None) => Err(AdminFault::AgentNotFound),
        Ok(Some(a)) => Ok(a@),
    }
}

/// What an agent sees of itself, given what was looked up.
pub fn get_agent_status(found: Result<Option<AgentRecord>, RepoError>) -> (r: Result<
    AgentStatusOutput,
    AdminError,
>)
    ensures
        match found_agent(found) {
            Ok(a) => r is Ok && r->Ok_0@ == status_of(a),
            Err(e) => r is Err && r->Err_0@ == e,
        },
{
    match found {
        Err(e) => Err(AdminError::of_repo(e)),
        Ok(None) => Err(AdminError::AgentNotFound),
        Ok(Some(a)) => Ok(AgentStatusOutput::of_record(a)),
    }
}

/// What comes back when an agent got a new secret, or not.
pub fn rotate_agent(agent: &AgentIdentity, rotated: Result<Secret, RepoError>) -> (r: Result<
    RotateOutput,
    AdminError,
>)
    ensures
        match rotated {
            Ok(secret) => r is Ok && r->Ok_0.public_id@ == agent.public_id@ && r->Ok_0.token@
                == agent_token(agent.public_id@, secret@),
            Err(e) => r is Err && r->Err_0@ == admin_fault(e),
        },
{
    match rotated {
        Ok(secret) => Ok(
            RotateOutput {
                public_id: agent.public_id.clone(),
                token: token_of("lk_", agent.public_id.as_str(), &secret),
            },
        ),
        Err(e) => Err(AdminError::of_repo(e)),
    }
}

/// What comes back of a request that gives nothing.
pub fn finished(done: Result<(), RepoError>) -> (r: Result<(), AdminError>)
    ensures
        match done {
            Ok(()) => r is Ok,
            Err(e) => r is Err && r->Err_0@ == admin_fault(e),
        },
{
    match done {
        Ok(()) => Ok(()),
        Err(e) => Err(AdminError::of_repo(e)),
    }
}

/// The tools that an agent may call, in the order of the configuration.
pub fn list_tools_for_agent(agent: &AgentIdentity, config: &AppConfig) -> (r: Vec<ToolInfo>)
    ensures
        info_views(r@) == infos_where(
            config.tools@,
            |n: Seq<char>| acl(agent@, n) is Ok,
        ),
{
    let ghost pass = |n: Seq<char>| acl(agent@, n) is Ok;
    let mut out: Vec<ToolInfo> = Vec::new();
    let mut i: usize = 0;
    assert(info_views(out@) =~= infos_where(config.tools@.take(0), pass));
    while i < config.tools.len()
        invariant
            i <= config.tools@.len(),
            pass == (|n: Seq<char>| acl(agent@, n) is Ok),
            info_views(out@) == infos_where(config.tools@.take(i as int), pass),
        decreases config.tools.len() - i,
    {
        let t = &config.tools[i];
        assert(config.tools@.take(i + 1).drop_last() =~= config.tools@.take(i as int));
        assert(config.tools@.take(i + 1).last() == *t);
        if agent.allows_tool(t.name.as_str()).is_ok() {
            let ghost before = out@;
            let info = tool_info(t);
            let ghost iv = info@;
            out.push(info);
            assert(info_views(out@) =~= info_views(before).push(iv));
        }
        i = i + 1;
    }
    assert(config.tools@.take(config.tools@.len() as int) =~= config.tools@);
    out
}

/// All tools, in the order of the configuration.
pub fn list_tools_for_operator(config: &AppConfig) -> (r: Vec<ToolInfo>)
    ensures
        info_views(r@) == config.tools@.map_values(|t: ToolConfig| info_of(t)),
{
    let ghost all = config.tools@.map_values(|t: ToolConfig| info_of(t));
    let mut out: Vec<ToolInfo> = Vec::new();
    let mut i: usize = 0;
    assert(info_views(out@) =~= all.take(0));
    while i < config.tools.len()
        invariant
            i <= config.tools@.len(),
            all == config.tools@.map_values(|t: ToolConfig| info_of(t)),
            all.len() == config.tools@.len(),
            info_views(out@) == all.take(i as int),
        decreases config.tools.len() - i,
    {
        let ghost before = out@;
        let info = tool_info(&config.tools[i]);
        assert(all[i as int] == info_of(config.tools@[i as int]));
        let ghost iv = info@;
        out.push(info);
        assert(info_views(out@) =~= info_views(before).push(iv));
        assert(all.take(i + 1) =~= all.take(i as int).push(all[i as int]));
        i = i + 1;
    }
    assert(all.take(all.len() as int) =~= all);
    out
}

/// An agent sees exactly the tools that it may call.
pub proof fn law_agents_see_what_they_may_call(
    tools: Seq<ToolConfig>,
    pass: spec_fn(Seq<char>) -> bool,
    i: int,
)
    requires
        0 <= i < tools.len(),
    ensures
        pass(tools[i].name@) ==> infos_where(tools, pass).contains(info_of(tools[i])),
        forall|k: int|
            0 <= k < infos_where(tools, pass).len() ==> pass(
                (#[trigger] infos_where(tools, pass)[k]).name,
            ),
    decreases tools.len(),
{
    lemma_infos_pass(tools, pass);
    let rest = infos_where(tools.drop_last(), pass);
    if i < tools.len() - 1 {
        law_agents_see_what_they_may_call(tools.drop_last(), pass, i);
        assert(tools.drop_last()[i] == tools[i]);
        if pass(tools[i].name@) {
            let k = rest.index_of(info_of(tools[i]));
            assert(infos_where(tools, pass)[k] == info_of(tools[i]));
        }
    } else if pass(tools[i].name@) {
        assert(infos_where(tools, pass)[rest.len() as int] == info_of(tools[i]));
    }
}

proof fn lemma_infos_pass(tools: Seq<ToolConfig>, pass: spec_fn(Seq<char>) -> bool)
    ensures
        forall|k: int|
            0 <= k < infos_where(tools, pass).len() ==> pass(
                (#[trigger] infos_where(tools, pass)[k]).name,
            ),
    decreases tools.len(),
{
    if tools.len() > 0 {
        lemma_infos_pass(tools.drop_last(), pass);
        let rest = infos_where(tools.drop_last(), pass);
        let all = infos_where(tools, pass);
        assert forall|k: int| 0 <= k < all.len() implies pass((#[trigger] all[k]).name) by {
            if k < rest.len() {
                assert(all[k] == rest[k]);
            }
        }
    }
}

/// The agent that an operator means: the one with the id, else the one with the name.
pub open spec fn looked_up(
    by_id: Result<Option<AgentRecord>, RepoError>,
    by_name: Result<Option<AgentRecord>, RepoError>,
) -> Result<AgentRecord, AdminFault> {
    match by_id {
        Err(e) => Err(admin_fault(e)),
        Ok(Some(a)) => Ok(a),
        Ok(None) => match by_name {
            Err(e) => Err(admin_fault(e)),
            Ok(Some(a)) => Ok(a),
            Ok(None) => Err(AdminFault::AgentNotFound),
        },
    }
}

/// The agent with an id, or else with a name, given what was looked up.
pub fn get_agent(
    by_id: Result<Option<AgentRecord>, RepoError>,
    by_name: Result<Option<AgentRecord>, RepoError>,
) -> (r: Result<AgentRecord, AdminError>)
    ensures
        match looked_up(by_id, by_name) {
            Ok(a) => r == Ok::<AgentRecord, AdminError>(a),
            Err(e) => r is Err && r->Err_0@ == e,
        },
{
    match by_id {
        Err(e) => Err(AdminError::of_repo(e)),
        Ok(Some(a)) => Ok(a),
        Ok(None) => match by_name {
            Err(e) => Err(AdminError::of_repo(e)),
            Ok(Some(a)) => Ok(a),
            Ok(None) => Err(AdminError::AgentNotFound),
        },
    }
}

/// What comes back when an operator made an agent, or not.
pub fn create_agent_as_operator(
    allowlist: Option<Vec<String>>,
    created: Result<(String, Secret), RepoError>,
) -> (r: Result<RegisterOutput, AdminError>)
    ensures
        match created {
            Ok(c) => r is Ok && r->Ok_0@ == (RegisterView {
                public_id: c.0@,
                token: agent_token(c.0@, c.1@),
                allowlist: opt_texts(allowlist),
            }),
            Err(e) => r is Err && r->Err_0@ == admin_fault(e),
        },
{
    match created {
        Ok((public_id, secret)) => {
            let token = token_of("lk_", public_id.as_str(), &secret);
            Ok(RegisterOutput { public_id, token, allowlist })
        },
        Err(e) => Err(AdminError::of_repo(e)),
    }
}

/// The scope of a bootstrap token that an operator asks for.
pub fn bootstrap_scope(input: MintBootstrapInput) -> (r: BootstrapScope)
    ensures
        r@ == (ScopeView {
            tool_allowlist: opt_texts(input.tool_allowlist),
            expires_at: input.expires_at,
            single_use: input.single_use,
        }),
{
    BootstrapScope {
        tool_allowlist: input.tool_allowlist,
        expires_at: input.expires_at,
        single_use: input.single_use,
    }
}

/// What comes back when a bootstrap token was made, or not.
pub fn mint_bootstrap_token(scope: BootstrapScope, minted: Result<(String, Secret), RepoError>) -> (r:
    Result<MintBootstrapOutput, AdminError>)
    ensures
        match minted {
            Ok(m) => r is Ok && r->Ok_0.public_id@ == m.0@ && r->Ok_0.token@ == invitation(
                m.0@,
                m.1@,
            ) && r->Ok_0.scope == scope,
            Err(e) => r is Err && r->Err_0@ == admin_fault(e),
        },
{
    match minted {
        Ok((public_id, secret)) => {
            let token = token_of("lkbt_", public_id.as_str(), &secret);
            Ok(MintBootstrapOutput { public_id, token, scope })
        },
        Err(e) => Err(AdminError::of_repo(e)),
    }
}

/// An agent that registers with a token is made with its own name, description and
/// metadata, and may call what the token allows; it cannot name tools or an end itself.
pub proof fn law_invited_agents_are_as_the_token_allows(
    input: RegisterInput,
    scope: BootstrapScope,
    a: NewAgent,
)
    requires
        a@ == registered_view(input, scope),
    ensures
        a.name@ == input.name@,
        opt_text(a.description) == opt_text(input.description),
        opt_texts(a.allowlist) == opt_texts(scope.tool_allowlist),
        a.denylist is None,
        opt_json(a.metadata) == opt_json(input.metadata),
        a.expires_at is None,
{
}

/// An agent that an operator makes is as the operator says.
pub proof fn law_made_agents_are_as_the_operator_says(input: CreateAgentInput, a: NewAgent)
    requires
        a@ == created_view(input),
    ensures
        a.name@ == input.name@,
        opt_text(a.description) == opt_text(input.description),
        opt_texts(a.allowlist) == opt_texts(input.allowlist),
        opt_texts(a.denylist) == opt_texts(input.denylist),
        opt_json(a.metadata) == opt_json(input.metadata),
        a.expires_at == input.expires_at,
{
}

/// An agent that registered is given its id, a token that holds that id and its secret, and
/// the list of the token that invited it. Where that token could not be used up, the agent
/// that was made is taken back and the fault is told.
pub proof fn law_registered_agents_get_their_token(
    public_id: Seq<char>,
    secret: Seq<char>,
    scope: ScopeView,
    consumed: Result<(), RepoError>,
)
    ensures
        consumed is Ok ==> {
            let end = register_end(public_id, secret, scope, consumed);
            &&& end.result matches Ok(o) && o.public_id == public_id && o.token == "lk_"@
                + public_id + "."@ + secret && o.allowlist == scope.tool_allowlist
            &&& !end.revoke
        },
        consumed matches Err(e) ==> {
            let end = register_end(public_id, secret, scope, consumed);
            &&& end.revoke
            &&& e is InvalidCredential ==> end.result == Err::<RegisterView, AdminFault>(
                AdminFault::InvalidBootstrap,
            )
        },
{
}

/// What a store reports reaches the operator as what it is: a name that is taken, a
/// rotation that goes on, an agent that is not there, a token that is not good, or a
/// failure with its message.
pub proof fn law_store_faults_keep_their_meaning(e: RepoError)
    ensures
        admin_fault(e) is AgentNameConflict <==> e is AgentNameConflict,
        admin_fault(e) is RotationInProgress <==> e is RotationInProgress,
        admin_fault(e) is AgentNotFound <==> e is AgentNotFound,
        admin_fault(e) is InvalidBootstrap <==> e is InvalidCredential,
        e matches RepoError::Backend(m) ==> admin_fault(e) == AdminFault::Backend(m@),
{
}

/// Only a token of the bootstrap kind registers an agent.
pub proof fn law_only_bootstrap_tokens_register(t: TokenView)
    ensures
        bootstrap_token(Some(t)) <==> t.namespace == TokenNamespace::Bootstrap,
        !bootstrap_token(None),
{
}

/// The status of an agent says what is stored of it.
pub proof fn law_status_says_what_is_stored(a: AgentRecord)
    ensures
        ({
            let s = status_of(a@);
            &&& s.public_id == a.public_id@ && s.name == a.name@
            &&& s.description == opt_text(a.description)
            &&& s.allowlist == opt_texts(a.tool_allowlist)
            &&& s.denylist == opt_texts(a.tool_denylist)
            &&& s.registered_at == a.registered_at && s.last_used_at == a.last_used_at
            &&& s.expires_at == a.expires_at
        }),
        found_agent(Ok(Some(a))) == Ok::<AgentView, AdminFault>(a@),
        found_agent(Ok(None)) == Err::<AgentView, AdminFault>(AdminFault::AgentNotFound),
{
}

/// The list of tools grows with each further tool that passes, and with no other, in the
/// order of the tools; an entry says the tool's own name, description and way out.
pub proof fn law_tools_are_listed_in_order(
    tools: Seq<ToolConfig>,
    t: ToolConfig,
    pass: spec_fn(Seq<char>) -> bool,
)
    ensures
        infos_where(Seq::empty(), pass).len() == 0,
        infos_where(tools.push(t), pass) == infos_where(tools, pass) + (if pass(t.name@) {
            seq![info_of(t)]
        } else {
            Seq::empty()
        }),
        info_of(t).name == t.name@,
        info_of(t).description == t.description@,
        info_of(t).egress == egress_name(t.egress),
        info_of(t).credential_present == tool_active(t),
{
    assert(tools.push(t).drop_last() =~= tools);
    let rest = infos_where(tools, pass);
    assert(rest + Seq::empty() =~= rest);
    assert(rest + seq![info_of(t)] =~= rest.push(info_of(t)));
}

/// The scope of a bootstrap token is shown with its tools, its end, and whether it can be
/// used once.
pub proof fn law_scopes_are_shown_field_by_field(s: BootstrapScope)
    ensures
        scope_json(s@) == JsonView::Object(
            seq![
                ("tool_allowlist"@, jnames(opt_texts(s.tool_allowlist))),
                ("expires_at"@, jopt_int(s.expires_at)),
                ("single_use"@, JsonView::Bool(s.single_use)),
            ],
        ),
        jnames(None) is Null,
        s.tool_allowlist matches Some(l) ==> jnames(opt_texts(s.tool_allowlist))
            == JsonView::Array(Seq::new(l@.len(), |i: int| JsonView::Str(l@[i]@))),
{
    assert(scope_json(s@)->Object_0 =~= seq![
        ("tool_allowlist"@, jnames(opt_texts(s.tool_allowlist))),
        ("expires_at"@, jopt_int(s.expires_at)),
        ("single_use"@, JsonView::Bool(s.single_use)),
    ]);
    if let Some(l) = s.tool_allowlist {
        assert(jnames(opt_texts(s.tool_allowlist))->Array_0 =~= Seq::new(
            l@.len(),
            |i: int| JsonView::Str(l@[i]@),
        ));
    }
}

/// An agent that has the id is the one that is meant, whatever has the name; one that has
/// the name only where none has the id. Where neither is there, none is found.
pub proof fn law_ids_come_before_names(
    a: AgentRecord,
    b: AgentRecord,
    e: RepoError,
    by_name: Result<Option<AgentRecord>, RepoError>,
)
    ensures
        looked_up(Ok(Some(a)), by_name) == Ok::<AgentRecord, AdminFault>(a),
        looked_up(Ok(None), Ok(Some(b))) == Ok::<AgentRecord, AdminFault>(b),
        looked_up(Ok(None), Ok(None)) == Err::<AgentRecord, AdminFault>(AdminFault::AgentNotFound),
        looked_up(Err(e), by_name) == Err::<AgentRecord, AdminFault>(admin_fault(e)),
        looked_up(Ok(None), Err(e)) == Err::<AgentRecord, AdminFault>(admin_fault(e)),
{
}

} // verus!
