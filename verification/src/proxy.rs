//! The way of a request through the proxy: from the agent to an upstream, with
//! the upstream's credential put in, and back.
use vstd::prelude::*;
use vstd::string::StringSliceAdditionalSpecFns;

use crate::audit::{bare_event, detail, detail_text, AuditEvent, AuditView, Decision, EventClass};
use crate::auth::AuthenticatedAs;
use crate::auth_v2::agent::{acl, AgentIdentity, IdentityView};
use crate::config::{tool_active, AppConfig, EgressMode, ToolConfig, ToolTimeouts};
use crate::headers::{
    forward_request_headers, forward_response_headers, forwarded, header_views,
    response_map, returned, Header, HeaderView,
};
use crate::json::{holds, jempty, jnat, jopt_str, jstr, lemma_with_holds, Json, JsonView};
use crate::registrations::auth_spec::AuthView;
use crate::registrations::repo::RegistrationView;
use crate::registrations::table::row_at;
use crate::registrations::{AuthSpec, Catalog, Registration};
use crate::reply::{coded_error, reply, Reply, ReplyView};
use crate::secret::ResolvedCreds;
use crate::text::{
    cat, cat3, copy_opt, drop_trailing, lowercased, opt_text, same, starts, strip_prefix,
    trim_end_char, unicode_lower,
};

verus! {

/// What is known of a request when it arrives.
pub struct RequestCtx {
    pub tool_name: String,
    pub request_path: String,
    pub method: String,
    pub auth_method: &'static str,
    pub agent_public_id: Option<String>,
}

/// What a [`RequestCtx`] says.
#[verifier::ext_equal]
pub ghost struct CtxView {
    pub tool_name: Seq<char>,
    pub request_path: Seq<char>,
    pub method: Seq<char>,
    pub auth_method: Seq<char>,
    pub agent_public_id: Option<Seq<char>>,
}

impl View for RequestCtx {
    type V = CtxView;

    open spec fn view(&self) -> CtxView {
        CtxView {
            tool_name: self.tool_name@,
            request_path: self.request_path@,
            method: self.method@,
            auth_method: self.auth_method@,
            agent_public_id: opt_text(self.agent_public_id),
        }
    }
}

/// The time of an event, and how long the request has taken until then.
#[derive(Debug, Clone, Copy)]
pub struct Moment {
    pub ts_ms: i64,
    pub latency_ms: u64,
}

/// The view of an optional identity.
pub open spec fn opt_identity(i: Option<&AgentIdentity>) -> Option<IdentityView> {
    match i {
        Some(x) => Some(x@),
        None => None,
    }
}

impl RequestCtx {
    /// What is known of a request: by what it was let in, and which agent sent
    /// it, where that is known.
    pub fn snapshot(
        tool_name: String,
        request_path: String,
        method: String,
        by: Option<AuthenticatedAs>,
        identity: Option<&AgentIdentity>,
    ) -> (r: RequestCtx)
        ensures
            r@ == ctx_of(tool_name@, request_path@, method@, by, opt_identity(identity)),
    {
        let auth_method = match by {
            Some(AuthenticatedAs::Mtls) => "mtls",
            _ => "bearer",
        };
        let agent_public_id = match identity {
            Some(i) => Some(i.public_id.clone()),
            None => None,
        };
        RequestCtx { tool_name, request_path, method, auth_method, agent_public_id }
    }

    fn event(&self, at: Moment, class: EventClass, event: &str, decision: Decision) -> (r:
        AuditEvent)
        ensures
            r@ == ctx_event(self@, at, class, event@, decision),
    {
        let mut e = AuditEvent::bare(at.ts_ms, class, event, decision);
        e.tool = Some(self.tool_name.clone());
        e.method = Some(self.method.clone());
        e.path = Some(self.request_path.clone());
        e.latency_ms = Some(at.latency_ms);
        e.auth_method = Some(self.auth_method.to_string());
        e.agent_public_id = copy_opt(&self.agent_public_id);
        e
    }
}

/// A row about a request, with what is known of it.
pub open spec fn ctx_event(
    ctx: CtxView,
    at: Moment,
    class: EventClass,
    event: Seq<char>,
    decision: Decision,
) -> AuditView {
    AuditView {
        tool: Some(ctx.tool_name),
        method: Some(ctx.method),
        path: Some(ctx.request_path),
        latency_ms: Some(at.latency_ms),
        auth_method: Some(ctx.auth_method),
        agent_public_id: ctx.agent_public_id,
        ..bare_event(at.ts_ms as int, class, event, decision)
    }
}

/// What the proxy does about an upstream's credential.
pub enum ProxyAuth {
    /// Nothing is put in.
    NoAuth,
    /// The credential is put into this header.
    Header { header: String, audit_mode: &'static str },
    /// The credential is put into `Authorization`, as a bearer token.
    Bearer,
    /// The access token of an OAuth session would go in; nothing is put in here.
    Oauth { audit_mode: &'static str },
}

/// What a [`ProxyAuth`] says.
#[verifier::ext_equal]
pub ghost enum ProxyAuthView {
    NoAuth,
    Header { header: Seq<char>, audit_mode: Seq<char> },
    Bearer,
    Oauth { audit_mode: Seq<char> },
}

impl View for ProxyAuth {
    type V = ProxyAuthView;

    open spec fn view(&self) -> ProxyAuthView {
        match self {
            ProxyAuth::NoAuth => ProxyAuthView::NoAuth,
            ProxyAuth::Header { header, audit_mode } => ProxyAuthView::Header {
                header: header@,
                audit_mode: audit_mode@,
            },
            ProxyAuth::Bearer => ProxyAuthView::Bearer,
            ProxyAuth::Oauth { audit_mode } => ProxyAuthView::Oauth { audit_mode: audit_mode@ },
        }
    }
}

/// The word by which the kind of credential is recorded.
pub open spec fn audit_mode_of(a: ProxyAuthView) -> Seq<char> {
    match a {
        ProxyAuthView::NoAuth => "none"@,
        ProxyAuthView::Header { audit_mode, .. } => audit_mode,
        ProxyAuthView::Bearer => "bearer"@,
        ProxyAuthView::Oauth { audit_mode } => audit_mode,
    }
}

/// The name, in lower case, of the header that the credential goes into, where
/// that is not one that is always kept back.
pub open spec fn strip_of(a: ProxyAuthView) -> Option<Seq<char>> {
    match a {
        ProxyAuthView::Header { header, .. } => Some(lowercased(header)),
        _ => None,
    }
}

impl ProxyAuth {
    /// The word by which the kind of credential is recorded.
    pub fn audit_mode(&self) -> (r: &'static str)
        ensures
            r@ == audit_mode_of(self@),
    {
        match self {
            ProxyAuth::NoAuth => "none",
            ProxyAuth::Header { audit_mode, .. } => audit_mode,
            ProxyAuth::Bearer => "bearer",
            ProxyAuth::Oauth { audit_mode } => audit_mode,
        }
    }

    /// The name, in lower case, of the header that the credential goes into,
    /// where that is not one that is always kept back.
    pub fn strip_header_lower(&self) -> (r: Option<String>)
        ensures
            opt_text(r) == strip_of(self@),
    {
        match self {
            ProxyAuth::Header { header, .. } => Some(unicode_lower(header.as_str())),
            _ => None,
        }
    }
}

/// Where a request goes.
pub struct ProxyTarget {
    pub name: String,
    pub upstream: String,
    pub body_limit_bytes: u64,
    pub timeouts: ToolTimeouts,
    pub egress: EgressMode,
    pub auth: ProxyAuth,
}

/// What a [`ProxyTarget`] says.
#[verifier::ext_equal]
pub ghost struct TargetView {
    pub name: Seq<char>,
    pub upstream: Seq<char>,
    pub body_limit_bytes: u64,
    pub timeouts: ToolTimeouts,
    pub egress: EgressMode,
    pub auth: ProxyAuthView,
}

impl View for ProxyTarget {
    type V = TargetView;

    open spec fn view(&self) -> TargetView {
        TargetView {
            name: self.name@,
            upstream: self.upstream@,
            body_limit_bytes: self.body_limit_bytes,
            timeouts: self.timeouts,
            egress: self.egress,
            auth: self.auth@,
        }
    }
}

/// What the proxy does about the credential of a registration. Where the value is
/// kept makes no difference to how it is sent.
pub open spec fn proxy_auth_of(a: AuthView) -> ProxyAuthView {
    match a {
        AuthView::NoAuth => ProxyAuthView::NoAuth,
        AuthView::Header { header, .. }
        | AuthView::StoredHeader { header, .. }
        | AuthView::OpHeader { header, .. } => ProxyAuthView::Header {
            header,
            audit_mode: "header"@,
        },
        AuthView::Bearer { .. }
        | AuthView::StoredBearer { .. }
        | AuthView::OpBearer { .. } => ProxyAuthView::Bearer,
        AuthView::OauthPkce { .. } => ProxyAuthView::Oauth { audit_mode: "oauth_pkce"@ },
        AuthView::OauthDeviceCode { .. } => ProxyAuthView::Oauth {
            audit_mode: "oauth_device_code"@,
        },
    }
}

/// Where a request to a registration goes.
pub open spec fn target_of_row(r: RegistrationView) -> TargetView {
    TargetView {
        name: r.name,
        upstream: r.upstream,
        body_limit_bytes: r.body_limit_bytes,
        timeouts: r.timeouts,
        egress: r.egress,
        auth: proxy_auth_of(r.auth),
    }
}

/// Where a request to a configured tool goes.
pub open spec fn target_of_tool(t: ToolConfig) -> TargetView {
    TargetView {
        name: t.name@,
        upstream: t.upstream@,
        body_limit_bytes: t.body_limit_bytes,
        timeouts: t.timeouts,
        egress: t.egress,
        auth: match t.auth {
            Some(a) => ProxyAuthView::Header { header: a.header@, audit_mode: "config"@ },
            None => ProxyAuthView::NoAuth,
        },
    }
}

impl ProxyTarget {
    /// Where a request to a registration goes.
    pub fn from_registration(r: &Registration) -> (t: ProxyTarget)
        ensures
            t@ == target_of_row(r@),
    {
        let auth = match &r.auth {
            AuthSpec::NoAuth => ProxyAuth::NoAuth,
            AuthSpec::Header { header, .. }
            | AuthSpec::StoredHeader { header, .. }
            | AuthSpec::OpHeader { header, .. } => ProxyAuth::Header {
                header: header.clone(),
                audit_mode: "header",
            },
            AuthSpec::Bearer { .. }
            | AuthSpec::StoredBearer { .. }
            | AuthSpec::OpBearer { .. } => ProxyAuth::Bearer,
            AuthSpec::OauthPkce { .. } => ProxyAuth::Oauth { audit_mode: "oauth_pkce" },
            AuthSpec::OauthDeviceCode { .. } => ProxyAuth::Oauth {
                audit_mode: "oauth_device_code",
            },
        };
        ProxyTarget {
            name: r.name.clone(),
            upstream: r.upstream.clone(),
            body_limit_bytes: r.body_limit_bytes,
            timeouts: r.timeouts,
            egress: r.egress,
            auth,
        }
    }

    /// Where a request to a configured tool goes.
    pub fn from_tool_config(tool: &ToolConfig) -> (t: ProxyTarget)
        ensures
            t@ == target_of_tool(*tool),
    {
        let auth = match &tool.auth {
            None => ProxyAuth::NoAuth,
            Some(a) => ProxyAuth::Header { header: a.header.clone(), audit_mode: "config" },
        };
        ProxyTarget {
            name: tool.name.clone(),
            upstream: tool.upstream.clone(),
            body_limit_bytes: tool.body_limit_bytes,
            timeouts: tool.timeouts,
            egress: tool.egress,
            auth,
        }
    }
}

/// The first configured tool with a name that needs no credential or has one.
pub open spec fn first_active(tools: Seq<ToolConfig>, name: Seq<char>) -> Option<ToolConfig>
    decreases tools.len(),
{
    if tools.len() == 0 {
        None
    } else if tool_active(tools[0]) && tools[0].name@ == name {
        Some(tools[0])
    } else {
        first_active(tools.skip(1), name)
    }
}

/// Where a request to a name goes: to the registration of that name unless it is
/// disabled, else to the configured tool of that name.
pub open spec fn target_named(
    catalog: Map<Seq<char>, RegistrationView>,
    tools: Seq<ToolConfig>,
    name: Seq<char>,
) -> Option<TargetView> {
    let row = row_at(catalog, name);
    if row is Some && !row->Some_0.disabled {
        Some(target_of_row(row->Some_0))
    } else {
        match first_active(tools, name) {
            Some(t) => Some(target_of_tool(t)),
            None => None,
        }
    }
}

fn find_tool(tools: &Vec<ToolConfig>, name: &str) -> (r: Option<ProxyTarget>)
    ensures
        match r {
            Some(t) => first_active(tools@, name@) is Some && t@ == target_of_tool(
                first_active(tools@, name@)->Some_0,
            ),
            None => first_active(tools@, name@) is None,
        },
{
    let mut i: usize = 0;
    assert(tools@.skip(0) =~= tools@);
    while i < tools.len()
        invariant
            i <= tools@.len(),
            first_active(tools@, name@) == first_active(tools@.skip(i as int), name@),
        decreases tools.len() - i,
    {
        assert(tools@.skip(i as int)[0] == tools@[i as int]);
        assert(tools@.skip(i as int).skip(1) =~= tools@.skip(i + 1));
        if tools[i].is_active() && same(tools[i].name.as_str(), name) {
            return Some(ProxyTarget::from_tool_config(&tools[i]));
        }
        i = i + 1;
    }
    None
}

/// The view of an optional target.
pub open spec fn opt_target(t: Option<ProxyTarget>) -> Option<TargetView> {
    match t {
        Some(x) => Some(x@),
        None => None,
    }
}

/// Where a request to a name goes.
pub fn resolve_target(catalog: &Catalog, config: &AppConfig, name: &str) -> (r: Option<
    ProxyTarget,
>)
    requires
        catalog.wf(),
    ensures
        opt_target(r) == target_named(catalog.by_name(), config.tools@, name@),
{
    match catalog.lookup_active(name) {
        Some(row) => Some(ProxyTarget::from_registration(row)),
        None => find_tool(&config.tools, name),
    }
}

/// An address without its scheme.
pub open spec fn without_scheme(url: Seq<char>) -> Seq<char> {
    if starts(url, "https://"@) {
        url.skip("https://"@.len() as int)
    } else if starts(url, "http://"@) {
        url.skip("http://"@.len() as int)
    } else {
        url
    }
}

/// How far the host reaches: up to the first slash or colon.
pub open spec fn host_end(s: Seq<char>) -> int
    decreases s.len(),
{
    if s.len() == 0 || s[0] == '/' || s[0] == ':' {
        0
    } else {
        1 + host_end(s.skip(1))
    }
}

/// The host of an address.
pub open spec fn host_of(url: Seq<char>) -> Option<Seq<char>> {
    let rest = without_scheme(url);
    if host_end(rest) == 0 {
        None
    } else {
        Some(rest.take(host_end(rest)))
    }
}

proof fn lemma_host_end(s: Seq<char>, i: int)
    requires
        0 <= i <= s.len(),
        forall|k: int| 0 <= k < i ==> s[k] != '/' && s[k] != ':',
        i == s.len() || s[i] == '/' || s[i] == ':',
    ensures
        host_end(s) == i,
    decreases i,
{
    if i > 0 {
        assert(s[0] != '/' && s[0] != ':');
        let t = s.skip(1);
        assert forall|k: int| 0 <= k < i - 1 implies t[k] != '/' && t[k] != ':' by {
            assert(t[k] == s[k + 1]);
        }
        if i < s.len() {
            assert(t[i - 1] == s[i]);
        }
        lemma_host_end(t, i - 1);
    }
}

/// The host of an address, where it has one.
pub fn url_host(url: &str) -> (r: Option<String>)
    ensures
        opt_text(r) == host_of(url@),
{
    let rest = match strip_prefix(url, "https://") {
        Some(s) => s,
        None => match strip_prefix(url, "http://") {
            Some(s) => s,
            None => url.to_string(),
        },
    };
    let cs = crate::text::chars_of(rest.as_str());
    let mut i: usize = 0;
    while i < cs.len() && cs[i] != '/' && cs[i] != ':'
        invariant
            i <= cs@.len(),
            cs@ == rest@,
            forall|k: int| 0 <= k < i ==> cs@[k] != '/' && cs@[k] != ':',
        decreases cs.len() - i,
    {
        i = i + 1;
    }
    proof {
        lemma_host_end(rest@, i as int);
    }
    if i == 0 {
        None
    } else {
        assert(rest@.subrange(0, i as int) =~= rest@.take(i as int));
        Some(crate::text::string_of(&cs, 0, i))
    }
}

/// An error that ends a request, and the row that is recorded of it.
pub struct Refusal {
    pub reply: Reply,
    pub audit: AuditEvent,
}

/// What a [`Refusal`] says.
#[verifier::ext_equal]
pub ghost struct RefusalView {
    pub reply: ReplyView,
    pub audit: AuditView,
}

impl View for Refusal {
    type V = RefusalView;

    open spec fn view(&self) -> RefusalView {
        RefusalView { reply: self.reply@, audit: self.audit@ }
    }
}

/// The end of a request to a tool that the agent may not call.
pub open spec fn authz_denied(ctx: CtxView, reason: Seq<char>, at: Moment) -> RefusalView {
    RefusalView {
        reply: reply(
            403,
            coded_error("tool access denied"@, "authz_error"@, "tool_not_allowed"@),
        ),
        audit: AuditView {
            status: Some(403),
            details: detail("reason"@, reason),
            ..ctx_event(ctx, at, EventClass::Security, "authz_denied"@, Decision::Denied)
        },
    }
}

/// The end of a request to a tool that is not there.
pub open spec fn tool_not_found(ctx: CtxView, at: Moment) -> RefusalView {
    RefusalView {
        reply: reply(
            404,
            coded_error("Unknown tool: "@ + ctx.tool_name, "not_found"@, "tool_not_found"@),
        ),
        audit: AuditView {
            status: Some(404),
            ..ctx_event(ctx, at, EventClass::Proxy, "tool_not_found"@, Decision::Denied)
        },
    }
}

/// The end of a request whose body could not be read, or is too large.
pub open spec fn body_unreadable(ctx: CtxView, host: Option<Seq<char>>, at: Moment) -> RefusalView {
    RefusalView {
        reply: reply(
            400,
            coded_error(
                "Failed to read request body"@,
                "bad_request"@,
                "request_body_read_error"@,
            ),
        ),
        audit: AuditView {
            status: Some(400),
            upstream_host: host,
            ..ctx_event(ctx, at, EventClass::Proxy, "request_body_read_error"@, Decision::Error)
        },
    }
}

/// The end of a request whose upstream replied with a content that is not
/// allowed.
pub open spec fn content_disallowed(
    ctx: CtxView,
    host: Option<Seq<char>>,
    content_type: Option<Seq<char>>,
    at: Moment,
) -> RefusalView {
    RefusalView {
        reply: reply(
            502,
            coded_error(
                "upstream content-type not allowed"@,
                "response_content_type_disallowed"@,
                "response_content_type_disallowed"@,
            ),
        ),
        audit: AuditView {
            status: Some(502),
            upstream_host: host,
            details: Some(jempty().with("observed_content_type"@, jopt_str(content_type))),
            ..ctx_event(
                ctx,
                at,
                EventClass::Proxy,
                "response_content_type_disallowed"@,
                Decision::Denied,
            )
        },
    }
}

/// The end of a request whose upstream could not be reached or took too long.
pub open spec fn upstream_failed(
    ctx: CtxView,
    auth: ProxyAuthView,
    host: Option<Seq<char>>,
    timed_out: bool,
    at: Moment,
) -> RefusalView {
    let status: u16 = if timed_out {
        504
    } else {
        502
    };
    let kind = if timed_out {
        "timeout"@
    } else {
        "upstream_error"@
    };
    let message = if timed_out {
        "Upstream timeout"@
    } else {
        "Upstream error"@
    };
    RefusalView {
        reply: reply(status, coded_error(message, kind, kind)),
        audit: AuditView {
            status: Some(status),
            upstream_host: host,
            details: detail("auth_mode"@, audit_mode_of(auth)),
            ..ctx_event(ctx, at, EventClass::Proxy, kind, Decision::Error)
        },
    }
}

/// The end of a request whose upstream broke off its reply.
pub open spec fn upstream_body_unreadable(
    ctx: CtxView,
    host: Option<Seq<char>>,
    error: Seq<char>,
    at: Moment,
) -> RefusalView {
    RefusalView {
        reply: reply(
            502,
            coded_error(
                "upstream body read failed"@,
                "upstream_error"@,
                "upstream_body_read_error"@,
            ),
        ),
        audit: AuditView {
            status: Some(502),
            upstream_host: host,
            details: detail("error"@, error),
            ..ctx_event(ctx, at, EventClass::Proxy, "upstream_body_read_error"@, Decision::Error)
        },
    }
}

/// The details of a reply that is too large.
pub open spec fn size_details(observed: nat, cap: u64, flow: Seq<char>) -> JsonView {
    jempty().with("observed_bytes"@, jnat(observed)).with("cap_bytes"@, jnat(cap as nat)).with(
        "flow"@,
        jstr(flow),
    )
}

/// The end of a request whose upstream's reply is too large.
pub open spec fn response_too_large(
    ctx: CtxView,
    host: Option<Seq<char>>,
    observed: usize,
    cap: u64,
    at: Moment,
) -> RefusalView {
    RefusalView {
        reply: reply(
            502,
            coded_error(
                "response too large"@,
                "response_size_exceeded"@,
                "response_size_exceeded"@,
            ),
        ),
        audit: AuditView {
            status: Some(502),
            upstream_host: host,
            details: Some(size_details(observed as nat, cap, "non_streaming"@)),
            ..ctx_event(ctx, at, EventClass::Proxy, "response_size_exceeded"@, Decision::Denied)
        },
    }
}

/// The row about a reply that was handed to the agent.
pub open spec fn proxied_event(
    ctx: CtxView,
    auth: ProxyAuthView,
    host: Option<Seq<char>>,
    status: u16,
    at: Moment,
) -> AuditView {
    AuditView {
        status: Some(status),
        upstream_host: host,
        details: detail("auth_mode"@, audit_mode_of(auth)),
        ..ctx_event(
            ctx,
            at,
            EventClass::Proxy,
            "proxy_request"@,
            if status >= 500 {
                Decision::Error
            } else {
                Decision::Allowed
            },
        )
    }
}

/// The end of a request to a tool that the agent may not call.
pub fn record_authz_denied(ctx: &RequestCtx, reason: &str, at: Moment) -> (r: Refusal)
    ensures
        r@ == authz_denied(ctx@, reason@, at),
{
    let mut audit = ctx.event(at, EventClass::Security, "authz_denied", Decision::Denied);
    audit.status = Some(403);
    audit.details = detail_text("reason", reason);
    Refusal {
        reply: Reply::coded(403, "tool access denied", "authz_error", "tool_not_allowed"),
        audit,
    }
}

/// The end of a request to a tool that is not there.
pub fn record_tool_not_found(ctx: &RequestCtx, at: Moment) -> (r: Refusal)
    ensures
        r@ == tool_not_found(ctx@, at),
{
    let mut audit = ctx.event(at, EventClass::Proxy, "tool_not_found", Decision::Denied);
    audit.status = Some(404);
    Refusal {
        reply: Reply::coded(
            404,
            cat("Unknown tool: ", ctx.tool_name.as_str()).as_str(),
            "not_found",
            "tool_not_found",
        ),
        audit,
    }
}

/// The end of a request whose body could not be read, or is too large.
pub fn record_body_read_error(ctx: &RequestCtx, host: Option<String>, at: Moment) -> (r: Refusal)
    ensures
        r@ == body_unreadable(ctx@, opt_text(host), at),
{
    let mut audit = ctx.event(at, EventClass::Proxy, "request_body_read_error", Decision::Error);
    audit.status = Some(400);
    audit.upstream_host = host;
    Refusal {
        reply: Reply::coded(
            400,
            "Failed to read request body",
            "bad_request",
            "request_body_read_error",
        ),
        audit,
    }
}

/// The end of a request whose upstream replied with a content that is not
/// allowed.
pub fn record_response_content_type_disallowed(
    ctx: &RequestCtx,
    host: Option<String>,
    content_type: &Option<String>,
    at: Moment,
) -> (r: Refusal)
    ensures
        r@ == content_disallowed(ctx@, opt_text(host), opt_text(*content_type), at),
{
    let mut audit = ctx.event(
        at,
        EventClass::Proxy,
        "response_content_type_disallowed",
        Decision::Denied,
    );
    audit.status = Some(502);
    audit.upstream_host = host;
    audit.details = Some(
        Json::object().with("observed_content_type", Json::opt_text(content_type)),
    );
    Refusal {
        reply: Reply::coded(
            502,
            "upstream content-type not allowed",
            "response_content_type_disallowed",
            "response_content_type_disallowed",
        ),
        audit,
    }
}

/// The row about a reply that was handed to the agent.
pub fn record_proxy_request_success(
    ctx: &RequestCtx,
    target: &ProxyTarget,
    host: Option<String>,
    status: u16,
    at: Moment,
) -> (r: AuditEvent)
    ensures
        r@ == proxied_event(ctx@, target.auth@, opt_text(host), status, at),
{
    let decision = if status >= 500 {
        Decision::Error
    } else {
        Decision::Allowed
    };
    let mut audit = ctx.event(at, EventClass::Proxy, "proxy_request", decision);
    audit.status = Some(status);
    audit.upstream_host = host;
    audit.details = detail_text("auth_mode", target.auth.audit_mode());
    audit
}

/// The end of a request whose upstream could not be reached or took too long.
pub fn record_upstream_error(
    ctx: &RequestCtx,
    target: &ProxyTarget,
    host: Option<String>,
    timed_out: bool,
    at: Moment,
) -> (r: Refusal)
    ensures
        r@ == upstream_failed(ctx@, target.auth@, opt_text(host), timed_out, at),
{
    let status: u16 = if timed_out {
        504
    } else {
        502
    };
    let kind = if timed_out {
        "timeout"
    } else {
        "upstream_error"
    };
    let message = if timed_out {
        "Upstream timeout"
    } else {
        "Upstream error"
    };
    let mut audit = ctx.event(at, EventClass::Proxy, kind, Decision::Error);
    audit.status = Some(status);
    audit.upstream_host = host;
    audit.details = detail_text("auth_mode", target.auth.audit_mode());
    Refusal { reply: Reply::coded(status, message, kind, kind), audit }
}

/// The end of a request whose upstream broke off its reply.
pub fn record_upstream_body_read_error(
    ctx: &RequestCtx,
    host: Option<String>,
    error: &str,
    at: Moment,
) -> (r: Refusal)
    ensures
        r@ == upstream_body_unreadable(ctx@, opt_text(host), error@, at),
{
    let mut audit = ctx.event(at, EventClass::Proxy, "upstream_body_read_error", Decision::Error);
    audit.status = Some(502);
    audit.upstream_host = host;
    audit.details = detail_text("error", error);
    Refusal {
        reply: Reply::coded(
            502,
            "upstream body read failed",
            "upstream_error",
            "upstream_body_read_error",
        ),
        audit,
    }
}

fn size_details_json(observed: u64, cap: u64, flow: &str) -> (r: Json)
    ensures
        r@ == size_details(observed as nat, cap, flow@),
{
    Json::object().with("observed_bytes", Json::count(observed)).with(
        "cap_bytes",
        Json::count(cap),
    ).with("flow", Json::text(flow))
}

/// The end of a request whose upstream's reply is too large.
pub fn record_response_size_exceeded_buffered(
    ctx: &RequestCtx,
    host: Option<String>,
    observed: usize,
    cap: u64,
    at: Moment,
) -> (r: Refusal)
    ensures
        r@ == response_too_large(ctx@, opt_text(host), observed, cap, at),
{
    let mut audit = ctx.event(at, EventClass::Proxy, "response_size_exceeded", Decision::Denied);
    audit.status = Some(502);
    audit.upstream_host = host;
    audit.details = Some(size_details_json(observed as u64, cap, "non_streaming"));
    Refusal {
        reply: Reply::coded(
            502,
            "response too large",
            "response_size_exceeded",
            "response_size_exceeded",
        ),
        audit,
    }
}

/// What was found in a reply and taken out of it.
pub struct RedactionRecord {
    pub pattern_id: String,
    pub matches: u64,
    pub match_hash: String,
}

/// The row about what was taken out of a reply.
pub open spec fn redaction_event(
    ctx: CtxView,
    host: Option<Seq<char>>,
    status: u16,
    rec: RedactionRecord,
    at: Moment,
) -> AuditView {
    AuditView {
        status: Some(status),
        upstream_host: host,
        details: Some(
            jempty().with("pattern_id"@, jstr(rec.pattern_id@)).with(
                "matches"@,
                jnat(rec.matches as nat),
            ).with("match_hash"@, jstr(rec.match_hash@)),
        ),
        ..ctx_event(ctx, at, EventClass::Proxy, "response_redaction"@, Decision::Allowed)
    }
}

/// The row about what was taken out of a reply.
pub fn record_response_redaction(
    ctx: &RequestCtx,
    host: Option<String>,
    status: u16,
    rec: &RedactionRecord,
    at: Moment,
) -> (r: AuditEvent)
    ensures
        r@ == redaction_event(ctx@, opt_text(host), status, *rec, at),
{
    let mut audit = ctx.event(at, EventClass::Proxy, "response_redaction", Decision::Allowed);
    audit.status = Some(status);
    audit.upstream_host = host;
    audit.details = Some(
        Json::object().with("pattern_id", Json::text(rec.pattern_id.as_str())).with(
            "matches",
            Json::count(rec.matches),
        ).with("match_hash", Json::text(rec.match_hash.as_str())),
    );
    audit
}

/// The row about a reply that was cut off on its way to the agent.
pub open spec fn truncation_event(
    ctx: CtxView,
    host: Option<Seq<char>>,
    status: u16,
    cap: u64,
    observed: u64,
    ts_ms: i64,
) -> AuditView {
    AuditView {
        tool: Some(ctx.tool_name),
        upstream_host: host,
        method: Some(ctx.method),
        path: Some(ctx.request_path),
        status: Some(status),
        auth_method: Some(ctx.auth_method),
        agent_public_id: ctx.agent_public_id,
        details: Some(size_details(observed as nat, cap, "streaming"@)),
        ..bare_event(
            ts_ms as int,
            EventClass::Proxy,
            "response_size_exceeded"@,
            Decision::Denied,
        )
    }
}

/// The row about a reply that was cut off on its way to the agent.
pub fn build_streaming_truncate_callback(
    ctx: &RequestCtx,
    host: &Option<String>,
    status: u16,
    cap: u64,
    observed: u64,
    ts_ms: i64,
) -> (r: AuditEvent)
    ensures
        r@ == truncation_event(ctx@, opt_text(*host), status, cap, observed, ts_ms),
{
    let mut audit = AuditEvent::bare(
        ts_ms,
        EventClass::Proxy,
        "response_size_exceeded",
        Decision::Denied,
    );
    audit.tool = Some(ctx.tool_name.clone());
    audit.upstream_host = copy_opt(host);
    audit.method = Some(ctx.method.clone());
    audit.path = Some(ctx.request_path.clone());
    audit.status = Some(status);
    audit.auth_method = Some(ctx.auth_method.to_string());
    audit.agent_public_id = copy_opt(&ctx.agent_public_id);
    audit.details = Some(size_details_json(observed, cap, "streaming"));
    audit
}

/// A request that goes on: where to, by what host it is recorded, and under what
/// address.
pub struct Forward {
    pub target: ProxyTarget,
    pub upstream_host: Option<String>,
    pub upstream_url: String,
}

/// What a [`Forward`] says.
#[verifier::ext_equal]
pub ghost struct ForwardView {
    pub target: TargetView,
    pub upstream_host: Option<Seq<char>>,
    pub upstream_url: Seq<char>,
}

impl View for Forward {
    type V = ForwardView;

    open spec fn view(&self) -> ForwardView {
        ForwardView {
            target: self.target@,
            upstream_host: opt_text(self.upstream_host),
            upstream_url: self.upstream_url@,
        }
    }
}

/// What is done with a request when it arrives.
pub enum ProxyStart {
    Refuse(Refusal),
    Forward(Forward),
}

/// What a [`ProxyStart`] says.
pub ghost enum StartView {
    Refuse(RefusalView),
    Forward(ForwardView),
}

impl View for ProxyStart {
    type V = StartView;

    open spec fn view(&self) -> StartView {
        match self {
            ProxyStart::Refuse(r) => StartView::Refuse(r@),
            ProxyStart::Forward(f) => StartView::Forward(f@),
        }
    }
}

/// The address of a path at an upstream.
pub open spec fn upstream_url(upstream: Seq<char>, path: Seq<char>) -> Seq<char> {
    drop_trailing(upstream, '/') + "/"@ + path
}

/// The request that goes on to a target.
pub open spec fn forward_to(target: TargetView, path: Seq<char>) -> ForwardView {
    ForwardView {
        target,
        upstream_host: host_of(target.upstream),
        upstream_url: upstream_url(target.upstream, path),
    }
}

/// What is done with a request when it arrives: an agent that is known must be
/// allowed to call the tool, and the tool must be there.
pub open spec fn started(
    ctx: CtxView,
    identity: Option<IdentityView>,
    catalog: Map<Seq<char>, RegistrationView>,
    tools: Seq<ToolConfig>,
    path: Seq<char>,
    at: Moment,
) -> StartView {
    if identity is Some && acl(identity->Some_0, ctx.tool_name) is Err {
        StartView::Refuse(authz_denied(ctx, acl(identity->Some_0, ctx.tool_name)->Err_0, at))
    } else {
        match target_named(catalog, tools, ctx.tool_name) {
            None => StartView::Refuse(tool_not_found(ctx, at)),
            Some(t) => StartView::Forward(forward_to(t, path)),
        }
    }
}

/// Decides what is done with a request when it arrives.
pub fn proxy_handler(
    ctx: &RequestCtx,
    identity: Option<&AgentIdentity>,
    catalog: &Catalog,
    config: &AppConfig,
    path: &str,
    at: Moment,
) -> (r: ProxyStart)
    requires
        catalog.wf(),
    ensures
        r@ == started(
            ctx@,
            opt_identity(identity),
            catalog.by_name(),
            config.tools@,
            path@,
            at,
        ),
{
    match identity {
        Some(id) => match id.allows_tool(ctx.tool_name.as_str()) {
            Ok(()) => {},
            Err(reason) => {
                return ProxyStart::Refuse(record_authz_denied(ctx, reason, at));
            },
        },
        None => {},
    }
    let target = match resolve_target(catalog, config, ctx.tool_name.as_str()) {
        Some(t) => t,
        None => {
            return ProxyStart::Refuse(record_tool_not_found(ctx, at));
        },
    };
    let upstream_host = url_host(target.upstream.as_str());
    let base = trim_end_char(target.upstream.as_str(), '/');
    let upstream_url = cat3(base.as_str(), "/", path);
    ProxyStart::Forward(Forward { target, upstream_host, upstream_url })
}

/// How many bytes of a request's body are read at most.
pub fn request_body_limit(body_limit: u64) -> (r: usize)
    ensures
        r == read_limit(body_limit),
{
    if body_limit <= usize::MAX as u64 {
        body_limit as usize
    } else {
        usize::MAX
    }
}

/// What is sent to an upstream.
pub struct UpstreamRequest {
    pub headers: Vec<Header>,
    pub body: Option<Vec<u8>>,
}

/// The header that a credential goes into, where there is a credential.
pub open spec fn injected(
    auth: ProxyAuthView,
    creds: Map<Seq<char>, Seq<char>>,
    name: Seq<char>,
) -> Seq<HeaderView> {
    if !creds.contains_key(name) {
        Seq::empty()
    } else {
        match auth {
            ProxyAuthView::Header { header, .. } => seq![
                HeaderView { name: header, value: vstd::utf8::encode_utf8(creds[name]) },
            ],
            ProxyAuthView::Bearer => seq![
                HeaderView {
                    name: "Authorization"@,
                    value: vstd::utf8::encode_utf8("Bearer "@ + creds[name]),
                },
            ],
            _ => Seq::empty(),
        }
    }
}

/// The headers that are sent to an upstream: what is sent on of the agent's, then
/// the credential.
pub open spec fn upstream_headers(
    target: TargetView,
    headers: Seq<HeaderView>,
    creds: Map<Seq<char>, Seq<char>>,
) -> Seq<HeaderView> {
    forwarded(headers, strip_of(target.auth)) + injected(target.auth, creds, target.name)
}

/// What is sent to an upstream. An empty body is not sent.
pub fn build_upstream_request(
    target: &ProxyTarget,
    headers: &Vec<Header>,
    creds: &ResolvedCreds,
    body: Vec<u8>,
) -> (r: UpstreamRequest)
    ensures
        header_views(r.headers@) == upstream_headers(target@, header_views(headers@), creds@),
        match r.body {
            Some(b) => b@ == body@ && body@.len() > 0,
            None => body@.len() == 0,
        },
{
    let extra = target.auth.strip_header_lower();
    let mut out = forward_request_headers(headers, &extra);
    let ghost kept = header_views(out@);
    match &target.auth {
        ProxyAuth::Header { header, .. } => match creds.get(target.name.as_str()) {
            Some(value) => {
                let h = Header {
                    name: header.clone(),
                    value: crate::mtls::copy_bytes(value.expose().as_bytes()),
                };
                let ghost hv = h@;
                out.push(h);
                assert(header_views(out@) =~= kept + seq![hv]);
            },
            None => {},
        },
        ProxyAuth::Bearer => match creds.get(target.name.as_str()) {
            Some(value) => {
                let text = cat("Bearer ", value.expose());
                let h = Header {
                    name: "Authorization".to_string(),
                    value: crate::mtls::copy_bytes(text.as_str().as_bytes()),
                };
                let ghost hv = h@;
                out.push(h);
                assert(header_views(out@) =~= kept + seq![hv]);
            },
            None => {},
        },
        _ => {},
    }
    assert(kept + Seq::<HeaderView>::empty() =~= kept);
    let body = if body.len() == 0 {
        None
    } else {
        Some(body)
    };
    UpstreamRequest { headers: out, body }
}

/// What is asked of the replies of a tool: whether the content that came is
/// allowed, whether the reply has to be searched, and how large it may be.
#[derive(Debug, Clone, Copy)]
pub struct ResponseControls {
    pub content_type_allowed: bool,
    pub redacts: bool,
    pub size_cap: Option<u64>,
}

/// Whether a reply has to be read whole before it is handed on.
pub fn rc_should_buffer(rc: &ResponseControls) -> (r: bool)
    ensures
        r == rc.redacts,
{
    rc.redacts
}

/// What is done with an upstream's reply.
pub enum ResponseStep {
    /// It is not handed on.
    Refuse(Refusal),
    /// It is to be read whole and searched.
    Buffer { headers: Vec<Header> },
    /// It is handed on as it comes, up to a size.
    Stream { status: u16, headers: Vec<Header>, size_cap: Option<u64>, audit: AuditEvent },
}

/// What a [`ResponseStep`] says. Headers are given by their names.
pub ghost enum ResponseView {
    Refuse(RefusalView),
    Buffer { headers: Map<Seq<char>, Seq<u8>> },
    Stream {
        status: u16,
        headers: Map<Seq<char>, Seq<u8>>,
        size_cap: Option<u64>,
        audit: AuditView,
    },
}

impl View for ResponseStep {
    type V = ResponseView;

    open spec fn view(&self) -> ResponseView {
        match self {
            ResponseStep::Refuse(r) => ResponseView::Refuse(r@),
            ResponseStep::Buffer { headers } => ResponseView::Buffer {
                headers: response_map(header_views(headers@)),
            },
            ResponseStep::Stream { status, headers, size_cap, audit } => ResponseView::Stream {
                status: *status,
                headers: response_map(header_views(headers@)),
                size_cap: *size_cap,
                audit: audit@,
            },
        }
    }
}

/// The status that the agent gets: the upstream's where it is one.
pub open spec fn agent_status(status: u16) -> u16 {
    if 100 <= status < 1000 {
        status
    } else {
        502
    }
}

/// The status that the agent gets.
pub fn status_for_agent(status: u16) -> (r: u16)
    ensures
        r == agent_status(status),
{
    if status >= 100 && status < 1000 {
        status
    } else {
        502
    }
}

/// What is done with an upstream's reply.
pub open spec fn responded(
    ctx: CtxView,
    auth: ProxyAuthView,
    host: Option<Seq<char>>,
    status: u16,
    content_type: Option<Seq<char>>,
    headers: Seq<HeaderView>,
    controls: Option<ResponseControls>,
    at: Moment,
) -> ResponseView {
    if controls is Some && !controls->Some_0.content_type_allowed {
        ResponseView::Refuse(content_disallowed(ctx, host, content_type, at))
    } else if controls is Some && controls->Some_0.redacts {
        ResponseView::Buffer { headers: returned(headers) }
    } else {
        ResponseView::Stream {
            status: agent_status(status),
            headers: returned(headers),
            size_cap: match controls {
                Some(c) => c.size_cap,
                None => None,
            },
            audit: proxied_event(ctx, auth, host, status, at),
        }
    }
}

/// Decides what is done with an upstream's reply.
pub fn handle_upstream_response(
    ctx: &RequestCtx,
    target: &ProxyTarget,
    host: Option<String>,
    status: u16,
    content_type: &Option<String>,
    headers: &Vec<Header>,
    controls: Option<ResponseControls>,
    at: Moment,
) -> (r: ResponseStep)
    ensures
        r@ == responded(
            ctx@,
            target.auth@,
            opt_text(host),
            status,
            opt_text(*content_type),
            header_views(headers@),
            controls,
            at,
        ),
{
    let out = forward_response_headers(headers);
    let size_cap = match controls {
        Some(rc) => {
            if !rc.content_type_allowed {
                return ResponseStep::Refuse(
                    record_response_content_type_disallowed(ctx, host, content_type, at),
                );
            }
            if rc_should_buffer(&rc) {
                return ResponseStep::Buffer { headers: out };
            }
            rc.size_cap
        },
        None => None,
    };
    let audit = record_proxy_request_success(ctx, target, host, status, at);
    ResponseStep::Stream { status: status_for_agent(status), headers: out, size_cap, audit }
}

/// What came of reading a reply whole and searching it.
pub enum ApplyOutcome {
    /// The upstream broke off.
    ReadFailed { error: String },
    /// The reply is too large.
    SizeExceeded { observed: usize, cap: u64 },
    /// The content is not allowed.
    ContentTypeDisallowed { observed_type: String },
    /// The reply may be handed on, with what was taken out of it.
    Allowed { body: Vec<u8>, redactions: Vec<RedactionRecord> },
}

/// What the agent gets of a reply that was read whole.
pub enum BufferedStep {
    Refuse(Refusal),
    Serve { status: u16, body: Vec<u8>, audits: Vec<AuditEvent> },
}

/// What a [`BufferedStep`] says.
pub ghost enum BufferedView {
    Refuse(RefusalView),
    Serve { status: u16, body: Seq<u8>, audits: Seq<AuditView> },
}

/// What rows say.
pub open spec fn event_views(v: Seq<AuditEvent>) -> Seq<AuditView> {
    Seq::new(v.len(), |i: int| v[i]@)
}

impl View for BufferedStep {
    type V = BufferedView;

    open spec fn view(&self) -> BufferedView {
        match self {
            BufferedStep::Refuse(r) => BufferedView::Refuse(r@),
            BufferedStep::Serve { status, body, audits } => BufferedView::Serve {
                status: *status,
                body: body@,
                audits: event_views(audits@),
            },
        }
    }
}

/// The rows about what was taken out of a reply, in order.
pub open spec fn redaction_events(
    ctx: CtxView,
    host: Option<Seq<char>>,
    status: u16,
    recs: Seq<RedactionRecord>,
    at: Moment,
) -> Seq<AuditView> {
    Seq::new(recs.len(), |i: int| redaction_event(ctx, host, status, recs[i], at))
}

/// What the agent gets of a reply that was read whole. Of one that is handed on,
/// a row is recorded for each thing that was taken out of it, then one for the
/// request.
pub open spec fn buffered(
    ctx: CtxView,
    auth: ProxyAuthView,
    host: Option<Seq<char>>,
    status: u16,
    outcome: ApplyOutcome,
    at: Moment,
) -> BufferedView {
    match outcome {
        ApplyOutcome::ReadFailed { error } => BufferedView::Refuse(
            upstream_body_unreadable(ctx, host, error@, at),
        ),
        ApplyOutcome::SizeExceeded { observed, cap } => BufferedView::Refuse(
            response_too_large(ctx, host, observed, cap, at),
        ),
        ApplyOutcome::ContentTypeDisallowed { observed_type } => BufferedView::Refuse(
            content_disallowed(ctx, host, Some(observed_type@), at),
        ),
        ApplyOutcome::Allowed { body, redactions } => BufferedView::Serve {
            status: agent_status(status),
            body: body@,
            audits: redaction_events(ctx, host, status, redactions@, at).push(
                proxied_event(ctx, auth, host, status, at),
            ),
        },
    }
}

/// Decides what the agent gets of a reply that was read whole.
pub fn apply_buffered_response_controls(
    ctx: &RequestCtx,
    target: &ProxyTarget,
    host: Option<String>,
    status: u16,
    outcome: ApplyOutcome,
    at: Moment,
) -> (r: BufferedStep)
    ensures
        r@ == buffered(ctx@, target.auth@, opt_text(host), status, outcome, at),
{
    match outcome {
        ApplyOutcome::ReadFailed { error } => BufferedStep::Refuse(
            record_upstream_body_read_error(ctx, host, error.as_str(), at),
        ),
        ApplyOutcome::SizeExceeded { observed, cap } => BufferedStep::Refuse(
            record_response_size_exceeded_buffered(ctx, host, observed, cap, at),
        ),
        ApplyOutcome::ContentTypeDisallowed { observed_type } => BufferedStep::Refuse(
            record_response_content_type_disallowed(ctx, host, &Some(observed_type), at),
        ),
        ApplyOutcome::Allowed { body, redactions } => {
            let ghost all = redaction_events(ctx@, opt_text(host), status, redactions@, at);
            let mut audits: Vec<AuditEvent> = Vec::new();
            let mut i: usize = 0;
            while i < redactions.len()
                invariant
                    i <= redactions@.len(),
                    all == redaction_events(ctx@, opt_text(host), status, redactions@, at),
                    event_views(audits@) =~= all.take(i as int),
                decreases redactions.len() - i,
            {
                let ghost before = audits@;
                audits.push(
                    record_response_redaction(ctx, copy_opt(&host), status, &redactions[i], at),
                );
                assert(event_views(audits@) =~= event_views(before).push(all[i as int]));
                assert(all.take(i + 1) =~= all.take(i as int).push(all[i as int]));
                i = i + 1;
            }
            assert(all.take(all.len() as int) =~= all);
            let ghost before = audits@;
            let last = record_proxy_request_success(ctx, target, host, status, at);
            let ghost lv = last@;
            audits.push(last);
            assert(event_views(audits@) =~= event_views(before).push(lv));
            BufferedStep::Serve { status: status_for_agent(status), body, audits }
        },
    }
}

/// An agent that may not call a tool is refused whatever the tool is, and before
/// anything is looked up or sent.
pub proof fn law_acl_comes_first(
    ctx: CtxView,
    identity: IdentityView,
    catalog: Map<Seq<char>, RegistrationView>,
    tools: Seq<ToolConfig>,
    path: Seq<char>,
    at: Moment,
)
    requires
        acl(identity, ctx.tool_name) is Err,
    ensures
        ({
            let s = started(ctx, Some(identity), catalog, tools, path, at);
            s is Refuse && s->Refuse_0.reply.status == 403 && s->Refuse_0.audit.decision
                == Decision::Denied
        }),
{
}

/// A disabled registration is not served, unless a configured tool has its name.
pub proof fn law_disabled_registration_is_not_served(
    ctx: CtxView,
    identity: Option<IdentityView>,
    catalog: Map<Seq<char>, RegistrationView>,
    tools: Seq<ToolConfig>,
    path: Seq<char>,
    at: Moment,
)
    requires
        catalog.contains_key(ctx.tool_name),
        catalog[ctx.tool_name].disabled,
        first_active(tools, ctx.tool_name) is None,
    ensures
        started(ctx, identity, catalog, tools, path, at) is Refuse,
{
}

/// Nothing that an agent sends in `Authorization`, in `X-Api-Key` or in the header
/// for the upstream's credential is sent to the upstream, in whatever case its
/// name is written; every header that is sent is one that the agent sent under
/// another name, or is the credential.
pub proof fn law_agents_cannot_set_credentials(
    target: TargetView,
    headers: Seq<HeaderView>,
    creds: Map<Seq<char>, Seq<char>>,
    h: HeaderView,
)
    requires
        upstream_headers(target, headers, creds).contains(h),
    ensures
        injected(target.auth, creds, target.name).contains(h) || (headers.contains(h)
            && !crate::headers::stripped(h.name, strip_of(target.auth))),
{
    let kept = forwarded(headers, strip_of(target.auth));
    let put = injected(target.auth, creds, target.name);
    let k = (kept + put).index_of(h);
    if k < kept.len() {
        assert(kept[k] == h);
        crate::headers::law_agent_credentials_are_not_forwarded(
            headers,
            strip_of(target.auth),
            h,
        );
    } else {
        assert(put[k - kept.len()] == h);
    }
}

/// Where a registration wants no credential, nothing is put into the request.
pub proof fn law_no_auth_puts_nothing_in(creds: Map<Seq<char>, Seq<char>>, name: Seq<char>)
    ensures
        injected(ProxyAuthView::NoAuth, creds, name).len() == 0,
{
}

/// A credential goes only to the upstream that it is for: what is put into a
/// request rests on the credential of the target's own name and on no other.
pub proof fn law_credentials_go_to_their_upstream(
    auth: ProxyAuthView,
    a: Map<Seq<char>, Seq<char>>,
    b: Map<Seq<char>, Seq<char>>,
    name: Seq<char>,
)
    requires
        a.contains_key(name) == b.contains_key(name),
        a.contains_key(name) ==> a[name] == b[name],
    ensures
        injected(auth, a, name) == injected(auth, b, name),
{
}

/// Of every reply that is handed on, exactly one row is recorded that says the
/// request was proxied, and it is the last.
pub proof fn law_one_row_per_request(
    ctx: CtxView,
    auth: ProxyAuthView,
    host: Option<Seq<char>>,
    status: u16,
    outcome: ApplyOutcome,
    at: Moment,
)
    requires
        outcome is Allowed,
    ensures
        ({
            let rows = buffered(ctx, auth, host, status, outcome, at)->audits;
            &&& rows.len() > 0
            &&& rows.last() == proxied_event(ctx, auth, host, status, at)
            &&& forall|i: int|
                0 <= i < rows.len() - 1 ==> (#[trigger] rows[i]).event == "response_redaction"@
        }),
{
}

/// The agent gets the upstream's own status, whether the reply is handed on as it comes
/// or was read whole; only a number that can be no status becomes 502. What is recorded
/// is the number that the upstream sent.
pub proof fn law_upstream_status_reaches_the_agent(
    ctx: CtxView,
    auth: ProxyAuthView,
    host: Option<Seq<char>>,
    status: u16,
    content_type: Option<Seq<char>>,
    headers: Seq<HeaderView>,
    controls: Option<ResponseControls>,
    outcome: ApplyOutcome,
    at: Moment,
)
    ensures
        ({
            let given: u16 = if status < 100 || status > 999 {
                502
            } else {
                status
            };
            &&& responded(ctx, auth, host, status, content_type, headers, controls, at) matches
                ResponseView::Stream { status: got, audit, .. } ==> got == given && audit.status
                == Some(status)
            &&& buffered(ctx, auth, host, status, outcome, at) matches BufferedView::Serve {
                status: got,
                audits,
                ..
            } ==> got == given && audits.last().status == Some(status)
        }),
{
}

/// A reply without controls is handed on as it comes, whatever its size. With controls
/// one of another content is refused with 502, one that is to be searched is read whole,
/// and any other is handed on up to the size that is allowed. The headers are the
/// upstream's in every case.
pub proof fn law_controls_decide_what_is_done_with_a_reply(
    ctx: CtxView,
    auth: ProxyAuthView,
    host: Option<Seq<char>>,
    status: u16,
    content_type: Option<Seq<char>>,
    headers: Seq<HeaderView>,
    rc: ResponseControls,
    at: Moment,
)
    ensures
        responded(ctx, auth, host, status, content_type, headers, None, at) matches
            ResponseView::Stream { headers: h, size_cap, .. } && size_cap is None && h == returned(
            headers,
        ),
        ({
            let r = responded(ctx, auth, host, status, content_type, headers, Some(rc), at);
            &&& !rc.content_type_allowed ==> r is Refuse && r->Refuse_0.reply.status == 502
            &&& rc.content_type_allowed && rc.redacts ==> r is Buffer && r->Buffer_headers
                == returned(headers)
            &&& rc.content_type_allowed && !rc.redacts ==> r is Stream && r->size_cap
                == rc.size_cap && r->Stream_headers == returned(headers)
        }),
{
}

/// Of a reply that was read whole, the agent gets the body that passed the search, with
/// one row for each thing that was taken out and one for the request; a reply that was
/// broken off, is too large or of another content is refused with 502.
pub proof fn law_searched_body_is_served(
    ctx: CtxView,
    auth: ProxyAuthView,
    host: Option<Seq<char>>,
    status: u16,
    outcome: ApplyOutcome,
    at: Moment,
)
    ensures
        match outcome {
            ApplyOutcome::Allowed { body, redactions } => buffered(
                ctx,
                auth,
                host,
                status,
                outcome,
                at,
            ) matches BufferedView::Serve { body: b, audits, .. } && b == body@ && audits.len()
                == redactions@.len() + 1,
            _ => buffered(ctx, auth, host, status, outcome, at) matches BufferedView::Refuse(e)
                && e.reply.status == 502,
        },
{
}

/// A request to a registration that is not disabled goes to that registration's own
/// upstream, under the path that was asked for, with its limits and its way out; the
/// configured tools do not matter.
pub proof fn law_request_goes_to_its_registration(
    ctx: CtxView,
    identity: Option<IdentityView>,
    catalog: Map<Seq<char>, RegistrationView>,
    tools: Seq<ToolConfig>,
    path: Seq<char>,
    at: Moment,
)
    requires
        catalog.contains_key(ctx.tool_name),
        !catalog[ctx.tool_name].disabled,
        identity is None || acl(identity->Some_0, ctx.tool_name) is Ok,
    ensures
        ({
            let row = catalog[ctx.tool_name];
            &&& started(ctx, identity, catalog, tools, path, at) matches StartView::Forward(f)
            &&& f.target.name == row.name
            &&& f.target.upstream == row.upstream
            &&& f.target.timeouts == row.timeouts
            &&& f.target.egress == row.egress
            &&& f.target.body_limit_bytes == row.body_limit_bytes
            &&& f.target.auth == proxy_auth_of(row.auth)
            &&& f.upstream_host == host_of(row.upstream)
            &&& row.upstream.len() == 0 || row.upstream.last() != '/' ==> f.upstream_url
                == row.upstream + "/"@ + path
        }),
{
}

/// A request to a configured tool goes to that tool's upstream, where no registration has
/// its name; of several tools with one name that have a credential or need none, the first
/// counts.
pub proof fn law_request_goes_to_its_tool(
    ctx: CtxView,
    identity: Option<IdentityView>,
    catalog: Map<Seq<char>, RegistrationView>,
    tools: Seq<ToolConfig>,
    path: Seq<char>,
    at: Moment,
    i: int,
)
    requires
        !catalog.contains_key(ctx.tool_name),
        identity is None || acl(identity->Some_0, ctx.tool_name) is Ok,
        0 <= i < tools.len(),
        tools[i].name@ == ctx.tool_name,
        tools[i].auth is None || tools[i].auth->Some_0.value@.len() > 0,
        forall|j: int|
            0 <= j < i && (#[trigger] tools[j]).name@ == ctx.tool_name ==> tools[j].auth is Some
                && tools[j].auth->Some_0.value@.len() == 0,
    ensures
        ({
            let t = tools[i];
            &&& started(ctx, identity, catalog, tools, path, at) matches StartView::Forward(f)
            &&& f.target.name == t.name@
            &&& f.target.upstream == t.upstream@
            &&& f.target.timeouts == t.timeouts
            &&& f.target.egress == t.egress
            &&& f.target.body_limit_bytes == t.body_limit_bytes
            &&& f.upstream_host == host_of(t.upstream@)
            &&& t.upstream@.len() == 0 || t.upstream@.last() != '/' ==> f.upstream_url
                == t.upstream@ + "/"@ + path
            &&& match t.auth {
                None => f.target.auth is NoAuth,
                Some(a) => f.target.auth matches ProxyAuthView::Header { header, .. } && header
                    == a.header@,
            }
        }),
{
    lemma_first_active(tools, ctx.tool_name, i);
}

proof fn lemma_first_active(tools: Seq<ToolConfig>, name: Seq<char>, i: int)
    requires
        0 <= i < tools.len(),
        tools[i].name@ == name,
        tool_active(tools[i]),
        forall|j: int|
            0 <= j < i && (#[trigger] tools[j]).name@ == name ==> !tool_active(tools[j]),
    ensures
        first_active(tools, name) == Some(tools[i]),
    decreases i,
{
    if i > 0 {
        let rest = tools.skip(1);
        assert(rest[i - 1] == tools[i]);
        assert forall|j: int| 0 <= j < i - 1 && (#[trigger] rest[j]).name@ == name implies
            !tool_active(rest[j]) by {
            assert(rest[j] == tools[j + 1]);
        }
        assert(tools[0].name@ == name ==> !tool_active(tools[0]));
        lemma_first_active(rest, name, i - 1);
    }
}

proof fn lemma_no_active(tools: Seq<ToolConfig>, name: Seq<char>)
    requires
        forall|j: int|
            0 <= j < tools.len() && (#[trigger] tools[j]).name@ == name ==> !tool_active(tools[j]),
    ensures
        first_active(tools, name) is None,
    decreases tools.len(),
{
    if tools.len() > 0 {
        let rest = tools.skip(1);
        assert forall|j: int| 0 <= j < rest.len() && (#[trigger] rest[j]).name@ == name implies
            !tool_active(rest[j]) by {
            assert(rest[j] == tools[j + 1]);
        }
        assert(tools[0].name@ == name ==> !tool_active(tools[0]));
        lemma_no_active(rest, name);
    }
}

/// A name that no registration and no configured tool has is answered with 404, and the
/// answer names it.
pub proof fn law_unknown_name_is_not_found(
    ctx: CtxView,
    identity: Option<IdentityView>,
    catalog: Map<Seq<char>, RegistrationView>,
    tools: Seq<ToolConfig>,
    path: Seq<char>,
    at: Moment,
)
    requires
        !catalog.contains_key(ctx.tool_name),
        forall|j: int| 0 <= j < tools.len() ==> (#[trigger] tools[j]).name@ != ctx.tool_name,
        identity is None || acl(identity->Some_0, ctx.tool_name) is Ok,
    ensures
        started(ctx, identity, catalog, tools, path, at) matches StartView::Refuse(e)
            && e.reply.status == 404 && e.audit.decision == Decision::Denied && e.audit.tool
            == Some(ctx.tool_name),
{
    lemma_no_active(tools, ctx.tool_name);
}

/// The slashes at the end of an upstream make no difference to the address of a request.
pub proof fn law_trailing_slash_makes_no_difference(upstream: Seq<char>, path: Seq<char>)
    ensures
        upstream_url(upstream.push('/'), path) == upstream_url(upstream, path),
        upstream.len() == 0 || upstream.last() != '/' ==> upstream_url(upstream, path) == upstream
            + "/"@ + path,
{
    assert(upstream.push('/').drop_last() =~= upstream);
}

/// The credential of a registration goes into the header that the registration names, as
/// it is, or into `Authorization` behind the word `Bearer`, wherever its value is kept;
/// it is the last header that is sent. A registration of an OAuth kind, and one without a
/// credential, gets none put in.
pub proof fn law_credential_is_put_where_it_belongs(
    row: RegistrationView,
    headers: Seq<HeaderView>,
    creds: Map<Seq<char>, Seq<char>>,
)
    ensures
        ({
            let sent = upstream_headers(target_of_row(row), headers, creds);
            let kept = forwarded(headers, strip_of(target_of_row(row).auth));
            let named: Option<Seq<char>> = match row.auth {
                AuthView::Header { header, .. } => Some(header),
                AuthView::StoredHeader { header, .. } => Some(header),
                AuthView::OpHeader { header, .. } => Some(header),
                _ => None,
            };
            let bearer = row.auth is Bearer || row.auth is StoredBearer || row.auth is OpBearer;
            &&& creds.contains_key(row.name) && named is Some ==> sent == kept.push(
                HeaderView {
                    name: named->Some_0,
                    value: vstd::utf8::encode_utf8(creds[row.name]),
                },
            )
            &&& creds.contains_key(row.name) && bearer ==> sent == kept.push(
                HeaderView {
                    name: "Authorization"@,
                    value: vstd::utf8::encode_utf8("Bearer "@ + creds[row.name]),
                },
            )
            &&& !creds.contains_key(row.name) || !(named is Some || bearer) ==> sent == kept
            &&& named is Some ==> strip_of(target_of_row(row).auth) == Some(
                lowercased(named->Some_0),
            )
        }),
{
    let sent = upstream_headers(target_of_row(row), headers, creds);
    let kept = forwarded(headers, strip_of(target_of_row(row).auth));
    let put = injected(target_of_row(row).auth, creds, row.name);
    if put.len() == 0 {
        assert(sent =~= kept);
    } else {
        assert(sent =~= kept.push(put[0]));
    }
}

/// The credential of a configured tool goes into the header that the tool names.
pub proof fn law_tool_credential_is_put_where_it_belongs(
    t: ToolConfig,
    headers: Seq<HeaderView>,
    creds: Map<Seq<char>, Seq<char>>,
)
    ensures
        ({
            let sent = upstream_headers(target_of_tool(t), headers, creds);
            match t.auth {
                Some(a) => if creds.contains_key(t.name@) {
                    sent == forwarded(headers, Some(lowercased(a.header@))).push(
                        HeaderView {
                            name: a.header@,
                            value: vstd::utf8::encode_utf8(creds[t.name@]),
                        },
                    )
                } else {
                    sent == forwarded(headers, Some(lowercased(a.header@)))
                },
                None => sent == forwarded(headers, None),
            }
        }),
{
    let sent = upstream_headers(target_of_tool(t), headers, creds);
    let kept = forwarded(headers, strip_of(target_of_tool(t).auth));
    let put = injected(target_of_tool(t).auth, creds, t.name@);
    if put.len() == 0 {
        assert(sent =~= kept);
    } else {
        assert(sent =~= kept.push(put[0]));
    }
}

/// The host of an address is what stands between its scheme and the first slash or colon
/// behind it; a scheme makes no difference, and an address without a host has none.
pub proof fn law_host_is_read_from_the_address(host: Seq<char>, rest: Seq<char>)
    requires
        !host.contains('/'),
        !host.contains(':'),
        rest.len() == 0 || rest[0] == '/' || rest[0] == ':',
    ensures
        ({
            let want: Option<Seq<char>> = if host.len() == 0 {
                None
            } else {
                Some(host)
            };
            &&& host_of("https://"@ + host + rest) == want
            &&& host_of("http://"@ + host + rest) == want
        }),
{
    reveal_strlit("https://");
    reveal_strlit("http://");
    let body = host + rest;
    assert forall|k: int| 0 <= k < host.len() implies body[k] != '/' && body[k] != ':' by {
        assert(host.contains(host[k]));
    }
    lemma_host_end(body, host.len() as int);
    assert(body.take(host.len() as int) =~= host);
    let a = "https://"@ + host + rest;
    assert(a.take(8) =~= "https://"@);
    assert(a.skip(8) =~= body);
    let b = "http://"@ + host + rest;
    assert(b.take(7) =~= "http://"@);
    assert(b[4] == ':');
    assert("https://"@[4] == 's');
    assert(!starts(b, "https://"@)) by {
        if starts(b, "https://"@) {
            assert(b.take(8)[4] == b[4]);
        }
    }
    assert(b.skip(7) =~= body);
}

/// Whatever ends a request is recorded as it was answered: the row has the status of the
/// answer, and says of the request which tool, which method, which path, which agent it
/// was, and by what it was let in.
pub proof fn law_refusals_are_recorded_as_answered(
    ctx: CtxView,
    auth: ProxyAuthView,
    host: Option<Seq<char>>,
    text: Seq<char>,
    observed: usize,
    cap: u64,
    timed_out: bool,
    at: Moment,
)
    ensures
        tells_of(ctx, at, authz_denied(ctx, text, at), 403, Decision::Denied),
        tells_of(ctx, at, tool_not_found(ctx, at), 404, Decision::Denied),
        tells_of(ctx, at, body_unreadable(ctx, host, at), 400, Decision::Error),
        tells_of(ctx, at, content_disallowed(ctx, host, Some(text), at), 502, Decision::Denied),
        tells_of(ctx, at, upstream_failed(ctx, auth, host, true, at), 504, Decision::Error),
        tells_of(ctx, at, upstream_failed(ctx, auth, host, false, at), 502, Decision::Error),
        tells_of(ctx, at, upstream_body_unreadable(ctx, host, text, at), 502, Decision::Error),
        tells_of(ctx, at, response_too_large(ctx, host, observed, cap, at), 502, Decision::Denied),
        body_unreadable(ctx, host, at).audit.upstream_host == host,
        content_disallowed(ctx, host, Some(text), at).audit.upstream_host == host,
        upstream_failed(ctx, auth, host, timed_out, at).audit.upstream_host == host,
        upstream_body_unreadable(ctx, host, text, at).audit.upstream_host == host,
        response_too_large(ctx, host, observed, cap, at).audit.upstream_host == host,
{
}

/// Whether a refusal was answered with a status and recorded with it, with what is known
/// of the request.
pub open spec fn tells_of(
    ctx: CtxView,
    at: Moment,
    r: RefusalView,
    status: u16,
    decision: Decision,
) -> bool {
    &&& r.reply.status == status
    &&& r.audit.status == Some(status)
    &&& r.audit.decision == decision
    &&& r.audit.tool == Some(ctx.tool_name)
    &&& r.audit.method == Some(ctx.method)
    &&& r.audit.path == Some(ctx.request_path)
    &&& r.audit.auth_method == Some(ctx.auth_method)
    &&& r.audit.agent_public_id == ctx.agent_public_id
    &&& r.audit.latency_ms == Some(at.latency_ms)
    &&& r.audit.ts_ms == at.ts_ms
}

/// A request that went through is recorded as a row about a proxied request: with the
/// tool, the agent, the upstream and its status, as allowed unless the upstream failed.
pub proof fn law_proxied_requests_are_recorded(
    ctx: CtxView,
    auth: ProxyAuthView,
    host: Option<Seq<char>>,
    status: u16,
    at: Moment,
)
    ensures
        ({
            let row = proxied_event(ctx, auth, host, status, at);
            &&& row.event_class == EventClass::Proxy
            &&& row.event == "proxy_request"@
            &&& row.tool == Some(ctx.tool_name)
            &&& row.method == Some(ctx.method)
            &&& row.path == Some(ctx.request_path)
            &&& row.agent_public_id == ctx.agent_public_id
            &&& row.auth_method == Some(ctx.auth_method)
            &&& row.upstream_host == host
            &&& row.status == Some(status)
            &&& row.latency_ms == Some(at.latency_ms)
            &&& row.ts_ms == at.ts_ms
            &&& (row.decision == Decision::Allowed <==> status < 500)
            &&& (row.decision == Decision::Error <==> status >= 500)
        }),
{
}

/// For each thing that was taken out of a reply there is a row of its own, in order, which
/// says which pattern it was, how often it was found and by what hash it is known, with what
/// is known of the request.
#[verifier::rlimit(40)]
pub proof fn law_what_is_taken_out_is_recorded(
    ctx: CtxView,
    auth: ProxyAuthView,
    host: Option<Seq<char>>,
    status: u16,
    body: Vec<u8>,
    redactions: Vec<RedactionRecord>,
    at: Moment,
    i: int,
)
    requires
        0 <= i < redactions@.len(),
    ensures
        ({
            let outcome = ApplyOutcome::Allowed { body, redactions };
            let row = buffered(ctx, auth, host, status, outcome, at)->audits[i];
            let rec = redactions@[i];
            &&& row.event == "response_redaction"@
            &&& row.event_class == EventClass::Proxy
            &&& row.decision == Decision::Allowed
            &&& row.status == Some(status)
            &&& row.upstream_host == host
            &&& row.tool == Some(ctx.tool_name)
            &&& row.method == Some(ctx.method)
            &&& row.path == Some(ctx.request_path)
            &&& row.agent_public_id == ctx.agent_public_id
            &&& row.auth_method == Some(ctx.auth_method)
            &&& row.ts_ms == at.ts_ms
            &&& row.latency_ms == Some(at.latency_ms)
            &&& row.details matches Some(j)
            &&& holds(j, "pattern_id"@, JsonView::Str(rec.pattern_id@))
            &&& holds(j, "matches"@, jnat(rec.matches as nat))
            &&& holds(j, "match_hash"@, JsonView::Str(rec.match_hash@))
            &&& j->Object_0.len() == 3
        }),
{
    broadcast use lemma_with_holds;

}

/// A reply that is too large is recorded with its size and the size that is allowed, whether
/// it was read whole or cut off on its way; the row about one that was cut off says of the
/// request what every row says, and what status the upstream gave.
pub proof fn law_sizes_are_recorded(
    ctx: CtxView,
    host: Option<Seq<char>>,
    status: u16,
    observed: usize,
    seen: u64,
    cap: u64,
    at: Moment,
    ts_ms: i64,
)
    ensures
        ({
            let whole = response_too_large(ctx, host, observed, cap, at).audit.details->Some_0;
            let cut = truncation_event(ctx, host, status, cap, seen, ts_ms);
            &&& holds(whole, "observed_bytes"@, jnat(observed as nat))
            &&& holds(whole, "cap_bytes"@, jnat(cap as nat))
            &&& holds(whole, "flow"@, JsonView::Str("non_streaming"@))
            &&& response_too_large(ctx, host, observed, cap, at).audit.event
                == "response_size_exceeded"@
            &&& cut.event == "response_size_exceeded"@
            &&& cut.event_class == EventClass::Proxy
            &&& cut.decision == Decision::Denied
            &&& cut.tool == Some(ctx.tool_name)
            &&& cut.method == Some(ctx.method)
            &&& cut.path == Some(ctx.request_path)
            &&& cut.agent_public_id == ctx.agent_public_id
            &&& cut.auth_method == Some(ctx.auth_method)
            &&& cut.upstream_host == host
            &&& cut.status == Some(status)
            &&& cut.ts_ms == ts_ms
            &&& cut.latency_ms is None
            &&& cut.details matches Some(j)
            &&& holds(j, "observed_bytes"@, jnat(seen as nat))
            &&& holds(j, "cap_bytes"@, jnat(cap as nat))
            &&& holds(j, "flow"@, JsonView::Str("streaming"@))
        }),
{
    broadcast use lemma_with_holds;

}

/// What is recorded besides of the end of a request: why an agent was refused, what content
/// came, what the upstream's connection said, and by what credential the upstream was asked.
#[verifier::rlimit(40)]
pub proof fn law_causes_are_recorded(
    ctx: CtxView,
    auth: ProxyAuthView,
    host: Option<Seq<char>>,
    text: Seq<char>,
    timed_out: bool,
    status: u16,
    at: Moment,
)
    ensures
        ({
            let denied = authz_denied(ctx, text, at).audit;
            let content = content_disallowed(ctx, host, Some(text), at).audit;
            let unsaid = content_disallowed(ctx, host, None, at).audit;
            let broken = upstream_body_unreadable(ctx, host, text, at).audit;
            let failed = upstream_failed(ctx, auth, host, timed_out, at).audit;
            let done = proxied_event(ctx, auth, host, status, at);
            &&& holds(denied.details->Some_0, "reason"@, JsonView::Str(text))
            &&& denied.event_class == EventClass::Security
            &&& holds(content.details->Some_0, "observed_content_type"@, JsonView::Str(text))
            &&& holds(unsaid.details->Some_0, "observed_content_type"@, JsonView::Null)
            &&& holds(broken.details->Some_0, "error"@, JsonView::Str(text))
            &&& holds(failed.details->Some_0, "auth_mode"@, JsonView::Str(audit_mode_of(auth)))
            &&& failed.event == if timed_out {
                "timeout"@
            } else {
                "upstream_error"@
            }
            &&& holds(done.details->Some_0, "auth_mode"@, JsonView::Str(audit_mode_of(auth)))
            &&& denied.event == "authz_denied"@
            &&& tool_not_found(ctx, at).audit.event == "tool_not_found"@
            &&& body_unreadable(ctx, host, at).audit.event == "request_body_read_error"@
            &&& broken.event == "upstream_body_read_error"@
            &&& content.event == "response_content_type_disallowed"@
        }),
{
    broadcast use lemma_with_holds;

}

/// The answer that an agent gets at the end of a request that did not go through says what it
/// was, with a code that is also that of the row.
pub proof fn law_refusals_are_answered_with_their_code(
    ctx: CtxView,
    auth: ProxyAuthView,
    host: Option<Seq<char>>,
    text: Seq<char>,
    timed_out: bool,
    observed: usize,
    cap: u64,
    at: Moment,
)
    ensures
        authz_denied(ctx, text, at).reply.body == Some(
            coded_error("tool access denied"@, "authz_error"@, "tool_not_allowed"@),
        ),
        tool_not_found(ctx, at).reply.body == Some(
            coded_error(
                "Unknown tool: "@ + ctx.tool_name,
                "not_found"@,
                tool_not_found(ctx, at).audit.event,
            ),
        ),
        body_unreadable(ctx, host, at).reply.body == Some(
            coded_error(
                "Failed to read request body"@,
                "bad_request"@,
                body_unreadable(ctx, host, at).audit.event,
            ),
        ),
        upstream_failed(ctx, auth, host, timed_out, at).reply.body == Some(
            coded_error(
                if timed_out {
                    "Upstream timeout"@
                } else {
                    "Upstream error"@
                },
                upstream_failed(ctx, auth, host, timed_out, at).audit.event,
                upstream_failed(ctx, auth, host, timed_out, at).audit.event,
            ),
        ),
        upstream_body_unreadable(ctx, host, text, at).reply.body == Some(
            coded_error(
                "upstream body read failed"@,
                "upstream_error"@,
                upstream_body_unreadable(ctx, host, text, at).audit.event,
            ),
        ),
        response_too_large(ctx, host, observed, cap, at).reply.body == Some(
            coded_error(
                "response too large"@,
                "response_size_exceeded"@,
                response_too_large(ctx, host, observed, cap, at).audit.event,
            ),
        ),
{
}

/// The credential of an upstream is recorded as none, as a bearer token, or by the word of
/// its header or session; the header that it goes into is kept back from the agent.
pub proof fn law_ways_of_credentials_are_recorded(header: Seq<char>, mode: Seq<char>)
    ensures
        audit_mode_of(ProxyAuthView::NoAuth) == "none"@,
        audit_mode_of(ProxyAuthView::Bearer) == "bearer"@,
        audit_mode_of(ProxyAuthView::Header { header, audit_mode: mode }) == mode,
        audit_mode_of(ProxyAuthView::Oauth { audit_mode: mode }) == mode,
        strip_of(ProxyAuthView::Header { header, audit_mode: mode }) == Some(lowercased(header)),
        strip_of(ProxyAuthView::Bearer) is None,
        strip_of(ProxyAuthView::NoAuth) is None,
{
}

/// What is known of a request when it comes in.
pub open spec fn ctx_of(
    tool_name: Seq<char>,
    request_path: Seq<char>,
    method: Seq<char>,
    by: Option<AuthenticatedAs>,
    identity: Option<IdentityView>,
) -> CtxView {
    CtxView {
        tool_name,
        request_path,
        method,
        auth_method: if by == Some(AuthenticatedAs::Mtls) {
            "mtls"@
        } else {
            "bearer"@
        },
        agent_public_id: match identity {
            Some(i) => Some(i.public_id),
            None => None,
        },
    }
}

/// What is recorded of a request is what came in: its tool, path and method, the agent by its
/// public id, and whether it was let in by its certificate.
pub proof fn law_requests_are_known_by_what_came_in(
    tool_name: Seq<char>,
    request_path: Seq<char>,
    method: Seq<char>,
    by: Option<AuthenticatedAs>,
    identity: Option<IdentityView>,
    at: Moment,
)
    ensures
        ({
            let row = tool_not_found(
                ctx_of(tool_name, request_path, method, by, identity),
                at,
            ).audit;
            &&& row.tool == Some(tool_name)
            &&& row.path == Some(request_path)
            &&& row.method == Some(method)
            &&& row.auth_method == Some("mtls"@) <==> by == Some(AuthenticatedAs::Mtls)
            &&& row.auth_method == Some("bearer"@) <==> by != Some(AuthenticatedAs::Mtls)
            &&& identity is Some ==> row.agent_public_id == Some(identity->Some_0.public_id)
            &&& identity is None ==> row.agent_public_id is None
        }),
{
    reveal_strlit("mtls");
    reveal_strlit("bearer");
    assert("mtls"@.len() != "bearer"@.len());
}

/// How many bytes of a request's body are read at most.
pub open spec fn read_limit(body_limit: u64) -> int {
    if body_limit <= usize::MAX {
        body_limit as int
    } else {
        usize::MAX as int
    }
}

/// As many bytes of a body are read as the limit says, if so many can be counted.
pub proof fn law_bodies_are_read_up_to_the_limit(a: u64, b: u64)
    ensures
        read_limit(a) <= a,
        a <= usize::MAX ==> read_limit(a) == a,
        a > usize::MAX ==> read_limit(a) == usize::MAX,
        a <= b ==> read_limit(a) <= read_limit(b),
{
}

/// The credential of a configured tool goes into the header that the configuration names, and
/// is recorded as one of the configuration.
pub proof fn law_configured_credentials_are_recorded_as_such(t: ToolConfig)
    ensures
        t.auth matches Some(a) ==> target_of_tool(t).auth == (ProxyAuthView::Header {
            header: a.header@,
            audit_mode: "config"@,
        }),
        t.auth is None ==> target_of_tool(t).auth is NoAuth,
        t.auth is Some ==> audit_mode_of(target_of_tool(t).auth) == "config"@,
{
}

/// What may be absent is there exactly if it is, and is then what it says.
pub proof fn law_absent_is_absent(i: &AgentIdentity, t: ProxyTarget)
    ensures
        opt_identity(Some(i)) == Some(i@),
        opt_identity(None) is None,
        opt_target(Some(t)) == Some(t@),
        opt_target(None) is None,
{
}

} // verus!
