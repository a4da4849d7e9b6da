//! Audit rows: what is recorded of a request, and how rows are asked for.
use vstd::prelude::*;

use crate::json::{
    holds, jempty, jint, jnat, jopt_str, jstr, lemma_with_holds, opt_json, Json, JsonView,
};
use crate::text::opt_text;

verus! {

/// What an audit row is about.
#[derive(Clone, Copy, Debug, PartialEq, Eq, Structural)]
pub enum EventClass {
    Proxy,
    Operator,
    Security,
}

/// How a request ended.
#[derive(Clone, Copy, Debug, PartialEq, Eq, Structural)]
pub enum Decision {
    Allowed,
    Denied,
    Error,
}

/// The name of an event class.
pub open spec fn class_name(c: EventClass) -> Seq<char> {
    match c {
        EventClass::Proxy => "proxy"@,
        EventClass::Operator => "operator"@,
        EventClass::Security => "security"@,
    }
}

/// The name of a decision.
pub open spec fn decision_name(d: Decision) -> Seq<char> {
    match d {
        Decision::Allowed => "allowed"@,
        Decision::Denied => "denied"@,
        Decision::Error => "error"@,
    }
}

impl EventClass {
    /// The name used on the wire and in the store.
    pub fn as_str(&self) -> (r: &'static str)
        ensures
            r@ == class_name(*self),
    {
        match self {
            EventClass::Proxy => "proxy",
            EventClass::Operator => "operator",
            EventClass::Security => "security",
        }
    }
}

impl Decision {
    /// The name used on the wire and in the store.
    pub fn as_str(&self) -> (r: &'static str)
        ensures
            r@ == decision_name(*self),
    {
        match self {
            Decision::Allowed => "allowed",
            Decision::Denied => "denied",
            Decision::Error => "error",
        }
    }
}

/// One audit row.
#[derive(Debug)]
pub struct AuditEvent {
    pub ts_ms: i64,
    pub event_class: EventClass,
    pub event: String,
    pub agent_public_id: Option<String>,
    pub agent_name: Option<String>,
    pub operator_name: Option<String>,
    pub tool: Option<String>,
    pub upstream_host: Option<String>,
    pub method: Option<String>,
    pub path: Option<String>,
    pub status: Option<u16>,
    pub latency_ms: Option<u64>,
    pub decision: Decision,
    pub auth_method: Option<String>,
    pub origin_ip: Option<String>,
    pub details: Option<Json>,
}

/// What an audit row says.
pub ghost struct AuditView {
    pub ts_ms: int,
    pub event_class: EventClass,
    pub event: Seq<char>,
    pub agent_public_id: Option<Seq<char>>,
    pub agent_name: Option<Seq<char>>,
    pub operator_name: Option<Seq<char>>,
    pub tool: Option<Seq<char>>,
    pub upstream_host: Option<Seq<char>>,
    pub method: Option<Seq<char>>,
    pub path: Option<Seq<char>>,
    pub status: Option<u16>,
    pub latency_ms: Option<u64>,
    pub decision: Decision,
    pub auth_method: Option<Seq<char>>,
    pub origin_ip: Option<Seq<char>>,
    pub details: Option<JsonView>,
}

impl View for AuditEvent {
    type V = AuditView;

    open spec fn view(&self) -> AuditView {
        AuditView {
            ts_ms: self.ts_ms as int,
            event_class: self.event_class,
            event: self.event@,
            agent_public_id: opt_text(self.agent_public_id),
            agent_name: opt_text(self.agent_name),
            operator_name: opt_text(self.operator_name),
            tool: opt_text(self.tool),
            upstream_host: opt_text(self.upstream_host),
            method: opt_text(self.method),
            path: opt_text(self.path),
            status: self.status,
            latency_ms: self.latency_ms,
            decision: self.decision,
            auth_method: opt_text(self.auth_method),
            origin_ip: opt_text(self.origin_ip),
            details: opt_json(self.details),
        }
    }
}

/// A row that says no more than what happened, when, and how it ended.
pub open spec fn bare_event(
    ts_ms: int,
    event_class: EventClass,
    event: Seq<char>,
    decision: Decision,
) -> AuditView {
    AuditView {
        ts_ms,
        event_class,
        event,
        agent_public_id: None,
        agent_name: None,
        operator_name: None,
        tool: None,
        upstream_host: None,
        method: None,
        path: None,
        status: None,
        latency_ms: None,
        decision,
        auth_method: None,
        origin_ip: None,
        details: None,
    }
}

impl AuditEvent {
    /// A row that says no more than what happened, when, and how it ended.
    pub fn bare(ts_ms: i64, event_class: EventClass, event: &str, decision: Decision) -> (r:
        AuditEvent)
        ensures
            r@ == bare_event(ts_ms as int, event_class, event@, decision),
    {
        AuditEvent {
            ts_ms,
            event_class,
            event: event.to_owned(),
            agent_public_id: None,
            agent_name: None,
            operator_name: None,
            tool: None,
            upstream_host: None,
            method: None,
            path: None,
            status: None,
            latency_ms: None,
            decision,
            auth_method: None,
            origin_ip: None,
            details: None,
        }
    }
}

/// A one-member object: the usual details of a row.
pub open spec fn detail(key: Seq<char>, value: Seq<char>) -> Option<JsonView> {
    Some(jempty().with(key, jstr(value)))
}

/// The details with one string member.
pub fn detail_text(key: &str, value: &str) -> (r: Option<Json>)
    ensures
        opt_json(r) == detail(key@, value@),
{
    Some(Json::object().with(key, Json::text(value)))
}

/// A number of at most 16 bits, or null.
pub open spec fn jopt_status(s: Option<u16>) -> JsonView {
    match s {
        Some(n) => jnat(n as nat),
        None => JsonView::Null,
    }
}

/// A natural number, or null.
pub open spec fn jopt_nat(s: Option<u64>) -> JsonView {
    match s {
        Some(n) => jnat(n as nat),
        None => JsonView::Null,
    }
}

/// The details, or null.
pub open spec fn jopt(j: Option<JsonView>) -> JsonView {
    match j {
        Some(v) => v,
        None => JsonView::Null,
    }
}

fn opt_status(s: Option<u16>) -> (r: Json)
    ensures
        r@ == jopt_status(s),
{
    match s {
        Some(n) => Json::count(n as u64),
        None => Json::Null,
    }
}

fn opt_count(s: Option<u64>) -> (r: Json)
    ensures
        r@ == jopt_nat(s),
{
    match s {
        Some(n) => Json::count(n),
        None => Json::Null,
    }
}

fn opt_value(j: &Option<Json>) -> (r: Json)
    ensures
        r@ == jopt(opt_json(*j)),
{
    match j {
        Some(v) => v.copy(),
        None => Json::Null,
    }
}

/// A row as an operator sees it.
pub open spec fn event_json(e: AuditView) -> JsonView {
    jempty().with("ts_ms"@, jint(e.ts_ms)).with("event_class"@, jstr(class_name(e.event_class))).with("event"@, jstr(e.event)).with("agent_public_id"@, jopt_str(e.agent_public_id)).with("agent_name"@, jopt_str(e.agent_name)).with("operator_name"@, jopt_str(e.operator_name)).with("tool"@, jopt_str(e.tool)).with("upstream_host"@, jopt_str(e.upstream_host)).with("method"@, jopt_str(e.method)).with("path"@, jopt_str(e.path)).with("status"@, jopt_status(e.status)).with("latency_ms"@, jopt_nat(e.latency_ms)).with("decision"@, jstr(decision_name(e.decision))).with("auth_method"@, jopt_str(e.auth_method)).with("origin_ip"@, jopt_str(e.origin_ip)).with("details"@, jopt(e.details))
}

/// A row as an operator sees it.
pub fn audit_event_json(e: &AuditEvent) -> (r: Json)
    ensures
        r@ == event_json(e@),
{
    let head = Json::object().with("ts_ms", Json::integer(e.ts_ms)).with(
        "event_class",
        Json::text(e.event_class.as_str()),
    ).with("event", Json::text(e.event.as_str())).with(
        "agent_public_id",
        Json::opt_text(&e.agent_public_id),
    ).with("agent_name", Json::opt_text(&e.agent_name)).with(
        "operator_name",
        Json::opt_text(&e.operator_name),
    );
    head.with("tool", Json::opt_text(&e.tool)).with(
        "upstream_host",
        Json::opt_text(&e.upstream_host),
    ).with("method", Json::opt_text(&e.method)).with("path", Json::opt_text(&e.path)).with(
        "status",
        opt_status(e.status),
    ).with("latency_ms", opt_count(e.latency_ms)).with(
        "decision",
        Json::text(e.decision.as_str()),
    ).with("auth_method", Json::opt_text(&e.auth_method)).with(
        "origin_ip",
        Json::opt_text(&e.origin_ip),
    ).with("details", opt_value(&e.details))
}

/// A row as the mirror file keeps it: as an operator sees it, without the
/// agent's name.
pub open spec fn mirror_json(e: AuditView) -> JsonView {
    jempty().with("ts_ms"@, jint(e.ts_ms)).with("event_class"@, jstr(class_name(e.event_class))).with("event"@, jstr(e.event)).with("agent_public_id"@, jopt_str(e.agent_public_id)).with("operator_name"@, jopt_str(e.operator_name)).with("tool"@, jopt_str(e.tool)).with("upstream_host"@, jopt_str(e.upstream_host)).with("method"@, jopt_str(e.method)).with("path"@, jopt_str(e.path)).with("status"@, jopt_status(e.status)).with("latency_ms"@, jopt_nat(e.latency_ms)).with("decision"@, jstr(decision_name(e.decision))).with("auth_method"@, jopt_str(e.auth_method)).with("origin_ip"@, jopt_str(e.origin_ip)).with("details"@, jopt(e.details))
}

/// A row as the mirror file keeps it.
pub fn mirror_event_json(e: &AuditEvent) -> (r: Json)
    ensures
        r@ == mirror_json(e@),
{
    let head = Json::object().with("ts_ms", Json::integer(e.ts_ms)).with(
        "event_class",
        Json::text(e.event_class.as_str()),
    ).with("event", Json::text(e.event.as_str())).with(
        "agent_public_id",
        Json::opt_text(&e.agent_public_id),
    ).with("operator_name", Json::opt_text(&e.operator_name));
    head.with("tool", Json::opt_text(&e.tool)).with(
        "upstream_host",
        Json::opt_text(&e.upstream_host),
    ).with("method", Json::opt_text(&e.method)).with("path", Json::opt_text(&e.path)).with(
        "status",
        opt_status(e.status),
    ).with("latency_ms", opt_count(e.latency_ms)).with(
        "decision",
        Json::text(e.decision.as_str()),
    ).with("auth_method", Json::opt_text(&e.auth_method)).with(
        "origin_ip",
        Json::opt_text(&e.origin_ip),
    ).with("details", opt_value(&e.details))
}

/// A row is shown to an operator with every field under its own name, and none is left out.
pub proof fn law_rows_are_shown_field_by_field(e: AuditEvent)
    ensures
        ({
            let j = event_json(e@);
            &&& holds(j, "ts_ms"@, jint(e.ts_ms as int))
            &&& holds(j, "event_class"@, JsonView::Str(class_name(e.event_class)))
            &&& holds(j, "event"@, JsonView::Str(e.event@))
            &&& holds(j, "agent_public_id"@, jopt_str(opt_text(e.agent_public_id)))
            &&& holds(j, "agent_name"@, jopt_str(opt_text(e.agent_name)))
            &&& holds(j, "operator_name"@, jopt_str(opt_text(e.operator_name)))
            &&& holds(j, "tool"@, jopt_str(opt_text(e.tool)))
            &&& holds(j, "upstream_host"@, jopt_str(opt_text(e.upstream_host)))
            &&& holds(j, "method"@, jopt_str(opt_text(e.method)))
            &&& holds(j, "path"@, jopt_str(opt_text(e.path)))
            &&& holds(j, "status"@, match e.status {
                Some(n) => jnat(n as nat),
                None => JsonView::Null,
            })
            &&& holds(j, "latency_ms"@, match e.latency_ms {
                Some(n) => jnat(n as nat),
                None => JsonView::Null,
            })
            &&& holds(j, "decision"@, JsonView::Str(decision_name(e.decision)))
            &&& holds(j, "auth_method"@, jopt_str(opt_text(e.auth_method)))
            &&& holds(j, "origin_ip"@, jopt_str(opt_text(e.origin_ip)))
            &&& holds(j, "details"@, match e.details {
                Some(d) => d@,
                None => JsonView::Null,
            })
            &&& j->Object_0.len() == 16
        }),
{
    broadcast use lemma_with_holds;

}

/// The mirror file keeps of a row what an operator sees of it, but for the agent's name.
pub proof fn law_mirror_keeps_what_is_shown(e: AuditView)
    ensures
        holds(mirror_json(e), "ts_ms"@, jint(e.ts_ms)),
        holds(mirror_json(e), "event_class"@, JsonView::Str(class_name(e.event_class))),
        holds(mirror_json(e), "event"@, JsonView::Str(e.event)),
        holds(mirror_json(e), "agent_public_id"@, jopt_str(e.agent_public_id)),
        holds(mirror_json(e), "operator_name"@, jopt_str(e.operator_name)),
        holds(mirror_json(e), "tool"@, jopt_str(e.tool)),
        holds(mirror_json(e), "upstream_host"@, jopt_str(e.upstream_host)),
        holds(mirror_json(e), "method"@, jopt_str(e.method)),
        holds(mirror_json(e), "path"@, jopt_str(e.path)),
        holds(mirror_json(e), "status"@, jopt_status(e.status)),
        holds(mirror_json(e), "latency_ms"@, jopt_nat(e.latency_ms)),
        holds(mirror_json(e), "decision"@, JsonView::Str(decision_name(e.decision))),
        holds(mirror_json(e), "auth_method"@, jopt_str(e.auth_method)),
        holds(mirror_json(e), "origin_ip"@, jopt_str(e.origin_ip)),
        holds(mirror_json(e), "details"@, jopt(e.details)),
        mirror_json(e)->Object_0.len() == 15,
{
    broadcast use lemma_with_holds;

}

/// Classes and decisions are written under the words that the log is asked with, each under
/// its own.
pub proof fn law_names_of_rows()
    ensures
        class_name(EventClass::Proxy) == "proxy"@,
        class_name(EventClass::Operator) == "operator"@,
        class_name(EventClass::Security) == "security"@,
        decision_name(Decision::Allowed) == "allowed"@,
        decision_name(Decision::Denied) == "denied"@,
        decision_name(Decision::Error) == "error"@,
{
}

/// A bare row says when, what and how it was decided, and nothing else.
pub proof fn law_bare_rows(ts: int, c: EventClass, event: Seq<char>, d: Decision)
    ensures
        ({
            let e = bare_event(ts, c, event, d);
            &&& e.ts_ms == ts && e.event_class == c && e.event == event && e.decision == d
            &&& e.agent_public_id is None && e.agent_name is None && e.operator_name is None
            &&& e.tool is None && e.upstream_host is None && e.method is None && e.path is None
            &&& e.status is None && e.latency_ms is None && e.auth_method is None
            &&& e.origin_ip is None && e.details is None
        }),
{
}

} // verus!
