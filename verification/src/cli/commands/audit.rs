//! `audit`: the audit log.
use vstd::prelude::*;

use crate::cli::client::{op_call, Answer, AnswerView, Call, CallView, CliClient, CliError, CliFault};
use crate::cli::commands::registration::planned;
use crate::text::{cat, decimal, decimal_int, join, joined, opt_text, show_i64, show_u64, texts};

verus! {

/// The commands on the audit log.
pub enum AuditCmd {
    /// Shows events.
    Query {
        agent: Option<String>,
        tool: Option<String>,
        event_class: Option<String>,
        decision: Option<String>,
        since_ms: Option<i64>,
        until_ms: Option<i64>,
        limit: Option<u32>,
        offset: Option<u32>,
    },
}

/// One more condition of a query, where there is a value for it.
pub open spec fn asked_for(v: Seq<Seq<char>>, key: Seq<char>, value: Option<Seq<char>>) -> Seq<
    Seq<char>,
> {
    match value {
        Some(x) => v.push(key + x),
        None => v,
    }
}

/// The digits of an optional integer.
pub open spec fn int_digits(n: Option<i64>) -> Option<Seq<char>> {
    match n {
        Some(k) => Some(decimal_int(k as int)),
        None => None,
    }
}

/// The digits of an optional natural number.
pub open spec fn nat_digits(n: Option<u32>) -> Option<Seq<char>> {
    match n {
        Some(k) => Some(decimal(k as nat)),
        None => None,
    }
}

/// The conditions of a query.
pub open spec fn conditions(cmd: AuditCmd) -> Seq<Seq<char>> {
    let AuditCmd::Query { agent, tool, event_class, decision, since_ms, until_ms, limit, offset } =
        cmd;
    let a = asked_for(Seq::empty(), "agent="@, opt_text(agent));
    let b = asked_for(a, "tool="@, opt_text(tool));
    let c = asked_for(b, "event_class="@, opt_text(event_class));
    let d = asked_for(c, "decision="@, opt_text(decision));
    let e = asked_for(d, "since_ms="@, int_digits(since_ms));
    let f = asked_for(e, "until_ms="@, int_digits(until_ms));
    let g = asked_for(f, "limit="@, nat_digits(limit));
    asked_for(g, "offset="@, nat_digits(offset))
}

/// The path of a query.
pub open spec fn query_path(cmd: AuditCmd) -> Seq<char> {
    if conditions(cmd).len() == 0 {
        "/admin/operator/audit"@
    } else {
        "/admin/operator/audit?"@ + joined(conditions(cmd), "&"@)
    }
}

/// What a command on the audit log comes to.
pub open spec fn audit_plan(cmd: AuditCmd, token: Option<Seq<char>>) -> Result<CallView, CliFault> {
    match token {
        None => Err(CliFault::MissingOpToken),
        Some(t) => Ok(
            op_call("GET"@, query_path(cmd), t, None, AnswerView::Member("events"@)),
        ),
    }
}

fn ask(v: &mut Vec<String>, key: &str, value: &Option<String>)
    ensures
        texts(final(v)@) == asked_for(texts(old(v)@), key@, opt_text(*value)),
{
    match value {
        Some(x) => {
            let ghost before = v@;
            v.push(cat(key, x.as_str()));
            assert(texts(v@) =~= texts(before).push(key@ + x@));
        },
        None => {},
    }
}

fn ask_int(v: &mut Vec<String>, key: &str, value: Option<i64>)
    ensures
        texts(final(v)@) == asked_for(texts(old(v)@), key@, int_digits(value)),
{
    let shown = match value {
        Some(k) => Some(show_i64(k)),
        None => None,
    };
    ask(v, key, &shown);
}

fn ask_nat(v: &mut Vec<String>, key: &str, value: Option<u32>)
    ensures
        texts(final(v)@) == asked_for(texts(old(v)@), key@, nat_digits(value)),
{
    let shown = match value {
        Some(k) => Some(show_u64(k as u64)),
        None => None,
    };
    ask(v, key, &shown);
}

/// What a command on the audit log asks of the daemon.
pub fn run(cmd: AuditCmd, token: Option<String>) -> (r: Result<Call, CliError>)
    ensures
        planned(r, audit_plan(cmd, opt_text(token))),
{
    let t = match CliClient::op_token(token) {
        Ok(t) => t,
        Err(e) => return Err(e),
    };
    let ghost whole = cmd;
    let AuditCmd::Query { agent, tool, event_class, decision, since_ms, until_ms, limit, offset } =
        cmd;
    let mut qs: Vec<String> = Vec::new();
    assert(texts(qs@) =~= Seq::empty());
    ask(&mut qs, "agent=", &agent);
    ask(&mut qs, "tool=", &tool);
    ask(&mut qs, "event_class=", &event_class);
    ask(&mut qs, "decision=", &decision);
    ask_int(&mut qs, "since_ms=", since_ms);
    ask_int(&mut qs, "until_ms=", until_ms);
    ask_nat(&mut qs, "limit=", limit);
    ask_nat(&mut qs, "offset=", offset);
    assert(texts(qs@) == conditions(whole));
    let path = if qs.len() == 0 {
        "/admin/operator/audit".to_owned()
    } else {
        cat("/admin/operator/audit?", join(&qs, "&").as_str())
    };
    Ok(Call::operator("GET", path, t, None, Answer::Member("events")))
}

/// Every condition that the operator names is asked for under its own name, and nothing
/// else is.
pub proof fn law_conditions_are_asked_for_by_name(
    agent: Option<String>,
    tool: Option<String>,
    event_class: Option<String>,
    decision: Option<String>,
    since_ms: Option<i64>,
    until_ms: Option<i64>,
    limit: Option<u32>,
    offset: Option<u32>,
)
    ensures
        ({
            let c = conditions(
                AuditCmd::Query {
                    agent,
                    tool,
                    event_class,
                    decision,
                    since_ms,
                    until_ms,
                    limit,
                    offset,
                },
            );
            &&& agent matches Some(x) ==> c.contains("agent="@ + x@)
            &&& tool matches Some(x) ==> c.contains("tool="@ + x@)
            &&& event_class matches Some(x) ==> c.contains("event_class="@ + x@)
            &&& decision matches Some(x) ==> c.contains("decision="@ + x@)
            &&& since_ms matches Some(n) ==> c.contains("since_ms="@ + decimal_int(n as int))
            &&& until_ms matches Some(n) ==> c.contains("until_ms="@ + decimal_int(n as int))
            &&& limit matches Some(n) ==> c.contains("limit="@ + decimal(n as nat))
            &&& offset matches Some(n) ==> c.contains("offset="@ + decimal(n as nat))
            &&& c.len() == (agent is Some) as int + (tool is Some) as int + (
            event_class is Some) as int + (decision is Some) as int + (since_ms is Some) as int + (
            until_ms is Some) as int + (limit is Some) as int + (offset is Some) as int
        }),
{
    broadcast use lemma_still_asked_for;

}

pub broadcast proof fn lemma_still_asked_for(
    v: Seq<Seq<char>>,
    key: Seq<char>,
    value: Option<Seq<char>>,
    x: Seq<char>,
)
    requires
        v.contains(x) || (value is Some && x == key + value->Some_0),
    ensures
        #[trigger] asked_for(v, key, value).contains(x),
{
    let w = asked_for(v, key, value);
    if v.contains(x) {
        let i = v.index_of(x);
        assert(w[i] == x);
    } else {
        assert(w[w.len() - 1] == x);
    }
}

/// The log is asked with the operator's token, with the conditions behind a question mark.
pub proof fn law_log_is_asked_with_the_conditions(cmd: AuditCmd, t: Seq<char>)
    ensures
        audit_plan(cmd, None) == Err::<CallView, CliFault>(CliFault::MissingOpToken),
        audit_plan(cmd, Some(t)) matches Ok(c) && {
            &&& c.method == "GET"@ && c.token == t && !c.by_agent && c.body is None
            &&& c.answer == AnswerView::Member("events"@)
            &&& conditions(cmd).len() == 0 ==> c.path == "/admin/operator/audit"@
            &&& conditions(cmd).len() > 0 ==> c.path == "/admin/operator/audit?"@ + joined(
                conditions(cmd),
                "&"@,
            )
        },
{
}

} // verus!
