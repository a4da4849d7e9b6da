//! What agents do for themselves.
use vstd::prelude::*;

use crate::cli::client::{Answer, AnswerView, Call, CallView, CliClient, CliError, CliFault};
use crate::cli::commands::registration::planned;
use crate::json::{jempty, jstr, Json, JsonView};
use crate::text::{opt_text, split_once, split_once_spec};

verus! {

/// A call of an agent.
pub open spec fn own_call(
    method: Seq<char>,
    path: Seq<char>,
    token: Seq<char>,
    body: Option<JsonView>,
) -> CallView {
    CallView { method, path, by_agent: true, token, body, answer: AnswerView::Whole }
}

/// What showing an agent to itself comes to.
pub open spec fn status_plan(token: Option<Seq<char>>) -> Result<CallView, CliFault> {
    match token {
        None => Err(CliFault::MissingAgentToken),
        Some(t) => Ok(own_call("GET"@, "/admin/agent/status"@, t, None)),
    }
}

/// Shows an agent to itself.
pub fn status(token: Option<String>) -> (r: Result<Call, CliError>)
    ensures
        planned(r, status_plan(opt_text(token))),
{
    match CliClient::agent_token(token) {
        Ok(t) => Ok(
            Call {
                method: "GET",
                path: "/admin/agent/status".to_owned(),
                by_agent: true,
                token: t,
                body: None,
                answer: Answer::Whole,
            },
        ),
        Err(e) => Err(e),
    }
}

/// What a new secret for an agent comes to. The current one is the one given, or
/// the part of the token behind its first dot.
pub open spec fn rotate_plan(current: Option<Seq<char>>, token: Option<Seq<char>>) -> Result<
    CallView,
    CliFault,
> {
    match token {
        None => Err(CliFault::MissingAgentToken),
        Some(t) => {
            let secret = match current {
                Some(s) => Some(s),
                None => match split_once_spec(t, '.') {
                    Some((_, s)) => Some(s),
                    None => None,
                },
            };
            match secret {
                None => Err(CliFault::MalformedAgentToken),
                Some(s) => Ok(
                    own_call(
                        "POST"@,
                        "/admin/agent/rotate"@,
                        t,
                        Some(jempty().with("current_secret"@, jstr(s))),
                    ),
                ),
            }
        },
    }
}

/// Gives an agent a new secret.
pub fn rotate(current_secret: Option<String>, token: Option<String>) -> (r: Result<Call, CliError>)
    ensures
        planned(r, rotate_plan(opt_text(current_secret), opt_text(token))),
{
    let t = match CliClient::agent_token(token) {
        Ok(t) => t,
        Err(e) => return Err(e),
    };
    let secret = match current_secret {
        Some(s) => s,
        None => match split_once(t.as_str(), '.') {
            Some((_, s)) => s,
            None => return Err(CliError::MalformedAgentToken),
        },
    };
    let body = Json::object().with("current_secret", Json::text(secret.as_str()));
    Ok(
        Call {
            method: "POST",
            path: "/admin/agent/rotate".to_owned(),
            by_agent: true,
            token: t,
            body: Some(body),
            answer: Answer::Whole,
        },
    )
}

/// An agent asks about itself and changes its secret with its own token; it shows the secret
/// that it names, or the one in its token.
pub proof fn law_agents_act_with_their_own_token(
    id: Seq<char>,
    secret: Seq<char>,
    named: Seq<char>,
    t: Seq<char>,
)
    requires
        !id.contains('.'),
    ensures
        status_plan(None) == Err::<CallView, CliFault>(CliFault::MissingAgentToken),
        rotate_plan(Some(named), None) == Err::<CallView, CliFault>(CliFault::MissingAgentToken),
        status_plan(Some(t)) matches Ok(c) && c.method == "GET"@ && c.path
            == "/admin/agent/status"@ && c.by_agent && c.token == t && c.body is None,
        rotate_plan(Some(named), Some(t)) matches Ok(c) && c.method == "POST"@ && c.path
            == "/admin/agent/rotate"@ && c.by_agent && c.token == t && c.body == Some(
            JsonView::Object(seq![("current_secret"@, JsonView::Str(named))]),
        ),
        rotate_plan(None, Some(id + seq!['.'] + secret)) matches Ok(c) && c.token == id + seq!['.']
            + secret && c.body == Some(
            JsonView::Object(seq![("current_secret"@, JsonView::Str(secret))]),
        ),
        rotate_plan(None, Some(id)) == Err::<CallView, CliFault>(CliFault::MalformedAgentToken),
{
    let whole = id + seq!['.'] + secret;
    assert forall|j: int| 0 <= j < id.len() implies whole[j] != '.' by {
        assert(whole[j] == id[j]);
        assert(id.contains(id[j]));
    }
    assert(whole[id.len() as int] == '.');
    crate::text::lemma_index_of(whole, '.', id.len() as int);
    assert(whole.skip(id.len() as int + 1) =~= secret);
    crate::text::lemma_index_of_bounds(id, '.');
    assert(jempty().with("current_secret"@, jstr(secret))->Object_0 =~= seq![
        ("current_secret"@, JsonView::Str(secret)),
    ]);
    assert(jempty().with("current_secret"@, jstr(named))->Object_0 =~= seq![
        ("current_secret"@, JsonView::Str(named)),
    ]);
}

} // verus!
