//! `bootstrap`: the tokens with which agents register.
use vstd::prelude::*;

use crate::cli::client::{op_call, Answer, AnswerView, Call, CallView, CliClient, CliError, CliFault};
use crate::cli::commands::registration::planned;
use crate::json::{jempty, jopt_int, jopt_strs, Json, JsonView};
use crate::text::{cat3, opt_text};

verus! {

/// The commands on bootstrap tokens.
pub enum BootstrapCmd {
    /// Makes a token, which is good for one registration where nothing else is said.
    Mint { allowlist: Option<Vec<String>>, reusable: bool, expires_at: Option<i64> },
    /// Lists the tokens.
    List,
    /// Takes a token back.
    Revoke { id: String },
}

/// What a command on bootstrap tokens comes to, given the operator's token.
pub open spec fn bootstrap_call(cmd: BootstrapCmd, t: Seq<char>) -> CallView {
    match cmd {
        BootstrapCmd::Mint { allowlist, reusable, expires_at } => op_call(
            "POST"@,
            "/admin/operator/bootstrap_tokens"@,
            t,
            Some(
                jempty().with("tool_allowlist"@, jopt_strs(allowlist)).with(
                    "single_use"@,
                    JsonView::Bool(!reusable),
                ).with("expires_at"@, jopt_int(expires_at)),
            ),
            AnswerView::Whole,
        ),
        BootstrapCmd::List => op_call(
            "GET"@,
            "/admin/operator/bootstrap_tokens"@,
            t,
            None,
            AnswerView::Member("tokens"@),
        ),
        BootstrapCmd::Revoke { id } => op_call(
            "POST"@,
            "/admin/operator/bootstrap_tokens/"@ + id@ + "/revoke"@,
            t,
            None,
            AnswerView::Nothing,
        ),
    }
}

/// What a command on bootstrap tokens comes to.
pub open spec fn bootstrap_plan(cmd: BootstrapCmd, token: Option<Seq<char>>) -> Result<
    CallView,
    CliFault,
> {
    match token {
        None => Err(CliFault::MissingOpToken),
        Some(t) => Ok(bootstrap_call(cmd, t)),
    }
}

/// What a command on bootstrap tokens asks of the daemon.
pub fn run(cmd: BootstrapCmd, token: Option<String>) -> (r: Result<Call, CliError>)
    ensures
        planned(r, bootstrap_plan(cmd, opt_text(token))),
{
    let t = match CliClient::op_token(token) {
        Ok(t) => t,
        Err(e) => return Err(e),
    };
    Ok(
        match cmd {
            BootstrapCmd::Mint { allowlist, reusable, expires_at } => {
                let body = Json::object().with("tool_allowlist", Json::opt_texts(&allowlist)).with(
                    "single_use",
                    Json::Bool(!reusable),
                ).with("expires_at", Json::opt_int(expires_at));
                Call::operator(
                    "POST",
                    "/admin/operator/bootstrap_tokens".to_owned(),
                    t,
                    Some(body),
                    Answer::Whole,
                )
            },
            BootstrapCmd::List => Call::operator(
                "GET",
                "/admin/operator/bootstrap_tokens".to_owned(),
                t,
                None,
                Answer::Member("tokens"),
            ),
            BootstrapCmd::Revoke { id } => Call::operator(
                "POST",
                cat3("/admin/operator/bootstrap_tokens/", id.as_str(), "/revoke"),
                t,
                None,
                Answer::Nothing,
            ),
        },
    )
}

/// A token is minted with the tools and the end that the operator gives, for one use unless
/// the operator says otherwise.
pub proof fn law_tokens_are_minted_as_asked(
    allowlist: Option<Vec<String>>,
    reusable: bool,
    expires_at: Option<i64>,
    t: Seq<char>,
)
    ensures
        bootstrap_plan(
            BootstrapCmd::Mint { allowlist, reusable, expires_at },
            Some(t),
        ) matches Ok(c) && {
            &&& c.method == "POST"@ && c.path == "/admin/operator/bootstrap_tokens"@ && c.token == t
            &&& c.body == Some(
                JsonView::Object(
                    seq![
                        ("tool_allowlist"@, jopt_strs(allowlist)),
                        ("single_use"@, JsonView::Bool(!reusable)),
                        ("expires_at"@, jopt_int(expires_at)),
                    ],
                ),
            )
        },
{
    let c = bootstrap_plan(BootstrapCmd::Mint { allowlist, reusable, expires_at }, Some(t))->Ok_0;
    assert(c.body->Some_0->Object_0 =~= seq![
        ("tool_allowlist"@, jopt_strs(allowlist)),
        ("single_use"@, JsonView::Bool(!reusable)),
        ("expires_at"@, jopt_int(expires_at)),
    ]);
}

/// Tokens are listed, and the one that is named is revoked; nothing is done without an
/// operator's token.
pub proof fn law_tokens_are_listed_and_revoked(cmd: BootstrapCmd, id: String, t: Seq<char>)
    ensures
        bootstrap_plan(cmd, None) == Err::<CallView, CliFault>(CliFault::MissingOpToken),
        bootstrap_plan(BootstrapCmd::List, Some(t)) matches Ok(c) && c.method == "GET"@ && c.path
            == "/admin/operator/bootstrap_tokens"@ && c.token == t && c.answer
            == AnswerView::Member("tokens"@),
        bootstrap_plan(BootstrapCmd::Revoke { id }, Some(t)) matches Ok(c) && c.method == "POST"@
            && c.path == "/admin/operator/bootstrap_tokens/"@ + id@ + "/revoke"@ && c.token == t,
{
}

} // verus!
