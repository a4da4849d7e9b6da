//! `infra`: the services that the proxy itself calls.
use vstd::prelude::*;

use crate::cli::client::{op_call, AnswerView, Call, CallView, CliError, CliFault};
use crate::cli::commands::registration::{
    do_delete, do_enable, do_get, do_list, do_put, kind_path, list_member, name_path, planned,
    put_plan, with_token, CliKind, PutOpts,
};
use crate::text::opt_text;

verus! {

/// The commands on infrastructure.
pub enum InfraCmd {
    /// Lists them.
    List,
    /// Shows one.
    Get { name: String },
    /// Registers or changes one.
    Put { name: String, opts: PutOpts },
    /// Deletes one.
    Delete { name: String },
    /// Enables one again.
    Enable { name: String },
}

/// What a command on infrastructure comes to.
pub open spec fn infra_plan(cmd: InfraCmd, token: Option<Seq<char>>) -> Result<CallView, CliFault> {
    let kind = CliKind::Infra;
    match cmd {
        InfraCmd::List => with_token(
            token,
            op_call("GET"@, kind_path(kind), token->0, None, AnswerView::Member(list_member(kind))),
        ),
        InfraCmd::Get { name } => with_token(
            token,
            op_call("GET"@, name_path(kind, name@), token->0, None, AnswerView::Whole),
        ),
        InfraCmd::Put { name, opts } => put_plan(kind, name@, opts@, token),
        InfraCmd::Delete { name } => with_token(
            token,
            op_call("DELETE"@, name_path(kind, name@), token->0, None, AnswerView::Nothing),
        ),
        InfraCmd::Enable { name } => with_token(
            token,
            op_call(
                "POST"@,
                name_path(kind, name@) + "/enable"@,
                token->0,
                None,
                AnswerView::Nothing,
            ),
        ),
    }
}

/// What a command on infrastructure asks of the daemon.
pub fn run(cmd: InfraCmd, token: Option<String>) -> (r: Result<Call, CliError>)
    ensures
        planned(r, infra_plan(cmd, opt_text(token))),
{
    match cmd {
        InfraCmd::List => do_list(CliKind::Infra, token),
        InfraCmd::Get { name } => do_get(CliKind::Infra, name.as_str(), token),
        InfraCmd::Put { name, opts } => do_put(CliKind::Infra, name.as_str(), &opts, token),
        InfraCmd::Delete { name } => do_delete(CliKind::Infra, name.as_str(), token),
        InfraCmd::Enable { name } => do_enable(CliKind::Infra, name.as_str(), token),
    }
}

/// Each command goes to the one that it names among those of this kind, or to all of them,
/// with the operator's token and with the method that says what is done.
pub proof fn law_commands_reach_what_they_name(cmd: InfraCmd, t: Seq<char>)
    ensures
        infra_plan(cmd, None) == Err::<CallView, CliFault>(CliFault::MissingOpToken),
        infra_plan(cmd, Some(t)) matches Ok(c) ==> {
            &&& c.token == t && !c.by_agent
            &&& cmd is List ==> c.method == "GET"@ && c.path == "/admin/operator/"@ + "infra"@
                && c.answer == AnswerView::Member("infras"@) && c.body is None
            &&& cmd matches InfraCmd::Get { name } ==> c.method == "GET"@ && c.path
                == "/admin/operator/"@ + "infra"@ + "/"@ + name@ && c.body is None
            &&& cmd matches InfraCmd::Put { name, .. } ==> c.method == "PUT"@ && c.path
                == "/admin/operator/"@ + "infra"@ + "/"@ + name@ && c.body is Some
            &&& cmd matches InfraCmd::Delete { name } ==> c.method == "DELETE"@ && c.path
                == "/admin/operator/"@ + "infra"@ + "/"@ + name@ && c.body is None
            &&& cmd matches InfraCmd::Enable { name } ==> c.method == "POST"@ && c.path
                == "/admin/operator/"@ + "infra"@ + "/"@ + name@ + "/enable"@ && c.body is None
        },
        infra_plan(cmd, Some(t)) is Err ==> cmd is Put,
{
}

} // verus!
