//! `model`: the models.
use vstd::prelude::*;

use crate::cli::client::{op_call, AnswerView, Call, CallView, CliError, CliFault};
use crate::cli::commands::registration::{
    do_delete, do_enable, do_get, do_list, do_put, kind_path, list_member, name_path, planned,
    put_plan, with_token, CliKind, PutOpts,
};
use crate::text::opt_text;

verus! {

/// The commands on models.
pub enum ModelCmd {
    /// Lists them.
    List,
    /// Shows one.
    Get { name: String },
    /// Registers or changes one.
    Put { name: String, opts: PutOpts },
    /// Deletes one.
    Delete { name: String },
    /// Enables one again.
    Enable { name: String },
}

/// What a command on models comes to.
pub open spec fn model_plan(cmd: ModelCmd, token: Option<Seq<char>>) -> Result<CallView, CliFault> {
    let kind = CliKind::Model;
    match cmd {
        ModelCmd::List => with_token(
            token,
            op_call("GET"@, kind_path(kind), token->0, None, AnswerView::Member(list_member(kind))),
        ),
        ModelCmd::Get { name } => with_token(
            token,
            op_call("GET"@, name_path(kind, name@), token->0, None, AnswerView::Whole),
        ),
        ModelCmd::Put { name, opts } => put_plan(kind, name@, opts@, token),
        ModelCmd::Delete { name } => with_token(
            token,
            op_call("DELETE"@, name_path(kind, name@), token->0, None, AnswerView::Nothing),
        ),
        ModelCmd::Enable { name } => with_token(
            token,
            op_call(
                "POST"@,
                name_path(kind, name@) + "/enable"@,
                token->0,
                None,
                AnswerView::Nothing,
            ),
        ),
    }
}

/// What a command on models asks of the daemon.
pub fn run(cmd: ModelCmd, token: Option<String>) -> (r: Result<Call, CliError>)
    ensures
        planned(r, model_plan(cmd, opt_text(token))),
{
    match cmd {
        ModelCmd::List => do_list(CliKind::Model, token),
        ModelCmd::Get { name } => do_get(CliKind::Model, name.as_str(), token),
        ModelCmd::Put { name, opts } => do_put(CliKind::Model, name.as_str(), &opts, token),
        ModelCmd::Delete { name } => do_delete(CliKind::Model, name.as_str(), token),
        ModelCmd::Enable { name } => do_enable(CliKind::Model, name.as_str(), token),
    }
}

/// Each command goes to the one that it names among those of this kind, or to all of them,
/// with the operator's token and with the method that says what is done.
pub proof fn law_commands_reach_what_they_name(cmd: ModelCmd, t: Seq<char>)
    ensures
        model_plan(cmd, None) == Err::<CallView, CliFault>(CliFault::MissingOpToken),
        model_plan(cmd, Some(t)) matches Ok(c) ==> {
            &&& c.token == t && !c.by_agent
            &&& cmd is List ==> c.method == "GET"@ && c.path == "/admin/operator/"@ + "models"@
                && c.answer == AnswerView::Member("models"@) && c.body is None
            &&& cmd matches ModelCmd::Get { name } ==> c.method == "GET"@ && c.path
                == "/admin/operator/"@ + "models"@ + "/"@ + name@ && c.body is None
            &&& cmd matches ModelCmd::Put { name, .. } ==> c.method == "PUT"@ && c.path
                == "/admin/operator/"@ + "models"@ + "/"@ + name@ && c.body is Some
            &&& cmd matches ModelCmd::Delete { name } ==> c.method == "DELETE"@ && c.path
                == "/admin/operator/"@ + "models"@ + "/"@ + name@ && c.body is None
            &&& cmd matches ModelCmd::Enable { name } ==> c.method == "POST"@ && c.path
                == "/admin/operator/"@ + "models"@ + "/"@ + name@ + "/enable"@ && c.body is None
        },
        model_plan(cmd, Some(t)) is Err ==> cmd is Put,
{
}

} // verus!
