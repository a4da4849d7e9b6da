//! `tool`: the tools.
use vstd::prelude::*;

use crate::cli::client::{op_call, AnswerView, Call, CallView, CliError, CliFault};
use crate::cli::commands::registration::{
    do_delete, do_enable, do_get, do_list, do_put, kind_path, list_member, name_path, planned,
    put_plan, with_token, CliKind, PutOpts,
};
use crate::text::opt_text;

verus! {

/// The commands on tools.
pub enum ToolCmd {
    /// Lists them.
    List,
    /// Shows one.
    Get { name: String },
    /// Registers or changes one.
    Put { name: String, opts: PutOpts },
    /// Deletes one.
    Delete { name: String },
    /// Enables one again.
    Enable { name: String },
}

/// What a command on tools comes to.
pub open spec fn tool_plan(cmd: ToolCmd, token: Option<Seq<char>>) -> Result<CallView, CliFault> {
    let kind = CliKind::Tool;
    match cmd {
        ToolCmd::List => with_token(
            token,
            op_call("GET"@, kind_path(kind), token->0, None, AnswerView::Member(list_member(kind))),
        ),
        ToolCmd::Get { name } => with_token(
            token,
            op_call("GET"@, name_path(kind, name@), token->0, None, AnswerView::Whole),
        ),
        ToolCmd::Put { name, opts } => put_plan(kind, name@, opts@, token),
        ToolCmd::Delete { name } => with_token(
            token,
            op_call("DELETE"@, name_path(kind, name@), token->0, None, AnswerView::Nothing),
        ),
        ToolCmd::Enable { name } => with_token(
            token,
            op_call(
                "POST"@,
                name_path(kind, name@) + "/enable"@,
                token->0,
                None,
                AnswerView::Nothing,
            ),
        ),
    }
}

/// What a command on tools asks of the daemon.
pub fn run(cmd: ToolCmd, token: Option<String>) -> (r: Result<Call, CliError>)
    ensures
        planned(r, tool_plan(cmd, opt_text(token))),
{
    match cmd {
        ToolCmd::List => do_list(CliKind::Tool, token),
        ToolCmd::Get { name } => do_get(CliKind::Tool, name.as_str(), token),
        ToolCmd::Put { name, opts } => do_put(CliKind::Tool, name.as_str(), &opts, token),
        ToolCmd::Delete { name } => do_delete(CliKind::Tool, name.as_str(), token),
        ToolCmd::Enable { name } => do_enable(CliKind::Tool, name.as_str(), token),
    }
}

/// Each command goes to the one that it names among those of this kind, or to all of them,
/// with the operator's token and with the method that says what is done.
pub proof fn law_commands_reach_what_they_name(cmd: ToolCmd, t: Seq<char>)
    ensures
        tool_plan(cmd, None) == Err::<CallView, CliFault>(CliFault::MissingOpToken),
        tool_plan(cmd, Some(t)) matches Ok(c) ==> {
            &&& c.token == t && !c.by_agent
            &&& cmd is List ==> c.method == "GET"@ && c.path == "/admin/operator/"@ + "tools"@
                && c.answer == AnswerView::Member("tools"@) && c.body is None
            &&& cmd matches ToolCmd::Get { name } ==> c.method == "GET"@ && c.path
                == "/admin/operator/"@ + "tools"@ + "/"@ + name@ && c.body is None
            &&& cmd matches ToolCmd::Put { name, .. } ==> c.method == "PUT"@ && c.path
                == "/admin/operator/"@ + "tools"@ + "/"@ + name@ && c.body is Some
            &&& cmd matches ToolCmd::Delete { name } ==> c.method == "DELETE"@ && c.path
                == "/admin/operator/"@ + "tools"@ + "/"@ + name@ && c.body is None
            &&& cmd matches ToolCmd::Enable { name } ==> c.method == "POST"@ && c.path
                == "/admin/operator/"@ + "tools"@ + "/"@ + name@ + "/enable"@ && c.body is None
        },
        tool_plan(cmd, Some(t)) is Err ==> cmd is Put,
{
}

} // verus!
