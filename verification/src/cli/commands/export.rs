//! `export`: what an operator sees, as a document to keep.
use vstd::prelude::*;

use crate::cli::client::{op_call, Answer, AnswerView, Call, CliClient, CliError};
use crate::cli::commands::registration::{planned, with_token};
use crate::text::opt_text;

verus! {

/// What can be exported.
pub enum ExportCmd {
    /// All agents, revoked ones too.
    Agents,
}

/// What an export asks of the daemon.
pub fn run(cmd: ExportCmd, token: Option<String>) -> (r: Result<Call, CliError>)
    ensures
        planned(
            r,
            with_token(
                opt_text(token),
                op_call(
                    "GET"@,
                    "/admin/operator/agents?include_revoked=true"@,
                    opt_text(token)->0,
                    None,
                    AnswerView::Export("agents"@),
                ),
            ),
        ),
{
    let t = match CliClient::op_token(token) {
        Ok(t) => t,
        Err(e) => return Err(e),
    };
    match cmd {
        ExportCmd::Agents => Ok(
            Call::operator(
                "GET",
                "/admin/operator/agents?include_revoked=true".to_owned(),
                t,
                None,
                Answer::Export("agents"),
            ),
        ),
    }
}

} // verus!
