//! The listener on which an agent can do one thing: register.
use vstd::prelude::*;

use crate::admin::service::{
    admin_message, jnames, AdminError, AdminFault, RegisterOutput, RegisterView,
};
use crate::json::{jempty, jstr, JsonView};
use crate::reply::{api_error, reply, Reply, ReplyView};
use crate::text::same;

verus! {

/// Whether a request is the one that is served.
pub open spec fn served(method: Seq<char>, path: Seq<char>) -> bool {
    method == "POST"@ && path == "/admin/agent/register"@
}

/// Whether a request is the one that is served.
pub fn is_served(method: &str, path: &str) -> (r: bool)
    ensures
        r == served(method@, path@),
{
    same(method, "POST") && same(path, "/admin/agent/register")
}

/// The status and code of the answer to an error.
pub open spec fn register_class(e: AdminFault) -> (u16, Seq<char>) {
    match e {
        AdminFault::InvalidBootstrap => (401, "invalid_credential"@),
        AdminFault::AgentNameConflict => (409, "agent_name_conflict"@),
        AdminFault::AgentNotFound => (404, "agent_not_found"@),
        _ => (500, "backend_error"@),
    }
}

/// What comes back of a registration, in JSON.
pub open spec fn registered_json(v: RegisterView) -> JsonView {
    jempty().with("public_id"@, jstr(v.public_id)).with("token"@, jstr(v.token)).with(
        "allowlist"@,
        jnames(v.allowlist),
    )
}

/// The answer to a registration.
pub open spec fn register_reply(done: Result<RegisterView, AdminFault>) -> ReplyView {
    match done {
        Ok(v) => reply(200, registered_json(v)),
        Err(e) => api_error(register_class(e).0, register_class(e).1, admin_message(e)),
    }
}

/// The answer to a registration.
pub fn handle_register(done: &Result<RegisterOutput, AdminError>) -> (r: Reply)
    ensures
        r@ == register_reply(
            match *done {
                Ok(o) => Ok(o@),
                Err(e) => Err(e@),
            },
        ),
{
    match done {
        Ok(o) => Reply::new(200, o.to_json()),
        Err(e) => {
            let (status, code): (u16, &str) = match e {
                AdminError::InvalidBootstrap => (401, "invalid_credential"),
                AdminError::AgentNameConflict => (409, "agent_name_conflict"),
                AdminError::AgentNotFound => (404, "agent_not_found"),
                _ => (500, "backend_error"),
            };
            Reply::api(status, code, e.message().as_str())
        },
    }
}

/// Nothing but a registration is served here.
pub proof fn law_only_registrations_are_served(method: Seq<char>, path: Seq<char>)
    ensures
        served(method, path) <==> method == "POST"@ && path == "/admin/agent/register"@,
{
}

/// An agent that registered is told its id, its token and what it may call; one that did not
/// is told 401 for its invitation, 409 for its name, and else 500.
pub proof fn law_registrations_are_answered(o: RegisterOutput, e: AdminError)
    ensures
        register_reply(Ok(o@)).status == 200,
        register_reply(Ok(o@)).body == Some(
            JsonView::Object(
                seq![
                    ("public_id"@, JsonView::Str(o.public_id@)),
                    ("token"@, JsonView::Str(o.token@)),
                    ("allowlist"@, jnames(crate::repo::opt_texts(o.allowlist))),
                ],
            ),
        ),
        e is InvalidBootstrap ==> register_reply(Err(e@)).status == 401,
        e is AgentNameConflict ==> register_reply(Err(e@)).status == 409,
        e is AgentNotFound ==> register_reply(Err(e@)).status == 404,
        e is Backend ==> register_reply(Err(e@)).status == 500,
{
    assert(registered_json(o@)->Object_0 =~= seq![
        ("public_id"@, JsonView::Str(o.public_id@)),
        ("token"@, JsonView::Str(o.token@)),
        ("allowlist"@, jnames(crate::repo::opt_texts(o.allowlist))),
    ]);
}

} // verus!
