//! HTTP replies as values.
use vstd::prelude::*;

use crate::json::{jempty, jstr, opt_json, Json, JsonView};

verus! {

/// A reply: its status, a `Retry-After` in seconds, and a JSON body.
pub struct Reply {
    pub status: u16,
    pub retry_after: Option<u64>,
    pub body: Option<Json>,
}

/// What a [`Reply`] says.
#[verifier::ext_equal]
pub ghost struct ReplyView {
    pub status: u16,
    pub retry_after: Option<u64>,
    pub body: Option<JsonView>,
}

impl View for Reply {
    type V = ReplyView;

    open spec fn view(&self) -> ReplyView {
        ReplyView { status: self.status, retry_after: self.retry_after, body: opt_json(self.body) }
    }
}

/// A reply with a status and a body.
pub open spec fn reply(status: u16, body: JsonView) -> ReplyView {
    ReplyView { status, retry_after: None, body: Some(body) }
}

/// A reply with a status and no body.
pub open spec fn empty_reply(status: u16) -> ReplyView {
    ReplyView { status, retry_after: None, body: None }
}

/// The body of an error: its message, its type and its code.
pub open spec fn coded_error(message: Seq<char>, kind: Seq<char>, code: Seq<char>) -> JsonView {
    jempty().with(
        "error"@,
        jempty().with("message"@, jstr(message)).with("type"@, jstr(kind)).with(
            "code"@,
            jstr(code),
        ),
    )
}

/// The type of the errors of the operator API with a status.
pub open spec fn error_kind(status: u16) -> Seq<char> {
    if status == 400 {
        "bad_request"@
    } else if status == 403 {
        "authz_error"@
    } else if status == 404 {
        "not_found"@
    } else if status == 409 {
        "conflict"@
    } else {
        "auth_error"@
    }
}

/// An error of the operator API: the type follows from the status.
pub open spec fn api_error(status: u16, code: Seq<char>, message: Seq<char>) -> ReplyView {
    reply(status, coded_error(message, error_kind(status), code))
}

impl Reply {
    /// A reply with a status and a body.
    pub fn new(status: u16, body: Json) -> (r: Reply)
        ensures
            r@ == reply(status, body@),
    {
        Reply { status, retry_after: None, body: Some(body) }
    }

    /// A reply with a status and no body.
    pub fn empty(status: u16) -> (r: Reply)
        ensures
            r@ == empty_reply(status),
    {
        Reply { status, retry_after: None, body: None }
    }

    /// An error with a message, a type and a code.
    pub fn coded(status: u16, message: &str, kind: &str, code: &str) -> (r: Reply)
        ensures
            r@ == reply(status, coded_error(message@, kind@, code@)),
    {
        Reply::new(
            status,
            Json::object().with(
                "error",
                Json::object().with("message", Json::text(message)).with(
                    "type",
                    Json::text(kind),
                ).with("code", Json::text(code)),
            ),
        )
    }

    /// An error of the operator API.
    pub fn api(status: u16, code: &str, message: &str) -> (r: Reply)
        ensures
            r@ == api_error(status, code@, message@),
    {
        let kind = if status == 400 {
            "bad_request"
        } else if status == 403 {
            "authz_error"
        } else if status == 404 {
            "not_found"
        } else if status == 409 {
            "conflict"
        } else {
            "auth_error"
        };
        Reply::coded(status, message, kind, code)
    }
}

/// The body of an error is an object with one member, whose message, type and code are the
/// given ones.
pub proof fn law_errors_say_message_type_and_code(
    status: u16,
    message: Seq<char>,
    kind: Seq<char>,
    code: Seq<char>,
)
    ensures
        coded_error(message, kind, code) == JsonView::Object(
            seq![
                (
                    "error"@,
                    JsonView::Object(
                        seq![
                            ("message"@, JsonView::Str(message)),
                            ("type"@, JsonView::Str(kind)),
                            ("code"@, JsonView::Str(code)),
                        ],
                    ),
                ),
            ],
        ),
        reply(status, coded_error(message, kind, code)).status == status,
        reply(status, coded_error(message, kind, code)).retry_after is None,
        api_error(status, code, message).status == status,
{
    let inner = jempty().with("message"@, jstr(message)).with("type"@, jstr(kind)).with(
        "code"@,
        jstr(code),
    );
    assert(inner->Object_0 =~= seq![
        ("message"@, JsonView::Str(message)),
        ("type"@, JsonView::Str(kind)),
        ("code"@, JsonView::Str(code)),
    ]);
    assert(coded_error(message, kind, code)->Object_0 =~= seq![("error"@, inner)]);
}

/// The type of an error of the operator API says what is wrong: the request, what the
/// caller may do, what it names, what stands in its way, or who the caller is.
pub proof fn law_error_types(status: u16)
    ensures
        error_kind(status) == "bad_request"@ <==> status == 400,
        error_kind(status) == "authz_error"@ <==> status == 403,
        error_kind(status) == "not_found"@ <==> status == 404,
        error_kind(status) == "conflict"@ <==> status == 409,
        error_kind(status) == "auth_error"@ <==> !(status == 400 || status == 403 || status == 404
            || status == 409),
{
    reveal_strlit("bad_request");
    reveal_strlit("authz_error");
    reveal_strlit("not_found");
    reveal_strlit("conflict");
    reveal_strlit("auth_error");
    assert("bad_request"@[0] == 'b');
    assert("authz_error"@[0] == 'a');
    assert("authz_error"@.len() != "auth_error"@.len());
    assert("not_found"@[0] == 'n');
    assert("conflict"@[0] == 'c');
    assert("auth_error"@[0] == 'a');
}

} // verus!
