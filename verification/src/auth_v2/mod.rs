//! Who is calling: agents and operators, by token or by certificate.
pub mod agent;
pub mod operator;

pub use agent::{AgentAuthenticator, AgentIdentity, BearerAuthenticator};
pub use operator::{OperatorAuthenticator, OperatorIdentity};

use std::time::Duration;
use vstd::prelude::*;

use crate::clock::whole_seconds;
use crate::reply::{coded_error, Reply, ReplyView};

verus! {

/// Why a caller was not let in.
#[derive(Debug)]
pub enum AuthError {
    /// No credential was presented.
    MissingCredential,
    /// The credential is malformed, unknown, or its secret is wrong.
    InvalidCredential,
    /// The credential was revoked.
    Revoked,
    /// The credential has expired.
    Expired,
    /// Too many attempts.
    RateLimited { retry_after: Duration },
    /// A store failed. The text is for the log and is never sent.
    Backend(String),
    /// Certificates are asked for and nothing is there to test them.
    MtlsMisconfigured,
}

/// What an [`AuthError`] says.
pub ghost enum AuthFault {
    MissingCredential,
    InvalidCredential,
    Revoked,
    Expired,
    RateLimited { retry_after: Duration },
    Backend(Seq<char>),
    MtlsMisconfigured,
}

impl View for AuthError {
    type V = AuthFault;

    open spec fn view(&self) -> AuthFault {
        match self {
            AuthError::MissingCredential => AuthFault::MissingCredential,
            AuthError::InvalidCredential => AuthFault::InvalidCredential,
            AuthError::Revoked => AuthFault::Revoked,
            AuthError::Expired => AuthFault::Expired,
            AuthError::RateLimited { retry_after } => AuthFault::RateLimited {
                retry_after: *retry_after,
            },
            AuthError::Backend(m) => AuthFault::Backend(m@),
            AuthError::MtlsMisconfigured => AuthFault::MtlsMisconfigured,
        }
    }
}

/// The status that an error is answered with.
pub open spec fn auth_status(e: AuthFault) -> u16 {
    match e {
        AuthFault::RateLimited { .. } => 429,
        AuthFault::Backend(_) | AuthFault::MtlsMisconfigured => 500,
        _ => 401,
    }
}

/// The code that an error is answered with.
pub open spec fn auth_code(e: AuthFault) -> Seq<char> {
    match e {
        AuthFault::MissingCredential | AuthFault::InvalidCredential => "invalid_credential"@,
        AuthFault::Revoked => "revoked"@,
        AuthFault::Expired => "expired"@,
        AuthFault::RateLimited { .. } => "rate_limited"@,
        AuthFault::Backend(_) => "backend_error"@,
        AuthFault::MtlsMisconfigured => "internal_error"@,
    }
}

/// The message that an error is answered with.
pub open spec fn auth_message(e: AuthFault) -> Seq<char> {
    match e {
        AuthFault::MissingCredential => "missing credential"@,
        AuthFault::InvalidCredential => "invalid credential"@,
        AuthFault::Revoked => "revoked"@,
        AuthFault::Expired => "expired"@,
        AuthFault::RateLimited { .. } => "rate limited"@,
        AuthFault::Backend(_) | AuthFault::MtlsMisconfigured => "internal error"@,
    }
}

impl AuthError {
    /// The status that the error is answered with.
    pub fn status(&self) -> (r: u16)
        ensures
            r == auth_status(self@),
    {
        match self {
            AuthError::MissingCredential
            | AuthError::InvalidCredential
            | AuthError::Revoked
            | AuthError::Expired => 401,
            AuthError::RateLimited { .. } => 429,
            AuthError::Backend(_) | AuthError::MtlsMisconfigured => 500,
        }
    }

    /// The code that the error is answered with.
    pub fn code(&self) -> (r: &'static str)
        ensures
            r@ == auth_code(self@),
    {
        match self {
            AuthError::MissingCredential | AuthError::InvalidCredential => "invalid_credential",
            AuthError::Revoked => "revoked",
            AuthError::Expired => "expired",
            AuthError::RateLimited { .. } => "rate_limited",
            AuthError::Backend(_) => "backend_error",
            AuthError::MtlsMisconfigured => "internal_error",
        }
    }

    /// The message that the error is answered with.
    pub fn message(&self) -> (r: &'static str)
        ensures
            r@ == auth_message(self@),
    {
        match self {
            AuthError::MissingCredential => "missing credential",
            AuthError::InvalidCredential => "invalid credential",
            AuthError::Revoked => "revoked",
            AuthError::Expired => "expired",
            AuthError::RateLimited { .. } => "rate limited",
            AuthError::Backend(_) | AuthError::MtlsMisconfigured => "internal error",
        }
    }
}

/// The seconds after which a caller may try again.
pub open spec fn auth_retry_after(e: AuthFault) -> Option<u64> {
    match e {
        AuthFault::RateLimited { retry_after } => Some(whole_seconds(retry_after)),
        _ => None,
    }
}

/// The answer to an error: the status, the message, the type `auth_error` and the
/// code, and for too many attempts the seconds to wait.
pub open spec fn auth_reply(e: AuthFault) -> ReplyView {
    ReplyView {
        status: auth_status(e),
        retry_after: auth_retry_after(e),
        body: Some(coded_error(auth_message(e), "auth_error"@, auth_code(e))),
    }
}

/// The answer to an error.
pub fn auth_error_response(err: &AuthError) -> (r: Reply)
    ensures
        r@ == auth_reply(err@),
{
    let retry_after = match err {
        AuthError::RateLimited { retry_after } => Some(retry_after.as_secs()),
        _ => None,
    };
    let base = Reply::coded(err.status(), err.message(), "auth_error", err.code());
    Reply { status: base.status, retry_after, body: base.body }
}

/// Nothing of what a store reported reaches the caller: every failed store is
/// answered alike.
pub proof fn law_backend_answer_is_generic(a: Seq<char>, b: Seq<char>)
    ensures
        auth_reply(AuthFault::Backend(a)) == auth_reply(AuthFault::Backend(b)),
{
}

/// A missing and a wrong credential get the same status and code.
pub proof fn law_uniform_refusal()
    ensures
        auth_status(AuthFault::MissingCredential) == auth_status(AuthFault::InvalidCredential),
        auth_code(AuthFault::MissingCredential) == auth_code(AuthFault::InvalidCredential),
{
}

/// A caller that was not let in is answered 401, one that asks too often 429, and where the
/// fault is not the caller's, 500. Only who asks too often is told how long to wait, and
/// that in whole seconds.
pub proof fn law_refused_callers_are_answered_by_fault(e: AuthError)
    ensures
        auth_reply(e@).status == 401 <==> e is MissingCredential || e is InvalidCredential
            || e is Revoked || e is Expired,
        auth_reply(e@).status == 429 <==> e is RateLimited,
        auth_reply(e@).status == 500 <==> e is Backend || e is MtlsMisconfigured,
        e matches AuthError::RateLimited { retry_after } ==> auth_reply(e@).retry_after == Some(
            whole_seconds(retry_after),
        ),
        !(e is RateLimited) ==> auth_reply(e@).retry_after is None,
        auth_reply(e@).body is Some,
{
}

/// Each refusal has its code: a missing and a wrong credential share one, and every other
/// fault has its own.
pub proof fn law_refusals_have_their_codes(a: AuthFault, b: AuthFault)
    ensures
        auth_reply(a).body == Some(coded_error(auth_message(a), "auth_error"@, auth_code(a))),
        auth_code(AuthFault::InvalidCredential) == "invalid_credential"@,
        auth_code(AuthFault::Revoked) == "revoked"@,
        auth_code(AuthFault::Expired) == "expired"@,
        a is RateLimited ==> auth_code(a) == "rate_limited"@,
        a is Backend ==> auth_code(a) == "backend_error"@ && auth_message(a) == "internal error"@,
        a is MtlsMisconfigured ==> auth_code(a) == "internal_error"@ && auth_message(a)
            == "internal error"@,
        auth_code(a) == auth_code(b) ==> auth_status(a) == auth_status(b),
{
    reveal_strlit("invalid_credential");
    reveal_strlit("revoked");
    reveal_strlit("expired");
    reveal_strlit("rate_limited");
    reveal_strlit("backend_error");
    reveal_strlit("internal_error");
    assert("invalid_credential"@.len() == 18);
    assert("revoked"@.len() == 7);
    assert("expired"@.len() == 7);
    assert("rate_limited"@.len() == 12);
    assert("backend_error"@.len() == 13);
    assert("internal_error"@.len() == 14);
}

} // verus!
