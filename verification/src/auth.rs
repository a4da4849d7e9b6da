//! Admission to the agent listener: how a request is let in.
use vstd::prelude::*;

use crate::auth_v2::agent::{bearer_in, bearer_token, AgentIdentity, IdentityView};
use crate::auth_v2::{auth_error_response, auth_reply, AuthError, AuthFault};
use crate::config::{AuthMode, InboundAuthConfig};
use crate::reply::{coded_error, reply, Reply, ReplyView};
use crate::text::{opt_text, same};

verus! {

/// By what a request was let in.
#[derive(Debug, Clone, Copy, PartialEq, Eq, Structural)]
pub enum AuthenticatedAs {
    /// By a token, the agent's own or the shared one.
    Bearer,
    /// By a client certificate.
    Mtls,
}

/// Whether a path can be asked for by everybody.
pub open spec fn open_path(path: Seq<char>) -> bool {
    path == "/livez"@ || path == "/readyz"@ || path == "/version"@ || path == "/health"@
}

/// Whether a path can be asked for by everybody.
pub fn is_open_path(path: &str) -> (r: bool)
    ensures
        r == open_path(path@),
{
    same(path, "/livez") || same(path, "/readyz") || same(path, "/version") || same(path, "/health")
}

/// What is done with a request before it is served.
pub enum GateStep {
    /// It is served without an identity.
    Open,
    /// It is served without an identity, as one that a shared token let in.
    Shared,
    /// It is answered with an error.
    Refuse(Reply),
    /// The certificate is to be tested.
    TestCert,
    /// The `Authorization` header is to be tested.
    TestBearer(String),
}

/// What a [`GateStep`] says.
pub ghost enum GateView {
    Open,
    Shared,
    Refuse(ReplyView),
    TestCert,
    TestBearer(Seq<char>),
}

impl View for GateStep {
    type V = GateView;

    open spec fn view(&self) -> GateView {
        match self {
            GateStep::Open => GateView::Open,
            GateStep::Shared => GateView::Shared,
            GateStep::Refuse(r) => GateView::Refuse(r@),
            GateStep::TestCert => GateView::TestCert,
            GateStep::TestBearer(h) => GateView::TestBearer(h@),
        }
    }
}

/// The token that all agents share, where one is asked for.
pub open spec fn shared_token(inbound: Option<InboundAuthConfig>) -> Option<Seq<char>> {
    match inbound {
        Some(c) => if c.mode@ == "bearer"@ {
            match c.token {
                Some(t) => Some(t@),
                None => None,
            }
        } else {
            None
        },
        None => None,
    }
}

/// The answer to a wrong shared token.
pub open spec fn unauthorized() -> ReplyView {
    reply(401, coded_error("Unauthorized"@, "auth_error"@, "invalid_credential"@))
}

/// What is done with a request that has to show the shared token.
pub open spec fn shared_gate(
    inbound: Option<InboundAuthConfig>,
    header: Option<Seq<char>>,
) -> GateView {
    match shared_token(inbound) {
        None => GateView::Shared,
        Some(expected) => if header is Some && bearer_in(header->Some_0) == Some(expected) {
            GateView::Shared
        } else {
            GateView::Refuse(unauthorized())
        },
    }
}

/// What is done with a request that has to show a token.
pub open spec fn bearer_gate(
    agents_known: bool,
    inbound: Option<InboundAuthConfig>,
    header: Option<Seq<char>>,
) -> GateView {
    if agents_known {
        match header {
            None => GateView::Refuse(auth_reply(AuthFault::MissingCredential)),
            Some(h) => GateView::TestBearer(h),
        }
    } else {
        shared_gate(inbound, header)
    }
}

/// What is done with a request. A certificate that is shown is tested wherever
/// certificates count, and decides then; without one a request is turned away
/// where only certificates count.
pub open spec fn gate(
    path: Seq<char>,
    mode: AuthMode,
    cert: bool,
    certs_testable: bool,
    agents_known: bool,
    inbound: Option<InboundAuthConfig>,
    header: Option<Seq<char>>,
) -> GateView {
    if open_path(path) {
        GateView::Open
    } else if mode != AuthMode::Bearer && cert {
        if certs_testable {
            GateView::TestCert
        } else {
            GateView::Refuse(auth_reply(AuthFault::MtlsMisconfigured))
        }
    } else if mode == AuthMode::Mtls {
        GateView::Refuse(auth_reply(AuthFault::MissingCredential))
    } else {
        bearer_gate(agents_known, inbound, header)
    }
}

fn shared_bearer(inbound: &Option<InboundAuthConfig>, header: &Option<String>) -> (r: GateStep)
    ensures
        r@ == shared_gate(*inbound, opt_text(*header)),
{
    let expected = match inbound {
        Some(c) => {
            if !same(c.mode.as_str(), "bearer") {
                return GateStep::Shared;
            }
            match &c.token {
                Some(t) => t,
                None => {
                    return GateStep::Shared;
                },
            }
        },
        None => {
            return GateStep::Shared;
        },
    };
    let provided = match header {
        Some(h) => bearer_token(h.as_str()),
        None => None,
    };
    let good = match provided {
        Some(t) => same(t.as_str(), expected.expose()),
        None => false,
    };
    if good {
        GateStep::Shared
    } else {
        GateStep::Refuse(Reply::coded(401, "Unauthorized", "auth_error", "invalid_credential"))
    }
}

/// Decides what is done with a request: `cert` says whether the client showed a
/// certificate, `certs_testable` whether there is something to test it with,
/// `agents_known` whether agents have tokens of their own.
pub fn auth_middleware(
    path: &str,
    mode: AuthMode,
    cert: bool,
    certs_testable: bool,
    agents_known: bool,
    inbound: &Option<InboundAuthConfig>,
    header: Option<String>,
) -> (r: GateStep)
    ensures
        r@ == gate(path@, mode, cert, certs_testable, agents_known, *inbound, opt_text(header)),
{
    if is_open_path(path) {
        return GateStep::Open;
    }
    if mode != AuthMode::Bearer {
        if cert {
            if !certs_testable {
                return GateStep::Refuse(auth_error_response(&AuthError::MtlsMisconfigured));
            }
            return GateStep::TestCert;
        }
        if mode == AuthMode::Mtls {
            return GateStep::Refuse(auth_error_response(&AuthError::MissingCredential));
        }
    }
    if agents_known {
        return match header {
            Some(h) => GateStep::TestBearer(h),
            None => GateStep::Refuse(auth_error_response(&AuthError::MissingCredential)),
        };
    }
    shared_bearer(inbound, &header)
}

/// A request whose credential was tested: let in with an identity, or answered
/// with an error.
pub enum Admission {
    Admit { by: AuthenticatedAs, identity: AgentIdentity },
    Refuse(Reply),
}

/// What an [`Admission`] says.
pub ghost enum AdmissionView {
    Admit { by: AuthenticatedAs, identity: IdentityView },
    Refuse(ReplyView),
}

impl View for Admission {
    type V = AdmissionView;

    open spec fn view(&self) -> AdmissionView {
        match self {
            Admission::Admit { by, identity } => AdmissionView::Admit {
                by: *by,
                identity: identity@,
            },
            Admission::Refuse(r) => AdmissionView::Refuse(r@),
        }
    }
}

/// What is done after a credential was tested.
pub open spec fn admission(
    by: AuthenticatedAs,
    tested: Result<IdentityView, AuthFault>,
) -> AdmissionView {
    match tested {
        Ok(identity) => AdmissionView::Admit { by, identity },
        Err(e) => AdmissionView::Refuse(auth_reply(e)),
    }
}

/// What is done after a credential was tested.
pub fn after_test(by: AuthenticatedAs, tested: Result<AgentIdentity, AuthError>) -> (r: Admission)
    ensures
        r@ == admission(
            by,
            match tested {
                Ok(i) => Ok(i@),
                Err(e) => Err(e@),
            },
        ),
{
    match tested {
        Ok(identity) => Admission::Admit { by, identity },
        Err(e) => Admission::Refuse(auth_error_response(&e)),
    }
}

/// Where only certificates count, no request is let in by a token.
pub proof fn law_mtls_takes_no_tokens(
    path: Seq<char>,
    cert: bool,
    certs_testable: bool,
    agents_known: bool,
    inbound: Option<InboundAuthConfig>,
    header: Option<Seq<char>>,
)
    requires
        !open_path(path),
    ensures
        ({
            let g = gate(path, AuthMode::Mtls, cert, certs_testable, agents_known, inbound, header);
            g is TestCert || g is Refuse
        }),
{
}

/// Where agents have tokens of their own, only the open paths are served without
/// an identity.
pub proof fn law_known_agents_must_show_who_they_are(
    path: Seq<char>,
    mode: AuthMode,
    cert: bool,
    certs_testable: bool,
    inbound: Option<InboundAuthConfig>,
    header: Option<Seq<char>>,
)
    requires
        !open_path(path),
    ensures
        ({
            let g = gate(path, mode, cert, certs_testable, true, inbound, header);
            g is TestCert || g is TestBearer || g is Refuse
        }),
{
}

/// Health, readiness and version can be asked for by everybody, whatever is configured, and
/// no other path is open.
pub proof fn law_open_paths(
    path: Seq<char>,
    mode: AuthMode,
    cert: bool,
    certs_testable: bool,
    agents_known: bool,
    inbound: Option<InboundAuthConfig>,
    header: Option<Seq<char>>,
)
    ensures
        gate(path, mode, cert, certs_testable, agents_known, inbound, header) is Open <==> path
            == "/livez"@ || path == "/readyz"@ || path == "/version"@ || path == "/health"@,
{
}

/// A certificate that is shown is tested wherever certificates count and can be tested; a
/// header is tested where agents have tokens of their own and no certificate decides. What
/// is tested is the header that was sent.
pub proof fn law_what_is_tested(
    path: Seq<char>,
    mode: AuthMode,
    cert: bool,
    certs_testable: bool,
    agents_known: bool,
    inbound: Option<InboundAuthConfig>,
    header: Option<Seq<char>>,
)
    requires
        path != "/livez"@ && path != "/readyz"@ && path != "/version"@ && path != "/health"@,
    ensures
        ({
            let g = gate(path, mode, cert, certs_testable, agents_known, inbound, header);
            &&& g is TestCert <==> (mode == AuthMode::Mtls || mode == AuthMode::Both) && cert
                && certs_testable
            &&& g is TestBearer <==> agents_known && header is Some && (mode == AuthMode::Bearer
                || (mode == AuthMode::Both && !cert))
            &&& g matches GateView::TestBearer(h) ==> Some(h) == header
            &&& mode == AuthMode::Mtls && !cert ==> (g matches GateView::Refuse(r) && r.status
                == 401)
            &&& mode != AuthMode::Bearer && cert && !certs_testable ==> (g matches GateView::Refuse(
                r,
            ) && r.status == 500)
            &&& mode == AuthMode::Bearer && agents_known && header is None ==> (
            g matches GateView::Refuse(r) && r.status == 401)
        }),
{
}

/// Where agents have no tokens of their own, a request is served if no shared token is
/// configured, or if it shows that very token as a bearer token; all others are answered
/// 401.
pub proof fn law_shared_token_is_asked_for(
    path: Seq<char>,
    inbound: Option<InboundAuthConfig>,
    header: Option<Seq<char>>,
    token: Seq<char>,
)
    requires
        path != "/livez"@ && path != "/readyz"@ && path != "/version"@ && path != "/health"@,
    ensures
        ({
            let g = gate(path, AuthMode::Bearer, false, false, false, inbound, header);
            &&& inbound is None ==> g is Shared
            &&& inbound matches Some(c) ==> {
                &&& c.mode@ != "bearer"@ || c.token is None ==> g is Shared
                &&& c.mode@ == "bearer"@ && c.token is Some && c.token->Some_0@ == token ==> {
                    &&& g is Shared <==> header == Some("Bearer "@ + token)
                    &&& !(g is Shared) ==> (g matches GateView::Refuse(r) && r.status == 401)
                }
            }
        }),
{
    reveal_strlit("Bearer ");
    let n = "Bearer "@.len() as int;
    let full = "Bearer "@ + token;
    assert(full.skip(n) =~= token);
    assert(full.take(n) =~= "Bearer "@);
    if let Some(h) = header {
        if bearer_in(h) == Some(token) {
            assert(h =~= h.take(n) + h.skip(n));
        }
    }
}

/// A request is let in exactly if its credential passed the test, as the agent that was
/// found and by the means that was tested; else it is answered with the fault.
pub proof fn law_tested_requests_are_let_in(
    by: AuthenticatedAs,
    tested: Result<IdentityView, AuthFault>,
)
    ensures
        tested matches Ok(who) ==> (admission(by, tested) matches AdmissionView::Admit {
            by: how,
            identity,
        } && how == by && identity == who),
        tested matches Err(e) ==> (admission(by, tested) matches AdmissionView::Refuse(said)
            && said == auth_reply(e)),
{
}

} // verus!
