//! `agent`: the agents, for operators.
use vstd::prelude::*;

use crate::cli::client::{op_call, Answer, AnswerView, Call, CallView, CliClient, CliError, CliFault};
use crate::cli::commands::oauth::{is_label, label_chars, label_error, label_fault};
use crate::cli::commands::registration::{planned, with_some};
use crate::json::{
    holds, jempty, jopt_str, jopt_strs, jstr, jstrs, lemma_with_holds, opt_json, Json, JsonView,
};
use crate::registrations::auth_spec::{auth_json, auth_of, law_auth_json_round_trip, AuthView};
use crate::text::{
    cat, cat3, cat4, opt_text, quoted, quoted_text, same, split_once, split_once_spec, starts,
    strip_prefix, texts,
};

verus! {

/// The commands on agents.
pub enum AgentCmd {
    /// Lists the agents.
    List { include_revoked: bool },
    /// Shows one agent.
    Get { id: String },
    /// Makes an agent.
    Register {
        name: String,
        description: Option<String>,
        allowlist: Option<Vec<String>>,
        denylist: Option<Vec<String>>,
    },
    /// Changes what an agent may call. A list that is one dash is taken away.
    Modify { id: String, allowlist: Option<Vec<String>>, denylist: Option<Vec<String>> },
    /// Shuts an agent out.
    Revoke { id: String, reason: Option<String> },
    /// Ties an agent to a certificate, or unties it.
    SetCertIdentity { id: String, cert_identity: Option<String>, clear: bool },
    /// Gives an agent a credential of its own for a registration.
    SetCredential(SetCredentialArgs),
    /// Takes an agent's own credential for a registration away.
    UnsetCredential { id: String, registration: String },
    /// An agent's own credentials.
    Credentials { cmd: AgentCredentialsCmd },
}

/// The commands on an agent's own credentials.
pub enum AgentCredentialsCmd {
    /// Lists them.
    List { id: String },
}

/// An agent's own credential for a registration.
pub struct SetCredentialArgs {
    pub id: String,
    pub registration: String,
    /// `bearer=<ENV_VAR>` or `header=<NAME>:<ENV_VAR>`.
    pub auth: Option<String>,
    /// The agent calls without a credential.
    pub no_auth: bool,
    /// The label of an OAuth session.
    pub oauth_session: Option<String>,
}

/// The path of an agent.
pub open spec fn agent_path(id: Seq<char>) -> Seq<char> {
    "/admin/operator/agents/"@ + id
}

/// The path of an agent's own credential for a registration.
pub open spec fn credential_path(id: Seq<char>, registration: Seq<char>) -> Seq<char> {
    agent_path(id) + "/credentials/"@ + registration
}

/// The JSON form of an agent's own credential: no authentication where that was
/// said, then an OAuth session, then what `--auth` says.
pub open spec fn own_credential(args: SetCredentialArgs) -> Result<AuthView, CliFault> {
    if args.no_auth {
        Ok(AuthView::NoAuth)
    } else {
        match (args.oauth_session, args.auth) {
            (Some(label), _) => if !label_chars(label@) {
                Err(label_fault(label@))
            } else {
                Ok(
                    AuthView::OauthDeviceCode {
                        client_id: ""@,
                        scopes: Seq::empty(),
                        device_url: ""@,
                        token_url: ""@,
                        session_label: Some(label@),
                    },
                )
            },
            (None, None) => Err(
                CliFault::Usage(
                    "must provide one of: --auth bearer=ENV, --auth header=H:ENV, --no-auth, --oauth-session LABEL"@,
                ),
            ),
            (None, Some(a)) => auth_flag(a@),
        }
    }
}

/// What `--auth` says of an agent's own credential.
pub open spec fn auth_flag(auth: Seq<char>) -> Result<AuthView, CliFault> {
    if starts(auth, "bearer="@) {
        let env_var = auth.skip("bearer="@.len() as int);
        if env_var.len() == 0 {
            Err(CliFault::Usage("--auth bearer= requires an env var name"@))
        } else {
            Ok(AuthView::Bearer { env_var })
        }
    } else if starts(auth, "header="@) {
        match split_once_spec(auth.skip("header="@.len() as int), ':') {
            None => Err(CliFault::Usage("--auth header= requires <Header-Name>:<ENV_VAR>"@)),
            Some((header, env_var)) => if header.len() == 0 || env_var.len() == 0 {
                Err(CliFault::Usage("--auth header= requires non-empty header and env var"@))
            } else {
                Ok(AuthView::Header { header, env_var })
            },
        }
    } else {
        Err(
            CliFault::Usage(
                "--auth must start with 'bearer=' or 'header='; got: "@ + quoted_text(auth),
            ),
        )
    }
}

/// What a JSON value or an error is to be.
pub open spec fn credential_json(r: Result<Json, CliError>, want: Result<AuthView, CliFault>) -> bool {
    match r {
        Ok(j) => want is Ok && j@ == auth_json(want->Ok_0),
        Err(e) => want == Err::<AuthView, CliFault>(e@),
    }
}

fn auth_flag_json(auth: &str) -> (r: Result<Json, CliError>)
    ensures
        credential_json(r, auth_flag(auth@)),
{
    if let Some(var) = strip_prefix(auth, "bearer=") {
        if var.as_str().is_empty() {
            return Err(CliError::Usage("--auth bearer= requires an env var name".to_owned()));
        }
        return Ok(
            Json::object().with("kind", Json::text("bearer")).with(
                "env_var",
                Json::text(var.as_str()),
            ),
        );
    }
    if let Some(rest) = strip_prefix(auth, "header=") {
        return match split_once(rest.as_str(), ':') {
            None => Err(
                CliError::Usage("--auth header= requires <Header-Name>:<ENV_VAR>".to_owned()),
            ),
            Some((header, var)) => if header.as_str().is_empty() || var.as_str().is_empty() {
                Err(
                    CliError::Usage(
                        "--auth header= requires non-empty header and env var".to_owned(),
                    ),
                )
            } else {
                Ok(
                    Json::object().with("kind", Json::text("header")).with(
                        "header",
                        Json::text(header.as_str()),
                    ).with("env_var", Json::text(var.as_str())),
                )
            },
        };
    }
    Err(
        CliError::Usage(
            cat(
                "--auth must start with 'bearer=' or 'header='; got: ",
                quoted(auth).as_str(),
            ),
        ),
    )
}

/// The JSON form of an agent's own credential.
pub fn build_auth_spec(args: &SetCredentialArgs) -> (r: Result<Json, CliError>)
    ensures
        credential_json(r, own_credential(*args)),
{
    if args.no_auth {
        return Ok(Json::object().with("kind", Json::text("none")));
    }
    if let Some(label) = &args.oauth_session {
        if !is_label(label.as_str()) {
            return Err(label_error(label.as_str()));
        }
        let none: Vec<Json> = Vec::new();
        proof {
            assert(crate::json::views(none@) =~= Seq::<Seq<char>>::empty().map_values(
                |s: Seq<char>| jstr(s),
            ));
        }
        return Ok(
            Json::object().with("kind", Json::text("oauth_device_code")).with(
                "client_id",
                Json::text(""),
            ).with("scopes", Json::array(none)).with("device_url", Json::text("")).with(
                "token_url",
                Json::text(""),
            ).with("session_label", Json::text(label.as_str())),
        );
    }
    match &args.auth {
        Some(a) => auth_flag_json(a.as_str()),
        None => Err(
            CliError::Usage(
                "must provide one of: --auth bearer=ENV, --auth header=H:ENV, --no-auth, --oauth-session LABEL".to_owned(),
            ),
        ),
    }
}

/// What becomes of a list: nothing where none was given, nothing but its removal
/// where it is one dash, and otherwise the list.
pub open spec fn replaced(input: Option<Vec<String>>) -> Option<JsonView> {
    match input {
        None => None,
        Some(v) => if texts(v@) == seq!["-"@] {
            Some(JsonView::Null)
        } else {
            Some(jstrs(texts(v@)))
        },
    }
}

/// What becomes of a list.
pub fn option_replace(input: &Option<Vec<String>>) -> (r: Option<Json>)
    ensures
        opt_json(r) == replaced(*input),
{
    match input {
        None => None,
        Some(v) => {
            if v.len() == 1 && same(v[0].as_str(), "-") {
                assert(texts(v@) =~= seq!["-"@]);
                Some(Json::Null)
            } else {
                assert(texts(v@) == seq!["-"@] ==> v@.len() == 1 && v@[0]@ == texts(v@)[0]);
                Some(Json::texts(v))
            }
        },
    }
}

/// What is sent to change an agent: only the lists that change.
pub open spec fn modify_body(allowlist: Option<Vec<String>>, denylist: Option<Vec<String>>) ->
    JsonView {
    with_some(
        with_some(jempty(), "allowlist"@, replaced(allowlist)),
        "denylist"@,
        replaced(denylist),
    )
}

/// What is sent to tie an agent to a certificate: nothing unties it.
pub open spec fn cert_body(cert_identity: Option<Seq<char>>, clear: bool) -> JsonView {
    jempty().with(
        "cert_identity"@,
        if clear || cert_identity == Some("-"@) {
            JsonView::Null
        } else {
            jopt_str(cert_identity)
        },
    )
}

/// What is shown where an agent's own credential was taken away.
pub open spec fn removed_json(id: Seq<char>, registration: Seq<char>) -> JsonView {
    jempty().with("agent"@, jstr(id)).with("registration"@, jstr(registration)).with(
        "removed"@,
        JsonView::Bool(true),
    )
}

/// What a command on agents comes to, given the operator's token.
pub open spec fn agent_call(cmd: AgentCmd, t: Seq<char>) -> Result<CallView, CliFault> {
    match cmd {
        AgentCmd::List { include_revoked } => Ok(
            op_call(
                "GET"@,
                if include_revoked {
                    "/admin/operator/agents?include_revoked=true"@
                } else {
                    "/admin/operator/agents"@
                },
                t,
                None,
                AnswerView::Member("agents"@),
            ),
        ),
        AgentCmd::Get { id } => Ok(op_call("GET"@, agent_path(id@), t, None, AnswerView::Whole)),
        AgentCmd::Register { name, description, allowlist, denylist } => Ok(
            op_call(
                "POST"@,
                "/admin/operator/agents"@,
                t,
                Some(
                    jempty().with("name"@, jstr(name@)).with(
                        "description"@,
                        jopt_str(opt_text(description)),
                    ).with("allowlist"@, jopt_strs(allowlist)).with(
                        "denylist"@,
                        jopt_strs(denylist),
                    ),
                ),
                AnswerView::Whole,
            ),
        ),
        AgentCmd::Modify { id, allowlist, denylist } => Ok(
            op_call(
                "PATCH"@,
                agent_path(id@),
                t,
                Some(modify_body(allowlist, denylist)),
                AnswerView::Nothing,
            ),
        ),
        AgentCmd::Revoke { id, .. } => Ok(
            op_call("POST"@, agent_path(id@) + "/revoke"@, t, None, AnswerView::Nothing),
        ),
        AgentCmd::SetCertIdentity { id, cert_identity, clear } => Ok(
            op_call(
                "PATCH"@,
                agent_path(id@) + "/cert_identity"@,
                t,
                Some(cert_body(opt_text(cert_identity), clear)),
                AnswerView::Nothing,
            ),
        ),
        AgentCmd::SetCredential(args) => match own_credential(args) {
            Err(e) => Err(e),
            Ok(a) => Ok(
                op_call(
                    "PUT"@,
                    credential_path(args.id@, args.registration@),
                    t,
                    Some(jempty().with("auth_spec"@, auth_json(a))),
                    AnswerView::Whole,
                ),
            ),
        },
        AgentCmd::UnsetCredential { id, registration } => Ok(
            op_call(
                "DELETE"@,
                credential_path(id@, registration@),
                t,
                None,
                AnswerView::Own(removed_json(id@, registration@)),
            ),
        ),
        AgentCmd::Credentials { cmd: AgentCredentialsCmd::List { id } } => Ok(
            op_call(
                "GET"@,
                agent_path(id@) + "/credentials"@,
                t,
                None,
                AnswerView::Member("overrides"@),
            ),
        ),
    }
}

/// What a command on agents comes to.
pub open spec fn agent_plan(cmd: AgentCmd, token: Option<Seq<char>>) -> Result<CallView, CliFault> {
    match token {
        None => Err(CliFault::MissingOpToken),
        Some(t) => agent_call(cmd, t),
    }
}

fn with_opt(j: Json, key: &str, v: Option<Json>) -> (r: Json)
    requires
        j is Object,
    ensures
        r@ == with_some(j@, key@, opt_json(v)),
        r is Object,
{
    match v {
        Some(x) => j.with(key, x),
        None => j,
    }
}

/// What a command on agents asks of the daemon.
pub fn run(cmd: AgentCmd, token: Option<String>) -> (r: Result<Call, CliError>)
    ensures
        planned(r, agent_plan(cmd, opt_text(token))),
{
    let t = match CliClient::op_token(token) {
        Ok(t) => t,
        Err(e) => return Err(e),
    };
    match cmd {
        AgentCmd::List { include_revoked } => {
            let path = if include_revoked {
                "/admin/operator/agents?include_revoked=true".to_owned()
            } else {
                "/admin/operator/agents".to_owned()
            };
            Ok(Call::operator("GET", path, t, None, Answer::Member("agents")))
        },
        AgentCmd::Get { id } => Ok(
            Call::operator(
                "GET",
                cat("/admin/operator/agents/", id.as_str()),
                t,
                None,
                Answer::Whole,
            ),
        ),
        AgentCmd::Register { name, description, allowlist, denylist } => {
            let body = Json::object().with("name", Json::text(name.as_str())).with(
                "description",
                Json::opt_text(&description),
            ).with("allowlist", Json::opt_texts(&allowlist)).with(
                "denylist",
                Json::opt_texts(&denylist),
            );
            Ok(
                Call::operator(
                    "POST",
                    "/admin/operator/agents".to_owned(),
                    t,
                    Some(body),
                    Answer::Whole,
                ),
            )
        },
        AgentCmd::Modify { id, allowlist, denylist } => {
            let body = with_opt(
                with_opt(Json::object(), "allowlist", option_replace(&allowlist)),
                "denylist",
                option_replace(&denylist),
            );
            Ok(
                Call::operator(
                    "PATCH",
                    cat("/admin/operator/agents/", id.as_str()),
                    t,
                    Some(body),
                    Answer::Nothing,
                ),
            )
        },
        AgentCmd::Revoke { id, reason: _ } => Ok(
            Call::operator(
                "POST",
                cat3("/admin/operator/agents/", id.as_str(), "/revoke"),
                t,
                None,
                Answer::Nothing,
            ),
        ),
        AgentCmd::SetCertIdentity { id, cert_identity, clear } => {
            let dash = match &cert_identity {
                Some(c) => same(c.as_str(), "-"),
                None => false,
            };
            let value = if clear || dash {
                Json::Null
            } else {
                Json::opt_text(&cert_identity)
            };
            let body = Json::object().with("cert_identity", value);
            Ok(
                Call::operator(
                    "PATCH",
                    cat3("/admin/operator/agents/", id.as_str(), "/cert_identity"),
                    t,
                    Some(body),
                    Answer::Nothing,
                ),
            )
        },
        AgentCmd::SetCredential(args) => match build_auth_spec(&args) {
            Err(e) => Err(e),
            Ok(a) => {
                let path = cat4(
                    "/admin/operator/agents/",
                    args.id.as_str(),
                    "/credentials/",
                    args.registration.as_str(),
                );
                let body = Json::object().with("auth_spec", a);
                Ok(Call::operator("PUT", path, t, Some(body), Answer::Whole))
            },
        },
        AgentCmd::UnsetCredential { id, registration } => {
            let path = cat4(
                "/admin/operator/agents/",
                id.as_str(),
                "/credentials/",
                registration.as_str(),
            );
            let own = Json::object().with("agent", Json::text(id.as_str())).with(
                "registration",
                Json::text(registration.as_str()),
            ).with("removed", Json::Bool(true));
            Ok(Call::operator("DELETE", path, t, None, Answer::Own(own)))
        },
        AgentCmd::Credentials { cmd: AgentCredentialsCmd::List { id } } => Ok(
            Call::operator(
                "GET",
                cat3("/admin/operator/agents/", id.as_str(), "/credentials"),
                t,
                None,
                Answer::Member("overrides"),
            ),
        ),
    }
}

/// A list that is not named is left alone, one that is a dash is taken away, and
/// any other is put in place.
pub proof fn law_lists_change_as_named(allowlist: Option<Vec<String>>, denylist: Option<Vec<String>>)
    ensures
        crate::json::member(modify_body(allowlist, denylist), "allowlist"@) == replaced(allowlist),
        crate::json::member(modify_body(allowlist, denylist), "denylist"@) == replaced(denylist),
{
    broadcast use crate::json::lemma_member_with;

    reveal_strlit("allowlist");
    reveal_strlit("denylist");
    assert("allowlist"@.len() != "denylist"@.len());
}

/// An agent's own credential that is sent is one that the daemon understands, as it
/// was meant.
pub proof fn law_own_credential_is_understood(args: SetCredentialArgs)
    ensures
        own_credential(args) matches Ok(a) ==> auth_of(auth_json(a)) == Some(a),
{
    if let Ok(a) = own_credential(args) {
        law_auth_json_round_trip(a);
    }
}

/// Every command goes to the agent that it names, or to the list of agents, with the
/// operator's token; only those that look use `GET`.
pub proof fn law_commands_reach_their_agent(cmd: AgentCmd, t: Seq<char>)
    ensures
        agent_plan(cmd, None) == Err::<CallView, CliFault>(CliFault::MissingOpToken),
        agent_plan(cmd, Some(t)) matches Ok(c) ==> {
            &&& c.token == t && !c.by_agent
            &&& c.method == "GET"@ <==> cmd is List || cmd is Get || cmd is Credentials
            &&& cmd matches AgentCmd::Get { id } ==> c.path == "/admin/operator/agents/"@ + id@
            &&& cmd matches AgentCmd::Modify { id, .. } ==> c.path == "/admin/operator/agents/"@
                + id@ && c.method == "PATCH"@
            &&& cmd matches AgentCmd::Revoke { id, .. } ==> c.path == "/admin/operator/agents/"@
                + id@ + "/revoke"@ && c.method == "POST"@
            &&& cmd matches AgentCmd::SetCertIdentity { id, .. } ==> c.path
                == "/admin/operator/agents/"@ + id@ + "/cert_identity"@ && c.method == "PATCH"@
            &&& cmd matches AgentCmd::SetCredential(args) ==> c.path == "/admin/operator/agents/"@
                + args.id@ + "/credentials/"@ + args.registration@ && c.method == "PUT"@
            &&& cmd matches AgentCmd::UnsetCredential { id, registration } ==> c.path
                == "/admin/operator/agents/"@ + id@ + "/credentials/"@ + registration@ && c.method
                == "DELETE"@
            &&& cmd matches AgentCmd::Credentials { cmd: AgentCredentialsCmd::List { id } }
                ==> c.path == "/admin/operator/agents/"@ + id@ + "/credentials"@
            &&& cmd is Register ==> c.path == "/admin/operator/agents"@ && c.method == "POST"@
            &&& cmd matches AgentCmd::List { include_revoked: true } ==> c.path
                == "/admin/operator/agents?include_revoked=true"@
            &&& cmd matches AgentCmd::List { include_revoked: false } ==> c.path
                == "/admin/operator/agents"@
        },
        agent_plan(cmd, Some(t)) is Err ==> cmd is SetCredential,
{
    reveal_strlit("GET");
    reveal_strlit("PATCH");
    reveal_strlit("POST");
    reveal_strlit("PUT");
    reveal_strlit("DELETE");
    assert("GET"@[0] == 'G' && "PATCH"@[0] == 'P' && "POST"@[0] == 'P' && "PUT"@[0] == 'P');
    assert("DELETE"@[0] == 'D');
}

/// An agent is registered with the name, description and lists that the operator gives.
pub proof fn law_registration_says_what_was_given(
    name: String,
    description: Option<String>,
    allowlist: Option<Vec<String>>,
    denylist: Option<Vec<String>>,
    t: Seq<char>,
)
    ensures
        agent_plan(
            AgentCmd::Register { name, description, allowlist, denylist },
            Some(t),
        ) matches Ok(c) && (c.body matches Some(j) && {
            &&& holds(j, "name"@, JsonView::Str(name@))
            &&& holds(j, "description"@, jopt_str(opt_text(description)))
            &&& holds(j, "allowlist"@, jopt_strs(allowlist))
            &&& holds(j, "denylist"@, jopt_strs(denylist))
            &&& j->Object_0.len() == 4
        }),
{
    broadcast use lemma_with_holds;

}

/// A list that was not named stays, a single dash takes it away, and any other list is put
/// in its place.
pub proof fn law_lists_are_kept_cleared_or_replaced(v: Vec<String>)
    ensures
        replaced(None) is None,
        v@.len() == 1 && v@[0]@ == "-"@ ==> replaced(Some(v)) == Some(JsonView::Null),
        !(v@.len() == 1 && v@[0]@ == "-"@) ==> replaced(Some(v)) == Some(
            JsonView::Array(Seq::new(v@.len(), |i: int| JsonView::Str(v@[i]@))),
        ),
{
    if v@.len() == 1 && v@[0]@ == "-"@ {
        assert(texts(v@) =~= seq!["-"@]);
    } else {
        if texts(v@) == seq!["-"@] {
            assert(texts(v@)[0] == v@[0]@);
        }
        assert(jstrs(texts(v@))->Array_0 =~= Seq::new(
            v@.len(),
            |i: int| JsonView::Str(v@[i]@),
        ));
    }
}

/// The identity of a certificate is set to what was given, and taken away by a dash or where
/// the operator says so.
pub proof fn law_cert_identity_is_set_or_cleared(id: Seq<char>, clear: bool)
    ensures
        cert_body(Some(id), clear) == JsonView::Object(
            seq![
                (
                    "cert_identity"@,
                    if clear || id == "-"@ {
                        JsonView::Null
                    } else {
                        JsonView::Str(id)
                    },
                ),
            ],
        ),
        cert_body(None, clear) == JsonView::Object(seq![("cert_identity"@, JsonView::Null)]),
{
    assert(cert_body(Some(id), clear)->Object_0 =~= seq![
        (
            "cert_identity"@,
            if clear || id == "-"@ {
                JsonView::Null
            } else {
                JsonView::Str(id)
            },
        ),
    ]);
    assert(cert_body(None, clear)->Object_0 =~= seq![("cert_identity"@, JsonView::Null)]);
}

/// A credential of an agent's own is none, a session, a variable as a bearer token, or a
/// variable under a header, as the flags say.
pub proof fn law_own_credentials_are_as_the_flags_say(
    args: SetCredentialArgs,
    header: Seq<char>,
    var: Seq<char>,
)
    ensures
        args.no_auth ==> own_credential(args) == Ok::<AuthView, CliFault>(AuthView::NoAuth),
        !args.no_auth && args.oauth_session is Some ==> (own_credential(args) matches Ok(
            AuthView::OauthDeviceCode { session_label, .. },
        ) ==> session_label == Some(args.oauth_session->Some_0@)),
        !args.no_auth && args.oauth_session is None && args.auth is None ==> (own_credential(
            args,
        ) matches Err(e) && e is Usage),
        !args.no_auth && args.oauth_session is None && args.auth is Some && args.auth->Some_0@
            == "bearer="@ + var && var.len() > 0 ==> own_credential(args) == Ok::<
            AuthView,
            CliFault,
        >(AuthView::Bearer { env_var: var }),
        !args.no_auth && args.oauth_session is None && args.auth is Some && args.auth->Some_0@
            == "header="@ + header + ":"@ + var && header.len() > 0 && !header.contains(':')
            && var.len() > 0 ==> own_credential(args) == Ok::<AuthView, CliFault>(
            AuthView::Header { header, env_var: var },
        ),
{
    reveal_strlit("bearer=");
    reveal_strlit("header=");
    reveal_strlit(":");
    let b = "bearer="@ + var;
    assert(b.take(7) =~= "bearer="@);
    assert(b.skip(7) =~= var);
    let h = "header="@ + header + ":"@ + var;
    assert(h.take(7) =~= "header="@);
    assert(h[0] == 'h');
    assert(!starts(h, "bearer="@)) by {
        if starts(h, "bearer="@) {
            assert(h.take(7)[0] == "bearer="@[0]);
        }
    }
    let rest = h.skip(7);
    assert(rest =~= header + ":"@ + var);
    if !header.contains(':') {
        assert forall|j: int| 0 <= j < header.len() implies rest[j] != ':' by {
            assert(rest[j] == header[j]);
            assert(header.contains(header[j]));
        }
        crate::text::lemma_index_of(rest, ':', header.len() as int);
        assert(rest.take(header.len() as int) =~= header);
        assert(rest.skip(header.len() as int + 1) =~= var);
    }
}

/// What a command shows is what it asked for: the list of agents or of credentials, the whole
/// answer, nothing where the change says enough, and for a credential that was taken away
/// whose and which it was. A credential is sent as the daemon reads it.
pub proof fn law_answers_are_what_was_asked_for(cmd: AgentCmd, t: Seq<char>)
    ensures
        agent_plan(cmd, Some(t)) matches Ok(c) ==> {
            &&& cmd is List ==> c.answer == AnswerView::Member("agents"@)
            &&& cmd is Credentials ==> c.answer == AnswerView::Member("overrides"@)
            &&& cmd is Get || cmd is Register || cmd is SetCredential ==> c.answer is Whole
            &&& cmd is Modify || cmd is Revoke || cmd is SetCertIdentity ==> c.answer is Nothing
            &&& cmd is List || cmd is Get || cmd is Revoke || cmd is UnsetCredential
                || cmd is Credentials ==> c.body is None
            &&& cmd matches AgentCmd::UnsetCredential { id, registration } ==> c.answer
                == AnswerView::Own(
                JsonView::Object(
                    seq![
                        ("agent"@, JsonView::Str(id@)),
                        ("registration"@, JsonView::Str(registration@)),
                        ("removed"@, JsonView::Bool(true)),
                    ],
                ),
            )
            &&& cmd matches AgentCmd::SetCredential(args) ==> own_credential(args) is Ok && c.body
                == Some(
                JsonView::Object(seq![("auth_spec"@, auth_json(own_credential(args)->Ok_0))]),
            )
        },
{
    if let AgentCmd::UnsetCredential { id, registration } = cmd {
        assert(removed_json(id@, registration@)->Object_0 =~= seq![
            ("agent"@, JsonView::Str(id@)),
            ("registration"@, JsonView::Str(registration@)),
            ("removed"@, JsonView::Bool(true)),
        ]);
    }
    if let AgentCmd::SetCredential(args) = cmd {
        if let Ok(a) = own_credential(args) {
            assert(jempty().with("auth_spec"@, auth_json(a))->Object_0 =~= seq![
                ("auth_spec"@, auth_json(a)),
            ]);
        }
    }
}

/// A session is taken as a credential exactly if its label has only letters, digits, dashes
/// and underscores; the empty parts of a flag are faults of the command line.
pub proof fn law_bad_flags_are_faults(args: SetCredentialArgs, var: Seq<char>)
    ensures
        !args.no_auth && args.oauth_session is Some ==> (own_credential(args) is Ok <==> label_chars(
            args.oauth_session->Some_0@,
        )),
        own_credential(args) matches Err(e) ==> e is Usage,
        auth_flag("bearer="@) is Err,
        auth_flag("header="@ + var) is Ok ==> var.contains(':'),
{
    reveal_strlit("bearer=");
    reveal_strlit("header=");
    assert("bearer="@.take(7) =~= "bearer="@);
    let h = "header="@ + var;
    assert(h.take(7) =~= "header="@);
    assert(h.skip(7) =~= var);
    crate::text::lemma_index_of_bounds(var, ':');
    assert(h[0] == 'h' && "bearer="@[0] == 'b');
    assert(!starts(h, "bearer="@)) by {
        if starts(h, "bearer="@) {
            assert(h.take(7)[0] == h[0]);
        }
    }
}

/// A credential is written exactly as it was meant, and an error is the one that was.
pub proof fn law_credentials_are_written_as_meant(
    r: Result<Json, CliError>,
    want: Result<AuthView, CliFault>,
)
    requires
        credential_json(r, want),
    ensures
        r is Ok <==> want is Ok,
        r is Ok ==> r->Ok_0@ == auth_json(want->Ok_0) && auth_of(r->Ok_0@) == Some(want->Ok_0),
        r is Err ==> r->Err_0@ == want->Err_0,
{
    if want is Ok {
        law_auth_json_round_trip(want->Ok_0);
    }
}

} // verus!
