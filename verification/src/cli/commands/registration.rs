//! What the commands for tools, models and infrastructure share.
use vstd::prelude::*;

use crate::cli::client::{op_call, AnswerView, Answer, Call, CallView, CliClient, CliError, CliFault};
use crate::json::{holds, jempty, jnat, jstr, lemma_with_holds, opt_json, Json, JsonView};
use crate::registrations::auth_spec::{auth_of, law_auth_json_round_trip, AuthView};
use crate::text::{
    cat, cat3, opt_text, pair_views, same, split_once, split_once_spec, starts, strip_prefix, trim,
    trimmed,
};

verus! {

/// The kinds of registrations.
#[derive(Debug, Clone, Copy)]
pub enum CliKind {
    Tool,
    Model,
    Infra,
}

/// The part of a path that stands for a kind.
pub open spec fn segment(kind: CliKind) -> Seq<char> {
    match kind {
        CliKind::Tool => "tools"@,
        CliKind::Model => "models"@,
        CliKind::Infra => "infra"@,
    }
}

/// The member of a list's answer that holds the registrations.
pub open spec fn list_member(kind: CliKind) -> Seq<char> {
    match kind {
        CliKind::Tool => "tools"@,
        CliKind::Model => "models"@,
        CliKind::Infra => "infras"@,
    }
}

impl CliKind {
    /// The part of a path that stands for the kind.
    pub fn url_segment(self) -> (r: &'static str)
        ensures
            r@ == segment(self),
    {
        match self {
            CliKind::Tool => "tools",
            CliKind::Model => "models",
            CliKind::Infra => "infra",
        }
    }
}

/// What can be said of a registration.
#[derive(Debug)]
pub struct PutOpts {
    /// The address that requests go to.
    pub upstream: String,
    /// `none`, `bearer=<ENV_VAR>` or `header:<NAME>=<ENV_VAR>`.
    pub auth: Option<String>,
    /// `direct` or `proxied`.
    pub egress: Option<String>,
    /// The seconds that a request may take.
    pub timeout_request: Option<u64>,
    /// The seconds that an upstream may stay silent.
    pub timeout_idle: Option<u64>,
    /// The most bytes that an answer of the upstream may have.
    pub body_limit: Option<u64>,
    /// What else is said of it, as names and values.
    pub metadata: Vec<(String, String)>,
    pub description: Option<String>,
}

/// What a [`PutOpts`] says.
pub ghost struct PutOptsView {
    pub upstream: Seq<char>,
    pub auth: Option<Seq<char>>,
    pub egress: Option<Seq<char>>,
    pub timeout_request: Option<u64>,
    pub timeout_idle: Option<u64>,
    pub body_limit: Option<u64>,
    pub metadata: Seq<(Seq<char>, Seq<char>)>,
    pub description: Option<Seq<char>>,
}

impl View for PutOpts {
    type V = PutOptsView;

    open spec fn view(&self) -> PutOptsView {
        PutOptsView {
            upstream: self.upstream@,
            auth: opt_text(self.auth),
            egress: opt_text(self.egress),
            timeout_request: self.timeout_request,
            timeout_idle: self.timeout_idle,
            body_limit: self.body_limit,
            metadata: pair_views(self.metadata@),
            description: opt_text(self.description),
        }
    }
}

/// A name and a value, read from `name=value`; the name must not be empty. The
/// value begins behind the first `=`.
pub open spec fn metadata_of(s: Seq<char>) -> Result<(Seq<char>, Seq<char>), Seq<char>> {
    match split_once_spec(s, '=') {
        None => Err("metadata must be key=value, got: "@ + s),
        Some((k, v)) => if k.len() == 0 {
            Err("metadata key empty in: "@ + s)
        } else {
            Ok((k, v))
        },
    }
}

/// A name and a value, read from `name=value`.
pub fn parse_metadata_kv(s: &str) -> (r: Result<(String, String), String>)
    ensures
        match r {
            Ok(kv) => metadata_of(s@) == Ok::<(Seq<char>, Seq<char>), Seq<char>>((kv.0@, kv.1@)),
            Err(e) => metadata_of(s@) == Err::<(Seq<char>, Seq<char>), Seq<char>>(e@),
        },
{
    match split_once(s, '=') {
        None => Err(cat("metadata must be key=value, got: ", s)),
        Some((k, v)) => if k.as_str().is_empty() {
            Err(cat("metadata key empty in: ", s))
        } else {
            Ok((k, v))
        },
    }
}

/// The JSON form of an `--auth` argument; spaces around it do not count. Without
/// the argument there is none.
pub open spec fn auth_arg(spec: Option<Seq<char>>) -> Result<Option<JsonView>, CliFault> {
    match spec {
        None => Ok(None),
        Some(raw) => {
            let s = trimmed(raw);
            if s == "none"@ {
                Ok(Some(jempty().with("kind"@, jstr("none"@))))
            } else if starts(s, "bearer="@) {
                let var = s.skip("bearer="@.len() as int);
                if var.len() == 0 {
                    Err(
                        CliFault::Usage(
                            "--auth bearer=<ENV_VAR>: missing env var name in: "@ + s,
                        ),
                    )
                } else {
                    Ok(Some(jempty().with("kind"@, jstr("bearer"@)).with("env_var"@, jstr(var))))
                }
            } else if starts(s, "header:"@) {
                match split_once_spec(s.skip("header:"@.len() as int), '=') {
                    None => Err(
                        CliFault::Usage(
                            "--auth header:<NAME>=<ENV_VAR>: missing '=' in: "@ + s,
                        ),
                    ),
                    Some((header, var)) => if header.len() == 0 || var.len() == 0 {
                        Err(
                            CliFault::Usage(
                                "--auth header:<NAME>=<ENV_VAR>: name and env-var must be non-empty in: "@
                                    + s,
                            ),
                        )
                    } else {
                        Ok(
                            Some(
                                jempty().with("kind"@, jstr("header"@)).with(
                                    "header"@,
                                    jstr(header),
                                ).with("env_var"@, jstr(var)),
                            ),
                        )
                    },
                }
            } else {
                Err(
                    CliFault::Usage(
                        "--auth must be one of: none | bearer=<ENV_VAR> | header:<NAME>=<ENV_VAR>; got: "@
                            + s,
                    ),
                )
            }
        },
    }
}

/// The JSON form of an `--auth` argument, as the daemon reads it.
pub fn parse_auth_spec(spec: Option<&str>) -> (r: Result<Option<Json>, CliError>)
    ensures
        match r {
            Ok(j) => auth_arg(
                match spec {
                    Some(s) => Some(s@),
                    None => None,
                },
            ) == Ok::<Option<JsonView>, CliFault>(opt_json(j)),
            Err(e) => auth_arg(
                match spec {
                    Some(s) => Some(s@),
                    None => None,
                },
            ) == Err::<Option<JsonView>, CliFault>(e@),
        },
{
    let raw = match spec {
        Some(s) => s,
        None => return Ok(None),
    };
    let t = trim(raw);
    let s = t.as_str();
    if same(s, "none") {
        return Ok(Some(Json::object().with("kind", Json::text("none"))));
    }
    if let Some(var) = strip_prefix(s, "bearer=") {
        if var.as_str().is_empty() {
            return Err(
                CliError::Usage(cat("--auth bearer=<ENV_VAR>: missing env var name in: ", s)),
            );
        }
        return Ok(
            Some(
                Json::object().with("kind", Json::text("bearer")).with(
                    "env_var",
                    Json::text(var.as_str()),
                ),
            ),
        );
    }
    if let Some(rest) = strip_prefix(s, "header:") {
        return match split_once(rest.as_str(), '=') {
            None => Err(
                CliError::Usage(cat("--auth header:<NAME>=<ENV_VAR>: missing '=' in: ", s)),
            ),
            Some((header, var)) => if header.as_str().is_empty() || var.as_str().is_empty() {
                Err(
                    CliError::Usage(
                        cat(
                            "--auth header:<NAME>=<ENV_VAR>: name and env-var must be non-empty in: ",
                            s,
                        ),
                    ),
                )
            } else {
                Ok(
                    Some(
                        Json::object().with("kind", Json::text("header")).with(
                            "header",
                            Json::text(header.as_str()),
                        ).with("env_var", Json::text(var.as_str())),
                    ),
                )
            },
        };
    }
    Err(
        CliError::Usage(
            cat(
                "--auth must be one of: none | bearer=<ENV_VAR> | header:<NAME>=<ENV_VAR>; got: ",
                s,
            ),
        ),
    )
}

/// An object with one member more, where there is a value for it.
pub open spec fn with_some(j: JsonView, key: Seq<char>, v: Option<JsonView>) -> JsonView {
    match v {
        Some(x) => j.with(key, x),
        None => j,
    }
}

/// The JSON form of an optional text.
pub open spec fn some_str(s: Option<Seq<char>>) -> Option<JsonView> {
    match s {
        Some(t) => Some(jstr(t)),
        None => None,
    }
}

/// The JSON form of an optional number.
pub open spec fn some_nat(n: Option<u64>) -> Option<JsonView> {
    match n {
        Some(k) => Some(jnat(k as nat)),
        None => None,
    }
}

/// The timeouts that were named; none where neither was.
pub open spec fn timeouts_json(o: PutOptsView) -> Option<JsonView> {
    if o.timeout_request is None && o.timeout_idle is None {
        None
    } else {
        Some(
            with_some(
                with_some(jempty(), "request_seconds"@, some_nat(o.timeout_request)),
                "idle_seconds"@,
                some_nat(o.timeout_idle),
            ),
        )
    }
}

/// Names and values as an object; of two values under one name the later counts.
pub open spec fn metadata_object(m: Seq<(Seq<char>, Seq<char>)>) -> JsonView
    decreases m.len(),
{
    if m.len() == 0 {
        jempty()
    } else {
        metadata_object(m.drop_last()).set(m.last().0, jstr(m.last().1))
    }
}

/// What is said of a registration: only what the operator named, so that the
/// daemon fills in the rest.
pub open spec fn put_body(o: PutOptsView, auth: Option<JsonView>) -> JsonView {
    let a = jempty().with("upstream"@, jstr(o.upstream));
    let b = with_some(a, "description"@, some_str(o.description));
    let c = with_some(b, "auth"@, auth);
    let d = with_some(c, "egress"@, some_str(o.egress));
    let e = with_some(d, "timeouts"@, timeouts_json(o));
    let f = with_some(e, "body_limit_bytes"@, some_nat(o.body_limit));
    with_some(
        f,
        "metadata"@,
        if o.metadata.len() == 0 {
            None
        } else {
            Some(metadata_object(o.metadata))
        },
    )
}

/// The path of a kind.
pub open spec fn kind_path(kind: CliKind) -> Seq<char> {
    "/admin/operator/"@ + segment(kind)
}

/// The path of a registration.
pub open spec fn name_path(kind: CliKind, name: Seq<char>) -> Seq<char> {
    kind_path(kind) + "/"@ + name
}

fn path_of(kind: CliKind, name: &str) -> (r: String)
    ensures
        r@ == name_path(kind, name@),
{
    cat3(cat("/admin/operator/", kind.url_segment()).as_str(), "/", name)
}

fn with_opt(j: Json, key: &str, v: Option<Json>) -> (r: Json)
    requires
        j is Object,
    ensures
        r@ == with_some(j@, key@, opt_json(v)),
        r is Object,
{
    match v {
        Some(x) => j.with(key, x),
        None => j,
    }
}

fn opt_str(s: &Option<String>) -> (r: Option<Json>)
    ensures
        opt_json(r) == some_str(opt_text(*s)),
{
    match s {
        Some(t) => Some(Json::text(t.as_str())),
        None => None,
    }
}

fn opt_count(n: Option<u64>) -> (r: Option<Json>)
    ensures
        opt_json(r) == some_nat(n),
{
    match n {
        Some(k) => Some(Json::count(k)),
        None => None,
    }
}

fn metadata_json(m: &Vec<(String, String)>) -> (r: Json)
    ensures
        r@ == metadata_object(pair_views(m@)),
        r is Object,
{
    let mut out = Json::object();
    let mut i: usize = 0;
    assert(pair_views(m@).take(0) =~= Seq::empty());
    while i < m.len()
        invariant
            i <= m@.len(),
            out is Object,
            out@ == metadata_object(pair_views(m@).take(i as int)),
        decreases m.len() - i,
    {
        let ghost next = pair_views(m@).take(i + 1);
        assert(next.drop_last() =~= pair_views(m@).take(i as int));
        assert(next.last() == (m@[i as int].0@, m@[i as int].1@));
        out = out.set(m[i].0.as_str(), Json::text(m[i].1.as_str()));
        i = i + 1;
    }
    assert(pair_views(m@).take(m@.len() as int) =~= pair_views(m@));
    out
}

/// What is sent of a registration.
pub fn put_json(opts: &PutOpts, auth: Option<Json>) -> (r: Json)
    ensures
        r@ == put_body(opts@, opt_json(auth)),
{
    let a = Json::object().with("upstream", Json::text(opts.upstream.as_str()));
    let b = with_opt(a, "description", opt_str(&opts.description));
    let c = with_opt(b, "auth", auth);
    let d = with_opt(c, "egress", opt_str(&opts.egress));
    let timeouts = match (opts.timeout_request, opts.timeout_idle) {
        (None, None) => None,
        (request, idle) => Some(
            with_opt(
                with_opt(Json::object(), "request_seconds", opt_count(request)),
                "idle_seconds",
                opt_count(idle),
            ),
        ),
    };
    let e = with_opt(d, "timeouts", timeouts);
    let f = with_opt(e, "body_limit_bytes", opt_count(opts.body_limit));
    let metadata = if opts.metadata.len() == 0 {
        None
    } else {
        Some(metadata_json(&opts.metadata))
    };
    with_opt(f, "metadata", metadata)
}

/// A command's call, where the operator's token was found.
pub open spec fn with_token(token: Option<Seq<char>>, call: CallView) -> Result<
    CallView,
    CliFault,
> {
    match token {
        Some(_) => Ok(call),
        None => Err(CliFault::MissingOpToken),
    }
}

/// What a command comes to.
pub open spec fn planned(r: Result<Call, CliError>, want: Result<CallView, CliFault>) -> bool {
    match r {
        Ok(c) => want == Ok::<CallView, CliFault>(c@),
        Err(e) => want == Err::<CallView, CliFault>(e@),
    }
}

/// Lists the registrations of a kind.
pub fn do_list(kind: CliKind, token: Option<String>) -> (r: Result<Call, CliError>)
    ensures
        planned(
            r,
            with_token(
                opt_text(token),
                op_call(
                    "GET"@,
                    kind_path(kind),
                    opt_text(token)->0,
                    None,
                    AnswerView::Member(list_member(kind)),
                ),
            ),
        ),
{
    let t = match CliClient::op_token(token) {
        Ok(t) => t,
        Err(e) => return Err(e),
    };
    let key = match kind {
        CliKind::Tool => "tools",
        CliKind::Model => "models",
        CliKind::Infra => "infras",
    };
    Ok(
        Call::operator(
            "GET",
            cat("/admin/operator/", kind.url_segment()),
            t,
            None,
            Answer::Member(key),
        ),
    )
}

/// Shows one registration.
pub fn do_get(kind: CliKind, name: &str, token: Option<String>) -> (r: Result<Call, CliError>)
    ensures
        planned(
            r,
            with_token(
                opt_text(token),
                op_call(
                    "GET"@,
                    name_path(kind, name@),
                    opt_text(token)->0,
                    None,
                    AnswerView::Whole,
                ),
            ),
        ),
{
    let t = match CliClient::op_token(token) {
        Ok(t) => t,
        Err(e) => return Err(e),
    };
    Ok(Call::operator("GET", path_of(kind, name), t, None, Answer::Whole))
}

/// What registering comes to.
pub open spec fn put_plan(
    kind: CliKind,
    name: Seq<char>,
    opts: PutOptsView,
    token: Option<Seq<char>>,
) -> Result<CallView, CliFault> {
    match (token, auth_arg(opts.auth)) {
        (None, _) => Err(CliFault::MissingOpToken),
        (_, Err(e)) => Err(e),
        (Some(t), Ok(auth)) => Ok(
            op_call(
                "PUT"@,
                name_path(kind, name),
                t,
                Some(put_body(opts, auth)),
                AnswerView::Whole,
            ),
        ),
    }
}

/// Registers or changes a registration.
pub fn do_put(kind: CliKind, name: &str, opts: &PutOpts, token: Option<String>) -> (r: Result<
    Call,
    CliError,
>)
    ensures
        planned(r, put_plan(kind, name@, opts@, opt_text(token))),
{
    let t = match CliClient::op_token(token) {
        Ok(t) => t,
        Err(e) => return Err(e),
    };
    let spec = match &opts.auth {
        Some(s) => Some(s.as_str()),
        None => None,
    };
    match parse_auth_spec(spec) {
        Ok(auth) => {
            let body = put_json(opts, auth);
            Ok(Call::operator("PUT", path_of(kind, name), t, Some(body), Answer::Whole))
        },
        Err(e) => Err(e),
    }
}

/// Deletes a registration. The daemon answers without a body.
pub fn do_delete(kind: CliKind, name: &str, token: Option<String>) -> (r: Result<Call, CliError>)
    ensures
        planned(
            r,
            with_token(
                opt_text(token),
                op_call(
                    "DELETE"@,
                    name_path(kind, name@),
                    opt_text(token)->0,
                    None,
                    AnswerView::Nothing,
                ),
            ),
        ),
{
    let t = match CliClient::op_token(token) {
        Ok(t) => t,
        Err(e) => return Err(e),
    };
    Ok(Call::operator("DELETE", path_of(kind, name), t, None, Answer::Nothing))
}

/// Enables a registration again. The daemon answers without a body.
pub fn do_enable(kind: CliKind, name: &str, token: Option<String>) -> (r: Result<Call, CliError>)
    ensures
        planned(
            r,
            with_token(
                opt_text(token),
                op_call(
                    "POST"@,
                    name_path(kind, name@) + "/enable"@,
                    opt_text(token)->0,
                    None,
                    AnswerView::Nothing,
                ),
            ),
        ),
{
    let t = match CliClient::op_token(token) {
        Ok(t) => t,
        Err(e) => return Err(e),
    };
    let path = cat(path_of(kind, name).as_str(), "/enable");
    Ok(Call::operator("POST", path, t, None, Answer::Nothing))
}

/// What is sent of a registration names its upstream, and names how to
/// authenticate, how to go out, or how large answers may be only where the operator
/// did.
pub proof fn law_only_what_was_named_is_sent(o: PutOptsView, auth: Option<JsonView>)
    ensures
        crate::json::member(put_body(o, auth), "upstream"@) == Some(jstr(o.upstream)),
        crate::json::member(put_body(o, auth), "auth"@) == auth,
        crate::json::member(put_body(o, auth), "egress"@) == some_str(o.egress),
        crate::json::member(put_body(o, auth), "timeouts"@) == timeouts_json(o),
        crate::json::member(put_body(o, auth), "body_limit_bytes"@) == some_nat(o.body_limit),
        crate::json::member(put_body(o, auth), "description"@) == some_str(o.description),
{
    broadcast use crate::json::lemma_member_with;

    reveal_strlit("upstream");
    reveal_strlit("description");
    reveal_strlit("auth");
    reveal_strlit("egress");
    reveal_strlit("timeouts");
    reveal_strlit("body_limit_bytes");
    reveal_strlit("metadata");
    assert("upstream"@[0] != "description"@[0]);
    assert("upstream"@.len() != "auth"@.len());
    assert("upstream"@.len() != "egress"@.len());
    assert("upstream"@[0] != "timeouts"@[0]);
    assert("upstream"@[0] != "metadata"@[0]);
    assert("description"@.len() != "auth"@.len());
    assert("timeouts"@[0] != "metadata"@[0]);
}

/// An `--auth` argument that is taken is one that the daemon understands: no
/// authentication, a bearer token or a header, from the variable that was named.
pub proof fn law_auth_argument_is_understood(spec: Option<Seq<char>>)
    ensures
        match auth_arg(spec) {
            Ok(Some(j)) => match auth_of(j) {
                Some(AuthView::NoAuth) => trimmed(spec->0) == "none"@,
                Some(AuthView::Bearer { env_var }) => trimmed(spec->0) == "bearer="@ + env_var
                    && env_var.len() > 0,
                Some(AuthView::Header { header, env_var }) => trimmed(spec->0) == "header:"@
                    + header + "="@ + env_var && header.len() > 0 && env_var.len() > 0,
                _ => false,
            },
            _ => true,
        },
{
    if let Ok(Some(j)) = auth_arg(spec) {
        let s = trimmed(spec->0);
        if s == "none"@ {
            law_auth_json_round_trip(AuthView::NoAuth);
        } else if starts(s, "bearer="@) {
            let env_var = s.skip("bearer="@.len() as int);
            law_auth_json_round_trip(AuthView::Bearer { env_var });
            assert(s =~= "bearer="@ + env_var);
        } else {
            let rest = s.skip("header:"@.len() as int);
            let (header, env_var) = split_once_spec(rest, '=')->0;
            law_auth_json_round_trip(AuthView::Header { header, env_var });
            crate::text::lemma_index_of_bounds(rest, '=');
            reveal_strlit("=");
            assert(s =~= "header:"@ + rest);
            assert(rest =~= header + "="@ + env_var);
            assert(s =~= "header:"@ + header + "="@ + env_var);
        }
    }
}

/// What is put says the upstream, and of the rest what the operator named, each under its
/// own name and in its own unit.
pub proof fn law_put_sends_what_the_operator_named(opts: PutOpts, auth: Option<JsonView>)
    ensures
        ({
            let j = put_body(opts@, auth);
            &&& holds(j, "upstream"@, JsonView::Str(opts.upstream@))
            &&& opts.description matches Some(d) ==> holds(j, "description"@, JsonView::Str(d@))
            &&& auth matches Some(a) ==> holds(j, "auth"@, a)
            &&& opts.egress matches Some(e) ==> holds(j, "egress"@, JsonView::Str(e@))
            &&& opts.body_limit matches Some(n) ==> holds(j, "body_limit_bytes"@, jnat(n as nat))
            &&& opts.timeout_request matches Some(n) ==> exists|x: JsonView|
                holds(j, "timeouts"@, x) && #[trigger] holds(x, "request_seconds"@, jnat(n as nat))
            &&& opts.timeout_idle matches Some(n) ==> exists|x: JsonView|
                holds(j, "timeouts"@, x) && #[trigger] holds(x, "idle_seconds"@, jnat(n as nat))
            &&& opts.metadata@.len() > 0 ==> holds(
                j,
                "metadata"@,
                metadata_object(pair_views(opts.metadata@)),
            )
            &&& j->Object_0.len() == 1 + (opts.description is Some) as int + (
            auth is Some) as int + (opts.egress is Some) as int + (opts.timeout_request is Some
                || opts.timeout_idle is Some) as int + (opts.body_limit is Some) as int + (
            opts.metadata@.len() > 0) as int
        }),
{
    broadcast use lemma_with_holds;

    let o = opts@;
    let j = put_body(o, auth);
    if let Some(x) = timeouts_json(o) {
        assert(holds(j, "timeouts"@, x));
        if let Some(n) = opts.timeout_request {
            assert(holds(x, "request_seconds"@, jnat(n as nat)));
        }
        if let Some(n) = opts.timeout_idle {
            assert(holds(x, "idle_seconds"@, jnat(n as nat)));
        }
    }
}

/// Metadata is given by names and values around the first equals sign, and of two values
/// under one name the later counts.
pub proof fn law_metadata_is_names_and_values(
    k: Seq<char>,
    v: Seq<char>,
    m: Seq<(Seq<char>, Seq<char>)>,
    other: Seq<char>,
)
    requires
        !k.contains('='),
    ensures
        k.len() > 0 ==> metadata_of(k + seq!['='] + v) == Ok::<(Seq<char>, Seq<char>), Seq<char>>(
            (k, v),
        ),
        metadata_of(seq!['='] + v) is Err,
        metadata_of(k) is Err,
        crate::json::member(metadata_object(m.push((k, v))), k) == Some(JsonView::Str(v)),
        other != k ==> crate::json::member(metadata_object(m.push((k, v))), other)
            == crate::json::member(metadata_object(m), other),
{
    let s = k + seq!['='] + v;
    assert forall|j: int| 0 <= j < k.len() implies s[j] != '=' by {
        assert(s[j] == k[j]);
        assert(k.contains(k[j]));
    }
    assert(s[k.len() as int] == '=');
    crate::text::lemma_index_of(s, '=', k.len() as int);
    assert(s.take(k.len() as int) =~= k);
    assert(s.skip(k.len() as int + 1) =~= v);
    let t = seq!['='] + v;
    assert(t[0] == '=');
    crate::text::lemma_index_of(t, '=', 0);
    assert(t.take(0).len() == 0);
    crate::text::lemma_index_of_bounds(k, '=');
    assert(m.push((k, v)).drop_last() =~= m);
    lemma_metadata_is_an_object(m);
    crate::json::lemma_set_then_get(metadata_object(m), k, JsonView::Str(v), k);
    crate::json::lemma_set_then_get(metadata_object(m), k, JsonView::Str(v), other);
}

proof fn lemma_metadata_is_an_object(m: Seq<(Seq<char>, Seq<char>)>)
    ensures
        metadata_object(m) is Object,
    decreases m.len(),
{
    if m.len() > 0 {
        lemma_metadata_is_an_object(m.drop_last());
    }
}

/// How an upstream is authenticated can be left out, or is none, a variable as a bearer
/// token, or a variable under a header; anything else is a fault of the command line.
pub proof fn law_auth_arguments_that_are_taken(
    raw: Seq<char>,
    header: Seq<char>,
    var: Seq<char>,
)
    requires
        var.len() > 0,
        header.len() > 0,
        !header.contains('='),
    ensures
        auth_arg(None) == Ok::<Option<JsonView>, CliFault>(None),
        trimmed(raw) == "none"@ ==> (auth_arg(Some(raw)) matches Ok(Some(j)) && auth_of(j) == Some(
            AuthView::NoAuth,
        )),
        trimmed(raw) == "bearer="@ + var ==> (auth_arg(Some(raw)) matches Ok(Some(j)) && auth_of(j)
            == Some(AuthView::Bearer { env_var: var })),
        trimmed(raw) == "header:"@ + header + "="@ + var ==> (auth_arg(Some(raw)) matches Ok(
            Some(j),
        ) && auth_of(j) == Some(AuthView::Header { header, env_var: var })),
        auth_arg(Some(raw)) matches Err(e) ==> e is Usage,
        !(auth_arg(Some(raw)) matches Ok(None)),
{
    reveal_strlit("none");
    reveal_strlit("bearer=");
    reveal_strlit("header:");
    reveal_strlit("=");
    let b = "bearer="@ + var;
    assert(b.take(7) =~= "bearer="@);
    assert(b.skip(7) =~= var);
    assert(b[0] == 'b');
    let h = "header:"@ + header + "="@ + var;
    assert(h.take(7) =~= "header:"@);
    assert(h[0] == 'h');
    assert("none"@[0] == 'n');
    assert(!starts(h, "bearer="@)) by {
        if starts(h, "bearer="@) {
            assert(h.take(7)[0] == "bearer="@[0]);
        }
    }
    let rest = h.skip(7);
    assert(rest =~= header + "="@ + var);
    assert forall|j: int| 0 <= j < header.len() implies rest[j] != '=' by {
        assert(rest[j] == header[j]);
        assert(header.contains(header[j]));
    }
    crate::text::lemma_index_of(rest, '=', header.len() as int);
    assert(rest.take(header.len() as int) =~= header);
    assert(rest.skip(header.len() as int + 1) =~= var);
    law_auth_json_round_trip(AuthView::NoAuth);
    law_auth_json_round_trip(AuthView::Bearer { env_var: var });
    law_auth_json_round_trip(AuthView::Header { header, env_var: var });
}

/// Each kind is found under its own segment of the address.
pub proof fn law_kinds_have_their_own_segments(name: Seq<char>)
    ensures
        name_path(CliKind::Tool, name) == "/admin/operator/"@ + "tools"@ + "/"@ + name,
        name_path(CliKind::Model, name) == "/admin/operator/"@ + "models"@ + "/"@ + name,
        name_path(CliKind::Infra, name) == "/admin/operator/"@ + "infra"@ + "/"@ + name,
        list_member(CliKind::Tool) == "tools"@,
        list_member(CliKind::Model) == "models"@,
        list_member(CliKind::Infra) == "infras"@,
        segment(CliKind::Tool) == crate::registrations::kind::kind_segment(
            crate::registrations::Kind::Tool,
        ),
        segment(CliKind::Model) == crate::registrations::kind::kind_segment(
            crate::registrations::Kind::Model,
        ),
        segment(CliKind::Infra) == crate::registrations::kind::kind_segment(
            crate::registrations::Kind::Infra,
        ),
{
}

/// A put is sent to the registration that it names, with its options as body, unless the
/// authentication cannot be read or there is no token.
pub proof fn law_puts_reach_what_they_name(
    kind: CliKind,
    name: Seq<char>,
    opts: PutOptsView,
    t: Seq<char>,
)
    ensures
        put_plan(kind, name, opts, None) == Err::<CallView, CliFault>(CliFault::MissingOpToken),
        auth_arg(opts.auth) matches Ok(auth) ==> (put_plan(kind, name, opts, Some(t)) matches Ok(c)
            && c.method == "PUT"@ && c.path == name_path(kind, name) && c.token == t && c.body
            == Some(put_body(opts, auth))),
        auth_arg(opts.auth) matches Err(e) ==> put_plan(kind, name, opts, Some(t)) == Err::<
            CallView,
            CliFault,
        >(e),
{
}

/// A command does what was planned: the call that was, or the error that was.
pub proof fn law_commands_do_what_was_planned(
    r: Result<Call, CliError>,
    want: Result<CallView, CliFault>,
)
    ensures
        planned(r, want) && r is Ok ==> want is Ok && r->Ok_0@ == want->Ok_0,
        planned(r, want) && r is Err ==> want is Err && r->Err_0@ == want->Err_0,
        r is Ok && want is Ok && r->Ok_0@ == want->Ok_0 ==> planned(r, want),
        r is Err && want is Err && r->Err_0@ == want->Err_0 ==> planned(r, want),
{
}

} // verus!
