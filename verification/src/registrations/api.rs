//! What operators do with registrations, and what agents see of them.
use vstd::prelude::*;
use vstd::string::StringSliceAdditionalSpecFns;
use vstd::utf8::{decode_utf8, encode_utf8, valid_utf8};

use super::auth_spec::{auth_json, valid_op_ref, AuthView, SecretRef};
use super::catalog::{catalog_of, Catalog};
use super::kind::kind_name;
use super::repo::{opt_row, timeouts_json, timeouts_to_json, RegistrationView};
use super::table::row_views;
use super::validators::{name_chars, valid_name};
use super::{
    registration_message, validate_name, AuthSpec, Kind, Registration, RegistrationError,
    MAX_NAME_LEN,
};
use crate::auth_v2::agent::{acl, AgentIdentity, IdentityView};
use crate::config::{egress_as_str, egress_name, EgressMode, ToolTimeouts};
use crate::json::{
    holds, jempty, jint, jnat, jstr, lemma_with_holds, opt_json, views, Json, JsonView,
};
use crate::mtls::copy_bytes;
use crate::oauth::sealing::{
    gcm_opened, sealed_as, SealingKey, SealingKeyError, NONCE_LEN, PLAINTEXT_MAX,
};
use crate::operational_log_sink::{LogComponent, LogLevel, LogView, OperationalLogEvent};
use crate::proxy::opt_identity;
use crate::random::random_bytes;
use crate::reply::{coded_error, empty_reply, reply, Reply, ReplyView};
use crate::secret::{ResolvedCreds, Secret};
use crate::text::{cat, cat3, opt_text, pair_views, read_utf8, same};

verus! {

/// What an agent sees of a registration.
pub open spec fn public_json(r: RegistrationView) -> JsonView {
    jempty().with("name"@, jstr(r.name)).with("type"@, jstr("api"@)).with(
        "path"@,
        jstr("/api/"@ + r.name),
    ).with("description"@, jstr(r.description))
}

/// Whether an agent sees a registration in the list of a kind: it is of that
/// kind, it is not disabled, and the agent may call it.
pub open spec fn visible(r: RegistrationView, kind: Kind, identity: Option<IdentityView>) -> bool {
    r.kind == kind && !r.disabled && (identity is None || acl(identity->Some_0, r.name) is Ok)
}

/// What an agent sees in the list of a kind, in order.
pub open spec fn public_list(
    rows: Seq<RegistrationView>,
    kind: Kind,
    identity: Option<IdentityView>,
) -> Seq<JsonView>
    decreases rows.len(),
{
    if rows.len() == 0 {
        Seq::empty()
    } else {
        let rest = public_list(rows.drop_last(), kind, identity);
        if visible(rows.last(), kind, identity) {
            rest.push(public_json(rows.last()))
        } else {
            rest
        }
    }
}

/// What an agent sees in the list of a kind, in order.
pub fn list_public(rows: &Vec<Registration>, kind: Kind, identity: Option<&AgentIdentity>) -> (r:
    Vec<Json>)
    ensures
        views(r@) == public_list(row_views(rows@), kind, opt_identity(identity)),
{
    let ghost all = row_views(rows@);
    let ghost who = opt_identity(identity);
    let mut out: Vec<Json> = Vec::new();
    let mut i: usize = 0;
    assert(views(out@) =~= public_list(all.take(0), kind, who));
    while i < rows.len()
        invariant
            i <= rows@.len(),
            all == row_views(rows@),
            who == opt_identity(identity),
            views(out@) == public_list(all.take(i as int), kind, who),
        decreases rows.len() - i,
    {
        let row = &rows[i];
        assert(all.take(i + 1).drop_last() =~= all.take(i as int));
        assert(all.take(i + 1).last() == row@);
        let allowed = match identity {
            Some(id) => id.allows_tool(row.name.as_str()).is_ok(),
            None => true,
        };
        if row.kind == kind && !row.disabled && allowed {
            let ghost before = out@;
            let j = Json::object().with("name", Json::text(row.name.as_str())).with(
                "type",
                Json::text("api"),
            ).with("path", Json::text(cat("/api/", row.name.as_str()).as_str())).with(
                "description",
                Json::text(row.description.as_str()),
            );
            let ghost jv = j@;
            out.push(j);
            assert(views(out@) =~= views(before).push(jv));
        }
        i = i + 1;
    }
    assert(all.take(all.len() as int) =~= all);
    out
}

/// Every entry of the list of a kind comes from a row of that kind that is not
/// disabled and that the agent may call.
pub proof fn law_listed_is_callable(
    rows: Seq<RegistrationView>,
    kind: Kind,
    identity: Option<IdentityView>,
    i: int,
)
    requires
        0 <= i < public_list(rows, kind, identity).len(),
    ensures
        exists|k: int|
            0 <= k < rows.len() && visible(#[trigger] rows[k], kind, identity) && public_json(
                rows[k],
            ) == public_list(rows, kind, identity)[i],
    decreases rows.len(),
{
    let rest = public_list(rows.drop_last(), kind, identity);
    if i < rest.len() {
        law_listed_is_callable(rows.drop_last(), kind, identity, i);
        let k = choose|k: int|
            0 <= k < rows.drop_last().len() && visible(
                #[trigger] rows.drop_last()[k],
                kind,
                identity,
            ) && public_json(rows.drop_last()[k]) == rest[i];
        assert(rows[k] == rows.drop_last()[k]);
    } else {
        assert(rows[rows.len() - 1] == rows.last());
    }
}

/// Every row of a kind that is not disabled and that the agent may call is in the
/// list of that kind.
pub proof fn law_callable_is_listed(
    rows: Seq<RegistrationView>,
    kind: Kind,
    identity: Option<IdentityView>,
    k: int,
)
    requires
        0 <= k < rows.len(),
        visible(rows[k], kind, identity),
    ensures
        public_list(rows, kind, identity).contains(public_json(rows[k])),
    decreases rows.len(),
{
    let rest = public_list(rows.drop_last(), kind, identity);
    if k < rows.len() - 1 {
        assert(rows.drop_last()[k] == rows[k]);
        law_callable_is_listed(rows.drop_last(), kind, identity, k);
        let i = rest.index_of(public_json(rows[k]));
        assert(public_list(rows, kind, identity)[i] == public_json(rows[k]));
    } else {
        assert(public_list(rows, kind, identity)[rest.len() as int] == public_json(rows[k]));
    }
}

/// What an agent sees of a registration does not depend on how it is
/// authenticated, where it is, or what else operators keep with it.
pub proof fn law_public_list_shows_no_secrets(a: RegistrationView, b: RegistrationView)
    requires
        a.name == b.name,
        a.description == b.description,
    ensures
        public_json(a) == public_json(b),
{
}

/// What an operator sends to register something.
pub struct PutBody {
    pub description: String,
    pub upstream: String,
    /// How it is authenticated; none where nothing was said, which is not the
    /// same as saying that it needs no authentication.
    pub auth: Option<AuthSpec>,
    pub egress: Option<EgressMode>,
    pub timeouts: Option<ToolTimeouts>,
    pub body_limit_bytes: Option<u64>,
    pub metadata: Option<Json>,
}

/// What a [`PutBody`] says.
#[verifier::ext_equal]
pub ghost struct PutView {
    pub description: Seq<char>,
    pub upstream: Seq<char>,
    pub auth: Option<AuthView>,
    pub egress: Option<EgressMode>,
    pub timeouts: Option<ToolTimeouts>,
    pub body_limit_bytes: Option<u64>,
    pub metadata: Option<JsonView>,
}

impl View for PutBody {
    type V = PutView;

    open spec fn view(&self) -> PutView {
        PutView {
            description: self.description@,
            upstream: self.upstream@,
            auth: match self.auth {
                Some(a) => Some(a@),
                None => None,
            },
            egress: self.egress,
            timeouts: self.timeouts,
            body_limit_bytes: self.body_limit_bytes,
            metadata: opt_json(self.metadata),
        }
    }
}

/// What an operator sends to store a credential.
pub struct PutCredentialBody {
    pub value: String,
}

/// What an operator sees of a registration.
pub open spec fn admin_json(r: RegistrationView) -> JsonView {
    jempty().with("name"@, jstr(r.name)).with("kind"@, jstr(kind_name(r.kind))).with(
        "description"@,
        jstr(r.description),
    ).with("upstream"@, jstr(r.upstream)).with("auth"@, auth_json(r.auth)).with(
        "egress"@,
        jstr(egress_name(r.egress)),
    ).with("timeouts"@, timeouts_json(r.timeouts)).with(
        "body_limit_bytes"@,
        jnat(r.body_limit_bytes as nat),
    ).with("metadata"@, r.metadata).with("seed"@, JsonView::Bool(r.seed)).with(
        "disabled"@,
        JsonView::Bool(r.disabled),
    ).with("created_at"@, jint(r.created_at as int)).with("updated_at"@, jint(r.updated_at as int))
}

/// What an operator sees of a registration.
pub fn registration_to_admin_json(r: &Registration) -> (j: Json)
    ensures
        j@ == admin_json(r@),
{
    Json::object().with("name", Json::text(r.name.as_str())).with(
        "kind",
        Json::text(r.kind.as_str()),
    ).with("description", Json::text(r.description.as_str())).with(
        "upstream",
        Json::text(r.upstream.as_str()),
    ).with("auth", r.auth.to_json()).with("egress", Json::text(egress_as_str(r.egress))).with(
        "timeouts",
        timeouts_to_json(r.timeouts),
    ).with("body_limit_bytes", Json::count(r.body_limit_bytes)).with(
        "metadata",
        r.metadata.copy(),
    ).with("seed", Json::Bool(r.seed)).with("disabled", Json::Bool(r.disabled)).with(
        "created_at",
        Json::integer(r.created_at),
    ).with("updated_at", Json::integer(r.updated_at))
}

/// The status, type and code of the answer to an error.
pub open spec fn error_class(e: RegistrationError) -> (u16, Seq<char>, Seq<char>) {
    match e {
        RegistrationError::NameInUse { .. } => (409, "conflict"@, "name_in_use"@),
        RegistrationError::WrongKind { .. } => (409, "conflict"@, "wrong_kind"@),
        RegistrationError::ReservedName => (400, "bad_request"@, "reserved_name"@),
        RegistrationError::InvalidName(_) => (400, "bad_request"@, "invalid_name"@),
        RegistrationError::AuthRequired => (400, "bad_request"@, "auth_required"@),
        RegistrationError::ModelAuthRequired => (400, "bad_request"@, "model_auth_required"@),
        RegistrationError::InvalidMetadata(_) => (400, "bad_request"@, "invalid_metadata"@),
        RegistrationError::Backend(_) => (500, "auth_error"@, "internal_error"@),
    }
}

/// The status, type and code of the answer to an error.
pub fn registration_status_code(err: &RegistrationError) -> (r: (
    u16,
    &'static str,
    &'static str,
))
    ensures
        r.0 == error_class(*err).0,
        r.1@ == error_class(*err).1,
        r.2@ == error_class(*err).2,
{
    match err {
        RegistrationError::NameInUse { .. } => (409, "conflict", "name_in_use"),
        RegistrationError::WrongKind { .. } => (409, "conflict", "wrong_kind"),
        RegistrationError::ReservedName => (400, "bad_request", "reserved_name"),
        RegistrationError::InvalidName(_) => (400, "bad_request", "invalid_name"),
        RegistrationError::AuthRequired => (400, "bad_request", "auth_required"),
        RegistrationError::ModelAuthRequired => (400, "bad_request", "model_auth_required"),
        RegistrationError::InvalidMetadata(_) => (400, "bad_request", "invalid_metadata"),
        RegistrationError::Backend(_) => (500, "auth_error", "internal_error"),
    }
}

/// The answer to an error.
pub open spec fn error_reply(e: RegistrationError) -> ReplyView {
    reply(
        error_class(e).0,
        coded_error(registration_message(e), error_class(e).1, error_class(e).2),
    )
}

/// The answer to an error.
pub fn registration_error_response(err: &RegistrationError) -> (r: Reply)
    ensures
        r@ == error_reply(*err),
{
    let (status, kind, code) = registration_status_code(err);
    Reply::coded(status, err.message().as_str(), kind, code)
}

/// The answer where nothing has the name.
pub open spec fn unknown_name(name: Seq<char>) -> ReplyView {
    reply(
        404,
        coded_error("registration not found: "@ + name, "not_found"@, "unknown_name"@),
    )
}

/// The answer where nothing has the name.
pub fn unknown_name_response(name: &str) -> (r: Reply)
    ensures
        r@ == unknown_name(name@),
{
    Reply::coded(
        404,
        cat("registration not found: ", name).as_str(),
        "not_found",
        "unknown_name",
    )
}

/// The answer where the name belongs to another kind.
pub open spec fn wrong_kind(existing: Kind, requested: Kind) -> ReplyView {
    error_reply(
        RegistrationError::WrongKind { existing_kind: existing, requested_kind: requested },
    )
}

fn wrong_kind_response(existing_kind: Kind, requested_kind: Kind) -> (r: Reply)
    ensures
        r@ == wrong_kind(existing_kind, requested_kind),
{
    registration_error_response(&RegistrationError::WrongKind { existing_kind, requested_kind })
}

/// The record of a change to a registration.
pub open spec fn registry_log(action: Seq<char>, kind: Kind, name: Seq<char>) -> LogView {
    LogView {
        level: LogLevel::Info,
        component: LogComponent::Registry,
        event: "registration_"@ + action,
        message: "registration "@ + action + (": "@ + kind_name(kind) + (" "@ + name)),
        fields: Some(
            jempty().with("kind"@, jstr(kind_name(kind))).with("name"@, jstr(name)).with(
                "action"@,
                jstr(action),
            ),
        ),
    }
}

/// The record of a change to a registration.
pub fn emit_registry(action: &str, kind: Kind, name: &str) -> (r: OperationalLogEvent)
    ensures
        r@ == registry_log(action@, kind, name@),
{
    OperationalLogEvent {
        level: LogLevel::Info,
        component: LogComponent::Registry,
        event: cat("registration_", action),
        message: cat3(
            "registration ",
            action,
            cat3(": ", kind.as_str(), cat(" ", name).as_str()).as_str(),
        ),
        fields: Some(
            Json::object().with("kind", Json::text(kind.as_str())).with(
                "name",
                Json::text(name),
            ).with("action", Json::text(action)),
        ),
    }
}

/// The answer to a request for the list of a kind.
pub open spec fn list_reply(
    kind: Kind,
    rows: Result<Vec<Registration>, RegistrationError>,
) -> ReplyView {
    match rows {
        Ok(v) => reply(
            200,
            jempty().with(
                kind_name(kind) + "s"@,
                JsonView::Array(row_views(v@).map_values(|r: RegistrationView| admin_json(r))),
            ),
        ),
        Err(e) => error_reply(e),
    }
}

/// The answer to a request for the list of a kind, given its rows. The disabled
/// ones are among them.
pub fn op_list(kind: Kind, rows: &Result<Vec<Registration>, RegistrationError>) -> (r: Reply)
    ensures
        r@ == list_reply(kind, *rows),
{
    match rows {
        Ok(v) => {
            let ghost all = row_views(v@).map_values(|r: RegistrationView| admin_json(r));
            let mut out: Vec<Json> = Vec::new();
            let mut i: usize = 0;
            assert(views(out@) =~= all.take(0));
            while i < v.len()
                invariant
                    i <= v@.len(),
                    all == row_views(v@).map_values(|r: RegistrationView| admin_json(r)),
                    all.len() == v@.len(),
                    views(out@) == all.take(i as int),
                decreases v.len() - i,
            {
                let ghost before = out@;
                let j = registration_to_admin_json(&v[i]);
                let ghost jv = j@;
                assert(all[i as int] == admin_json(v@[i as int]@));
                out.push(j);
                assert(views(out@) =~= views(before).push(jv));
                assert(all.take(i + 1) =~= all.take(i as int).push(all[i as int]));
                i = i + 1;
            }
            assert(all.take(all.len() as int) =~= all);
            Reply::new(200, Json::object().with(cat(kind.as_str(), "s").as_str(), Json::array(out)))
        },
        Err(e) => registration_error_response(e),
    }
}

/// What was looked up under a name.
pub type Fetched = Result<Option<Registration>, RegistrationError>;

/// The answer where what was looked up is not a registration of the asked kind.
pub open spec fn not_of_kind(kind: Kind, name: Seq<char>, fetched: Fetched) -> Option<ReplyView> {
    match fetched {
        Ok(Some(r)) => if r.kind != kind {
            Some(wrong_kind(r.kind, kind))
        } else {
            None
        },
        Ok(None) => Some(unknown_name(name)),
        Err(e) => Some(error_reply(e)),
    }
}

/// The answer to a look at a registration.
pub open spec fn get_reply(kind: Kind, name: Seq<char>, fetched: Fetched) -> ReplyView {
    match not_of_kind(kind, name, fetched) {
        Some(r) => r,
        None => reply(200, admin_json(fetched->Ok_0->Some_0@)),
    }
}

/// The answer to a look at a registration, given what was looked up.
pub fn op_get(kind: Kind, name: &str, fetched: &Fetched) -> (r: Reply)
    ensures
        r@ == get_reply(kind, name@, *fetched),
{
    match fetched {
        Ok(Some(r)) => {
            if r.kind != kind {
                return wrong_kind_response(r.kind, kind);
            }
            Reply::new(200, registration_to_admin_json(r))
        },
        Ok(None) => unknown_name_response(name),
        Err(e) => registration_error_response(e),
    }
}

/// The answer to a name that may not be registered.
pub open spec fn name_refusal(name: Seq<char>) -> ReplyView {
    if name.len() == 0 {
        invalid_name("name is empty"@)
    } else if vstd::utf8::encode_utf8(name).len() > MAX_NAME_LEN {
        invalid_name("name exceeds 64 characters"@)
    } else if !name_chars(name) {
        invalid_name("name contains invalid characters (allowed: a-z 0-9 -)"@)
    } else {
        error_reply(RegistrationError::ReservedName)
    }
}

/// The answer to a name that is not well-formed.
pub open spec fn invalid_name(why: Seq<char>) -> ReplyView {
    reply(400, coded_error("invalid name: "@ + why, "bad_request"@, "invalid_name"@))
}

/// How a registration is authenticated, given what was said of it; none where it
/// has to be said and was not. Only middleware may leave it out.
pub open spec fn put_auth(kind: Kind, auth: Option<AuthView>) -> Option<AuthView> {
    match auth {
        Some(a) => Some(a),
        None => if kind == Kind::Infra {
            Some(AuthView::NoAuth)
        } else {
            None
        },
    }
}

/// The answer to an `op` reference with another scheme.
pub open spec fn bad_reference(reference: Seq<char>) -> ReplyView {
    reply(
        400,
        coded_error(
            "invalid metadata: "@ + ("op custody reference must use the op:// scheme, got: "@
                + reference),
            "bad_request"@,
            "invalid_metadata"@,
        ),
    )
}

/// Why a registration is refused, if it is. The rules are tested in this order:
/// the name, that it was said how it is authenticated, the reference, what the
/// store says, the kind.
pub open spec fn put_refusal(
    kind: Kind,
    name: Seq<char>,
    body: PutView,
    fetched: Fetched,
) -> Option<ReplyView> {
    if !valid_name(name) {
        Some(name_refusal(name))
    } else {
        match put_auth(kind, body.auth) {
            None => Some(error_reply(RegistrationError::AuthRequired)),
            Some(a) => if a.op_ref() is Some && !valid_op_ref(a.op_ref()->Some_0) {
                Some(bad_reference(a.op_ref()->Some_0))
            } else {
                match fetched {
                    Err(e) => Some(error_reply(e)),
                    Ok(Some(r)) => if r.kind != kind {
                        Some(wrong_kind(r.kind, kind))
                    } else {
                        None
                    },
                    Ok(None) => None,
                }
            },
        }
    }
}

/// The row that is written for a registration: the operator's from then on. An
/// existing row keeps when it was made, and whether it is disabled.
pub open spec fn put_row(
    kind: Kind,
    name: Seq<char>,
    body: PutView,
    existing: Option<RegistrationView>,
    now: i64,
) -> RegistrationView {
    RegistrationView {
        name,
        kind,
        description: body.description,
        upstream: body.upstream,
        auth: put_auth(kind, body.auth)->Some_0,
        egress: match body.egress {
            Some(e) => e,
            None => EgressMode::Proxied,
        },
        timeouts: match body.timeouts {
            Some(t) => t,
            None => ToolTimeouts { request_seconds: 30, idle_seconds: 60 },
        },
        body_limit_bytes: match body.body_limit_bytes {
            Some(n) => n,
            None => 10485760,
        },
        metadata: match body.metadata {
            Some(m) => m,
            None => jempty(),
        },
        seed: false,
        disabled: match existing {
            Some(r) => r.disabled,
            None => false,
        },
        created_at: match existing {
            Some(r) => r.created_at,
            None => now,
        },
        updated_at: now,
    }
}

/// What is done with a registration.
pub enum PutStep {
    Refuse(Reply),
    /// The row is to be written; whether that is an update.
    Write { row: Registration, is_update: bool },
}

/// What a [`PutStep`] says.
pub ghost enum PutStepView {
    Refuse(ReplyView),
    Write { row: RegistrationView, is_update: bool },
}

impl View for PutStep {
    type V = PutStepView;

    open spec fn view(&self) -> PutStepView {
        match self {
            PutStep::Refuse(r) => PutStepView::Refuse(r@),
            PutStep::Write { row, is_update } => PutStepView::Write {
                row: row@,
                is_update: *is_update,
            },
        }
    }
}

/// What is done with a registration.
pub open spec fn put_step(
    kind: Kind,
    name: Seq<char>,
    body: PutView,
    fetched: Fetched,
    now: i64,
) -> PutStepView {
    match put_refusal(kind, name, body, fetched) {
        Some(r) => PutStepView::Refuse(r),
        None => {
            let row = put_row(kind, name, body, opt_row(fetched->Ok_0), now);
            PutStepView::Write { row, is_update: row.created_at != now }
        },
    }
}

/// Decides what is done with a registration, given what was looked up under its
/// name.
pub fn op_put(kind: Kind, name: String, body: PutBody, fetched: &Fetched, now: i64) -> (r: PutStep)
    ensures
        r@ == put_step(kind, name@, body@, *fetched, now),
{
    match validate_name(name.as_str()) {
        Ok(()) => {},
        Err(e) => {
            return PutStep::Refuse(registration_error_response(&e));
        },
    }
    let auth = match body.auth {
        Some(a) => a,
        None => {
            if kind != Kind::Infra {
                return PutStep::Refuse(
                    registration_error_response(&RegistrationError::AuthRequired),
                );
            }
            AuthSpec::NoAuth
        },
    };
    match auth.validate_op_reference() {
        Ok(()) => {},
        Err(why) => {
            return PutStep::Refuse(
                registration_error_response(&RegistrationError::InvalidMetadata(why)),
            );
        },
    }
    let (created_at, disabled) = match fetched {
        Ok(Some(existing)) => {
            if existing.kind != kind {
                return PutStep::Refuse(wrong_kind_response(existing.kind, kind));
            }
            (existing.created_at, existing.disabled)
        },
        Ok(None) => (now, false),
        Err(e) => {
            return PutStep::Refuse(registration_error_response(e));
        },
    };
    let row = Registration {
        name,
        kind,
        description: body.description,
        upstream: body.upstream,
        auth,
        egress: match body.egress {
            Some(e) => e,
            None => EgressMode::Proxied,
        },
        timeouts: match body.timeouts {
            Some(t) => t,
            None => ToolTimeouts { request_seconds: 30, idle_seconds: 60 },
        },
        body_limit_bytes: match body.body_limit_bytes {
            Some(n) => n,
            None => 10485760,
        },
        metadata: match body.metadata {
            Some(m) => m,
            None => Json::object(),
        },
        seed: false,
        disabled,
        created_at,
        updated_at: now,
    };
    PutStep::Write { row, is_update: created_at != now }
}

/// The answer after a row was written, or not.
pub open spec fn written_reply(
    row: RegistrationView,
    written: Result<(), RegistrationError>,
) -> ReplyView {
    match written {
        Ok(()) => reply(200, admin_json(row)),
        Err(e) => error_reply(e),
    }
}

/// The answer after a row was written, or not.
pub fn put_finished(row: &Registration, written: &Result<(), RegistrationError>) -> (r: Reply)
    ensures
        r@ == written_reply(row@, *written),
{
    match written {
        Ok(()) => Reply::new(200, registration_to_admin_json(row)),
        Err(e) => registration_error_response(e),
    }
}

/// The word for what was done to a registration.
pub fn put_action(is_update: bool) -> (r: &'static str)
    ensures
        r@ == put_word(is_update),
{
    if is_update {
        "updated"
    } else {
        "created"
    }
}

/// A row that an operator writes is the operator's; an existing one keeps when it
/// was made and whether it is disabled.
pub proof fn law_put_keeps_lifecycle(
    kind: Kind,
    name: Seq<char>,
    body: PutView,
    fetched: Fetched,
    now: i64,
)
    requires
        put_step(kind, name, body, fetched, now) is Write,
    ensures
        ({
            let row = put_step(kind, name, body, fetched, now)->row;
            &&& !row.seed
            &&& row.updated_at == now
            &&& row.name == name && row.kind == kind
            &&& fetched matches Ok(Some(old_row)) ==> row.created_at == old_row.created_at
                && row.disabled == old_row.disabled && old_row.kind == kind
        }),
{
}

/// A tool or a model is never registered without a word on how it is
/// authenticated.
pub proof fn law_authentication_is_stated(
    kind: Kind,
    name: Seq<char>,
    body: PutView,
    fetched: Fetched,
    now: i64,
)
    requires
        kind != Kind::Infra,
        body.auth is None,
    ensures
        put_step(kind, name, body, fetched, now) is Refuse,
{
}

/// What is done where a registration is to go.
pub enum DeleteStep {
    Refuse(Reply),
    /// The row came with the image: it is disabled.
    Disable,
    /// The row is the operator's: it is taken out.
    Remove,
}

/// What a [`DeleteStep`] says.
pub ghost enum DeleteView {
    Refuse(ReplyView),
    Disable,
    Remove,
}

impl View for DeleteStep {
    type V = DeleteView;

    open spec fn view(&self) -> DeleteView {
        match self {
            DeleteStep::Refuse(r) => DeleteView::Refuse(r@),
            DeleteStep::Disable => DeleteView::Disable,
            DeleteStep::Remove => DeleteView::Remove,
        }
    }
}

/// What is done where a registration is to go: a row that came with the image is
/// kept and disabled, so that it stays away when the image is renewed.
pub open spec fn delete_step(kind: Kind, name: Seq<char>, fetched: Fetched) -> DeleteView {
    match not_of_kind(kind, name, fetched) {
        Some(r) => DeleteView::Refuse(r),
        None => if fetched->Ok_0->Some_0.seed {
            DeleteView::Disable
        } else {
            DeleteView::Remove
        },
    }
}

/// Decides what is done where a registration is to go.
pub fn op_delete(kind: Kind, name: &str, fetched: &Fetched) -> (r: DeleteStep)
    ensures
        r@ == delete_step(kind, name@, *fetched),
{
    match fetched {
        Ok(Some(r)) => {
            if r.kind != kind {
                return DeleteStep::Refuse(wrong_kind_response(r.kind, kind));
            }
            if r.seed {
                DeleteStep::Disable
            } else {
                DeleteStep::Remove
            }
        },
        Ok(None) => DeleteStep::Refuse(unknown_name_response(name)),
        Err(e) => DeleteStep::Refuse(registration_error_response(e)),
    }
}

/// Why a registration cannot be enabled, if so.
pub fn op_enable(kind: Kind, name: &str, fetched: &Fetched) -> (r: Option<Reply>)
    ensures
        crate::oauth::admin::opt_reply(r) == not_of_kind(kind, name@, *fetched),
{
    match fetched {
        Ok(Some(r)) => {
            if r.kind != kind {
                return Some(wrong_kind_response(r.kind, kind));
            }
            None
        },
        Ok(None) => Some(unknown_name_response(name)),
        Err(e) => Some(registration_error_response(e)),
    }
}

/// The answer after a change without an answer of its own.
pub open spec fn done_reply(done: Result<(), RegistrationError>) -> ReplyView {
    match done {
        Ok(()) => empty_reply(204),
        Err(e) => error_reply(e),
    }
}

/// The answer after a change without an answer of its own.
pub fn change_finished(done: &Result<(), RegistrationError>) -> (r: Reply)
    ensures
        r@ == done_reply(*done),
{
    match done {
        Ok(()) => Reply::empty(204),
        Err(e) => registration_error_response(e),
    }
}

/// The answer where something failed that the caller is not told of.
pub open spec fn internal_error() -> ReplyView {
    reply(500, coded_error("internal error"@, "auth_error"@, "internal_error"@))
}

/// What is done with a credential that is to be stored.
pub enum CredentialStep {
    Refuse(Reply),
    /// The sealed credential is to be put into the store.
    Store { ciphertext: Vec<u8>, nonce: Vec<u8> },
}

/// Why a credential is not stored, if so: there is nothing to seal it with, or no
/// registration of that name and kind.
pub open spec fn credential_refusal(
    sealable: bool,
    kind: Kind,
    name: Seq<char>,
    fetched: Fetched,
) -> Option<ReplyView> {
    if !sealable {
        Some(unknown_name(name))
    } else {
        match fetched {
            Ok(Some(r)) => if r.kind != kind {
                Some(unknown_name(name))
            } else {
                None
            },
            Ok(None) => Some(unknown_name(name)),
            Err(e) => Some(error_reply(e)),
        }
    }
}

fn credential_refused(sealing: bool, kind: Kind, name: &str, fetched: &Fetched) -> (r: Option<
    Reply,
>)
    ensures
        match r {
            Some(answer) => credential_refusal(sealing, kind, name@, *fetched) == Some(answer@),
            None => credential_refusal(sealing, kind, name@, *fetched) is None,
        },
{
    if !sealing {
        return Some(unknown_name_response(name));
    }
    match fetched {
        Ok(Some(r)) => {
            if r.kind != kind {
                Some(unknown_name_response(name))
            } else {
                None
            }
        },
        Ok(None) => Some(unknown_name_response(name)),
        Err(e) => Some(registration_error_response(e)),
    }
}

/// Decides what is done with a credential that is to be stored: it is sealed with the
/// given nonce before it goes anywhere. Only one that is too long cannot be sealed.
pub fn op_put_credential_with(
    key: Option<&SealingKey>,
    kind: Kind,
    name: &str,
    body: PutCredentialBody,
    fetched: &Fetched,
    nonce: &[u8],
) -> (r: CredentialStep)
    requires
        nonce@.len() == NONCE_LEN,
    ensures
        match credential_refusal(key is Some, kind, name@, *fetched) {
            Some(answer) => r matches CredentialStep::Refuse(said) && said@ == answer,
            None => if encode_utf8(body.value@).len() > PLAINTEXT_MAX {
                r matches CredentialStep::Refuse(said) && said@ == internal_error()
            } else {
                r matches CredentialStep::Store { ciphertext, nonce: kept } && kept@ == nonce@
                    && sealed_as(
                    key->Some_0.bytes(),
                    nonce@,
                    encode_utf8(body.value@),
                    Some(ciphertext),
                )
            },
        },
{
    if let Some(answer) = credential_refused(key.is_some(), kind, name, fetched) {
        return CredentialStep::Refuse(answer);
    }
    match key.unwrap().seal_with(body.value.as_str().as_bytes(), nonce) {
        Ok(ciphertext) => CredentialStep::Store { ciphertext, nonce: copy_bytes(nonce) },
        Err(e) => CredentialStep::Refuse(seal_failed_response(&e)),
    }
}

fn seal_failed_response(e: &SealingKeyError) -> (r: Reply)
    ensures
        r@ == internal_error(),
{
    registration_error_response(
        &RegistrationError::Backend(cat("credential seal failed: ", e.message().as_str())),
    )
}

/// Decides what is done with a credential that is to be stored: it is sealed with a
/// fresh random nonce before it goes anywhere. A credential that may be stored and is
/// not too long is refused only where no random bytes can be had.
pub fn op_put_credential(
    key: Option<&SealingKey>,
    kind: Kind,
    name: &str,
    body: PutCredentialBody,
    fetched: &Fetched,
) -> (r: CredentialStep)
    ensures
        match credential_refusal(key is Some, kind, name@, *fetched) {
            Some(answer) => r matches CredentialStep::Refuse(said) && said@ == answer,
            None => match r {
                CredentialStep::Refuse(said) => said@ == internal_error(),
                CredentialStep::Store { ciphertext, nonce } => nonce@.len() == NONCE_LEN
                    && sealed_as(
                    key->Some_0.bytes(),
                    nonce@,
                    encode_utf8(body.value@),
                    Some(ciphertext),
                ),
            },
        },
{
    if let Some(answer) = credential_refused(key.is_some(), kind, name, fetched) {
        return CredentialStep::Refuse(answer);
    }
    match random_bytes(NONCE_LEN) {
        Ok(nonce) => op_put_credential_with(key, kind, name, body, fetched, nonce.as_slice()),
        Err(e) => CredentialStep::Refuse(
            seal_failed_response(&SealingKeyError::NonceGenFailed(e)),
        ),
    }
}

/// How a registration is authenticated once its credential is stored: a header
/// keeps its name, and everything else becomes a bearer token.
pub open spec fn stored_auth(auth: AuthView, secret_ref: Seq<char>) -> AuthView {
    match auth {
        AuthView::Header { header, .. } => AuthView::StoredHeader { header, secret_ref },
        AuthView::StoredHeader { header, .. } => AuthView::StoredHeader { header, secret_ref },
        _ => AuthView::StoredBearer { secret_ref },
    }
}

/// A row that is to be written after its credential was stored or cleared, and
/// the stored credential that is to be dropped once it is written.
pub struct CredentialWrite {
    pub row: Registration,
    pub old_ref: Option<String>,
}

/// What a [`CredentialWrite`] says.
#[verifier::ext_equal]
pub ghost struct WriteView {
    pub row: RegistrationView,
    pub old_ref: Option<Seq<char>>,
}

impl View for CredentialWrite {
    type V = WriteView;

    open spec fn view(&self) -> WriteView {
        WriteView { row: self.row@, old_ref: opt_text(self.old_ref) }
    }
}

/// The row that is written after its credential was stored.
pub open spec fn credential_written(
    existing: RegistrationView,
    secret_ref: Seq<char>,
    now: i64,
) -> WriteView {
    WriteView {
        row: RegistrationView {
            auth: stored_auth(existing.auth, secret_ref),
            updated_at: now,
            ..existing
        },
        old_ref: existing.auth.stored_ref(),
    }
}

fn old_reference(auth: &AuthSpec) -> (r: Option<String>)
    ensures
        opt_text(r) == auth@.stored_ref(),
{
    match auth.stored_secret_ref() {
        Some(s) => Some(s.to_string()),
        None => None,
    }
}

/// What is done after a sealed credential was put into the store: the row that is
/// to be written, or the answer where the store failed.
pub fn credential_stored(existing: Registration, inserted: Result<String, String>, now: i64) -> (r:
    Result<CredentialWrite, Reply>)
    ensures
        match inserted {
            Ok(secret_ref) => r is Ok && r->Ok_0@ == credential_written(
                existing@,
                secret_ref@,
                now,
            ),
            Err(_) => r is Err && r->Err_0@ == internal_error(),
        },
{
    let secret_ref = match inserted {
        Ok(s) => s,
        Err(e) => {
            return Err(
                registration_error_response(
                    &RegistrationError::Backend(
                        cat("credential store insert failed: ", e.as_str()),
                    ),
                ),
            );
        },
    };
    let old_ref = old_reference(&existing.auth);
    let auth = match &existing.auth {
        AuthSpec::Header { header, .. }
        | AuthSpec::StoredHeader { header, .. } => AuthSpec::StoredHeader {
            header: header.clone(),
            secret_ref,
        },
        _ => AuthSpec::StoredBearer { secret_ref },
    };
    let mut row = existing;
    row.auth = auth;
    row.updated_at = now;
    Ok(CredentialWrite { row, old_ref })
}

/// The answer after a credential was stored: the reference and the time, never
/// the value.
pub open spec fn credential_reply(
    secret_ref: Seq<char>,
    now: i64,
    written: Result<(), RegistrationError>,
) -> ReplyView {
    match written {
        Ok(()) => reply(
            200,
            jempty().with("secret_ref"@, jstr(secret_ref)).with("set_at"@, jint(now as int)),
        ),
        Err(e) => error_reply(e),
    }
}

/// The answer after a credential was stored.
pub fn credential_finished(
    secret_ref: &str,
    now: i64,
    written: &Result<(), RegistrationError>,
) -> (r: Reply)
    ensures
        r@ == credential_reply(secret_ref@, now, *written),
{
    match written {
        Ok(()) => Reply::new(
            200,
            Json::object().with("secret_ref", Json::text(secret_ref)).with(
                "set_at",
                Json::integer(now),
            ),
        ),
        Err(e) => registration_error_response(e),
    }
}

/// The reference that is given up after a row was written: the earlier one, and only
/// where the write succeeded, so that a row that could not be written keeps its
/// credential.
pub fn given_up(change: CredentialWrite, written: &Result<(), RegistrationError>) -> (r: Option<
    String,
>)
    ensures
        opt_text(r) == if written is Ok {
            change@.old_ref
        } else {
            None
        },
{
    match written {
        Ok(()) => change.old_ref,
        Err(_) => None,
    }
}

/// What is done where a stored credential is to be cleared.
pub enum ClearStep {
    /// It is answered at once.
    Answer(Reply),
    /// The row is to be written, and the stored credential dropped.
    Write(CredentialWrite),
}

/// What a [`ClearStep`] says.
pub ghost enum ClearView {
    Answer(ReplyView),
    Write(WriteView),
}

impl View for ClearStep {
    type V = ClearView;

    open spec fn view(&self) -> ClearView {
        match self {
            ClearStep::Answer(r) => ClearView::Answer(r@),
            ClearStep::Write(w) => ClearView::Write(w@),
        }
    }
}

/// The answer after a credential was cleared.
pub open spec fn cleared() -> ReplyView {
    reply(200, jempty().with("cleared"@, JsonView::Bool(true)))
}

fn cleared_response() -> (r: Reply)
    ensures
        r@ == cleared(),
{
    Reply::new(200, Json::object().with("cleared", Json::Bool(true)))
}

/// What is done where a stored credential is to be cleared. Where none is stored,
/// nothing is, and the answer is the same.
pub open spec fn clear_step(
    sealable: bool,
    kind: Kind,
    name: Seq<char>,
    fetched: Fetched,
    now: i64,
) -> ClearView {
    if !sealable {
        ClearView::Answer(unknown_name(name))
    } else {
        match not_of_kind(kind, name, fetched) {
            Some(r) => ClearView::Answer(r),
            None => {
                let row = fetched->Ok_0->Some_0@;
                if row.auth.stored_ref() is Some {
                    ClearView::Write(
                        WriteView {
                            row: RegistrationView {
                                auth: AuthView::NoAuth,
                                updated_at: now,
                                ..row
                            },
                            old_ref: row.auth.stored_ref(),
                        },
                    )
                } else {
                    ClearView::Answer(cleared())
                }
            },
        }
    }
}

/// Decides what is done where a stored credential is to be cleared.
pub fn op_delete_credential(
    sealable: bool,
    kind: Kind,
    name: &str,
    fetched: Fetched,
    now: i64,
) -> (r: ClearStep)
    ensures
        r@ == clear_step(sealable, kind, name@, fetched, now),
{
    if !sealable {
        return ClearStep::Answer(unknown_name_response(name));
    }
    let existing = match fetched {
        Ok(Some(r)) => r,
        Ok(None) => {
            return ClearStep::Answer(unknown_name_response(name));
        },
        Err(e) => {
            return ClearStep::Answer(registration_error_response(&e));
        },
    };
    if existing.kind != kind {
        return ClearStep::Answer(wrong_kind_response(existing.kind, kind));
    }
    let old_ref = old_reference(&existing.auth);
    if old_ref.is_none() {
        return ClearStep::Answer(cleared_response());
    }
    let mut row = existing;
    row.auth = AuthSpec::NoAuth;
    row.updated_at = now;
    ClearStep::Write(CredentialWrite { row, old_ref })
}

/// The answer after a credential was cleared, or not.
pub fn clear_finished(written: &Result<(), RegistrationError>) -> (r: Reply)
    ensures
        match *written {
            Ok(()) => r@ == cleared(),
            Err(e) => r@ == error_reply(e),
        },
{
    match written {
        Ok(()) => cleared_response(),
        Err(e) => registration_error_response(e),
    }
}

/// Storing a new credential keeps the header, names the new reference, and gives
/// the old one up.
pub proof fn law_rotation_gives_the_old_reference_up(
    existing: RegistrationView,
    header: Seq<char>,
    old_ref: Seq<char>,
    new_ref: Seq<char>,
    now: i64,
)
    requires
        existing.auth == (AuthView::StoredHeader { header, secret_ref: old_ref }),
    ensures
        credential_written(existing, new_ref, now).row.auth == (AuthView::StoredHeader {
            header,
            secret_ref: new_ref,
        }),
        credential_written(existing, new_ref, now).old_ref == Some(old_ref),
{
}

/// Storing a credential and clearing it again leaves a registration without
/// authentication, and gives the stored one up.
pub proof fn law_clear_undoes_store(
    existing: Registration,
    written: Registration,
    secret_ref: Seq<char>,
    name: Seq<char>,
    t: i64,
    now: i64,
)
    requires
        written@ == credential_written(existing@, secret_ref, t).row,
    ensures
        clear_step(true, existing.kind, name, Ok(Some(written)), now) == ClearView::Write(
            WriteView {
                row: RegistrationView { auth: AuthView::NoAuth, updated_at: now, ..existing@ },
                old_ref: Some(secret_ref),
            },
        ),
{
}

/// The value of an environment variable: that of the first pair with its name.
pub open spec fn env_value(env: Seq<(Seq<char>, Seq<char>)>, var: Seq<char>, from: int) -> Option<
    Seq<char>,
>
    decreases env.len() - from,
{
    if from < 0 || from >= env.len() {
        None
    } else if env[from].0 == var {
        Some(env[from].1)
    } else {
        env_value(env, var, from + 1)
    }
}

/// The credentials that come from the environment, by the names of the
/// registrations; a variable that is not set gives none.
pub open spec fn env_creds_of(
    rows: Seq<RegistrationView>,
    env: Seq<(Seq<char>, Seq<char>)>,
) -> Map<Seq<char>, Seq<char>>
    decreases rows.len(),
{
    if rows.len() == 0 {
        Map::empty()
    } else {
        let rest = env_creds_of(rows.drop_last(), env);
        match rows.last().auth.env() {
            None => rest,
            Some(var) => match env_value(env, var, 0) {
                None => rest,
                Some(v) => rest.insert(rows.last().name, v),
            },
        }
    }
}

fn find_env(env: &Vec<(String, String)>, var: &str) -> (r: Option<String>)
    ensures
        opt_text(r) == env_value(pair_views(env@), var@, 0),
{
    let mut i: usize = 0;
    while i < env.len()
        invariant
            i <= env@.len(),
            env_value(pair_views(env@), var@, 0) == env_value(pair_views(env@), var@, i as int),
        decreases env.len() - i,
    {
        assert(pair_views(env@)[i as int] == (env@[i as int].0@, env@[i as int].1@));
        if same(env[i].0.as_str(), var) {
            return Some(env[i].1.clone());
        }
        i = i + 1;
    }
    None
}

/// The credentials that come from the environment.
pub fn env_creds(rows: &Vec<Registration>, env: &Vec<(String, String)>) -> (r: ResolvedCreds)
    ensures
        r@ == env_creds_of(row_views(rows@), pair_views(env@)),
{
    let mut out = ResolvedCreds::new();
    let mut i: usize = 0;
    let ghost all = row_views(rows@);
    assert(all.take(0) =~= Seq::empty());
    while i < rows.len()
        invariant
            i <= rows@.len(),
            all == row_views(rows@),
            out@ == env_creds_of(all.take(i as int), pair_views(env@)),
        decreases rows.len() - i,
    {
        assert(all.take(i + 1).drop_last() =~= all.take(i as int));
        assert(all.take(i + 1).last() == rows@[i as int]@);
        match rows[i].auth.to_secret_ref() {
            Some(SecretRef::FromEnv { var, prefix: _ }) => match find_env(env, var.as_str()) {
                Some(v) => out.insert(rows[i].name.clone(), Secret::new(v)),
                None => {},
            },
            None => {},
        }
        i = i + 1;
    }
    assert(all.take(all.len() as int) =~= all);
    out
}

/// A stored credential: the registration that it is for, its ciphertext and the nonce
/// that it was sealed with.
pub struct StoredCredential {
    pub name: String,
    pub ciphertext: Vec<u8>,
    pub nonce: Vec<u8>,
}

/// What a [`StoredCredential`] says.
#[verifier::ext_equal]
pub ghost struct StoredView {
    pub name: Seq<char>,
    pub ciphertext: Seq<u8>,
    pub nonce: Seq<u8>,
}

impl View for StoredCredential {
    type V = StoredView;

    open spec fn view(&self) -> StoredView {
        StoredView { name: self.name@, ciphertext: self.ciphertext@, nonce: self.nonce@ }
    }
}

/// What stored credentials say.
pub open spec fn stored_views(v: Seq<StoredCredential>) -> Seq<StoredView> {
    Seq::new(v.len(), |i: int| v[i]@)
}

/// The text of a stored credential, where it opens with the key and is a text.
pub open spec fn opened_text(key: Seq<u8>, c: StoredView) -> Option<Seq<char>> {
    if c.nonce.len() != NONCE_LEN {
        None
    } else {
        match gcm_opened(key, c.nonce, c.ciphertext) {
            Some(plain) => if valid_utf8(plain) {
                Some(decode_utf8(plain))
            } else {
                None
            },
            None => None,
        }
    }
}

/// The credentials that open, by the names of their registrations. One that does not
/// open, or is no text, is left out.
pub open spec fn stored_creds_of(key: Seq<u8>, v: Seq<StoredView>) -> Map<Seq<char>, Seq<char>>
    decreases v.len(),
{
    if v.len() == 0 {
        Map::empty()
    } else {
        let rest = stored_creds_of(key, v.drop_last());
        match opened_text(key, v.last()) {
            Some(t) => rest.insert(v.last().name, t),
            None => rest,
        }
    }
}

/// The credentials that open.
pub fn stored_creds(key: &SealingKey, stored: &Vec<StoredCredential>) -> (r: ResolvedCreds)
    ensures
        r@ == stored_creds_of(key.bytes(), stored_views(stored@)),
{
    let mut out = ResolvedCreds::new();
    let ghost all = stored_views(stored@);
    let mut i: usize = 0;
    assert(all.take(0) =~= Seq::empty());
    while i < stored.len()
        invariant
            i <= stored@.len(),
            all == stored_views(stored@),
            out@ == stored_creds_of(key.bytes(), all.take(i as int)),
        decreases stored.len() - i,
    {
        assert(all.take(i + 1).drop_last() =~= all.take(i as int));
        assert(all.take(i + 1).last() == stored@[i as int]@);
        let c = &stored[i];
        match key.unseal(c.ciphertext.as_slice(), c.nonce.as_slice()) {
            Ok(plain) => match read_utf8(plain) {
                Some(text) => out.insert(c.name.clone(), Secret::new(text)),
                None => {},
            },
            Err(_) => {},
        }
        i = i + 1;
    }
    assert(all.take(all.len() as int) =~= all);
    out
}

/// A credential that was sealed for a registration is served to it again.
pub proof fn law_stored_credential_is_opened(key: Seq<u8>, c: StoredView, value: Seq<char>)
    requires
        c.nonce.len() == NONCE_LEN,
        gcm_opened(key, c.nonce, c.ciphertext) == Some(encode_utf8(value)),
    ensures
        stored_creds_of(key, seq![c]) == Map::<Seq<char>, Seq<char>>::empty().insert(
            c.name,
            value,
        ),
{
    broadcast use vstd::utf8::group_utf8_lib;

    assert(seq![c].drop_last() =~= Seq::empty());
    assert(stored_creds_of(key, seq![c].drop_last()) == Map::<Seq<char>, Seq<char>>::empty());
}

/// What the proxy serves from after a change: the rows as they were read, and the
/// credentials with those of the environment in place of earlier ones, and the stored
/// ones in place of these. Where the rows could not be read, everything stays.
pub fn refresh_runtime(
    fetched: Result<Vec<Registration>, RegistrationError>,
    env: &Vec<(String, String)>,
    stored: ResolvedCreds,
    catalog: Catalog,
    creds: ResolvedCreds,
) -> (r: (Catalog, ResolvedCreds))
    ensures
        match fetched {
            Ok(rows) => {
                &&& r.0.wf()
                &&& r.0.by_name() == catalog_of(row_views(rows@))
                &&& r.1@ == refreshed(
                    creds@,
                    env_creds_of(row_views(rows@), pair_views(env@)),
                    stored@,
                )
            },
            Err(_) => r.0 == catalog && r.1 == creds,
        },
{
    match fetched {
        Ok(rows) => {
            let mut merged = creds;
            merged.extend(env_creds(&rows, env));
            merged.extend(stored);
            (Catalog::from_rows(rows), merged)
        },
        Err(_) => (catalog, creds),
    }
}

/// A put that is written makes a row that says what its body says: the description, the
/// address and how it is authenticated as they were sent, and everything else that the body
/// states; what it leaves open has its usual value.
pub proof fn law_put_row_says_what_the_body_says(
    kind: Kind,
    name: String,
    body: PutBody,
    fetched: Fetched,
    now: i64,
    step: PutStep,
)
    requires
        step@ == put_step(kind, name@, body@, fetched, now),
    ensures
        step matches PutStep::Write { row, is_update } ==> {
            &&& row.name@ == name@ && row.kind == kind
            &&& row.description@ == body.description@
            &&& row.upstream@ == body.upstream@
            &&& body.auth matches Some(a) ==> row.auth@ == a@
            &&& body.auth is None ==> row.auth@ is NoAuth && kind == Kind::Infra
            &&& body.egress matches Some(e) ==> row.egress == e
            &&& body.egress is None ==> row.egress == EgressMode::Proxied
            &&& body.timeouts matches Some(t) ==> row.timeouts == t
            &&& body.timeouts is None ==> row.timeouts.request_seconds == 30
                && row.timeouts.idle_seconds == 60
            &&& body.body_limit_bytes matches Some(n) ==> row.body_limit_bytes == n
            &&& body.body_limit_bytes is None ==> row.body_limit_bytes == 10 * 1024 * 1024
            &&& body.metadata matches Some(m) ==> row.metadata@ == m@
            &&& body.metadata is None ==> row.metadata@ == JsonView::Object(Seq::empty())
            &&& !row.seed && row.updated_at == now
        },
{
}

/// Two puts of the same body give the same row, whatever stood under the name, but for
/// when it was made and whether it is disabled.
pub proof fn law_put_replaces_what_was_there(
    kind: Kind,
    name: Seq<char>,
    body: PutView,
    a: Fetched,
    b: Fetched,
    now: i64,
)
    requires
        put_step(kind, name, body, a, now) is Write,
        put_step(kind, name, body, b, now) is Write,
    ensures
        ({
            let x = put_step(kind, name, body, a, now)->row;
            let y = put_step(kind, name, body, b, now)->row;
            x == (RegistrationView { disabled: x.disabled, created_at: x.created_at, ..y })
        }),
{
}

/// A put is written exactly if its name may be registered, it is said how it is
/// authenticated (middleware may leave it out), a reference to an outside vault has
/// something after its scheme, and what stands under the name, if anything, is of that
/// kind.
pub proof fn law_what_puts_are_written(
    kind: Kind,
    name: Seq<char>,
    body: PutView,
    fetched: Fetched,
    now: i64,
)
    ensures
        put_step(kind, name, body, fetched, now) is Write <==> {
            &&& valid_name(name)
            &&& body.auth is Some || kind == Kind::Infra
            &&& body.auth matches Some(AuthView::OpHeader { reference, .. }) ==> reference.len() > 5
                && reference.take(5) == "op://"@
            &&& body.auth matches Some(AuthView::OpBearer { reference }) ==> reference.len() > 5
                && reference.take(5) == "op://"@
            &&& fetched is Ok
            &&& fetched->Ok_0 matches Some(r) ==> r.kind == kind
        },
{
    reveal_strlit("op://");
    assert("op://"@.len() == 5);
}

/// A put of a free name is a creation, made now and enabled. Where a row stands there, it
/// keeps its time, and the put is an update if that is another time.
pub proof fn law_puts_are_told_apart(
    kind: Kind,
    name: Seq<char>,
    body: PutView,
    fetched: Fetched,
    now: i64,
)
    requires
        put_step(kind, name, body, fetched, now) is Write,
    ensures
        ({
            let step = put_step(kind, name, body, fetched, now);
            &&& fetched->Ok_0 is None ==> !step->is_update && step->row.created_at == now
                && !step->row.disabled
            &&& fetched->Ok_0 matches Some(r) ==> step->is_update == (r.created_at != now)
                && step->row.created_at == r.created_at && step->row.disabled == r.disabled
        }),
{
}

/// Refused puts are told why: 400 for the name, for what is missing and for a bad
/// reference, 409 where the name belongs to another kind.
pub proof fn law_refused_puts_have_their_status(
    kind: Kind,
    name: Seq<char>,
    body: PutView,
    fetched: Fetched,
    now: i64,
)
    requires
        put_step(kind, name, body, fetched, now) is Refuse,
    ensures
        ({
            let said = put_step(kind, name, body, fetched, now)->Refuse_0;
            &&& !valid_name(name) ==> said.status == 400
            &&& body.auth is None && kind != Kind::Infra ==> said.status == 400
            &&& valid_name(name) && body.auth == Some(AuthView::NoAuth) && fetched is Ok ==>
                said.status == 409
        }),
{
}

/// An operator sees every field of a registration under its own name.
pub proof fn law_operators_see_every_field(r: Registration)
    ensures
        ({
            let j = admin_json(r@);
            &&& holds(j, "name"@, JsonView::Str(r.name@))
            &&& holds(j, "kind"@, JsonView::Str(kind_name(r.kind)))
            &&& holds(j, "description"@, JsonView::Str(r.description@))
            &&& holds(j, "upstream"@, JsonView::Str(r.upstream@))
            &&& holds(j, "auth"@, auth_json(r.auth@))
            &&& holds(j, "egress"@, JsonView::Str(egress_name(r.egress)))
            &&& holds(j, "timeouts"@, timeouts_json(r.timeouts))
            &&& holds(j, "body_limit_bytes"@, jnat(r.body_limit_bytes as nat))
            &&& holds(j, "metadata"@, r.metadata@)
            &&& holds(j, "seed"@, JsonView::Bool(r.seed))
            &&& holds(j, "disabled"@, JsonView::Bool(r.disabled))
            &&& holds(j, "created_at"@, jint(r.created_at as int))
            &&& holds(j, "updated_at"@, jint(r.updated_at as int))
            &&& j->Object_0.len() == 13
        }),
{
    broadcast use lemma_with_holds;

}

/// An agent sees of a registration its name, where it is called, and its description, and
/// nothing else.
pub proof fn law_agents_see_name_path_and_description(r: Registration)
    ensures
        public_json(r@) == JsonView::Object(
            seq![
                ("name"@, JsonView::Str(r.name@)),
                ("type"@, JsonView::Str("api"@)),
                ("path"@, JsonView::Str("/api/"@ + r.name@)),
                ("description"@, JsonView::Str(r.description@)),
            ],
        ),
{
    assert(public_json(r@)->Object_0 =~= seq![
        ("name"@, JsonView::Str(r.name@)),
        ("type"@, JsonView::Str("api"@)),
        ("path"@, JsonView::Str("/api/"@ + r.name@)),
        ("description"@, JsonView::Str(r.description@)),
    ]);
}

/// The list that an agent sees grows with each further row of that kind that is enabled
/// and that is neither on the agent's deny list nor missing from its allow list, and with
/// no other; the order is that of the rows.
pub proof fn law_list_is_in_the_order_of_the_rows(
    rows: Seq<RegistrationView>,
    r: RegistrationView,
    kind: Kind,
    identity: Option<IdentityView>,
)
    ensures
        public_list(Seq::empty(), kind, identity).len() == 0,
        public_list(rows.push(r), kind, identity) == public_list(rows, kind, identity) + (
        if r.kind == kind && !r.disabled && (identity is None || (
        (identity->Some_0.tool_denylist matches Some(d) ==> !d.contains(r.name)) && (
        identity->Some_0.tool_allowlist matches Some(l) ==> l.contains(r.name)))) {
            seq![public_json(r)]
        } else {
            Seq::empty()
        }),
{
    assert(rows.push(r).drop_last() =~= rows);
    let rest = public_list(rows, kind, identity);
    assert(rest + Seq::empty() =~= rest);
    assert(rest + seq![public_json(r)] =~= rest.push(public_json(r)));
}

/// What is looked up under a name is acted on only where it is there and of the asked
/// kind: a missing one is answered 404, one of another kind 409, and nothing is changed.
pub proof fn law_only_rows_of_the_kind_are_acted_on(
    kind: Kind,
    name: Seq<char>,
    fetched: Fetched,
    now: i64,
)
    ensures
        fetched matches Ok(None) ==> {
            &&& get_reply(kind, name, fetched).status == 404
            &&& delete_step(kind, name, fetched) == DeleteView::Refuse(
                get_reply(kind, name, fetched),
            )
            &&& clear_step(true, kind, name, fetched, now) == ClearView::Answer(
                get_reply(kind, name, fetched),
            )
            &&& not_of_kind(kind, name, fetched) == Some(get_reply(kind, name, fetched))
            &&& credential_refusal(true, kind, name, fetched) == Some(
                get_reply(kind, name, fetched),
            )
        },
        (fetched matches Ok(Some(r)) && r.kind != kind) ==> {
            &&& get_reply(kind, name, fetched).status == 409
            &&& delete_step(kind, name, fetched) == DeleteView::Refuse(
                get_reply(kind, name, fetched),
            )
            &&& clear_step(true, kind, name, fetched, now) == ClearView::Answer(
                get_reply(kind, name, fetched),
            )
            &&& not_of_kind(kind, name, fetched) == Some(get_reply(kind, name, fetched))
            &&& (credential_refusal(true, kind, name, fetched) matches Some(said) && said.status
                == 404)
        },
        (fetched matches Ok(Some(r)) && r.kind == kind) ==> {
            &&& get_reply(kind, name, fetched).status == 200
            &&& get_reply(kind, name, fetched).body == Some(admin_json(fetched->Ok_0->Some_0@))
            &&& not_of_kind(kind, name, fetched) is None
            &&& credential_refusal(true, kind, name, fetched) is None
            &&& fetched->Ok_0->Some_0.seed ==> delete_step(kind, name, fetched) is Disable
            &&& !fetched->Ok_0->Some_0.seed ==> delete_step(kind, name, fetched) is Remove
        },
        credential_refusal(false, kind, name, fetched) matches Some(said) && said.status == 404,
        clear_step(false, kind, name, fetched, now) matches ClearView::Answer(said) && said.status
            == 404,
{
}

/// Storing a credential changes how a registration is authenticated and when it was
/// changed, and nothing else. A header keeps its name; whatever else was said becomes a
/// bearer token. The reference is the new one.
pub proof fn law_storing_changes_the_authentication_only(
    r: Registration,
    secret_ref: Seq<char>,
    now: i64,
)
    ensures
        ({
            let row = credential_written(r@, secret_ref, now).row;
            &&& row.name == r.name@ && row.kind == r.kind && row.description == r.description@
            &&& row.upstream == r.upstream@ && row.egress == r.egress && row.timeouts == r.timeouts
            &&& row.body_limit_bytes == r.body_limit_bytes && row.metadata == r.metadata@
            &&& row.seed == r.seed && row.disabled == r.disabled && row.created_at == r.created_at
            &&& row.updated_at == now
            &&& r.auth matches AuthSpec::Header { header, .. } ==> row.auth
                == (AuthView::StoredHeader { header: header@, secret_ref })
            &&& r.auth matches AuthSpec::StoredHeader { header, .. } ==> row.auth
                == (AuthView::StoredHeader { header: header@, secret_ref })
            &&& !(r.auth is Header || r.auth is StoredHeader) ==> row.auth
                == (AuthView::StoredBearer { secret_ref })
        }),
        credential_written(r@, secret_ref, now).old_ref == match r.auth {
            AuthSpec::StoredHeader { secret_ref: earlier, .. } => Some(earlier@),
            AuthSpec::StoredBearer { secret_ref: earlier } => Some(earlier@),
            _ => None,
        },
{
}

/// The operator who stored a credential is told the reference and the time; the value is
/// not in the answer.
pub proof fn law_stored_credential_is_answered_with_its_reference(
    secret_ref: Seq<char>,
    now: i64,
)
    ensures
        credential_reply(secret_ref, now, Ok(())).status == 200,
        credential_reply(secret_ref, now, Ok(())).body == Some(
            JsonView::Object(
                seq![
                    ("secret_ref"@, JsonView::Str(secret_ref)),
                    ("set_at"@, jint(now as int)),
                ],
            ),
        ),
{
    assert(credential_reply(secret_ref, now, Ok(())).body->Some_0->Object_0 =~= seq![
        ("secret_ref"@, JsonView::Str(secret_ref)),
        ("set_at"@, jint(now as int)),
    ]);
}

/// Clearing takes the authentication of a registration away where its credential is
/// stored, gives that one up, and changes nothing else; where none is stored, nothing is
/// written.
pub proof fn law_clearing_changes_the_authentication_only(
    r: Registration,
    name: Seq<char>,
    now: i64,
)
    ensures
        ({
            let step = clear_step(true, r.kind, name, Ok(Some(r)), now);
            &&& step is Write <==> r.auth is StoredHeader || r.auth is StoredBearer
            &&& step is Answer ==> step->Answer_0.status == 200
            &&& step matches ClearView::Write(w) ==> {
                &&& w.row.auth is NoAuth && w.row.updated_at == now
                &&& w.row == (RegistrationView {
                    auth: w.row.auth,
                    updated_at: w.row.updated_at,
                    ..r@
                })
                &&& r.auth matches AuthSpec::StoredHeader { secret_ref, .. } ==> w.old_ref == Some(
                    secret_ref@,
                )
                &&& r.auth matches AuthSpec::StoredBearer { secret_ref } ==> w.old_ref == Some(
                    secret_ref@,
                )
            }
        }),
{
}

/// A variable has the value of the first pair with its name, and none where there is no
/// such pair.
pub proof fn law_first_pair_of_a_variable_counts(
    env: Seq<(Seq<char>, Seq<char>)>,
    var: Seq<char>,
    from: int,
)
    requires
        0 <= from <= env.len(),
    ensures
        env_value(env, var, from) is None <==> forall|k: int|
            from <= k < env.len() ==> (#[trigger] env[k]).0 != var,
        env_value(env, var, from) matches Some(v) ==> exists|k: int|
            from <= k < env.len() && #[trigger] env[k] == (var, v) && forall|h: int|
                from <= h < k ==> (#[trigger] env[h]).0 != var,
    decreases env.len() - from,
{
    if from < env.len() {
        if env[from].0 == var {
            assert(env[from] == (var, env[from].1));
        } else {
            law_first_pair_of_a_variable_counts(env, var, from + 1);
            if let Some(v) = env_value(env, var, from + 1) {
                let k = choose|k: int|
                    from + 1 <= k < env.len() && #[trigger] env[k] == (var, v) && forall|h: int|
                        from + 1 <= h < k ==> (#[trigger] env[h]).0 != var;
                assert forall|h: int| from <= h < k implies (#[trigger] env[h]).0 != var by {}
            }
        }
    }
}

/// A registration that takes its credential from a variable of the environment gets that
/// variable's value, unless a later row of its name gets one; no other name gets any.
pub proof fn law_rows_get_the_values_of_their_variables(
    rows: Seq<RegistrationView>,
    env: Seq<(Seq<char>, Seq<char>)>,
    name: Seq<char>,
)
    ensures
        env_creds_of(rows, env).dom().contains(name) <==> exists|k: int|
            0 <= k < rows.len() && gets(#[trigger] rows[k], env, name) is Some,
        env_creds_of(rows, env).dom().contains(name) ==> exists|k: int|
            0 <= k < rows.len() && gets(#[trigger] rows[k], env, name) == Some(
                env_creds_of(rows, env)[name],
            ) && forall|h: int|
                k < h < rows.len() ==> gets(#[trigger] rows[h], env, name) is None,
    decreases rows.len(),
{
    if rows.len() > 0 {
        let front = rows.drop_last();
        law_rows_get_the_values_of_their_variables(front, env, name);
        let last = rows.len() - 1;
        assert(rows[last] == rows.last());
        assert forall|k: int| 0 <= k < front.len() implies #[trigger] front[k] == rows[k] by {}
        if gets(rows.last(), env, name) is None {
            if env_creds_of(front, env).dom().contains(name) {
                let k = choose|k: int|
                    0 <= k < front.len() && gets(#[trigger] front[k], env, name) == Some(
                        env_creds_of(front, env)[name],
                    ) && forall|h: int|
                        k < h < front.len() ==> gets(#[trigger] front[h], env, name) is None;
                assert(gets(rows[k], env, name) == Some(env_creds_of(rows, env)[name]));
                assert forall|h: int| k < h < rows.len() implies gets(
                    #[trigger] rows[h],
                    env,
                    name,
                ) is None by {
                    if h < last {
                        assert(gets(front[h], env, name) is None);
                    }
                }
            } else {
                assert forall|k: int| 0 <= k < rows.len() implies gets(
                    #[trigger] rows[k],
                    env,
                    name,
                ) is None by {
                    if k < last {
                        assert(gets(front[k], env, name) is None);
                    }
                }
            }
        }
    }
}

/// What a row gives a name: the value of its variable, where it has that name and one.
pub open spec fn gets(
    r: RegistrationView,
    env: Seq<(Seq<char>, Seq<char>)>,
    name: Seq<char>,
) -> Option<Seq<char>> {
    match r.auth {
        AuthView::Header { env_var, .. } => if r.name == name {
            env_value(env, env_var, 0)
        } else {
            None
        },
        AuthView::Bearer { env_var } => if r.name == name {
            env_value(env, env_var, 0)
        } else {
            None
        },
        _ => None,
    }
}

/// Each further stored credential that opens to a text stands for its registration in
/// place of an earlier one; one that does not leaves the others as they are.
pub proof fn law_stored_credentials_are_opened_one_by_one(
    key: Seq<u8>,
    v: Seq<StoredView>,
    c: StoredView,
    value: Seq<char>,
)
    ensures
        c.nonce.len() == 12 && gcm_opened(key, c.nonce, c.ciphertext) == Some(encode_utf8(value))
            ==> stored_creds_of(key, v.push(c)) == stored_creds_of(key, v).insert(c.name, value),
        c.nonce.len() != 12 || gcm_opened(key, c.nonce, c.ciphertext) is None ==> stored_creds_of(
            key,
            v.push(c),
        ) == stored_creds_of(key, v),
{
    broadcast use vstd::utf8::group_utf8_lib;

    assert(v.push(c).drop_last() =~= v);
}

/// A name that is taken, by the same kind or another, is a conflict, a failure of the store
/// is one of the daemon, and everything else is a bad request. Each error has a code of its
/// own, and its answer says its message.
pub proof fn law_errors_are_answered_by_their_cause(e: RegistrationError)
    ensures
        error_reply(e).status == 409 <==> e is NameInUse || e is WrongKind,
        error_reply(e).status == 500 <==> e is Backend,
        error_reply(e).status == 400 <==> !(e is NameInUse || e is WrongKind || e is Backend),
        error_reply(e).retry_after is None,
        error_reply(e).body == Some(
            coded_error(
                registration_message(e),
                if e is NameInUse || e is WrongKind {
                    "conflict"@
                } else if e is Backend {
                    "auth_error"@
                } else {
                    "bad_request"@
                },
                match e {
                    RegistrationError::NameInUse { .. } => "name_in_use"@,
                    RegistrationError::WrongKind { .. } => "wrong_kind"@,
                    RegistrationError::ReservedName => "reserved_name"@,
                    RegistrationError::InvalidName(_) => "invalid_name"@,
                    RegistrationError::AuthRequired => "auth_required"@,
                    RegistrationError::ModelAuthRequired => "model_auth_required"@,
                    RegistrationError::InvalidMetadata(_) => "invalid_metadata"@,
                    RegistrationError::Backend(_) => "internal_error"@,
                },
            ),
        ),
{
}

/// Where nothing has the name, the answer is 404 and says the name.
pub proof fn law_unknown_names_are_said(name: Seq<char>)
    ensures
        unknown_name(name).status == 404,
        unknown_name(name).body == Some(
            coded_error("registration not found: "@ + name, "not_found"@, "unknown_name"@),
        ),
{
}

/// A row that was written is answered with what an operator sees of it, a change without an
/// answer of its own with no body, and one that failed with its error.
pub proof fn law_written_rows_are_answered(row: Registration, e: RegistrationError)
    ensures
        written_reply(row@, Ok(())).status == 200,
        written_reply(row@, Ok(())).body == Some(admin_json(row@)),
        written_reply(row@, Err(e)) == error_reply(e),
        done_reply(Ok(())).status == 204,
        done_reply(Ok(())).body is None,
        done_reply(Err(e)) == error_reply(e),
        internal_error().status == 500,
{
}

/// A change to a registration is recorded with its kind, its name and what was done, in the
/// members of the record and in its message.
pub proof fn law_changes_are_recorded(action: Seq<char>, kind: Kind, name: Seq<char>)
    ensures
        ({
            let log = registry_log(action, kind, name);
            &&& log.component == LogComponent::Registry
            &&& log.level == LogLevel::Info
            &&& log.event == "registration_"@ + action
            &&& log.message == "registration "@ + action + ": "@ + kind_name(kind) + " "@ + name
            &&& log.fields matches Some(j)
            &&& holds(j, "kind"@, JsonView::Str(kind_name(kind)))
            &&& holds(j, "name"@, JsonView::Str(name))
            &&& holds(j, "action"@, JsonView::Str(action))
            &&& j->Object_0.len() == 3
        }),
{
    broadcast use lemma_with_holds;

    let log = registry_log(action, kind, name);
    assert(log.message =~= "registration "@ + action + ": "@ + kind_name(kind) + " "@ + name);
}

/// A name is refused for the first of these that holds: it is empty, it is longer than 64
/// bytes, it has a character that is not allowed, it is reserved.
pub proof fn law_names_are_refused_for_their_fault(name: Seq<char>)
    ensures
        ({
            let long = vstd::utf8::encode_utf8(name).len() > 64;
            &&& name_refusal(name).status == 400
            &&& name.len() == 0 ==> name_refusal(name).body == Some(
                coded_error("invalid name: "@ + "name is empty"@, "bad_request"@, "invalid_name"@),
            )
            &&& name.len() > 0 && long ==> name_refusal(name).body == Some(
                coded_error(
                    "invalid name: "@ + "name exceeds 64 characters"@,
                    "bad_request"@,
                    "invalid_name"@,
                ),
            )
            &&& name.len() > 0 && !long && name_chars(name) ==> name_refusal(name) == error_reply(
                RegistrationError::ReservedName,
            )
            &&& name.len() > 0 && !long && !name_chars(name) ==> name_refusal(name).body == Some(
                coded_error(
                    "invalid name: "@ + "name contains invalid characters (allowed: a-z 0-9 -)"@,
                    "bad_request"@,
                    "invalid_name"@,
                ),
            )
        }),
{
}

/// The credentials that are known after a fresh look: what is sealed in the store counts
/// first, then what the environment says, and what was known before counts where neither
/// says anything.
pub open spec fn refreshed(
    before: Map<Seq<char>, Seq<char>>,
    env: Map<Seq<char>, Seq<char>>,
    stored: Map<Seq<char>, Seq<char>>,
) -> Map<Seq<char>, Seq<char>> {
    before.union_prefer_right(env).union_prefer_right(stored)
}

/// After a fresh look a registration has the credential that is sealed in the store, where
/// there is one, else the one of its environment variable, else the one that it had; and
/// none where there never was one.
pub proof fn law_freshest_credential_counts(
    before: Map<Seq<char>, Seq<char>>,
    env: Map<Seq<char>, Seq<char>>,
    stored: Map<Seq<char>, Seq<char>>,
    name: Seq<char>,
)
    ensures
        ({
            let now = refreshed(before, env, stored);
            &&& stored.contains_key(name) ==> now.contains_key(name) && now[name] == stored[name]
            &&& !stored.contains_key(name) && env.contains_key(name) ==> now.contains_key(name)
                && now[name] == env[name]
            &&& !stored.contains_key(name) && !env.contains_key(name) ==> (now.contains_key(name)
                <==> before.contains_key(name))
            &&& !stored.contains_key(name) && !env.contains_key(name) && before.contains_key(name)
                ==> now[name] == before[name]
        }),
{
}

/// The word for what a put did to a registration.
pub open spec fn put_word(is_update: bool) -> Seq<char> {
    if is_update {
        "updated"@
    } else {
        "created"@
    }
}

/// A put of a name that was there is recorded as an update, one of a new name as a creation.
pub proof fn law_puts_are_recorded_as_what_they_are(kind: Kind, name: Seq<char>)
    ensures
        registry_log(put_word(true), kind, name).event == "registration_"@ + "updated"@,
        registry_log(put_word(false), kind, name).event == "registration_"@ + "created"@,
{
}

/// An operator gets every row of a kind, the disabled ones included, in the order of the
/// rows, under the plural of the kind's name.
pub proof fn law_operators_get_every_row(kind: Kind, v: Vec<Registration>, i: int)
    requires
        0 <= i < v@.len(),
    ensures
        list_reply(kind, Ok(v)).status == 200,
        list_reply(kind, Ok(v)).body matches Some(j) && {
            &&& j->Object_0.len() == 1
            &&& j->Object_0[0].0 == kind_name(kind) + "s"@
            &&& j->Object_0[0].1 matches JsonView::Array(shown)
            &&& shown.len() == v@.len()
            &&& shown[i] == admin_json(v@[i]@)
        },
{
}

/// A credential that was cleared is answered 200, and says so.
pub proof fn law_cleared_credentials_are_answered()
    ensures
        cleared().status == 200,
        cleared().body == Some(JsonView::Object(seq![("cleared"@, JsonView::Bool(true))])),
{
    assert(cleared().body->Some_0->Object_0 =~= seq![("cleared"@, JsonView::Bool(true))]);
}

/// A reference that names no vault is refused with 400, and is said.
pub proof fn law_bad_references_are_said(reference: Seq<char>)
    ensures
        bad_reference(reference).status == 400,
        bad_reference(reference).body == Some(
            coded_error(
                "invalid metadata: "@ + ("op custody reference must use the op:// scheme, got: "@
                    + reference),
                "bad_request"@,
                "invalid_metadata"@,
            ),
        ),
{
}

/// What could not be looked up is answered with the error of the store, whatever was asked;
/// a registration of the kind is shown as it is.
pub proof fn law_failed_lookups_are_answered(
    kind: Kind,
    name: Seq<char>,
    e: RegistrationError,
    r: Registration,
)
    ensures
        get_reply(kind, name, Err(e)) == error_reply(e),
        get_reply(kind, name, Ok(None)) == unknown_name(name),
        r.kind != kind ==> get_reply(kind, name, Ok(Some(r))) == error_reply(
            RegistrationError::WrongKind { existing_kind: r.kind, requested_kind: kind },
        ),
        r.kind == kind ==> get_reply(kind, name, Ok(Some(r))).status == 200 && get_reply(
            kind,
            name,
            Ok(Some(r)),
        ).body == Some(admin_json(r@)),
        delete_step(kind, name, Err(e)) == DeleteView::Refuse(error_reply(e)),
        internal_error().body == Some(
            coded_error("internal error"@, "auth_error"@, "internal_error"@),
        ),
{
}

} // verus!
