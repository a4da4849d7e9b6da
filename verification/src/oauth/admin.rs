//! What operators can do with OAuth sessions: start one, look at it, list them,
//! and drop one. No token is ever shown.
use vstd::prelude::*;

use crate::json::{
    holds, jempty, jint, jopt_int, jstr, jstrs, lemma_with_holds, views, Json, JsonView,
};
use crate::oauth::refresh::{
    refresh_message, refresh_result, refresh_session, refreshed, Exchange, RefreshError,
    RefreshFault,
};
use crate::oauth::sealing::{SealingKey, NONCE_LEN};
use crate::oauth::session::{
    draw_nonce, new_session, no_nonce, session_id, session_message, OauthSession,
    OauthSessionError, SealedView, SessionFault, SessionView, DEFAULT_SESSION_LABEL,
};
use crate::oauth::store::{
    create_fault, created_with, line_of, line_views, unique_message, LineView,
    OauthSessionRepository, SessionKey, SessionLine,
};
use crate::registrations::auth_spec::AuthView;
use crate::registrations::{registration_message, Catalog, Registration, RegistrationError};
use crate::reply::{coded_error, empty_reply, reply, Reply, ReplyView};
use crate::text::{cat, cat3, has_text, join, joined, opt_text, same, starts, texts};

verus! {

/// The label in a request's query.
#[derive(Debug)]
pub struct LabelQuery {
    pub label: Option<String>,
}

/// The label that is meant.
pub open spec fn label_of(label: Option<Seq<char>>) -> Seq<char> {
    match label {
        Some(l) => l,
        None => DEFAULT_SESSION_LABEL@,
    }
}

impl LabelQuery {
    /// The label that is meant: the given one, else the default.
    pub fn label_or_default(&self) -> (r: &str)
        ensures
            r@ == label_of(opt_text(self.label)),
    {
        match &self.label {
            Some(l) => l.as_str(),
            None => DEFAULT_SESSION_LABEL,
        }
    }
}

/// What an operator sends to start a session.
pub struct BootstrapBody {
    pub refresh_token: String,
}

/// The answer to a failed store of registrations.
pub open spec fn registrations_failed(e: RegistrationError) -> ReplyView {
    reply(
        500,
        coded_error(
            "registrations: "@ + registration_message(e),
            "auth_error"@,
            "internal_error"@,
        ),
    )
}

/// The answer to a failed store of sessions.
pub open spec fn sessions_failed(e: SessionFault) -> ReplyView {
    reply(
        500,
        coded_error("oauth_sessions: "@ + session_message(e), "auth_error"@, "internal_error"@),
    )
}

fn sessions_failed_reply(e: &OauthSessionError) -> (r: Reply)
    ensures
        r@ == sessions_failed(e@),
{
    Reply::coded(
        500,
        cat("oauth_sessions: ", e.message().as_str()).as_str(),
        "auth_error",
        "internal_error",
    )
}

/// Whether a way of authentication is an OAuth one.
pub open spec fn is_oauth(a: AuthView) -> bool {
    a is OauthPkce || a is OauthDeviceCode
}

/// Why no session can be started for what was found under a name, if so: it must
/// be a registration of an OAuth kind.
pub open spec fn bootstrap_refusal(
    fetched: Result<Option<Registration>, RegistrationError>,
) -> Option<ReplyView> {
    match fetched {
        Err(e) => Some(registrations_failed(e)),
        Ok(None) => Some(
            reply(
                404,
                coded_error("registration not found"@, "not_found"@, "unknown_name"@),
            ),
        ),
        Ok(Some(r)) => if is_oauth(r.auth@) {
            None
        } else {
            Some(
                reply(
                    400,
                    coded_error(
                        "registration is not an OAuth shape"@,
                        "bad_request"@,
                        "not_oauth_registration"@,
                    ),
                ),
            )
        },
    }
}

/// The view of an optional reply.
pub open spec fn opt_reply(r: Option<Reply>) -> Option<ReplyView> {
    match r {
        Some(x) => Some(x@),
        None => None,
    }
}

/// Why no session can be started for what was found under a name, if so.
pub fn op_oauth_bootstrap(fetched: &Result<Option<Registration>, RegistrationError>) -> (r: Option<
    Reply,
>)
    ensures
        opt_reply(r) == bootstrap_refusal(*fetched),
{
    match fetched {
        Err(e) => Some(
            Reply::coded(
                500,
                cat("registrations: ", e.message().as_str()).as_str(),
                "auth_error",
                "internal_error",
            ),
        ),
        Ok(None) => Some(Reply::coded(404, "registration not found", "not_found", "unknown_name")),
        Ok(Some(r)) => {
            if r.auth.is_oauth() {
                None
            } else {
                Some(
                    Reply::coded(
                        400,
                        "registration is not an OAuth shape",
                        "bad_request",
                        "not_oauth_registration",
                    ),
                )
            }
        },
    }
}

/// The answer where a session could not be kept: one with that name and label is
/// there already, or the store failed.
pub open spec fn create_refusal(e: SessionFault) -> ReplyView {
    let m = session_message(e);
    if crate::text::contains_text(m, "UNIQUE"@) || crate::text::contains_text(m, "constraint"@) {
        reply(
            409,
            coded_error(
                "session already bootstrapped; revoke before re-bootstrapping"@,
                "conflict"@,
                "session_exists"@,
            ),
        )
    } else {
        sessions_failed(e)
    }
}

/// The answer where a session could not be kept.
pub fn create_refused(e: &OauthSessionError) -> (r: Reply)
    ensures
        r@ == create_refusal(e@),
{
    let m = e.message();
    if has_text(m.as_str(), "UNIQUE") || has_text(m.as_str(), "constraint") {
        return Reply::coded(
            409,
            "session already bootstrapped; revoke before re-bootstrapping",
            "conflict",
            "session_exists",
        );
    }
    sessions_failed_reply(e)
}

/// The labels of the other sessions of a registration, in order.
pub open spec fn other_labels(
    lines: Seq<LineView>,
    name: Seq<char>,
    label: Seq<char>,
) -> Seq<Seq<char>>
    decreases lines.len(),
{
    if lines.len() == 0 {
        Seq::empty()
    } else {
        let rest = other_labels(lines.drop_last(), name, label);
        let k = lines.last().key;
        if k.name == name && k.label != label {
            rest.push(k.label)
        } else {
            rest
        }
    }
}

/// The warning that other sessions of a registration may have lost their grants.
pub open spec fn collision_text(
    name: Seq<char>,
    label: Seq<char>,
    others: Seq<Seq<char>>,
) -> Seq<char> {
    "Registration `"@ + name + ("` already has session label(s): "@ + joined(others, ", "@) + (
    ". If those sessions point at the same upstream account as label `"@ + label
        + "`, the provider has likely invalidated the prior refresh tokens (single-grant OAuth policy on OpenAI ChatGPT, GitHub, Google, etc.). Per-agent OAuth requires distinct upstream accounts; see concepts/per-agent-credentials.md."@))
}

/// The warnings about other sessions of a registration.
pub open spec fn warnings_of(
    lines: Option<Seq<LineView>>,
    name: Seq<char>,
    label: Seq<char>,
) -> Seq<Seq<char>> {
    match lines {
        None => Seq::empty(),
        Some(l) => if other_labels(l, name, label).len() == 0 {
            Seq::empty()
        } else {
            seq![collision_text(name, label, other_labels(l, name, label))]
        },
    }
}

fn labels_beside(lines: &Vec<SessionLine>, name: &str, label: &str) -> (r: Vec<String>)
    ensures
        texts(r@) == other_labels(line_views(lines@), name@, label@),
{
    let ghost all = line_views(lines@);
    let mut out: Vec<String> = Vec::new();
    let mut i: usize = 0;
    assert(texts(out@) =~= other_labels(all.take(0), name@, label@));
    while i < lines.len()
        invariant
            i <= lines@.len(),
            all == line_views(lines@),
            texts(out@) == other_labels(all.take(i as int), name@, label@),
        decreases lines.len() - i,
    {
        assert(all.take(i + 1).drop_last() =~= all.take(i as int));
        assert(all.take(i + 1).last() == lines@[i as int]@);
        if same(lines[i].name.as_str(), name) && !same(lines[i].session_label.as_str(), label) {
            let ghost before = out@;
            out.push(lines[i].session_label.clone());
            assert(texts(out@) =~= texts(before).push(lines@[i as int].session_label@));
        }
        i = i + 1;
    }
    assert(all.take(all.len() as int) =~= all);
    out
}

/// The view of an optional list of sessions.
pub open spec fn opt_lines(l: Option<Vec<SessionLine>>) -> Option<Seq<LineView>> {
    match l {
        Some(v) => Some(line_views(v@)),
        None => None,
    }
}

/// The warnings about other sessions of a registration. Where the sessions could
/// not be listed there are none.
pub fn collision_warnings(
    lines: &Option<Vec<SessionLine>>,
    name: &str,
    bootstrapped_label: &str,
) -> (r: Vec<String>)
    ensures
        texts(r@) == warnings_of(opt_lines(*lines), name@, bootstrapped_label@),
{
    let mut out: Vec<String> = Vec::new();
    assert(texts(out@) =~= Seq::empty());
    match lines {
        None => {},
        Some(l) => {
            let others = labels_beside(l, name, bootstrapped_label);
            assert(texts(others@).len() == others@.len());
            if others.len() > 0 {
                let labels = join(&others, ", ");
                let tail = cat3(
                    ". If those sessions point at the same upstream account as label `",
                    bootstrapped_label,
                    "`, the provider has likely invalidated the prior refresh tokens (single-grant OAuth policy on OpenAI ChatGPT, GitHub, Google, etc.). Per-agent OAuth requires distinct upstream accounts; see concepts/per-agent-credentials.md.",
                );
                let middle = cat3(
                    "` already has session label(s): ",
                    labels.as_str(),
                    tail.as_str(),
                );
                out.push(cat3("Registration `", name, middle.as_str()));
                assert(texts(out@) =~= seq![
                    collision_text(name@, bootstrapped_label@, texts(others@)),
                ]);
            }
        },
    }
    out
}

/// What an operator sees of a session.
pub open spec fn session_status(s: SessionView, present: bool) -> JsonView {
    jempty().with("name"@, jstr(s.name)).with("session_label"@, jstr(s.session_label)).with(
        "present"@,
        JsonView::Bool(present),
    ).with("scope"@, jstr(s.scope)).with("degraded"@, JsonView::Bool(s.degraded)).with(
        "access_token_expires_at"@,
        jopt_int(s.access_token_expires_at),
    ).with("created_at"@, jint(s.created_at as int)).with(
        "updated_at"@,
        jint(s.updated_at as int),
    ).with("audit_session_id"@, jstr(session_id(s.name, s.session_label, s.created_at)))
}

/// What an operator sees of a session.
pub fn session_status_json(session: &OauthSession, present: bool) -> (r: Json)
    ensures
        r@ == session_status(session@, present),
{
    Json::object().with("name", Json::text(session.name.as_str())).with(
        "session_label",
        Json::text(session.session_label.as_str()),
    ).with("present", Json::Bool(present)).with("scope", Json::text(session.scope.as_str())).with(
        "degraded",
        Json::Bool(session.degraded),
    ).with("access_token_expires_at", Json::opt_int(session.access_token_expires_at)).with(
        "created_at",
        Json::integer(session.created_at),
    ).with("updated_at", Json::integer(session.updated_at)).with(
        "audit_session_id",
        Json::text(session.audit_session_id().as_str()),
    )
}

/// What an operator sees of a session does not depend on its tokens.
pub proof fn law_status_shows_no_token(a: SessionView, b: SessionView, present: bool)
    requires
        b == (SessionView {
            refresh_token: b.refresh_token,
            access_token: b.access_token,
            account_id: b.account_id,
            ..a
        }),
    ensures
        session_status(a, present) == session_status(b, present),
{
}

/// The answer after the first exchange of a new session's tokens.
pub open spec fn bootstrapped(
    refreshed: Result<SessionView, RefreshFault>,
    warnings: Seq<Seq<char>>,
) -> ReplyView {
    match refreshed {
        Err(e) => reply(
            502,
            coded_error(
                "refresh exchange failed: "@ + refresh_message(e),
                "auth_error"@,
                "oauth_bootstrap_failed"@,
            ),
        ),
        Ok(s) => reply(
            200,
            if warnings.len() == 0 {
                session_status(s, true)
            } else {
                session_status(s, true).with("warnings"@, jstrs(warnings))
            },
        ),
    }
}

/// The answer after the first exchange of a new session's tokens, and whether the
/// session is to be dropped again because the exchange failed.
pub fn bootstrap_finished(refreshed: &Result<OauthSession, RefreshError>, warnings: &Vec<String>) -> (r:
    (Reply, bool))
    ensures
        r.0@ == bootstrapped(refresh_result(*refreshed), texts(warnings@)),
        r.1 == (refreshed is Err),
{
    match refreshed {
        Err(e) => (
            Reply::coded(
                502,
                cat("refresh exchange failed: ", e.message().as_str()).as_str(),
                "auth_error",
                "oauth_bootstrap_failed",
            ),
            true,
        ),
        Ok(s) => {
            let body = session_status_json(s, true);
            assert(texts(warnings@).len() == warnings@.len());
            let body = if warnings.len() == 0 {
                body
            } else {
                body.with("warnings", Json::texts(warnings))
            };
            (Reply::new(200, body), false)
        },
    }
}

/// The session that an operator starts, before the first exchange of its tokens.
pub open spec fn first_session(
    name: Seq<char>,
    label: Seq<char>,
    refresh_token: Seq<char>,
    now: i64,
) -> SessionView {
    new_session(name, label, refresh_token, None, None, ""@, now)
}

/// Why a session cannot be started, if so: there is no registration for it, or it
/// cannot be kept.
pub open spec fn start_refusal(
    kept: Map<SessionKey, SealedView>,
    fetched: Result<Option<Registration>, RegistrationError>,
    s: SessionView,
) -> Option<ReplyView> {
    match bootstrap_refusal(fetched) {
        Some(why) => Some(why),
        None => match create_fault(kept, s) {
            Some(f) => Some(create_refusal(f)),
            None => None,
        },
    }
}

/// Whether the start of a session gave `r` and left `after`, where there was a nonce to
/// seal it with. A refusal changes nothing.
pub open spec fn bootstrap_started_with(
    before: OauthSessionRepository,
    after: OauthSessionRepository,
    key: Seq<u8>,
    fetched: Result<Option<Registration>, RegistrationError>,
    s: SessionView,
    r: Result<OauthSession, Reply>,
) -> bool {
    match (start_refusal(before.kept(), fetched, s), r) {
        (Some(why), Err(x)) => x@ == why && after.kept() == before.kept(),
        (None, Ok(x)) => created_with(before, after, key, s, Ok(x)),
        _ => false,
    }
}

/// Whether the start of a session gave `r` and left `after`. Where there were no random
/// bytes for a nonce nothing changes either.
pub open spec fn bootstrap_started(
    before: OauthSessionRepository,
    after: OauthSessionRepository,
    key: Seq<u8>,
    fetched: Result<Option<Registration>, RegistrationError>,
    s: SessionView,
    r: Result<OauthSession, Reply>,
) -> bool {
    ||| bootstrap_started_with(before, after, key, fetched, s, r)
    ||| {
        &&& bootstrap_refusal(fetched) is None
        &&& r is Err
        &&& exists|f: SessionFault| no_nonce(f) && r->Err_0@ == #[trigger] create_refusal(f)
        &&& after.kept() == before.kept()
    }
}

/// Starts a session for what was found under a name, sealed with the given nonce: it is
/// kept with the refresh token that the operator sent, and without an access token.
pub fn bootstrap_start_with(
    repo: &mut OauthSessionRepository,
    key: &SealingKey,
    fetched: &Result<Option<Registration>, RegistrationError>,
    name: &str,
    session_label: &str,
    body: &BootstrapBody,
    nonce: &[u8],
    now: i64,
) -> (r: Result<OauthSession, Reply>)
    requires
        nonce@.len() == NONCE_LEN,
    ensures
        bootstrap_started_with(
            *old(repo),
            *final(repo),
            key.bytes(),
            *fetched,
            first_session(name@, session_label@, body.refresh_token@, now),
            r,
        ),
{
    if let Some(refusal) = op_oauth_bootstrap(fetched) {
        return Err(refusal);
    }
    let token = body.refresh_token.as_str();
    match repo.create_with(key, name, session_label, token, None, None, "", nonce, &[], now) {
        Ok(s) => Ok(s),
        Err(e) => Err(create_refused(&e)),
    }
}

/// Starts a session for what was found under a name, sealed with a fresh random nonce.
pub fn bootstrap_start(
    repo: &mut OauthSessionRepository,
    key: &SealingKey,
    fetched: &Result<Option<Registration>, RegistrationError>,
    name: &str,
    session_label: &str,
    body: &BootstrapBody,
    now: i64,
) -> (r: Result<OauthSession, Reply>)
    ensures
        bootstrap_started(
            *old(repo),
            *final(repo),
            key.bytes(),
            *fetched,
            first_session(name@, session_label@, body.refresh_token@, now),
            r,
        ),
{
    if let Some(refusal) = op_oauth_bootstrap(fetched) {
        return Err(refusal);
    }
    match draw_nonce(true) {
        Ok(nonce) => bootstrap_start_with(
            repo,
            key,
            fetched,
            name,
            session_label,
            body,
            nonce.as_slice(),
            now,
        ),
        Err(e) => {
            let refusal = create_refused(&e);
            assert(refusal@ == create_refusal(e@));
            Err(refusal)
        },
    }
}

/// Whether the first exchange of the tokens of the session `s`, whose outcome is
/// `x`, was answered with `r` and left `after`. Where it failed, the session is
/// dropped.
pub open spec fn bootstrap_ended(
    before: OauthSessionRepository,
    after: OauthSessionRepository,
    s: SessionView,
    x: Result<OauthSession, RefreshError>,
    r: ReplyView,
) -> bool {
    let k = SessionKey { name: s.name, label: s.session_label };
    match x {
        Ok(_) => r == bootstrapped(
            refresh_result(x),
            warnings_of(
                Some(after.rows().map_values(|row: SealedView| line_of(row))),
                s.name,
                s.session_label,
            ),
        ),
        Err(_) => after.kept() == before.kept().remove(k) && r == bootstrapped(
            refresh_result(x),
            Seq::empty(),
        ),
    }
}

/// Ends the start of a session, given what the first exchange of its tokens came to:
/// the session stays, or it is dropped.
pub fn bootstrap_conclude(
    repo: &mut OauthSessionRepository,
    session: &OauthSession,
    refreshed: &Result<OauthSession, RefreshError>,
) -> (r: Reply)
    ensures
        refreshed is Ok ==> *final(repo) == *old(repo),
        bootstrap_ended(*old(repo), *final(repo), session@, *refreshed, r@),
{
    match refreshed {
        Ok(_) => {
            let lines = Some(repo.list_all());
            let warnings = collision_warnings(
                &lines,
                session.name.as_str(),
                session.session_label.as_str(),
            );
            bootstrap_finished(refreshed, &warnings).0
        },
        Err(_) => {
            let _dropped = repo.delete(session.name.as_str(), session.session_label.as_str());
            let none: Vec<String> = Vec::new();
            assert(texts(none@) =~= Seq::empty());
            bootstrap_finished(refreshed, &none).0
        },
    }
}

/// Ends the start of a session with what its provider answered: the tokens are kept,
/// or the session is dropped.
pub fn bootstrap_end(
    repo: &mut OauthSessionRepository,
    catalog: &Catalog,
    key: &SealingKey,
    session: &OauthSession,
    exchange: Exchange,
    now: i64,
) -> (r: Reply)
    requires
        catalog.wf(),
    ensures
        exists|mid: OauthSessionRepository, x: Result<OauthSession, RefreshError>|
            {
                &&& #[trigger] refreshed(
                    *old(repo),
                    mid,
                    catalog.by_name(),
                    key.bytes(),
                    session@,
                    exchange,
                    now,
                    x,
                )
                &&& x is Ok ==> mid == *final(repo)
                &&& bootstrap_ended(*old(repo), *final(repo), session@, x, r@)
            },
{
    let ghost before = *repo;
    let refreshed = refresh_session(repo, catalog, key, session, exchange, now);
    let ghost mid = *repo;
    let r = bootstrap_conclude(repo, session, &refreshed);
    proof {
        let k = SessionKey { name: session.name@, label: session.session_label@ };
        if refreshed is Err {
            assert(mid.kept().remove(k) =~= before.kept().remove(k));
        }
    }
    r
}

/// A start that failed leaves no trace: the sessions are what they were, so that it
/// can be tried again.
pub proof fn law_failed_bootstrap_leaves_no_trace(
    before: OauthSessionRepository,
    started: OauthSessionRepository,
    after: OauthSessionRepository,
    key: Seq<u8>,
    fetched: Result<Option<Registration>, RegistrationError>,
    s: SessionView,
    r: Result<OauthSession, Reply>,
    x: Result<OauthSession, RefreshError>,
    answer: ReplyView,
)
    requires
        bootstrap_started(before, started, key, fetched, s, r),
    ensures
        r is Err ==> started.kept() == before.kept(),
        r is Ok && bootstrap_ended(started, after, s, x, answer) && answer.status != 200
            ==> after.kept() == before.kept(),
{
    let k = SessionKey { name: s.name, label: s.session_label };
    if r is Ok && x is Err {
        assert(started.kept().remove(k) =~= before.kept());
    }
}

/// The answer to a look at a session, given what was found.
pub open spec fn status_reply(
    name: Seq<char>,
    label: Seq<char>,
    got: Result<Option<OauthSession>, OauthSessionError>,
) -> ReplyView {
    match got {
        Ok(Some(s)) => reply(200, session_status(s@, true)),
        Ok(None) => reply(
            200,
            jempty().with("name"@, jstr(name)).with("session_label"@, jstr(label)).with(
                "present"@,
                JsonView::Bool(false),
            ),
        ),
        Err(e) => sessions_failed(e@),
    }
}

/// The answer to a look at a session, given what was found.
pub fn op_oauth_status(
    name: &str,
    session_label: &str,
    got: &Result<Option<OauthSession>, OauthSessionError>,
) -> (r: Reply)
    ensures
        r@ == status_reply(name@, session_label@, *got),
{
    match got {
        Ok(Some(s)) => Reply::new(200, session_status_json(s, true)),
        Ok(None) => Reply::new(
            200,
            Json::object().with("name", Json::text(name)).with(
                "session_label",
                Json::text(session_label),
            ).with("present", Json::Bool(false)),
        ),
        Err(e) => sessions_failed_reply(e),
    }
}

/// What an operator sees of a session in the list.
pub open spec fn line_json(l: LineView) -> JsonView {
    jempty().with("name"@, jstr(l.key.name)).with("session_label"@, jstr(l.key.label)).with(
        "degraded"@,
        JsonView::Bool(l.degraded),
    ).with("access_token_expires_at"@, jopt_int(l.expires_at))
}

/// The answer to a request for the list of sessions.
pub open spec fn list_reply(rows: Result<Vec<SessionLine>, OauthSessionError>) -> ReplyView {
    match rows {
        Ok(v) => reply(
            200,
            jempty().with(
                "sessions"@,
                JsonView::Array(line_views(v@).map_values(|l: LineView| line_json(l))),
            ),
        ),
        Err(e) => sessions_failed(e@),
    }
}

/// The answer to a request for the list of sessions.
pub fn op_oauth_list(rows: &Result<Vec<SessionLine>, OauthSessionError>) -> (r: Reply)
    ensures
        r@ == list_reply(*rows),
{
    match rows {
        Ok(v) => {
            let ghost all = line_views(v@).map_values(|l: LineView| line_json(l));
            let mut out: Vec<Json> = Vec::new();
            let mut i: usize = 0;
            assert(views(out@) =~= all.take(0));
            while i < v.len()
                invariant
                    i <= v@.len(),
                    all == line_views(v@).map_values(|l: LineView| line_json(l)),
                    all.len() == v@.len(),
                    views(out@) == all.take(i as int),
                decreases v.len() - i,
            {
                let l = &v[i];
                let ghost before = out@;
                let j = Json::object().with("name", Json::text(l.name.as_str())).with(
                    "session_label",
                    Json::text(l.session_label.as_str()),
                ).with("degraded", Json::Bool(l.degraded)).with(
                    "access_token_expires_at",
                    Json::opt_int(l.expires_at),
                );
                let ghost jv = j@;
                assert(all[i as int] == line_json(l@));
                out.push(j);
                assert(views(out@) =~= views(before).push(jv));
                assert(all.take(i + 1) =~= all.take(i as int).push(all[i as int]));
                i = i + 1;
            }
            assert(all.take(all.len() as int) =~= all);
            Reply::new(200, Json::object().with("sessions", Json::array(out)))
        },
        Err(e) => sessions_failed_reply(e),
    }
}

/// The answer to a request to drop a session: the same whether there was one or
/// not.
pub open spec fn revoke_reply(dropped: Result<bool, OauthSessionError>) -> ReplyView {
    match dropped {
        Ok(_) => empty_reply(204),
        Err(e) => sessions_failed(e@),
    }
}

/// The answer to a request to drop a session.
pub fn op_oauth_revoke(dropped: &Result<bool, OauthSessionError>) -> (r: Reply)
    ensures
        r@ == revoke_reply(*dropped),
{
    match dropped {
        Ok(_) => Reply::empty(204),
        Err(e) => sessions_failed_reply(e),
    }
}

/// A request without a label means the session with the label `default`.
pub proof fn law_missing_label_is_the_default(q: LabelQuery)
    ensures
        q.label matches Some(l) ==> label_of(opt_text(q.label)) == l@,
        q.label is None ==> label_of(opt_text(q.label)) == "default"@,
{
}

/// A session can be started only for a registration that is there and authenticates by
/// OAuth: else the answer is 404, 400, or 500 where the store failed.
pub proof fn law_sessions_are_for_oauth_registrations(
    fetched: Result<Option<Registration>, RegistrationError>,
)
    ensures
        bootstrap_refusal(fetched) is None <==> (fetched matches Ok(Some(r)) && (
        r.auth is OauthPkce || r.auth is OauthDeviceCode)),
        fetched matches Ok(None) ==> bootstrap_refusal(fetched)->Some_0.status == 404,
        (fetched matches Ok(Some(r)) && !(r.auth is OauthPkce || r.auth is OauthDeviceCode))
            ==> bootstrap_refusal(fetched)->Some_0.status == 400,
        fetched is Err ==> bootstrap_refusal(fetched)->Some_0.status == 500,
{
}

/// A second session with one name and label is answered 409.
pub proof fn law_second_session_is_a_conflict(
    kept: Map<SessionKey, SealedView>,
    fetched: Result<Option<Registration>, RegistrationError>,
    s: SessionView,
)
    requires
        bootstrap_refusal(fetched) is None,
        kept.contains_key(SessionKey { name: s.name, label: s.session_label }),
        create_fault(kept, s) matches Some(f) && f is Database,
    ensures
        start_refusal(kept, fetched, s) matches Some(said) && said.status == 409,
{
    reveal_strlit("database: ");
    reveal_strlit(
        "UNIQUE constraint failed: oauth_sessions.name, oauth_sessions.session_label",
    );
    reveal_strlit("UNIQUE");
    let f = create_fault(kept, s)->Some_0;
    let m = session_message(f);
    assert(m == "database: "@ + unique_message());
    assert(m.skip(10).take(6) =~= "UNIQUE"@);
    assert(starts(m.skip(10), "UNIQUE"@));
}

/// The session that an operator starts has the given name, label and refresh token, and no
/// access token yet.
pub proof fn law_started_session_has_the_given_token(
    name: Seq<char>,
    label: Seq<char>,
    refresh_token: Seq<char>,
    now: i64,
)
    ensures
        ({
            let s = first_session(name, label, refresh_token, now);
            &&& s.name == name && s.session_label == label && s.refresh_token == refresh_token
            &&& s.access_token is None && s.access_token_expires_at is None && s.scope == ""@
            &&& !s.degraded && s.created_at == now && s.updated_at == now
            &&& s.account_id is None
        }),
{
}

/// The other labels are those of the sessions with that name and another label, in order.
pub proof fn law_other_labels_of_the_name(
    lines: Seq<LineView>,
    l: LineView,
    name: Seq<char>,
    label: Seq<char>,
)
    ensures
        other_labels(Seq::empty(), name, label).len() == 0,
        l.key.name == name && l.key.label != label ==> other_labels(lines.push(l), name, label)
            == other_labels(lines, name, label) + seq![l.key.label],
        l.key.name != name || l.key.label == label ==> other_labels(lines.push(l), name, label)
            == other_labels(lines, name, label),
{
    assert(lines.push(l).drop_last() =~= lines);
    let rest = other_labels(lines, name, label);
    assert(rest + seq![l.key.label] =~= rest.push(l.key.label));
}

/// The operator is warned exactly if there are other sessions of the registration, and is
/// told their labels.
pub proof fn law_operators_are_warned_of_other_sessions(
    lines: Seq<LineView>,
    name: Seq<char>,
    label: Seq<char>,
)
    ensures
        warnings_of(None, name, label).len() == 0,
        warnings_of(Some(lines), name, label).len() > 0 <==> other_labels(lines, name, label).len()
            > 0,
        other_labels(lines, name, label).len() > 0 ==> warnings_of(Some(lines), name, label)
            == seq![collision_text(name, label, other_labels(lines, name, label))],
{
}

/// An operator sees of a session everything but its tokens, each under its own name.
pub proof fn law_sessions_are_shown_field_by_field(s: OauthSession, present: bool)
    ensures
        ({
            let j = session_status(s@, present);
            &&& holds(j, "name"@, JsonView::Str(s.name@))
            &&& holds(j, "session_label"@, JsonView::Str(s.session_label@))
            &&& holds(j, "present"@, JsonView::Bool(present))
            &&& holds(j, "scope"@, JsonView::Str(s.scope@))
            &&& holds(j, "degraded"@, JsonView::Bool(s.degraded))
            &&& holds(j, "access_token_expires_at"@, match s.access_token_expires_at {
                Some(at) => jint(at as int),
                None => JsonView::Null,
            })
            &&& holds(j, "created_at"@, jint(s.created_at as int))
            &&& holds(j, "updated_at"@, jint(s.updated_at as int))
            &&& holds(
                j,
                "audit_session_id"@,
                JsonView::Str(session_id(s.name@, s.session_label@, s.created_at)),
            )
            &&& j->Object_0.len() == 9
        }),
{
    broadcast use lemma_with_holds;

}

/// The first exchange of a session's tokens is answered 200 with the session if it
/// succeeded, and 502 if it did not; warnings are told with the session.
pub proof fn law_starts_are_answered_by_their_outcome(
    s: SessionView,
    e: RefreshFault,
    warnings: Seq<Seq<char>>,
)
    ensures
        bootstrapped(Ok(s), warnings).status == 200,
        bootstrapped(Err(e), warnings).status == 502,
        warnings.len() == 0 ==> bootstrapped(Ok(s), warnings).body == Some(session_status(s, true)),
        warnings.len() > 0 ==> (bootstrapped(Ok(s), warnings).body matches Some(j) && holds(
            j,
            "warnings"@,
            jstrs(warnings),
        ) && holds(j, "name"@, JsonView::Str(s.name))),
{
    broadcast use lemma_with_holds;

}

/// A look at a session says whether it is there: a session that is, is shown; one that is
/// not, is named.
pub proof fn law_status_says_whether_a_session_is_there(
    name: Seq<char>,
    label: Seq<char>,
    got: Result<Option<OauthSession>, OauthSessionError>,
)
    ensures
        got matches Ok(Some(s)) ==> status_reply(name, label, got).status == 200 && status_reply(
            name,
            label,
            got,
        ).body == Some(session_status(s@, true)),
        got matches Ok(None) ==> status_reply(name, label, got).status == 200 && status_reply(
            name,
            label,
            got,
        ).body == Some(
            JsonView::Object(
                seq![
                    ("name"@, JsonView::Str(name)),
                    ("session_label"@, JsonView::Str(label)),
                    ("present"@, JsonView::Bool(false)),
                ],
            ),
        ),
        got is Err ==> status_reply(name, label, got).status == 500,
{
    if let Ok(None) = got {
        assert(status_reply(name, label, got).body->Some_0->Object_0 =~= seq![
            ("name"@, JsonView::Str(name)),
            ("session_label"@, JsonView::Str(label)),
            ("present"@, JsonView::Bool(false)),
        ]);
    }
}

/// The list of sessions has a line for each, with its name, label, state and end, in order.
pub proof fn law_sessions_are_listed_line_by_line(v: Vec<SessionLine>, i: int)
    requires
        0 <= i < v@.len(),
    ensures
        list_reply(Ok(v)).status == 200,
        list_reply(Ok(v)).body matches Some(j) && holds(
            j,
            "sessions"@,
            JsonView::Array(line_views(v@).map_values(|l: LineView| line_json(l))),
        ),
        line_views(v@).map_values(|l: LineView| line_json(l)).len() == v@.len(),
        line_views(v@).map_values(|l: LineView| line_json(l))[i] == JsonView::Object(
            seq![
                ("name"@, JsonView::Str(v@[i].name@)),
                ("session_label"@, JsonView::Str(v@[i].session_label@)),
                ("degraded"@, JsonView::Bool(v@[i].degraded)),
                ("access_token_expires_at"@, jopt_int(v@[i].expires_at)),
            ],
        ),
{
    broadcast use lemma_with_holds;

    assert(line_json(v@[i]@)->Object_0 =~= seq![
        ("name"@, JsonView::Str(v@[i].name@)),
        ("session_label"@, JsonView::Str(v@[i].session_label@)),
        ("degraded"@, JsonView::Bool(v@[i].degraded)),
        ("access_token_expires_at"@, jopt_int(v@[i].expires_at)),
    ]);
}

/// Dropping a session is answered 204 whether or not there was one.
pub proof fn law_dropping_is_answered_alike(a: bool, b: bool, e: OauthSessionError)
    ensures
        revoke_reply(Ok(a)) == revoke_reply(Ok(b)),
        revoke_reply(Ok(a)).status == 204,
        revoke_reply(Ok(a)).body is None,
        revoke_reply(Err(e)).status == 500,
{
}

/// The answers where no session can be started have a code that says why: the name is not
/// known, the registration is no OAuth one, or a session is there already. What failed in a
/// store is said.
pub proof fn law_refused_starts_have_their_code(
    e: RegistrationError,
    r: Registration,
    f: SessionFault,
    x: RefreshFault,
    warnings: Seq<Seq<char>>,
)
    ensures
        bootstrap_refusal(Ok(None))->Some_0.body == Some(
            coded_error("registration not found"@, "not_found"@, "unknown_name"@),
        ),
        !(r.auth is OauthPkce || r.auth is OauthDeviceCode) ==> bootstrap_refusal(
            Ok(Some(r)),
        )->Some_0.body == Some(
            coded_error(
                "registration is not an OAuth shape"@,
                "bad_request"@,
                "not_oauth_registration"@,
            ),
        ),
        bootstrap_refusal(Err(e))->Some_0.body == Some(
            coded_error(
                "registrations: "@ + registration_message(e),
                "auth_error"@,
                "internal_error"@,
            ),
        ),
        create_refusal(f).status == 409 || create_refusal(f).status == 500,
        create_refusal(f).status == 409 ==> create_refusal(f).body == Some(
            coded_error(
                "session already bootstrapped; revoke before re-bootstrapping"@,
                "conflict"@,
                "session_exists"@,
            ),
        ),
        create_refusal(f).status == 500 ==> create_refusal(f).body == Some(
            coded_error(
                "oauth_sessions: "@ + session_message(f),
                "auth_error"@,
                "internal_error"@,
            ),
        ),
        bootstrapped(Err(x), warnings).body == Some(
            coded_error(
                "refresh exchange failed: "@ + refresh_message(x),
                "auth_error"@,
                "oauth_bootstrap_failed"@,
            ),
        ),
{
}

/// A session that cannot be kept is a conflict exactly if the store says that something is
/// to be unique or that a constraint was broken.
pub proof fn law_conflicts_are_what_the_store_calls_so(f: SessionFault)
    ensures
        create_refusal(f).status == 409 <==> crate::text::contains_text(
            session_message(f),
            "UNIQUE"@,
        ) || crate::text::contains_text(session_message(f), "constraint"@),
{
}

/// A session is refused before it is started for what was found under its name, and else for
/// what is wrong with keeping it.
pub proof fn law_registration_is_looked_at_first(
    kept: Map<SessionKey, SealedView>,
    fetched: Result<Option<Registration>, RegistrationError>,
    s: SessionView,
)
    ensures
        bootstrap_refusal(fetched) is Some ==> start_refusal(kept, fetched, s)
            == bootstrap_refusal(fetched),
        bootstrap_refusal(fetched) is None ==> (start_refusal(kept, fetched, s) is Some
            <==> create_fault(kept, s) is Some),
        bootstrap_refusal(fetched) is None ==> (create_fault(kept, s) matches Some(f)
            ==> start_refusal(kept, fetched, s) == Some(create_refusal(f))),
{
}

/// The warning names the registration, the other labels with commas between them, and the
/// label that was started, in this order.
pub proof fn law_warning_names_the_labels(
    name: Seq<char>,
    label: Seq<char>,
    others: Seq<Seq<char>>,
)
    ensures
        exists|a: Seq<char>, b: Seq<char>, c: Seq<char>, d: Seq<char>|
            collision_text(name, label, others) == #[trigger] (a + name + b + joined(
                others,
                ", "@,
            ) + c + label + d),
{
    let a = "Registration `"@;
    let b = "` already has session label(s): "@;
    let c = ". If those sessions point at the same upstream account as label `"@;
    let d = "`, the provider has likely invalidated the prior refresh tokens (single-grant OAuth policy on OpenAI ChatGPT, GitHub, Google, etc.). Per-agent OAuth requires distinct upstream accounts; see concepts/per-agent-credentials.md."@;
    assert(collision_text(name, label, others) =~= a + name + b + joined(others, ", "@) + c + label
        + d);
}

/// What may be absent is there exactly if it is, and is then what it says.
pub proof fn law_absent_is_absent(r: Reply, v: Vec<SessionLine>)
    ensures
        opt_reply(Some(r)) == Some(r@),
        opt_reply(None) is None,
        opt_lines(Some(v)) == Some(line_views(v@)),
        opt_lines(None) is None,
{
}

} // verus!
