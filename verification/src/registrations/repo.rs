//! Registrations: the rows of the catalogue, their form in the store, and the
//! table that holds them.
use vstd::prelude::*;
use vstd::string::StringSliceAdditionalSpecFns;

use super::auth_spec::{
    auth_json, auth_of, lemma_alike_is_read_back, lemma_auth_is_readable, AuthView,
};
use super::kind::{kind_name, kind_named, law_kind_name_round_trip};
use super::{AuthSpec, Kind, RegistrationError};
use crate::clock::{seconds_at, unix_now};
use crate::config::{
    egress_as_str, egress_from_str, egress_name, egress_named, law_egress_name_round_trip,
    EgressMode, ToolTimeouts,
};
use crate::json::{
    alike, has_name, jempty, jnat, json_text, lemma_alike_members, lemma_not_private,
    lemma_object_view, member, members, parse, parsed_json, readable, write_compact, Json,
    JsonView, NESTING_MAX,
};
use crate::text::{cat, decimal, decimal_int, parse_u64, same, u64_of};

verus! {

/// One row of the catalogue.
#[derive(Debug)]
pub struct Registration {
    pub name: String,
    pub kind: Kind,
    pub description: String,
    pub upstream: String,
    pub auth: AuthSpec,
    pub egress: EgressMode,
    pub timeouts: ToolTimeouts,
    pub body_limit_bytes: u64,
    pub metadata: Json,
    /// The row was shipped with the image, and no operator has changed it.
    pub seed: bool,
    /// The row is kept, and agents do not see it.
    pub disabled: bool,
    pub created_at: i64,
    pub updated_at: i64,
}

/// What a row says.
#[verifier::ext_equal]
pub ghost struct RegistrationView {
    pub name: Seq<char>,
    pub kind: Kind,
    pub description: Seq<char>,
    pub upstream: Seq<char>,
    pub auth: AuthView,
    pub egress: EgressMode,
    pub timeouts: ToolTimeouts,
    pub body_limit_bytes: u64,
    pub metadata: JsonView,
    pub seed: bool,
    pub disabled: bool,
    pub created_at: i64,
    pub updated_at: i64,
}

impl View for Registration {
    type V = RegistrationView;

    open spec fn view(&self) -> RegistrationView {
        RegistrationView {
            name: self.name@,
            kind: self.kind,
            description: self.description@,
            upstream: self.upstream@,
            auth: self.auth@,
            egress: self.egress,
            timeouts: self.timeouts,
            body_limit_bytes: self.body_limit_bytes,
            metadata: self.metadata@,
            seed: self.seed,
            disabled: self.disabled,
            created_at: self.created_at,
            updated_at: self.updated_at,
        }
    }
}

/// What an optional row says.
pub open spec fn opt_row(r: Option<Registration>) -> Option<RegistrationView> {
    match r {
        Some(x) => Some(x@),
        None => None,
    }
}

impl Clone for Registration {
    fn clone(&self) -> (r: Registration)
        ensures
            r@ == self@,
    {
        Registration {
            name: self.name.clone(),
            kind: self.kind,
            description: self.description.clone(),
            upstream: self.upstream.clone(),
            auth: self.auth.clone(),
            egress: self.egress,
            timeouts: self.timeouts,
            body_limit_bytes: self.body_limit_bytes,
            metadata: self.metadata.copy(),
            seed: self.seed,
            disabled: self.disabled,
            created_at: self.created_at,
            updated_at: self.updated_at,
        }
    }
}

/// An operator's row with everything else at its default.
pub open spec fn new_row(
    name: Seq<char>,
    kind: Kind,
    description: Seq<char>,
    upstream: Seq<char>,
    auth: AuthView,
    now: i64,
) -> RegistrationView {
    RegistrationView {
        name,
        kind,
        description,
        upstream,
        auth,
        egress: EgressMode::Direct,
        timeouts: ToolTimeouts { request_seconds: 30, idle_seconds: 60 },
        body_limit_bytes: 10485760,
        metadata: jempty(),
        seed: false,
        disabled: false,
        created_at: now,
        updated_at: now,
    }
}

impl Registration {
    /// An operator's row with everything else at its default, made at `now`.
    pub fn new_at(
        name: String,
        kind: Kind,
        description: String,
        upstream: String,
        auth: AuthSpec,
        now: i64,
    ) -> (r: Registration)
        ensures
            r@ == new_row(name@, kind, description@, upstream@, auth@, now),
    {
        Registration {
            name,
            kind,
            description,
            upstream,
            auth,
            egress: EgressMode::default(),
            timeouts: ToolTimeouts::default(),
            body_limit_bytes: 10 * 1024 * 1024,
            metadata: Json::object(),
            seed: false,
            disabled: false,
            created_at: now,
            updated_at: now,
        }
    }

    /// An operator's row with everything else at its default, made now.
    pub fn new(
        name: String,
        kind: Kind,
        description: String,
        upstream: String,
        auth: AuthSpec,
    ) -> (r: Registration)
        ensures
            exists|t: std::time::SystemTime|
                r@ == new_row(
                    name@,
                    kind,
                    description@,
                    upstream@,
                    auth@,
                    #[trigger] seconds_at(t),
                ),
    {
        let now: i64 = unix_now();
        Registration::new_at(name, kind, description, upstream, auth, now)
    }
}

/// The JSON form of a row's timeouts.
pub open spec fn timeouts_json(t: ToolTimeouts) -> JsonView {
    jempty().with("request_seconds"@, jnat(t.request_seconds as nat)).with(
        "idle_seconds"@,
        jnat(t.idle_seconds as nat),
    )
}

/// The JSON form of a row's timeouts.
pub fn timeouts_to_json(t: ToolTimeouts) -> (r: Json)
    ensures
        r@ == timeouts_json(t),
{
    Json::object().with("request_seconds", Json::count(t.request_seconds)).with(
        "idle_seconds",
        Json::count(t.idle_seconds),
    )
}

/// A number of seconds: the given default where the member is absent, nothing
/// where it is no natural number that fits.
pub open spec fn seconds_member(j: JsonView, key: Seq<char>, default: u64) -> Option<u64> {
    match member(j, key) {
        None => Some(default),
        Some(JsonView::Number(n)) => u64_of(n),
        Some(_) => None,
    }
}

/// Whether an object has no members but the two of a row's timeouts.
pub open spec fn only_timeouts(j: JsonView) -> bool {
    forall|i: int|
        0 <= i < j->Object_0.len() ==> ((#[trigger] j->Object_0[i]).0 == "request_seconds"@
            || j->Object_0[i].0 == "idle_seconds"@)
}

/// The timeouts that a JSON object writes.
pub open spec fn timeouts_of(j: JsonView) -> Option<ToolTimeouts> {
    if j is Object && only_timeouts(j) {
        match (
            seconds_member(j, "request_seconds"@, 30),
            seconds_member(j, "idle_seconds"@, 60),
        ) {
            (Some(request_seconds), Some(idle_seconds)) => Some(
                ToolTimeouts { request_seconds, idle_seconds },
            ),
            _ => None,
        }
    } else {
        None
    }
}

fn read_seconds(j: &Json, key: &str, default: u64) -> (r: Option<u64>)
    ensures
        r == seconds_member(j@, key@, default),
{
    match j.get(key) {
        None => Some(default),
        Some(v) => match v {
            Json::Number(n) => parse_u64(n.as_str()),
            _ => None,
        },
    }
}

/// The timeouts that a JSON value writes.
pub fn timeouts_from_json(j: &Json) -> (r: Option<ToolTimeouts>)
    ensures
        r == timeouts_of(j@),
{
    match j {
        Json::Object(v) => {
            proof {
                lemma_object_view(*v);
            }
            let mut i: usize = 0;
            while i < v.len()
                invariant
                    i <= v@.len(),
                    j@ == JsonView::Object(members(v@)),
                    forall|k: int|
                        0 <= k < i ==> ((#[trigger] j@->Object_0[k]).0 == "request_seconds"@
                            || j@->Object_0[k].0 == "idle_seconds"@),
                decreases v.len() - i,
            {
                assert(j@->Object_0[i as int].0 == v@[i as int].0@);
                if !same(v[i].0.as_str(), "request_seconds") && !same(
                    v[i].0.as_str(),
                    "idle_seconds",
                ) {
                    return None;
                }
                i = i + 1;
            }
            match (read_seconds(j, "request_seconds", 30), read_seconds(j, "idle_seconds", 60)) {
                (Some(request_seconds), Some(idle_seconds)) => Some(
                    ToolTimeouts { request_seconds, idle_seconds },
                ),
                _ => None,
            }
        },
        _ => None,
    }
}

/// Reading the JSON form of timeouts gives the timeouts back.
pub proof fn law_timeouts_round_trip(t: ToolTimeouts)
    ensures
        timeouts_of(timeouts_json(t)) == Some(t),
{
    broadcast use crate::json::lemma_member_with;

    reveal_strlit("request_seconds");
    reveal_strlit("idle_seconds");
    assert("request_seconds"@.len() == 15 && "idle_seconds"@.len() == 12);
    crate::text::law_decimal_round_trip(t.request_seconds);
    crate::text::law_decimal_round_trip(t.idle_seconds);
    let j = timeouts_json(t);
    assert(member(jempty(), "request_seconds"@) is None);
    assert(member(jempty(), "idle_seconds"@) is None);
    assert(member(j, "request_seconds"@) == Some(jnat(t.request_seconds as nat)));
    assert(member(j, "idle_seconds"@) == Some(jnat(t.idle_seconds as nat)));
}

/// The JSON form of timeouts can be written as a text, and a value like it is read
/// as those timeouts.
proof fn lemma_timeouts_are_read_back(t: ToolTimeouts)
    ensures
        readable(timeouts_json(t), NESTING_MAX as nat),
        forall|read: JsonView|
            alike(timeouts_json(t), read) ==> #[trigger] timeouts_of(read) == Some(t),
{
    broadcast use crate::json::lemma_member_with;
    broadcast use crate::json::lemma_readable_with;

    reveal_strlit("request_seconds");
    reveal_strlit("idle_seconds");
    assert("request_seconds"@.len() == 15 && "idle_seconds"@.len() == 12);
    lemma_not_private("request_seconds"@);
    lemma_not_private("idle_seconds"@);
    let j = timeouts_json(t);
    assert(member(jempty(), "request_seconds"@) is None);
    assert(member(jempty(), "idle_seconds"@) is None);
    assert(readable(jempty(), NESTING_MAX as nat));
    assert(decimal(t.request_seconds as nat) == decimal_int(t.request_seconds as int));
    assert(decimal(t.idle_seconds as nat) == decimal_int(t.idle_seconds as int));
    assert(readable(jnat(t.request_seconds as nat), 126));
    assert(readable(jnat(t.idle_seconds as nat), 126));
    assert forall|read: JsonView| alike(j, read) implies #[trigger] timeouts_of(read) == Some(
        t,
    ) by {
        lemma_alike_members(j, read);
        law_timeouts_round_trip(t);
        assert(member(read, "request_seconds"@) == member(j, "request_seconds"@));
        assert(member(read, "idle_seconds"@) == member(j, "idle_seconds"@));
        assert forall|k: int| 0 <= k < read->Object_0.len() implies ((
        #[trigger] read->Object_0[k]).0 == "request_seconds"@ || read->Object_0[k].0
            == "idle_seconds"@) by {
            assert(has_name(j->Object_0, read->Object_0[k].0));
        }
    }
}

/// A row as the store keeps it: flags as 0 or 1, and the structured columns as
/// JSON texts.
#[derive(Debug)]
pub struct RegistrationRow {
    pub name: String,
    pub kind: String,
    pub description: String,
    pub upstream: String,
    pub auth_json: String,
    pub egress: String,
    pub timeouts_json: String,
    pub body_limit_bytes: i64,
    pub metadata_json: String,
    pub seed: i64,
    pub disabled: i64,
    pub created_at: i64,
    pub updated_at: i64,
}

/// The row for the store. It is read back as the same registration, unless that
/// cannot be kept in a row.
pub fn registration_to_row(r: &Registration) -> (w: RegistrationRow)
    ensures
        w.name@ == r.name@,
        w.kind@ == kind_name(r.kind),
        w.description@ == r.description@,
        w.upstream@ == r.upstream@,
        w.auth_json@ == json_text(auth_json(r.auth@)),
        w.egress@ == egress_name(r.egress),
        w.timeouts_json@ == json_text(timeouts_json(r.timeouts)),
        w.body_limit_bytes == r.body_limit_bytes as i64,
        w.metadata_json@ == json_text(r.metadata@),
        w.seed == (if r.seed {
            1int
        } else {
            0int
        }),
        w.disabled == (if r.disabled {
            1int
        } else {
            0int
        }),
        w.created_at == r.created_at,
        w.updated_at == r.updated_at,
        storable(r@) ==> match stored(w) {
            Ok(back) => same_row(r@, back),
            Err(_) => false,
        },
{
    proof {
        lemma_auth_is_readable(r.auth@);
        lemma_timeouts_are_read_back(r.timeouts);
        law_kind_name_round_trip(r.kind);
        law_egress_name_round_trip(r.egress);
    }
    let w = RegistrationRow {
        name: r.name.clone(),
        kind: r.kind.as_str().to_owned(),
        description: r.description.clone(),
        upstream: r.upstream.clone(),
        auth_json: write_compact(&r.auth.to_json()),
        egress: egress_as_str(r.egress).to_owned(),
        timeouts_json: write_compact(&timeouts_to_json(r.timeouts)),
        body_limit_bytes: #[verifier::truncate] (r.body_limit_bytes as i64),
        metadata_json: write_compact(&r.metadata),
        seed: if r.seed {
            1
        } else {
            0
        },
        disabled: if r.disabled {
            1
        } else {
            0
        },
        created_at: r.created_at,
        updated_at: r.updated_at,
    };
    proof {
        if storable(r@) {
            let auth = parsed_json(vstd::utf8::encode_utf8(w.auth_json@));
            lemma_alike_is_read_back(r.auth@, auth->Ok_0);
            let timeouts = parsed_json(vstd::utf8::encode_utf8(w.timeouts_json@));
            assert(timeouts_of(timeouts->Ok_0) == Some(r.timeouts));
        }
    }
    w
}

/// Whether everything of a registration can be kept in a row: its metadata can be
/// written and read back, and its limit on bodies fits the column.
pub open spec fn storable(r: RegistrationView) -> bool {
    readable(r.metadata, NESTING_MAX as nat) && r.body_limit_bytes <= i64::MAX
}

/// Whether two registrations are the same, whatever the order of the members of
/// their metadata.
pub open spec fn same_row(a: RegistrationView, b: RegistrationView) -> bool {
    alike(a.metadata, b.metadata) && b == (RegistrationView { metadata: b.metadata, ..a })
}

/// What is wrong with a stored row, if anything: the columns are tested in the
/// order kind, auth, egress, timeouts, metadata.
pub open spec fn row_fault(
    row: RegistrationRow,
    auth: Result<JsonView, Seq<char>>,
    timeouts: Result<JsonView, Seq<char>>,
    metadata: Result<JsonView, Seq<char>>,
) -> Option<Seq<char>> {
    if kind_named(row.kind@) is None {
        Some("unexpected kind in DB: "@ + row.kind@)
    } else if auth is Err {
        Some("deserialize auth: "@ + auth->Err_0)
    } else if auth_of(auth->Ok_0) is None {
        Some("deserialize auth: not an auth shape"@)
    } else if egress_named(row.egress@) is None {
        Some("unexpected egress in DB: "@ + row.egress@)
    } else if timeouts is Err {
        Some("deserialize timeouts: "@ + timeouts->Err_0)
    } else if timeouts_of(timeouts->Ok_0) is None {
        Some("deserialize timeouts: not a timeouts shape"@)
    } else if metadata is Err {
        Some("deserialize metadata: "@ + metadata->Err_0)
    } else {
        None
    }
}

/// The registration that a stored row without faults writes.
pub open spec fn row_view(
    row: RegistrationRow,
    auth: JsonView,
    timeouts: JsonView,
    metadata: JsonView,
) -> RegistrationView {
    RegistrationView {
        name: row.name@,
        kind: kind_named(row.kind@)->0,
        description: row.description@,
        upstream: row.upstream@,
        auth: auth_of(auth)->0,
        egress: egress_named(row.egress@)->0,
        timeouts: timeouts_of(timeouts)->0,
        body_limit_bytes: if row.body_limit_bytes < 0 {
            0
        } else {
            row.body_limit_bytes as u64
        },
        metadata,
        seed: row.seed != 0,
        disabled: row.disabled != 0,
        created_at: row.created_at,
        updated_at: row.updated_at,
    }
}

/// The view of a parse.
pub open spec fn parse_view(r: Result<Json, String>) -> Result<JsonView, Seq<char>> {
    match r {
        Ok(j) => Ok(j@),
        Err(e) => Err(e@),
    }
}

/// The registration that a stored row writes, its JSON columns being parsed
/// already.
pub fn registration_from_parts(
    row: RegistrationRow,
    auth: Result<Json, String>,
    timeouts: Result<Json, String>,
    metadata: Result<Json, String>,
) -> (r: Result<Registration, RegistrationError>)
    ensures
        match (row_fault(row, parse_view(auth), parse_view(timeouts), parse_view(metadata)), r) {
            (Some(why), Err(RegistrationError::Backend(m))) => m@ == why,
            (None, Ok(x)) => x@ == row_view(row, auth->Ok_0@, timeouts->Ok_0@, metadata->Ok_0@),
            _ => false,
        },
{
    let kind: Kind = match Kind::named(row.kind.as_str()) {
        Some(k) => k,
        None => {
            return Err(
                RegistrationError::Backend(cat("unexpected kind in DB: ", row.kind.as_str())),
            );
        },
    };
    let auth: AuthSpec = match auth {
        Ok(j) => match AuthSpec::from_json(&j) {
            Some(a) => a,
            None => {
                return Err(
                    RegistrationError::Backend("deserialize auth: not an auth shape".to_owned()),
                );
            },
        },
        Err(e) => {
            return Err(RegistrationError::Backend(cat("deserialize auth: ", e.as_str())));
        },
    };
    let egress: EgressMode = match egress_from_str(row.egress.as_str()) {
        Some(m) => m,
        None => {
            return Err(
                RegistrationError::Backend(cat("unexpected egress in DB: ", row.egress.as_str())),
            );
        },
    };
    let timeouts: ToolTimeouts = match timeouts {
        Ok(j) => match timeouts_from_json(&j) {
            Some(t) => t,
            None => {
                return Err(
                    RegistrationError::Backend(
                        "deserialize timeouts: not a timeouts shape".to_owned(),
                    ),
                );
            },
        },
        Err(e) => {
            return Err(RegistrationError::Backend(cat("deserialize timeouts: ", e.as_str())));
        },
    };
    let metadata: Json = match metadata {
        Ok(j) => j,
        Err(e) => {
            return Err(RegistrationError::Backend(cat("deserialize metadata: ", e.as_str())));
        },
    };
    Ok(
        Registration {
            name: row.name,
            kind,
            description: row.description,
            upstream: row.upstream,
            auth,
            egress,
            timeouts,
            body_limit_bytes: if row.body_limit_bytes < 0 {
                0
            } else {
                row.body_limit_bytes as u64
            },
            metadata,
            seed: row.seed != 0,
            disabled: row.disabled != 0,
            created_at: row.created_at,
            updated_at: row.updated_at,
        },
    )
}

/// The registration that a stored row writes, or what is wrong with the row.
pub open spec fn stored(row: RegistrationRow) -> Result<RegistrationView, Seq<char>> {
    let auth = parsed_json(vstd::utf8::encode_utf8(row.auth_json@));
    let timeouts = parsed_json(vstd::utf8::encode_utf8(row.timeouts_json@));
    let metadata = parsed_json(vstd::utf8::encode_utf8(row.metadata_json@));
    match row_fault(row, auth, timeouts, metadata) {
        Some(why) => Err(why),
        None => Ok(row_view(row, auth->Ok_0, timeouts->Ok_0, metadata->Ok_0)),
    }
}

/// The registration that a stored row writes.
pub fn row_to_registration(row: RegistrationRow) -> (r: Result<Registration, RegistrationError>)
    ensures
        match r {
            Ok(x) => stored(row) == Ok::<RegistrationView, Seq<char>>(x@),
            Err(RegistrationError::Backend(m)) => stored(row) == Err::<
                RegistrationView,
                Seq<char>,
            >(m@),
            Err(_) => false,
        },
{
    let auth = parse(row.auth_json.as_str().as_bytes());
    let timeouts = parse(row.timeouts_json.as_str().as_bytes());
    let metadata = parse(row.metadata_json.as_str().as_bytes());
    registration_from_parts(row, auth, timeouts, metadata)
}

/// A row of the store is read field by field: the name, the texts and the times as they
/// are, the flags as not zero, and a limit below zero as none.
pub proof fn law_rows_are_read_field_by_field(
    row: RegistrationRow,
    auth: JsonView,
    timeouts: JsonView,
    metadata: JsonView,
    r: Registration,
)
    requires
        row_fault(row, Ok(auth), Ok(timeouts), Ok(metadata)) is None,
        r@ == row_view(row, auth, timeouts, metadata),
    ensures
        r.name@ == row.name@,
        kind_name(r.kind) == row.kind@,
        r.description@ == row.description@,
        r.upstream@ == row.upstream@,
        auth_of(auth) == Some(r.auth@),
        egress_name(r.egress) == row.egress@,
        timeouts_of(timeouts) == Some(r.timeouts),
        row.body_limit_bytes >= 0 ==> r.body_limit_bytes == row.body_limit_bytes,
        row.body_limit_bytes < 0 ==> r.body_limit_bytes == 0,
        r.metadata@ == metadata,
        r.seed <==> row.seed != 0,
        r.disabled <==> row.disabled != 0,
        r.created_at == row.created_at,
        r.updated_at == row.updated_at,
{
    if row.body_limit_bytes >= 0 {
        assert(row.body_limit_bytes as u64 == row.body_limit_bytes);
    }
}

/// A row is taken exactly if its kind and its way out are known and its three JSON columns
/// can be read as what they are.
pub proof fn law_what_rows_are_taken(
    row: RegistrationRow,
    auth: Result<JsonView, Seq<char>>,
    timeouts: Result<JsonView, Seq<char>>,
    metadata: Result<JsonView, Seq<char>>,
)
    ensures
        row_fault(row, auth, timeouts, metadata) is None <==> {
            &&& row.kind@ == "model"@ || row.kind@ == "tool"@ || row.kind@ == "infra"@
            &&& auth is Ok && auth_of(auth->Ok_0) is Some
            &&& row.egress@ == "direct"@ || row.egress@ == "proxied"@
            &&& timeouts is Ok && timeouts_of(timeouts->Ok_0) is Some
            &&& metadata is Ok
        },
{
}

/// Timeouts are written as seconds of a request and seconds of silence; what is left out is
/// 30 and 60, and no other member is taken.
pub proof fn law_timeouts_are_seconds(t: ToolTimeouts, j: JsonView, i: int)
    ensures
        timeouts_json(t) == JsonView::Object(
            seq![
                ("request_seconds"@, jnat(t.request_seconds as nat)),
                ("idle_seconds"@, jnat(t.idle_seconds as nat)),
            ],
        ),
        timeouts_of(JsonView::Object(Seq::empty())) == Some(
            ToolTimeouts { request_seconds: 30, idle_seconds: 60 },
        ),
        j is Object && 0 <= i < j->Object_0.len() && j->Object_0[i].0 != "request_seconds"@
            && j->Object_0[i].0 != "idle_seconds"@ ==> timeouts_of(j) is None,
        !(j is Object) ==> timeouts_of(j) is None,
{
    assert(timeouts_json(t)->Object_0 =~= seq![
        ("request_seconds"@, jnat(t.request_seconds as nat)),
        ("idle_seconds"@, jnat(t.idle_seconds as nat)),
    ]);
}

/// A row that is made has what it was given, and is an operator's, enabled, made and changed
/// now, with the usual limits.
pub proof fn law_new_rows_are_as_given(
    name: Seq<char>,
    kind: Kind,
    description: Seq<char>,
    upstream: Seq<char>,
    auth: AuthView,
    now: i64,
)
    ensures
        ({
            let r = new_row(name, kind, description, upstream, auth, now);
            &&& r.name == name && r.kind == kind && r.description == description
            &&& r.upstream == upstream && r.auth == auth
            &&& r.egress == EgressMode::Direct && r.timeouts.request_seconds == 30
            &&& r.timeouts.idle_seconds == 60 && r.body_limit_bytes == 10 * 1024 * 1024
            &&& r.metadata == JsonView::Object(Seq::empty())
            &&& !r.seed && !r.disabled && r.created_at == now && r.updated_at == now
        }),
{
}

/// A row that may be absent is there exactly if it is, and is then what it says.
pub proof fn law_absent_is_absent(r: Registration)
    ensures
        opt_row(Some(r)) == Some(r@),
        opt_row(None) is None,
{
}

} // verus!
