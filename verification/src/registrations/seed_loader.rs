//! The seed catalogue: the rows that are shipped with the image, and how they
//! are brought into the table without touching what an operator has changed.
use vstd::prelude::*;

use super::auth_spec::{valid_op_ref, AuthView};
use super::kind::kind_name;
use super::repo::{Registration, RegistrationView};
use super::table::{row_at, upserted, RegistrationTable};
use super::validators::{name_error, valid_name, validate_name};
use super::{AuthSpec, Kind, RegistrationError};
use crate::config::{EgressMode, ToolTimeouts};
use crate::json::{jempty, opt_json, Json, JsonView};
use crate::text::{opt_text, parse_u64, same, split, split_spec, texts, u64_of};

verus! {

/// Where the seed catalogue lies, unless the environment says otherwise.
pub const DEFAULT_SEED_PATH: &'static str = "/etc/locksmith/seed/catalog.yaml";

/// Why the seed catalogue was not loaded.
#[derive(Debug)]
pub enum SeedLoadError {
    /// The file could not be read.
    Io(String),
    /// The file is no catalogue.
    Parse(String),
    /// An entry may not be registered.
    Entry { name: String, kind: String, error: RegistrationError },
    /// The store failed.
    Backend(RegistrationError),
}

/// A row of the seed catalogue.
#[derive(Debug)]
pub struct SeedEntry {
    pub name: String,
    pub kind: Kind,
    pub description: String,
    pub upstream: String,
    /// Needed for a tool and for a model.
    pub auth: Option<AuthSpec>,
    pub egress: Option<EgressMode>,
    pub timeouts: Option<ToolTimeouts>,
    pub body_limit_bytes: Option<u64>,
    pub metadata: Option<Json>,
}

/// The seed catalogue.
#[derive(Debug)]
pub struct SeedCatalog {
    pub version: String,
    pub entries: Vec<SeedEntry>,
}

/// What a row of the seed catalogue says.
pub ghost struct SeedEntryView {
    pub name: Seq<char>,
    pub kind: Kind,
    pub description: Seq<char>,
    pub upstream: Seq<char>,
    pub auth: Option<AuthView>,
    pub egress: Option<EgressMode>,
    pub timeouts: Option<ToolTimeouts>,
    pub body_limit_bytes: Option<u64>,
    pub metadata: Option<JsonView>,
}

/// What an optional authentication shape says.
pub open spec fn opt_auth(a: Option<AuthSpec>) -> Option<AuthView> {
    match a {
        Some(x) => Some(x@),
        None => None,
    }
}

impl View for SeedEntry {
    type V = SeedEntryView;

    open spec fn view(&self) -> SeedEntryView {
        SeedEntryView {
            name: self.name@,
            kind: self.kind,
            description: self.description@,
            upstream: self.upstream@,
            auth: opt_auth(self.auth),
            egress: self.egress,
            timeouts: self.timeouts,
            body_limit_bytes: self.body_limit_bytes,
            metadata: opt_json(self.metadata),
        }
    }
}

/// What the rows of a seed catalogue say.
pub open spec fn entry_views(v: Seq<SeedEntry>) -> Seq<SeedEntryView> {
    Seq::new(v.len(), |i: int| v[i]@)
}

/// Where the seed catalogue lies: what the environment says, or the default.
/// Nothing where the environment says the empty path.
pub fn seed_path_from_env(from_env: Option<String>) -> (r: Option<String>)
    ensures
        opt_text(r) == seed_path(opt_text(from_env)),
{
    match from_env {
        Some(p) => if p.as_str().is_empty() {
            None
        } else {
            Some(p)
        },
        None => Some(DEFAULT_SEED_PATH.to_owned()),
    }
}

/// The number in the given place of a version; zero where there is none.
pub open spec fn version_part(s: Seq<char>, i: int) -> u64 {
    let parts = split_spec(s, '.');
    if i < parts.len() {
        match u64_of(parts[i]) {
            Some(n) => n,
            None => 0,
        }
    } else {
        0
    }
}

/// Whether version `a` is older than version `b`.
pub open spec fn older(a: Seq<char>, b: Seq<char>) -> bool {
    let (x0, x1, x2) = (version_part(a, 0), version_part(a, 1), version_part(a, 2));
    let (y0, y1, y2) = (version_part(b, 0), version_part(b, 1), version_part(b, 2));
    x0 < y0 || (x0 == y0 && (x1 < y1 || (x1 == y1 && x2 < y2)))
}

fn part(parts: &Vec<String>, i: usize) -> (r: u64)
    ensures
        r == (if i < parts@.len() {
            match u64_of(parts@[i as int]@) {
                Some(n) => n,
                None => 0,
            }
        } else {
            0
        }),
{
    if i < parts.len() {
        match parse_u64(parts[i].as_str()) {
            Some(n) => n,
            None => 0,
        }
    } else {
        0
    }
}

/// Whether version `a` is older than version `b`: by the first number, then by
/// the second, then by the third. What is missing or no number counts as zero.
pub fn semver_lt(a: &str, b: &str) -> (r: bool)
    ensures
        r == older(a@, b@),
{
    let x = split(a, '.');
    let y = split(b, '.');
    assert(texts(x@).len() == x@.len() && texts(y@).len() == y@.len());
    let (x0, x1, x2) = (part(&x, 0), part(&x, 1), part(&x, 2));
    let (y0, y1, y2) = (part(&y, 0), part(&y, 1), part(&y, 2));
    x0 < y0 || (x0 == y0 && (x1 < y1 || (x1 == y1 && x2 < y2)))
}

/// Being older is a strict order: no version is older than itself, no two
/// versions are older than each other, and it is transitive.
pub proof fn law_older_is_a_strict_order(a: Seq<char>, b: Seq<char>, c: Seq<char>)
    ensures
        !older(a, a),
        !(older(a, b) && older(b, a)),
        older(a, b) && older(b, c) ==> older(a, c),
{
}

/// Whether an entry says how it is authenticated, where it has to.
pub open spec fn auth_stated(e: SeedEntryView) -> bool {
    e.auth is Some || e.kind == Kind::Infra
}

/// Refuses a tool or a model that does not say how it is authenticated.
pub fn check_auth_for_kind(entry: &SeedEntry) -> (r: Result<(), RegistrationError>)
    ensures
        r is Ok <==> auth_stated(entry@),
        r is Err ==> r->Err_0 is AuthRequired,
{
    match entry.kind {
        Kind::Infra => Ok(()),
        _ => if entry.auth.is_none() {
            Err(RegistrationError::AuthRequired)
        } else {
            Ok(())
        },
    }
}

/// The seed row for an entry, made at `now`.
pub open spec fn seed_row(e: SeedEntryView, now: i64) -> RegistrationView {
    RegistrationView {
        name: e.name,
        kind: e.kind,
        description: e.description,
        upstream: e.upstream,
        auth: match e.auth {
            Some(a) => a,
            None => AuthView::NoAuth,
        },
        egress: match e.egress {
            Some(m) => m,
            None => EgressMode::Direct,
        },
        timeouts: match e.timeouts {
            Some(t) => t,
            None => ToolTimeouts { request_seconds: 30, idle_seconds: 60 },
        },
        body_limit_bytes: match e.body_limit_bytes {
            Some(n) => n,
            None => 10485760,
        },
        metadata: match e.metadata {
            Some(m) => m,
            None => jempty(),
        },
        seed: true,
        disabled: false,
        created_at: now,
        updated_at: now,
    }
}

/// The seed row for an entry, made at `now`.
pub fn entry_to_registration(entry: &SeedEntry, now: i64) -> (r: Result<
    Registration,
    SeedLoadError,
>)
    ensures
        match r {
            Ok(x) => auth_stated(entry@) && x@ == seed_row(entry@, now),
            Err(e) => !auth_stated(entry@) && entry_failed(entry@, e) && e->error is AuthRequired,
        },
{
    let auth = match &entry.auth {
        Some(a) => a.clone(),
        None => match entry.kind {
            Kind::Infra => AuthSpec::NoAuth,
            _ => {
                return Err(failed(entry, RegistrationError::AuthRequired));
            },
        },
    };
    Ok(
        Registration {
            name: entry.name.clone(),
            kind: entry.kind,
            description: entry.description.clone(),
            upstream: entry.upstream.clone(),
            auth,
            egress: match entry.egress {
                Some(m) => m,
                None => EgressMode::default(),
            },
            timeouts: match entry.timeouts {
                Some(t) => t,
                None => ToolTimeouts::default(),
            },
            body_limit_bytes: match entry.body_limit_bytes {
                Some(n) => n,
                None => 10 * 1024 * 1024,
            },
            metadata: match &entry.metadata {
                Some(m) => m.copy(),
                None => Json::object(),
            },
            seed: true,
            disabled: false,
            created_at: now,
            updated_at: now,
        },
    )
}

/// Whether an error names the given entry.
pub open spec fn entry_failed(e: SeedEntryView, error: SeedLoadError) -> bool {
    error is Entry && error->name@ == e.name && error->kind@ == kind_name(e.kind)
}

fn failed(entry: &SeedEntry, error: RegistrationError) -> (r: SeedLoadError)
    ensures
        entry_failed(entry@, r),
        r->error == error,
{
    SeedLoadError::Entry {
        name: entry.name.clone(),
        kind: entry.kind.as_str().to_owned(),
        error,
    }
}

/// What is to be done with an entry.
pub ghost enum SeedDecision {
    /// An operator has changed the row: it stays.
    Keep,
    /// The row is there under another kind.
    Clash(Kind),
    /// The row is brought up to date.
    Update(RegistrationView),
    /// The row is added.
    Insert(RegistrationView),
}

/// What is to be done with an entry, given the row that is there.
pub open spec fn seed_decision(
    existing: Option<RegistrationView>,
    e: SeedEntryView,
    now: i64,
) -> SeedDecision {
    match existing {
        None => SeedDecision::Insert(seed_row(e, now)),
        Some(o) => if !o.seed {
            SeedDecision::Keep
        } else if o.kind != e.kind {
            SeedDecision::Clash(o.kind)
        } else {
            SeedDecision::Update(
                RegistrationView {
                    created_at: o.created_at,
                    disabled: o.disabled,
                    ..seed_row(e, now)
                },
            )
        },
    }
}

/// The table after a decision was carried out.
pub open spec fn carried_out(
    m: Map<Seq<char>, RegistrationView>,
    d: SeedDecision,
) -> Map<Seq<char>, RegistrationView> {
    match d {
        SeedDecision::Keep => m,
        SeedDecision::Clash(_) => m,
        SeedDecision::Update(x) => m.insert(x.name, x),
        SeedDecision::Insert(x) => m.insert(x.name, x),
    }
}

/// The table after the first `n` entries.
pub open spec fn seeded(
    m: Map<Seq<char>, RegistrationView>,
    entries: Seq<SeedEntryView>,
    now: i64,
    n: int,
) -> Map<Seq<char>, RegistrationView>
    decreases n,
{
    if n <= 0 {
        m
    } else {
        let before = seeded(m, entries, now, n - 1);
        let e = entries[n - 1];
        carried_out(before, seed_decision(row_at(before, e.name), e, now))
    }
}

/// What is to be done with entry `n`, once the entries before it are in.
pub open spec fn decision_at(
    m: Map<Seq<char>, RegistrationView>,
    entries: Seq<SeedEntryView>,
    now: i64,
    n: int,
) -> SeedDecision {
    seed_decision(row_at(seeded(m, entries, now, n), entries[n].name), entries[n], now)
}

/// Whether the `op` reference of an entry, where it has one, uses the `op://` scheme.
pub open spec fn reference_valid(e: SeedEntryView) -> bool {
    e.auth is Some && e.auth->Some_0.op_ref() is Some ==> valid_op_ref(
        e.auth->Some_0.op_ref()->Some_0,
    )
}

/// Whether an entry may be registered, by the rules for what an operator registers.
pub open spec fn entry_valid(e: SeedEntryView) -> bool {
    valid_name(e.name) && auth_stated(e) && reference_valid(e)
}

/// Whether every entry may be registered.
pub open spec fn all_valid(entries: Seq<SeedEntryView>) -> bool {
    forall|i: int| 0 <= i < entries.len() ==> entry_valid(#[trigger] entries[i])
}

/// Whether none of the first `n` entries meets a row of another kind.
pub open spec fn no_clash(
    m: Map<Seq<char>, RegistrationView>,
    entries: Seq<SeedEntryView>,
    now: i64,
    n: int,
) -> bool {
    forall|i: int| 0 <= i < n ==> !((#[trigger] decision_at(m, entries, now, i)) is Clash)
}

/// Whether the catalogue is newer than what the table was seeded with.
pub open spec fn newer_than(current: Option<Seq<char>>, version: Seq<char>) -> bool {
    match current {
        Some(v) => v != version && older(v, version),
        None => true,
    }
}

/// A write that loading the seed catalogue makes.
#[derive(Debug)]
pub enum SeedWrite {
    /// Add the row.
    Create(Registration),
    /// Bring the row up to date.
    Upsert(Registration),
    /// Record the version that the table was seeded with.
    SetVersion(String),
}

/// How loading the seed catalogue went, where it did not fail.
#[derive(Debug, Clone, Copy, PartialEq, Eq, Structural)]
pub enum SeedResult {
    /// The table was seeded with this version.
    Current,
    /// The table was seeded with this version or a newer one.
    Older,
    /// The entries are in.
    Applied { inserted: usize, updated: usize, skipped: usize },
}

/// The number of entries among the first `n` for which a decision of one sort
/// is taken: 0 for rows that stay, 1 for rows that are updated, 2 for rows that
/// are added.
pub open spec fn tally(
    m: Map<Seq<char>, RegistrationView>,
    entries: Seq<SeedEntryView>,
    now: i64,
    n: int,
    sort: int,
) -> int
    decreases n,
{
    if n <= 0 {
        0
    } else {
        let here = match decision_at(m, entries, now, n - 1) {
            SeedDecision::Keep => sort == 0,
            SeedDecision::Update(_) => sort == 1,
            SeedDecision::Insert(_) => sort == 2,
            SeedDecision::Clash(_) => false,
        };
        tally(m, entries, now, n - 1, sort) + (if here {
            1int
        } else {
            0int
        })
    }
}

/// The table that results from carrying out writes one after the other.
pub open spec fn replayed(
    m: Map<Seq<char>, RegistrationView>,
    writes: Seq<SeedWrite>,
) -> Map<Seq<char>, RegistrationView>
    decreases writes.len(),
{
    if writes.len() == 0 {
        m
    } else {
        let before = replayed(m, writes.drop_last());
        match writes.last() {
            SeedWrite::Create(x) => before.insert(x.name@, x@),
            SeedWrite::Upsert(x) => before.insert(
                x.name@,
                upserted(row_at(before, x.name@), x@),
            ),
            SeedWrite::SetVersion(_) => before,
        }
    }
}

proof fn lemma_replayed_push(
    m: Map<Seq<char>, RegistrationView>,
    writes: Seq<SeedWrite>,
    w: SeedWrite,
)
    ensures
        replayed(m, writes.push(w)) == (match w {
            SeedWrite::Create(x) => replayed(m, writes).insert(x.name@, x@),
            SeedWrite::Upsert(x) => replayed(m, writes).insert(
                x.name@,
                upserted(row_at(replayed(m, writes), x.name@), x@),
            ),
            SeedWrite::SetVersion(_) => replayed(m, writes),
        }),
{
    assert(writes.push(w).drop_last() =~= writes);
}

/// Tests every entry before anything is written.
fn validate_entries(entries: &Vec<SeedEntry>) -> (r: Result<(), SeedLoadError>)
    ensures
        r is Ok <==> all_valid(entry_views(entries@)),
        match r {
            Ok(()) => true,
            Err(e) => first_invalid(entry_views(entries@), e),
        },
{
    let mut i: usize = 0;
    let ghost v = entry_views(entries@);
    while i < entries.len()
        invariant
            i <= entries@.len(),
            v == entry_views(entries@),
            forall|j: int| 0 <= j < i ==> entry_valid(#[trigger] v[j]),
        decreases entries.len() - i,
    {
        assert(v[i as int] == entries@[i as int]@);
        match validate_name(entries[i].name.as_str()) {
            Ok(()) => {},
            Err(e) => {
                assert(!entry_valid(v[i as int]));
                return Err(failed(&entries[i], e));
            },
        }
        match check_auth_for_kind(&entries[i]) {
            Ok(()) => {},
            Err(e) => {
                assert(!entry_valid(v[i as int]));
                return Err(failed(&entries[i], e));
            },
        }
        match &entries[i].auth {
            Some(a) => match a.validate_op_reference() {
                Ok(()) => {},
                Err(why) => {
                    assert(!entry_valid(v[i as int]));
                    return Err(failed(&entries[i], RegistrationError::InvalidMetadata(why)));
                },
            },
            None => {},
        }
        i = i + 1;
    }
    Ok(())
}

/// Whether an error is the one for an entry that may not be registered. The name is
/// looked at first, then how the entry is authenticated, then its reference.
pub open spec fn entry_error(e: SeedEntryView, error: RegistrationError) -> bool {
    if !valid_name(e.name) {
        name_error(e.name, error)
    } else if !auth_stated(e) {
        error is AuthRequired
    } else {
        !reference_valid(e) && (error matches RegistrationError::InvalidMetadata(why) && why@
            == "op custody reference must use the op:// scheme, got: "@
            + e.auth->Some_0.op_ref()->Some_0)
    }
}

/// Whether an error is the one for the first entry that may not be registered.
pub open spec fn first_invalid(entries: Seq<SeedEntryView>, e: SeedLoadError) -> bool {
    exists|i: int|
        #![trigger entries[i]]
        0 <= i < entries.len() && entry_failed(entries[i], e) && entry_error(
            entries[i],
            e->error,
        ) && (forall|j: int| 0 <= j < i ==> entry_valid(#[trigger] entries[j]))
}

/// Brings the seed catalogue into a table that was seeded with version
/// `seed_version`. A catalogue that is not newer changes nothing; neither does
/// one with an entry that may not be registered, or that meets a row of another
/// kind. Otherwise the entries are taken in turn: a name that is not there is
/// added, a row that an operator has changed stays, and any other row is brought
/// up to date, keeping its time of creation and its `disabled` flag. The writes are
/// also given in the order in which they were made.
pub fn apply_catalog_parsed(
    table: &mut RegistrationTable,
    seed_version: &mut Option<String>,
    catalog: SeedCatalog,
    now: i64,
) -> (r: (Vec<SeedWrite>, Result<SeedResult, SeedLoadError>))
    requires
        old(table).wf(),
    ensures
        final(table).wf(),
        final(table).by_name() == replayed(old(table).by_name(), r.0@),
        ({
            let m = old(table).by_name();
            let entries = entry_views(catalog.entries@);
            let n = entries.len() as int;
            if !newer_than(opt_text(*old(seed_version)), catalog.version@) {
                &&& r.1 == Ok::<SeedResult, SeedLoadError>(
                    if opt_text(*old(seed_version)) == Some(catalog.version@) {
                        SeedResult::Current
                    } else {
                        SeedResult::Older
                    },
                )
                &&& final(table).by_name() == m
                &&& *final(seed_version) == *old(seed_version)
                &&& r.0@.len() == 0
            } else if !all_valid(entries) {
                &&& r.1 is Err
                &&& first_invalid(entries, r.1->Err_0)
                &&& final(table).by_name() == m
                &&& *final(seed_version) == *old(seed_version)
                &&& r.0@.len() == 0
            } else if no_clash(m, entries, now, n) {
                &&& final(table).by_name() == seeded(m, entries, now, n)
                &&& opt_text(*final(seed_version)) == Some(catalog.version@)
                &&& r.1 matches Ok(SeedResult::Applied { inserted, updated, skipped })
                &&& inserted == tally(m, entries, now, n, 2)
                &&& updated == tally(m, entries, now, n, 1)
                &&& skipped == tally(m, entries, now, n, 0)
            } else {
                &&& *final(seed_version) == *old(seed_version)
                &&& final(table).by_name() == m
                &&& r.0@.len() == 0
                &&& r.1 is Err
                &&& exists|k: int|
                    #![trigger entries[k]]
                    0 <= k < n && no_clash(m, entries, now, k) && decision_at(
                        m,
                        entries,
                        now,
                        k,
                    ) is Clash && entry_failed(entries[k], r.1->Err_0) && r.1->Err_0->error
                        == (RegistrationError::WrongKind {
                        existing_kind: decision_at(m, entries, now, k)->Clash_0,
                        requested_kind: entries[k].kind,
                    })
            }
        }),
{
    let ghost m = table.by_name();
    let ghost v = entry_views(catalog.entries@);
    let mut writes: Vec<SeedWrite> = Vec::new();
    match seed_version {
        Some(cur) => {
            if same(cur.as_str(), catalog.version.as_str()) {
                return (writes, Ok(SeedResult::Current));
            }
            if !semver_lt(cur.as_str(), catalog.version.as_str()) {
                return (writes, Ok(SeedResult::Older));
            }
        },
        None => {},
    }
    match validate_entries(&catalog.entries) {
        Ok(()) => {},
        Err(e) => {
            return (writes, Err(e));
        },
    }
    let mut work = table.copy();
    let mut inserted: usize = 0;
    let mut updated: usize = 0;
    let mut skipped: usize = 0;
    let mut i: usize = 0;
    while i < catalog.entries.len()
        invariant
            i <= catalog.entries@.len(),
            v == entry_views(catalog.entries@),
            all_valid(v),
            work.wf(),
            work.by_name() == seeded(m, v, now, i as int),
            work.by_name() == replayed(m, writes@),
            no_clash(m, v, now, i as int),
            inserted == tally(m, v, now, i as int, 2),
            updated == tally(m, v, now, i as int, 1),
            skipped == tally(m, v, now, i as int, 0),
            inserted + updated + skipped <= i,
            *seed_version == *old(seed_version),
            *table == *old(table),
            m == table.by_name(),
            table.wf(),
            newer_than(opt_text(*old(seed_version)), catalog.version@),
        decreases catalog.entries.len() - i,
    {
        let entry = &catalog.entries[i];
        assert(v[i as int] == entry@);
        assert(entry_valid(v[i as int]));
        let ghost d = decision_at(m, v, now, i as int);
        let ghost here = work.by_name();
        let found: Option<(bool, Kind, i64, bool)> = match work.get(entry.name.as_str()) {
            Some(o) => Some((o.seed, o.kind, o.created_at, o.disabled)),
            None => None,
        };
        proof {
            if here.dom().contains(entry.name@) {
                super::table::lemma_rows_named(work.rows(), entry.name@);
            }
        }
        match found {
            Some(o) => {
                if !o.0 {
                    skipped = skipped + 1;
                } else if o.1 != entry.kind {
                    assert(d == SeedDecision::Clash(o.1));
                    assert(!no_clash(m, v, now, v.len() as int)) by {
                        assert(decision_at(m, v, now, i as int) is Clash);
                    }
                    return (
                        Vec::new(),
                        Err(
                            failed(
                                entry,
                                RegistrationError::WrongKind {
                                    existing_kind: o.1,
                                    requested_kind: entry.kind,
                                },
                            ),
                        ),
                    );
                } else {
                    let mut next = match entry_to_registration(entry, now) {
                        Ok(x) => x,
                        Err(e) => {
                            return (Vec::new(), Err(e));
                        },
                    };
                    next.created_at = o.2;
                    next.disabled = o.3;
                    assert(d == SeedDecision::Update(next@));
                    let ghost prev = writes@;
                    let w = SeedWrite::Upsert(next.clone());
                    proof {
                        lemma_replayed_push(m, prev, w);
                        assert(upserted(row_at(here, next@.name), next@) == next@);
                    }
                    writes.push(w);
                    work.upsert(next);
                    updated = updated + 1;
                }
            },
            None => {
                let row = match entry_to_registration(entry, now) {
                    Ok(x) => x,
                    Err(e) => {
                        return (Vec::new(), Err(e));
                    },
                };
                assert(d == SeedDecision::Insert(row@));
                let ghost prev = writes@;
                let w = SeedWrite::Create(row.clone());
                proof {
                    lemma_replayed_push(m, prev, w);
                }
                writes.push(w);
                work.put(row);
                inserted = inserted + 1;
            },
        }
        assert(!(d is Clash));
        i = i + 1;
    }
    let ghost prev = writes@;
    let w = SeedWrite::SetVersion(catalog.version.clone());
    proof {
        lemma_replayed_push(m, prev, w);
    }
    writes.push(w);
    *table = work;
    *seed_version = Some(catalog.version.clone());
    (writes, Ok(SeedResult::Applied { inserted, updated, skipped }))
}

/// A row that an operator has changed is left as it is.
pub proof fn law_operator_rows_stay(
    m: Map<Seq<char>, RegistrationView>,
    entries: Seq<SeedEntryView>,
    now: i64,
    n: int,
    name: Seq<char>,
)
    requires
        m.dom().contains(name),
        !m[name].seed,
    ensures
        seeded(m, entries, now, n).dom().contains(name),
        seeded(m, entries, now, n)[name] == m[name],
    decreases n,
{
    if n > 0 {
        law_operator_rows_stay(m, entries, now, n - 1, name);
    }
}

/// A row without an entry is left as it is.
pub proof fn law_other_rows_stay(
    m: Map<Seq<char>, RegistrationView>,
    entries: Seq<SeedEntryView>,
    now: i64,
    n: int,
    name: Seq<char>,
)
    requires
        m.dom().contains(name),
        forall|i: int| 0 <= i < n ==> (#[trigger] entries[i]).name != name,
    ensures
        seeded(m, entries, now, n).dom().contains(name),
        seeded(m, entries, now, n)[name] == m[name],
    decreases n,
{
    if n > 0 {
        law_other_rows_stay(m, entries, now, n - 1, name);
        assert(entries[n - 1].name != name);
    }
}

/// A seed row that is brought up to date stays a seed row, and keeps its kind,
/// its time of creation and its `disabled` flag: what an operator has disabled
/// stays disabled across upgrades.
pub proof fn law_seed_rows_keep_their_state(
    m: Map<Seq<char>, RegistrationView>,
    entries: Seq<SeedEntryView>,
    now: i64,
    n: int,
    name: Seq<char>,
)
    requires
        m.dom().contains(name),
        m[name].seed,
    ensures
        seeded(m, entries, now, n).dom().contains(name),
        seeded(m, entries, now, n)[name].seed,
        seeded(m, entries, now, n)[name].kind == m[name].kind,
        seeded(m, entries, now, n)[name].created_at == m[name].created_at,
        seeded(m, entries, now, n)[name].disabled == m[name].disabled,
    decreases n,
{
    if n > 0 {
        law_seed_rows_keep_their_state(m, entries, now, n - 1, name);
    }
}

/// Every entry has its row afterwards.
pub proof fn law_every_entry_is_registered(
    m: Map<Seq<char>, RegistrationView>,
    entries: Seq<SeedEntryView>,
    now: i64,
    n: int,
    i: int,
)
    requires
        0 <= i < n,
    ensures
        seeded(m, entries, now, n).dom().contains(entries[i].name),
    decreases n,
{
    if i < n - 1 {
        law_every_entry_is_registered(m, entries, now, n - 1, i);
    }
}

/// The version that a table was seeded with is not newer than itself: a catalogue that
/// is in is not loaded again.
pub proof fn law_loaded_version_is_not_newer(version: Seq<char>)
    ensures
        !newer_than(Some(version), version),
{
}

/// The row of an entry says what the entry says: its name, kind, description, upstream and
/// how it is authenticated, and its way out, time limits, body limit and metadata where it
/// states them. What it does not state is the default: a direct way out, thirty seconds
/// for a request and sixty of silence, ten mebibytes, no metadata. It is a seed row that is
/// not disabled, made now.
pub proof fn law_seed_row_says_what_its_entry_says(entry: SeedEntry, row: Registration, now: i64)
    requires
        row@ == seed_row(entry@, now),
    ensures
        row.name@ == entry.name@,
        row.kind == entry.kind,
        row.description@ == entry.description@,
        row.upstream@ == entry.upstream@,
        entry.auth is Some ==> row.auth@ == entry.auth->Some_0@,
        entry.auth is None ==> row.auth@ is NoAuth,
        entry.egress is Some ==> row.egress == entry.egress->Some_0,
        entry.egress is None ==> row.egress is Direct,
        entry.timeouts is Some ==> row.timeouts == entry.timeouts->Some_0,
        entry.timeouts is None ==> row.timeouts.request_seconds == 30 && row.timeouts.idle_seconds
            == 60,
        entry.body_limit_bytes is Some ==> row.body_limit_bytes == entry.body_limit_bytes->Some_0,
        entry.body_limit_bytes is None ==> row.body_limit_bytes == 10 * 1024 * 1024,
        entry.metadata is Some ==> row.metadata@ == entry.metadata->Some_0@,
        entry.metadata is None ==> row.metadata@ == jempty(),
        row.seed,
        !row.disabled,
        row.created_at == now,
        row.updated_at == now,
{
}

/// Whether a row has what an entry states, its lifecycle aside.
pub open spec fn row_has_entry(row: RegistrationView, e: SeedEntryView) -> bool {
    &&& row.name == e.name
    &&& row.kind == e.kind
    &&& row.description == e.description
    &&& row.upstream == e.upstream
    &&& e.auth is Some ==> row.auth == e.auth->Some_0
    &&& e.egress is Some ==> row.egress == e.egress->Some_0
    &&& e.timeouts is Some ==> row.timeouts == e.timeouts->Some_0
    &&& e.body_limit_bytes is Some ==> row.body_limit_bytes == e.body_limit_bytes->Some_0
    &&& e.metadata is Some ==> row.metadata == e.metadata->Some_0
    &&& row.seed
}

/// After a catalogue was applied, every entry whose name no operator has taken over, and
/// whose name no later entry has, stands in the table as the catalogue states it.
pub proof fn law_applied_entries_stand_as_stated(
    m: Map<Seq<char>, RegistrationView>,
    entries: Seq<SeedEntryView>,
    now: i64,
    n: int,
    i: int,
)
    requires
        0 <= i < n <= entries.len(),
        no_clash(m, entries, now, n),
        m.dom().contains(entries[i].name) ==> m[entries[i].name].seed,
        forall|j: int| i < j < n ==> (#[trigger] entries[j]).name != entries[i].name,
    ensures
        seeded(m, entries, now, n).dom().contains(entries[i].name),
        row_has_entry(seeded(m, entries, now, n)[entries[i].name], entries[i]),
        seeded(m, entries, now, n)[entries[i].name].updated_at == now,
        m.dom().contains(entries[i].name) ==> seeded(m, entries, now, n)[entries[i].name].disabled
            == m[entries[i].name].disabled,
    decreases n,
{
    let name = entries[i].name;
    if i < n - 1 {
        assert(entries[n - 1].name != name);
        assert(no_clash(m, entries, now, n - 1));
        law_applied_entries_stand_as_stated(m, entries, now, n - 1, i);
    } else {
        let before = seeded(m, entries, now, i);
        assert(!(decision_at(m, entries, now, i) is Clash));
        lemma_only_seeds_are_added(m, entries, now, i, name);
        if m.dom().contains(name) {
            law_seed_rows_keep_their_state(m, entries, now, i, name);
        }
    }
}

proof fn lemma_only_seeds_are_added(
    m: Map<Seq<char>, RegistrationView>,
    entries: Seq<SeedEntryView>,
    now: i64,
    n: int,
    name: Seq<char>,
)
    requires
        m.dom().contains(name) ==> m[name].seed,
    ensures
        seeded(m, entries, now, n).dom().contains(name) ==> seeded(m, entries, now, n)[name].seed,
    decreases n,
{
    if n > 0 {
        lemma_only_seeds_are_added(m, entries, now, n - 1, name);
    }
}

/// Versions are compared as numbers are: by the first, then by the second, then by the
/// third. A version is older than another exactly if its three numbers come first.
pub proof fn law_versions_are_compared_number_by_number(a: Seq<char>, b: Seq<char>)
    ensures
        version_part(a, 0) < version_part(b, 0) ==> older(a, b),
        version_part(a, 0) > version_part(b, 0) ==> !older(a, b),
        version_part(a, 0) == version_part(b, 0) && version_part(a, 1) < version_part(b, 1)
            ==> older(a, b),
        version_part(a, 0) == version_part(b, 0) && version_part(a, 1) > version_part(b, 1)
            ==> !older(a, b),
        version_part(a, 0) == version_part(b, 0) && version_part(a, 1) == version_part(b, 1) ==> (
        older(a, b) <==> version_part(a, 2) < version_part(b, 2)),
{
}

/// The numbers of a version are read from between its dots.
pub proof fn law_version_numbers_stand_between_dots(
    x: Seq<char>,
    y: Seq<char>,
    z: Seq<char>,
    a: u64,
    b: u64,
    c: u64,
)
    requires
        !x.contains('.') && !y.contains('.') && !z.contains('.'),
        u64_of(x) == Some(a) && u64_of(y) == Some(b) && u64_of(z) == Some(c),
    ensures
        ({
            let v = x + seq!['.'] + (y + seq!['.'] + z);
            version_part(v, 0) == a && version_part(v, 1) == b && version_part(v, 2) == c
        }),
{
    crate::text::lemma_split_single(x, '.');
    crate::text::lemma_split_single(y, '.');
    crate::text::lemma_split_single(z, '.');
    crate::text::lemma_split_join(y, z, '.');
    crate::text::lemma_split_join(x, y + seq!['.'] + z, '.');
    let v = x + seq!['.'] + (y + seq!['.'] + z);
    assert(split_spec(v, '.') =~= seq![x, y, z]);
}

/// A table that was never seeded takes any catalogue; one that was takes only a newer one.
pub proof fn law_only_newer_catalogues_are_taken(current: Seq<char>, version: Seq<char>)
    ensures
        newer_than(None, version),
        older(version, current) ==> !newer_than(Some(current), version),
        current == version ==> !newer_than(Some(current), version),
        older(current, version) ==> newer_than(Some(current), version),
{
}

/// Each entry of a catalogue is counted once: as new where the table had no row of its name,
/// as kept where an operator had taken the row over, as updated where the row was a seed row
/// of its kind. Where no entry meets a row of another kind, the three numbers make up all
/// entries.
#[verifier::rlimit(40)]
pub proof fn law_every_entry_is_counted(
    m: Map<Seq<char>, RegistrationView>,
    entries: Seq<SeedEntryView>,
    now: i64,
    n: int,
)
    requires
        0 <= n < entries.len(),
    ensures
        ({
            let t = seeded(m, entries, now, n);
            let e = entries[n];
            let there = t.contains_key(e.name);
            &&& tally(m, entries, now, n + 1, 2) - tally(m, entries, now, n, 2) == (!there) as int
            &&& tally(m, entries, now, n + 1, 0) - tally(m, entries, now, n, 0) == (there
                && !t[e.name].seed) as int
            &&& tally(m, entries, now, n + 1, 1) - tally(m, entries, now, n, 1) == (there
                && t[e.name].seed && t[e.name].kind == e.kind) as int
            &&& tally(m, entries, now, 0, 0) == 0 && tally(m, entries, now, 0, 1) == 0 && tally(
                m,
                entries,
                now,
                0,
                2,
            ) == 0
        }),
        no_clash(m, entries, now, n + 1) ==> tally(m, entries, now, n + 1, 0) + tally(
            m,
            entries,
            now,
            n + 1,
            1,
        ) + tally(m, entries, now, n + 1, 2) == n + 1,
    decreases n,
{
    let d = decision_at(m, entries, now, n);
    let kept = tally(m, entries, now, n, 0);
    let updated = tally(m, entries, now, n, 1);
    let fresh = tally(m, entries, now, n, 2);
    if n > 0 {
        law_every_entry_is_counted(m, entries, now, n - 1);
    }
    if no_clash(m, entries, now, n + 1) {
        assert forall|i: int| 0 <= i < n implies !((#[trigger] decision_at(
            m,
            entries,
            now,
            i,
        )) is Clash) by {}
        assert(no_clash(m, entries, now, n));
        assert(!(d is Clash));
        assert(kept + updated + fresh == n);
    }
    match d {
        SeedDecision::Keep => {
            assert(tally(m, entries, now, n + 1, 0) == kept + 1);
            assert(tally(m, entries, now, n + 1, 1) == updated);
            assert(tally(m, entries, now, n + 1, 2) == fresh);
        },
        SeedDecision::Update(_) => {
            assert(tally(m, entries, now, n + 1, 0) == kept);
            assert(tally(m, entries, now, n + 1, 1) == updated + 1);
            assert(tally(m, entries, now, n + 1, 2) == fresh);
        },
        SeedDecision::Insert(_) => {
            assert(tally(m, entries, now, n + 1, 0) == kept);
            assert(tally(m, entries, now, n + 1, 1) == updated);
            assert(tally(m, entries, now, n + 1, 2) == fresh + 1);
        },
        SeedDecision::Clash(_) => {
            assert(tally(m, entries, now, n + 1, 0) == kept);
            assert(tally(m, entries, now, n + 1, 1) == updated);
            assert(tally(m, entries, now, n + 1, 2) == fresh);
        },
    }
}

/// An entry may be registered exactly if its name is well-formed, it says how it is
/// authenticated unless it is middleware, and its vault reference, where it has one, is one.
pub proof fn law_what_entries_may_be_registered(e: SeedEntry)
    ensures
        entry_valid(e@) <==> {
            &&& valid_name(e.name@)
            &&& e.kind == Kind::Infra || e.auth is Some
            &&& e.auth is Some && e.auth->Some_0@.op_ref() is Some ==> valid_op_ref(
                e.auth->Some_0@.op_ref()->Some_0,
            )
        },
{
}

/// A catalogue that is refused is refused for its first entry that may not be registered,
/// which the error names with its kind, and for the first thing that is wrong with it.
pub proof fn law_first_bad_entry_is_named(entries: Seq<SeedEntryView>, error: SeedLoadError)
    requires
        first_invalid(entries, error),
    ensures
        exists|i: int|
            #![trigger entries[i]]
            0 <= i < entries.len() && !entry_valid(entries[i]) && error->name@ == entries[i].name
                && error->kind@ == kind_name(entries[i].kind) && (forall|j: int|
                0 <= j < i ==> entry_valid(#[trigger] entries[j])) && (valid_name(entries[i].name)
                && entries[i].auth is None ==> error->error is AuthRequired) && (valid_name(
                entries[i].name,
            ) && entries[i].auth is Some ==> error->error is InvalidMetadata),
        !all_valid(entries),
{
    let i = choose|i: int|
        #![trigger entries[i]]
        0 <= i < entries.len() && entry_failed(entries[i], error) && entry_error(
            entries[i],
            error->error,
        ) && (forall|j: int| 0 <= j < i ==> entry_valid(#[trigger] entries[j]));
    let e = entries[i];
    assert(!entry_valid(e)) by {
        if valid_name(e.name) && auth_stated(e) {
            assert(!reference_valid(e));
        }
    }
    if valid_name(e.name) && e.auth is None {
        assert(reference_valid(e));
        assert(!auth_stated(e));
    }
}

/// Where the seed catalogue lies, given what the environment says.
pub open spec fn seed_path(from_env: Option<Seq<char>>) -> Option<Seq<char>> {
    match from_env {
        Some(p) => if p.len() == 0 {
            None
        } else {
            Some(p)
        },
        None => Some(DEFAULT_SEED_PATH@),
    }
}

/// The environment decides where the catalogue lies: under the path that it says, nowhere
/// where that is empty, and at the usual place where it says nothing.
pub proof fn law_environment_says_where_the_catalogue_lies(p: Seq<char>)
    ensures
        p.len() > 0 ==> seed_path(Some(p)) == Some(p),
        p.len() == 0 ==> seed_path(Some(p)) is None,
        seed_path(None) == Some(DEFAULT_SEED_PATH@),
{
}

} // verus!
