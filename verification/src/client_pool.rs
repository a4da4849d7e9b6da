//! One HTTP client per tool, kept as long as the tool's settings stay.
use std::sync::Arc;
use vstd::prelude::*;

use crate::config::{AppConfig, EgressMode, ToolConfig, ToolTimeouts};
use crate::text::{copy_opt, opt_text, same};

verus! {

/// `reqwest::Client`, carried through unopened.
#[verifier::external_type_specification]
#[verifier::external_body]
pub struct ExClient(reqwest::Client);

/// `reqwest::Proxy`, carried through unopened.
#[verifier::external_type_specification]
#[verifier::external_body]
pub struct ExProxy(reqwest::Proxy);

/// The settings of a tool that its client depends on. The proxy counts only for
/// a tool that goes through it.
pub struct ToolFingerprint {
    pub request_seconds: u64,
    pub idle_seconds: u64,
    pub egress: EgressMode,
    pub egress_proxy_url: Option<String>,
}

/// What a [`ToolFingerprint`] says.
#[verifier::ext_equal]
pub ghost struct FingerprintView {
    pub request_seconds: u64,
    pub idle_seconds: u64,
    pub egress: EgressMode,
    pub egress_proxy_url: Option<Seq<char>>,
}

impl View for ToolFingerprint {
    type V = FingerprintView;

    open spec fn view(&self) -> FingerprintView {
        FingerprintView {
            request_seconds: self.request_seconds,
            idle_seconds: self.idle_seconds,
            egress: self.egress,
            egress_proxy_url: opt_text(self.egress_proxy_url),
        }
    }
}

/// The settings of a tool under a configured proxy.
pub open spec fn fingerprint(
    timeouts: ToolTimeouts,
    egress: EgressMode,
    proxy: Option<Seq<char>>,
) -> FingerprintView {
    FingerprintView {
        request_seconds: timeouts.request_seconds,
        idle_seconds: timeouts.idle_seconds,
        egress,
        egress_proxy_url: if egress == EgressMode::Proxied {
            proxy
        } else {
            None
        },
    }
}

impl ToolFingerprint {
    /// The settings of a tool under a configuration.
    pub fn of(timeouts: ToolTimeouts, egress: EgressMode, config: &AppConfig) -> (r:
        ToolFingerprint)
        ensures
            r@ == fingerprint(timeouts, egress, opt_text(config.egress_proxy)),
    {
        ToolFingerprint {
            request_seconds: timeouts.request_seconds,
            idle_seconds: timeouts.idle_seconds,
            egress,
            egress_proxy_url: if egress == EgressMode::Proxied {
                copy_opt(&config.egress_proxy)
            } else {
                None
            },
        }
    }

    fn matches(&self, other: &ToolFingerprint) -> (r: bool)
        ensures
            r == (self@ == other@),
    {
        let urls = match (&self.egress_proxy_url, &other.egress_proxy_url) {
            (Some(a), Some(b)) => same(a.as_str(), b.as_str()),
            (None, None) => true,
            _ => false,
        };
        self.request_seconds == other.request_seconds && self.idle_seconds == other.idle_seconds
            && self.egress == other.egress && urls
    }
}

/// The proxy that an address stands for, as `reqwest` reads it.
pub uninterp spec fn read_proxy(url: Seq<char>) -> Option<reqwest::Proxy>;

/// The settings that a client was asked for: the seconds for a request, the
/// seconds of silence, and the proxy. None where it was asked for the defaults.
pub uninterp spec fn client_settings(c: reqwest::Client) -> Option<
    (u64, u64, Option<reqwest::Proxy>),
>;

/// `reqwest::Proxy::all` on an address. Whether it can be read, and what the proxy
/// is, depends on the address alone.
#[verifier::external_body]
fn proxy_for_all(url: &str) -> (r: Option<reqwest::Proxy>)
    ensures
        r == read_proxy(url@),
{
    reqwest::Proxy::all(url).ok()
}

/// `reqwest::Client::builder` with a timeout for the request and one for silence,
/// and then `build`: a client that was asked for these, and for no proxy. Nothing is
/// promised on whether it can be built: that rests on the machine.
#[verifier::external_body]
fn build_direct(request_seconds: u64, idle_seconds: u64) -> (r: Option<reqwest::Client>)
    ensures
        r matches Some(c) ==> client_settings(c) == Some(
            (request_seconds, idle_seconds, None::<reqwest::Proxy>),
        ),
{
    reqwest::Client::builder()
        .timeout(std::time::Duration::from_secs(request_seconds))
        .read_timeout(std::time::Duration::from_secs(idle_seconds))
        .build()
        .ok()
}

/// `reqwest::Client::builder` with a timeout for the request, one for silence, and a
/// proxy, and then `build`: a client that was asked for these. Nothing is promised
/// on whether it can be built: that rests on the machine.
#[verifier::external_body]
fn build_proxied(request_seconds: u64, idle_seconds: u64, proxy: reqwest::Proxy) -> (r: Option<
    reqwest::Client,
>)
    ensures
        r matches Some(c) ==> client_settings(c) == Some(
            (request_seconds, idle_seconds, Some(proxy)),
        ),
{
    reqwest::Client::builder()
        .timeout(std::time::Duration::from_secs(request_seconds))
        .read_timeout(std::time::Duration::from_secs(idle_seconds))
        .proxy(proxy)
        .build()
        .ok()
}

/// `reqwest::Client::builder` and then `build`, nothing asked for. Nothing is
/// promised on whether it can be built: that rests on the machine.
#[verifier::external_body]
fn build_default() -> (r: Option<reqwest::Client>)
    ensures
        r matches Some(c) ==> client_settings(c) is None,
{
    reqwest::Client::builder().build().ok()
}

/// The proxy of a tool: the configured one, where its address can be read.
pub open spec fn usable_proxy(url: Option<Seq<char>>) -> Option<reqwest::Proxy> {
    match url {
        Some(u) => read_proxy(u),
        None => None,
    }
}

/// What the client of a tool is asked for.
pub open spec fn asked_for(wanted: FingerprintView) -> (u64, u64, Option<reqwest::Proxy>) {
    (wanted.request_seconds, wanted.idle_seconds, usable_proxy(wanted.egress_proxy_url))
}

/// The client to use: the one that was built for the settings, and where there is
/// none, one with the defaults, as far as that can be built.
pub fn client_or_default(built: Option<reqwest::Client>) -> (r: Option<reqwest::Client>)
    ensures
        built is Some ==> r == built,
        built is None ==> (r matches Some(c) ==> client_settings(c) is None),
{
    match built {
        Some(c) => Some(c),
        None => build_default(),
    }
}

/// The client for some settings. A proxy whose address cannot be read is left out.
fn build_asked(wanted: &ToolFingerprint) -> (r: Option<reqwest::Client>)
    ensures
        r matches Some(c) ==> client_settings(c) == Some(asked_for(wanted@)),
{
    let proxy = match &wanted.egress_proxy_url {
        Some(url) => proxy_for_all(url.as_str()),
        None => None,
    };
    match proxy {
        Some(p) => build_proxied(wanted.request_seconds, wanted.idle_seconds, p),
        None => build_direct(wanted.request_seconds, wanted.idle_seconds),
    }
}

struct PoolEntry {
    name: String,
    client: Arc<reqwest::Client>,
    fingerprint: ToolFingerprint,
    number: Ghost<nat>,
}

/// A client of the pool, the settings that it was built for, and which of the clients
/// that the pool has taken in it is. Two with one number are one and the same.
pub ghost struct CachedView {
    pub client: reqwest::Client,
    pub fingerprint: FingerprintView,
    pub number: nat,
}

spec fn entry_view(e: PoolEntry) -> CachedView {
    CachedView { client: *e.client, fingerprint: e.fingerprint@, number: e.number@ }
}

spec fn numbered(v: Seq<PoolEntry>, taken: nat) -> bool {
    forall|i: int| 0 <= i < v.len() ==> (#[trigger] v[i]).number@ < taken
}

spec fn named_at(v: Seq<PoolEntry>, name: Seq<char>, i: int) -> bool {
    0 <= i < v.len() && v[i].name@ == name
}

spec fn entries_map(v: Seq<PoolEntry>) -> Map<Seq<char>, CachedView> {
    Map::new(
        |n: Seq<char>| exists|i: int| named_at(v, n, i),
        |n: Seq<char>| entry_view(v[choose|i: int| named_at(v, n, i)]),
    )
}

spec fn entry_names(v: Seq<PoolEntry>) -> Seq<Seq<char>> {
    Seq::new(v.len(), |i: int| v[i].name@)
}

proof fn lemma_entry(v: Seq<PoolEntry>, i: int)
    requires
        0 <= i < v.len(),
        entry_names(v).no_duplicates(),
    ensures
        entries_map(v).contains_key(v[i].name@),
        entries_map(v)[v[i].name@] == entry_view(v[i]),
{
    let n = v[i].name@;
    assert(named_at(v, n, i));
    let k = choose|k: int| named_at(v, n, k);
    assert(entry_names(v)[k] == entry_names(v)[i]);
}

spec fn kept_from(v: Seq<PoolEntry>, from: int, keep: Seq<&str>, e: PoolEntry) -> bool {
    kept_name(keep, e.name@) && exists|j: int| from <= j < v.len() && e == #[trigger] v[j]
}

/// The clients of the tools. Each tool has one.
pub struct ClientPool {
    entries: Vec<PoolEntry>,
    taken: Ghost<nat>,
}

impl ClientPool {
    #[verifier::type_invariant]
    spec fn wf(self) -> bool {
        entry_names(self.entries@).no_duplicates() && numbered(self.entries@, self.taken@)
    }

    /// How many clients the pool has taken in, those included that have gone again.
    pub closed spec fn taken_in(self) -> nat {
        self.taken@
    }

    /// The clients by the names of their tools.
    pub closed spec fn cached(self) -> Map<Seq<char>, CachedView> {
        entries_map(self.entries@)
    }

    /// A pool without clients.
    pub fn new() -> (r: ClientPool)
        ensures
            r.cached() == Map::<Seq<char>, CachedView>::empty(),
            r.taken_in() == 0,
    {
        let r = ClientPool { entries: Vec::new(), taken: Ghost(0) };
        assert(entries_map(r.entries@) =~= Map::<Seq<char>, CachedView>::empty());
        r
    }

    fn find(&self, name: &str) -> (r: Option<usize>)
        ensures
            match r {
                Some(i) => i < self.entries@.len() && self.entries@[i as int].name@ == name@
                    && self.cached().contains_key(name@) && self.cached()[name@] == entry_view(
                    self.entries@[i as int],
                ),
                None => !self.cached().contains_key(name@) && !entry_names(self.entries@).contains(
                    name@,
                ),
            },
    {
        proof {
            use_type_invariant(self);
        }
        let mut i: usize = 0;
        while i < self.entries.len()
            invariant
                i <= self.entries@.len(),
                entry_names(self.entries@).no_duplicates(),
                forall|k: int| 0 <= k < i ==> (#[trigger] self.entries@[k]).name@ != name@,
            decreases self.entries.len() - i,
        {
            if same(self.entries[i].name.as_str(), name) {
                proof {
                    lemma_entry(self.entries@, i as int);
                }
                return Some(i);
            }
            i = i + 1;
        }
        proof {
            if self.cached().contains_key(name@) {
                let k = choose|k: int| named_at(self.entries@, name@, k);
                assert(self.entries@[k].name@ == name@);
            }
            if entry_names(self.entries@).contains(name@) {
                let k = entry_names(self.entries@).index_of(name@);
                assert(self.entries@[k].name@ == name@);
            }
        }
        None
    }

    /// The client of a tool: the one in the pool where it was built for these
    /// settings, else a new one, which takes its place. None where no client
    /// could be built.
    pub fn get_or_build(&mut self, tool: &ToolConfig, config: &AppConfig) -> (r: Option<
        Arc<reqwest::Client>,
    >)
        ensures
            pooled(
                *old(self),
                *final(self),
                tool.name@,
                fingerprint(tool.timeouts, tool.egress, opt_text(config.egress_proxy)),
                r,
            ),
    {
        self.get_or_build_for(tool.name.as_str(), tool.timeouts, tool.egress, config)
    }

    /// The client of a tool that is given by its name and settings.
    pub fn get_or_build_for(
        &mut self,
        name: &str,
        timeouts: ToolTimeouts,
        egress: EgressMode,
        config: &AppConfig,
    ) -> (r: Option<Arc<reqwest::Client>>)
        ensures
            pooled(
                *old(self),
                *final(self),
                name@,
                fingerprint(timeouts, egress, opt_text(config.egress_proxy)),
                r,
            ),
    {
        let wanted = ToolFingerprint::of(timeouts, egress, config);
        match self.find(name) {
            Some(i) => {
                if self.entries[i].fingerprint.matches(&wanted) {
                    return Some(self.entries[i].client.clone());
                }
            },
            None => {},
        }
        let built = client_or_default(build_asked(&wanted));
        self.keep_built(name, wanted, built)
    }

    /// Puts a client that was built for a tool into the pool, in place of the one
    /// that was there, and hands it out. Where none was built the pool stays.
    pub fn keep_built(
        &mut self,
        name: &str,
        wanted: ToolFingerprint,
        built: Option<reqwest::Client>,
    ) -> (r: Option<Arc<reqwest::Client>>)
        ensures
            match built {
                Some(c) => {
                    &&& r == Some(Arc::new(c))
                    &&& taken_into(*old(self), *final(self), name@, c, wanted@)
                },
                None => {
                    &&& r is None
                    &&& final(self).cached() == old(self).cached()
                    &&& final(self).taken_in() == old(self).taken_in()
                },
            },
    {
        proof {
            use_type_invariant(&*self);
        }
        let client = match built {
            Some(c) => Arc::new(c),
            None => {
                return None;
            },
        };
        let found = self.find(name);
        let entry = PoolEntry {
            name: name.to_string(),
            client: client.clone(),
            fingerprint: wanted,
            number: Ghost(self.taken@),
        };
        let ghost before = self.entries@;
        let mut entries: Vec<PoolEntry> = Vec::new();
        std::mem::swap(&mut entries, &mut self.entries);
        self.taken = Ghost(self.taken@ + 1);
        match found {
            Some(i) => {
                entries.set(i, entry);
                assert(entry_names(entries@) =~= entry_names(before));
            },
            None => {
                entries.push(entry);
                assert(entry_names(entries@) =~= entry_names(before).push(name@));
            },
        }
        proof {
            lemma_replaced(before, entries@, name@, entry);
            assert(numbered(entries@, self.taken@));
        }
        self.entries = entries;
        Some(client)
    }

    /// Drops the clients of the tools that are not in `keep`.
    pub fn cleanup_removed(&mut self, keep: &[&str])
        ensures
            final(self).cached() == old(self).cached().restrict(
                Set::new(|n: Seq<char>| kept_name(keep@, n)),
            ),
            final(self).taken_in() == old(self).taken_in(),
    {
        proof {
            use_type_invariant(&*self);
        }
        let ghost before = self.entries@;
        let mut left: Vec<PoolEntry> = Vec::new();
        std::mem::swap(&mut left, &mut self.entries);
        let mut out: Vec<PoolEntry> = Vec::new();
        assert(left@ =~= before.take(left@.len() as int));
        while left.len() > 0
            invariant
                entry_names(before).no_duplicates(),
                left@.len() <= before.len(),
                left@ == before.take(left@.len() as int),
                forall|k: int|
                    0 <= k < out@.len() ==> kept_from(
                        before,
                        left@.len() as int,
                        keep@,
                        #[trigger] out@[k],
                    ),
                forall|j: int|
                    left@.len() <= j < before.len() && kept_name(
                        keep@,
                        (#[trigger] before[j]).name@,
                    ) ==> out@.contains(before[j]),
                entry_names(out@).no_duplicates(),
            decreases left.len(),
        {
            let ghost j = left@.len() - 1;
            let ghost prev = out@;
            let entry = left.pop().unwrap();
            assert(entry == before[j]);
            assert(left@ =~= before.take(left@.len() as int));
            if listed(keep, entry.name.as_str()) {
                proof {
                    assert(entry_names(prev.push(entry)) =~= entry_names(prev).push(entry.name@));
                    if entry_names(prev).contains(entry.name@) {
                        let k = entry_names(prev).index_of(entry.name@);
                        assert(kept_from(before, j + 1, keep@, prev[k]));
                        let m = choose|m: int| j < m < before.len() && prev[k] == before[m];
                        assert(entry_names(before)[m] == entry_names(before)[j]);
                    }
                }
                out.push(entry);
                assert(out@[prev.len() as int] == before[j]);
            }
            proof {
                assert forall|k: int| 0 <= k < out@.len() implies kept_from(
                    before,
                    left@.len() as int,
                    keep@,
                    #[trigger] out@[k],
                ) by {
                    if k < prev.len() {
                        assert(out@[k] == prev[k]);
                    }
                }
                assert forall|i: int|
                    left@.len() <= i < before.len() && kept_name(
                        keep@,
                        (#[trigger] before[i]).name@,
                    ) implies out@.contains(before[i]) by {
                    if i > j {
                        let k = prev.index_of(before[i]);
                        assert(out@[k] == before[i]);
                    }
                }
            }
        }
        proof {
            let now = entries_map(out@);
            let want = entries_map(before).restrict(Set::new(|n: Seq<char>| kept_name(keep@, n)));
            assert forall|n: Seq<char>| #[trigger] now.contains_key(n) implies want.contains_key(n)
                && now[n] == want[n] by {
                let k = choose|k: int| named_at(out@, n, k);
                assert(kept_from(before, 0, keep@, out@[k]));
                let m = choose|m: int| 0 <= m < before.len() && out@[k] == before[m];
                lemma_entry(before, m);
                lemma_entry(out@, k);
            }
            assert forall|n: Seq<char>| #[trigger] want.contains_key(n) implies now.contains_key(
                n,
            ) by {
                let m = choose|m: int| named_at(before, n, m);
                assert(out@.contains(before[m]));
                lemma_entry(out@, out@.index_of(before[m]));
            }
            assert(now =~= want);
            assert forall|k: int| 0 <= k < out@.len() implies (#[trigger] out@[k]).number@
                < self.taken@ by {
                assert(kept_from(before, 0, keep@, out@[k]));
            }
        }
        self.entries = out;
    }

    /// The number of clients.
    pub fn len(&self) -> (r: usize)
        ensures
            r == self.cached().dom().len(),
    {
        proof {
            use_type_invariant(self);
            let names = entry_names(self.entries@);
            assert forall|n: Seq<char>| #[trigger] names.to_set().contains(n)
                == self.cached().dom().contains(n) by {
                if names.contains(n) {
                    let k = names.index_of(n);
                    lemma_entry(self.entries@, k);
                }
                if self.cached().dom().contains(n) {
                    let k = choose|k: int| named_at(self.entries@, n, k);
                    assert(names[k] == n);
                }
            }
            assert(names.to_set() =~= self.cached().dom());
            names.unique_seq_to_set();
        }
        self.entries.len()
    }
}

impl Default for ClientPool {
    fn default() -> (r: ClientPool)
        ensures
            r.cached() == Map::<Seq<char>, CachedView>::empty(),
            r.taken_in() == 0,
    {
        ClientPool::new()
    }
}

/// Whether a name is among those to keep.
pub open spec fn kept_name(keep: Seq<&str>, name: Seq<char>) -> bool {
    exists|i: int| 0 <= i < keep.len() && (#[trigger] keep[i])@ == name
}

fn listed(keep: &[&str], name: &str) -> (r: bool)
    ensures
        r == kept_name(keep@, name@),
{
    let mut i: usize = 0;
    while i < keep.len()
        invariant
            i <= keep@.len(),
            forall|k: int| 0 <= k < i ==> (#[trigger] keep@[k])@ != name@,
        decreases keep.len() - i,
    {
        if same(keep[i], name) {
            assert(keep@[i as int]@ == name@);
            return true;
        }
        i = i + 1;
    }
    false
}

proof fn lemma_replaced(
    before: Seq<PoolEntry>,
    after: Seq<PoolEntry>,
    name: Seq<char>,
    entry: PoolEntry,
)
    requires
        entry_names(before).no_duplicates(),
        entry_names(after).no_duplicates(),
        entry.name@ == name,
        (exists|i: int| named_at(before, name, i) && after == before.update(i, entry)) || (
        !entry_names(before).contains(name) && after == before.push(entry)),
    ensures
        entries_map(after) == entries_map(before).insert(name, entry_view(entry)),
{
    let now = entries_map(after);
    let want = entries_map(before).insert(name, entry_view(entry));
    assert forall|n: Seq<char>| #[trigger] now.contains_key(n) implies want.contains_key(n)
        && now[n] == want[n] by {
        let k = choose|k: int| named_at(after, n, k);
        lemma_entry(after, k);
        if n != name {
            assert(k < before.len() && after[k] == before[k]);
            lemma_entry(before, k);
        } else {
            if !entry_names(before).contains(name) && after == before.push(entry) {
                if k < before.len() {
                    assert(entry_names(before)[k] == name);
                }
            } else {
                let i = choose|i: int|
                    named_at(before, name, i) && after == before.update(i, entry);
                if k != i {
                    assert(entry_names(before)[k] == entry_names(before)[i]);
                }
            }
        }
    }
    assert forall|n: Seq<char>| #[trigger] want.contains_key(n) implies now.contains_key(n) by {
        if n == name {
            if !entry_names(before).contains(name) && after == before.push(entry) {
                lemma_entry(after, before.len() as int);
            } else {
                let i = choose|i: int|
                    named_at(before, name, i) && after == before.update(i, entry);
                lemma_entry(after, i);
            }
        } else {
            let k = choose|k: int| named_at(before, n, k);
            assert(after[k] == before[k]);
            lemma_entry(after, k);
        }
    }
    assert(now =~= want);
}

/// Whether a pool took a client in for a tool: it stands in the place of the one that was
/// there, and it is none of those that the pool had.
pub open spec fn taken_into(
    before: ClientPool,
    after: ClientPool,
    name: Seq<char>,
    client: reqwest::Client,
    fingerprint: FingerprintView,
) -> bool {
    &&& after.cached() == before.cached().insert(
        name,
        CachedView { client, fingerprint, number: before.taken_in() },
    )
    &&& after.taken_in() == before.taken_in() + 1
    &&& forall|n: Seq<char>| #[trigger]
        before.cached().contains_key(n) ==> before.cached()[n].number < before.taken_in()
}

/// Whether a request for the client of a tool gave `r` and left `after`: the
/// client of the pool where its settings are the ones that are asked for, else a
/// new one for these settings, or with the defaults where there is none for them.
/// The new one is in the pool from then on.
pub open spec fn pooled(
    before: ClientPool,
    after: ClientPool,
    name: Seq<char>,
    wanted: FingerprintView,
    r: Option<Arc<reqwest::Client>>,
) -> bool {
    if before.cached().contains_key(name) && before.cached()[name].fingerprint == wanted {
        r == Some(Arc::new(before.cached()[name].client)) && after.cached() == before.cached()
            && after.taken_in() == before.taken_in()
    } else {
        match r {
            Some(c) => (client_settings(*c) == Some(asked_for(wanted)) || client_settings(
                *c,
            ) is None) && taken_into(before, after, name, *c, wanted),
            None => after.cached() == before.cached() && after.taken_in() == before.taken_in(),
        }
    }
}

/// Asking twice for the client of a tool whose settings stay gives the same
/// client.
pub proof fn law_unchanged_tool_keeps_its_client(
    a: ClientPool,
    b: ClientPool,
    c: ClientPool,
    name: Seq<char>,
    wanted: FingerprintView,
    first: Option<Arc<reqwest::Client>>,
    second: Option<Arc<reqwest::Client>>,
)
    requires
        pooled(a, b, name, wanted, first),
        pooled(b, c, name, wanted, second),
        first is Some,
    ensures
        second == first,
        c.cached() == b.cached(),
{
}

/// A tool whose settings change gets another client: the one for the new settings
/// takes the place of the old one, and where the two were asked for other things, and
/// neither had to be built with the defaults, they are not the same.
pub proof fn law_changed_tool_gets_another_client(
    a: ClientPool,
    b: ClientPool,
    name: Seq<char>,
    wanted: FingerprintView,
    r: Option<Arc<reqwest::Client>>,
)
    requires
        pooled(a, b, name, wanted, r),
        r is Some,
        a.cached().contains_key(name),
        a.cached()[name].fingerprint != wanted,
    ensures
        b.cached()[name] == (CachedView {
            client: *r->0,
            fingerprint: wanted,
            number: a.taken_in(),
        }),
        b.cached()[name].number != a.cached()[name].number,
        client_settings(*r->0) is None || client_settings(*r->0) == Some(asked_for(wanted)),
        asked_for(a.cached()[name].fingerprint) != asked_for(wanted) && client_settings(
            a.cached()[name].client,
        ) == Some(asked_for(a.cached()[name].fingerprint)) && client_settings(*r->0) is Some
            ==> *r->0 != a.cached()[name].client,
{
}

/// Two requests for the client of a tool, one after the other, give one and the same
/// client if the tool has the same time limits and the same way out both times, and where
/// that is the proxy, the same proxy; else the second gives another one. Either way the
/// pool holds one client for the tool, the one of the last request.
pub proof fn law_one_client_per_settings(
    a: ClientPool,
    b: ClientPool,
    c: ClientPool,
    name: Seq<char>,
    first: (ToolTimeouts, EgressMode, Option<Seq<char>>),
    second: (ToolTimeouts, EgressMode, Option<Seq<char>>),
    x: Option<Arc<reqwest::Client>>,
    y: Option<Arc<reqwest::Client>>,
    other: Seq<char>,
)
    requires
        pooled(a, b, name, fingerprint(first.0, first.1, first.2), x),
        pooled(b, c, name, fingerprint(second.0, second.1, second.2), y),
        x is Some,
        y is Some,
        other != name,
    ensures
        b.cached().contains_key(name) && b.cached()[name].client == *x->0,
        c.cached().contains_key(name) && c.cached()[name].client == *y->0,
        c.cached()[name].number == b.cached()[name].number <==> {
            &&& first.0.request_seconds == second.0.request_seconds
            &&& first.0.idle_seconds == second.0.idle_seconds
            &&& first.1 == second.1
            &&& first.1 == EgressMode::Proxied ==> first.2 == second.2
        },
        c.cached()[name].number == b.cached()[name].number ==> x == y,
        c.cached().contains_key(other) == a.cached().contains_key(other),
        c.cached().contains_key(other) ==> c.cached()[other] == a.cached()[other],
{
}

/// The clients of other tools stay.
pub proof fn law_tools_have_clients_of_their_own(
    a: ClientPool,
    b: ClientPool,
    name: Seq<char>,
    wanted: FingerprintView,
    r: Option<Arc<reqwest::Client>>,
    other: Seq<char>,
)
    requires
        pooled(a, b, name, wanted, r),
        other != name,
        a.cached().contains_key(other),
    ensures
        b.cached().contains_key(other),
        b.cached()[other] == a.cached()[other],
{
}

/// A client is asked for the seconds of its tool, and for the configured proxy only where
/// the tool goes out through it.
pub proof fn law_only_proxied_tools_use_the_proxy(t: ToolTimeouts, proxy: Option<Seq<char>>)
    ensures
        ({
            let a = fingerprint(t, EgressMode::Direct, proxy);
            let b = fingerprint(t, EgressMode::Proxied, proxy);
            &&& a.request_seconds == t.request_seconds && b.request_seconds == t.request_seconds
            &&& a.idle_seconds == t.idle_seconds && b.idle_seconds == t.idle_seconds
            &&& a.egress_proxy_url is None && b.egress_proxy_url == proxy
            &&& a.egress == EgressMode::Direct && b.egress == EgressMode::Proxied
            &&& asked_for(a) == (t.request_seconds, t.idle_seconds, None::<reqwest::Proxy>)
            &&& asked_for(b).0 == t.request_seconds && asked_for(b).1 == t.idle_seconds
            &&& proxy matches Some(u) ==> asked_for(b).2 == read_proxy(u)
            &&& proxy is None ==> asked_for(b).2 is None
        }),
{
}

/// Changing any setting of a tool changes what its client is compared by; changing the proxy
/// does so for tools that go out through it.
pub proof fn law_every_setting_counts(
    t: ToolTimeouts,
    u: ToolTimeouts,
    e: EgressMode,
    f: EgressMode,
    proxy: Option<Seq<char>>,
    other: Option<Seq<char>>,
)
    ensures
        fingerprint(t, e, proxy) == fingerprint(u, f, other) <==> t == u && e == f && (e
            == EgressMode::Direct || proxy == other),
{
}

/// A client stays exactly if the name of its tool is among those that are still there.
pub proof fn law_clients_of_removed_tools_go(keep: Seq<&str>, name: Seq<char>, i: int)
    requires
        0 <= i < keep.len(),
    ensures
        kept_name(keep, keep[i]@),
        (forall|j: int| 0 <= j < keep.len() ==> (#[trigger] keep[j])@ != name) ==> !kept_name(
            keep,
            name,
        ),
{
    assert(keep[i]@ == keep[i]@);
}

} // verus!
