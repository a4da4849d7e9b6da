//! Revocation lists from the issuer.
use vstd::prelude::*;
use x509_parser::prelude::FromDer;
use x509_parser::revocation_list::CertificateRevocationList;

use crate::clock::unix_now;
use crate::encoding::{hex, to_hex};
use crate::mtls::serials::SerialSet;
use crate::mtls::{byte_views, contents_tagged, pem_blocks, read_pem, tagged};
use crate::text::{ascii_lower, cat, lower};

verus! {

/// The serials of a list and when it was taken over.
pub struct CrlState {
    pub revoked_serials: SerialSet,
    pub last_success_unix_secs: i64,
}

/// Why a list was not taken over.
#[derive(Debug)]
pub enum CrlParseError {
    /// The text is no PEM text, or holds no list.
    Pem(String),
    /// A list cannot be read.
    Der(String),
}

/// What a [`CrlParseError`] says.
pub ghost enum CrlFault {
    Pem(Seq<char>),
    Der(Seq<char>),
}

impl View for CrlParseError {
    type V = CrlFault;

    open spec fn view(&self) -> CrlFault {
        match self {
            CrlParseError::Pem(m) => CrlFault::Pem(m@),
            CrlParseError::Der(m) => CrlFault::Der(m@),
        }
    }
}

/// The text of an error.
pub open spec fn crl_message(e: CrlFault) -> Seq<char> {
    match e {
        CrlFault::Pem(m) => "PEM parse: "@ + m,
        CrlFault::Der(m) => "DER parse: "@ + m,
    }
}

impl CrlParseError {
    /// The text of the error.
    pub fn message(&self) -> (r: String)
        ensures
            r@ == crl_message(self@),
    {
        match self {
            CrlParseError::Pem(m) => cat("PEM parse: ", m.as_str()),
            CrlParseError::Der(m) => cat("DER parse: ", m.as_str()),
        }
    }
}

/// The serials of the certificates that a list revokes, as big-endian bytes, or
/// the message that says why the list cannot be read.
pub uninterp spec fn crl_serials(der: Seq<u8>) -> Result<Seq<Seq<u8>>, Seq<char>>;

/// `CertificateRevocationList::from_der` and its revoked certificates: their
/// serials in order, or the error's message. What comes out depends on the bytes
/// alone.
#[verifier::external_body]
fn read_crl(der: &[u8]) -> (r: Result<Vec<Vec<u8>>, String>)
    ensures
        match r {
            Ok(v) => crl_serials(der@) == Ok::<Seq<Seq<u8>>, Seq<char>>(byte_views(v@)),
            Err(e) => crl_serials(der@) == Err::<Seq<Seq<u8>>, Seq<char>>(e@),
        },
{
    let (_, crl) = CertificateRevocationList::from_der(der).map_err(|e| e.to_string())?;
    Ok(crl.iter_revoked_certificates().map(|c| c.user_certificate.to_bytes_be()).collect())
}

/// The hexadecimal forms of serials.
pub open spec fn hexes(serials: Seq<Seq<u8>>) -> Set<Seq<char>>
    decreases serials.len(),
{
    if serials.len() == 0 {
        Set::empty()
    } else {
        hexes(serials.drop_last()).insert(hex(serials.last()))
    }
}

/// The serials that lists revoke together, or what is wrong with the first list
/// that cannot be read.
pub open spec fn revoked_by(lists: Seq<Seq<u8>>) -> Result<Set<Seq<char>>, CrlFault>
    decreases lists.len(),
{
    if lists.len() == 0 {
        Ok(Set::empty())
    } else {
        match revoked_by(lists.drop_last()) {
            Err(e) => Err(e),
            Ok(rest) => match crl_serials(lists.last()) {
                Err(m) => Err(CrlFault::Der(m)),
                Ok(serials) => Ok(rest.union(hexes(serials))),
            },
        }
    }
}

/// The serials that a PEM text revokes. A text without any list revokes nothing
/// and is an error.
pub open spec fn crl_read(pem: Seq<u8>) -> Result<Set<Seq<char>>, CrlFault> {
    match pem_blocks(pem) {
        Err(m) => Err(CrlFault::Pem(m)),
        Ok(blocks) => match revoked_by(tagged(blocks, "X509 CRL"@)) {
            Err(e) => Err(e),
            Ok(serials) => if tagged(blocks, "X509 CRL"@).len() == 0 {
                Err(CrlFault::Pem("no `X509 CRL` PEM blocks in input"@))
            } else {
                Ok(serials)
            },
        },
    }
}

/// Adds serials to a set.
pub fn add_serials(set: SerialSet, serials: &Vec<Vec<u8>>) -> (r: SerialSet)
    ensures
        r@ == set@.union(hexes(byte_views(serials@))),
{
    let ghost start = set@;
    let ghost all = byte_views(serials@);
    let mut out = set;
    let mut i: usize = 0;
    assert(all.take(0) =~= Seq::empty());
    assert(out@ =~= start.union(hexes(all.take(0))));
    while i < serials.len()
        invariant
            i <= serials@.len(),
            all == byte_views(serials@),
            out@ == start.union(hexes(all.take(i as int))),
        decreases serials.len() - i,
    {
        assert(all.take(i + 1).drop_last() =~= all.take(i as int));
        assert(all.take(i + 1).last() == serials@[i as int]@);
        let ghost before = out@;
        out = out.insert(to_hex(serials[i].as_slice()));
        assert(out@ =~= start.union(hexes(all.take(i + 1))));
        i = i + 1;
    }
    assert(all.take(all.len() as int) =~= all);
    out
}

fn read_lists(lists: &Vec<Vec<u8>>) -> (r: Result<SerialSet, CrlParseError>)
    ensures
        match r {
            Ok(s) => revoked_by(byte_views(lists@)) == Ok::<Set<Seq<char>>, CrlFault>(s@),
            Err(e) => revoked_by(byte_views(lists@)) == Err::<Set<Seq<char>>, CrlFault>(e@),
        },
{
    let ghost all = byte_views(lists@);
    let mut out = SerialSet::new();
    let mut i: usize = 0;
    assert(all.take(0) =~= Seq::empty());
    while i < lists.len()
        invariant
            i <= lists@.len(),
            all == byte_views(lists@),
            revoked_by(all.take(i as int)) == Ok::<Set<Seq<char>>, CrlFault>(out@),
        decreases lists.len() - i,
    {
        assert(all.take(i + 1).drop_last() =~= all.take(i as int));
        assert(all.take(i + 1).last() == lists@[i as int]@);
        match read_crl(lists[i].as_slice()) {
            Ok(serials) => {
                out = add_serials(out, &serials);
            },
            Err(e) => {
                proof {
                    lemma_first_fault_stands(all, i + 1);
                }
                return Err(CrlParseError::Der(e));
            },
        }
        i = i + 1;
    }
    assert(all.take(all.len() as int) =~= all);
    Ok(out)
}

proof fn lemma_first_fault_stands(lists: Seq<Seq<u8>>, n: int)
    requires
        0 <= n <= lists.len(),
        revoked_by(lists.take(n)) is Err,
    ensures
        revoked_by(lists) == revoked_by(lists.take(n)),
    decreases lists.len() - n,
{
    if n == lists.len() {
        assert(lists.take(n) =~= lists);
    } else {
        assert(lists.take(n + 1).drop_last() =~= lists.take(n));
        lemma_first_fault_stands(lists, n + 1);
    }
}

/// The list that is in force, and how often a new one could not be had.
pub struct CrlStore {
    state: CrlState,
    failures: u64,
}

/// Whether the list in force stayed and one more failure was counted.
pub open spec fn only_counted(before: CrlStore, after: CrlStore) -> bool {
    &&& after.revoked() == before.revoked()
    &&& after.last_success() == before.last_success()
    &&& after.failures() == bumped(before.failures())
}

/// The next value of a counter.
pub open spec fn bumped(n: u64) -> u64 {
    if n == u64::MAX {
        0
    } else {
        (n + 1) as u64
    }
}

impl CrlStore {
    /// The revoked serials.
    pub closed spec fn revoked(self) -> Set<Seq<char>> {
        self.state.revoked_serials@
    }

    /// When the list in force was taken over; zero for never.
    pub closed spec fn last_success(self) -> i64 {
        self.state.last_success_unix_secs
    }

    /// How often a new list could not be had.
    pub closed spec fn failures(self) -> u64 {
        self.failures
    }

    /// A store without a list.
    pub fn new() -> (r: CrlStore)
        ensures
            r.revoked() == Set::<Seq<char>>::empty(),
            r.last_success() == 0,
            r.failures() == 0,
    {
        CrlStore {
            state: CrlState { revoked_serials: SerialSet::new(), last_success_unix_secs: 0 },
            failures: 0,
        }
    }

    /// Whether a serial was revoked.
    pub fn contains(&self, serial_hex: &str) -> (r: bool)
        ensures
            r == self.revoked().contains(lower(serial_hex@)),
    {
        self.state.revoked_serials.contains(ascii_lower(serial_hex).as_str())
    }

    /// The list in force.
    pub fn snapshot(&self) -> (r: &CrlState)
        ensures
            r.revoked_serials@ == self.revoked(),
            r.last_success_unix_secs == self.last_success(),
    {
        &self.state
    }

    /// The seconds since the list in force was taken over, counted from `now`;
    /// the largest number where there is no list.
    pub fn age_at(&self, now: i64) -> (r: i64)
        ensures
            r == age(self.last_success(), now),
    {
        let last: i64 = self.state.last_success_unix_secs;
        if last == 0 {
            return i64::MAX;
        }
        match now.checked_sub(last) {
            Some(d) => d,
            None => if now < last {
                i64::MIN
            } else {
                i64::MAX
            },
        }
    }

    /// The seconds since the list in force was taken over; the largest number
    /// where there is no list.
    pub fn age_secs(&self) -> (r: i64)
        ensures
            exists|now: i64| #[trigger] age(self.last_success(), now) == r,
    {
        self.age_at(unix_now())
    }

    /// How often a new list could not be had.
    pub fn refresh_failures_total(&self) -> (r: u64)
        ensures
            r == self.failures(),
    {
        self.failures
    }

    /// Notes that a new list could not be had.
    pub fn note_failure(&mut self)
        ensures
            only_counted(*old(self), *final(self)),
    {
        if self.failures == u64::MAX {
            self.failures = 0;
        } else {
            self.failures = self.failures + 1;
        }
    }

    /// Takes a new list over at the given time and gives the number of revoked
    /// serials. A text that cannot be read is noted as a failure and leaves the
    /// list in force.
    pub fn apply_pem_at(&mut self, pem_bytes: &[u8], now: i64) -> (r: Result<usize, CrlParseError>)
        ensures
            match crl_read(pem_bytes@) {
                Ok(serials) => r is Ok && r->Ok_0 == serials.len() && final(self).revoked()
                    == serials && final(self).last_success() == now && final(self).failures()
                    == old(self).failures(),
                Err(e) => r is Err && r->Err_0@ == e && only_counted(*old(self), *final(self)),
            },
    {
        let blocks = match read_pem(pem_bytes) {
            Ok(b) => b,
            Err(e) => {
                self.note_failure();
                return Err(CrlParseError::Pem(e));
            },
        };
        let lists = contents_tagged(&blocks, "X509 CRL");
        assert(byte_views(lists@).len() == lists@.len());
        let serials = match read_lists(&lists) {
            Ok(s) => s,
            Err(e) => {
                self.note_failure();
                return Err(e);
            },
        };
        if lists.len() == 0 {
            self.note_failure();
            return Err(CrlParseError::Pem("no `X509 CRL` PEM blocks in input".to_string()));
        }
        let n = serials.len();
        self.state = CrlState { revoked_serials: serials, last_success_unix_secs: now };
        Ok(n)
    }

    /// Takes a new list over and gives the number of revoked serials. A text that
    /// cannot be read is noted as a failure and leaves the list in force.
    pub fn apply_pem(&mut self, pem_bytes: &[u8]) -> (r: Result<usize, CrlParseError>)
        ensures
            match crl_read(pem_bytes@) {
                Ok(serials) => r is Ok && r->Ok_0 == serials.len() && final(self).revoked()
                    == serials && final(self).failures() == old(self).failures(),
                Err(e) => r is Err && r->Err_0@ == e && only_counted(*old(self), *final(self)),
            },
    {
        self.apply_pem_at(pem_bytes, unix_now())
    }
}

/// Takes over what a fetch brought: the text of a reply that succeeded, or nothing
/// where no text could be had, which is noted as a failure.
pub fn refresh_once(store: &mut CrlStore, fetched: Option<Vec<u8>>, now: i64) -> (r: Result<
    usize,
    Option<CrlParseError>,
>)
    ensures
        ({
            let read = match fetched {
                Some(body) => crl_read(body@),
                None => Err(CrlFault::Pem(Seq::empty())),
            };
            match read {
                Ok(serials) => r is Ok && r->Ok_0 == serials.len() && final(store).revoked()
                    == serials && final(store).last_success() == now && final(store).failures()
                    == old(store).failures(),
                Err(e) => only_counted(*old(store), *final(store)) && match fetched {
                    Some(_) => r matches Err(Some(said)) && said@ == e,
                    None => r matches Err(None),
                },
            }
        }),
{
    match fetched {
        Some(body) => match store.apply_pem_at(body.as_slice(), now) {
            Ok(n) => Ok(n),
            Err(e) => Err(Some(e)),
        },
        None => {
            store.note_failure();
            Err(None)
        },
    }
}

impl Default for CrlStore {
    fn default() -> (r: CrlStore)
        ensures
            r.revoked() == Set::<Seq<char>>::empty(),
            r.last_success() == 0,
            r.failures() == 0,
    {
        CrlStore::new()
    }
}

/// The seconds from one time to another, within the range of the type; the
/// largest number where the first is zero.
pub open spec fn age(last: i64, now: i64) -> i64 {
    if last == 0 {
        i64::MAX
    } else if now - last > i64::MAX {
        i64::MAX
    } else if now - last < i64::MIN {
        i64::MIN
    } else {
        (now - last) as i64
    }
}

proof fn lemma_hexes(serials: Seq<Seq<u8>>, x: Seq<char>)
    ensures
        hexes(serials).contains(x) <==> exists|i: int|
            0 <= i < serials.len() && hex(#[trigger] serials[i]) == x,
    decreases serials.len(),
{
    if serials.len() > 0 {
        let front = serials.drop_last();
        lemma_hexes(front, x);
        assert(serials[serials.len() - 1] == serials.last());
        if hexes(front).contains(x) {
            let i = choose|i: int| 0 <= i < front.len() && hex(#[trigger] front[i]) == x;
            assert(serials[i] == front[i]);
        }
        if exists|i: int| 0 <= i < serials.len() && hex(#[trigger] serials[i]) == x {
            let i = choose|i: int| 0 <= i < serials.len() && hex(#[trigger] serials[i]) == x;
            if i < front.len() {
                assert(front[i] == serials[i]);
            }
        }
    }
}

/// Where every list can be read, the revoked serials are the hexadecimal forms of those
/// that stand on some list, and no others; where one cannot, nothing is taken.
pub proof fn law_revoked_is_what_some_list_names(lists: Seq<Seq<u8>>, x: Seq<char>)
    ensures
        revoked_by(lists) is Ok <==> forall|i: int|
            0 <= i < lists.len() ==> crl_serials(#[trigger] lists[i]) is Ok,
        revoked_by(lists) matches Ok(set) ==> (set.contains(x) <==> exists|i: int|
            0 <= i < lists.len() && names(#[trigger] lists[i], x)),
        revoked_by(lists) matches Err(e) ==> e is Der,
    decreases lists.len(),
{
    if lists.len() > 0 {
        let front = lists.drop_last();
        law_revoked_is_what_some_list_names(front, x);
        let n = lists.len() - 1;
        assert(lists[n] == lists.last());
        assert forall|i: int| 0 <= i < n implies #[trigger] lists[i] == front[i] by {}
        if revoked_by(lists) is Ok {
            lemma_hexes(crl_serials(lists.last())->Ok_0, x);
            assert forall|i: int| 0 <= i < lists.len() implies crl_serials(
                #[trigger] lists[i],
            ) is Ok by {
                if i < n {
                    assert(crl_serials(front[i]) is Ok);
                }
            }
            if exists|i: int| 0 <= i < front.len() && names(#[trigger] front[i], x) {
                let i = choose|i: int| 0 <= i < front.len() && names(#[trigger] front[i], x);
                assert(names(lists[i], x));
            }
        } else if revoked_by(front) is Err {
            let i = choose|i: int|
                0 <= i < front.len() && !(crl_serials(#[trigger] front[i]) is Ok);
            assert(!(crl_serials(lists[i]) is Ok));
        }
    }
}

/// Whether a list can be read and names a serial.
pub open spec fn names(list: Seq<u8>, x: Seq<char>) -> bool {
    crl_serials(list) is Ok && exists|k: int|
        0 <= k < crl_serials(list)->Ok_0.len() && hex(#[trigger] crl_serials(list)->Ok_0[k]) == x
}

/// What was fetched counts only if it is PEM with at least one revocation list, all of which
/// can be read.
pub proof fn law_only_whole_lists_count(pem: Seq<u8>)
    ensures
        crl_read(pem) matches Ok(set) ==> {
            let lists = tagged(pem_blocks(pem)->Ok_0, "X509 CRL"@);
            &&& pem_blocks(pem) is Ok
            &&& lists.len() > 0
            &&& revoked_by(lists) == Ok::<Set<Seq<char>>, CrlFault>(set)
        },
        pem_blocks(pem) is Err ==> (crl_read(pem) matches Err(e) && e is Pem),
        pem_blocks(pem) is Ok && tagged(pem_blocks(pem)->Ok_0, "X509 CRL"@).len() == 0 ==> (
        crl_read(pem) matches Err(e) && e is Pem),
{
}

/// The age is the time since the last success; before any, it is as great as can be.
pub proof fn law_age_is_the_time_since_the_last_success(last: i64, now: i64)
    ensures
        last == 0 ==> age(last, now) == i64::MAX,
        last != 0 && i64::MIN <= now - last <= i64::MAX ==> age(last, now) == now - last,
        last != 0 && now - last > i64::MAX ==> age(last, now) == i64::MAX,
{
}

/// A list that could not be had leaves the one in force as it is, with its age, and is
/// counted: one more than before.
pub proof fn law_failures_change_the_count_only(before: CrlStore, after: CrlStore)
    requires
        only_counted(before, after),
    ensures
        after.revoked() == before.revoked(),
        after.last_success() == before.last_success(),
        before.failures() < u64::MAX ==> after.failures() == before.failures() + 1,
{
}

/// The message of an error ends in what is wrong with the list.
pub proof fn law_messages_end_in_the_cause(m: Seq<char>)
    ensures
        crate::text::ends_in(crl_message(CrlFault::Pem(m)), m),
        crate::text::ends_in(crl_message(CrlFault::Der(m)), m),
{
    broadcast use crate::text::lemma_ends_in;

}

/// A counter goes up by one, and begins again behind the largest number.
pub proof fn law_counters_go_up(n: u64)
    ensures
        n < u64::MAX ==> bumped(n) == n + 1,
        bumped(u64::MAX) == 0,
{
}

} // verus!
