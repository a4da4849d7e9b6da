//! Whether a client certificate is good, and whose it is.
use rustls::pki_types::{CertificateDer, UnixTime};
use vstd::prelude::*;
use vstd::string::StringSliceAdditionalSpecFns;
use webpki::{anchor_from_trusted_cert, EndEntityCert, KeyUsage, ALL_VERIFICATION_ALGS};
use x509_parser::certificate::X509Certificate;
use x509_parser::extensions::GeneralName::{DNSName, URI};
use x509_parser::prelude::FromDer;

use crate::clock::unix_now;
use crate::encoding::{hex, lemma_hex, to_hex};
use crate::mtls::blocklist::Blocklist;
use crate::mtls::crl::CrlStore;
use crate::mtls::validator::SubjectName::{Dns, Other, Uri};
use crate::mtls::{byte_views, contents_tagged, copy_bytes, pem_blocks, read_pem, tagged};
use crate::text::{cat, cat3, same};

verus! {

/// Why a certificate was not accepted.
#[derive(Debug)]
pub enum MtlsError {
    /// No trusted issuer signed it.
    UntrustedChain,
    /// Its time is over.
    Expired,
    /// Its time has not come.
    NotYetValid,
    /// It cannot be read.
    MalformedCert(String),
    /// It names nobody.
    NoIdentity,
    /// Its issuer revoked it.
    RevokedByCRL { serial: String },
    /// It is on the local list.
    RevokedByBlocklist { serial: String },
}

/// What an [`MtlsError`] says.
pub ghost enum MtlsFault {
    UntrustedChain,
    Expired,
    NotYetValid,
    MalformedCert(Seq<char>),
    NoIdentity,
    RevokedByCRL { serial: Seq<char> },
    RevokedByBlocklist { serial: Seq<char> },
}

impl View for MtlsError {
    type V = MtlsFault;

    open spec fn view(&self) -> MtlsFault {
        match self {
            MtlsError::UntrustedChain => MtlsFault::UntrustedChain,
            MtlsError::Expired => MtlsFault::Expired,
            MtlsError::NotYetValid => MtlsFault::NotYetValid,
            MtlsError::MalformedCert(m) => MtlsFault::MalformedCert(m@),
            MtlsError::NoIdentity => MtlsFault::NoIdentity,
            MtlsError::RevokedByCRL { serial } => MtlsFault::RevokedByCRL { serial: serial@ },
            MtlsError::RevokedByBlocklist { serial } => MtlsFault::RevokedByBlocklist {
                serial: serial@,
            },
        }
    }
}

/// The text of an error.
pub open spec fn mtls_message(e: MtlsFault) -> Seq<char> {
    match e {
        MtlsFault::UntrustedChain => "untrusted chain"@,
        MtlsFault::Expired => "certificate expired"@,
        MtlsFault::NotYetValid => "certificate not yet valid"@,
        MtlsFault::MalformedCert(m) => "malformed certificate: "@ + m,
        MtlsFault::NoIdentity => "no identity extractable from cert"@,
        MtlsFault::RevokedByCRL { serial } => "revoked by CRL (serial "@ + serial + ")"@,
        MtlsFault::RevokedByBlocklist { serial } => "revoked by local blocklist (serial "@ + serial
            + ")"@,
    }
}

/// The word by which an error is recorded.
pub open spec fn mtls_reason(e: MtlsFault) -> Seq<char> {
    match e {
        MtlsFault::UntrustedChain => "untrusted_chain"@,
        MtlsFault::Expired => "cert_expired"@,
        MtlsFault::NotYetValid => "cert_not_yet_valid"@,
        MtlsFault::MalformedCert(_) => "malformed_cert"@,
        MtlsFault::NoIdentity => "no_identity"@,
        MtlsFault::RevokedByCRL { .. } => "revoked_by_crl"@,
        MtlsFault::RevokedByBlocklist { .. } => "revoked_by_blocklist"@,
    }
}

impl MtlsError {
    /// The text of the error.
    pub fn message(&self) -> (r: String)
        ensures
            r@ == mtls_message(self@),
    {
        match self {
            MtlsError::UntrustedChain => "untrusted chain".to_string(),
            MtlsError::Expired => "certificate expired".to_string(),
            MtlsError::NotYetValid => "certificate not yet valid".to_string(),
            MtlsError::MalformedCert(m) => cat("malformed certificate: ", m.as_str()),
            MtlsError::NoIdentity => "no identity extractable from cert".to_string(),
            MtlsError::RevokedByCRL { serial } => cat3(
                "revoked by CRL (serial ",
                serial.as_str(),
                ")",
            ),
            MtlsError::RevokedByBlocklist { serial } => cat3(
                "revoked by local blocklist (serial ",
                serial.as_str(),
                ")",
            ),
        }
    }

    /// The word by which the error is recorded.
    pub fn reason(&self) -> (r: &'static str)
        ensures
            r@ == mtls_reason(self@),
    {
        match self {
            MtlsError::UntrustedChain => "untrusted_chain",
            MtlsError::Expired => "cert_expired",
            MtlsError::NotYetValid => "cert_not_yet_valid",
            MtlsError::MalformedCert(_) => "malformed_cert",
            MtlsError::NoIdentity => "no_identity",
            MtlsError::RevokedByCRL { .. } => "revoked_by_crl",
            MtlsError::RevokedByBlocklist { .. } => "revoked_by_blocklist",
        }
    }
}

/// Whose a certificate is: the name, where in the certificate it stands, and the
/// certificate's serial.
#[derive(Debug)]
pub struct MtlsIdentity {
    pub value: String,
    pub kind: &'static str,
    pub serial_hex: String,
}

/// What an [`MtlsIdentity`] says.
#[verifier::ext_equal]
pub ghost struct MtlsIdentityView {
    pub value: Seq<char>,
    pub kind: Seq<char>,
    pub serial_hex: Seq<char>,
}

impl View for MtlsIdentity {
    type V = MtlsIdentityView;

    open spec fn view(&self) -> MtlsIdentityView {
        MtlsIdentityView { value: self.value@, kind: self.kind@, serial_hex: self.serial_hex@ }
    }
}

/// An alternative name in a certificate.
pub enum SubjectName {
    Dns(String),
    Uri(String),
    Other,
}

/// What a [`SubjectName`] says.
pub ghost enum NameView {
    Dns(Seq<char>),
    Uri(Seq<char>),
    Other,
}

impl View for SubjectName {
    type V = NameView;

    open spec fn view(&self) -> NameView {
        match self {
            SubjectName::Dns(s) => NameView::Dns(s@),
            SubjectName::Uri(s) => NameView::Uri(s@),
            SubjectName::Other => NameView::Other,
        }
    }
}

/// What is read out of a certificate: its validity in seconds since the epoch,
/// the bytes of its serial, the first common name where that is a text, and the
/// alternative names.
pub struct CertFacts {
    pub not_before: i64,
    pub not_after: i64,
    pub serial: Vec<u8>,
    pub common_name: Option<String>,
    pub names: Vec<SubjectName>,
}

/// What [`CertFacts`] says.
#[verifier::ext_equal]
pub ghost struct FactsView {
    pub not_before: i64,
    pub not_after: i64,
    pub serial: Seq<u8>,
    pub common_name: Option<Seq<char>>,
    pub names: Seq<NameView>,
}

/// The views of alternative names.
pub open spec fn name_views(v: Seq<SubjectName>) -> Seq<NameView> {
    Seq::new(v.len(), |i: int| v[i]@)
}

impl View for CertFacts {
    type V = FactsView;

    open spec fn view(&self) -> FactsView {
        FactsView {
            not_before: self.not_before,
            not_after: self.not_after,
            serial: self.serial@,
            common_name: crate::text::opt_text(self.common_name),
            names: name_views(self.names@),
        }
    }
}

/// What can be read out of a certificate, or the message that says why nothing
/// can.
pub uninterp spec fn cert_facts(der: Seq<u8>) -> Result<FactsView, Seq<char>>;

/// `X509Certificate::from_der` and the parts of the certificate that are looked
/// at: validity, serial, the first common name of the subject, and the names of
/// the extension for alternative names, none where there is no such extension or
/// it cannot be read. What comes out depends on the bytes alone.
#[verifier::external_body]
fn read_cert(der: &[u8]) -> (r: Result<CertFacts, String>)
    ensures
        match r {
            Ok(c) => cert_facts(der@) == Ok::<FactsView, Seq<char>>(c@),
            Err(e) => cert_facts(der@) == Err::<FactsView, Seq<char>>(e@),
        },
{
    let c = X509Certificate::from_der(der).map_err(|e| e.to_string())?.1;
    let cn = c.subject.iter_common_name().next().and_then(|a| a.as_str().ok());
    let san = c.subject_alternative_name().ok().flatten().into_iter();
    let convert = |n| match n {
        &DNSName(s) => Dns(s.into()),
        &URI(s) => Uri(s.into()),
        _ => Other,
    };
    Ok(CertFacts {
        not_before: c.validity.not_before.timestamp(),
        not_after: c.validity.not_after.timestamp(),
        serial: c.serial.to_bytes_be(),
        common_name: cn.map(Into::into),
        names: san.flat_map(|e| &e.value.general_names).map(convert).collect(),
    })
}

/// Whether a certificate can be tested as one at the end of a chain, or the
/// message that says why not.
pub uninterp spec fn end_entity(der: Seq<u8>) -> Result<(), Seq<char>>;

/// `EndEntityCert::try_from` of `webpki`: whether the certificate is one that
/// `webpki` can test, or the error's message. What comes out depends on the bytes
/// alone.
#[verifier::external_body]
fn check_end_entity(der: &[u8]) -> (r: Result<(), String>)
    ensures
        match r {
            Ok(()) => end_entity(der@) is Ok,
            Err(e) => end_entity(der@) == Err::<(), Seq<char>>(e@),
        },
{
    let der = CertificateDer::from(der);
    EndEntityCert::try_from(&der).map(|_| ()).map_err(|e| e.to_string())
}

/// Whether a certificate can serve as a trust anchor.
pub uninterp spec fn anchor(der: Seq<u8>) -> bool;

/// `webpki::anchor_from_trusted_cert`: whether the certificate can serve as a
/// trust anchor. What comes out depends on the bytes alone.
#[verifier::external_body]
fn is_anchor(der: &Vec<u8>) -> (r: bool)
    ensures
        r == anchor(der@),
{
    anchor_from_trusted_cert(&CertificateDer::from(der.as_slice())).is_ok()
}

/// Whether a certificate is signed by one of the trust anchors, may be used by a
/// client, and is valid at the given second since the epoch.
pub uninterp spec fn chain_verified(leaf: Seq<u8>, anchors: Seq<Seq<u8>>, now: u64) -> bool;

/// `EndEntityCert::verify_for_usage` for client authentication, without
/// intermediate certificates or revocation lists, over all signature algorithms
/// that `webpki` understands. What comes out depends on the certificate, the
/// anchors and the time alone. Where the certificate or an anchor cannot be read,
/// it is false.
#[verifier::external_body]
fn verify_chain(leaf: &[u8], anchors: &Vec<Vec<u8>>, now: u64) -> (r: bool)
    ensures
        r == chain_verified(leaf@, byte_views(anchors@), now),
{
    let ders: Vec<_> = anchors.iter().map(|d| CertificateDer::from(d.as_slice())).collect();
    let roots: Result<Vec<_>, _> = ders.iter().map(anchor_from_trusted_cert).collect();
    let (der, at) = (CertificateDer::from(leaf), std::time::Duration::from_secs(now));
    let at = UnixTime::since_unix_epoch(at);
    let usage = KeyUsage::client_auth();
    match (EndEntityCert::try_from(&der), roots) {
        (Ok(ee), Ok(roots)) => ee
            .verify_for_usage(ALL_VERIFICATION_ALGS, &roots, &[], at, usage, None, None)
            .is_ok(),
        _ => false,
    }
}

/// Whether the time is within a certificate's validity.
pub open spec fn window(c: FactsView, now: i64) -> Result<(), MtlsFault> {
    if now < c.not_before {
        Err(MtlsFault::NotYetValid)
    } else if now > c.not_after {
        Err(MtlsFault::Expired)
    } else {
        Ok(())
    }
}

/// The first name for a host that is not empty.
pub open spec fn first_dns(names: Seq<NameView>) -> Option<Seq<char>>
    decreases names.len(),
{
    if names.len() == 0 {
        None
    } else {
        match names[0] {
            NameView::Dns(s) => if s.len() > 0 {
                Some(s)
            } else {
                first_dns(names.skip(1))
            },
            _ => first_dns(names.skip(1)),
        }
    }
}

/// The first name that is a URI and is not empty.
pub open spec fn first_uri(names: Seq<NameView>) -> Option<Seq<char>>
    decreases names.len(),
{
    if names.len() == 0 {
        None
    } else {
        match names[0] {
            NameView::Uri(s) => if s.len() > 0 {
                Some(s)
            } else {
                first_uri(names.skip(1))
            },
            _ => first_uri(names.skip(1)),
        }
    }
}

/// The common name where it is there and not empty.
pub open spec fn usable_cn(c: FactsView) -> Option<Seq<char>> {
    match c.common_name {
        Some(s) => if s.len() > 0 {
            Some(s)
        } else {
            None
        },
        None => None,
    }
}

/// Whose a certificate is: by its common name, else by its first host name, else
/// by its first URI.
pub open spec fn name_of(c: FactsView) -> Option<(Seq<char>, Seq<char>)> {
    match usable_cn(c) {
        Some(s) => Some((s, "cn"@)),
        None => match first_dns(c.names) {
            Some(s) => Some((s, "san_dns"@)),
            None => match first_uri(c.names) {
                Some(s) => Some((s, "san_uri"@)),
                None => None,
            },
        },
    }
}

/// Whether a serial is in a list, where there is one.
pub open spec fn listed(list: Option<Set<Seq<char>>>, serial: Seq<char>) -> bool {
    list is Some && list->Some_0.contains(serial)
}

/// Whose a certificate is whose chain was verified, unless it was revoked. The
/// local list is looked at first.
pub open spec fn identified(
    blocklist: Option<Set<Seq<char>>>,
    crl: Option<Set<Seq<char>>>,
    c: FactsView,
) -> Result<MtlsIdentityView, MtlsFault> {
    let serial = hex(c.serial);
    if listed(blocklist, serial) {
        Err(MtlsFault::RevokedByBlocklist { serial })
    } else if listed(crl, serial) {
        Err(MtlsFault::RevokedByCRL { serial })
    } else {
        match name_of(c) {
            Some(n) => Ok(MtlsIdentityView { value: n.0, kind: n.1, serial_hex: serial }),
            None => Err(MtlsFault::NoIdentity),
        }
    }
}

/// The roots that can serve as trust anchors.
pub open spec fn anchors_of(roots: Seq<Seq<u8>>) -> Seq<Seq<u8>>
    decreases roots.len(),
{
    if roots.len() == 0 {
        Seq::empty()
    } else {
        let rest = anchors_of(roots.drop_last());
        if anchor(roots.last()) {
            rest.push(roots.last())
        } else {
            rest
        }
    }
}

/// The roots that can serve as trust anchors.
pub fn usable_anchors(roots: &Vec<Vec<u8>>) -> (r: Vec<Vec<u8>>)
    ensures
        byte_views(r@) == anchors_of(byte_views(roots@)),
{
    let ghost all = byte_views(roots@);
    let mut out: Vec<Vec<u8>> = Vec::new();
    let mut i: usize = 0;
    assert(byte_views(out@) =~= anchors_of(all.take(0)));
    while i < roots.len()
        invariant
            i <= roots@.len(),
            all == byte_views(roots@),
            byte_views(out@) == anchors_of(all.take(i as int)),
        decreases roots.len() - i,
    {
        assert(all.take(i + 1).drop_last() =~= all.take(i as int));
        assert(all.take(i + 1).last() == roots@[i as int]@);
        if is_anchor(&roots[i]) {
            let ghost before = out@;
            out.push(copy_bytes(roots[i].as_slice()));
            assert(byte_views(out@) =~= byte_views(before).push(roots@[i as int]@));
        }
        i = i + 1;
    }
    assert(all.take(all.len() as int) =~= all);
    out
}

/// What testing a certificate at a given time gives: it must be readable, within
/// its validity, signed by a trusted issuer for use by a client, not revoked, and
/// name somebody.
pub open spec fn validated(
    roots: Seq<Seq<u8>>,
    blocklist: Option<Set<Seq<char>>>,
    crl: Option<Set<Seq<char>>>,
    der: Seq<u8>,
    now: i64,
) -> Result<MtlsIdentityView, MtlsFault> {
    match cert_facts(der) {
        Err(m) => Err(MtlsFault::MalformedCert("DER parse: "@ + m)),
        Ok(c) => match window(c, now) {
            Err(e) => Err(e),
            Ok(()) => match end_entity(der) {
                Err(m) => Err(MtlsFault::MalformedCert("webpki parse: "@ + m)),
                Ok(()) => if anchors_of(roots).len() == 0 || !chain_verified(
                    der,
                    anchors_of(roots),
                    now as u64,
                ) {
                    Err(MtlsFault::UntrustedChain)
                } else {
                    identified(blocklist, crl, c)
                },
            },
        },
    }
}

/// Tests client certificates against trusted issuers, the issuers' revocation
/// list and the local list, where there are such.
pub struct MtlsValidator {
    roots: Vec<Vec<u8>>,
    pub crl: Option<CrlStore>,
    pub blocklist: Option<Blocklist>,
}

/// The roots that a bundle holds, or what is wrong with it.
pub open spec fn bundle_roots(pem: Seq<u8>) -> Result<Seq<Seq<u8>>, MtlsFault> {
    match pem_blocks(pem) {
        Err(m) => Err(MtlsFault::MalformedCert("CA bundle: "@ + m)),
        Ok(blocks) => if tagged(blocks, "CERTIFICATE"@).len() == 0 {
            Err(MtlsFault::MalformedCert("CA bundle contains no CERTIFICATE blocks"@))
        } else {
            Ok(tagged(blocks, "CERTIFICATE"@))
        },
    }
}

/// Whether the time is within a certificate's validity.
pub fn check_window(facts: &CertFacts, now: i64) -> (r: Result<(), MtlsError>)
    ensures
        match r {
            Ok(()) => window(facts@, now) is Ok,
            Err(e) => window(facts@, now) == Err::<(), MtlsFault>(e@),
        },
{
    if now < facts.not_before {
        return Err(MtlsError::NotYetValid);
    }
    if now > facts.not_after {
        return Err(MtlsError::Expired);
    }
    Ok(())
}

fn find_dns(names: &Vec<SubjectName>) -> (r: Option<String>)
    ensures
        crate::text::opt_text(r) == first_dns(name_views(names@)),
{
    let ghost all = name_views(names@);
    let mut i: usize = 0;
    assert(all.skip(0) =~= all);
    while i < names.len()
        invariant
            i <= names@.len(),
            all == name_views(names@),
            first_dns(all) == first_dns(all.skip(i as int)),
        decreases names.len() - i,
    {
        assert(all.skip(i as int)[0] == names@[i as int]@);
        assert(all.skip(i as int).skip(1) =~= all.skip(i + 1));
        match &names[i] {
            SubjectName::Dns(s) => {
                proof {
                    reveal_strlit("");
                    assert(s@.len() == 0 ==> s@ =~= ""@);
                }
                if !same(s.as_str(), "") {
                    return Some(s.clone());
                }
            },
            _ => {},
        }
        i = i + 1;
    }
    None
}

fn find_uri(names: &Vec<SubjectName>) -> (r: Option<String>)
    ensures
        crate::text::opt_text(r) == first_uri(name_views(names@)),
{
    let ghost all = name_views(names@);
    let mut i: usize = 0;
    assert(all.skip(0) =~= all);
    while i < names.len()
        invariant
            i <= names@.len(),
            all == name_views(names@),
            first_uri(all) == first_uri(all.skip(i as int)),
        decreases names.len() - i,
    {
        assert(all.skip(i as int)[0] == names@[i as int]@);
        assert(all.skip(i as int).skip(1) =~= all.skip(i + 1));
        match &names[i] {
            SubjectName::Uri(s) => {
                proof {
                    reveal_strlit("");
                    assert(s@.len() == 0 ==> s@ =~= ""@);
                }
                if !same(s.as_str(), "") {
                    return Some(s.clone());
                }
            },
            _ => {},
        }
        i = i + 1;
    }
    None
}

/// Whose a certificate is.
pub fn cert_name(facts: &CertFacts) -> (r: Option<(String, &'static str)>)
    ensures
        match r {
            Some(n) => name_of(facts@) == Some((n.0@, n.1@)),
            None => name_of(facts@) is None,
        },
{
    match &facts.common_name {
        Some(s) => {
            proof {
                reveal_strlit("");
                assert(s@.len() == 0 ==> s@ =~= ""@);
            }
            if !same(s.as_str(), "") {
                return Some((s.clone(), "cn"));
            }
        },
        None => {},
    }
    match find_dns(&facts.names) {
        Some(s) => {
            return Some((s, "san_dns"));
        },
        None => {},
    }
    match find_uri(&facts.names) {
        Some(s) => Some((s, "san_uri")),
        None => None,
    }
}

impl MtlsValidator {
    /// The certificates of the trusted issuers.
    pub closed spec fn trusted(self) -> Seq<Seq<u8>> {
        byte_views(self.roots@)
    }

    /// The serials on the local list, where there is one.
    pub closed spec fn blocked(self) -> Option<Set<Seq<char>>> {
        match self.blocklist {
            Some(b) => Some(b.revoked()),
            None => None,
        }
    }

    /// The serials that the issuers revoked, where there is a list.
    pub closed spec fn revoked(self) -> Option<Set<Seq<char>>> {
        match self.crl {
            Some(c) => Some(c.revoked()),
            None => None,
        }
    }

    /// Trusts the certificates of a bundle in PEM, and no others.
    pub fn new(ca_bundle_pem: &str) -> (r: Result<MtlsValidator, MtlsError>)
        ensures
            match bundle_roots(vstd::utf8::encode_utf8(ca_bundle_pem@)) {
                Ok(roots) => r is Ok && r->Ok_0.trusted() == roots && r->Ok_0.blocked() is None
                    && r->Ok_0.revoked() is None,
                Err(e) => r is Err && r->Err_0@ == e,
            },
    {
        let blocks = match read_pem(ca_bundle_pem.as_bytes()) {
            Ok(b) => b,
            Err(e) => {
                return Err(MtlsError::MalformedCert(cat("CA bundle: ", e.as_str())));
            },
        };
        let roots = contents_tagged(&blocks, "CERTIFICATE");
        assert(byte_views(roots@).len() == roots@.len());
        if roots.len() == 0 {
            return Err(
                MtlsError::MalformedCert("CA bundle contains no CERTIFICATE blocks".to_string()),
            );
        }
        Ok(MtlsValidator { roots, crl: None, blocklist: None })
    }

    /// The same with the issuers' revocation list.
    pub fn with_crl(self, crl: CrlStore) -> (r: MtlsValidator)
        ensures
            r.trusted() == self.trusted(),
            r.blocked() == self.blocked(),
            r.revoked() == Some(crl.revoked()),
    {
        MtlsValidator { roots: self.roots, crl: Some(crl), blocklist: self.blocklist }
    }

    /// The same with the local list.
    pub fn with_blocklist(self, blocklist: Blocklist) -> (r: MtlsValidator)
        ensures
            r.trusted() == self.trusted(),
            r.blocked() == Some(blocklist.revoked()),
            r.revoked() == self.revoked(),
    {
        MtlsValidator { roots: self.roots, crl: self.crl, blocklist: Some(blocklist) }
    }

    /// Whose a certificate is whose chain was verified, unless it was revoked.
    pub fn identify(&self, facts: &CertFacts) -> (r: Result<MtlsIdentity, MtlsError>)
        ensures
            identity_result(r) == identified(self.blocked(), self.revoked(), facts@),
    {
        let serial_hex = to_hex(facts.serial.as_slice());
        proof {
            lemma_hex(facts.serial@);
        }
        match &self.blocklist {
            Some(b) => {
                if b.contains(serial_hex.as_str()) {
                    return Err(MtlsError::RevokedByBlocklist { serial: serial_hex });
                }
            },
            None => {},
        }
        match &self.crl {
            Some(c) => {
                if c.contains(serial_hex.as_str()) {
                    return Err(MtlsError::RevokedByCRL { serial: serial_hex });
                }
            },
            None => {},
        }
        match cert_name(facts) {
            Some(n) => Ok(MtlsIdentity { value: n.0, kind: n.1, serial_hex }),
            None => Err(MtlsError::NoIdentity),
        }
    }

    /// Tests a certificate at a given time.
    pub fn validate_at(&self, cert_der: &[u8], now: i64) -> (r: Result<MtlsIdentity, MtlsError>)
        ensures
            identity_result(r) == validated(
                self.trusted(),
                self.blocked(),
                self.revoked(),
                cert_der@,
                now,
            ),
    {
        let facts = match read_cert(cert_der) {
            Ok(f) => f,
            Err(e) => {
                return Err(MtlsError::MalformedCert(cat("DER parse: ", e.as_str())));
            },
        };
        match check_window(&facts, now) {
            Ok(()) => {},
            Err(e) => {
                return Err(e);
            },
        }
        match check_end_entity(cert_der) {
            Ok(()) => {},
            Err(e) => {
                return Err(MtlsError::MalformedCert(cat("webpki parse: ", e.as_str())));
            },
        }
        let anchors = usable_anchors(&self.roots);
        assert(byte_views(anchors@).len() == anchors@.len());
        if anchors.len() == 0 || !verify_chain(cert_der, &anchors, now as u64) {
            return Err(MtlsError::UntrustedChain);
        }
        self.identify(&facts)
    }

    /// Tests a certificate now.
    pub fn validate(&self, cert_der: &[u8]) -> (r: Result<MtlsIdentity, MtlsError>)
        ensures
            exists|now: i64| #[trigger]
                validated(self.trusted(), self.blocked(), self.revoked(), cert_der@, now)
                    == identity_result(r),
    {
        self.validate_at(cert_der, unix_now())
    }
}

/// The view of what testing a certificate gave.
pub open spec fn identity_result(r: Result<MtlsIdentity, MtlsError>) -> Result<
    MtlsIdentityView,
    MtlsFault,
> {
    match r {
        Ok(i) => Ok(i@),
        Err(e) => Err(e@),
    }
}

proof fn lemma_first_names(names: Seq<NameView>)
    ensures
        first_dns(names) matches Some(s) ==> s.len() > 0 && names.contains(NameView::Dns(s)),
        first_uri(names) matches Some(s) ==> s.len() > 0 && names.contains(NameView::Uri(s)),
    decreases names.len(),
{
    if names.len() > 0 {
        let rest = names.skip(1);
        lemma_first_names(rest);
        assert(names[0] == names[0] && names.contains(names[0]));
        match first_dns(rest) {
            Some(s) => {
                let k = rest.index_of(NameView::Dns(s));
                assert(names[k + 1] == NameView::Dns(s));
            },
            None => {},
        }
        match first_uri(rest) {
            Some(s) => {
                let k = rest.index_of(NameView::Uri(s));
                assert(names[k + 1] == NameView::Uri(s));
            },
            None => {},
        }
    }
}

/// An accepted certificate is within its validity, its chain leads to a trusted
/// issuer, its serial is on neither list, and the name that it gives is not empty.
pub proof fn law_accepted_certificate(
    roots: Seq<Seq<u8>>,
    blocklist: Option<Set<Seq<char>>>,
    crl: Option<Set<Seq<char>>>,
    der: Seq<u8>,
    now: i64,
)
    requires
        validated(roots, blocklist, crl, der, now) is Ok,
    ensures
        ({
            let c = cert_facts(der)->Ok_0;
            let id = validated(roots, blocklist, crl, der, now)->Ok_0;
            &&& cert_facts(der) is Ok
            &&& c.not_before <= now <= c.not_after
            &&& chain_verified(der, anchors_of(roots), now as u64)
            &&& !listed(blocklist, hex(c.serial))
            &&& !listed(crl, hex(c.serial))
            &&& id.serial_hex == hex(c.serial)
            &&& id.value.len() > 0
        }),
{
    lemma_first_names(cert_facts(der)->Ok_0.names);
}

/// A certificate whose serial is on a list is never accepted, however the serial
/// was written there.
pub proof fn law_revoked_serial_is_refused(
    roots: Seq<Seq<u8>>,
    blocklist: Option<Set<Seq<char>>>,
    crl: Option<Set<Seq<char>>>,
    der: Seq<u8>,
    now: i64,
    written: Seq<char>,
)
    requires
        cert_facts(der) is Ok,
        crate::text::lower(written) == hex(cert_facts(der)->Ok_0.serial),
        listed(blocklist, crate::text::lower(written)) || listed(
            crl,
            crate::text::lower(written),
        ),
    ensures
        validated(roots, blocklist, crl, der, now) is Err,
{
}

proof fn lemma_first_dns(names: Seq<NameView>)
    ensures
        first_dns(names) is None <==> forall|i: int|
            0 <= i < names.len() ==> !usable_dns(#[trigger] names[i]),
        first_dns(names) matches Some(s) ==> exists|i: int|
            0 <= i < names.len() && #[trigger] names[i] == NameView::Dns(s) && s.len() > 0
                && forall|h: int| 0 <= h < i ==> !usable_dns(#[trigger] names[h]),
    decreases names.len(),
{
    if names.len() > 0 && !usable_dns(names[0]) {
        let rest = names.skip(1);
        lemma_first_dns(rest);
        if let Some(s) = first_dns(rest) {
            let i = choose|i: int|
                0 <= i < rest.len() && #[trigger] rest[i] == NameView::Dns(s) && s.len() > 0
                    && forall|h: int| 0 <= h < i ==> !usable_dns(#[trigger] rest[h]);
            assert(names[i + 1] == NameView::Dns(s));
            assert forall|h: int| 0 <= h < i + 1 implies !usable_dns(#[trigger] names[h]) by {
                if h > 0 {
                    assert(rest[h - 1] == names[h]);
                }
            }
        } else {
            assert forall|h: int| 0 <= h < names.len() implies !usable_dns(#[trigger] names[h]) by {
                if h > 0 {
                    assert(rest[h - 1] == names[h]);
                }
            }
        }
    } else if names.len() > 0 {
        assert(names[0] == NameView::Dns(first_dns(names)->Some_0));
    }
}

proof fn lemma_first_uri(names: Seq<NameView>)
    ensures
        first_uri(names) is None <==> forall|i: int|
            0 <= i < names.len() ==> !usable_uri(#[trigger] names[i]),
        first_uri(names) matches Some(s) ==> exists|i: int|
            0 <= i < names.len() && #[trigger] names[i] == NameView::Uri(s) && s.len() > 0
                && forall|h: int| 0 <= h < i ==> !usable_uri(#[trigger] names[h]),
    decreases names.len(),
{
    if names.len() > 0 && !usable_uri(names[0]) {
        let rest = names.skip(1);
        lemma_first_uri(rest);
        if let Some(s) = first_uri(rest) {
            let i = choose|i: int|
                0 <= i < rest.len() && #[trigger] rest[i] == NameView::Uri(s) && s.len() > 0
                    && forall|h: int| 0 <= h < i ==> !usable_uri(#[trigger] rest[h]);
            assert(names[i + 1] == NameView::Uri(s));
            assert forall|h: int| 0 <= h < i + 1 implies !usable_uri(#[trigger] names[h]) by {
                if h > 0 {
                    assert(rest[h - 1] == names[h]);
                }
            }
        } else {
            assert forall|h: int| 0 <= h < names.len() implies !usable_uri(#[trigger] names[h]) by {
                if h > 0 {
                    assert(rest[h - 1] == names[h]);
                }
            }
        }
    } else if names.len() > 0 {
        assert(names[0] == NameView::Uri(first_uri(names)->Some_0));
    }
}

/// Whether a name is a DNS name that is not empty.
pub open spec fn usable_dns(n: NameView) -> bool {
    n matches NameView::Dns(s) && s.len() > 0
}

/// Whether a name is a URI that is not empty.
pub open spec fn usable_uri(n: NameView) -> bool {
    n matches NameView::Uri(s) && s.len() > 0
}

/// A certificate is its common name's. Where that is missing or empty, it is the first DNS
/// name's that is not empty, and where there is none, the first such URI's; a certificate
/// without any is nobody's.
pub proof fn law_whose_a_certificate_is(c: FactsView)
    ensures
        c.common_name is Some && c.common_name->Some_0.len() > 0 ==> name_of(c) == Some(
            (c.common_name->Some_0, "cn"@),
        ),
        (c.common_name is None || c.common_name->Some_0.len() == 0) ==> {
            &&& (exists|i: int| 0 <= i < c.names.len() && usable_dns(#[trigger] c.names[i])) ==> {
                &&& name_of(c) matches Some(n) && n.1 == "san_dns"@ && exists|i: int|
                    0 <= i < c.names.len() && #[trigger] c.names[i] == NameView::Dns(n.0)
                        && n.0.len() > 0 && forall|h: int|
                        0 <= h < i ==> !usable_dns(#[trigger] c.names[h])
            }
            &&& !(exists|i: int| 0 <= i < c.names.len() && usable_dns(#[trigger] c.names[i])) && (
            exists|i: int| 0 <= i < c.names.len() && usable_uri(#[trigger] c.names[i])) ==> {
                &&& name_of(c) matches Some(n) && n.1 == "san_uri"@ && exists|i: int|
                    0 <= i < c.names.len() && #[trigger] c.names[i] == NameView::Uri(n.0)
                        && n.0.len() > 0 && forall|h: int|
                        0 <= h < i ==> !usable_uri(#[trigger] c.names[h])
            }
            &&& !(exists|i: int|
                0 <= i < c.names.len() && (usable_dns(#[trigger] c.names[i]) || usable_uri(
                    c.names[i],
                ))) ==> name_of(c) is None
        },
{
    lemma_first_dns(c.names);
    lemma_first_uri(c.names);
}

/// A certificate is good from its first second to its last, both included.
pub proof fn law_certificates_are_good_in_their_time(c: CertFacts, now: i64)
    ensures
        window(c@, now) is Ok <==> c.not_before <= now <= c.not_after,
        now < c.not_before ==> window(c@, now) == Err::<(), MtlsFault>(MtlsFault::NotYetValid),
        c.not_before <= now && now > c.not_after ==> window(c@, now) == Err::<(), MtlsFault>(
            MtlsFault::Expired,
        ),
{
}

/// A certificate whose serial stands on a list is refused for it, the local list first; one
/// that stands on none is let through with its name and its serial.
pub proof fn law_lists_decide_before_the_name(
    blocklist: Option<Set<Seq<char>>>,
    crl: Option<Set<Seq<char>>>,
    c: FactsView,
)
    ensures
        ({
            let blocked = blocklist matches Some(b) && b.contains(hex(c.serial));
            let revoked = crl matches Some(r) && r.contains(hex(c.serial));
            let said = identified(blocklist, crl, c);
            &&& blocked ==> said == Err::<MtlsIdentityView, MtlsFault>(
                MtlsFault::RevokedByBlocklist { serial: hex(c.serial) },
            )
            &&& !blocked && revoked ==> said == Err::<MtlsIdentityView, MtlsFault>(
                MtlsFault::RevokedByCRL { serial: hex(c.serial) },
            )
            &&& !blocked && !revoked ==> match name_of(c) {
                Some(n) => said == Ok::<MtlsIdentityView, MtlsFault>(
                    MtlsIdentityView { value: n.0, kind: n.1, serial_hex: hex(c.serial) },
                ),
                None => said == Err::<MtlsIdentityView, MtlsFault>(MtlsFault::NoIdentity),
            }
        }),
{
}

/// A certificate is accepted exactly if it can be read, now lies in its time, it can stand
/// at the end of a chain, a chain leads from it to a root that can be used, its serial
/// stands on no list, and it has a name.
pub proof fn law_what_certificates_are_accepted(
    roots: Seq<Seq<u8>>,
    blocklist: Option<Set<Seq<char>>>,
    crl: Option<Set<Seq<char>>>,
    der: Seq<u8>,
    now: i64,
)
    ensures
        validated(roots, blocklist, crl, der, now) is Ok <==> {
            &&& cert_facts(der) matches Ok(c) && {
                &&& c.not_before <= now <= c.not_after
                &&& end_entity(der) is Ok
                &&& anchors_of(roots).len() > 0
                &&& chain_verified(der, anchors_of(roots), now as u64)
                &&& blocklist matches Some(b) ==> !b.contains(hex(c.serial))
                &&& crl matches Some(r) ==> !r.contains(hex(c.serial))
                &&& name_of(c) is Some
            }
        },
        (cert_facts(der) matches Ok(c) && c.not_before <= now <= c.not_after && end_entity(
            der,
        ) is Ok && anchors_of(roots).len() == 0) ==> validated(roots, blocklist, crl, der, now)
            == Err::<MtlsIdentityView, MtlsFault>(MtlsFault::UntrustedChain),
{
}

/// The roots that chains may lead to are the given ones that can be used, in order.
pub proof fn law_only_usable_roots_are_trusted(roots: Seq<Seq<u8>>, r: Seq<u8>)
    ensures
        anchors_of(Seq::empty()).len() == 0,
        anchor(r) ==> anchors_of(roots.push(r)) == anchors_of(roots) + seq![r],
        !anchor(r) ==> anchors_of(roots.push(r)) == anchors_of(roots),
{
    assert(roots.push(r).drop_last() =~= roots);
    assert(anchors_of(roots) + seq![r] =~= anchors_of(roots).push(r));
}

/// Each way to refuse a certificate is recorded under a word of its own.
pub proof fn law_reasons_are_told_apart(e: MtlsError)
    ensures
        mtls_reason(e@) == "untrusted_chain"@ <==> e is UntrustedChain,
        mtls_reason(e@) == "cert_expired"@ <==> e is Expired,
        mtls_reason(e@) == "cert_not_yet_valid"@ <==> e is NotYetValid,
        mtls_reason(e@) == "malformed_cert"@ <==> e is MalformedCert,
        mtls_reason(e@) == "no_identity"@ <==> e is NoIdentity,
        mtls_reason(e@) == "revoked_by_crl"@ <==> e is RevokedByCRL,
        mtls_reason(e@) == "revoked_by_blocklist"@ <==> e is RevokedByBlocklist,
{
    reveal_strlit("untrusted_chain");
    reveal_strlit("cert_expired");
    reveal_strlit("cert_not_yet_valid");
    reveal_strlit("malformed_cert");
    reveal_strlit("no_identity");
    reveal_strlit("revoked_by_crl");
    reveal_strlit("revoked_by_blocklist");
    assert("untrusted_chain"@.len() == 15);
    assert("cert_expired"@.len() == 12);
    assert("cert_not_yet_valid"@.len() == 18);
    assert("malformed_cert"@.len() == 14 && "malformed_cert"@[0] == 'm');
    assert("no_identity"@.len() == 11);
    assert("revoked_by_crl"@.len() == 14 && "revoked_by_crl"@[0] == 'r');
    assert("revoked_by_blocklist"@.len() == 20);
}

} // verus!
