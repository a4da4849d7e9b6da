//! The agent listener with client certificates: what its TLS is set up from.
use vstd::prelude::*;
use vstd::string::StringSliceAdditionalSpecFns;
use vstd::utf8::encode_utf8;

use crate::admin::https::{tls_load_error, tls_load_message};
use crate::config::AuthMode;
use crate::mtls::validator::{anchors_of, usable_anchors};
use crate::mtls::{byte_views, contents_tagged, copy_bytes, pem_blocks, read_pem, tagged};
use crate::text::cat;

verus! {

/// The client certificate that a connection showed, where it showed one.
#[derive(Clone, Debug)]
pub struct PeerCertDer(pub Option<Vec<u8>>);

/// The certificate of the client: the first of those that it showed.
pub open spec fn peer_leaf(chain: Option<Seq<Seq<u8>>>) -> Option<Seq<u8>> {
    match chain {
        Some(c) => if c.len() > 0 {
            Some(c[0])
        } else {
            None
        },
        None => None,
    }
}

impl PeerCertDer {
    /// The certificate, where there is one.
    pub open spec fn leaf(self) -> Option<Seq<u8>> {
        match self.0 {
            Some(b) => Some(b@),
            None => None,
        }
    }

    /// The certificate of a client that showed a chain, or none.
    pub fn of(chain: Option<&Vec<Vec<u8>>>) -> (r: PeerCertDer)
        ensures
            r.leaf() == peer_leaf(
                match chain {
                    Some(c) => Some(byte_views(c@)),
                    None => None,
                },
            ),
    {
        match chain {
            Some(c) => if c.len() > 0 {
                PeerCertDer(Some(copy_bytes(c[0].as_slice())))
            } else {
                PeerCertDer(None)
            },
            None => PeerCertDer(None),
        }
    }
}

/// The certificates of a PEM file in order, or the message that says what is wrong
/// with it.
pub uninterp spec fn file_certs(pem: Seq<u8>) -> Result<Seq<Seq<u8>>, Seq<char>>;

/// `rustls_pemfile::certs`: the contents of the certificate sections, in order, or
/// the message of the first error. What comes out depends on the bytes alone.
#[verifier::external_body]
fn read_certs(pem: &[u8]) -> (r: Result<Vec<Vec<u8>>, String>)
    ensures
        match r {
            Ok(v) => file_certs(pem@) == Ok::<Seq<Seq<u8>>, Seq<char>>(byte_views(v@)),
            Err(e) => file_certs(pem@) == Err::<Seq<Seq<u8>>, Seq<char>>(e@),
        },
{
    let mut pem = pem;
    let certs = rustls_pemfile::certs(&mut pem).map(|c| c.map(|c| c.as_ref().to_vec()));
    certs.collect::<Result<_, _>>().map_err(|e: std::io::Error| e.to_string())
}

/// The first private key of a PEM file, or the message that says what is wrong with
/// it.
pub uninterp spec fn file_key(pem: Seq<u8>) -> Result<Option<Seq<u8>>, Seq<char>>;

/// `rustls_pemfile::private_key`: the contents of the first section that holds a
/// private key, none where there is none, or the message of the first error. What
/// comes out depends on the bytes alone.
#[verifier::external_body]
fn read_key(pem: &[u8]) -> (r: Result<Option<Vec<u8>>, String>)
    ensures
        match r {
            Ok(Some(k)) => file_key(pem@) == Ok::<Option<Seq<u8>>, Seq<char>>(Some(k@)),
            Ok(None) => file_key(pem@) == Ok::<Option<Seq<u8>>, Seq<char>>(None),
            Err(e) => file_key(pem@) == Err::<Option<Seq<u8>>, Seq<char>>(e@),
        },
{
    let mut pem = pem;
    let key = rustls_pemfile::private_key(&mut pem).map_err(|e| e.to_string())?;
    Ok(key.map(|k| k.secret_der().to_vec()))
}

/// What the TLS of a listener is set up from.
pub struct TlsSettings {
    /// The listener's own certificates.
    pub chain: Vec<Vec<u8>>,
    /// The listener's private key.
    pub key: Vec<u8>,
    /// The certificates that client certificates are tested against.
    pub roots: Vec<Vec<u8>>,
    /// Whether a client may connect without a certificate.
    pub client_cert_optional: bool,
}

/// What a [`TlsSettings`] says.
#[verifier::ext_equal]
pub ghost struct TlsView {
    pub chain: Seq<Seq<u8>>,
    pub key: Seq<u8>,
    pub roots: Seq<Seq<u8>>,
    pub client_cert_optional: bool,
}

impl View for TlsSettings {
    type V = TlsView;

    open spec fn view(&self) -> TlsView {
        TlsView {
            chain: byte_views(self.chain@),
            key: self.key@,
            roots: byte_views(self.roots@),
            client_cert_optional: self.client_cert_optional,
        }
    }
}

/// The listener's own certificates: at least one, or the message that says what is
/// wrong.
pub open spec fn own_chain(certs: Result<Seq<Seq<u8>>, Seq<char>>, path: Seq<char>) -> Result<
    Seq<Seq<u8>>,
    Seq<char>,
> {
    match certs {
        Err(e) => Err("server cert parse: "@ + e),
        Ok(c) => if c.len() == 0 {
            Err(path + ": no CERTIFICATE PEM blocks"@)
        } else {
            Ok(c)
        },
    }
}

/// The listener's private key, or the message that says what is wrong.
pub open spec fn own_key(key: Result<Option<Seq<u8>>, Seq<char>>, path: Seq<char>) -> Result<
    Seq<u8>,
    Seq<char>,
> {
    match key {
        Err(e) => Err("server key parse: "@ + e),
        Ok(None) => Err(path + ": no PRIVATE KEY block"@),
        Ok(Some(k)) => Ok(k),
    }
}

/// The trust anchors among the certificates of a bundle: at least one, or the
/// message that says what is wrong.
pub open spec fn client_roots(blocks: Result<Seq<(Seq<char>, Seq<u8>)>, Seq<char>>) -> Result<
    Seq<Seq<u8>>,
    Seq<char>,
> {
    match blocks {
        Err(e) => Err("ca bundle parse: "@ + e),
        Ok(b) => {
            let roots = anchors_of(tagged(b, "CERTIFICATE"@));
            if roots.len() == 0 {
                Err("ca bundle: no usable trust anchors"@)
            } else {
                Ok(roots)
            }
        },
    }
}

/// What the TLS of the listener is set up from, or the first thing that is wrong:
/// with its certificates, with its key, with the bundle, in this order.
pub open spec fn tls_settings(
    cert_path: Seq<char>,
    certs: Result<Seq<Seq<u8>>, Seq<char>>,
    key_path: Seq<char>,
    key: Result<Option<Seq<u8>>, Seq<char>>,
    blocks: Result<Seq<(Seq<char>, Seq<u8>)>, Seq<char>>,
    mode: AuthMode,
) -> Result<TlsView, Seq<char>> {
    match (own_chain(certs, cert_path), own_key(key, key_path), client_roots(blocks)) {
        (Err(e), _, _) => Err(e),
        (_, Err(e), _) => Err(e),
        (_, _, Err(e)) => Err(e),
        (Ok(chain), Ok(key), Ok(roots)) => Ok(
            TlsView { chain, key, roots, client_cert_optional: mode == AuthMode::Both },
        ),
    }
}

/// The view of what a file of certificates holds.
pub open spec fn certs_view(certs: Result<Vec<Vec<u8>>, String>) -> Result<
    Seq<Seq<u8>>,
    Seq<char>,
> {
    match certs {
        Ok(v) => Ok(byte_views(v@)),
        Err(e) => Err(e@),
    }
}

/// The view of what a file of a key holds.
pub open spec fn key_view(key: Result<Option<Vec<u8>>, String>) -> Result<
    Option<Seq<u8>>,
    Seq<char>,
> {
    match key {
        Ok(Some(k)) => Ok(Some(k@)),
        Ok(None) => Ok(None),
        Err(e) => Err(e@),
    }
}

/// What the TLS of the listener is set up from, given what its files hold.
pub fn assemble(
    cert_path: &str,
    certs: Result<Vec<Vec<u8>>, String>,
    key_path: &str,
    key: Result<Option<Vec<u8>>, String>,
    blocks: Result<Vec<(String, Vec<u8>)>, String>,
    mode: AuthMode,
) -> (r: Result<TlsSettings, String>)
    requires
        mode != AuthMode::Bearer,
    ensures
        ({
            let want = tls_settings(
                cert_path@,
                certs_view(certs),
                key_path@,
                key_view(key),
                match blocks {
                    Ok(v) => Ok(crate::mtls::blocks_view(v@)),
                    Err(e) => Err(e@),
                },
                mode,
            );
            match r {
                Ok(t) => want == Ok::<TlsView, Seq<char>>(t@),
                Err(e) => want == Err::<TlsView, Seq<char>>(e@),
            }
        }),
{
    let chain = match certs {
        Ok(c) => c,
        Err(e) => return Err(cat("server cert parse: ", e.as_str())),
    };
    if chain.len() == 0 {
        return Err(cat(cert_path, ": no CERTIFICATE PEM blocks"));
    }
    let key = match key {
        Ok(Some(k)) => k,
        Ok(None) => return Err(cat(key_path, ": no PRIVATE KEY block")),
        Err(e) => return Err(cat("server key parse: ", e.as_str())),
    };
    let roots = match blocks {
        Ok(b) => usable_anchors(&contents_tagged(&b, "CERTIFICATE")),
        Err(e) => return Err(cat("ca bundle parse: ", e.as_str())),
    };
    if roots.len() == 0 {
        return Err("ca bundle: no usable trust anchors".to_owned());
    }
    Ok(TlsSettings { chain, key, roots, client_cert_optional: mode == AuthMode::Both })
}

/// What the TLS of the listener is set up from: the text of its certificates, of its
/// key, and of the bundle of roots. A listener that takes tokens alone has none.
pub fn build_server_config(
    cert_path: &str,
    cert_pem: &[u8],
    key_path: &str,
    key_pem: &[u8],
    ca_bundle_pem: &str,
    mode: AuthMode,
) -> (r: Result<TlsSettings, String>)
    requires
        mode != AuthMode::Bearer,
    ensures
        ({
            let want = tls_settings(
                cert_path@,
                file_certs(cert_pem@),
                key_path@,
                file_key(key_pem@),
                pem_blocks(encode_utf8(ca_bundle_pem@)),
                mode,
            );
            match r {
                Ok(t) => want == Ok::<TlsView, Seq<char>>(t@),
                Err(e) => want == Err::<TlsView, Seq<char>>(e@),
            }
        }),
{
    let certs = read_certs(cert_pem);
    let key = read_key(key_pem);
    let blocks = read_pem(ca_bundle_pem.as_bytes());
    assemble(cert_path, certs, key_path, key, blocks, mode)
}

/// The certificates and the key of a listener that asks its clients for none, given what
/// its two files hold. The message of an error names both files.
pub open spec fn server_pair(
    cert_path: Seq<char>,
    certs: Result<Seq<Seq<u8>>, Seq<char>>,
    key_path: Seq<char>,
    key: Result<Option<Seq<u8>>, Seq<char>>,
) -> Result<(Seq<Seq<u8>>, Seq<u8>), Seq<char>> {
    match certs {
        Err(e) => Err(tls_load_message(cert_path, key_path, e)),
        Ok(chain) => match key {
            Err(e) => Err(tls_load_message(cert_path, key_path, e)),
            Ok(None) => Err(tls_load_message(cert_path, key_path, "no PRIVATE KEY block"@)),
            Ok(Some(k)) => Ok((chain, k)),
        },
    }
}

/// The certificates and the key of a listener that asks its clients for none, from the
/// texts of its two files.
pub fn server_files(cert_path: &str, cert_pem: &[u8], key_path: &str, key_pem: &[u8]) -> (r: Result<
    (Vec<Vec<u8>>, Vec<u8>),
    String,
>)
    ensures
        ({
            let want = server_pair(
                cert_path@,
                file_certs(cert_pem@),
                key_path@,
                file_key(key_pem@),
            );
            match r {
                Ok(p) => want == Ok::<(Seq<Seq<u8>>, Seq<u8>), Seq<char>>(
                    (byte_views(p.0@), p.1@),
                ),
                Err(e) => want == Err::<(Seq<Seq<u8>>, Seq<u8>), Seq<char>>(e@),
            }
        }),
{
    server_pair_of(cert_path, read_certs(cert_pem), key_path, read_key(key_pem))
}

/// The certificates and the key of a listener that asks its clients for none, given what
/// its two files hold.
pub fn server_pair_of(
    cert_path: &str,
    certs: Result<Vec<Vec<u8>>, String>,
    key_path: &str,
    key: Result<Option<Vec<u8>>, String>,
) -> (r: Result<(Vec<Vec<u8>>, Vec<u8>), String>)
    ensures
        ({
            let want = server_pair(cert_path@, certs_view(certs), key_path@, key_view(key));
            match r {
                Ok(p) => want == Ok::<(Seq<Seq<u8>>, Seq<u8>), Seq<char>>(
                    (byte_views(p.0@), p.1@),
                ),
                Err(e) => want == Err::<(Seq<Seq<u8>>, Seq<u8>), Seq<char>>(e@),
            }
        }),
{
    let chain = match certs {
        Ok(c) => c,
        Err(e) => {
            return Err(tls_load_error(cert_path, key_path, e.as_str()));
        },
    };
    match key {
        Ok(Some(k)) => Ok((chain, k)),
        Ok(None) => Err(tls_load_error(cert_path, key_path, "no PRIVATE KEY block")),
        Err(e) => Err(tls_load_error(cert_path, key_path, e.as_str())),
    }
}

/// A listener that is set up has a certificate of its own and someone to trust, and
/// lets a client without a certificate connect only where tokens count as well.
pub proof fn law_listener_is_complete(
    cert_path: Seq<char>,
    certs: Result<Seq<Seq<u8>>, Seq<char>>,
    key_path: Seq<char>,
    key: Result<Option<Seq<u8>>, Seq<char>>,
    blocks: Result<Seq<(Seq<char>, Seq<u8>)>, Seq<char>>,
    mode: AuthMode,
)
    ensures
        tls_settings(cert_path, certs, key_path, key, blocks, mode) matches Ok(t) ==> {
            &&& t.chain.len() > 0
            &&& t.roots.len() > 0
            &&& t.client_cert_optional <==> mode == AuthMode::Both
        },
{
}

/// The certificate of a client is the first of its chain, where there is one.
pub proof fn law_client_certificate_is_the_first(chain: Seq<Seq<u8>>, leaf: Seq<u8>)
    ensures
        peer_leaf(None) is None,
        peer_leaf(Some(Seq::empty())) is None,
        peer_leaf(Some(seq![leaf] + chain)) == Some(leaf),
{
}

/// A listener with certificates is set up exactly if its own certificates and key can be
/// read and are there, and some root of the bundle can be used; it is set up with these.
pub proof fn law_listener_has_what_its_files_hold(
    cert_path: Seq<char>,
    certs: Result<Seq<Seq<u8>>, Seq<char>>,
    key_path: Seq<char>,
    key: Result<Option<Seq<u8>>, Seq<char>>,
    blocks: Result<Seq<(Seq<char>, Seq<u8>)>, Seq<char>>,
    mode: AuthMode,
)
    ensures
        tls_settings(cert_path, certs, key_path, key, blocks, mode) is Ok <==> {
            &&& certs is Ok && certs->Ok_0.len() > 0
            &&& key is Ok && key->Ok_0 is Some
            &&& blocks is Ok && anchors_of(tagged(blocks->Ok_0, "CERTIFICATE"@)).len() > 0
        },
        tls_settings(cert_path, certs, key_path, key, blocks, mode) matches Ok(t) ==> {
            &&& t.chain == certs->Ok_0
            &&& t.key == key->Ok_0->Some_0
            &&& t.roots == anchors_of(tagged(blocks->Ok_0, "CERTIFICATE"@))
        },
{
}

/// A listener without client certificates is set up from its own certificates and key.
pub proof fn law_server_files_are_a_chain_and_a_key(
    cert_path: Seq<char>,
    certs: Result<Seq<Seq<u8>>, Seq<char>>,
    key_path: Seq<char>,
    key: Result<Option<Seq<u8>>, Seq<char>>,
)
    ensures
        server_pair(cert_path, certs, key_path, key) is Ok <==> certs is Ok && key is Ok
            && key->Ok_0 is Some,
        server_pair(cert_path, certs, key_path, key) matches Ok(p) ==> p.0 == certs->Ok_0 && p.1
            == key->Ok_0->Some_0,
{
}

} // verus!
