//! The admin listener over HTTPS.
use vstd::prelude::*;

use crate::text::{cat, cat4};

verus! {

/// How many seconds open connections may go on once the listener was told to stop.
pub const HTTPS_GRACEFUL_DRAIN_SECS: u64 = 5;

/// The message for a certificate and key that cannot be used; it names both files.
pub open spec fn tls_load_message(cert: Seq<char>, key: Seq<char>, e: Seq<char>) -> Seq<char> {
    "TLS PEM load failed (cert="@ + cert + ", key="@ + key + "): "@ + e
}

/// The message for a certificate and key that cannot be used.
pub fn tls_load_error(cert_path: &str, key_path: &str, e: &str) -> (r: String)
    ensures
        r@ == tls_load_message(cert_path@, key_path@, e@),
{
    let files = cat4("TLS PEM load failed (cert=", cert_path, ", key=", key_path);
    cat(cat(files.as_str(), "): ").as_str(), e)
}

/// The message ends in what is wrong, behind the names of the two files.
pub proof fn law_message_ends_in_the_cause(cert: Seq<char>, key: Seq<char>, e: Seq<char>)
    ensures
        crate::text::ends_in(tls_load_message(cert, key, e), cert + ", key="@ + key + "): "@ + e),
{
    broadcast use crate::text::lemma_ends_in;

    let rest = cert + ", key="@ + key + "): "@ + e;
    assert(tls_load_message(cert, key, e) =~= "TLS PEM load failed (cert="@ + rest);
}

} // verus!
