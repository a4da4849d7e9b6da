//! Random bytes from the operating system.
use vstd::prelude::*;

verus! {

/// `getrandom::fill` fills a buffer with random bytes from the operating system,
/// or fails. Nothing is promised of the bytes.
#[verifier::external_body]
fn fill(buffer: &mut Vec<u8>) -> (r: Result<(), String>)
    ensures
        final(buffer)@.len() == old(buffer)@.len(),
{
    getrandom::fill(buffer.as_mut_slice()).map_err(|e| e.to_string())
}

/// The given number of random bytes.
pub(crate) fn random_bytes(n: usize) -> (r: Result<Vec<u8>, String>)
    ensures
        r matches Ok(b) ==> b@.len() == n,
{
    let mut buffer: Vec<u8> = Vec::new();
    buffer.resize(n, 0);
    match fill(&mut buffer) {
        Ok(()) => Ok(buffer),
        Err(e) => Err(e),
    }
}

} // verus!
