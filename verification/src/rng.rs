use vstd::prelude::*;
use rand_core::OsRng;
use rand_core::RngCore;

verus! {

/// Relies on rand_core::RngCore::fill_bytes on rand_core::OsRng: fills a
/// buffer with bytes from the operating system's randomness source.  The
/// values depend on that source, so nothing is promised of them; only the
/// length is stated.
#[verifier::external_body]
pub fn random_bytes(len: usize) -> (r: Vec<u8>)
    ensures
        r@.len() == len,
{
    let mut buf = vec![0u8; len];
    OsRng.fill_bytes(&mut buf);
    buf
}

} // verus!
