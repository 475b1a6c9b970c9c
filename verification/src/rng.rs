//! Random bytes.

use rand::RngCore;
use vstd::prelude::*;

verus! {

/// `rand::RngCore::fill_bytes` on the thread's generator overwrites every
/// byte of the buffer; the values are chance, so only the length is stated.
#[verifier::external_body]
pub(crate) fn fill_random(buf: &mut Vec<u8>)
    ensures
        final(buf)@.len() == old(buf)@.len(),
{
    rand::thread_rng().fill_bytes(buf.as_mut_slice());
}

/// `n` random bytes.
pub fn random_bytes(n: usize) -> (res: Vec<u8>)
    ensures
        res@.len() == n,
{
    let mut buf: Vec<u8> = vec![0u8; n];
    fill_random(&mut buf);
    buf
}

} // verus!
