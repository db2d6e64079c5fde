use vstd::prelude::*;
use rand::RngCore;

verus! {

/// A random byte from the operating system, through rand's
/// `OsRng::try_fill_bytes` (which asks `getrandom` and hands back its error
/// rather than panicking), or `None` when the operating system gives none.
/// Every byte can come back, so the contract promises nothing of it, nor of
/// when the call fails.
#[verifier::external_body]
pub(crate) fn random_byte() -> (r: Option<u8>) {
    let mut buf = [0u8; 1];
    match rand::rngs::OsRng.try_fill_bytes(&mut buf) {
        Ok(()) => Some(buf[0]),
        Err(_) => None,
    }
}

} // verus!
