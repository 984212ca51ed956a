//! Fresh randomness from the operating system.
use vstd::prelude::*;
use rand_core::RngCore;
use crate::params::DeadboltError;

verus! {

/// Relies on rand_core's `OsRng::try_fill_bytes`: fills the buffer from the
/// operating system's generator, or reports that it could not.
#[verifier::external_body]
fn os_random(n: usize) -> (r: Option<Vec<u8>>)
    ensures
        r matches Some(v) ==> v@.len() == n,
{
    let mut buf = vec![0u8; n];
    match rand_core::OsRng.try_fill_bytes(&mut buf) {
        Ok(()) => Some(buf),
        Err(_) => None,
    }
}

/// `n` fresh random bytes; an unavailable randomness source is `KeyGenerationFailure`.
pub fn random_bytes(n: usize) -> (r: Result<Vec<u8>, DeadboltError>)
    ensures
        r matches Ok(v) ==> v@.len() == n,
        r matches Err(e) ==> e == DeadboltError::KeyGenerationFailure,
{
    match os_random(n) {
        Some(v) => Ok(v),
        None => Err(DeadboltError::KeyGenerationFailure),
    }
}

} // verus!
