//! Key encapsulation with ML-KEM-1024.
//!
//! Decapsulation never fails: with a mismatched key or ciphertext ML-KEM returns
//! an unrelated pseudorandom secret (implicit rejection), and the mismatch is
//! caught later by the tag check of the symmetric layer.
use vstd::prelude::*;
use ml_kem::kem::{Decapsulate, DecapsulationKey, EncapsulationKey};
use ml_kem::{EncapsulateDeterministic, EncodedSizeUser, KemCore, MlKem1024, MlKem1024Params};
use crate::params::{KEM_CIPHERTEXT_LEN, PUBLIC_KEY_LEN, SECRET_KEY_LEN, SEED_LEN, SHARED_SECRET_LEN};

verus! {

/// The (public, secret) key pair that ML-KEM-1024 derives from seeds `d` and `z`.
pub uninterp spec fn mlkem_keypair_of(d: Seq<u8>, z: Seq<u8>) -> (Seq<u8>, Seq<u8>);

/// The (ciphertext, shared secret) that ML-KEM-1024 encapsulation produces for a
/// public key and message seed `m`.
pub uninterp spec fn mlkem_encapsulate_of(public_key: Seq<u8>, m: Seq<u8>) -> (Seq<u8>, Seq<u8>);

/// The shared secret that ML-KEM-1024 decapsulation recovers from a ciphertext.
pub uninterp spec fn mlkem_decapsulate_of(secret_key: Seq<u8>, ciphertext: Seq<u8>) -> Seq<u8>;

/// Relies on ml-kem's `MlKem1024::generate_deterministic`: the encoded key pair
/// for the seeds, of the fixed ML-KEM-1024 lengths.
#[verifier::external_body]
pub(crate) fn mlkem_generate(d: &[u8], z: &[u8]) -> (r: (Vec<u8>, Vec<u8>))
    requires
        d@.len() == SEED_LEN,
        z@.len() == SEED_LEN,
    ensures
        (r.0@, r.1@) == mlkem_keypair_of(d@, z@),
        r.0@.len() == PUBLIC_KEY_LEN,
        r.1@.len() == SECRET_KEY_LEN,
{
    let d = ml_kem::B32::try_from(d).unwrap();
    let z = ml_kem::B32::try_from(z).unwrap();
    let (dk, ek) = MlKem1024::generate_deterministic(&d, &z);
    (ek.as_bytes().to_vec(), dk.as_bytes().to_vec())
}

/// Relies on ml-kem's `EncapsulationKey::encapsulate_deterministic` (infallible in
/// its source): ciphertext and shared secret for the key and message seed.
#[verifier::external_body]
pub(crate) fn mlkem_encapsulate(public_key: &[u8], m: &[u8]) -> (r: (Vec<u8>, Vec<u8>))
    requires
        public_key@.len() == PUBLIC_KEY_LEN,
        m@.len() == SEED_LEN,
    ensures
        (r.0@, r.1@) == mlkem_encapsulate_of(public_key@, m@),
        r.0@.len() == KEM_CIPHERTEXT_LEN,
        r.1@.len() == SHARED_SECRET_LEN,
{
    let ek = EncapsulationKey::<MlKem1024Params>::from_bytes(&public_key.try_into().unwrap());
    let m = ml_kem::B32::try_from(m).unwrap();
    let (ct, ss) = ek.encapsulate_deterministic(&m).unwrap();
    (ct.to_vec(), ss.to_vec())
}

/// Relies on ml-kem's `DecapsulationKey::decapsulate` (infallible in its source):
/// the shared secret recovered from the ciphertext.
#[verifier::external_body]
pub(crate) fn mlkem_decapsulate(secret_key: &[u8], ciphertext: &[u8]) -> (r: Vec<u8>)
    requires
        secret_key@.len() == SECRET_KEY_LEN,
        ciphertext@.len() == KEM_CIPHERTEXT_LEN,
    ensures
        r@ == mlkem_decapsulate_of(secret_key@, ciphertext@),
        r@.len() == SHARED_SECRET_LEN,
{
    let dk = DecapsulationKey::<MlKem1024Params>::from_bytes(&secret_key.try_into().unwrap());
    let ss = dk.decapsulate(&ciphertext.try_into().unwrap()).unwrap();
    ss.to_vec()
}

/// Encapsulates against a public key with message seed `m`.
pub fn encapsulate(public_key: &[u8], m: &[u8]) -> (r: (Vec<u8>, Vec<u8>))
    requires
        public_key@.len() == PUBLIC_KEY_LEN,
        m@.len() == SEED_LEN,
    ensures
        (r.0@, r.1@) == mlkem_encapsulate_of(public_key@, m@),
        r.0@.len() == KEM_CIPHERTEXT_LEN,
        r.1@.len() == SHARED_SECRET_LEN,
{
    mlkem_encapsulate(public_key, m)
}

/// Recovers the shared secret from a ciphertext; never reports a key mismatch.
pub fn decapsulate(secret_key: &[u8], ciphertext: &[u8]) -> (r: Vec<u8>)
    requires
        secret_key@.len() == SECRET_KEY_LEN,
        ciphertext@.len() == KEM_CIPHERTEXT_LEN,
    ensures
        r@ == mlkem_decapsulate_of(secret_key@, ciphertext@),
        r@.len() == SHARED_SECRET_LEN,
{
    mlkem_decapsulate(secret_key, ciphertext)
}

} // verus!
