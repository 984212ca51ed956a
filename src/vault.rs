//! End-to-end locking and unlocking of a file's bytes.
//!
//! Locking encapsulates against the recipient's public key, uses the shared
//! secret as the AES-256 key, and encrypts the plaintext with everything that
//! precedes the payload in the container as associated data. Unlocking reverses
//! each step; a wrong key and tampered data both end in `AuthenticationFailure`.
//! Shared secrets and keys are overwritten with zeros as soon as they are used.
use vstd::prelude::*;
use crate::bytes::{copy_range, extend_range};
use crate::cipher::{decrypt, decryption, derive_key, derived_key, encrypt, gcm_open_of, gcm_seal_of, wipe};
use crate::container::{
    associated_data, encode_prefix, encoding, fields_of, flip_bit, header, is_container,
    lemma_decode_encode, lemma_header_bit_flip_detected, Container, HEADER_LEN, PAYLOAD_OFFSET,
};
use crate::entropy::random_bytes;
use crate::kem::{decapsulate, encapsulate, mlkem_decapsulate_of, mlkem_encapsulate_of};
use crate::params::{
    DeadboltError, KEM_CIPHERTEXT_LEN, MAX_PLAINTEXT_LEN, NONCE_LEN, PUBLIC_KEY_LEN, SECRET_KEY_LEN,
    SEED_LEN, SHARED_SECRET_LEN, TAG_LEN,
};

verus! {

/// `c` is the container that locking `plaintext` for `public_key` produces with
/// encapsulation seed `m` and nonce `nonce`, together with what the primitives
/// guarantee of the values involved.
pub open spec fn locked_with(
    public_key: Seq<u8>,
    m: Seq<u8>,
    nonce: Seq<u8>,
    plaintext: Seq<u8>,
    c: Seq<u8>,
) -> bool {
    let (kem_ct, shared) = mlkem_encapsulate_of(public_key, m);
    let key = derived_key(shared);
    let aad = header(plaintext.len() as u64) + kem_ct + nonce;
    let (ct, tag) = gcm_seal_of(key, nonce, aad, plaintext);
    &&& plaintext.len() <= MAX_PLAINTEXT_LEN
    &&& kem_ct.len() == KEM_CIPHERTEXT_LEN
    &&& shared.len() == SHARED_SECRET_LEN
    &&& nonce.len() == NONCE_LEN
    &&& ct.len() == plaintext.len()
    &&& tag.len() == TAG_LEN
    &&& gcm_open_of(key, nonce, aad, ct, tag) == Some(plaintext)
    &&& c == encoding(kem_ct, nonce, ct, tag)
}

/// What unlocking container bytes `c` with `secret_key` gives.
pub open spec fn unlocked(secret_key: Seq<u8>, c: Seq<u8>) -> Result<Seq<u8>, DeadboltError> {
    if secret_key.len() != SECRET_KEY_LEN {
        Err(DeadboltError::InvalidKeyFormat)
    } else if !is_container(c) {
        Err(DeadboltError::CorruptedContainer)
    } else {
        let (kem_ct, nonce, payload, tag) = fields_of(c);
        let key = derived_key(mlkem_decapsulate_of(secret_key, kem_ct));
        decryption(key, nonce, associated_data(c), payload, tag)
    }
}

/// Locks `plaintext` for `public_key` with the given encapsulation seed and
/// nonce; a public key of the wrong length is `InvalidKeyFormat`.
pub fn seal_with(plaintext: &[u8], public_key: &[u8], m: &[u8], nonce: &[u8]) -> (r: Result<
    Vec<u8>,
    DeadboltError,
>)
    requires
        plaintext@.len() <= MAX_PLAINTEXT_LEN,
        m@.len() == SEED_LEN,
        nonce@.len() == NONCE_LEN,
    ensures
        r is Ok <==> public_key@.len() == PUBLIC_KEY_LEN,
        r matches Ok(c) ==> locked_with(public_key@, m@, nonce@, plaintext@, c@),
        r matches Err(e) ==> e == DeadboltError::InvalidKeyFormat,
{
    if public_key.len() != PUBLIC_KEY_LEN {
        return Err(DeadboltError::InvalidKeyFormat);
    }
    let (kem_ct, mut shared) = encapsulate(public_key, m);
    let mut key = derive_key(shared.as_slice());
    wipe(&mut shared);
    let mut out = encode_prefix(kem_ct.as_slice(), nonce, plaintext.len());
    let (ct, tag) = encrypt(key.as_slice(), nonce, out.as_slice(), plaintext);
    wipe(&mut key);
    extend_range(&mut out, ct.as_slice(), 0, ct.len());
    extend_range(&mut out, tag.as_slice(), 0, tag.len());
    assert(ct@.subrange(0, ct@.len() as int) =~= ct@);
    assert(tag@.subrange(0, tag@.len() as int) =~= tag@);
    assert(out@ =~= encoding(kem_ct@, nonce@, ct@, tag@));
    Ok(out)
}

/// Locks `plaintext` for `public_key` with a fresh encapsulation seed and nonce.
/// A public key of the wrong length is `InvalidKeyFormat`; unavailable
/// randomness is `KeyGenerationFailure`.
pub fn lock_bytes(plaintext: &[u8], public_key: &[u8]) -> (r: Result<Vec<u8>, DeadboltError>)
    requires
        plaintext@.len() <= MAX_PLAINTEXT_LEN,
    ensures
        public_key@.len() != PUBLIC_KEY_LEN ==> r == Err::<Vec<u8>, DeadboltError>(
            DeadboltError::InvalidKeyFormat,
        ),
        r matches Ok(c) ==> exists|m: Seq<u8>, nonce: Seq<u8>|
            m.len() == SEED_LEN && #[trigger] locked_with(public_key@, m, nonce, plaintext@, c@),
        r matches Err(e) ==> e == DeadboltError::InvalidKeyFormat || e
            == DeadboltError::KeyGenerationFailure,
        r matches Err(e) ==> (e == DeadboltError::InvalidKeyFormat <==> public_key@.len()
            != PUBLIC_KEY_LEN),
{
    if public_key.len() != PUBLIC_KEY_LEN {
        return Err(DeadboltError::InvalidKeyFormat);
    }
    let m = random_bytes(SEED_LEN)?;
    let nonce = random_bytes(NONCE_LEN)?;
    let r = seal_with(plaintext, public_key, m.as_slice(), nonce.as_slice());
    if let Ok(c) = &r {
        assert(locked_with(public_key@, m@, nonce@, plaintext@, c@));
    }
    r
}

/// Unlocks container bytes with `secret_key`: `InvalidKeyFormat` for a key of
/// the wrong length, `CorruptedContainer` for bytes without the container's
/// structure, `AuthenticationFailure` when the tag does not verify.
pub fn unlock_bytes(container: &[u8], secret_key: &[u8]) -> (r: Result<Vec<u8>, DeadboltError>)
    ensures
        match r {
            Ok(p) => unlocked(secret_key@, container@) == Ok::<Seq<u8>, DeadboltError>(p@),
            Err(e) => unlocked(secret_key@, container@) == Err::<Seq<u8>, DeadboltError>(e),
        },
{
    if secret_key.len() != SECRET_KEY_LEN {
        return Err(DeadboltError::InvalidKeyFormat);
    }
    let c = Container::decode(container)?;
    let mut shared = decapsulate(secret_key, c.kem_ciphertext.as_slice());
    let mut key = derive_key(shared.as_slice());
    wipe(&mut shared);
    let aad = copy_range(container, 0, PAYLOAD_OFFSET);
    let r = decrypt(
        key.as_slice(),
        c.nonce.as_slice(),
        aad.as_slice(),
        c.payload.as_slice(),
        c.tag.as_slice(),
    );
    wipe(&mut key);
    r
}

/// Unlocking, with a secret key, a container that locking produced for its
/// public key gives back exactly the plaintext, whenever ML-KEM decapsulation
/// with that secret key recovers the encapsulated secret.
pub proof fn lemma_round_trip(
    public_key: Seq<u8>,
    secret_key: Seq<u8>,
    m: Seq<u8>,
    nonce: Seq<u8>,
    plaintext: Seq<u8>,
    c: Seq<u8>,
)
    requires
        locked_with(public_key, m, nonce, plaintext, c),
        secret_key.len() == SECRET_KEY_LEN,
        mlkem_decapsulate_of(secret_key, mlkem_encapsulate_of(public_key, m).0)
            == mlkem_encapsulate_of(public_key, m).1,
    ensures
        unlocked(secret_key, c) == Ok::<Seq<u8>, DeadboltError>(plaintext),
{
    let (kem_ct, shared) = mlkem_encapsulate_of(public_key, m);
    let key = derived_key(shared);
    let aad = header(plaintext.len() as u64) + kem_ct + nonce;
    let (ct, tag) = gcm_seal_of(key, nonce, aad, plaintext);
    lemma_decode_encode(kem_ct, nonce, ct, tag);
    assert(associated_data(c) =~= aad);
}

/// Inverting any single bit in the header of a container makes unlocking it
/// fail with `CorruptedContainer`, whatever the (well-sized) secret key.
pub proof fn lemma_header_tamper_rejected(secret_key: Seq<u8>, c: Seq<u8>, i: int, k: u8)
    requires
        secret_key.len() == SECRET_KEY_LEN,
        is_container(c),
        0 <= i < HEADER_LEN,
        k < 8,
    ensures
        unlocked(secret_key, flip_bit(c, i, k)) == Err::<Seq<u8>, DeadboltError>(
            DeadboltError::CorruptedContainer,
        ),
{
    lemma_header_bit_flip_detected(c, i, k);
}

} // verus!
