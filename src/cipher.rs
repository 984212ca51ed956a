//! Authenticated symmetric encryption with AES-256-GCM.
//!
//! Key derivation is direct use: the 32-byte ML-KEM shared secret is already a
//! uniformly distributed 256-bit value, so it serves as the AES-256 key as is.
use vstd::prelude::*;
use aes_gcm::{AeadInPlace, Aes256Gcm, KeyInit};
use zeroize::Zeroize;
use crate::params::{DeadboltError, MAX_PLAINTEXT_LEN, NONCE_LEN, SHARED_SECRET_LEN, SYMMETRIC_KEY_LEN, TAG_LEN};

verus! {

/// The (ciphertext, tag) that AES-256-GCM produces.
pub uninterp spec fn gcm_seal_of(key: Seq<u8>, nonce: Seq<u8>, aad: Seq<u8>, msg: Seq<u8>) -> (
    Seq<u8>,
    Seq<u8>,
);

/// What AES-256-GCM decryption returns: the plaintext, or `None` when the tag
/// does not verify.
pub uninterp spec fn gcm_open_of(
    key: Seq<u8>,
    nonce: Seq<u8>,
    aad: Seq<u8>,
    ciphertext: Seq<u8>,
    tag: Seq<u8>,
) -> Option<Seq<u8>>;

/// Relies on aes-gcm's `encrypt_in_place_detached` for `Aes256Gcm`: it fails only
/// when the message or the associated data exceeds 2^36 bytes; otherwise the
/// ciphertext has the message's length, the tag 16 bytes, and decryption with the
/// same key, nonce and associated data returns the message.
#[verifier::external_body]
fn gcm_seal(key: &[u8], nonce: &[u8], aad: &[u8], msg: &[u8]) -> (r: Option<(Vec<u8>, Vec<u8>)>)
    requires
        key@.len() == SYMMETRIC_KEY_LEN,
        nonce@.len() == NONCE_LEN,
    ensures
        r is Some <==> (msg@.len() <= MAX_PLAINTEXT_LEN && aad@.len() <= MAX_PLAINTEXT_LEN),
        r matches Some(ct) ==> {
            &&& (ct.0@, ct.1@) == gcm_seal_of(key@, nonce@, aad@, msg@)
            &&& ct.0@.len() == msg@.len()
            &&& ct.1@.len() == TAG_LEN
            &&& gcm_open_of(key@, nonce@, aad@, ct.0@, ct.1@) == Some(msg@)
        },
{
    let cipher = Aes256Gcm::new(aes_gcm::Key::<Aes256Gcm>::from_slice(key));
    let mut buffer = msg.to_vec();
    match cipher.encrypt_in_place_detached(aes_gcm::Nonce::from_slice(nonce), aad, &mut buffer) {
        Ok(tag) => Some((buffer, tag.to_vec())),
        Err(_) => None,
    }
}

/// Relies on aes-gcm's `decrypt_in_place_detached` for `Aes256Gcm`: the
/// plaintext when the tag verifies, nothing otherwise.
#[verifier::external_body]
fn gcm_open(key: &[u8], nonce: &[u8], aad: &[u8], ciphertext: &[u8], tag: &[u8]) -> (r: Option<
    Vec<u8>,
>)
    requires
        key@.len() == SYMMETRIC_KEY_LEN,
        nonce@.len() == NONCE_LEN,
        tag@.len() == TAG_LEN,
    ensures
        r matches Some(p) ==> gcm_open_of(key@, nonce@, aad@, ciphertext@, tag@) == Some(p@),
        r is None ==> gcm_open_of(key@, nonce@, aad@, ciphertext@, tag@) is None,
{
    let cipher = Aes256Gcm::new(aes_gcm::Key::<Aes256Gcm>::from_slice(key));
    let mut buffer = ciphertext.to_vec();
    let nonce = aes_gcm::Nonce::from_slice(nonce);
    match cipher.decrypt_in_place_detached(nonce, aad, &mut buffer, aes_gcm::Tag::from_slice(tag)) {
        Ok(()) => Some(buffer),
        Err(_) => None,
    }
}

/// The symmetric key for a shared secret: the secret itself.
pub open spec fn derived_key(shared_secret: Seq<u8>) -> Seq<u8> {
    shared_secret
}

/// Derives the AES-256 key from a shared secret, deterministically.
pub fn derive_key(shared_secret: &[u8]) -> (r: Vec<u8>)
    requires
        shared_secret@.len() == SHARED_SECRET_LEN,
    ensures
        r@ == derived_key(shared_secret@),
        r@.len() == SYMMETRIC_KEY_LEN,
{
    let mut r: Vec<u8> = Vec::new();
    let mut i: usize = 0;
    while i < shared_secret.len()
        invariant
            i <= shared_secret@.len(),
            r@ == shared_secret@.subrange(0, i as int),
        decreases shared_secret@.len() - i,
    {
        r.push(shared_secret[i]);
        i = i + 1;
        assert(r@ =~= shared_secret@.subrange(0, i as int));
    }
    assert(r@ =~= shared_secret@);
    r
}

/// Encrypts and authenticates `plaintext`, and authenticates `aad` with it.
pub fn encrypt(key: &[u8], nonce: &[u8], aad: &[u8], plaintext: &[u8]) -> (r: (Vec<u8>, Vec<u8>))
    requires
        key@.len() == SYMMETRIC_KEY_LEN,
        nonce@.len() == NONCE_LEN,
        plaintext@.len() <= MAX_PLAINTEXT_LEN,
        aad@.len() <= MAX_PLAINTEXT_LEN,
    ensures
        (r.0@, r.1@) == gcm_seal_of(key@, nonce@, aad@, plaintext@),
        r.0@.len() == plaintext@.len(),
        r.1@.len() == TAG_LEN,
        gcm_open_of(key@, nonce@, aad@, r.0@, r.1@) == Some(plaintext@),
{
    match gcm_seal(key, nonce, aad, plaintext) {
        Some(sealed) => sealed,
        None => {
            assert(false);
            (Vec::new(), Vec::new())
        },
    }
}

/// The result of decrypting: the plaintext, or `AuthenticationFailure` whatever
/// the cause.
pub open spec fn decryption(
    key: Seq<u8>,
    nonce: Seq<u8>,
    aad: Seq<u8>,
    ciphertext: Seq<u8>,
    tag: Seq<u8>,
) -> Result<Seq<u8>, DeadboltError> {
    match gcm_open_of(key, nonce, aad, ciphertext, tag) {
        Some(p) => Ok(p),
        None => Err(DeadboltError::AuthenticationFailure),
    }
}

/// Verifies the tag and decrypts.
pub fn decrypt(key: &[u8], nonce: &[u8], aad: &[u8], ciphertext: &[u8], tag: &[u8]) -> (r: Result<
    Vec<u8>,
    DeadboltError,
>)
    requires
        key@.len() == SYMMETRIC_KEY_LEN,
        nonce@.len() == NONCE_LEN,
        tag@.len() == TAG_LEN,
    ensures
        match r {
            Ok(p) => decryption(key@, nonce@, aad@, ciphertext@, tag@) == Ok::<Seq<u8>, DeadboltError>(p@),
            Err(e) => decryption(key@, nonce@, aad@, ciphertext@, tag@) == Err::<Seq<u8>, DeadboltError>(e),
        },
{
    match gcm_open(key, nonce, aad, ciphertext, tag) {
        Some(p) => Ok(p),
        None => Err(DeadboltError::AuthenticationFailure),
    }
}

/// Relies on zeroize's `Zeroize` for `[u8]`: every byte is set to zero with
/// volatile writes, which the compiler does not remove; the length is kept.
#[verifier::external_body]
fn zeroize_bytes(secret: &mut Vec<u8>)
    ensures
        final(secret)@ == Seq::new(old(secret)@.len(), |i: int| 0u8),
{
    secret.as_mut_slice().zeroize();
}

/// Overwrites every byte with zero, keeping the length.
pub fn wipe(secret: &mut Vec<u8>)
    ensures
        final(secret)@.len() == old(secret)@.len(),
        forall|i: int| 0 <= i < final(secret)@.len() ==> final(secret)@[i] == 0,
{
    zeroize_bytes(secret);
}

} // verus!
