//! Algorithm constants and the error taxonomy.
use vstd::prelude::*;

verus! {

/// Byte length of an ML-KEM-1024 encapsulation (public) key.
pub const PUBLIC_KEY_LEN: usize = 1568;

/// Byte length of an ML-KEM-1024 decapsulation (secret) key.
pub const SECRET_KEY_LEN: usize = 3168;

/// Byte length of an ML-KEM-1024 ciphertext.
pub const KEM_CIPHERTEXT_LEN: usize = 1568;

/// Byte length of the shared secret that ML-KEM agrees on.
pub const SHARED_SECRET_LEN: usize = 32;

/// Byte length of the AES-256 key.
pub const SYMMETRIC_KEY_LEN: usize = 32;

/// Byte length of the AES-GCM nonce (96 bits).
pub const NONCE_LEN: usize = 12;

/// Byte length of the AES-GCM authentication tag.
pub const TAG_LEN: usize = 16;

/// Byte length of each random seed handed to ML-KEM.
pub const SEED_LEN: usize = 32;

/// Largest plaintext that AES-GCM accepts (2^36 bytes).
pub const MAX_PLAINTEXT_LEN: u64 = 68719476736;

/// The two classes of key file.
#[derive(Clone, Copy, Debug, PartialEq, Eq, Structural)]
pub enum KeyKind {
    Public,
    Secret,
}

/// The byte length that a key of the given class must have.
pub open spec fn key_len(kind: KeyKind) -> nat {
    match kind {
        KeyKind::Public => PUBLIC_KEY_LEN as nat,
        KeyKind::Secret => SECRET_KEY_LEN as nat,
    }
}

impl KeyKind {
    /// The fixed byte length of a key of this class.
    pub fn expected_len(self) -> (r: usize)
        ensures
            r == key_len(self),
    {
        match self {
            KeyKind::Public => PUBLIC_KEY_LEN,
            KeyKind::Secret => SECRET_KEY_LEN,
        }
    }
}

/// Every failure the library reports.
#[derive(Clone, Copy, Debug, PartialEq, Eq, Structural)]
pub enum DeadboltError {
    /// A filesystem access failed.
    IoError,
    /// A key does not have the byte length of its class.
    InvalidKeyFormat,
    /// The randomness source could not be read.
    KeyGenerationFailure,
    /// The container bytes do not have the container's structure.
    CorruptedContainer,
    /// The tag did not verify: wrong key or tampered data, deliberately not told apart.
    AuthenticationFailure,
}

/// The human-readable cause category of each error.
pub open spec fn error_message(e: DeadboltError) -> Seq<char> {
    match e {
        DeadboltError::IoError => "filesystem access failed"@,
        DeadboltError::InvalidKeyFormat => "key has the wrong length"@,
        DeadboltError::KeyGenerationFailure => "randomness source unavailable"@,
        DeadboltError::CorruptedContainer => "container is corrupted"@,
        DeadboltError::AuthenticationFailure => "authentication failed: wrong key or tampered data"@,
    }
}

impl DeadboltError {
    /// The cause category as text, with no cryptographic detail.
    pub fn message(&self) -> (r: String)
        ensures
            r@ == error_message(*self),
    {
        match self {
            DeadboltError::IoError => String::from_str("filesystem access failed"),
            DeadboltError::InvalidKeyFormat => String::from_str("key has the wrong length"),
            DeadboltError::KeyGenerationFailure => String::from_str(
                "randomness source unavailable",
            ),
            DeadboltError::CorruptedContainer => String::from_str("container is corrupted"),
            DeadboltError::AuthenticationFailure => String::from_str(
                "authentication failed: wrong key or tampered data",
            ),
        }
    }
}

} // verus!
