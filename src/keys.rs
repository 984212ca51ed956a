//! Key-pair lifecycle: generation, validation of loaded keys, and the plan for
//! saving a pair without losing the one it replaces.
use vstd::prelude::*;
use crate::entropy::random_bytes;
use crate::kem::{mlkem_generate, mlkem_keypair_of};
use crate::params::{key_len, DeadboltError, KeyKind, PUBLIC_KEY_LEN, SECRET_KEY_LEN, SEED_LEN};
use crate::paths::{backup_path, backup_path_of};

verus! {

/// An ML-KEM-1024 key pair, as the raw bytes written to the two key files.
#[derive(Debug)]
pub struct KeyPair {
    pub public_key: Vec<u8>,
    pub secret_key: Vec<u8>,
}

impl KeyPair {
    /// Both keys have their algorithm's fixed lengths.
    pub open spec fn wf(&self) -> bool {
        &&& self.public_key@.len() == PUBLIC_KEY_LEN
        &&& self.secret_key@.len() == SECRET_KEY_LEN
    }

    /// The pair that seeds `d` and `z` determine.
    pub open spec fn from_seeds(&self, d: Seq<u8>, z: Seq<u8>) -> bool {
        (self.public_key@, self.secret_key@) == mlkem_keypair_of(d, z)
    }
}

/// Derives the key pair of the seeds `d` and `z`.
pub fn keypair_from_seed(d: &[u8], z: &[u8]) -> (r: KeyPair)
    requires
        d@.len() == SEED_LEN,
        z@.len() == SEED_LEN,
    ensures
        r.wf(),
        r.from_seeds(d@, z@),
{
    let (public_key, secret_key) = mlkem_generate(d, z);
    KeyPair { public_key, secret_key }
}

/// Generates a fresh key pair from operating-system randomness; fails only when
/// that randomness is unavailable.
pub fn generate_keypair() -> (r: Result<KeyPair, DeadboltError>)
    ensures
        r matches Ok(kp) ==> kp.wf() && exists|d: Seq<u8>, z: Seq<u8>|
            d.len() == SEED_LEN && z.len() == SEED_LEN && #[trigger] kp.from_seeds(d, z),
        r matches Err(e) ==> e == DeadboltError::KeyGenerationFailure,
{
    let d = random_bytes(SEED_LEN)?;
    let z = random_bytes(SEED_LEN)?;
    let kp = keypair_from_seed(d.as_slice(), z.as_slice());
    assert(kp.from_seeds(d@, z@));
    Ok(kp)
}

/// Checks a loaded key against the fixed length of its class.
pub fn validate_key(bytes: Vec<u8>, kind: KeyKind) -> (r: Result<Vec<u8>, DeadboltError>)
    ensures
        r is Ok <==> bytes@.len() == key_len(kind),
        r matches Ok(k) ==> k@ == bytes@,
        r matches Err(e) ==> e == DeadboltError::InvalidKeyFormat,
{
    if bytes.len() == kind.expected_len() {
        Ok(bytes)
    } else {
        Err(DeadboltError::InvalidKeyFormat)
    }
}

/// What saving a key pair over two paths must do.
#[derive(Debug)]
pub struct SavePlan {
    /// Whether the new pair is written at all.
    pub proceed: bool,
    /// Where the existing public key file is moved first, if it is.
    pub public_backup: Option<String>,
    /// Where the existing secret key file is moved first, if it is.
    pub secret_backup: Option<String>,
}

/// Decides how to save a key pair: with no key file in place it proceeds; with
/// one in place it proceeds only when the caller confirmed, and then every
/// existing file is first moved to its backup name.
pub fn plan_save(
    public_path: &str,
    secret_path: &str,
    public_exists: bool,
    secret_exists: bool,
    confirmed: bool,
    timestamp: u64,
) -> (r: SavePlan)
    ensures
        r.proceed == (!(public_exists || secret_exists) || confirmed),
        r.public_backup is Some <==> r.proceed && public_exists,
        r.secret_backup is Some <==> r.proceed && secret_exists,
        r.public_backup matches Some(p) ==> p@ == backup_path_of(public_path@, timestamp as nat),
        r.secret_backup matches Some(p) ==> p@ == backup_path_of(secret_path@, timestamp as nat),
{
    let proceed = !(public_exists || secret_exists) || confirmed;
    let public_backup = if proceed && public_exists {
        Some(backup_path(public_path, timestamp))
    } else {
        None
    };
    let secret_backup = if proceed && secret_exists {
        Some(backup_path(secret_path, timestamp))
    } else {
        None
    };
    SavePlan { proceed, public_backup, secret_backup }
}

} // verus!
