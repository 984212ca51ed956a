//! Hybrid post-quantum file encryption: ML-KEM-1024 establishes a shared secret,
//! AES-256-GCM protects the payload, and a fixed binary container carries both.
use vstd::prelude::*;

pub mod params;
pub mod bytes;
pub mod container;
pub mod entropy;
pub mod kem;
pub mod cipher;
pub mod keys;
pub mod paths;
pub mod vault;
