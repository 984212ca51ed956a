use deadbolt::cipher::{decrypt, derive_key, encrypt, wipe};
use deadbolt::container::{Container, FIXED_OVERHEAD, HEADER_LEN, PAYLOAD_OFFSET};
use deadbolt::kem::{decapsulate, encapsulate};
use deadbolt::keys::{generate_keypair, keypair_from_seed, validate_key, KeyPair};
use deadbolt::params::{
    DeadboltError, KeyKind, KEM_CIPHERTEXT_LEN, NONCE_LEN, PUBLIC_KEY_LEN, SECRET_KEY_LEN,
    SHARED_SECRET_LEN, TAG_LEN,
};
use deadbolt::vault::{lock_bytes, seal_with, unlock_bytes};

fn pair() -> KeyPair {
    generate_keypair().unwrap()
}

#[test]
fn generated_keys_have_fixed_lengths() {
    for _ in 0..3 {
        let kp = pair();
        assert_eq!(kp.public_key.len(), PUBLIC_KEY_LEN);
        assert_eq!(kp.secret_key.len(), SECRET_KEY_LEN);
        assert_eq!(PUBLIC_KEY_LEN, 1568);
        assert_eq!(SECRET_KEY_LEN, 3168);
    }
}

#[test]
fn successive_keypairs_differ() {
    let a = pair();
    let b = pair();
    assert_ne!(a.public_key, b.public_key);
    assert_ne!(a.secret_key, b.secret_key);
}

#[test]
fn keypair_from_seed_is_deterministic() {
    let a = keypair_from_seed(&[1u8; 32], &[2u8; 32]);
    let b = keypair_from_seed(&[1u8; 32], &[2u8; 32]);
    let c = keypair_from_seed(&[1u8; 32], &[3u8; 32]);
    assert_eq!(a.public_key, b.public_key);
    assert_eq!(a.secret_key, b.secret_key);
    assert_ne!(a.secret_key, c.secret_key);
}

#[test]
fn validate_key_checks_length_per_kind() {
    assert_eq!(validate_key(vec![0u8; 1568], KeyKind::Public).unwrap().len(), 1568);
    assert_eq!(validate_key(vec![0u8; 3168], KeyKind::Secret).unwrap().len(), 3168);
    assert_eq!(validate_key(vec![0u8; 3168], KeyKind::Public).unwrap_err(), DeadboltError::InvalidKeyFormat);
    assert_eq!(validate_key(vec![0u8; 1568], KeyKind::Secret).unwrap_err(), DeadboltError::InvalidKeyFormat);
    assert_eq!(validate_key(Vec::new(), KeyKind::Public).unwrap_err(), DeadboltError::InvalidKeyFormat);
}

#[test]
fn kem_agrees_on_shared_secret() {
    let kp = keypair_from_seed(&[9u8; 32], &[8u8; 32]);
    let (ct, ss) = encapsulate(&kp.public_key, &[5u8; 32]);
    assert_eq!(ct.len(), KEM_CIPHERTEXT_LEN);
    assert_eq!(ss.len(), SHARED_SECRET_LEN);
    assert_eq!(decapsulate(&kp.secret_key, &ct), ss);
    let other = keypair_from_seed(&[1u8; 32], &[1u8; 32]);
    let wrong = decapsulate(&other.secret_key, &ct);
    assert_eq!(wrong.len(), SHARED_SECRET_LEN);
    assert_ne!(wrong, ss);
}

#[test]
fn symmetric_encrypt_then_decrypt() {
    let key = derive_key(&[3u8; 32]);
    assert_eq!(key, vec![3u8; 32]);
    let nonce = [4u8; 12];
    let (ct, tag) = encrypt(&key, &nonce, b"aad", b"secret message");
    assert_eq!(ct.len(), 14);
    assert_eq!(tag.len(), TAG_LEN);
    assert_ne!(&ct[..], b"secret message");
    assert_eq!(decrypt(&key, &nonce, b"aad", &ct, &tag).unwrap(), b"secret message");
    assert_eq!(decrypt(&key, &nonce, b"aaD", &ct, &tag).unwrap_err(), DeadboltError::AuthenticationFailure);
    let mut bad = tag.clone();
    bad[0] ^= 1;
    assert_eq!(decrypt(&key, &nonce, b"aad", &ct, &bad).unwrap_err(), DeadboltError::AuthenticationFailure);
}

#[test]
fn wipe_zeroes_secret() {
    let mut s = vec![0xFFu8; 32];
    wipe(&mut s);
    assert_eq!(s, vec![0u8; 32]);
}

#[test]
fn round_trip_recovers_plaintext() {
    let kp = pair();
    for pt in [&b""[..], &b"a"[..], &b"hello world"[..], &[0x5Au8; 70000][..]] {
        let c = lock_bytes(pt, &kp.public_key).unwrap();
        assert_eq!(unlock_bytes(&c, &kp.secret_key).unwrap(), pt);
    }
}

#[test]
fn wrong_key_is_authentication_failure() {
    let a = pair();
    let b = pair();
    let c = lock_bytes(b"for a only", &a.public_key).unwrap();
    assert_eq!(unlock_bytes(&c, &b.secret_key).unwrap_err(), DeadboltError::AuthenticationFailure);
}

#[test]
fn tampered_fields_are_rejected() {
    let kp = pair();
    let c = lock_bytes(b"tamper target", &kp.public_key).unwrap();
    let spots = [
        HEADER_LEN,
        HEADER_LEN + KEM_CIPHERTEXT_LEN - 1,
        PAYLOAD_OFFSET - NONCE_LEN,
        PAYLOAD_OFFSET - 1,
        PAYLOAD_OFFSET,
        PAYLOAD_OFFSET + 12,
        c.len() - TAG_LEN,
        c.len() - 1,
    ];
    for &i in spots.iter() {
        for k in [0u8, 7u8] {
            let mut t = c.clone();
            t[i] ^= 1 << k;
            let e = unlock_bytes(&t, &kp.secret_key).unwrap_err();
            assert!(e == DeadboltError::AuthenticationFailure || e == DeadboltError::CorruptedContainer);
        }
    }
}

#[test]
fn tampered_header_is_corrupted_container() {
    let kp = pair();
    let c = lock_bytes(b"header", &kp.public_key).unwrap();
    for i in 0..HEADER_LEN {
        let mut t = c.clone();
        t[i] ^= 0x10;
        assert_eq!(unlock_bytes(&t, &kp.secret_key).unwrap_err(), DeadboltError::CorruptedContainer);
    }
}

#[test]
fn successive_locks_differ() {
    let kp = pair();
    let a = lock_bytes(b"same plaintext", &kp.public_key).unwrap();
    let b = lock_bytes(b"same plaintext", &kp.public_key).unwrap();
    assert_ne!(a, b);
    let ca = Container::decode(&a).unwrap();
    let cb = Container::decode(&b).unwrap();
    assert_ne!(ca.nonce, cb.nonce);
    assert_ne!(ca.payload, cb.payload);
    assert_ne!(ca.kem_ciphertext, cb.kem_ciphertext);
}

#[test]
fn eleven_byte_scenario() {
    let kp = pair();
    assert_eq!(kp.public_key.len(), 1568);
    assert_eq!(kp.secret_key.len(), 3168);
    let pt = b"hello world";
    assert_eq!(pt.len(), 11);
    let c = lock_bytes(pt, &kp.public_key).unwrap();
    assert_eq!(c.len(), HEADER_LEN + KEM_CIPHERTEXT_LEN + NONCE_LEN + 11 + TAG_LEN);
    assert_eq!(c.len(), FIXED_OVERHEAD + 11);
    let declared: u64 = (0..4)
        .map(|f| u64::from_le_bytes(c[5 + 8 * f..13 + 8 * f].try_into().unwrap()))
        .sum();
    assert_eq!(declared as usize + HEADER_LEN, c.len());
    assert_eq!(unlock_bytes(&c, &kp.secret_key).unwrap(), pt);
}

#[test]
fn seal_with_is_deterministic_in_its_randomness() {
    let kp = keypair_from_seed(&[1u8; 32], &[2u8; 32]);
    let a = seal_with(b"data", &kp.public_key, &[3u8; 32], &[4u8; 12]).unwrap();
    let b = seal_with(b"data", &kp.public_key, &[3u8; 32], &[4u8; 12]).unwrap();
    assert_eq!(a, b);
    assert_eq!(&a[PAYLOAD_OFFSET - NONCE_LEN..PAYLOAD_OFFSET], &[4u8; 12]);
    assert_ne!(&a[PAYLOAD_OFFSET..PAYLOAD_OFFSET + 4], b"data");
    assert_eq!(unlock_bytes(&a, &kp.secret_key).unwrap(), b"data");
}

#[test]
fn invalid_key_lengths_are_rejected() {
    assert_eq!(lock_bytes(b"x", &[0u8; 10]).unwrap_err(), DeadboltError::InvalidKeyFormat);
    assert_eq!(seal_with(b"x", &[0u8; 3168], &[0u8; 32], &[0u8; 12]).unwrap_err(), DeadboltError::InvalidKeyFormat);
    let kp = pair();
    let c = lock_bytes(b"x", &kp.public_key).unwrap();
    assert_eq!(unlock_bytes(&c, &kp.public_key).unwrap_err(), DeadboltError::InvalidKeyFormat);
}

#[test]
fn garbage_container_is_corrupted() {
    let kp = pair();
    assert_eq!(unlock_bytes(b"not a container", &kp.secret_key).unwrap_err(), DeadboltError::CorruptedContainer);
}

#[test]
fn error_messages_are_generic() {
    assert_eq!(DeadboltError::AuthenticationFailure.message(), "authentication failed: wrong key or tampered data");
    assert_eq!(DeadboltError::CorruptedContainer.message(), "container is corrupted");
    assert_eq!(DeadboltError::InvalidKeyFormat.message(), "key has the wrong length");
    assert_eq!(DeadboltError::KeyGenerationFailure.message(), "randomness source unavailable");
    assert_eq!(DeadboltError::IoError.message(), "filesystem access failed");
    assert_eq!(KeyKind::Public.expected_len(), 1568);
    assert_eq!(KeyKind::Secret.expected_len(), 3168);
}
