use deadbolt::container::{Container, FIXED_OVERHEAD, HEADER_LEN, PAYLOAD_OFFSET};
use deadbolt::params::{DeadboltError, KEM_CIPHERTEXT_LEN, NONCE_LEN, TAG_LEN};

fn sample(payload: &[u8]) -> Container {
    Container {
        kem_ciphertext: (0..KEM_CIPHERTEXT_LEN).map(|i| (i % 251) as u8).collect(),
        nonce: vec![7u8; NONCE_LEN],
        payload: payload.to_vec(),
        tag: vec![0xAAu8; TAG_LEN],
    }
}

#[test]
fn encode_layout_is_header_then_fields() {
    let c = sample(b"hello world");
    let b = c.encode();
    assert_eq!(b.len(), FIXED_OVERHEAD + 11);
    assert_eq!(&b[0..4], b"DBLT");
    assert_eq!(b[4], 1);
    assert_eq!(&b[5..13], &(KEM_CIPHERTEXT_LEN as u64).to_le_bytes());
    assert_eq!(&b[13..21], &(NONCE_LEN as u64).to_le_bytes());
    assert_eq!(&b[21..29], &11u64.to_le_bytes());
    assert_eq!(&b[29..37], &(TAG_LEN as u64).to_le_bytes());
    assert_eq!(&b[HEADER_LEN..HEADER_LEN + KEM_CIPHERTEXT_LEN], &c.kem_ciphertext[..]);
    assert_eq!(&b[PAYLOAD_OFFSET - NONCE_LEN..PAYLOAD_OFFSET], &c.nonce[..]);
    assert_eq!(&b[PAYLOAD_OFFSET..PAYLOAD_OFFSET + 11], b"hello world");
    assert_eq!(&b[b.len() - TAG_LEN..], &c.tag[..]);
}

#[test]
fn decode_inverts_encode() {
    for payload in [&b""[..], &b"x"[..], &[0u8; 1000][..]] {
        let c = sample(payload);
        let d = Container::decode(&c.encode()).unwrap();
        assert_eq!(d.kem_ciphertext, c.kem_ciphertext);
        assert_eq!(d.nonce, c.nonce);
        assert_eq!(d.payload, c.payload);
        assert_eq!(d.tag, c.tag);
    }
}

#[test]
fn decode_rejects_short_input() {
    assert_eq!(Container::decode(&[]).unwrap_err(), DeadboltError::CorruptedContainer);
    let b = sample(b"abc").encode();
    assert_eq!(Container::decode(&b[..HEADER_LEN - 1]).unwrap_err(), DeadboltError::CorruptedContainer);
    assert_eq!(Container::decode(&b[..HEADER_LEN]).unwrap_err(), DeadboltError::CorruptedContainer);
}

#[test]
fn decode_rejects_length_mismatch() {
    let b = sample(b"abc").encode();
    assert_eq!(Container::decode(&b[..b.len() - 1]).unwrap_err(), DeadboltError::CorruptedContainer);
    let mut longer = b.clone();
    longer.push(0);
    assert_eq!(Container::decode(&longer).unwrap_err(), DeadboltError::CorruptedContainer);
}

#[test]
fn decode_rejects_unknown_magic_or_version() {
    let mut b = sample(b"abc").encode();
    b[0] = b'X';
    assert_eq!(Container::decode(&b).unwrap_err(), DeadboltError::CorruptedContainer);
    let mut b = sample(b"abc").encode();
    b[4] = 2;
    assert_eq!(Container::decode(&b).unwrap_err(), DeadboltError::CorruptedContainer);
}

#[test]
fn decode_rejects_wrong_declared_field_length() {
    let mut b = sample(b"abc").encode();
    b[13] = 13;
    assert_eq!(Container::decode(&b).unwrap_err(), DeadboltError::CorruptedContainer);
}

#[test]
fn every_header_bit_flip_is_detected() {
    let b = sample(b"payload").encode();
    for i in 0..HEADER_LEN {
        for k in 0..8 {
            let mut t = b.clone();
            t[i] ^= 1 << k;
            assert_eq!(Container::decode(&t).unwrap_err(), DeadboltError::CorruptedContainer);
        }
    }
}
