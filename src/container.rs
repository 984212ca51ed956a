//! The container format.
//!
//! Layout, all integers little-endian:
//! magic `DBLT` (4 bytes), format version (1 byte), then four 64-bit length
//! declarations (KEM ciphertext, nonce, payload, tag), then the KEM ciphertext,
//! the nonce, the payload and the tag.
use vstd::prelude::*;
use crate::bytes::{
    copy_range, extend_range, le64, le64_value, lemma_le64_of_value, lemma_le64_value_injective,
    lemma_le64_value_of_le64, push_le64, read_le64,
};
use crate::params::{DeadboltError, KEM_CIPHERTEXT_LEN, NONCE_LEN, TAG_LEN};

verus! {

/// The format version this library writes and reads.
pub const FORMAT_VERSION: u8 = 1;

/// Bytes before the KEM ciphertext: magic, version and four length declarations.
pub const HEADER_LEN: usize = 37;

/// Offset of the payload: everything before it is authenticated as associated data.
pub const PAYLOAD_OFFSET: usize = 1617;

/// Size of a container whose payload is empty.
pub const FIXED_OVERHEAD: usize = 1633;

/// The four magic bytes, `DBLT`.
pub open spec fn magic() -> Seq<u8> {
    seq![0x44u8, 0x42u8, 0x4cu8, 0x54u8]
}

/// The header of a container whose payload has `payload_len` bytes.
pub open spec fn header(payload_len: u64) -> Seq<u8> {
    magic() + seq![FORMAT_VERSION] + le64(KEM_CIPHERTEXT_LEN as u64) + le64(NONCE_LEN as u64)
        + le64(payload_len) + le64(TAG_LEN as u64)
}

/// The bytes of a container holding the given fields.
pub open spec fn encoding(kem: Seq<u8>, nonce: Seq<u8>, payload: Seq<u8>, tag: Seq<u8>) -> Seq<
    u8,
> {
    header(payload.len() as u64) + kem + nonce + payload + tag
}

/// The declared payload length.
pub open spec fn declared_payload_len(b: Seq<u8>) -> u64 {
    le64_value(b.subrange(21, 29))
}

/// `b` has the structure of a container: known magic and version, the fixed
/// lengths declared, and a total length equal to what the header declares.
pub open spec fn is_container(b: Seq<u8>) -> bool {
    &&& b.len() >= HEADER_LEN
    &&& b.subrange(0, 4) == magic()
    &&& b[4] == FORMAT_VERSION
    &&& le64_value(b.subrange(5, 13)) == KEM_CIPHERTEXT_LEN
    &&& le64_value(b.subrange(13, 21)) == NONCE_LEN
    &&& le64_value(b.subrange(29, 37)) == TAG_LEN
    &&& b.len() == FIXED_OVERHEAD + declared_payload_len(b)
}

/// The fields of a container, in order: KEM ciphertext, nonce, payload, tag.
pub open spec fn fields_of(b: Seq<u8>) -> (Seq<u8>, Seq<u8>, Seq<u8>, Seq<u8>) {
    (
        b.subrange(HEADER_LEN as int, HEADER_LEN + KEM_CIPHERTEXT_LEN),
        b.subrange(HEADER_LEN + KEM_CIPHERTEXT_LEN, PAYLOAD_OFFSET as int),
        b.subrange(PAYLOAD_OFFSET as int, b.len() - TAG_LEN),
        b.subrange(b.len() - TAG_LEN, b.len() as int),
    )
}

/// The associated data of a container: every byte before the payload.
pub open spec fn associated_data(b: Seq<u8>) -> Seq<u8> {
    b.subrange(0, PAYLOAD_OFFSET as int)
}

/// `b` with bit `k` of byte `i` inverted.
pub open spec fn flip_bit(b: Seq<u8>, i: int, k: u8) -> Seq<u8> {
    b.update(i, b[i] ^ (1u8 << k))
}

/// The bytes before the payload of a container: header, KEM ciphertext, nonce.
pub fn encode_prefix(kem: &[u8], nonce: &[u8], payload_len: usize) -> (r: Vec<u8>)
    requires
        kem@.len() == KEM_CIPHERTEXT_LEN,
        nonce@.len() == NONCE_LEN,
    ensures
        r@ == header(payload_len as u64) + kem@ + nonce@,
        r@.len() == PAYLOAD_OFFSET,
{
    let mut out: Vec<u8> = Vec::new();
    out.push(0x44u8);
    out.push(0x42u8);
    out.push(0x4cu8);
    out.push(0x54u8);
    out.push(FORMAT_VERSION);
    push_le64(&mut out, kem.len() as u64);
    push_le64(&mut out, nonce.len() as u64);
    push_le64(&mut out, payload_len as u64);
    push_le64(&mut out, TAG_LEN as u64);
    assert(out@ =~= header(payload_len as u64));
    extend_range(&mut out, kem, 0, kem.len());
    extend_range(&mut out, nonce, 0, nonce.len());
    assert(kem@.subrange(0, kem@.len() as int) =~= kem@);
    assert(nonce@.subrange(0, nonce@.len() as int) =~= nonce@);
    out
}

/// An encrypted container: the persisted result of locking a file.
#[derive(Debug)]
pub struct Container {
    pub kem_ciphertext: Vec<u8>,
    pub nonce: Vec<u8>,
    pub payload: Vec<u8>,
    pub tag: Vec<u8>,
}

impl Container {
    /// The fields as byte sequences.
    pub open spec fn fields(&self) -> (Seq<u8>, Seq<u8>, Seq<u8>, Seq<u8>) {
        (self.kem_ciphertext@, self.nonce@, self.payload@, self.tag@)
    }

    /// The fixed-length fields have their algorithm's lengths.
    pub open spec fn wf(&self) -> bool {
        &&& self.kem_ciphertext@.len() == KEM_CIPHERTEXT_LEN
        &&& self.nonce@.len() == NONCE_LEN
        &&& self.tag@.len() == TAG_LEN
    }

    /// Serialises the container: header, then the fields in order.
    pub fn encode(&self) -> (r: Vec<u8>)
        requires
            self.wf(),
        ensures
            r@ == encoding(self.kem_ciphertext@, self.nonce@, self.payload@, self.tag@),
    {
        let mut out = encode_prefix(
            self.kem_ciphertext.as_slice(),
            self.nonce.as_slice(),
            self.payload.len(),
        );
        let p = self.payload.as_slice();
        extend_range(&mut out, p, 0, p.len());
        let t = self.tag.as_slice();
        extend_range(&mut out, t, 0, t.len());
        assert(p@.subrange(0, p@.len() as int) =~= p@);
        assert(t@.subrange(0, t@.len() as int) =~= t@);
        out
    }

    /// Parses container bytes; any structural mismatch is `CorruptedContainer`.
    pub fn decode(b: &[u8]) -> (r: Result<Container, DeadboltError>)
        ensures
            r is Ok <==> is_container(b@),
            r matches Ok(c) ==> c.wf() && c.fields() == fields_of(b@),
            r matches Err(e) ==> e == DeadboltError::CorruptedContainer,
    {
        if b.len() < HEADER_LEN {
            return Err(DeadboltError::CorruptedContainer);
        }
        if b[0] != 0x44u8 || b[1] != 0x42u8 || b[2] != 0x4cu8 || b[3] != 0x54u8 {
            assert(b@.subrange(0, 4)[0] == b@[0] && b@.subrange(0, 4)[1] == b@[1]);
            assert(b@.subrange(0, 4)[2] == b@[2] && b@.subrange(0, 4)[3] == b@[3]);
            return Err(DeadboltError::CorruptedContainer);
        }
        assert(b@.subrange(0, 4) =~= magic());
        if b[4] != FORMAT_VERSION {
            return Err(DeadboltError::CorruptedContainer);
        }
        let kem_len = read_le64(b, 5);
        let nonce_len = read_le64(b, 13);
        let payload_len = read_le64(b, 21);
        let tag_len = read_le64(b, 29);
        if kem_len != KEM_CIPHERTEXT_LEN as u64 || nonce_len != NONCE_LEN as u64 || tag_len
            != TAG_LEN as u64 {
            return Err(DeadboltError::CorruptedContainer);
        }
        if b.len() < FIXED_OVERHEAD || payload_len != (b.len() - FIXED_OVERHEAD) as u64 {
            return Err(DeadboltError::CorruptedContainer);
        }
        let kem_end = HEADER_LEN + KEM_CIPHERTEXT_LEN;
        let tag_start = b.len() - TAG_LEN;
        let c = Container {
            kem_ciphertext: copy_range(b, HEADER_LEN, kem_end),
            nonce: copy_range(b, kem_end, PAYLOAD_OFFSET),
            payload: copy_range(b, PAYLOAD_OFFSET, tag_start),
            tag: copy_range(b, tag_start, b.len()),
        };
        Ok(c)
    }
}

/// Decoding the encoding of well-formed fields gives those fields back.
pub proof fn lemma_decode_encode(kem: Seq<u8>, nonce: Seq<u8>, payload: Seq<u8>, tag: Seq<u8>)
    requires
        kem.len() == KEM_CIPHERTEXT_LEN,
        nonce.len() == NONCE_LEN,
        tag.len() == TAG_LEN,
        payload.len() <= u64::MAX,
    ensures
        is_container(encoding(kem, nonce, payload, tag)),
        fields_of(encoding(kem, nonce, payload, tag)) == (kem, nonce, payload, tag),
{
    let b = encoding(kem, nonce, payload, tag);
    let pl = payload.len() as u64;
    assert(b.subrange(0, 4) =~= magic());
    assert(b.subrange(5, 13) =~= le64(KEM_CIPHERTEXT_LEN as u64));
    assert(b.subrange(13, 21) =~= le64(NONCE_LEN as u64));
    assert(b.subrange(21, 29) =~= le64(pl));
    assert(b.subrange(29, 37) =~= le64(TAG_LEN as u64));
    lemma_le64_value_of_le64(KEM_CIPHERTEXT_LEN as u64);
    lemma_le64_value_of_le64(NONCE_LEN as u64);
    lemma_le64_value_of_le64(pl);
    lemma_le64_value_of_le64(TAG_LEN as u64);
    let f = fields_of(b);
    assert(f.0 =~= kem);
    assert(f.1 =~= nonce);
    assert(f.2 =~= payload);
    assert(f.3 =~= tag);
}

/// Every container is the encoding of its own fields: no two byte strings
/// decode to the same fields.
pub proof fn lemma_encode_decode(b: Seq<u8>)
    requires
        is_container(b),
    ensures
        ({
            let (kem, nonce, payload, tag) = fields_of(b);
            &&& kem.len() == KEM_CIPHERTEXT_LEN
            &&& nonce.len() == NONCE_LEN
            &&& tag.len() == TAG_LEN
            &&& encoding(kem, nonce, payload, tag) == b
        }),
{
    let (kem, nonce, payload, tag) = fields_of(b);
    let pl = declared_payload_len(b);
    assert(payload.len() == pl);
    lemma_le64_of_value(b.subrange(5, 13));
    lemma_le64_of_value(b.subrange(13, 21));
    lemma_le64_of_value(b.subrange(21, 29));
    lemma_le64_of_value(b.subrange(29, 37));
    let e = encoding(kem, nonce, payload, tag);
    assert(e.subrange(0, 4) =~= b.subrange(0, 4));
    assert(e.subrange(5, 13) =~= b.subrange(5, 13));
    assert(e.subrange(13, 21) =~= b.subrange(13, 21));
    assert(e.subrange(21, 29) =~= b.subrange(21, 29));
    assert(e.subrange(29, 37) =~= b.subrange(29, 37));
    assert forall|j: int| 0 <= j < b.len() implies e[j] == b[j] by {
        if j < 4 {
            assert(e[j] == e.subrange(0, 4)[j] && b[j] == b.subrange(0, 4)[j]);
        } else if 5 <= j < 13 {
            assert(e[j] == e.subrange(5, 13)[j - 5] && b[j] == b.subrange(5, 13)[j - 5]);
        } else if 13 <= j < 21 {
            assert(e[j] == e.subrange(13, 21)[j - 13] && b[j] == b.subrange(13, 21)[j - 13]);
        } else if 21 <= j < 29 {
            assert(e[j] == e.subrange(21, 29)[j - 21] && b[j] == b.subrange(21, 29)[j - 21]);
        } else if 29 <= j < 37 {
            assert(e[j] == e.subrange(29, 37)[j - 29] && b[j] == b.subrange(29, 37)[j - 29]);
        }
    }
    assert(e =~= b);
}

/// Changing one byte inside `[lo, hi)` changes that range.
proof fn lemma_range_changed(b: Seq<u8>, i: int, v: u8, lo: int, hi: int)
    requires
        0 <= lo <= i < hi <= b.len(),
        v != b[i],
    ensures
        b.update(i, v).subrange(lo, hi) != b.subrange(lo, hi),
{
    assert(b.update(i, v).subrange(lo, hi)[i - lo] == v);
    assert(b.subrange(lo, hi)[i - lo] == b[i]);
}

/// Inverting a bit changes the byte.
proof fn lemma_flip_changes(x: u8, k: u8)
    requires
        k < 8,
    ensures
        x ^ (1u8 << k) != x,
{
    assert(x ^ (1u8 << k) != x) by (bit_vector)
        requires
            k < 8u8,
    ;
}

/// Inverting any single bit of a container's header makes it fail to decode.
pub proof fn lemma_header_bit_flip_detected(b: Seq<u8>, i: int, k: u8)
    requires
        is_container(b),
        0 <= i < HEADER_LEN,
        k < 8,
    ensures
        !is_container(flip_bit(b, i, k)),
{
    let v = b[i] ^ (1u8 << k);
    lemma_flip_changes(b[i], k);
    let c = flip_bit(b, i, k);
    assert(c.len() == b.len());
    if i < 4 {
        lemma_range_changed(b, i, v, 0, 4);
    } else if i == 4 {
    } else if i < 13 {
        lemma_range_changed(b, i, v, 5, 13);
        if le64_value(c.subrange(5, 13)) == KEM_CIPHERTEXT_LEN {
            lemma_le64_value_injective(c.subrange(5, 13), b.subrange(5, 13));
        }
    } else if i < 21 {
        lemma_range_changed(b, i, v, 13, 21);
        if le64_value(c.subrange(13, 21)) == NONCE_LEN {
            lemma_le64_value_injective(c.subrange(13, 21), b.subrange(13, 21));
        }
    } else if i < 29 {
        lemma_range_changed(b, i, v, 21, 29);
        if declared_payload_len(c) == declared_payload_len(b) {
            lemma_le64_value_injective(c.subrange(21, 29), b.subrange(21, 29));
        }
    } else {
        lemma_range_changed(b, i, v, 29, 37);
        if le64_value(c.subrange(29, 37)) == TAG_LEN {
            lemma_le64_value_injective(c.subrange(29, 37), b.subrange(29, 37));
        }
    }
}

/// Inverting any single bit after the header leaves the structure intact but
/// changes the fields handed to decapsulation and decryption.
pub proof fn lemma_field_bit_flip_changes_fields(b: Seq<u8>, i: int, k: u8)
    requires
        is_container(b),
        HEADER_LEN <= i < b.len(),
        k < 8,
    ensures
        is_container(flip_bit(b, i, k)),
        fields_of(flip_bit(b, i, k)) != fields_of(b),
{
    let v = b[i] ^ (1u8 << k);
    lemma_flip_changes(b[i], k);
    let c = flip_bit(b, i, k);
    assert(c.subrange(0, 4) =~= b.subrange(0, 4));
    assert(c.subrange(5, 13) =~= b.subrange(5, 13));
    assert(c.subrange(13, 21) =~= b.subrange(13, 21));
    assert(c.subrange(21, 29) =~= b.subrange(21, 29));
    assert(c.subrange(29, 37) =~= b.subrange(29, 37));
    if i < HEADER_LEN + KEM_CIPHERTEXT_LEN {
        lemma_range_changed(b, i, v, HEADER_LEN as int, HEADER_LEN + KEM_CIPHERTEXT_LEN);
    } else if i < PAYLOAD_OFFSET {
        lemma_range_changed(b, i, v, HEADER_LEN + KEM_CIPHERTEXT_LEN, PAYLOAD_OFFSET as int);
    } else if i < b.len() - TAG_LEN {
        lemma_range_changed(b, i, v, PAYLOAD_OFFSET as int, b.len() - TAG_LEN);
    } else {
        lemma_range_changed(b, i, v, b.len() - TAG_LEN, b.len() as int);
    }
}

} // verus!
