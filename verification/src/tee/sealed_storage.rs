//! Sealed storage: data bound to the measurement state and the platform key.
//!
//! ```text
//! seal_key        = SHA-256( "tee:seal:v1:" ‖ platform_key ‖ measurement )
//! measurement_tag = SHA-256( "tee:mtag:v1:" ‖ platform_key ‖ measurement )
//! ciphertext[i]   = plaintext[i] XOR seal_key[i mod 32]
//! auth_tag        = SHA-256( seal_key ‖ ciphertext )
//! ```
//!
//! The serialised layout is `measurement_tag (32) ‖ auth_tag (32) ‖ ciphertext`.

use vstd::prelude::*;
use vstd::utf8::encode_utf8;
use crate::bytes::{
    bytes_to_vec, constant_time_eq, extend_bytes, lemma_differ_at, lemma_differing_position, to_array32,
};
use crate::digest::{sha256, spec_sha256, spec_sha256_collision};

verus! {

/// Errors returned when sealing or unsealing data.
#[derive(Debug)]
pub enum SealError {
    MeasurementMismatch,
    AuthTagInvalid,
    CiphertextTooShort,
}

impl SealError {
    /// The human-readable description of the error.
    pub fn to_message(&self) -> (s: String)
        ensures
            self is MeasurementMismatch ==> s@
                == "Unseal failed: measurement mismatch \u{2013} the enclave software stack has changed since the blob was sealed"@,
            self is AuthTagInvalid ==> s@
                == "Unseal failed: authentication tag invalid \u{2013} the blob has been tampered with"@,
            self is CiphertextTooShort ==> s@
                == "Unseal failed: ciphertext is shorter than the minimum valid length"@,
    {
        match self {
            SealError::MeasurementMismatch => String::from_str(
                "Unseal failed: measurement mismatch \u{2013} the enclave software stack has changed since the blob was sealed",
            ),
            SealError::AuthTagInvalid => String::from_str(
                "Unseal failed: authentication tag invalid \u{2013} the blob has been tampered with",
            ),
            SealError::CiphertextTooShort => String::from_str(
                "Unseal failed: ciphertext is shorter than the minimum valid length",
            ),
        }
    }
}

/// The sealing key for a measurement on a platform.
pub open spec fn spec_seal_key(measurement: Seq<u8>, platform_key: Seq<u8>) -> Seq<u8> {
    spec_sha256(encode_utf8("tee:seal:v1:"@) + platform_key + measurement)
}

/// The fast-fail measurement tag for a measurement on a platform.
pub open spec fn spec_measurement_tag(measurement: Seq<u8>, platform_key: Seq<u8>) -> Seq<u8> {
    spec_sha256(encode_utf8("tee:mtag:v1:"@) + platform_key + measurement)
}

/// `data[i] XOR key[i mod 32]` for every position.
pub open spec fn spec_xor_stream(data: Seq<u8>, key: Seq<u8>) -> Seq<u8> {
    Seq::new(data.len(), |i: int| data[i] ^ key[i % 32])
}

/// The authentication tag over a ciphertext.
pub open spec fn spec_auth_tag(seal_key: Seq<u8>, ciphertext: Seq<u8>) -> Seq<u8> {
    spec_sha256(seal_key + ciphertext)
}

proof fn lemma_xor_twice(a: u8, k: u8)
    ensures
        (a ^ k) ^ k == a,
{
    assert((a ^ k) ^ k == a) by (bit_vector);
}

/// XOR with the same key stream twice gives the data back.
pub proof fn lemma_xor_stream_involution(data: Seq<u8>, key: Seq<u8>)
    ensures
        spec_xor_stream(spec_xor_stream(data, key), key) == data,
{
    let once = spec_xor_stream(data, key);
    let twice = spec_xor_stream(once, key);
    assert forall|i: int| 0 <= i < data.len() implies twice[i] == data[i] by {
        lemma_xor_twice(data[i], key[i % 32]);
    }
    assert(twice =~= data);
}

/// A measurement-bound sealed data blob.
#[derive(Debug, Clone)]
pub struct SealedBlob {
    measurement_tag: [u8; 32],
    auth_tag: [u8; 32],
    ciphertext: Vec<u8>,
}

impl SealedBlob {
    /// The measurement tag the blob was sealed with.
    pub closed spec fn spec_measurement_tag(&self) -> Seq<u8> {
        self.measurement_tag@
    }

    /// The authentication tag over the ciphertext.
    pub closed spec fn spec_auth_tag(&self) -> Seq<u8> {
        self.auth_tag@
    }

    /// The encrypted payload.
    pub closed spec fn spec_ciphertext(&self) -> Seq<u8> {
        self.ciphertext@
    }

    /// The serialised form: `measurement_tag ‖ auth_tag ‖ ciphertext`.
    pub open spec fn spec_bytes(&self) -> Seq<u8> {
        self.spec_measurement_tag() + self.spec_auth_tag() + self.spec_ciphertext()
    }

    /// Seal `plaintext` to `measurement` and `platform_key`.
    pub fn seal(plaintext: &[u8], measurement: &[u8; 32], platform_key: &[u8; 32]) -> (r: Self)
        ensures
            r.spec_measurement_tag() == spec_measurement_tag(measurement@, platform_key@),
            r.spec_ciphertext() == spec_xor_stream(
                plaintext@,
                spec_seal_key(measurement@, platform_key@),
            ),
            r.spec_auth_tag() == spec_auth_tag(
                spec_seal_key(measurement@, platform_key@),
                r.spec_ciphertext(),
            ),
    {
        let seal_key = Self::derive_seal_key(measurement, platform_key);
        let measurement_tag = Self::derive_measurement_tag(measurement, platform_key);
        let ciphertext = Self::xor_stream(plaintext, &seal_key);
        let mut body: Vec<u8> = Vec::new();
        extend_bytes(&mut body, &seal_key);
        extend_bytes(&mut body, ciphertext.as_slice());
        let auth_tag = sha256(body.as_slice());
        SealedBlob { measurement_tag, auth_tag, ciphertext }
    }

    /// Recover the plaintext; fails when the measurement or platform differ
    /// from those at seal time, or when the blob has been tampered with.
    pub fn unseal(&self, measurement: &[u8; 32], platform_key: &[u8; 32]) -> (r: Result<
        Vec<u8>,
        SealError,
    >)
        ensures
            self.spec_measurement_tag() != spec_measurement_tag(measurement@, platform_key@)
                ==> r matches Err(SealError::MeasurementMismatch),
            self.spec_measurement_tag() == spec_measurement_tag(measurement@, platform_key@)
                && self.spec_auth_tag() != spec_auth_tag(
                spec_seal_key(measurement@, platform_key@),
                self.spec_ciphertext(),
            ) ==> r matches Err(SealError::AuthTagInvalid),
            self.spec_measurement_tag() == spec_measurement_tag(measurement@, platform_key@)
                && self.spec_auth_tag() == spec_auth_tag(
                spec_seal_key(measurement@, platform_key@),
                self.spec_ciphertext(),
            ) ==> (r matches Ok(p) && p@ == spec_xor_stream(
                self.spec_ciphertext(),
                spec_seal_key(measurement@, platform_key@),
            )),
    {
        let expected_tag = Self::derive_measurement_tag(measurement, platform_key);
        if !constant_time_eq(&self.measurement_tag, &expected_tag) {
            return Err(SealError::MeasurementMismatch);
        }
        let seal_key = Self::derive_seal_key(measurement, platform_key);
        let mut body: Vec<u8> = Vec::new();
        extend_bytes(&mut body, &seal_key);
        extend_bytes(&mut body, self.ciphertext.as_slice());
        let expected_auth = sha256(body.as_slice());
        if !constant_time_eq(&self.auth_tag, &expected_auth) {
            return Err(SealError::AuthTagInvalid);
        }
        Ok(Self::xor_stream(self.ciphertext.as_slice(), &seal_key))
    }

    /// Serialise into `measurement_tag ‖ auth_tag ‖ ciphertext`.
    pub fn into_bytes(self) -> (r: Vec<u8>)
        ensures
            r@ == self.spec_bytes(),
    {
        let mut out: Vec<u8> = Vec::new();
        extend_bytes(&mut out, &self.measurement_tag);
        extend_bytes(&mut out, &self.auth_tag);
        extend_bytes(&mut out, self.ciphertext.as_slice());
        out
    }

    /// Rebuild a blob from its serialised form; fails when shorter than the
    /// 64-byte header.
    pub fn from_bytes(bytes: &[u8]) -> (r: Result<Self, SealError>)
        ensures
            bytes@.len() < 64 <==> r is Err,
            r matches Err(e) ==> e is CiphertextTooShort,
            r matches Ok(b) ==> b.spec_bytes() == bytes@
                && b.spec_measurement_tag() == bytes@.subrange(0, 32)
                && b.spec_auth_tag() == bytes@.subrange(32, 64)
                && b.spec_ciphertext() == bytes@.subrange(64, bytes@.len() as int),
    {
        if bytes.len() < 64 {
            return Err(SealError::CiphertextTooShort);
        }
        let measurement_tag = to_array32(vstd::slice::slice_subrange(bytes, 0, 32));
        let auth_tag = to_array32(vstd::slice::slice_subrange(bytes, 32, 64));
        let ciphertext = bytes_to_vec(vstd::slice::slice_subrange(bytes, 64, bytes.len()));
        let b = SealedBlob { measurement_tag, auth_tag, ciphertext };
        assert(b.spec_bytes() =~= bytes@);
        Ok(b)
    }

    fn derive_seal_key(measurement: &[u8; 32], platform_key: &[u8; 32]) -> (r: [u8; 32])
        ensures
            r@ == spec_seal_key(measurement@, platform_key@),
    {
        let mut buf: Vec<u8> = Vec::new();
        extend_bytes(&mut buf, "tee:seal:v1:".as_bytes());
        extend_bytes(&mut buf, platform_key);
        extend_bytes(&mut buf, measurement);
        sha256(buf.as_slice())
    }

    fn derive_measurement_tag(measurement: &[u8; 32], platform_key: &[u8; 32]) -> (r: [u8; 32])
        ensures
            r@ == spec_measurement_tag(measurement@, platform_key@),
    {
        let mut buf: Vec<u8> = Vec::new();
        extend_bytes(&mut buf, "tee:mtag:v1:".as_bytes());
        extend_bytes(&mut buf, platform_key);
        extend_bytes(&mut buf, measurement);
        sha256(buf.as_slice())
    }

    /// XOR-stream cipher: `output[i] = input[i] XOR key[i mod 32]`.
    pub fn xor_stream(data: &[u8], key: &[u8; 32]) -> (r: Vec<u8>)
        ensures
            r@ == spec_xor_stream(data@, key@),
    {
        let mut out: Vec<u8> = Vec::new();
        let mut i: usize = 0;
        while i < data.len()
            invariant
                i <= data@.len(),
                out@.len() == i,
                forall|j: int| 0 <= j < i ==> out@[j] == data@[j] ^ key@[j % 32],
            decreases data@.len() - i,
        {
            out.push(data[i] ^ key[i % 32]);
            i = i + 1;
        }
        assert(out@ =~= spec_xor_stream(data@, key@));
        out
    }
}

/// Unsealing a blob with the measurement and platform key it was sealed
/// with passes both tag checks and gives the plaintext back.
pub proof fn lemma_seal_unseal_roundtrip(
    blob: SealedBlob,
    plaintext: Seq<u8>,
    measurement: Seq<u8>,
    platform_key: Seq<u8>,
)
    requires
        blob.spec_measurement_tag() == spec_measurement_tag(measurement, platform_key),
        blob.spec_ciphertext() == spec_xor_stream(
            plaintext,
            spec_seal_key(measurement, platform_key),
        ),
        blob.spec_auth_tag() == spec_auth_tag(
            spec_seal_key(measurement, platform_key),
            blob.spec_ciphertext(),
        ),
    ensures
        blob.spec_measurement_tag() == spec_measurement_tag(measurement, platform_key),
        blob.spec_auth_tag() == spec_auth_tag(
            spec_seal_key(measurement, platform_key),
            blob.spec_ciphertext(),
        ),
        spec_xor_stream(blob.spec_ciphertext(), spec_seal_key(measurement, platform_key))
            == plaintext,
{
    lemma_xor_stream_involution(plaintext, spec_seal_key(measurement, platform_key));
}

/// Serialising a blob and parsing the bytes back gives the same blob.
pub proof fn lemma_blob_bytes_roundtrip(blob: SealedBlob)
    ensures
        blob.spec_bytes().len() >= 64,
        blob.spec_bytes().subrange(0, 32) == blob.spec_measurement_tag(),
        blob.spec_bytes().subrange(32, 64) == blob.spec_auth_tag(),
        blob.spec_bytes().subrange(64, blob.spec_bytes().len() as int) == blob.spec_ciphertext(),
{
    let b = blob.spec_bytes();
    assert(blob.spec_measurement_tag().len() == 32) by {
        reveal(SealedBlob::spec_measurement_tag);
    }
    assert(b.subrange(0, 32) =~= blob.spec_measurement_tag());
    assert(b.subrange(32, 64) =~= blob.spec_auth_tag());
    assert(b.subrange(64, b.len() as int) =~= blob.spec_ciphertext());
}

/// The sealing key and the measurement tag are bound to the measurement:
/// each is SHA-256 over its domain tag, the platform key and the
/// measurement, so two measurements of one length that differ give the
/// same key (or the same tag) on one platform only if SHA-256 collides on
/// those two byte strings.
pub proof fn lemma_seal_binds_measurement(m1: Seq<u8>, m2: Seq<u8>, platform_key: Seq<u8>)
    requires
        m1.len() == m2.len(),
        m1 != m2,
    ensures
        spec_seal_key(m1, platform_key) == spec_seal_key(m2, platform_key) ==> spec_sha256_collision(
            encode_utf8("tee:seal:v1:"@) + platform_key + m1,
            encode_utf8("tee:seal:v1:"@) + platform_key + m2,
        ),
        spec_measurement_tag(m1, platform_key) == spec_measurement_tag(m2, platform_key)
            ==> spec_sha256_collision(
            encode_utf8("tee:mtag:v1:"@) + platform_key + m1,
            encode_utf8("tee:mtag:v1:"@) + platform_key + m2,
        ),
{
    let k = lemma_differing_position(m1, m2);
    let a = encode_utf8("tee:seal:v1:"@) + platform_key;
    let b = encode_utf8("tee:mtag:v1:"@) + platform_key;
    assert((a + m1)[a.len() + k] == m1[k]);
    assert((a + m2)[a.len() + k] == m2[k]);
    lemma_differ_at(a + m1, a + m2, a.len() + k);
    assert((b + m1)[b.len() + k] == m1[k]);
    assert((b + m2)[b.len() + k] == m2[k]);
    lemma_differ_at(b + m1, b + m2, b.len() + k);
}

/// The authentication tag is bound to the ciphertext: it is SHA-256 of the
/// sealing key followed by the ciphertext, so a ciphertext altered in place
/// (same length) keeps its tag only if SHA-256 collides on the two strings.
pub proof fn lemma_auth_tag_binds_ciphertext(key: Seq<u8>, c1: Seq<u8>, c2: Seq<u8>)
    requires
        c1.len() == c2.len(),
        c1 != c2,
    ensures
        spec_auth_tag(key, c1) == spec_auth_tag(key, c2) ==> spec_sha256_collision(key + c1, key + c2),
{
    let k = lemma_differing_position(c1, c2);
    assert((key + c1)[key.len() + k] == c1[k]);
    assert((key + c2)[key.len() + k] == c2[k]);
    lemma_differ_at(key + c1, key + c2, key.len() + k);
}

} // verus!
