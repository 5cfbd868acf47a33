//! The cryptographic and platform primitives the library builds on: SHA-256
//! (crate `sha2`), HMAC-SHA-256 (crate `hmac`), lowercase hex (crate `hex`),
//! operating-system entropy (crate `getrandom`) and the wall clock.
//!
//! Each primitive is one small trusted wrapper.  SHA-256 and HMAC-SHA-256 are
//! functions of their inputs alone, so their results are given names
//! (`spec_sha256`, `spec_hmac_sha256`) that every contract of the library is
//! stated over.  Entropy and time depend on the machine; nothing is claimed of
//! their results beyond their type.

use hmac::Mac;
use sha2::Digest;
use vstd::prelude::*;

verus! {

/// The SHA-256 digest of a byte string.
pub uninterp spec fn spec_sha256(data: Seq<u8>) -> Seq<u8>;

/// `a` and `b` are distinct byte strings with the same SHA-256 digest.
pub open spec fn spec_sha256_collision(a: Seq<u8>, b: Seq<u8>) -> bool {
    a != b && spec_sha256(a) == spec_sha256(b)
}

/// HMAC-SHA-256 of `msg` under `key`.
pub uninterp spec fn spec_hmac_sha256(key: Seq<u8>, msg: Seq<u8>) -> Seq<u8>;

/// SHA-256 of `data`, by `sha2::Sha256::digest`.
///
/// Trusted: the result is `spec_sha256` of the input bytes (a 32-byte
/// array).  Feeding the parts of a message to the hasher one after another is
/// the same as hashing their concatenation, so callers hash one buffer.
#[verifier::external_body]
pub fn sha256(data: &[u8]) -> (out: [u8; 32])
    ensures
        out@ == spec_sha256(data@),
{
    sha2::Sha256::digest(data).into()
}

/// HMAC-SHA-256 of `msg` under `key`, by `Hmac::<Sha256>::new_from_slice`,
/// `update` and `finalize`.
///
/// Trusted: `new_from_slice` accepts keys of every length (the key is hashed
/// or padded to the block size), so the result is always `Some`, holding
/// `spec_hmac_sha256` of the key and message bytes.
#[verifier::external_body]
pub fn hmac_sha256(key: &[u8], msg: &[u8]) -> (out: Option<[u8; 32]>)
    ensures
        out is Some,
        out matches Some(tag) ==> tag@ == spec_hmac_sha256(key@, msg@),
{
    match hmac::Hmac::<sha2::Sha256>::new_from_slice(key) {
        Ok(mut mac) => {
            mac.update(msg);
            Some(mac.finalize().into_bytes().into())
        },
        Err(_) => None,
    }
}

/// The lowercase hexadecimal digit for a value below 16.
pub open spec fn hex_digit(n: u8) -> char {
    if n < 10 {
        (n + 48) as char
    } else {
        (n + 87) as char
    }
}

/// Lowercase hexadecimal text of a byte string, two digits per byte, high
/// nibble first.
pub open spec fn spec_hex(data: Seq<u8>) -> Seq<char>
    decreases data.len(),
{
    if data.len() == 0 {
        Seq::empty()
    } else {
        seq![hex_digit(data[0] / 16), hex_digit(data[0] % 16)] + spec_hex(data.drop_first())
    }
}

/// Lowercase hex encoding, by `hex::encode`.
///
/// Trusted: `hex::encode` writes each byte as two characters from
/// `0123456789abcdef`, high nibble first, which is `spec_hex`.
#[verifier::external_body]
pub fn hex_encode(data: &[u8]) -> (s: String)
    ensures
        s@ == spec_hex(data@),
{
    hex::encode(data)
}

/// 32 bytes from the operating system's random source, by
/// `getrandom::getrandom`.
///
/// Nothing is claimed of the bytes.  Panics when the operating system's
/// random source is unavailable.
#[verifier::external_body]
pub fn os_random_32() -> (out: [u8; 32]) {
    let mut raw = [0u8; 32];
    getrandom::getrandom(&mut raw).expect("OS CSPRNG unavailable");
    raw
}

/// Seconds since the UNIX epoch from the system clock, 0 when the clock is
/// before the epoch.  Nothing is claimed of the value.
#[verifier::external_body]
pub fn unix_time_secs() -> (out: u64) {
    std::time::SystemTime::now()
        .duration_since(std::time::UNIX_EPOCH)
        .map(|d| d.as_secs())
        .unwrap_or(0)
}

/// Nanoseconds since the UNIX epoch from the system clock, 0 when the clock
/// is before the epoch.  Nothing is claimed of the value.
#[verifier::external_body]
pub fn unix_time_nanos() -> (out: u128) {
    std::time::SystemTime::now()
        .duration_since(std::time::UNIX_EPOCH)
        .map(|d| d.as_nanos())
        .unwrap_or(0)
}

} // verus!
