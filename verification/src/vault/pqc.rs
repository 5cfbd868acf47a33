//! The post-quantum primitives the vault uses: Kyber-1024 key encapsulation
//! (crate `pqcrypto-kyber`) and Dilithium-3 detached signatures (crate
//! `pqcrypto-dilithium`).  Keys, ciphertexts and signatures cross this
//! boundary as bytes.
//!
//! Key generation and encapsulation draw fresh randomness, so nothing is
//! claimed of their results beyond the fixed sizes the crates give them.
//! Dilithium-3 signing (deterministic in this crate version) and
//! verification are functions of their byte inputs, and their results are
//! given names.

use pqcrypto_traits::kem::{Ciphertext as _, PublicKey as _, SecretKey as _, SharedSecret as _};
use pqcrypto_traits::sign::{DetachedSignature as _, PublicKey as _, SecretKey as _};
use vstd::prelude::*;

verus! {

/// Kyber-1024 public key size in bytes.
pub const KYBER1024_PUBLIC_KEY_BYTES: usize = 1568;

/// Kyber-1024 secret key size in bytes.
pub const KYBER1024_SECRET_KEY_BYTES: usize = 3168;

/// Kyber-1024 ciphertext size in bytes.
pub const KYBER1024_CIPHERTEXT_BYTES: usize = 1568;

/// Kyber-1024 shared secret size in bytes.
pub const KYBER1024_SHARED_SECRET_BYTES: usize = 32;

/// Dilithium-3 public key size in bytes.
pub const DILITHIUM3_PUBLIC_KEY_BYTES: usize = 1952;

/// Dilithium-3 secret key size in bytes.
pub const DILITHIUM3_SECRET_KEY_BYTES: usize = 4032;

/// Largest Dilithium-3 detached signature in bytes.
pub const DILITHIUM3_SIGNATURE_BYTES: usize = 3309;

/// The Dilithium-3 detached signature of `msg` under the secret key `sk`.
pub uninterp spec fn spec_dilithium3_sign(msg: Seq<u8>, sk: Seq<u8>) -> Seq<u8>;

/// Whether `sig` is a valid Dilithium-3 detached signature of `msg` under
/// the public key `pk`.
pub uninterp spec fn spec_dilithium3_verify(sig: Seq<u8>, msg: Seq<u8>, pk: Seq<u8>) -> bool;

/// A fresh Kyber-1024 key pair as (public key, secret key) bytes, by
/// `pqcrypto_kyber::kyber1024::keypair`.
///
/// Trusted: the keys are random; their byte lengths are the crate's fixed
/// sizes.
#[verifier::external_body]
pub(crate) fn kyber1024_keypair() -> (r: (Vec<u8>, Vec<u8>))
    ensures
        r.0@.len() == KYBER1024_PUBLIC_KEY_BYTES,
        r.1@.len() == KYBER1024_SECRET_KEY_BYTES,
{
    let (pk, sk) = pqcrypto_kyber::kyber1024::keypair();
    (pk.as_bytes().to_vec(), sk.as_bytes().to_vec())
}

/// Encapsulate a fresh shared secret to a Kyber-1024 public key, by
/// `pqcrypto_kyber::kyber1024::encapsulate`; returns (shared secret,
/// ciphertext) bytes.
///
/// Trusted: the shared secret is random; the byte lengths are the crate's
/// fixed sizes.  The key bytes are parsed by `PublicKey::from_bytes`, which
/// accepts exactly the public key size.
#[verifier::external_body]
pub(crate) fn kyber1024_encapsulate(pk: &[u8]) -> (r: (Vec<u8>, Vec<u8>))
    requires
        pk@.len() == KYBER1024_PUBLIC_KEY_BYTES,
    ensures
        r.0@.len() == KYBER1024_SHARED_SECRET_BYTES,
        r.1@.len() == KYBER1024_CIPHERTEXT_BYTES,
{
    let pk = pqcrypto_kyber::kyber1024::PublicKey::from_bytes(pk).unwrap();
    let (ss, ct) = pqcrypto_kyber::kyber1024::encapsulate(&pk);
    (ss.as_bytes().to_vec(), ct.as_bytes().to_vec())
}

/// A fresh Dilithium-3 key pair as (public key, secret key) bytes, by
/// `pqcrypto_dilithium::dilithium3::keypair`.
///
/// Trusted: the keys are random, with the crate's fixed sizes, and every
/// detached signature made with the secret key verifies under the public
/// key (the scheme's correctness, which the crate's own tests check).
#[verifier::external_body]
pub(crate) fn dilithium3_keypair() -> (r: (Vec<u8>, Vec<u8>))
    ensures
        r.0@.len() == DILITHIUM3_PUBLIC_KEY_BYTES,
        r.1@.len() == DILITHIUM3_SECRET_KEY_BYTES,
        forall|msg: Seq<u8>|
            #[trigger] spec_dilithium3_verify(spec_dilithium3_sign(msg, r.1@), msg, r.0@),
{
    let (pk, sk) = pqcrypto_dilithium::dilithium3::keypair();
    (pk.as_bytes().to_vec(), sk.as_bytes().to_vec())
}

/// The Dilithium-3 detached signature of `msg`, by
/// `pqcrypto_dilithium::dilithium3::detached_sign`.
///
/// Trusted: the signature bytes are `spec_dilithium3_sign` of the message
/// and secret key bytes, at most the crate's signature size.  The key bytes
/// are parsed by `SecretKey::from_bytes`, which accepts exactly the secret
/// key size.
#[verifier::external_body]
pub(crate) fn dilithium3_sign(msg: &[u8], sk: &[u8]) -> (r: Vec<u8>)
    requires
        sk@.len() == DILITHIUM3_SECRET_KEY_BYTES,
    ensures
        r@ == spec_dilithium3_sign(msg@, sk@),
        r@.len() <= DILITHIUM3_SIGNATURE_BYTES,
{
    let sk = pqcrypto_dilithium::dilithium3::SecretKey::from_bytes(sk).unwrap();
    pqcrypto_dilithium::dilithium3::detached_sign(msg, &sk).as_bytes().to_vec()
}

/// Verify a Dilithium-3 detached signature, by
/// `pqcrypto_dilithium::dilithium3::verify_detached_signature`.
///
/// Trusted: the result is `spec_dilithium3_verify` of the signature,
/// message and public key bytes.  Key and signature bytes that their
/// `from_bytes` refuses (a key of the wrong size, a signature longer than
/// the signature size) give `false`.
#[verifier::external_body]
pub(crate) fn dilithium3_verify(sig: &[u8], msg: &[u8], pk: &[u8]) -> (r: bool)
    ensures
        r == spec_dilithium3_verify(sig@, msg@, pk@),
        pk@.len() != DILITHIUM3_PUBLIC_KEY_BYTES ==> !r,
        sig@.len() > DILITHIUM3_SIGNATURE_BYTES ==> !r,
{
    let pk = match pqcrypto_dilithium::dilithium3::PublicKey::from_bytes(pk) {
        Ok(pk) => pk,
        Err(_) => return false,
    };
    let sig = match pqcrypto_dilithium::dilithium3::DetachedSignature::from_bytes(sig) {
        Ok(s) => s,
        Err(_) => return false,
    };
    pqcrypto_dilithium::dilithium3::verify_detached_signature(&sig, msg, &pk).is_ok()
}

} // verus!
