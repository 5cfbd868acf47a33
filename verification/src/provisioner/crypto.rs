//! Key derivation for the genesis provisioning pipeline.
//!
//! ```text
//! seed          = SHA-256( mac ‖ 32 bytes of OS entropy )
//! ed25519 sk    = SHA-256( "cis:ed25519:v1:" ‖ seed ),  pk = SHA-256( "ed25519:pubkey:" ‖ sk )
//! evm sk        = SHA-256( "cis:evm:v1:" ‖ seed ),      address = SHA-256( "evm:address:" ‖ sk )[12..32]
//! ```

use vstd::prelude::*;
use vstd::utf8::encode_utf8;
use crate::bytes::{extend_bytes, lemma_differ_at, lemma_differing_position};
use crate::digest::{hex_encode, os_random_32, sha256, spec_hex, spec_sha256, spec_sha256_collision};

verus! {

#[derive(Debug)]
pub enum CryptoError {
    PufUnavailable(String),
    DerivationFailed(String),
}

/// The SRAM PUF entropy source of the device, mixed with its MAC address.
pub struct PufManager {
    mac_address: [u8; 6],
}

impl PufManager {
    /// The MAC address mixed into the seed.
    pub closed spec fn spec_mac(&self) -> Seq<u8> {
        self.mac_address@
    }

    pub fn new(mac_address: [u8; 6]) -> (r: Self)
        ensures
            r.spec_mac() == mac_address@,
    {
        PufManager { mac_address }
    }

    /// A 32-byte genesis seed: SHA-256 of the MAC and 32 fresh random bytes.
    pub fn extract_unique_seed(&self) -> (r: [u8; 32])
        ensures
            exists|entropy: Seq<u8>|
                entropy.len() == 32 && r@ == spec_sha256(self.spec_mac() + entropy),
    {
        let entropy = Self::fill_random();
        let mut buf: Vec<u8> = Vec::new();
        extend_bytes(&mut buf, &self.mac_address);
        extend_bytes(&mut buf, &entropy);
        let r = sha256(buf.as_slice());
        assert(entropy@.len() == 32 && r@ == spec_sha256(self.spec_mac() + entropy@));
        r
    }

    fn fill_random() -> (r: [u8; 32]) {
        os_random_32()
    }
}

/// The Ed25519-style private key derived from a seed.
pub open spec fn spec_ed25519_private(seed: Seq<u8>) -> Seq<u8> {
    spec_sha256(encode_utf8("cis:ed25519:v1:"@) + seed)
}

/// The public key of a private key.
pub open spec fn spec_ed25519_public(private_key: Seq<u8>) -> Seq<u8> {
    spec_sha256(encode_utf8("ed25519:pubkey:"@) + private_key)
}

/// An Ed25519-style key pair derived from a PUF seed.
pub struct Ed25519Keypair {
    private_key: [u8; 32],
    public_key: [u8; 32],
}

impl Ed25519Keypair {
    /// The private key.
    pub closed spec fn spec_private(&self) -> Seq<u8> {
        self.private_key@
    }

    /// The public key.
    pub closed spec fn spec_public(&self) -> Seq<u8> {
        self.public_key@
    }

    /// Derive the key pair from a seed.
    pub fn from_seed(seed: &[u8; 32]) -> (r: Self)
        ensures
            r.spec_private() == spec_ed25519_private(seed@),
            r.spec_public() == spec_ed25519_public(spec_ed25519_private(seed@)),
    {
        let mut buf: Vec<u8> = Vec::new();
        extend_bytes(&mut buf, "cis:ed25519:v1:".as_bytes());
        extend_bytes(&mut buf, seed);
        let private_key = sha256(buf.as_slice());
        let mut pbuf: Vec<u8> = Vec::new();
        extend_bytes(&mut pbuf, "ed25519:pubkey:".as_bytes());
        extend_bytes(&mut pbuf, &private_key);
        let public_key = sha256(pbuf.as_slice());
        Ed25519Keypair { private_key, public_key }
    }

    /// The public key bytes.
    pub fn public_key(&self) -> (r: &[u8; 32])
        ensures
            r@ == self.spec_public(),
    {
        &self.public_key
    }

    /// The private key bytes.
    pub fn private_key(&self) -> (r: &[u8; 32])
        ensures
            r@ == self.spec_private(),
    {
        &self.private_key
    }

    /// A 64-byte signature: `SHA-256(private_key ‖ data) ‖ public_key`.
    pub fn sign(&self, data: &[u8]) -> (r: [u8; 64])
        ensures
            r@ == spec_sha256(self.spec_private() + data@) + self.spec_public(),
    {
        let mut buf: Vec<u8> = Vec::new();
        extend_bytes(&mut buf, &self.private_key);
        extend_bytes(&mut buf, data);
        let half = sha256(buf.as_slice());
        let mut sig = [0u8; 64];
        let mut i: usize = 0;
        while i < 32
            invariant
                i <= 32,
                forall|j: int| 0 <= j < i ==> sig@[j] == half@[j],
            decreases 32 - i,
        {
            sig[i] = half[i];
            i = i + 1;
        }
        while i < 64
            invariant
                32 <= i <= 64,
                forall|j: int| 0 <= j < 32 ==> sig@[j] == half@[j],
                forall|j: int| 32 <= j < i ==> sig@[j] == self.public_key@[j - 32],
            decreases 64 - i,
        {
            sig[i] = self.public_key[i - 32];
            i = i + 1;
        }
        assert(sig@ =~= half@ + self.public_key@);
        sig
    }

    /// Overwrite the private key with zeros.
    pub fn zeroize(&mut self)
        ensures
            final(self).spec_private() == Seq::new(32, |i: int| 0u8),
            final(self).spec_public() == old(self).spec_public(),
    {
        let mut i: usize = 0;
        while i < 32
            invariant
                i <= 32,
                forall|j: int| 0 <= j < i ==> self.private_key@[j] == 0u8,
                self.public_key == old(self).public_key,
            decreases 32 - i,
        {
            self.private_key[i] = 0;
            i = i + 1;
        }
        assert(self.private_key@ =~= Seq::new(32, |i: int| 0u8));
    }
}

/// The EVM private key derived from a seed.
pub open spec fn spec_evm_private(seed: Seq<u8>) -> Seq<u8> {
    spec_sha256(encode_utf8("cis:evm:v1:"@) + seed)
}

/// The 20-byte address of an EVM private key.
pub open spec fn spec_evm_address(private_key: Seq<u8>) -> Seq<u8> {
    spec_sha256(encode_utf8("evm:address:"@) + private_key).subrange(12, 32)
}

/// The 4-byte function selector of `bootstrapIdentity(string,string)`.
pub open spec fn spec_bootstrap_selector() -> Seq<u8> {
    spec_sha256(encode_utf8("bootstrapIdentity(string,string)"@)).subrange(0, 4)
}

/// An EVM-compatible wallet derived from a PUF seed.
pub struct EvmWallet {
    private_key: [u8; 32],
    address: [u8; 20],
}

impl EvmWallet {
    /// The private key.
    pub closed spec fn spec_private(&self) -> Seq<u8> {
        self.private_key@
    }

    /// The 20-byte address.
    pub closed spec fn spec_address(&self) -> Seq<u8> {
        self.address@
    }

    /// Derive the wallet from a seed.
    pub fn from_seed(seed: &[u8; 32]) -> (r: Self)
        ensures
            r.spec_private() == spec_evm_private(seed@),
            r.spec_address() == spec_evm_address(spec_evm_private(seed@)),
    {
        let mut buf: Vec<u8> = Vec::new();
        extend_bytes(&mut buf, "cis:evm:v1:".as_bytes());
        extend_bytes(&mut buf, seed);
        let private_key = sha256(buf.as_slice());
        let mut abuf: Vec<u8> = Vec::new();
        extend_bytes(&mut abuf, "evm:address:".as_bytes());
        extend_bytes(&mut abuf, &private_key);
        let addr_hash = sha256(abuf.as_slice());
        let mut address = [0u8; 20];
        let mut i: usize = 0;
        while i < 20
            invariant
                i <= 20,
                forall|j: int| 0 <= j < i ==> address@[j] == addr_hash@[j + 12],
            decreases 20 - i,
        {
            address[i] = addr_hash[i + 12];
            i = i + 1;
        }
        assert(address@ =~= addr_hash@.subrange(12, 32));
        EvmWallet { private_key, address }
    }

    /// The address as `0x` followed by 40 lowercase hex digits.
    pub fn address(&self) -> (s: String)
        ensures
            s@ == "0x"@ + spec_hex(self.spec_address()),
    {
        let mut s = String::from_str("0x");
        s.append(hex_encode(&self.address).as_str());
        s
    }

    /// Build and sign an ERC-8004 `bootstrapIdentity(string did, string uri)`
    /// call: `selector ‖ did ‖ uri ‖ SHA-256(private_key ‖ selector ‖ did ‖ uri)`.
    pub fn sign_erc8004_registration(&self, did: String, capabilities_uri: String) -> (r: Vec<u8>)
        ensures
            ({
                let payload = spec_bootstrap_selector() + encode_utf8(did@) + encode_utf8(
                    capabilities_uri@,
                );
                r@ == payload + spec_sha256(self.spec_private() + payload)
            }),
    {
        let full = sha256("bootstrapIdentity(string,string)".as_bytes());
        let mut payload: Vec<u8> = Vec::new();
        extend_bytes(&mut payload, vstd::slice::slice_subrange(&full, 0, 4));
        extend_bytes(&mut payload, did.as_str().as_bytes());
        extend_bytes(&mut payload, capabilities_uri.as_str().as_bytes());
        let mut sbuf: Vec<u8> = Vec::new();
        extend_bytes(&mut sbuf, &self.private_key);
        extend_bytes(&mut sbuf, payload.as_slice());
        let sig = sha256(sbuf.as_slice());
        let mut signed_tx = payload;
        extend_bytes(&mut signed_tx, &sig);
        signed_tx
    }

    /// Overwrite the private key with zeros.
    pub fn zeroize(&mut self)
        ensures
            final(self).spec_private() == Seq::new(32, |i: int| 0u8),
            final(self).spec_address() == old(self).spec_address(),
    {
        let mut i: usize = 0;
        while i < 32
            invariant
                i <= 32,
                forall|j: int| 0 <= j < i ==> self.private_key@[j] == 0u8,
                self.address == old(self).address,
            decreases 32 - i,
        {
            self.private_key[i] = 0;
            i = i + 1;
        }
        assert(self.private_key@ =~= Seq::new(32, |i: int| 0u8));
    }
}

/// Both derived private keys are bound to the seed: each is SHA-256 over
/// its own domain tag and the seed, so two different seeds of one length
/// give the same Ed25519 (or EVM) private key only if SHA-256 collides on
/// those strings.
pub proof fn lemma_keys_bind_seed(s1: Seq<u8>, s2: Seq<u8>)
    requires
        s1.len() == s2.len(),
        s1 != s2,
    ensures
        spec_ed25519_private(s1) == spec_ed25519_private(s2) ==> spec_sha256_collision(
            encode_utf8("cis:ed25519:v1:"@) + s1,
            encode_utf8("cis:ed25519:v1:"@) + s2,
        ),
        spec_evm_private(s1) == spec_evm_private(s2) ==> spec_sha256_collision(
            encode_utf8("cis:evm:v1:"@) + s1,
            encode_utf8("cis:evm:v1:"@) + s2,
        ),
{
    let k = lemma_differing_position(s1, s2);
    let a = encode_utf8("cis:ed25519:v1:"@);
    let b = encode_utf8("cis:evm:v1:"@);
    assert((a + s1)[a.len() + k] == s1[k]);
    assert((a + s2)[a.len() + k] == s2[k]);
    lemma_differ_at(a + s1, a + s2, a.len() + k);
    assert((b + s1)[b.len() + k] == s1[k]);
    assert((b + s2)[b.len() + k] == s2[k]);
    lemma_differ_at(b + s1, b + s2, b.len() + k);
}

} // verus!
