//! The Solana agent wallet key vault.
//!
//! 1. Private keys never leave the vault: it returns signed transaction bytes
//!    and a Dilithium-3 attestation, never key material.
//! 2. Every enrolled seed is wrapped with a fresh Kyber-1024 shared secret.
//! 3. The wrapped seed is sealed to the TEE measurement of the vault build.
//! 4. Every signing request carries a fresh nonce; spent nonces are refused.
//! 5. Every event is recorded in the hash-chained audit log.

use vstd::prelude::*;
use vstd::utf8::encode_utf8;
use crate::bytes::{
    bytes_eq, bytes_to_vec, extend_bytes, lemma_differ_at, lemma_differing_position, str_eq, to_array32,
};
use crate::digest::{sha256, spec_sha256, spec_sha256_collision};
use crate::tee::attestation::TeeVendor;
use crate::tee::context::TeeContext;
use crate::tee::measurement::{spec_extend, zero_digest};
use crate::tee::sealed_storage::{
    lemma_blob_bytes_roundtrip, lemma_xor_stream_involution, spec_auth_tag, spec_measurement_tag,
    spec_seal_key, spec_xor_stream, SealedBlob,
};
use crate::vault::audit::{lemma_append_keeps_chain_valid, spec_chain_valid, AuditLog};
use crate::vault::auth::{tx_digest, AgentAuthProof, AuthToken};
use crate::vault::pqc::{
    dilithium3_keypair, dilithium3_sign, dilithium3_verify, kyber1024_encapsulate,
    kyber1024_keypair, spec_dilithium3_sign, spec_dilithium3_verify,
    DILITHIUM3_PUBLIC_KEY_BYTES, DILITHIUM3_SECRET_KEY_BYTES, KYBER1024_CIPHERTEXT_BYTES,
    KYBER1024_PUBLIC_KEY_BYTES,
};
use crate::vault::zk_commitment::spec_commitment;

verus! {

/// The version of the vault build, measured into its TEE context.
pub const VAULT_VERSION: &'static str = "0.1.0";

/// Errors produced by the vault.
#[derive(Debug)]
pub enum VaultError {
    NoKeyEnrolled,
    Unauthorized(String),
    NonceReused,
    UnsealFailed(String),
    KemDecapFailed,
    AttestationFailed,
    AgentNotRegistered(String),
    InvalidKeySeed,
}

/// The description of a vault error.
pub open spec fn spec_vault_error_message(e: VaultError) -> Seq<char> {
    match e {
        VaultError::NoKeyEnrolled => "No Solana key has been enrolled yet"@,
        VaultError::Unauthorized(m) => "Authorization proof is invalid: "@ + m@,
        VaultError::NonceReused => "Nonce has already been used (replay attack)"@,
        VaultError::UnsealFailed(m) => "TEE unseal failed: "@ + m@,
        VaultError::KemDecapFailed => "Post-quantum KEM decapsulation failed"@,
        VaultError::AttestationFailed => "Dilithium signing failed"@,
        VaultError::AgentNotRegistered(a) => "Agent "@ + a@ + " is not registered in this vault"@,
        VaultError::InvalidKeySeed => "Key material is too short to be a valid Solana seed"@,
    }
}

impl VaultError {
    /// The human-readable description of the error.
    pub fn to_message(&self) -> (s: String)
        ensures
            s@ == spec_vault_error_message(*self),
    {
        match self {
            VaultError::NoKeyEnrolled => String::from_str("No Solana key has been enrolled yet"),
            VaultError::Unauthorized(m) => {
                let mut s = String::from_str("Authorization proof is invalid: ");
                s.append(m.as_str());
                s
            },
            VaultError::NonceReused => String::from_str("Nonce has already been used (replay attack)"),
            VaultError::UnsealFailed(m) => {
                let mut s = String::from_str("TEE unseal failed: ");
                s.append(m.as_str());
                s
            },
            VaultError::KemDecapFailed => String::from_str("Post-quantum KEM decapsulation failed"),
            VaultError::AttestationFailed => String::from_str("Dilithium signing failed"),
            VaultError::AgentNotRegistered(a) => {
                let mut s = String::from_str("Agent ");
                s.append(a.as_str());
                s.append(" is not registered in this vault");
                s
            },
            VaultError::InvalidKeySeed => String::from_str(
                "Key material is too short to be a valid Solana seed",
            ),
        }
    }
}

/// A signing request: the transaction to sign, the agent's DID, a fresh
/// nonce and the agent's authorisation proof.
#[derive(Debug, Clone)]
pub struct SigningRequest {
    pub transaction_bytes: Vec<u8>,
    pub agent_id: String,
    /// Must never be reused.
    pub nonce: [u8; 32],
    pub auth_proof: AgentAuthProof,
}

/// A signing response: the signed transaction (64-byte signature first), the
/// public key that signed it and the vault's Dilithium-3 attestation.
#[derive(Debug, Clone)]
pub struct SigningResponse {
    pub signed_transaction: Vec<u8>,
    pub signing_pubkey: [u8; 32],
    /// Dilithium-3 signature over `signing_pubkey ‖ SHA-256(signed_transaction)`.
    pub vault_attestation: Vec<u8>,
    pub vault_attestation_pubkey: Vec<u8>,
}

/// The vault's record of one enrolled key.
pub struct KeyRecord {
    /// Kyber-1024 ciphertext, kept for key rotation.
    pub kyber_ciphertext: Vec<u8>,
    /// The TEE-sealed wrapped seed, serialised.
    pub tee_sealed_blob: Vec<u8>,
    /// The token of the agent that enrolled the key.
    pub auth_token: AuthToken,
    /// The public key of the wrapped seed.
    pub public_key: [u8; 32],
    /// Kyber-1024 public key, kept for key rotation.
    pub kyber_pk_bytes: Vec<u8>,
    /// The wrapped seed inside the sealed blob.
    pub wrapped_seed: Ghost<Seq<u8>>,
}

/// The 32-byte seed XOR the first 32 bytes of the KEM shared secret.
pub open spec fn spec_wrap_seed(seed: Seq<u8>, secret: Seq<u8>) -> Seq<u8> {
    Seq::new(32, |i: int| seed[i] ^ secret[i])
}

/// The public key of wrapped seed material: a domain-separated SHA-256.
pub open spec fn spec_derived_pubkey(wrapped: Seq<u8>) -> Seq<u8> {
    spec_sha256(encode_utf8("solana:ed25519:pubkey:v1:"@) + wrapped)
}

/// The 64-byte transaction signature: two chained, domain-separated SHA-256
/// halves over the seed and the transaction.
pub open spec fn spec_tx_signature(seed: Seq<u8>, tx: Seq<u8>) -> Seq<u8> {
    let first = spec_sha256(encode_utf8("solana:sign:v1:"@) + seed + tx);
    first + spec_sha256(encode_utf8("solana:sign:v1:r2:"@) + first + tx)
}

/// The message the vault attests: the signing key and the SHA-256 of the
/// signed transaction.
pub open spec fn spec_attestation_message(pubkey: Seq<u8>, signed_tx: Seq<u8>) -> Seq<u8> {
    pubkey + spec_sha256(signed_tx)
}

/// The serialised blob that sealing `plaintext` in `tee` produces.
pub open spec fn spec_sealed_bytes(tee: TeeContext, plaintext: Seq<u8>) -> Seq<u8> {
    let key = spec_seal_key(tee.spec_measurement(), tee.spec_platform_key());
    let ct = spec_xor_stream(plaintext, key);
    spec_measurement_tag(tee.spec_measurement(), tee.spec_platform_key()) + spec_auth_tag(key, ct) + ct
}

/// A key record is sound in `tee`: its blob seals its 32-byte wrapped seed
/// and its public key is that seed's.
pub open spec fn spec_record_ok(tee: TeeContext, r: KeyRecord) -> bool {
    let key = spec_seal_key(tee.spec_measurement(), tee.spec_platform_key());
    &&& r.wrapped_seed@.len() == 32
    &&& r.public_key@ == spec_derived_pubkey(r.wrapped_seed@)
    &&& spec_measurement_tag(tee.spec_measurement(), tee.spec_platform_key()).len() == 32
    &&& spec_auth_tag(key, spec_xor_stream(r.wrapped_seed@, key)).len() == 32
    &&& r.tee_sealed_blob@ == spec_sealed_bytes(tee, r.wrapped_seed@)
}

/// No agent appears twice.
pub open spec fn spec_unique_agents(keys: Seq<(Seq<char>, KeyRecord)>) -> bool {
    forall|i: int, j: int| 0 <= i < j < keys.len() ==> #[trigger] keys[i].0 != #[trigger] keys[j].0
}

/// The record enrolled for `agent`, if any.
pub open spec fn spec_lookup(keys: Seq<(Seq<char>, KeyRecord)>, agent: Seq<char>) -> Option<KeyRecord> {
    if exists|i: int| 0 <= i < keys.len() && #[trigger] keys[i].0 == agent {
        Some(keys[choose|i: int| 0 <= i < keys.len() && #[trigger] keys[i].0 == agent].1)
    } else {
        None
    }
}

proof fn lemma_lookup_at(keys: Seq<(Seq<char>, KeyRecord)>, i: int)
    requires
        spec_unique_agents(keys),
        0 <= i < keys.len(),
    ensures
        spec_lookup(keys, keys[i].0) == Some(keys[i].1),
{
    let a = keys[i].0;
    let j = choose|j: int| 0 <= j < keys.len() && #[trigger] keys[j].0 == a;
    if j < i {
        assert(keys[j].0 != keys[i].0);
    } else if i < j {
        assert(keys[i].0 != keys[j].0);
    }
}

/// `after` is `before` with one more entry for `event` and `agent`.
pub open spec fn spec_logged(before: AuditLog, after: AuditLog, event: Seq<char>, agent: Seq<char>) -> bool {
    &&& after.entries@.len() == before.entries@.len() + 1
    &&& after.entries@.subrange(0, before.entries@.len() as int) == before.entries@
    &&& after.entries@.last().event@ == event
    &&& after.entries@.last().agent_id@ == agent
}

/// The Solana key vault.
pub struct SolanaKeyVault {
    tee: TeeContext,
    keys: Vec<(String, KeyRecord)>,
    used_nonces: Vec<[u8; 32]>,
    dilithium_sk: Vec<u8>,
    dilithium_pk: Vec<u8>,
    /// Append-only audit log.
    pub audit_log: AuditLog,
}

impl SolanaKeyVault {
    /// The vault's TEE context.
    pub closed spec fn spec_tee(&self) -> TeeContext {
        self.tee
    }

    /// The enrolled keys by agent DID, in enrolment order.
    pub closed spec fn spec_keys(&self) -> Seq<(Seq<char>, KeyRecord)> {
        self.keys@.map_values(|e: (String, KeyRecord)| (e.0@, e.1))
    }

    /// The spent nonces, in the order they were spent.
    pub closed spec fn spec_nonces(&self) -> Seq<Seq<u8>> {
        self.used_nonces@.map_values(|n: [u8; 32]| n@)
    }

    /// The audit log.
    pub closed spec fn spec_audit(&self) -> AuditLog {
        self.audit_log
    }

    /// The Dilithium-3 attestation public key.
    pub closed spec fn spec_attestation_pk(&self) -> Seq<u8> {
        self.dilithium_pk@
    }

    /// The Dilithium-3 attestation secret key.
    pub closed spec fn spec_attestation_sk(&self) -> Seq<u8> {
        self.dilithium_sk@
    }

    /// The record enrolled for `agent`, if any.
    pub open spec fn spec_record(&self, agent: Seq<char>) -> Option<KeyRecord> {
        spec_lookup(self.spec_keys(), agent)
    }

    /// Every agent enrolled once, every record sound, an attestation key pair
    /// whose signatures verify, and an intact audit chain.
    pub open spec fn wf(&self) -> bool {
        &&& spec_unique_agents(self.spec_keys())
        &&& forall|i: int|
            0 <= i < self.spec_keys().len() ==> spec_record_ok(
                self.spec_tee(),
                #[trigger] self.spec_keys()[i].1,
            )
        &&& self.spec_attestation_pk().len() == DILITHIUM3_PUBLIC_KEY_BYTES
        &&& self.spec_attestation_sk().len() == DILITHIUM3_SECRET_KEY_BYTES
        &&& forall|msg: Seq<u8>|
            #[trigger] spec_dilithium3_verify(
                spec_dilithium3_sign(msg, self.spec_attestation_sk()),
                msg,
                self.spec_attestation_pk(),
            )
        &&& spec_chain_valid(self.spec_audit().entries@)
    }

    /// A new vault: a TEE context measured with the vault's name and version,
    /// a fresh Dilithium-3 attestation key pair, no keys, no spent nonces,
    /// and one audit entry.
    pub fn new() -> (r: Self)
        ensures
            r.wf(),
            r.spec_keys().len() == 0,
            r.spec_nonces().len() == 0,
            r.spec_tee().spec_vendor() == TeeVendor::AmdSevSnp,
            r.spec_tee().spec_measurement() == spec_extend(
                spec_extend(zero_digest(), encode_utf8("agent-wallet-vault:v1"@)),
                encode_utf8(VAULT_VERSION@),
            ),
            r.spec_audit().entries@.len() == 1,
            r.spec_audit().entries@[0].event@ == "vault_initialized"@,
            r.spec_audit().entries@[0].agent_id@ == ""@,
    {
        let mut tee = TeeContext::new(TeeVendor::AmdSevSnp);
        tee.extend_measurement("agent-wallet-vault:v1".as_bytes());
        tee.extend_measurement(VAULT_VERSION.as_bytes());
        let (dilithium_pk, dilithium_sk) = dilithium3_keypair();
        let mut vault = SolanaKeyVault {
            tee,
            keys: Vec::new(),
            used_nonces: Vec::new(),
            dilithium_sk,
            dilithium_pk,
            audit_log: AuditLog::new(),
        };
        let ghost before = vault.audit_log.entries@;
        vault.audit_log.append("vault_initialized", "");
        proof {
            lemma_append_keeps_chain_valid(before, vault.audit_log.entries@);
            assert(vault.spec_keys() =~= Seq::empty());
            assert(vault.spec_nonces() =~= Seq::empty());
        }
        vault
    }

    /// The index of the record of `agent_id`.
    fn find_agent(&self, agent_id: &str) -> (r: Option<usize>)
        ensures
            r matches Some(i) ==> i < self.spec_keys().len() && self.spec_keys()[i as int].0 == agent_id@,
            r is None ==> forall|i: int| 0 <= i < self.spec_keys().len() ==> #[trigger] self.spec_keys()[i].0 != agent_id@,
    {
        let mut i: usize = 0;
        while i < self.keys.len()
            invariant
                i <= self.keys@.len(),
                forall|j: int| 0 <= j < i ==> self.keys@[j].0@ != agent_id@,
            decreases self.keys@.len() - i,
        {
            if str_eq(self.keys[i].0.as_str(), agent_id) {
                assert(self.spec_keys()[i as int].0 == self.keys@[i as int].0@);
                return Some(i);
            }
            i = i + 1;
        }
        assert forall|j: int| 0 <= j < self.spec_keys().len() implies #[trigger] self.spec_keys()[j].0
            != agent_id@ by {
            assert(self.spec_keys()[j].0 == self.keys@[j].0@);
        }
        None
    }

    /// `true` when `nonce` has been spent.
    fn nonce_spent(&self, nonce: &[u8; 32]) -> (r: bool)
        ensures
            r == self.spec_nonces().contains(nonce@),
    {
        let mut i: usize = 0;
        while i < self.used_nonces.len()
            invariant
                i <= self.used_nonces@.len(),
                forall|j: int| 0 <= j < i ==> self.used_nonces@[j]@ != nonce@,
            decreases self.used_nonces@.len() - i,
        {
            if bytes_eq(&self.used_nonces[i], nonce) {
                assert(self.spec_nonces()[i as int] == nonce@);
                return true;
            }
            i = i + 1;
        }
        assert forall|j: int| 0 <= j < self.spec_nonces().len() implies self.spec_nonces()[j] != nonce@ by {
            assert(self.spec_nonces()[j] == self.used_nonces@[j]@);
        }
        false
    }

    /// Enrol a Solana seed for `agent_id` (replacing an earlier enrolment of
    /// the same agent) and return the agent's new authorisation token.
    ///
    /// The seed is wrapped with the shared secret of a fresh Kyber-1024
    /// encapsulation and sealed to the vault's TEE measurement; the token is
    /// fresh from the operating system's entropy.
    pub fn enroll_key(&mut self, agent_id: &str, seed: [u8; 32]) -> (r: Result<AuthToken, VaultError>)
        requires
            old(self).wf(),
        ensures
            final(self).wf(),
            r matches Ok(token) && token.spec_bytes().len() == 32 && (final(self).spec_record(
                agent_id@,
            ) matches Some(rec) && rec.auth_token.spec_bytes() == token.spec_bytes()
                && rec.wrapped_seed@.len() == 32 && (exists|secret: Seq<u8>|
                secret.len() == 32 && rec.wrapped_seed@ == #[trigger] spec_wrap_seed(seed@, secret))
                && rec.public_key@ == spec_derived_pubkey(rec.wrapped_seed@)
                && rec.kyber_ciphertext@.len() == KYBER1024_CIPHERTEXT_BYTES
                && rec.kyber_pk_bytes@.len() == KYBER1024_PUBLIC_KEY_BYTES),
            forall|a: Seq<char>|
                a != agent_id@ ==> #[trigger] final(self).spec_record(a) == old(self).spec_record(a),
            final(self).spec_nonces() == old(self).spec_nonces(),
            final(self).spec_tee() == old(self).spec_tee(),
            final(self).spec_attestation_pk() == old(self).spec_attestation_pk(),
            final(self).spec_attestation_sk() == old(self).spec_attestation_sk(),
            spec_logged(old(self).spec_audit(), final(self).spec_audit(), "key_enrolled"@, agent_id@),
    {
        let (kyber_pk, _kyber_sk) = kyber1024_keypair();
        let (shared_secret, kyber_ct) = kyber1024_encapsulate(kyber_pk.as_slice());
        let auth_token = AuthToken::generate();
        let token = self.enroll_with_secret(
            agent_id,
            seed,
            shared_secret.as_slice(),
            kyber_ct,
            kyber_pk,
            auth_token,
        );
        Ok(token)
    }

    /// The enrolment once the KEM has run and the token is drawn: wrap the
    /// seed with the first 32 bytes of `shared_secret`, seal it, derive its
    /// public key and store the record for `agent_id`.
    pub fn enroll_with_secret(
        &mut self,
        agent_id: &str,
        seed: [u8; 32],
        shared_secret: &[u8],
        kyber_ciphertext: Vec<u8>,
        kyber_pk_bytes: Vec<u8>,
        auth_token: AuthToken,
    ) -> (r: AuthToken)
        requires
            old(self).wf(),
            shared_secret@.len() >= 32,
        ensures
            final(self).wf(),
            r.spec_bytes() == auth_token.spec_bytes(),
            final(self).spec_record(agent_id@) matches Some(rec) && rec.auth_token.spec_bytes()
                == auth_token.spec_bytes() && rec.wrapped_seed@ == spec_wrap_seed(seed@, shared_secret@)
                && rec.public_key@ == spec_derived_pubkey(rec.wrapped_seed@) && rec.tee_sealed_blob@
                == spec_sealed_bytes(old(self).spec_tee(), rec.wrapped_seed@) && rec.kyber_ciphertext@
                == kyber_ciphertext@ && rec.kyber_pk_bytes@ == kyber_pk_bytes@,
            forall|a: Seq<char>|
                a != agent_id@ ==> #[trigger] final(self).spec_record(a) == old(self).spec_record(a),
            final(self).spec_nonces() == old(self).spec_nonces(),
            final(self).spec_tee() == old(self).spec_tee(),
            final(self).spec_attestation_pk() == old(self).spec_attestation_pk(),
            final(self).spec_attestation_sk() == old(self).spec_attestation_sk(),
            spec_logged(old(self).spec_audit(), final(self).spec_audit(), "key_enrolled"@, agent_id@),
    {
        let mut seed = seed;
        let mut wrapped = [0u8; 32];
        let mut i: usize = 0;
        while i < 32
            invariant
                shared_secret@.len() >= 32,
                i <= 32,
                forall|j: int| 0 <= j < i ==> wrapped@[j] == seed@[j] ^ shared_secret@[j],
            decreases 32 - i,
        {
            wrapped[i] = seed[i] ^ shared_secret[i];
            i = i + 1;
        }
        assert(wrapped@ =~= spec_wrap_seed(seed@, shared_secret@));
        let mut k: usize = 0;
        while k < 32
            invariant
                k <= 32,
            decreases 32 - k,
        {
            seed[k] = 0;
            k = k + 1;
        }
        let sealed = self.tee.seal(&wrapped);
        proof {
            lemma_blob_bytes_roundtrip(sealed);
        }
        let sealed_bytes = sealed.into_bytes();
        let pubkey = derive_pubkey_from_wrapped(&wrapped);
        let token_copy = AuthToken::from_bytes(*auth_token.as_bytes());
        let record = KeyRecord {
            kyber_ciphertext,
            tee_sealed_blob: sealed_bytes,
            auth_token: token_copy,
            public_key: pubkey,
            kyber_pk_bytes,
            wrapped_seed: Ghost(wrapped@),
        };
        let ghost old_keys = self.spec_keys();
        let ghost rec = record;
        let ghost mut ja: int = 0;
        proof {
            assert(spec_record_ok(self.tee, rec));
        }
        match self.find_agent(agent_id) {
            Some(i) => {
                self.keys.set(i, (String::from_str(agent_id), record));
                proof {
                    assert(self.spec_keys() =~= old_keys.update(i as int, (agent_id@, rec)));
                    ja = i as int;
                }
            },
            None => {
                self.keys.push((String::from_str(agent_id), record));
                proof {
                    assert(self.spec_keys() =~= old_keys.push((agent_id@, rec)));
                    ja = old_keys.len() as int;
                }
            },
        }
        proof {
            let nk = self.spec_keys();
            assert(spec_unique_agents(nk)) by {
                assert forall|a: int, b: int| 0 <= a < b < nk.len() implies #[trigger] nk[a].0 != #[trigger] nk[b].0 by {
                    if a < old_keys.len() && b < old_keys.len() {
                        if nk[a] != old_keys[a] {
                            assert(nk[a].0 == agent_id@);
                            assert(old_keys[b].0 != old_keys[a].0);
                        } else if nk[b] != old_keys[b] {
                            assert(nk[b].0 == agent_id@);
                            assert(old_keys[a].0 != old_keys[b].0);
                        } else {
                            assert(old_keys[a].0 != old_keys[b].0);
                        }
                    }
                }
            }
            assert forall|j: int| 0 <= j < nk.len() implies spec_record_ok(self.spec_tee(), #[trigger] nk[j].1) by {
                if j < old_keys.len() && nk[j] == old_keys[j] {
                    assert(spec_record_ok(self.spec_tee(), old_keys[j].1));
                }
            }
            lemma_lookup_at(nk, ja);
            assert forall|a: Seq<char>| a != agent_id@ implies #[trigger] spec_lookup(nk, a) == spec_lookup(
                old_keys,
                a,
            ) by {
                if exists|j: int| 0 <= j < old_keys.len() && #[trigger] old_keys[j].0 == a {
                    let j = choose|j: int| 0 <= j < old_keys.len() && #[trigger] old_keys[j].0 == a;
                    lemma_lookup_at(old_keys, j);
                    assert(nk[j] == old_keys[j]);
                    lemma_lookup_at(nk, j);
                } else {
                    if exists|j: int| 0 <= j < nk.len() && #[trigger] nk[j].0 == a {
                        let j = choose|j: int| 0 <= j < nk.len() && #[trigger] nk[j].0 == a;
                        assert(j < old_keys.len() && nk[j] == old_keys[j]);
                    }
                }
            }
        }
        let ghost before = self.audit_log.entries@;
        self.audit_log.append("key_enrolled", agent_id);
        proof {
            lemma_append_keeps_chain_valid(before, self.audit_log.entries@);
        }
        auth_token
    }

    /// Sign a transaction for an enrolled agent.
    ///
    /// In order: the agent must be enrolled (else `AgentNotRegistered`), the
    /// nonce unspent (else `NonceReused`), and the proof a commitment under
    /// the agent's token over the proof's nonce, the agent's DID and the
    /// SHA-256 of the transaction (else `Unauthorized`).  Then the nonce is
    /// spent, the wrapped seed unsealed, the transaction signed with it and
    /// the response attested with Dilithium-3.  Every refusal and every
    /// signature is logged.
    pub fn sign_transaction(&mut self, request: SigningRequest) -> (r: Result<SigningResponse, VaultError>)
        requires
            old(self).wf(),
        ensures
            final(self).wf(),
            final(self).spec_tee() == old(self).spec_tee(),
            final(self).spec_keys() == old(self).spec_keys(),
            final(self).spec_attestation_pk() == old(self).spec_attestation_pk(),
            final(self).spec_attestation_sk() == old(self).spec_attestation_sk(),
            forall|n: Seq<u8>| old(self).spec_nonces().contains(n) ==> #[trigger] final(self).spec_nonces().contains(n),
            r matches Ok(resp) ==> resp.signed_transaction@.len() == 64 + request.transaction_bytes@.len(),
            old(self).spec_record(request.agent_id@) is None ==> (r matches Err(
                VaultError::AgentNotRegistered(a),
            ) && a@ == request.agent_id@) && final(self).spec_nonces() == old(self).spec_nonces()
                && final(self).spec_audit() == old(self).spec_audit(),
            old(self).spec_record(request.agent_id@) matches Some(rec) ==> {
                let digest = spec_sha256(request.transaction_bytes@);
                let authorized = request.auth_proof.commitment@ == spec_commitment(
                    rec.auth_token.spec_bytes(),
                    request.auth_proof.nonce@,
                    request.agent_id@,
                    digest,
                );
                let spent = old(self).spec_nonces().contains(request.nonce@);
                let signed = spec_tx_signature(rec.wrapped_seed@, request.transaction_bytes@)
                    + request.transaction_bytes@;
                &&& spent ==> r is Err && (r matches Err(e) && e is NonceReused) && final(self).spec_nonces()
                    == old(self).spec_nonces() && spec_logged(
                    old(self).spec_audit(),
                    final(self).spec_audit(),
                    "nonce_reuse_rejected"@,
                    request.agent_id@,
                )
                &&& !spent && !authorized ==> (r matches Err(VaultError::Unauthorized(m)) && m@
                    == "Authorization proof is invalid"@) && final(self).spec_nonces() == old(
                    self,
                ).spec_nonces() && spec_logged(
                    old(self).spec_audit(),
                    final(self).spec_audit(),
                    "auth_proof_rejected"@,
                    request.agent_id@,
                )
                &&& !spent && authorized ==> (r matches Ok(resp) && resp.signed_transaction@ == signed
                    && resp.signing_pubkey == rec.public_key && resp.vault_attestation@
                    == spec_dilithium3_sign(
                    spec_attestation_message(rec.public_key@, signed),
                    old(self).spec_attestation_sk(),
                ) && resp.vault_attestation_pubkey@ == old(self).spec_attestation_pk())
                    && final(self).spec_nonces() == old(self).spec_nonces().push(request.nonce@)
                    && spec_logged(
                    old(self).spec_audit(),
                    final(self).spec_audit(),
                    "signing_success"@,
                    request.agent_id@,
                )
            },
    {
        let idx = match self.find_agent(request.agent_id.as_str()) {
            Some(i) => i,
            None => {
                proof {
                    if exists|j: int|
                        0 <= j < self.spec_keys().len() && #[trigger] self.spec_keys()[j].0
                            == request.agent_id@ {
                        let j = choose|j: int|
                            0 <= j < self.spec_keys().len() && #[trigger] self.spec_keys()[j].0
                                == request.agent_id@;
                        assert(self.spec_keys()[j].0 != request.agent_id@);
                    }
                }
                return Err(VaultError::AgentNotRegistered(request.agent_id.clone()));
            },
        };
        proof {
            lemma_lookup_at(self.spec_keys(), idx as int);
            assert(self.spec_keys()[idx as int].1 == self.keys@[idx as int].1);
        }
        let ghost rec = self.keys@[idx as int].1;
        let ghost old_audit = self.audit_log.entries@;
        if self.nonce_spent(&request.nonce) {
            self.audit_log.append("nonce_reuse_rejected", request.agent_id.as_str());
            proof {
                lemma_append_keeps_chain_valid(old_audit, self.audit_log.entries@);
            }
            return Err(VaultError::NonceReused);
        }
        let digest = tx_digest(request.transaction_bytes.as_slice());
        match request.auth_proof.verify(&self.keys[idx].1.auth_token, request.agent_id.as_str(), &digest) {
            Ok(()) => {},
            Err(e) => {
                self.audit_log.append("auth_proof_rejected", request.agent_id.as_str());
                proof {
                    lemma_append_keeps_chain_valid(old_audit, self.audit_log.entries@);
                }
                return Err(VaultError::Unauthorized(e.to_message()));
            },
        }
        let ghost old_nonces = self.spec_nonces();
        self.used_nonces.push(request.nonce);
        proof {
            assert(self.spec_nonces() =~= old_nonces.push(request.nonce@));
            assert forall|n: Seq<u8>| old_nonces.contains(n) implies #[trigger] self.spec_nonces().contains(n) by {
                let j = choose|j: int| 0 <= j < old_nonces.len() && old_nonces[j] == n;
                assert(self.spec_nonces()[j] == n);
            }
            assert(self.spec_nonces()[old_nonces.len() as int] == request.nonce@);
        }
        let ghost m = self.tee.spec_measurement();
        let ghost pk = self.tee.spec_platform_key();
        let ghost key = spec_seal_key(m, pk);
        proof {
            assert(spec_record_ok(self.tee, rec)) by {
                assert(self.spec_keys()[idx as int].1 == rec);
            }
            let b = rec.tee_sealed_blob@;
            let mt = spec_measurement_tag(m, pk);
            let ct = spec_xor_stream(rec.wrapped_seed@, key);
            let at = spec_auth_tag(key, ct);
            assert(b == mt + at + ct);
            assert(b.subrange(0, 32) =~= mt);
            assert(b.subrange(32, 64) =~= at);
            assert(b.subrange(64, b.len() as int) =~= ct);
        }
        let sealed_blob = match SealedBlob::from_bytes(self.keys[idx].1.tee_sealed_blob.as_slice()) {
            Ok(b) => b,
            Err(e) => {
                return Err(VaultError::UnsealFailed(e.to_message()));
            },
        };
        proof {
            lemma_xor_stream_involution(rec.wrapped_seed@, key);
        }
        let wrapped = match self.tee.unseal(&sealed_blob) {
            Ok(w) => w,
            Err(e) => {
                return Err(VaultError::UnsealFailed(e.to_message()));
            },
        };
        if wrapped.len() < 32 {
            return Err(VaultError::InvalidKeySeed);
        }
        let mut seed = to_array32(vstd::slice::slice_subrange(wrapped.as_slice(), 0, 32));
        assert(seed@ =~= rec.wrapped_seed@);
        let signature = sign_with_seed(&seed, request.transaction_bytes.as_slice());
        let signing_pubkey = self.keys[idx].1.public_key;
        let mut k: usize = 0;
        while k < 32
            invariant
                k <= 32,
            decreases 32 - k,
        {
            seed[k] = 0;
            k = k + 1;
        }
        let mut signed_tx: Vec<u8> = Vec::new();
        extend_bytes(&mut signed_tx, &signature);
        extend_bytes(&mut signed_tx, request.transaction_bytes.as_slice());
        let mut attest_msg: Vec<u8> = Vec::new();
        extend_bytes(&mut attest_msg, &signing_pubkey);
        let tx_hash = sha256(signed_tx.as_slice());
        extend_bytes(&mut attest_msg, &tx_hash);
        let vault_attestation = dilithium3_sign(attest_msg.as_slice(), self.dilithium_sk.as_slice());
        let ghost before_log = self.audit_log.entries@;
        self.audit_log.append("signing_success", request.agent_id.as_str());
        proof {
            lemma_append_keeps_chain_valid(before_log, self.audit_log.entries@);
        }
        Ok(
            SigningResponse {
                signed_transaction: signed_tx,
                signing_pubkey,
                vault_attestation,
                vault_attestation_pubkey: bytes_to_vec(self.dilithium_pk.as_slice()),
            },
        )
    }

    /// Check a response's Dilithium-3 attestation outside the vault: the
    /// attestation must verify, under the public key the response carries,
    /// over the signing key and the SHA-256 of the signed transaction.
    pub fn verify_response_attestation(response: &SigningResponse) -> (r: bool)
        ensures
            r == spec_dilithium3_verify(
                response.vault_attestation@,
                spec_attestation_message(response.signing_pubkey@, response.signed_transaction@),
                response.vault_attestation_pubkey@,
            ),
    {
        let mut attest_msg: Vec<u8> = Vec::new();
        extend_bytes(&mut attest_msg, &response.signing_pubkey);
        let tx_hash = sha256(response.signed_transaction.as_slice());
        extend_bytes(&mut attest_msg, &tx_hash);
        dilithium3_verify(
            response.vault_attestation.as_slice(),
            attest_msg.as_slice(),
            response.vault_attestation_pubkey.as_slice(),
        )
    }

    /// The Dilithium-3 public key for checking response attestations.
    pub fn attestation_pubkey(&self) -> (r: Vec<u8>)
        ensures
            r@ == self.spec_attestation_pk(),
    {
        bytes_to_vec(self.dilithium_pk.as_slice())
    }
}

/// The public key of wrapped seed material.
fn derive_pubkey_from_wrapped(wrapped: &[u8; 32]) -> (r: [u8; 32])
    ensures
        r@ == spec_derived_pubkey(wrapped@),
{
    let mut buf: Vec<u8> = Vec::new();
    extend_bytes(&mut buf, "solana:ed25519:pubkey:v1:".as_bytes());
    extend_bytes(&mut buf, wrapped);
    sha256(buf.as_slice())
}

/// The 64-byte signature of `transaction_bytes` under `seed`.
fn sign_with_seed(seed: &[u8; 32], transaction_bytes: &[u8]) -> (r: [u8; 64])
    ensures
        r@ == spec_tx_signature(seed@, transaction_bytes@),
{
    let mut buf: Vec<u8> = Vec::new();
    extend_bytes(&mut buf, "solana:sign:v1:".as_bytes());
    extend_bytes(&mut buf, seed);
    extend_bytes(&mut buf, transaction_bytes);
    let half = sha256(buf.as_slice());
    let mut buf2: Vec<u8> = Vec::new();
    extend_bytes(&mut buf2, "solana:sign:v1:r2:".as_bytes());
    extend_bytes(&mut buf2, &half);
    extend_bytes(&mut buf2, transaction_bytes);
    let second = sha256(buf2.as_slice());
    let mut sig = [0u8; 64];
    let mut i: usize = 0;
    while i < 32
        invariant
            i <= 32,
            forall|j: int| 0 <= j < i ==> sig@[j] == half@[j],
        decreases 32 - i,
    {
        sig[i] = half[i];
        i = i + 1;
    }
    while i < 64
        invariant
            32 <= i <= 64,
            forall|j: int| 0 <= j < 32 ==> sig@[j] == half@[j],
            forall|j: int| 32 <= j < i ==> sig@[j] == second@[j - 32],
        decreases 64 - i,
    {
        sig[i] = second[i - 32];
        i = i + 1;
    }
    assert(sig@ =~= half@ + second@);
    sig
}

impl Default for SolanaKeyVault {
    fn default() -> (r: Self)
        ensures
            r.wf(),
            r.spec_keys().len() == 0,
            r.spec_nonces().len() == 0,
    {
        Self::new()
    }
}

/// A response whose attestation the vault made, over the response's own
/// signing key and signed transaction, with the vault's attestation key
/// pair, passes `verify_response_attestation`.
pub proof fn lemma_vault_attestation_verifies(vault: SolanaKeyVault, response: SigningResponse)
    requires
        vault.wf(),
        response.vault_attestation@ == spec_dilithium3_sign(
            spec_attestation_message(response.signing_pubkey@, response.signed_transaction@),
            vault.spec_attestation_sk(),
        ),
        response.vault_attestation_pubkey@ == vault.spec_attestation_pk(),
    ensures
        spec_dilithium3_verify(
            response.vault_attestation@,
            spec_attestation_message(response.signing_pubkey@, response.signed_transaction@),
            response.vault_attestation_pubkey@,
        ),
{
    let msg = spec_attestation_message(response.signing_pubkey@, response.signed_transaction@);
    assert(spec_dilithium3_verify(
        spec_dilithium3_sign(msg, vault.spec_attestation_sk()),
        msg,
        vault.spec_attestation_pk(),
    ));
}

/// A transaction signature is keyed by the signing seed: it begins with
/// SHA-256 over the domain tag "solana:sign:v1:", the seed and the
/// transaction bytes.  For two seeds of one length that differ, those
/// byte strings differ, so both seeds give one signature for the same
/// transaction (with first halves of one length) only if SHA-256 collides.
pub proof fn lemma_signature_keyed_by_seed(s1: Seq<u8>, s2: Seq<u8>, tx: Seq<u8>)
    ensures
        ({
            let f1 = spec_sha256(encode_utf8("solana:sign:v1:"@) + s1 + tx);
            spec_tx_signature(s1, tx).subrange(0, f1.len() as int) == f1
        }),
        s1.len() == s2.len() && s1 != s2 ==> encode_utf8("solana:sign:v1:"@) + s1 + tx
            != encode_utf8("solana:sign:v1:"@) + s2 + tx,
        ({
            let p1 = encode_utf8("solana:sign:v1:"@) + s1 + tx;
            let p2 = encode_utf8("solana:sign:v1:"@) + s2 + tx;
            s1.len() == s2.len() && s1 != s2 && spec_tx_signature(s1, tx) == spec_tx_signature(s2, tx)
                && spec_sha256(p1).len() == spec_sha256(p2).len() ==> spec_sha256_collision(p1, p2)
        }),
{
    let tag = encode_utf8("solana:sign:v1:"@);
    let p1 = tag + s1 + tx;
    let p2 = tag + s2 + tx;
    let f1 = spec_sha256(p1);
    let f2 = spec_sha256(p2);
    let sig1 = spec_tx_signature(s1, tx);
    let sig2 = spec_tx_signature(s2, tx);
    assert(sig1.subrange(0, f1.len() as int) =~= f1);
    assert(sig2.subrange(0, f2.len() as int) =~= f2);
    if s1.len() == s2.len() && s1 != s2 {
        let k = lemma_differing_position(s1, s2);
        assert(p1[tag.len() + k] == s1[k]);
        assert(p2[tag.len() + k] == s2[k]);
        lemma_differ_at(p1, p2, tag.len() + k);
        if sig1 == sig2 && f1.len() == f2.len() {
            assert(f1 =~= f2);
        }
    }
}

/// The derived public key is bound to the wrapped seed: it is SHA-256 over
/// the domain tag and the wrapped bytes, so two different wrapped seeds of
/// one length give the same key only if SHA-256 collides on those strings.
pub proof fn lemma_pubkey_binds_wrapped_seed(w1: Seq<u8>, w2: Seq<u8>)
    requires
        w1.len() == w2.len(),
        w1 != w2,
    ensures
        spec_derived_pubkey(w1) == spec_derived_pubkey(w2) ==> spec_sha256_collision(
            encode_utf8("solana:ed25519:pubkey:v1:"@) + w1,
            encode_utf8("solana:ed25519:pubkey:v1:"@) + w2,
        ),
{
    let tag = encode_utf8("solana:ed25519:pubkey:v1:"@);
    let k = lemma_differing_position(w1, w2);
    assert((tag + w1)[tag.len() + k] == w1[k]);
    assert((tag + w2)[tag.len() + k] == w2[k]);
    lemma_differ_at(tag + w1, tag + w2, tag.len() + k);
}

} // verus!
