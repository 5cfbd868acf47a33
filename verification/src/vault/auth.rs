//! Agent authorisation tokens and HMAC commitment proofs.
//!
//! An [`AuthToken`] is a 32-byte secret shared between the vault operator and
//! one agent.  The agent never sends it; it sends an [`AgentAuthProof`], a
//! commitment the vault can check with its own copy of the token.

use vstd::prelude::*;
use crate::digest::{os_random_32, sha256, spec_sha256};
use crate::vault::zk_commitment::{spec_commitment, ZkCommitmentScheme};

verus! {

/// Errors produced during authorisation.
#[derive(Debug)]
pub enum AuthError {
    CommitmentBuild(String),
    InvalidProof,
    NonceReused,
}

impl AuthError {
    /// The human-readable description of the error.
    pub fn to_message(&self) -> (s: String)
        ensures
            self matches AuthError::CommitmentBuild(m) ==> s@ == "Commitment construction failed: "@ + m@,
            self is InvalidProof ==> s@ == "Authorization proof is invalid"@,
            self is NonceReused ==> s@ == "Nonce has already been used (replay attack detected)"@,
    {
        match self {
            AuthError::CommitmentBuild(m) => {
                let mut s = String::from_str("Commitment construction failed: ");
                s.append(m.as_str());
                s
            },
            AuthError::InvalidProof => String::from_str("Authorization proof is invalid"),
            AuthError::NonceReused => String::from_str(
                "Nonce has already been used (replay attack detected)",
            ),
        }
    }
}

/// A 32-byte authorisation token shared between the vault operator and one
/// agent.
#[derive(Clone)]
pub struct AuthToken(pub(crate) [u8; 32]);

impl AuthToken {
    /// The token bytes.
    pub closed spec fn spec_bytes(&self) -> Seq<u8> {
        self.0@
    }

    /// A fresh token from the operating system's random source.
    pub fn generate() -> (r: Self)
        ensures
            r.spec_bytes().len() == 32,
    {
        AuthToken(os_random_32())
    }

    /// A token from known bytes (testing or manual enrolment).
    pub fn from_bytes(bytes: [u8; 32]) -> (r: Self)
        ensures
            r.spec_bytes() == bytes@,
    {
        AuthToken(bytes)
    }

    /// The raw token bytes.
    pub fn as_bytes(&self) -> (r: &[u8; 32])
        ensures
            r@ == self.spec_bytes(),
    {
        &self.0
    }
}

/// An authorisation proof: a fresh nonce and the commitment over it.
#[derive(Debug, Clone)]
pub struct AgentAuthProof {
    /// Unique 32-byte value, fresh for every request.
    pub nonce: [u8; 32],
    /// HMAC-SHA256 commitment over (nonce, agent_id, tx_digest).
    pub commitment: [u8; 32],
}

/// `p` is the proof built from `token`, `nonce`, `agent_id` and `digest`:
/// it carries the nonce and the commitment over them.
pub open spec fn spec_proof_built(p: AgentAuthProof, token: Seq<u8>, nonce: Seq<u8>, agent_id: Seq<char>, digest: Seq<u8>) -> bool {
    &&& p.nonce@ == nonce
    &&& p.commitment@ == spec_commitment(token, nonce, agent_id, digest)
}

/// `verify` accepts `p` for `token`, `agent_id` and `digest`: its
/// commitment is the one over its own nonce.
pub open spec fn spec_proof_valid(p: AgentAuthProof, token: Seq<u8>, agent_id: Seq<char>, digest: Seq<u8>) -> bool {
    p.commitment@ == spec_commitment(token, p.nonce@, agent_id, digest)
}

impl AgentAuthProof {
    /// Build a proof from the agent's token, a fresh nonce, its DID and the
    /// SHA-256 digest of the transaction bytes.
    pub fn build(
        auth_token: &AuthToken,
        nonce: [u8; 32],
        agent_id: &str,
        tx_digest: &[u8; 32],
    ) -> (r: Result<Self, AuthError>)
        ensures
            r matches Ok(p) && spec_proof_built(p, auth_token.spec_bytes(), nonce@, agent_id@, tx_digest@),
    {
        match ZkCommitmentScheme::commit(auth_token.as_bytes(), &nonce, agent_id, tx_digest) {
            Ok(commitment) => Ok(AgentAuthProof { nonce, commitment }),
            Err(e) => Err(AuthError::CommitmentBuild(e.to_message())),
        }
    }

    /// Verify the proof against the vault's copy of the token.
    pub fn verify(&self, auth_token: &AuthToken, agent_id: &str, tx_digest: &[u8; 32]) -> (r:
        Result<(), AuthError>)
        ensures
            r is Ok <==> spec_proof_valid(*self, auth_token.spec_bytes(), agent_id@, tx_digest@),
            r matches Err(e) ==> e is InvalidProof,
    {
        match ZkCommitmentScheme::verify(
            auth_token.as_bytes(),
            &self.nonce,
            agent_id,
            tx_digest,
            &self.commitment,
        ) {
            Ok(()) => Ok(()),
            Err(_) => Err(AuthError::InvalidProof),
        }
    }
}

/// The SHA-256 digest of transaction bytes, as included in an auth proof.
pub fn tx_digest(tx_bytes: &[u8]) -> (r: [u8; 32])
    ensures
        r@ == spec_sha256(tx_bytes@),
{
    sha256(tx_bytes)
}

/// A proof built with a token, a nonce, an agent DID and a digest passes
/// `verify` with the same token, agent DID and digest; a proof whose
/// commitment is any other value fails it.
pub proof fn lemma_build_then_verify(
    built: AgentAuthProof,
    token: Seq<u8>,
    nonce: Seq<u8>,
    agent_id: Seq<char>,
    digest: Seq<u8>,
    forged: AgentAuthProof,
)
    requires
        spec_proof_built(built, token, nonce, agent_id, digest),
    ensures
        spec_proof_valid(built, token, agent_id, digest),
        forged.nonce@ == built.nonce@ && forged.commitment@ != built.commitment@ ==> !spec_proof_valid(
            forged,
            token,
            agent_id,
            digest,
        ),
{
}

} // verus!
