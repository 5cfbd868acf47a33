//! Commitment scheme for agent authorisation.
//!
//! ```text
//! commitment = HMAC-SHA256(key = auth_token, msg = "zkcommit:v1:" ‖ nonce ‖ agent_id ‖ tx_digest)
//! ```
//!
//! The vault holds the same token and recomputes the commitment, so the raw
//! token never crosses the isolation boundary.

use vstd::prelude::*;
use vstd::utf8::encode_utf8;
use crate::bytes::{constant_time_eq, extend_bytes, lemma_differ_at, lemma_differing_position};
use crate::digest::{hex_encode, hmac_sha256, spec_hex, spec_hmac_sha256};

verus! {

/// Errors that can arise during commitment generation or verification.
#[derive(Debug)]
pub enum CommitmentError {
    KeyInit,
    VerificationFailed { expected: String, got: String },
}

impl CommitmentError {
    /// The human-readable description of the error.
    pub fn to_message(&self) -> (s: String)
        ensures
            self is KeyInit ==> s@ == "HMAC key initialisation failed"@,
            self matches CommitmentError::VerificationFailed { expected, got } ==> s@
                == "Commitment verification failed: expected "@ + expected@ + ", got "@ + got@,
    {
        match self {
            CommitmentError::KeyInit => String::from_str("HMAC key initialisation failed"),
            CommitmentError::VerificationFailed { expected, got } => {
                let mut s = String::from_str("Commitment verification failed: expected ");
                s.append(expected.as_str());
                s.append(", got ");
                s.append(got.as_str());
                s
            },
        }
    }
}

/// The message the commitment is computed over.
pub open spec fn spec_commit_message(nonce: Seq<u8>, agent_id: Seq<char>, tx_digest: Seq<u8>) -> Seq<u8> {
    encode_utf8("zkcommit:v1:"@) + nonce + encode_utf8(agent_id) + tx_digest
}

/// The commitment for a token, nonce, agent and transaction digest.
pub open spec fn spec_commitment(
    auth_token: Seq<u8>,
    nonce: Seq<u8>,
    agent_id: Seq<char>,
    tx_digest: Seq<u8>,
) -> Seq<u8> {
    spec_hmac_sha256(auth_token, spec_commit_message(nonce, agent_id, tx_digest))
}

/// `commitment` is the one for this token, nonce, agent and digest.
pub open spec fn spec_commitment_opens(
    auth_token: Seq<u8>,
    nonce: Seq<u8>,
    agent_id: Seq<char>,
    tx_digest: Seq<u8>,
    commitment: Seq<u8>,
) -> bool {
    commitment == spec_commitment(auth_token, nonce, agent_id, tx_digest)
}

/// What `commit` issues for a token, nonce, agent and digest verifies for
/// them, and no other 32 bytes do.
pub proof fn lemma_commitment_opens(
    auth_token: Seq<u8>,
    nonce: Seq<u8>,
    agent_id: Seq<char>,
    tx_digest: Seq<u8>,
    other: Seq<u8>,
)
    ensures
        spec_commitment_opens(
            auth_token,
            nonce,
            agent_id,
            tx_digest,
            spec_commitment(auth_token, nonce, agent_id, tx_digest),
        ),
        other != spec_commitment(auth_token, nonce, agent_id, tx_digest) ==> !spec_commitment_opens(
            auth_token,
            nonce,
            agent_id,
            tx_digest,
            other,
        ),
{
}

/// Stateless helper that issues and verifies HMAC-SHA256 commitments.
pub struct ZkCommitmentScheme;

impl ZkCommitmentScheme {
    /// Compute the 32-byte commitment.
    pub fn commit(
        auth_token: &[u8],
        nonce: &[u8; 32],
        agent_id: &str,
        tx_digest: &[u8; 32],
    ) -> (r: Result<[u8; 32], CommitmentError>)
        ensures
            r matches Ok(c) && c@ == spec_commitment(auth_token@, nonce@, agent_id@, tx_digest@),
    {
        let mut msg: Vec<u8> = Vec::new();
        extend_bytes(&mut msg, "zkcommit:v1:".as_bytes());
        extend_bytes(&mut msg, nonce);
        extend_bytes(&mut msg, agent_id.as_bytes());
        extend_bytes(&mut msg, tx_digest);
        match hmac_sha256(auth_token, msg.as_slice()) {
            Some(tag) => Ok(tag),
            None => Err(CommitmentError::KeyInit),
        }
    }

    /// Verify a commitment, comparing in constant time.
    pub fn verify(
        auth_token: &[u8],
        nonce: &[u8; 32],
        agent_id: &str,
        tx_digest: &[u8; 32],
        commitment: &[u8; 32],
    ) -> (r: Result<(), CommitmentError>)
        ensures
            r is Ok <==> spec_commitment_opens(auth_token@, nonce@, agent_id@, tx_digest@, commitment@),
            r matches Err(e) ==> e matches CommitmentError::VerificationFailed { expected, got }
                && expected@ == spec_hex(spec_commitment(auth_token@, nonce@, agent_id@, tx_digest@))
                && got@ == spec_hex(commitment@),
    {
        let expected = match Self::commit(auth_token, nonce, agent_id, tx_digest) {
            Ok(c) => c,
            Err(e) => {
                return Err(e);
            },
        };
        if !constant_time_eq(&expected, commitment) {
            return Err(CommitmentError::VerificationFailed {
                expected: hex_encode(&expected),
                got: hex_encode(commitment),
            });
        }
        Ok(())
    }
}

/// The committed message binds the nonce and the transaction digest: it is
/// the domain tag, the nonce, the agent DID and the digest in that order,
/// so changing the nonce, or the digest, to a different one of the same
/// length changes the message the HMAC is taken over.
pub proof fn lemma_commit_message_binds(
    nonce: Seq<u8>,
    nonce2: Seq<u8>,
    agent_id: Seq<char>,
    digest: Seq<u8>,
    digest2: Seq<u8>,
)
    ensures
        spec_commit_message(nonce, agent_id, digest) == encode_utf8("zkcommit:v1:"@) + nonce + encode_utf8(
            agent_id,
        ) + digest,
        nonce.len() == nonce2.len() && nonce != nonce2 ==> spec_commit_message(nonce, agent_id, digest)
            != spec_commit_message(nonce2, agent_id, digest),
        digest.len() == digest2.len() && digest != digest2 ==> spec_commit_message(nonce, agent_id, digest)
            != spec_commit_message(nonce, agent_id, digest2),
{
    let tag = encode_utf8("zkcommit:v1:"@);
    let a = encode_utf8(agent_id);
    if nonce.len() == nonce2.len() && nonce != nonce2 {
        let k = lemma_differing_position(nonce, nonce2);
        let x = spec_commit_message(nonce, agent_id, digest);
        let y = spec_commit_message(nonce2, agent_id, digest);
        assert((tag + nonce)[tag.len() + k] == nonce[k]);
        assert((tag + nonce2)[tag.len() + k] == nonce2[k]);
        assert(x[tag.len() + k] == (tag + nonce)[tag.len() + k]);
        assert(y[tag.len() + k] == (tag + nonce2)[tag.len() + k]);
        lemma_differ_at(x, y, tag.len() + k);
    }
    if digest.len() == digest2.len() && digest != digest2 {
        let k = lemma_differing_position(digest, digest2);
        let pre = tag + nonce + a;
        let x = spec_commit_message(nonce, agent_id, digest);
        let y = spec_commit_message(nonce, agent_id, digest2);
        assert(x[pre.len() + k] == digest[k]);
        assert(y[pre.len() + k] == digest2[k]);
        lemma_differ_at(x, y, pre.len() + k);
    }
}

} // verus!
