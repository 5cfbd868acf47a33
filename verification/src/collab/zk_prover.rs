//! Cognitive proofs (ZK-CogP): the prover refuses any witness that broke the
//! agreed cognitive boundary, and commits to the execution otherwise.
//!
//! ```text
//! commitment = SHA-256( H(intent) ‖ H(model) ‖ output_hash ‖ compute_be ‖ elapsed_be
//!                       ‖ max_compute_be ‖ max_time_be ‖ clearance )
//! ```
//!
//! The proof bytes are the commitment itself; a SNARK backend would replace
//! them without changing this interface.

use vstd::prelude::*;
use vstd::utf8::encode_utf8;
use crate::bytes::{
    bytes_eq, bytes_to_vec, extend_bytes, lemma_differ_at, lemma_differing_position, push_u64_be,
    u64_be_bytes,
};
use crate::collab::ctx_composer::CognitiveBoundary;
use crate::digest::{sha256, spec_sha256, spec_sha256_collision};
use crate::timeline::CogHash;

verus! {

#[derive(Debug)]
pub enum ZkCogpError {
    ComputeOverrun { used: u64, allowed: u64 },
    TimeOverrun { elapsed_ms: u64, allowed_ms: u64 },
    ClearanceInsufficient { required: u8, held: u8 },
    VerificationFailed,
}

/// Private execution witness, never transmitted.
pub struct CogWitness {
    pub model_id: String,
    pub intent: String,
    pub output_hash: CogHash,
    pub compute_units_used: u64,
    pub elapsed_ms: u64,
    pub seller_clearance_level: u8,
}

/// Public inputs that accompany a proof.
#[derive(Debug, Clone)]
pub struct CogPublicInputs {
    pub intent_hash: CogHash,
    pub model_hash: CogHash,
    pub output_hash: CogHash,
    pub boundary: CognitiveBoundary,
}

/// A cognitive proof artefact.
#[derive(Debug, Clone)]
pub struct CogProof {
    pub commitment: CogHash,
    pub public_inputs: CogPublicInputs,
    pub proof_bytes: Vec<u8>,
}

/// The bytes the commitment is computed over.
pub open spec fn spec_commitment_bytes(w: CogWitness, b: CognitiveBoundary) -> Seq<u8> {
    spec_sha256(encode_utf8(w.intent@)) + spec_sha256(encode_utf8(w.model_id@)) + w.output_hash@
        + u64_be_bytes(w.compute_units_used) + u64_be_bytes(w.elapsed_ms) + u64_be_bytes(
        b.max_compute_units,
    ) + u64_be_bytes(b.max_time_ms) + seq![b.safety_clearance_level]
}

/// The witness stayed within the boundary.
pub open spec fn spec_within_boundary(w: CogWitness, b: CognitiveBoundary) -> bool {
    &&& w.compute_units_used <= b.max_compute_units
    &&& w.elapsed_ms <= b.max_time_ms
    &&& w.seller_clearance_level >= b.safety_clearance_level
}

/// `p` is the proof generated for `w` under `b`: its commitment hashes the
/// witness and the boundary, its proof bytes are that commitment, and its
/// public inputs hash the intent and model and carry the output hash and
/// the boundary.
pub open spec fn spec_generated_proof(p: CogProof, w: CogWitness, b: CognitiveBoundary) -> bool {
    &&& spec_within_boundary(w, b)
    &&& p.commitment@ == spec_sha256(spec_commitment_bytes(w, b))
    &&& p.proof_bytes@ == p.commitment@
    &&& p.public_inputs.intent_hash@ == spec_sha256(encode_utf8(w.intent@))
    &&& p.public_inputs.model_hash@ == spec_sha256(encode_utf8(w.model_id@))
    &&& p.public_inputs.output_hash == w.output_hash
    &&& p.public_inputs.boundary == b
}

/// The verifier accepts a proof whose proof bytes are its commitment.
pub open spec fn spec_proof_accepted(p: CogProof) -> bool {
    p.proof_bytes@ == p.commitment@
}

pub struct CogPProver;

impl CogPProver {
    /// Generate a proof, or report the first boundary the witness broke:
    /// compute units, then time, then clearance.
    pub fn generate_proof(witness: &CogWitness, boundary: &CognitiveBoundary) -> (r: Result<
        CogProof,
        ZkCogpError,
    >)
        ensures
            r is Ok <==> spec_within_boundary(*witness, *boundary),
            witness.compute_units_used > boundary.max_compute_units ==> (r matches Err(
                ZkCogpError::ComputeOverrun { used, allowed },
            ) && used == witness.compute_units_used && allowed == boundary.max_compute_units),
            witness.compute_units_used <= boundary.max_compute_units && witness.elapsed_ms
                > boundary.max_time_ms ==> (r matches Err(
                ZkCogpError::TimeOverrun { elapsed_ms, allowed_ms },
            ) && elapsed_ms == witness.elapsed_ms && allowed_ms == boundary.max_time_ms),
            witness.compute_units_used <= boundary.max_compute_units && witness.elapsed_ms
                <= boundary.max_time_ms && witness.seller_clearance_level
                < boundary.safety_clearance_level ==> (r matches Err(
                ZkCogpError::ClearanceInsufficient { required, held },
            ) && required == boundary.safety_clearance_level && held
                == witness.seller_clearance_level),
            r matches Ok(p) ==> spec_generated_proof(p, *witness, *boundary),
    {
        if witness.compute_units_used > boundary.max_compute_units {
            return Err(
                ZkCogpError::ComputeOverrun {
                    used: witness.compute_units_used,
                    allowed: boundary.max_compute_units,
                },
            );
        }
        if witness.elapsed_ms > boundary.max_time_ms {
            return Err(
                ZkCogpError::TimeOverrun {
                    elapsed_ms: witness.elapsed_ms,
                    allowed_ms: boundary.max_time_ms,
                },
            );
        }
        if witness.seller_clearance_level < boundary.safety_clearance_level {
            return Err(
                ZkCogpError::ClearanceInsufficient {
                    required: boundary.safety_clearance_level,
                    held: witness.seller_clearance_level,
                },
            );
        }
        let intent_hash = Self::hash_bytes(witness.intent.as_str().as_bytes());
        let model_hash = Self::hash_bytes(witness.model_id.as_str().as_bytes());
        let public_inputs = CogPublicInputs {
            intent_hash,
            model_hash,
            output_hash: witness.output_hash,
            boundary: *boundary,
        };
        let mut buf: Vec<u8> = Vec::new();
        extend_bytes(&mut buf, &intent_hash);
        extend_bytes(&mut buf, &model_hash);
        extend_bytes(&mut buf, &witness.output_hash);
        push_u64_be(&mut buf, witness.compute_units_used);
        push_u64_be(&mut buf, witness.elapsed_ms);
        push_u64_be(&mut buf, boundary.max_compute_units);
        push_u64_be(&mut buf, boundary.max_time_ms);
        buf.push(boundary.safety_clearance_level);
        assert(buf@ =~= spec_commitment_bytes(*witness, *boundary));
        let commitment = sha256(buf.as_slice());
        let proof_bytes = bytes_to_vec(&commitment);
        Ok(CogProof { commitment, public_inputs, proof_bytes })
    }

    fn hash_bytes(data: &[u8]) -> (r: CogHash)
        ensures
            r@ == spec_sha256(data@),
    {
        sha256(data)
    }
}

pub struct CogPVerifier;

impl CogPVerifier {
    /// Accept a proof whose proof bytes are exactly its 32-byte commitment.
    pub fn verify(proof: &CogProof) -> (r: Result<(), ZkCogpError>)
        ensures
            r is Ok <==> spec_proof_accepted(*proof),
            r matches Err(e) ==> e is VerificationFailed,
    {
        if proof.proof_bytes.len() != 32 {
            return Err(ZkCogpError::VerificationFailed);
        }
        if !bytes_eq(proof.proof_bytes.as_slice(), &proof.commitment) {
            return Err(ZkCogpError::VerificationFailed);
        }
        Ok(())
    }
}

/// Every proof the prover produces for a witness and boundary passes the
/// verifier, and its public inputs bind the boundary it was made under.
pub proof fn lemma_generated_proof_verifies(p: CogProof, w: CogWitness, b: CognitiveBoundary)
    requires
        spec_generated_proof(p, w, b),
    ensures
        spec_proof_accepted(p),
        spec_within_boundary(w, p.public_inputs.boundary),
{
}

/// The commitment preimage carries the witness's output hash right after
/// the SHA-256 digests of the intent and of the model id.
pub proof fn lemma_commitment_carries_output(w: CogWitness, b: CognitiveBoundary)
    ensures
        ({
            let start = spec_sha256(encode_utf8(w.intent@)).len() + spec_sha256(encode_utf8(w.model_id@)).len();
            spec_commitment_bytes(w, b).subrange(start as int, start + 32int) == w.output_hash@
        }),
{
    let hi = spec_sha256(encode_utf8(w.intent@));
    let hm = spec_sha256(encode_utf8(w.model_id@));
    let start = hi.len() + hm.len();
    let c = spec_commitment_bytes(w, b);
    assert forall|j: int| 0 <= j < 32 implies #[trigger] c[start + j] == w.output_hash@[j] by {
        let p = hi + hm + w.output_hash@;
        assert(p[start + j] == w.output_hash@[j]);
    }
    assert(c.subrange(start as int, start + 32int) =~= w.output_hash@);
}

/// The proof binds the output it claims: for two witnesses that differ only
/// in their output hash, the commitment preimages differ, so proofs
/// generated for them under one boundary carry the same commitment only if
/// SHA-256 collides on those preimages.
pub proof fn lemma_commitment_binds_output(
    w1: CogWitness,
    o2: CogHash,
    b: CognitiveBoundary,
    p1: CogProof,
    p2: CogProof,
)
    requires
        w1.output_hash@ != o2@,
    ensures
        spec_commitment_bytes(w1, b) != spec_commitment_bytes(CogWitness { output_hash: o2, ..w1 }, b),
        spec_generated_proof(p1, w1, b) && spec_generated_proof(p2, CogWitness { output_hash: o2, ..w1 }, b)
            && p1.commitment@ == p2.commitment@ ==> spec_sha256_collision(
            spec_commitment_bytes(w1, b),
            spec_commitment_bytes(CogWitness { output_hash: o2, ..w1 }, b),
        ),
{
    let w2 = CogWitness { output_hash: o2, ..w1 };
    lemma_commitment_carries_output(w1, b);
    lemma_commitment_carries_output(w2, b);
    let k = lemma_differing_position(w1.output_hash@, o2@);
    let start = spec_sha256(encode_utf8(w1.intent@)).len() + spec_sha256(encode_utf8(w1.model_id@)).len();
    let c1 = spec_commitment_bytes(w1, b);
    let c2 = spec_commitment_bytes(w2, b);
    assert(c1.subrange(start as int, start + 32int)[k] == c1[start + k]);
    assert(c2.subrange(start as int, start + 32int)[k] == c2[start + k]);
    lemma_differ_at(c1, c2, start + k);
}

} // verus!
