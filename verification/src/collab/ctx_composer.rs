//! Cognitive transactions (CTx): drafting, fulfilment after physical
//! execution, and anchoring to the cognitive hash timeline.
//!
//! The settlement amount is carried as the IEEE-754 bit pattern of the
//! `f64` amount: the transaction logic only ever hashes its big-endian bytes,
//! which are the bytes of that bit pattern.

use vstd::prelude::*;
use vstd::utf8::encode_utf8;
use crate::bytes::{
    bytes_to_vec, extend_bytes, lemma_differ_at, lemma_differing_position, lemma_u64_be_bytes_injective,
    push_u64_be, u64_be_bytes,
};
use crate::digest::{hex_encode, sha256, spec_hex, spec_sha256, spec_sha256_collision, unix_time_nanos};
use crate::timeline::{spec_cog_node_hash, CogHash, CogNode, CognitiveHashTimeline, TimelineError};

verus! {

#[derive(Debug)]
pub enum CtxError {
    UnfinishedExecution,
    TimelineRejection(TimelineError),
}

/// Cognitive boundary: the most resources an agent may consume for a CTx.
#[derive(Debug, Clone, Copy, PartialEq, Eq, Structural)]
pub struct CognitiveBoundary {
    pub max_compute_units: u64,
    pub max_time_ms: u64,
    /// Safety clearance level, preventing unauthorised physical actions.
    pub safety_clearance_level: u8,
}

/// Settlement instruction: payment terms agreed by buyer and seller.
#[derive(Debug, Clone)]
pub struct SettlementInstruction {
    /// The amount, as the bit pattern of its `f64` value (`f64::to_bits`).
    pub amount_bits: u64,
    pub token_symbol: String,
    /// Buyer's cryptographic authorisation for this payment slice.
    pub buyer_signature: String,
}

/// The atomic unit of value exchange between agents.
#[derive(Debug, Clone)]
pub struct CognitiveTransaction {
    pub ctx_id: String,
    pub buyer_did: String,
    pub seller_did: String,
    pub intent_declaration: String,
    pub l0_kinetic_command_hash: Option<CogHash>,
    pub boundary: CognitiveBoundary,
    pub settlement: SettlementInstruction,
    pub is_executed: bool,
    pub execution_output_hash: Option<CogHash>,
    pub zk_proof_commitment: Option<Vec<u8>>,
    pub timestamp: i64,
}

/// The bytes the payload hash is computed over.
pub open spec fn spec_payload_bytes(ctx: CognitiveTransaction) -> Seq<u8> {
    encode_utf8(ctx.ctx_id@) + encode_utf8(ctx.buyer_did@) + encode_utf8(ctx.seller_did@)
        + encode_utf8(ctx.intent_declaration@) + u64_be_bytes(ctx.settlement.amount_bits)
        + encode_utf8(ctx.settlement.token_symbol@) + match ctx.execution_output_hash {
        Some(h) => h@,
        None => Seq::empty(),
    }
}

/// The payload hash of a CTx.
pub open spec fn spec_payload_hash(ctx: CognitiveTransaction) -> Seq<u8> {
    spec_sha256(spec_payload_bytes(ctx))
}

/// The content-derived identifier of a drafted CTx.
pub open spec fn spec_ctx_id(buyer: Seq<char>, seller: Seq<char>, intent: Seq<char>, timestamp: i64) -> Seq<char> {
    spec_hex(
        spec_sha256(
            encode_utf8(buyer) + encode_utf8(seller) + encode_utf8(intent) + u64_be_bytes(
                timestamp as u64,
            ),
        ),
    )
}

impl CognitiveTransaction {
    /// SHA-256 over ids, intent, amount, token and (when present) the
    /// execution output hash.
    pub fn calculate_payload_hash(&self) -> (r: CogHash)
        ensures
            r@ == spec_payload_hash(*self),
    {
        let mut buf: Vec<u8> = Vec::new();
        extend_bytes(&mut buf, self.ctx_id.as_str().as_bytes());
        extend_bytes(&mut buf, self.buyer_did.as_str().as_bytes());
        extend_bytes(&mut buf, self.seller_did.as_str().as_bytes());
        extend_bytes(&mut buf, self.intent_declaration.as_str().as_bytes());
        push_u64_be(&mut buf, self.settlement.amount_bits);
        extend_bytes(&mut buf, self.settlement.token_symbol.as_str().as_bytes());
        match &self.execution_output_hash {
            Some(h) => {
                extend_bytes(&mut buf, h);
            },
            None => {},
        }
        assert(buf@ =~= spec_payload_bytes(*self));
        sha256(buf.as_slice())
    }
}

/// CTx composer: the full lifecycle of a cognitive transaction.
pub struct CtxComposer;

impl CtxComposer {
    /// Step 1: draft a new CTx, stamped with the current time in
    /// nanoseconds (clamped to `i64::MAX`).
    pub fn draft_transaction(
        buyer_did: &str,
        seller_did: &str,
        intent: &str,
        boundary: CognitiveBoundary,
        settlement: SettlementInstruction,
    ) -> (r: CognitiveTransaction)
        ensures
            r.timestamp >= 0,
            r.ctx_id@ == spec_ctx_id(buyer_did@, seller_did@, intent@, r.timestamp),
            r.buyer_did@ == buyer_did@,
            r.seller_did@ == seller_did@,
            r.intent_declaration@ == intent@,
            r.l0_kinetic_command_hash is None,
            r.boundary == boundary,
            r.settlement == settlement,
            !r.is_executed,
            r.execution_output_hash is None,
            r.zk_proof_commitment is None,
    {
        let ns = unix_time_nanos();
        let timestamp: i64 = if ns > 9223372036854775807u128 {
            9223372036854775807i64
        } else {
            ns as i64
        };
        Self::draft_at(buyer_did, seller_did, intent, boundary, settlement, timestamp)
    }

    /// Draft a CTx stamped with `timestamp`.
    pub fn draft_at(
        buyer_did: &str,
        seller_did: &str,
        intent: &str,
        boundary: CognitiveBoundary,
        settlement: SettlementInstruction,
        timestamp: i64,
    ) -> (r: CognitiveTransaction)
        ensures
            r.timestamp == timestamp,
            r.ctx_id@ == spec_ctx_id(buyer_did@, seller_did@, intent@, timestamp),
            r.buyer_did@ == buyer_did@,
            r.seller_did@ == seller_did@,
            r.intent_declaration@ == intent@,
            r.l0_kinetic_command_hash is None,
            r.boundary == boundary,
            r.settlement == settlement,
            !r.is_executed,
            r.execution_output_hash is None,
            r.zk_proof_commitment is None,
    {
        let mut buf: Vec<u8> = Vec::new();
        extend_bytes(&mut buf, buyer_did.as_bytes());
        extend_bytes(&mut buf, seller_did.as_bytes());
        extend_bytes(&mut buf, intent.as_bytes());
        push_u64_be(&mut buf, timestamp as u64);
        let ctx_id = hex_encode(&sha256(buf.as_slice()));
        CognitiveTransaction {
            ctx_id,
            buyer_did: String::from_str(buyer_did),
            seller_did: String::from_str(seller_did),
            intent_declaration: String::from_str(intent),
            l0_kinetic_command_hash: None,
            boundary,
            settlement,
            is_executed: false,
            execution_output_hash: None,
            zk_proof_commitment: None,
            timestamp,
        }
    }

    /// Step 2: the seller fulfils the CTx after physical execution.
    pub fn fulfill_transaction(
        ctx: &mut CognitiveTransaction,
        actuator_id: &str,
        output_hash: CogHash,
        zk_proof: Vec<u8>,
    )
        ensures
            final(ctx).l0_kinetic_command_hash matches Some(h) && h@ == spec_sha256(
                encode_utf8(actuator_id@),
            ),
            final(ctx).execution_output_hash == Some(output_hash),
            final(ctx).zk_proof_commitment == Some(zk_proof),
            final(ctx).is_executed,
            final(ctx).ctx_id == old(ctx).ctx_id,
            final(ctx).buyer_did == old(ctx).buyer_did,
            final(ctx).seller_did == old(ctx).seller_did,
            final(ctx).intent_declaration == old(ctx).intent_declaration,
            final(ctx).boundary == old(ctx).boundary,
            final(ctx).settlement == old(ctx).settlement,
            final(ctx).timestamp == old(ctx).timestamp,
    {
        let cmd_hash = sha256(actuator_id.as_bytes());
        ctx.l0_kinetic_command_hash = Some(cmd_hash);
        ctx.execution_output_hash = Some(output_hash);
        ctx.zk_proof_commitment = Some(zk_proof);
        ctx.is_executed = true;
    }

    /// Step 3: distil an executed CTx into a node and anchor it to the
    /// timeline; an executed CTx is always accepted.
    pub fn finalize_and_anchor(ctx: &CognitiveTransaction, timeline: &mut CognitiveHashTimeline) -> (r:
        Result<CogHash, CtxError>)
        requires
            old(timeline).well_linked(),
        ensures
            final(timeline).well_linked(),
            !ctx.is_executed <==> r is Err,
            r matches Err(e) ==> e is UnfinishedExecution && final(timeline).spec_nodes() == old(
                timeline,
            ).spec_nodes() && final(timeline).spec_hashes() == old(timeline).spec_hashes(),
            r matches Ok(h) ==> {
                let node = final(timeline).spec_nodes().last();
                &&& final(timeline).spec_nodes() == old(timeline).spec_nodes().push(node)
                &&& final(timeline).spec_hashes() == old(timeline).spec_hashes().push(h@)
                &&& h@ == spec_cog_node_hash(node)
                &&& node.previous_hash@ == old(timeline).spec_latest_hash()
                &&& node.agent_did == ctx.seller_did
                &&& node.ctx_payload_hash@ == spec_payload_hash(*ctx)
                &&& node.zk_cog_proof_commitment@ == match ctx.zk_proof_commitment {
                    Some(v) => v@,
                    None => Seq::<u8>::empty(),
                }
                &&& node.timestamp == ctx.timestamp
            },
    {
        if !ctx.is_executed {
            return Err(CtxError::UnfinishedExecution);
        }
        let payload_hash = ctx.calculate_payload_hash();
        let previous_hash = timeline.get_latest_hash();
        let zk = match &ctx.zk_proof_commitment {
            Some(v) => bytes_to_vec(v.as_slice()),
            None => Vec::new(),
        };
        let node = CogNode {
            previous_hash,
            agent_did: ctx.seller_did.clone(),
            ctx_payload_hash: payload_hash,
            zk_cog_proof_commitment: zk,
            timestamp: ctx.timestamp,
        };
        let ghost g = node;
        match timeline.anchor_cognition(node) {
            Ok(h) => {
                assert(timeline.spec_nodes().last() == g);
                Ok(h)
            },
            Err(e) => Err(CtxError::TimelineRejection(e)),
        }
    }
}

/// The payload of an executed CTx is the payload of the same CTx before
/// execution followed by the 32 bytes of its execution output hash: the
/// payload hash commits to the output.
pub proof fn lemma_payload_ends_with_output(ctx: CognitiveTransaction, output: CogHash)
    ensures
        spec_payload_bytes(CognitiveTransaction { execution_output_hash: Some(output), ..ctx })
            == spec_payload_bytes(CognitiveTransaction { execution_output_hash: None, ..ctx }) + output@,
        spec_payload_bytes(CognitiveTransaction { execution_output_hash: Some(output), ..ctx }).len()
            == spec_payload_bytes(CognitiveTransaction { execution_output_hash: None, ..ctx }).len() + 32,
{
    let with = CognitiveTransaction { execution_output_hash: Some(output), ..ctx };
    let without = CognitiveTransaction { execution_output_hash: None, ..ctx };
    assert(spec_payload_bytes(without) + output@ =~= spec_payload_bytes(with));
}

/// Two CTxs that agree in everything but their execution output hash have
/// different payloads, so equal payload hashes for them would be a SHA-256
/// collision.
pub proof fn lemma_payload_binds_output(ctx: CognitiveTransaction, o1: CogHash, o2: CogHash)
    requires
        o1@ != o2@,
    ensures
        spec_payload_bytes(CognitiveTransaction { execution_output_hash: Some(o1), ..ctx })
            != spec_payload_bytes(CognitiveTransaction { execution_output_hash: Some(o2), ..ctx }),
        spec_payload_hash(CognitiveTransaction { execution_output_hash: Some(o1), ..ctx })
            == spec_payload_hash(CognitiveTransaction { execution_output_hash: Some(o2), ..ctx })
            ==> spec_sha256_collision(
            spec_payload_bytes(CognitiveTransaction { execution_output_hash: Some(o1), ..ctx }),
            spec_payload_bytes(CognitiveTransaction { execution_output_hash: Some(o2), ..ctx }),
        ),
{
    let base = spec_payload_bytes(CognitiveTransaction { execution_output_hash: None, ..ctx });
    lemma_payload_ends_with_output(ctx, o1);
    lemma_payload_ends_with_output(ctx, o2);
    let k = lemma_differing_position(o1@, o2@);
    let x = base + o1@;
    let y = base + o2@;
    assert(x[base.len() + k] == o1@[k]);
    assert(y[base.len() + k] == o2@[k]);
    lemma_differ_at(x, y, base.len() + k);
}

/// A CTx id hashes the buyer, seller and intent followed by the drafting
/// time as 8 big-endian bytes, so transactions drafted at different times
/// hash different byte strings.
pub proof fn lemma_ctx_id_binds_time(buyer: Seq<char>, seller: Seq<char>, intent: Seq<char>, t1: i64, t2: i64)
    requires
        t1 != t2,
    ensures
        spec_ctx_id(buyer, seller, intent, t1) == spec_hex(
            spec_sha256(encode_utf8(buyer) + encode_utf8(seller) + encode_utf8(intent) + u64_be_bytes(t1 as u64)),
        ),
        encode_utf8(buyer) + encode_utf8(seller) + encode_utf8(intent) + u64_be_bytes(t1 as u64)
            != encode_utf8(buyer) + encode_utf8(seller) + encode_utf8(intent) + u64_be_bytes(t2 as u64),
{
    let pre = encode_utf8(buyer) + encode_utf8(seller) + encode_utf8(intent);
    let a = t1 as u64;
    let b = t2 as u64;
    assert(a != b) by (bit_vector)
        requires
            t1 != t2,
            a == t1 as u64,
            b == t2 as u64,
    ;
    if u64_be_bytes(a) == u64_be_bytes(b) {
        lemma_u64_be_bytes_injective(a, b);
    }
    let k = lemma_differing_position(u64_be_bytes(a), u64_be_bytes(b));
    assert((pre + u64_be_bytes(a))[pre.len() + k] == u64_be_bytes(a)[k]);
    assert((pre + u64_be_bytes(b))[pre.len() + k] == u64_be_bytes(b)[k]);
    lemma_differ_at(pre + u64_be_bytes(a), pre + u64_be_bytes(b), pre.len() + k);
}

} // verus!
