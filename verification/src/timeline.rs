//! The cognitive hash timeline: an append-only chain of cognition nodes, each
//! naming the hash of the node before it.
//!
//! A node's hash is SHA-256 over its bincode (1.x, default options) encoding:
//! fields in declaration order, fixed-width little-endian integers, byte
//! arrays as their bytes, strings and vectors prefixed with their length as a
//! little-endian `u64`.

use vstd::prelude::*;
use vstd::utf8::encode_utf8;
use crate::bytes::{
    bytes_eq, extend_bytes, lemma_differ_at, lemma_differing_position, push_u64_le, u64_le_bytes,
};
use crate::digest::{sha256, spec_sha256, spec_sha256_collision};

verus! {

#[derive(Debug)]
pub enum TimelineError {
    AvalancheFailure,
}

pub type CogHash = [u8; 32];

#[derive(Debug, Clone)]
pub struct CogNode {
    pub previous_hash: CogHash,
    pub agent_did: String,
    pub ctx_payload_hash: CogHash,
    pub zk_cog_proof_commitment: Vec<u8>,
    pub timestamp: i64,
}

/// A byte string with its length as a little-endian `u64` in front.
pub open spec fn spec_len_prefixed(data: Seq<u8>) -> Seq<u8> {
    u64_le_bytes(data.len() as u64) + data
}

/// The bincode encoding of a node.
pub open spec fn spec_cog_node_bytes(n: CogNode) -> Seq<u8> {
    n.previous_hash@ + spec_len_prefixed(encode_utf8(n.agent_did@)) + n.ctx_payload_hash@
        + spec_len_prefixed(n.zk_cog_proof_commitment@) + u64_le_bytes(n.timestamp as u64)
}

/// The hash of a node.
pub open spec fn spec_cog_node_hash(n: CogNode) -> Seq<u8> {
    spec_sha256(spec_cog_node_bytes(n))
}

fn push_len_prefixed(buf: &mut Vec<u8>, data: &[u8])
    ensures
        final(buf)@ == old(buf)@ + spec_len_prefixed(data@),
{
    push_u64_le(buf, data.len() as u64);
    extend_bytes(buf, data);
    assert(final(buf)@ =~= old(buf)@ + spec_len_prefixed(data@));
}

impl CogNode {
    /// The bincode encoding of this node.
    pub fn encode(&self) -> (r: Vec<u8>)
        ensures
            r@ == spec_cog_node_bytes(*self),
    {
        let mut buf: Vec<u8> = Vec::new();
        extend_bytes(&mut buf, &self.previous_hash);
        push_len_prefixed(&mut buf, self.agent_did.as_str().as_bytes());
        extend_bytes(&mut buf, &self.ctx_payload_hash);
        push_len_prefixed(&mut buf, self.zk_cog_proof_commitment.as_slice());
        push_u64_le(&mut buf, self.timestamp as u64);
        assert(buf@ =~= spec_cog_node_bytes(*self));
        buf
    }

    /// SHA-256 over the node's encoding.
    pub fn calculate_hash(&self) -> (r: CogHash)
        ensures
            r@ == spec_cog_node_hash(*self),
    {
        let bytes = self.encode();
        sha256(bytes.as_slice())
    }
}

/// Entry `i` carries the hash of its node and, past the genesis node, names
/// the hash of entry `i - 1` as its predecessor.
pub open spec fn spec_link_ok(hashes: Seq<Seq<u8>>, nodes: Seq<CogNode>, i: int) -> bool {
    &&& hashes[i] == spec_cog_node_hash(nodes[i])
    &&& i > 0 ==> nodes[i].previous_hash@ == hashes[i - 1]
}

pub struct CognitiveHashTimeline {
    chain: Vec<(CogHash, CogNode)>,
}

impl CognitiveHashTimeline {
    /// The stored hashes, genesis first.
    pub closed spec fn spec_hashes(&self) -> Seq<Seq<u8>> {
        Seq::new(self.chain@.len(), |i: int| self.chain@[i].0@)
    }

    /// The stored nodes, genesis first.
    pub closed spec fn spec_nodes(&self) -> Seq<CogNode> {
        Seq::new(self.chain@.len(), |i: int| self.chain@[i].1)
    }

    /// The chain holds its genesis node, every hash is its node's hash, and
    /// every later node names its predecessor's hash.
    pub closed spec fn well_linked(&self) -> bool {
        &&& self.chain@.len() >= 1
        &&& forall|i: int|
            0 <= i < self.chain@.len() ==> #[trigger] spec_link_ok(
                self.spec_hashes(),
                self.spec_nodes(),
                i,
            )
    }

    /// The hash of the newest node.
    pub open spec fn spec_latest_hash(&self) -> Seq<u8> {
        self.spec_hashes().last()
    }

    /// A timeline holding only `genesis_node`.
    pub fn new(genesis_node: CogNode) -> (r: Self)
        ensures
            r.well_linked(),
            r.spec_nodes() == seq![genesis_node],
            r.spec_hashes() == seq![spec_cog_node_hash(genesis_node)],
    {
        let hash = genesis_node.calculate_hash();
        let mut chain: Vec<(CogHash, CogNode)> = Vec::new();
        chain.push((hash, genesis_node));
        let r = CognitiveHashTimeline { chain };
        assert(r.spec_nodes() =~= seq![genesis_node]);
        assert(r.spec_hashes() =~= seq![spec_cog_node_hash(genesis_node)]);
        assert(spec_link_ok(r.spec_hashes(), r.spec_nodes(), 0));
        r
    }

    /// Append `node` when it names the newest hash as its predecessor.
    pub fn anchor_cognition(&mut self, node: CogNode) -> (r: Result<CogHash, TimelineError>)
        requires
            old(self).well_linked(),
        ensures
            final(self).well_linked(),
            r is Err <==> node.previous_hash@ != old(self).spec_latest_hash(),
            r matches Err(e) ==> e is AvalancheFailure && final(self).spec_nodes() == old(
                self,
            ).spec_nodes() && final(self).spec_hashes() == old(self).spec_hashes(),
            r matches Ok(h) ==> h@ == spec_cog_node_hash(node) && final(self).spec_nodes() == old(
                self,
            ).spec_nodes().push(node) && final(self).spec_hashes() == old(
                self,
            ).spec_hashes().push(h@),
    {
        let latest = self.get_latest_hash();
        if !bytes_eq(&node.previous_hash, &latest) {
            return Err(TimelineError::AvalancheFailure);
        }
        let hash = node.calculate_hash();
        let ghost old_hashes = self.spec_hashes();
        let ghost old_nodes = self.spec_nodes();
        let ghost n = self.chain@.len();
        self.chain.push((hash, node));
        assert(self.spec_hashes() =~= old_hashes.push(hash@));
        assert(self.spec_nodes() =~= old_nodes.push(node));
        assert forall|i: int| 0 <= i < self.chain@.len() implies #[trigger] spec_link_ok(
            self.spec_hashes(),
            self.spec_nodes(),
            i,
        ) by {
            if i < n {
                assert(spec_link_ok(old_hashes, old_nodes, i));
            }
        }
        Ok(hash)
    }

    /// The hash of the newest node.
    pub fn get_latest_hash(&self) -> (r: CogHash)
        requires
            self.well_linked(),
        ensures
            r@ == self.spec_latest_hash(),
    {
        let n = self.chain.len();
        self.chain[n - 1].0
    }

    /// The number of nodes on the timeline, genesis included.
    pub fn len(&self) -> (r: usize)
        requires
            self.well_linked(),
        ensures
            r == self.spec_nodes().len(),
            r >= 1,
    {
        self.chain.len()
    }
}

/// On any timeline every node past the genesis node names the hash of the
/// node before it, and every stored hash is its node's hash.
pub proof fn lemma_timeline_linked(t: CognitiveHashTimeline, i: int)
    requires
        t.well_linked(),
        0 <= i < t.spec_nodes().len(),
    ensures
        t.spec_hashes()[i] == spec_cog_node_hash(t.spec_nodes()[i]),
        i > 0 ==> t.spec_nodes()[i].previous_hash@ == t.spec_hashes()[i - 1],
{
    assert(spec_link_ok(t.spec_hashes(), t.spec_nodes(), i));
}

/// A node's hash is bound to the hash it links to and to the payload hash
/// it anchors: the encoding begins with the previous hash, and the payload
/// hash follows the length-prefixed agent DID.  Two nodes that differ only
/// in one of these get the same hash only if SHA-256 collides on their
/// encodings, which then differ.
pub proof fn lemma_node_hash_binds_links(n: CogNode, prev: CogHash, payload: CogHash)
    ensures
        spec_cog_node_bytes(n).subrange(0, 32) == n.previous_hash@,
        ({
            let start = 32 + 8 + encode_utf8(n.agent_did@).len();
            spec_cog_node_bytes(n).subrange(start as int, start + 32int) == n.ctx_payload_hash@
        }),
        prev@ != n.previous_hash@ ==> spec_cog_node_bytes(n) != spec_cog_node_bytes(
            CogNode { previous_hash: prev, ..n },
        ),
        prev@ != n.previous_hash@ && spec_cog_node_hash(n) == spec_cog_node_hash(
            CogNode { previous_hash: prev, ..n },
        ) ==> spec_sha256_collision(
            spec_cog_node_bytes(n),
            spec_cog_node_bytes(CogNode { previous_hash: prev, ..n }),
        ),
        payload@ != n.ctx_payload_hash@ ==> spec_cog_node_bytes(n) != spec_cog_node_bytes(
            CogNode { ctx_payload_hash: payload, ..n },
        ),
        payload@ != n.ctx_payload_hash@ && spec_cog_node_hash(n) == spec_cog_node_hash(
            CogNode { ctx_payload_hash: payload, ..n },
        ) ==> spec_sha256_collision(
            spec_cog_node_bytes(n),
            spec_cog_node_bytes(CogNode { ctx_payload_hash: payload, ..n }),
        ),
{
    let x = spec_cog_node_bytes(n);
    let did = spec_len_prefixed(encode_utf8(n.agent_did@));
    assert(did.len() == 8 + encode_utf8(n.agent_did@).len());
    let start = 32 + did.len();
    assert(x.subrange(0, 32) =~= n.previous_hash@);
    assert forall|j: int| 0 <= j < 32 implies #[trigger] x[start + j] == n.ctx_payload_hash@[j] by {
        let p = n.previous_hash@ + did + n.ctx_payload_hash@;
        assert(p[start + j] == n.ctx_payload_hash@[j]);
    }
    assert(x.subrange(start as int, start + 32int) =~= n.ctx_payload_hash@);
    if prev@ != n.previous_hash@ {
        let y = spec_cog_node_bytes(CogNode { previous_hash: prev, ..n });
        let k = lemma_differing_position(n.previous_hash@, prev@);
        assert(y.subrange(0, 32) =~= prev@);
        assert(x.subrange(0, 32)[k] == x[k]);
        assert(y.subrange(0, 32)[k] == y[k]);
        lemma_differ_at(x, y, k);
    }
    if payload@ != n.ctx_payload_hash@ {
        let m = CogNode { ctx_payload_hash: payload, ..n };
        let y = spec_cog_node_bytes(m);
        let k = lemma_differing_position(n.ctx_payload_hash@, payload@);
        let p = n.previous_hash@ + did + payload@;
        assert(p[start + k] == payload@[k]);
        let q = n.previous_hash@ + did + n.ctx_payload_hash@;
        assert(q[start + k] == n.ctx_payload_hash@[k]);
        assert(y[start + k] == p[start + k]);
        assert(x[start + k] == q[start + k]);
        lemma_differ_at(x, y, start + k);
    }
}

} // verus!
