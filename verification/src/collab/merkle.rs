//! Lightweight append-only Merkle tree for batching.
//!
//! The root of an empty tree is all zeros, of one leaf the leaf itself;
//! otherwise each level pairs neighbours, `SHA-256(left ‖ right)`, with an odd
//! last node paired with itself, until one node is left.

use vstd::prelude::*;
use crate::bytes::{extend_bytes, lemma_differ_at, lemma_differing_position};
use crate::digest::{sha256, spec_sha256, spec_sha256_collision};
use crate::tee::measurement::zero_digest;
use crate::timeline::CogHash;

verus! {

/// The views of a sequence of 32-byte hashes.
pub open spec fn spec_hash_views(s: Seq<CogHash>) -> Seq<Seq<u8>> {
    Seq::new(s.len(), |i: int| s[i]@)
}

/// The parent of nodes `2i` and `2i+1` (or `2i` twice when it is last).
pub open spec fn spec_parent(level: Seq<Seq<u8>>, i: int) -> Seq<u8> {
    let left = level[2 * i];
    let right = if 2 * i + 1 < level.len() {
        level[2 * i + 1]
    } else {
        level[2 * i]
    };
    spec_sha256(left + right)
}

/// The next level up.
pub open spec fn spec_next_level(level: Seq<Seq<u8>>) -> Seq<Seq<u8>> {
    Seq::new(((level.len() + 1) / 2) as nat, |i: int| spec_parent(level, i))
}

/// The root over a level.
pub open spec fn spec_merkle_root(level: Seq<Seq<u8>>) -> Seq<u8>
    decreases level.len(),
{
    if level.len() == 0 {
        zero_digest()
    } else if level.len() == 1 {
        level[0]
    } else {
        spec_merkle_root(spec_next_level(level))
    }
}

#[derive(Debug)]
pub struct ConcurrentMerkleTree {
    leaves: Vec<CogHash>,
}

impl ConcurrentMerkleTree {
    /// The leaves, oldest first.
    pub closed spec fn spec_leaves(&self) -> Seq<Seq<u8>> {
        spec_hash_views(self.leaves@)
    }

    pub fn new() -> (r: Self)
        ensures
            r.spec_leaves() == Seq::<Seq<u8>>::empty(),
    {
        let r = ConcurrentMerkleTree { leaves: Vec::new() };
        assert(r.spec_leaves() =~= Seq::<Seq<u8>>::empty());
        r
    }

    pub fn insert(&mut self, leaf: CogHash)
        ensures
            final(self).spec_leaves() == old(self).spec_leaves().push(leaf@),
    {
        self.leaves.push(leaf);
        assert(self.spec_leaves() =~= old(self).spec_leaves().push(leaf@));
    }

    pub fn len(&self) -> (r: usize)
        ensures
            r == self.spec_leaves().len(),
    {
        self.leaves.len()
    }

    pub fn is_empty(&self) -> (r: bool)
        ensures
            r == (self.spec_leaves().len() == 0),
    {
        self.leaves.len() == 0
    }

    /// The Merkle root over the leaves.
    pub fn root(&self) -> (r: CogHash)
        ensures
            r@ == spec_merkle_root(self.spec_leaves()),
    {
        if self.leaves.len() == 0 {
            let z = [0u8; 32];
            assert(z@ =~= zero_digest());
            return z;
        }
        let mut level: Vec<CogHash> = Vec::new();
        let mut k: usize = 0;
        while k < self.leaves.len()
            invariant
                k <= self.leaves@.len(),
                level@ == self.leaves@.subrange(0, k as int),
            decreases self.leaves@.len() - k,
        {
            level.push(self.leaves[k]);
            k = k + 1;
            assert(level@ =~= self.leaves@.subrange(0, k as int));
        }
        assert(level@ =~= self.leaves@);
        while level.len() > 1
            invariant
                level@.len() >= 1,
                spec_merkle_root(spec_hash_views(level@)) == spec_merkle_root(self.spec_leaves()),
            decreases level@.len(),
        {
            let next = next_level(&level);
            level = next;
        }
        assert(spec_hash_views(level@).len() == 1);
        level[0]
    }
}

fn hash_pair(left: &CogHash, right: &CogHash) -> (r: CogHash)
    ensures
        r@ == spec_sha256(left@ + right@),
{
    let mut buf: Vec<u8> = Vec::new();
    extend_bytes(&mut buf, left);
    extend_bytes(&mut buf, right);
    sha256(buf.as_slice())
}

fn next_level(level: &Vec<CogHash>) -> (r: Vec<CogHash>)
    requires
        level@.len() > 1,
    ensures
        spec_hash_views(r@) == spec_next_level(spec_hash_views(level@)),
        r@.len() < level@.len(),
        r@.len() >= 1,
{
    let ghost lv = spec_hash_views(level@);
    let n = level.len();
    let parents = n / 2 + n % 2;
    assert(parents == (lv.len() + 1) / 2);
    let mut next: Vec<CogHash> = Vec::new();
    let mut j: usize = 0;
    while j < parents
        invariant
            n == level@.len(),
            lv == spec_hash_views(level@),
            parents == (n + 1) / 2,
            j <= parents,
            next@.len() == j,
            forall|k: int| 0 <= k < next@.len() ==> #[trigger] next@[k]@ == spec_parent(lv, k),
        decreases parents - j,
    {
        let i = 2 * j;
        let left = level[i];
        let right = if i + 1 < n {
            level[i + 1]
        } else {
            level[i]
        };
        let h = hash_pair(&left, &right);
        assert(h@ == spec_parent(lv, j as int));
        next.push(h);
        j = j + 1;
    }
    assert(spec_hash_views(next@) =~= spec_next_level(lv));
    next
}

/// A parent node is bound to both children: it is SHA-256 of the left
/// child followed by the right one, so replacing either child by a
/// different one of the same length keeps the parent only if SHA-256
/// collides on the two concatenations.
pub proof fn lemma_parent_binds_children(l1: Seq<u8>, l2: Seq<u8>, r1: Seq<u8>, r2: Seq<u8>)
    requires
        l1.len() == l2.len(),
        r1.len() == r2.len(),
        l1 != l2 || r1 != r2,
    ensures
        spec_sha256(l1 + r1) == spec_sha256(l2 + r2) ==> spec_sha256_collision(l1 + r1, l2 + r2),
        spec_parent(seq![l1, r1], 0) == spec_sha256(l1 + r1),
{
    if l1 != l2 {
        let k = lemma_differing_position(l1, l2);
        assert((l1 + r1)[k] == l1[k]);
        assert((l2 + r2)[k] == l2[k]);
        lemma_differ_at(l1 + r1, l2 + r2, k);
    } else {
        let k = lemma_differing_position(r1, r2);
        assert((l1 + r1)[l1.len() + k] == r1[k]);
        assert((l2 + r2)[l2.len() + k] == r2[k]);
        lemma_differ_at(l1 + r1, l2 + r2, l1.len() + k);
    }
}

} // verus!
