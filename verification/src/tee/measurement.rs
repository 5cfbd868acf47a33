//! Software measurement chain, the equivalent of TPM PCR-extend.
//!
//! ```text
//! digest[n+1] = SHA-256( digest[n] || SHA-256(component) )
//! ```
//!
//! The chain starts from the all-zero digest.  Order matters and every
//! component is folded in irrevocably.

use vstd::prelude::*;
use crate::bytes::{extend_bytes, lemma_differ_at, lemma_differing_position};
use crate::digest::{sha256, spec_sha256, spec_sha256_collision};

verus! {

/// Errors that can be returned by measurement operations.
#[derive(Debug)]
pub enum MeasurementError {
    EmptyChain,
}

/// The all-zero digest a chain starts from.
pub open spec fn zero_digest() -> Seq<u8> {
    Seq::new(32, |i: int| 0u8)
}

/// One PCR-extend step.
pub open spec fn spec_extend(digest: Seq<u8>, component: Seq<u8>) -> Seq<u8> {
    spec_sha256(digest + spec_sha256(component))
}

/// The digest after extending the zero digest with `components` in order.
pub open spec fn spec_chain_digest(components: Seq<Seq<u8>>) -> Seq<u8>
    decreases components.len(),
{
    if components.len() == 0 {
        zero_digest()
    } else {
        spec_extend(spec_chain_digest(components.drop_last()), components.last())
    }
}

/// A running software measurement chain.
#[derive(Clone, Debug)]
pub struct MeasurementChain {
    digest: [u8; 32],
    component_count: usize,
}

impl MeasurementChain {
    /// The current digest.
    pub closed spec fn spec_digest(&self) -> Seq<u8> {
        self.digest@
    }

    /// How many components have been extended in.
    pub closed spec fn spec_count(&self) -> nat {
        self.component_count as nat
    }

    /// A new chain in its all-zero initial state.
    pub fn new() -> (r: Self)
        ensures
            r.spec_digest() == zero_digest(),
            r.spec_count() == 0,
    {
        let r = Self { digest: [0u8; 32], component_count: 0 };
        assert(r.digest@ =~= zero_digest());
        r
    }

    /// Extend the chain with a new software component.
    pub fn extend(&mut self, component: &[u8])
        requires
            old(self).spec_count() < usize::MAX,
        ensures
            final(self).spec_digest() == spec_extend(old(self).spec_digest(), component@),
            final(self).spec_count() == old(self).spec_count() + 1,
    {
        let comp_hash = sha256(component);
        let mut buf: Vec<u8> = Vec::new();
        extend_bytes(&mut buf, &self.digest);
        extend_bytes(&mut buf, &comp_hash);
        assert(buf@ =~= self.digest@ + comp_hash@);
        self.digest = sha256(buf.as_slice());
        self.component_count = self.component_count + 1;
    }

    /// The current measurement digest.
    pub fn digest(&self) -> (r: [u8; 32])
        ensures
            r@ == self.spec_digest(),
    {
        self.digest
    }

    /// The number of components extended into the chain.
    pub fn component_count(&self) -> (r: usize)
        ensures
            r == self.spec_count(),
    {
        self.component_count
    }

    /// `true` when no component has been extended yet.
    pub fn is_empty(&self) -> (r: bool)
        ensures
            r == (self.spec_count() == 0),
    {
        self.component_count == 0
    }
}

impl Default for MeasurementChain {
    fn default() -> (r: Self)
        ensures
            r.spec_digest() == zero_digest(),
            r.spec_count() == 0,
    {
        Self::new()
    }
}

/// An extend step is bound to the digest it starts from: two different
/// starting digests of one length, extended with the same component, give
/// the same result only if SHA-256 collides on the two byte strings
/// start ‖ SHA-256(component).
pub proof fn lemma_extend_binds_prior_digest(d1: Seq<u8>, d2: Seq<u8>, component: Seq<u8>)
    requires
        d1.len() == d2.len(),
        d1 != d2,
    ensures
        spec_extend(d1, component) == spec_extend(d2, component) ==> spec_sha256_collision(
            d1 + spec_sha256(component),
            d2 + spec_sha256(component),
        ),
{
    let k = lemma_differing_position(d1, d2);
    let h = spec_sha256(component);
    assert((d1 + h)[k] == d1[k]);
    assert((d2 + h)[k] == d2[k]);
    lemma_differ_at(d1 + h, d2 + h, k);
}

/// An extend step is bound to the component: components whose digests
/// differ (in one length) give the same result from one starting digest
/// only if SHA-256 collides on start ‖ SHA-256(component) for the two.
pub proof fn lemma_extend_binds_component(d: Seq<u8>, c1: Seq<u8>, c2: Seq<u8>)
    requires
        spec_sha256(c1).len() == spec_sha256(c2).len(),
        spec_sha256(c1) != spec_sha256(c2),
    ensures
        spec_extend(d, c1) == spec_extend(d, c2) ==> spec_sha256_collision(
            d + spec_sha256(c1),
            d + spec_sha256(c2),
        ),
{
    let h1 = spec_sha256(c1);
    let h2 = spec_sha256(c2);
    let k = lemma_differing_position(h1, h2);
    assert((d + h1)[d.len() + k] == h1[k]);
    assert((d + h2)[d.len() + k] == h2[k]);
    lemma_differ_at(d + h1, d + h2, d.len() + k);
}

} // verus!
