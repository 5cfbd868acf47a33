//! Physical resources of an edge robot as a bitmask, claimed all at once by
//! an intent and released when it finishes.  The runtime keeps the mask in
//! an atomic and applies these transitions with compare-and-swap.

use vstd::prelude::*;

verus! {

/// The chassis.
pub const RES_CHASSIS: u8 = 0b0000_0001;
/// The left arm.
pub const RES_LEFT_ARM: u8 = 0b0000_0010;
/// The right arm.
pub const RES_RIGHT_ARM: u8 = 0b0000_0100;
/// The tensor NPU.
pub const RES_TENSOR_NPU: u8 = 0b0000_1000;
/// The vision system.
pub const RES_VISION: u8 = 0b0001_0000;

/// A physical intent: the resources it needs and its payload.
#[derive(Debug, Clone)]
pub struct PhysicalIntent {
    pub intent_id: String,
    pub resource_mask: u8,
    pub tensor_payload: Vec<u8>,
}

/// The state after claiming every resource of `mask`, or `None` when one
/// of them is already held.
pub fn claim_resources(state: u8, mask: u8) -> (r: Option<u8>)
    ensures
        r is None <==> state & mask != 0,
        r matches Some(s) ==> s == state | mask,
{
    if state & mask != 0 {
        None
    } else {
        Some(state | mask)
    }
}

/// The state after releasing every resource of `mask`.
pub fn release_resources(state: u8, mask: u8) -> (r: u8)
    ensures
        r == state & !mask,
{
    state & !mask
}

/// Releasing what a successful claim took gives the state before the claim.
pub proof fn lemma_claim_then_release(state: u8, mask: u8)
    requires
        state & mask == 0,
    ensures
        (state | mask) & !mask == state,
{
    assert((state | mask) & !mask == state) by (bit_vector)
        requires
            state & mask == 0,
    ;
}

/// While a claim holds its resources, every claim that shares one of them
/// is refused.
pub proof fn lemma_claimed_resources_exclusive(state: u8, mask: u8, other: u8)
    requires
        mask & other != 0,
    ensures
        (state | mask) & other != 0,
{
    assert((state | mask) & other != 0) by (bit_vector)
        requires
            mask & other != 0,
    ;
}

} // verus!
