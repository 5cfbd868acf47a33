//! The lifecycle of a tokenised hardware capacity bond: it is transferred
//! between holders while active, and settles once, either redeemed by its
//! holder at maturity or slashed.  The amounts it carries are kept by the
//! caller; here are the rules on who may do what, and when.

use vstd::prelude::*;
use crate::bytes::str_eq;

verus! {

/// Where a bond stands.
#[derive(Debug, Clone, Copy, PartialEq, Eq, Structural)]
pub enum BondStatus {
    /// Capacity is being committed to the network.
    Active,
    /// Redeemed by the holder at or after maturity.
    Redeemed,
    /// Force-slashed for operator misconduct.
    Slashed,
}

/// Why a bond operation was refused.
#[derive(Debug, Clone)]
pub enum BondRejection {
    /// The bond is no longer active.
    AlreadySettled,
    /// The named party is not the current holder.
    UnauthorisedTransfer(String),
    /// Redemption before the maturity epoch.
    NotYetMatured { current: u64, maturity: u64 },
}

/// Only the holder of an active bond may hand it on.
pub open spec fn spec_transfer_allowed(status: BondStatus, holder: Seq<char>, from: Seq<char>) -> bool {
    status == BondStatus::Active && holder == from
}

/// The status after a redemption by `caller` at `now`, when it is allowed:
/// the bond must be active, `caller` its holder, and `now` at or past
/// maturity.
pub open spec fn spec_redeem_next(
    status: BondStatus,
    holder: Seq<char>,
    caller: Seq<char>,
    maturity: u64,
    now: u64,
) -> Option<BondStatus> {
    if status == BondStatus::Active && holder == caller && now >= maturity {
        Some(BondStatus::Redeemed)
    } else {
        None
    }
}

/// The status after slashing, when it is allowed: only an active bond is.
pub open spec fn spec_slash_next(status: BondStatus) -> Option<BondStatus> {
    if status == BondStatus::Active {
        Some(BondStatus::Slashed)
    } else {
        None
    }
}

/// May `from_did` hand on a bond held by `holder_did`?
pub fn check_transfer(status: BondStatus, holder_did: &str, from_did: &str) -> (r: Result<(), BondRejection>)
    ensures
        r is Ok <==> spec_transfer_allowed(status, holder_did@, from_did@),
        status != BondStatus::Active ==> r matches Err(BondRejection::AlreadySettled),
        status == BondStatus::Active && holder_did@ != from_did@ ==> (r matches Err(
            BondRejection::UnauthorisedTransfer(d),
        ) && d@ == from_did@),
{
    if status != BondStatus::Active {
        return Err(BondRejection::AlreadySettled);
    }
    if !str_eq(holder_did, from_did) {
        return Err(BondRejection::UnauthorisedTransfer(String::from_str(from_did)));
    }
    Ok(())
}

/// The status after `caller_did` redeems at `current_epoch`, or why not.
pub fn redeem(
    status: BondStatus,
    holder_did: &str,
    caller_did: &str,
    maturity_epoch: u64,
    current_epoch: u64,
) -> (r: Result<BondStatus, BondRejection>)
    ensures
        r is Ok <==> spec_redeem_next(status, holder_did@, caller_did@, maturity_epoch, current_epoch)
            is Some,
        r matches Ok(s) ==> spec_redeem_next(status, holder_did@, caller_did@, maturity_epoch, current_epoch)
            == Some(s),
        status != BondStatus::Active ==> r matches Err(BondRejection::AlreadySettled),
        status == BondStatus::Active && holder_did@ != caller_did@ ==> (r matches Err(
            BondRejection::UnauthorisedTransfer(d),
        ) && d@ == caller_did@),
        status == BondStatus::Active && holder_did@ == caller_did@ && current_epoch < maturity_epoch
            ==> (r matches Err(BondRejection::NotYetMatured { current, maturity }) && current
            == current_epoch && maturity == maturity_epoch),
{
    if status != BondStatus::Active {
        return Err(BondRejection::AlreadySettled);
    }
    if !str_eq(holder_did, caller_did) {
        return Err(BondRejection::UnauthorisedTransfer(String::from_str(caller_did)));
    }
    if current_epoch < maturity_epoch {
        return Err(BondRejection::NotYetMatured { current: current_epoch, maturity: maturity_epoch });
    }
    Ok(BondStatus::Redeemed)
}

/// The status after slashing, or why not.
pub fn slash(status: BondStatus) -> (r: Result<BondStatus, BondRejection>)
    ensures
        r is Ok <==> spec_slash_next(status) is Some,
        r matches Ok(s) ==> spec_slash_next(status) == Some(s),
        status != BondStatus::Active ==> r matches Err(BondRejection::AlreadySettled),
{
    if status != BondStatus::Active {
        Err(BondRejection::AlreadySettled)
    } else {
        Ok(BondStatus::Slashed)
    }
}

/// A bond settles once: after a redemption or a slash has succeeded it is
/// no longer active, so every later transfer, redemption or slash is
/// refused (as already settled), whoever asks and whenever.
pub proof fn lemma_settled_bond_is_final(
    status: BondStatus,
    holder: Seq<char>,
    caller: Seq<char>,
    maturity: u64,
    now: u64,
    other: Seq<char>,
    later: u64,
)
    ensures
        spec_redeem_next(status, holder, caller, maturity, now) matches Some(s) ==> {
            &&& s != BondStatus::Active
            &&& !spec_transfer_allowed(s, holder, other)
            &&& spec_redeem_next(s, holder, other, maturity, later) is None
            &&& spec_slash_next(s) is None
        },
        spec_slash_next(status) matches Some(s) ==> {
            &&& s != BondStatus::Active
            &&& !spec_transfer_allowed(s, holder, other)
            &&& spec_redeem_next(s, holder, other, maturity, later) is None
            &&& spec_slash_next(s) is None
        },
{
}

} // verus!
