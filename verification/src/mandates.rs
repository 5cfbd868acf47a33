//! Admission of a seller's claim against a buyer's intent mandate: the
//! mandate must be active, not expired, and, when it names a seller, claimed
//! by that seller.  The cap on amounts is checked by the caller afterwards.

use vstd::prelude::*;
use crate::bytes::str_eq;

verus! {

/// Where a mandate stands.
#[derive(Debug, Clone, Copy, PartialEq, Eq, Structural)]
pub enum MandateStatus {
    /// Active, with balance left.
    Active,
    /// Fully consumed.
    Consumed,
    /// Revoked by the buyer before expiry.
    Revoked,
}

/// Why a claim was refused before its amount was looked at.
#[derive(Debug, Clone)]
pub enum ClaimRejection {
    /// The mandate is consumed or revoked.
    AlreadyConsumed,
    /// The claim came after the mandate's last valid epoch.
    Expired { expired_at: u64, now: u64 },
    /// The mandate is for another seller.
    SellerMismatch { expected: String, actual: String },
}

/// A claim by `seller` at `now` is admitted: the mandate is active, `now`
/// is not past `valid_until`, and the seller is the one named, if any.
pub open spec fn spec_claim_admitted(
    status: MandateStatus,
    valid_until: u64,
    restriction: Option<Seq<char>>,
    seller: Seq<char>,
    now: u64,
) -> bool {
    &&& status == MandateStatus::Active
    &&& now <= valid_until
    &&& (restriction matches Some(expected) ==> expected == seller)
}

/// The names a seller restriction holds, as text.
pub open spec fn spec_restriction(r: Option<String>) -> Option<Seq<char>> {
    match r {
        Some(s) => Some(s@),
        None => None,
    }
}

/// The verdict on a claim by `seller_did` at `current_epoch`, checks taken
/// in order: status, expiry, seller.
pub fn check_claim(
    status: MandateStatus,
    valid_until_epoch: u64,
    seller_restriction: &Option<String>,
    seller_did: &str,
    current_epoch: u64,
) -> (r: Result<(), ClaimRejection>)
    ensures
        r is Ok <==> spec_claim_admitted(
            status,
            valid_until_epoch,
            spec_restriction(*seller_restriction),
            seller_did@,
            current_epoch,
        ),
        status != MandateStatus::Active ==> r matches Err(ClaimRejection::AlreadyConsumed),
        status == MandateStatus::Active && current_epoch > valid_until_epoch ==> (r matches Err(
            ClaimRejection::Expired { expired_at, now },
        ) && expired_at == valid_until_epoch && now == current_epoch),
        status == MandateStatus::Active && current_epoch <= valid_until_epoch
            && seller_restriction is Some && seller_restriction->0@ != seller_did@ ==> (r matches Err(
            ClaimRejection::SellerMismatch { expected: e, actual: a },
        ) && e@ == seller_restriction->0@ && a@ == seller_did@),
{
    if status != MandateStatus::Active {
        return Err(ClaimRejection::AlreadyConsumed);
    }
    if current_epoch > valid_until_epoch {
        return Err(ClaimRejection::Expired { expired_at: valid_until_epoch, now: current_epoch });
    }
    match seller_restriction {
        Some(expected) => {
            if !str_eq(expected.as_str(), seller_did) {
                return Err(
                    ClaimRejection::SellerMismatch {
                        expected: expected.clone(),
                        actual: String::from_str(seller_did),
                    },
                );
            }
        },
        None => {},
    }
    Ok(())
}

/// A consumed or revoked mandate admits no claim again, by any seller at
/// any epoch; an open mandate (no seller named) admits every seller alike.
pub proof fn lemma_closed_mandate_admits_nothing(
    status: MandateStatus,
    valid_until: u64,
    restriction: Option<Seq<char>>,
    seller: Seq<char>,
    other: Seq<char>,
    now: u64,
)
    ensures
        status != MandateStatus::Active ==> !spec_claim_admitted(status, valid_until, restriction, seller, now),
        restriction is None ==> (spec_claim_admitted(status, valid_until, restriction, seller, now)
            == spec_claim_admitted(status, valid_until, restriction, other, now)),
{
}

} // verus!
