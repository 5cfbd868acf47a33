//! The integer side of the BTC ↔ LIFE++ gateway: its service fee and the
//! satoshis left once the fee is taken.

use vstd::prelude::*;
use crate::lightning::invoice::{MilliSatoshi, Satoshi};

verus! {

/// Where an atomic swap stands.
#[derive(Debug, Clone, Copy, PartialEq, Eq, Structural)]
pub enum SwapState {
    Pending,
    Settled,
    Refunded,
}

/// The gateway's fee on `amount_sat` at `fee_permille` thousandths,
/// rounded down.
pub fn gateway_fee(amount_sat: Satoshi, fee_permille: u64) -> (r: Satoshi)
    requires
        amount_sat * fee_permille <= u64::MAX,
    ensures
        r == amount_sat * fee_permille / 1000,
        fee_permille <= 1000 ==> r <= amount_sat,
{
    let product = amount_sat * fee_permille;
    proof {
        if fee_permille <= 1000 {
            assert(amount_sat * fee_permille <= amount_sat * 1000) by (nonlinear_arith)
                requires
                    fee_permille <= 1000,
            ;
        }
    }
    product / 1000
}

/// What is left of `amount_sat` after the gateway's fee, never below zero.
pub fn net_after_fee(amount_sat: Satoshi, fee_permille: u64) -> (r: Satoshi)
    requires
        amount_sat * fee_permille <= u64::MAX,
    ensures
        r == if amount_sat * fee_permille / 1000 <= amount_sat {
            amount_sat - amount_sat * fee_permille / 1000
        } else {
            0
        },
        r <= amount_sat,
{
    let fee = gateway_fee(amount_sat, fee_permille);
    amount_sat.saturating_sub(fee)
}

/// The millisatoshis an on-ramp invoice asks for `sat_amount`: the amount
/// plus the gateway's fee on it, times a thousand; `None` where that does
/// not fit in 64 bits.
pub fn invoice_amount_msat(sat_amount: Satoshi, fee_permille: u64) -> (r: Option<MilliSatoshi>)
    requires
        sat_amount * fee_permille <= u64::MAX,
    ensures
        r is Some <==> (sat_amount + sat_amount * fee_permille / 1000) * 1000 <= u64::MAX,
        r matches Some(v) ==> v == (sat_amount + sat_amount * fee_permille / 1000) * 1000,
{
    let fee = gateway_fee(sat_amount, fee_permille);
    match sat_amount.checked_add(fee) {
        Some(total) => total.checked_mul(1000),
        None => {
            proof {
                assert((sat_amount + fee) * 1000 > u64::MAX) by (nonlinear_arith)
                    requires
                        sat_amount + fee > u64::MAX,
                ;
            }
            None
        },
    }
}

} // verus!
