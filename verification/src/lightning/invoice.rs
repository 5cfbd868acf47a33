//! Simplified BOLT-11 invoices: payment hash, amount in millisatoshi,
//! expiry, payee and description.

use vstd::prelude::*;
use crate::bytes::bytes_eq;
use crate::digest::{hex_encode, sha256, spec_hex, spec_sha256};
use crate::text::{spec_decimal, u64_to_decimal};

verus! {

/// Millisatoshi, the smallest Lightning unit.
pub type MilliSatoshi = u64;

/// Satoshi, the smallest on-chain unit.
pub type Satoshi = u64;

/// 1 BTC = 100_000_000 sat.
pub const SATS_PER_BTC: Satoshi = 100_000_000;

/// 1 sat = 1_000 msat.
pub const MSAT_PER_SAT: MilliSatoshi = 1_000;

#[derive(Debug, PartialEq, Eq, Structural)]
pub enum InvoiceError {
    Expired,
    AmountMismatch { expected: MilliSatoshi, actual: MilliSatoshi },
    InvalidPreimage,
    ZeroAmount,
}

/// A simplified BOLT-11 invoice.
#[derive(Debug, Clone)]
pub struct BoltInvoice {
    /// SHA-256(payment_preimage).
    pub payment_hash: [u8; 32],
    pub amount_msat: MilliSatoshi,
    pub expiry_seconds: u64,
    pub payee_id: String,
    pub description: String,
    /// Creation time, UNIX seconds.
    pub created_at: u64,
}

/// The end of the validity window, saturating at `u64::MAX`.
pub open spec fn spec_expiry_end(created_at: u64, expiry_seconds: u64) -> int {
    if created_at + expiry_seconds > u64::MAX {
        u64::MAX as int
    } else {
        created_at + expiry_seconds
    }
}

impl BoltInvoice {
    /// The invoice is still payable at `now_secs`.
    pub open spec fn spec_valid_at(&self, now_secs: u64) -> bool {
        now_secs < spec_expiry_end(self.created_at, self.expiry_seconds)
    }

    /// An invoice for `preimage`; a zero amount is refused.
    pub fn new(
        preimage: &[u8; 32],
        amount_msat: MilliSatoshi,
        expiry_seconds: u64,
        payee_id: &str,
        description: &str,
        created_at: u64,
    ) -> (r: Result<Self, InvoiceError>)
        ensures
            amount_msat == 0 <==> r is Err,
            r matches Err(e) ==> e == InvoiceError::ZeroAmount,
            r matches Ok(inv) ==> {
                &&& inv.payment_hash@ == spec_sha256(preimage@)
                &&& inv.amount_msat == amount_msat
                &&& inv.expiry_seconds == expiry_seconds
                &&& inv.payee_id@ == payee_id@
                &&& inv.description@ == description@
                &&& inv.created_at == created_at
            },
    {
        if amount_msat == 0 {
            return Err(InvoiceError::ZeroAmount);
        }
        let payment_hash = Self::hash_preimage(preimage);
        Ok(BoltInvoice {
            payment_hash,
            amount_msat,
            expiry_seconds,
            payee_id: String::from_str(payee_id),
            description: String::from_str(description),
            created_at,
        })
    }

    /// Still valid at `now_secs`: before `created_at + expiry_seconds`.
    pub fn is_valid_at(&self, now_secs: u64) -> (r: bool)
        ensures
            r == self.spec_valid_at(now_secs),
    {
        now_secs < self.created_at.saturating_add(self.expiry_seconds)
    }

    /// The verdict on a payment: expiry first, then the preimage, then the
    /// amount.
    pub open spec fn spec_payment_check(
        &self,
        preimage: Seq<u8>,
        paid_msat: MilliSatoshi,
        now_secs: u64,
    ) -> Result<(), InvoiceError> {
        if !self.spec_valid_at(now_secs) {
            Err(InvoiceError::Expired)
        } else if spec_sha256(preimage) != self.payment_hash@ {
            Err(InvoiceError::InvalidPreimage)
        } else if paid_msat < self.amount_msat {
            Err(InvoiceError::AmountMismatch { expected: self.amount_msat, actual: paid_msat })
        } else {
            Ok(())
        }
    }

    /// Check a payment: not expired, right preimage, at least the amount.
    pub fn verify_payment(&self, preimage: &[u8; 32], paid_msat: MilliSatoshi, now_secs: u64) -> (r:
        Result<(), InvoiceError>)
        ensures
            r == self.spec_payment_check(preimage@, paid_msat, now_secs),
            !self.spec_valid_at(now_secs) ==> r == Err::<(), InvoiceError>(InvoiceError::Expired),
            self.spec_valid_at(now_secs) && spec_sha256(preimage@) != self.payment_hash@ ==> r
                == Err::<(), InvoiceError>(InvoiceError::InvalidPreimage),
            self.spec_valid_at(now_secs) && spec_sha256(preimage@) == self.payment_hash@
                && paid_msat < self.amount_msat ==> r == Err::<(), InvoiceError>(
                InvoiceError::AmountMismatch { expected: self.amount_msat, actual: paid_msat },
            ),
            self.spec_valid_at(now_secs) && spec_sha256(preimage@) == self.payment_hash@
                && paid_msat >= self.amount_msat ==> r is Ok,
    {
        if !self.is_valid_at(now_secs) {
            return Err(InvoiceError::Expired);
        }
        let h = Self::hash_preimage(preimage);
        if !bytes_eq(&h, &self.payment_hash) {
            return Err(InvoiceError::InvalidPreimage);
        }
        if paid_msat < self.amount_msat {
            return Err(
                InvoiceError::AmountMismatch { expected: self.amount_msat, actual: paid_msat },
            );
        }
        Ok(())
    }

    /// The amount in whole satoshi, the millisatoshi remainder dropped.
    pub fn amount_sats(&self) -> (r: Satoshi)
        ensures
            r == self.amount_msat / 1000,
    {
        self.amount_msat / MSAT_PER_SAT
    }

    fn hash_preimage(preimage: &[u8; 32]) -> (r: [u8; 32])
        ensures
            r@ == spec_sha256(preimage@),
    {
        sha256(preimage)
    }
}

/// A human-readable summary in the style of an `lnbc…` encoding:
/// `lnbc{amount}msat 1p{first 4 hash bytes in hex} | {description} | expires in {expiry}s`.
pub fn invoice_summary(inv: &BoltInvoice) -> (s: String)
    ensures
        s@ == "lnbc"@ + spec_decimal(inv.amount_msat as nat) + "msat 1p"@ + spec_hex(
            inv.payment_hash@.subrange(0, 4),
        ) + " | "@ + inv.description@ + " | expires in "@ + spec_decimal(
            inv.expiry_seconds as nat,
        ) + "s"@,
{
    let prefix = vstd::slice::slice_subrange(&inv.payment_hash, 0, 4);
    let hash_prefix = hex_encode(prefix);
    let mut s = String::from_str("lnbc");
    s.append(u64_to_decimal(inv.amount_msat).as_str());
    s.append("msat 1p");
    s.append(hash_prefix.as_str());
    s.append(" | ");
    s.append(inv.description.as_str());
    s.append(" | expires in ");
    s.append(u64_to_decimal(inv.expiry_seconds).as_str());
    s.append("s");
    s
}

/// Until its expiry (creation time plus lifetime, saturating), an invoice
/// made for a preimage accepts that preimage for at least its amount,
/// names the shortfall of a smaller payment, and refuses every preimage
/// whose hash differs.
pub proof fn lemma_invoice_accepts_its_preimage(
    inv: BoltInvoice,
    preimage: Seq<u8>,
    other: Seq<u8>,
    paid_msat: MilliSatoshi,
    now_secs: u64,
)
    requires
        inv.payment_hash@ == spec_sha256(preimage),
        now_secs < spec_expiry_end(inv.created_at, inv.expiry_seconds),
    ensures
        paid_msat >= inv.amount_msat ==> inv.spec_payment_check(preimage, paid_msat, now_secs) is Ok,
        paid_msat < inv.amount_msat ==> inv.spec_payment_check(preimage, paid_msat, now_secs)
            == Err::<(), InvoiceError>(
            InvoiceError::AmountMismatch { expected: inv.amount_msat, actual: paid_msat },
        ),
        spec_sha256(other) != spec_sha256(preimage) ==> inv.spec_payment_check(
            other,
            paid_msat,
            now_secs,
        ) == Err::<(), InvoiceError>(InvoiceError::InvalidPreimage),
{
}

} // verus!
