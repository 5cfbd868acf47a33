//! BTC-denominated bidirectional payment channel (after BOLT-2).
//!
//! ```text
//!  [funding] ──► Open ──► [HTLC micro-payments] ──► Closed ──► [settlement]
//! ```
//!
//! Balances are in satoshi.  Every HTLC update advances the commitment
//! number, as `commitment_signed` does.

use vstd::prelude::*;
use vstd::utf8::encode_utf8;
use crate::bytes::{bytes_eq, bytes_less, bytes_lt, extend_bytes};
use crate::digest::{hex_encode, sha256, spec_hex, spec_sha256};
use crate::lightning::invoice::Satoshi;
use crate::text::{spec_decimal, u64_to_decimal};

verus! {

#[derive(Debug, PartialEq)]
pub enum ChannelError {
    NotOpen(String),
    InsufficientBalance { holder: String, available: Satoshi, needed: Satoshi },
    HtlcError,
    CommitmentOverflow,
}

/// The description of a channel error.
pub open spec fn spec_channel_error_message(e: ChannelError) -> Seq<char> {
    match e {
        ChannelError::NotOpen(state) => "Channel is not open (state: "@ + state@ + ")"@,
        ChannelError::InsufficientBalance { holder, available, needed } => "Insufficient balance: "@
            + holder@ + " has "@ + spec_decimal(available as nat) + " sat, needs "@ + spec_decimal(
            needed as nat,
        ) + " sat"@,
        ChannelError::HtlcError => "HTLC not found or preimage mismatch"@,
        ChannelError::CommitmentOverflow => "Commitment number overflow"@,
    }
}

impl ChannelError {
    /// The human-readable description of the error.
    pub fn to_message(&self) -> (s: String)
        ensures
            s@ == spec_channel_error_message(*self),
    {
        match self {
            ChannelError::NotOpen(state) => {
                let mut s = String::from_str("Channel is not open (state: ");
                s.append(state.as_str());
                s.append(")");
                s
            },
            ChannelError::InsufficientBalance { holder, available, needed } => {
                let mut s = String::from_str("Insufficient balance: ");
                s.append(holder.as_str());
                s.append(" has ");
                let a = u64_to_decimal(*available);
                s.append(a.as_str());
                s.append(" sat, needs ");
                let n = u64_to_decimal(*needed);
                s.append(n.as_str());
                s.append(" sat");
                s
            },
            ChannelError::HtlcError => String::from_str("HTLC not found or preimage mismatch"),
            ChannelError::CommitmentOverflow => String::from_str("Commitment number overflow"),
        }
    }
}

/// Payment channel lifecycle.
#[derive(Debug, Clone, PartialEq, Eq, Structural)]
pub enum ChannelState {
    Open,
    Closing,
    Closed,
    Slashed,
}

/// The display name of a state.
pub open spec fn spec_state_name(s: ChannelState) -> Seq<char> {
    match s {
        ChannelState::Open => "Open"@,
        ChannelState::Closing => "Closing"@,
        ChannelState::Closed => "Closed"@,
        ChannelState::Slashed => "Slashed"@,
    }
}

impl ChannelState {
    /// The display name of the state.
    pub fn to_string(&self) -> (s: String)
        ensures
            s@ == spec_state_name(*self),
    {
        match self {
            ChannelState::Open => String::from_str("Open"),
            ChannelState::Closing => String::from_str("Closing"),
            ChannelState::Closed => String::from_str("Closed"),
            ChannelState::Slashed => String::from_str("Slashed"),
        }
    }
}

/// A pending hash-time-locked contract (`update_add_htlc`).
#[derive(Debug, Clone)]
pub struct LnHtlc {
    pub htlc_id: u64,
    /// SHA-256(preimage).
    pub payment_hash: [u8; 32],
    pub amount_sat: Satoshi,
    pub expiry_blocks: u32,
    pub recipient_id: String,
    /// `true` when the local side offered it (its amount came from the
    /// local balance), `false` when the remote side did.
    pub offered_by_local: bool,
}

impl LnHtlc {
    /// An HTLC locked to `SHA-256(preimage)`, offered by the local side.
    pub fn new(
        htlc_id: u64,
        preimage: &[u8; 32],
        amount_sat: Satoshi,
        expiry_blocks: u32,
        recipient_id: &str,
    ) -> (r: Self)
        ensures
            r.htlc_id == htlc_id,
            r.payment_hash@ == spec_sha256(preimage@),
            r.amount_sat == amount_sat,
            r.expiry_blocks == expiry_blocks,
            r.recipient_id@ == recipient_id@,
            r.offered_by_local,
    {
        LnHtlc {
            htlc_id,
            payment_hash: sha256(preimage),
            amount_sat,
            expiry_blocks,
            recipient_id: String::from_str(recipient_id),
            offered_by_local: true,
        }
    }

    /// `true` when `preimage` hashes to the payment hash.
    pub fn verify_preimage(&self, preimage: &[u8; 32]) -> (r: bool)
        ensures
            r == (spec_sha256(preimage@) == self.payment_hash@),
    {
        bytes_eq(&sha256(preimage), &self.payment_hash)
    }
}

/// Final balances of a closed channel.
#[derive(Debug, Clone)]
pub struct ChannelCloseRecord {
    pub channel_id: String,
    pub local_node_id: String,
    pub remote_node_id: String,
    pub local_final_sat: Satoshi,
    pub remote_final_sat: Satoshi,
}

/// The sum of the pending HTLC amounts.
pub open spec fn spec_pending_sum(p: Seq<LnHtlc>) -> int
    decreases p.len(),
{
    if p.len() == 0 {
        0
    } else {
        spec_pending_sum(p.drop_last()) + p.last().amount_sat
    }
}

/// The index of the first pending HTLC locked to `hash`, or `p.len()`.
pub open spec fn spec_find_htlc(p: Seq<LnHtlc>, hash: Seq<u8>) -> int
    decreases p.len(),
{
    if p.len() == 0 {
        0
    } else if p[0].payment_hash@ == hash {
        0
    } else {
        1 + spec_find_htlc(p.drop_first(), hash)
    }
}

pub proof fn lemma_find_htlc_bounds(p: Seq<LnHtlc>, hash: Seq<u8>)
    ensures
        0 <= spec_find_htlc(p, hash) <= p.len(),
        spec_find_htlc(p, hash) < p.len() ==> p[spec_find_htlc(p, hash)].payment_hash@ == hash,
        forall|j: int| 0 <= j < spec_find_htlc(p, hash) ==> p[j].payment_hash@ != hash,
    decreases p.len(),
{
    if p.len() > 0 && p[0].payment_hash@ != hash {
        lemma_find_htlc_bounds(p.drop_first(), hash);
        assert forall|j: int| 0 <= j < spec_find_htlc(p, hash) implies p[j].payment_hash@ != hash by {
            if j > 0 {
                assert(p[j] == p.drop_first()[j - 1]);
            }
        }
    }
}

pub proof fn lemma_find_htlc_unique(p: Seq<LnHtlc>, hash: Seq<u8>, k: int)
    requires
        0 <= k <= p.len(),
        k < p.len() ==> p[k].payment_hash@ == hash,
        forall|j: int| 0 <= j < k ==> p[j].payment_hash@ != hash,
    ensures
        spec_find_htlc(p, hash) == k,
    decreases p.len(),
{
    if p.len() > 0 && k > 0 {
        assert(p[0].payment_hash@ != hash);
        assert forall|j: int| 0 <= j < k - 1 implies p.drop_first()[j].payment_hash@ != hash by {
            assert(p.drop_first()[j] == p[j + 1]);
        }
        lemma_find_htlc_unique(p.drop_first(), hash, k - 1);
    }
}

proof fn lemma_pending_sum_push(p: Seq<LnHtlc>, h: LnHtlc)
    ensures
        spec_pending_sum(p.push(h)) == spec_pending_sum(p) + h.amount_sat,
{
    assert(p.push(h).drop_last() =~= p);
}

pub proof fn lemma_pending_sum_nonneg(p: Seq<LnHtlc>)
    ensures
        spec_pending_sum(p) >= 0,
    decreases p.len(),
{
    if p.len() > 0 {
        lemma_pending_sum_nonneg(p.drop_last());
    }
}

proof fn lemma_pending_sum_remove(p: Seq<LnHtlc>, i: int)
    requires
        0 <= i < p.len(),
    ensures
        spec_pending_sum(p.remove(i)) == spec_pending_sum(p) - p[i].amount_sat,
    decreases p.len(),
{
    if i == p.len() - 1 {
        assert(p.remove(i) =~= p.drop_last());
    } else {
        lemma_pending_sum_remove(p.drop_last(), i);
        assert(p.remove(i).drop_last() =~= p.drop_last().remove(i));
        assert(p.remove(i).last() == p.last());
    }
}

pub proof fn lemma_pending_item_le_sum(p: Seq<LnHtlc>, i: int)
    requires
        0 <= i < p.len(),
    ensures
        p[i].amount_sat <= spec_pending_sum(p),
{
    lemma_pending_sum_remove(p, i);
    lemma_pending_sum_nonneg(p.remove(i));
}

/// A BTC-denominated bidirectional payment channel.
#[derive(Debug)]
pub struct BtcLightningChannel {
    pub channel_id: String,
    /// The funder.
    pub local_node_id: String,
    pub remote_node_id: String,
    pub local_balance_sat: Satoshi,
    pub remote_balance_sat: Satoshi,
    /// Monotonically increasing commitment number.
    pub commitment_number: u64,
    /// The id the next HTLC gets.
    pub next_htlc_id: u64,
    pub state: ChannelState,
    /// HTLCs locked by either side and not yet settled.
    pub pending_htlcs: Vec<LnHtlc>,
}

/// The channel id of two node ids: the first 8 bytes of
/// `SHA-256(smaller ‖ "|" ‖ larger)` in hex, ids ordered by their bytes.
pub open spec fn spec_channel_id(a: Seq<char>, b: Seq<char>) -> Seq<char> {
    let (x, y) = if bytes_lt(encode_utf8(a), encode_utf8(b)) {
        (a, b)
    } else {
        (b, a)
    };
    spec_hex(spec_sha256(encode_utf8(x) + encode_utf8("|"@) + encode_utf8(y)).subrange(0, 8))
}

impl BtcLightningChannel {
    /// The local balance when `local`, else the remote balance.
    pub open spec fn spec_side(&self, local: bool) -> int {
        if local {
            self.local_balance_sat as int
        } else {
            self.remote_balance_sat as int
        }
    }

    /// Local + remote balances + every pending HTLC amount.
    pub open spec fn spec_total(&self) -> int {
        self.local_balance_sat + self.remote_balance_sat + spec_pending_sum(self.pending_htlcs@)
    }

    /// Open a channel with the given initial balances.
    pub fn open(
        local_node_id: &str,
        remote_node_id: &str,
        local_push_sat: Satoshi,
        remote_push_sat: Satoshi,
    ) -> (r: Self)
        ensures
            r.channel_id@ == spec_channel_id(local_node_id@, remote_node_id@),
            r.local_node_id@ == local_node_id@,
            r.remote_node_id@ == remote_node_id@,
            r.local_balance_sat == local_push_sat,
            r.remote_balance_sat == remote_push_sat,
            r.commitment_number == 0,
            r.next_htlc_id == 0,
            r.state == ChannelState::Open,
            r.pending_htlcs@.len() == 0,
    {
        let channel_id = Self::derive_channel_id(local_node_id, remote_node_id);
        BtcLightningChannel {
            channel_id,
            local_node_id: String::from_str(local_node_id),
            remote_node_id: String::from_str(remote_node_id),
            local_balance_sat: local_push_sat,
            remote_balance_sat: remote_push_sat,
            commitment_number: 0,
            next_htlc_id: 0,
            state: ChannelState::Open,
            pending_htlcs: Vec::new(),
        }
    }

    /// Lock `amount_sat` of the local balance in an HTLC to `SHA-256(preimage)`
    /// (`update_add_htlc`); returns the HTLC id.
    ///
    /// When the commitment number is already at its maximum the call fails
    /// with `CommitmentOverflow` after the id and the balance were taken and
    /// before the HTLC is stored.
    pub fn add_htlc(
        &mut self,
        preimage: &[u8; 32],
        amount_sat: Satoshi,
        expiry_blocks: u32,
        recipient_id: &str,
    ) -> (r: Result<u64, ChannelError>)
        requires
            old(self).state == ChannelState::Open && old(self).local_balance_sat >= amount_sat
                ==> old(self).next_htlc_id < u64::MAX,
        ensures
            old(self).state != ChannelState::Open ==> (r matches Err(ChannelError::NotOpen(s))
                && s@ == spec_state_name(old(self).state)) && *final(self) == *old(self),
            old(self).state == ChannelState::Open && old(self).local_balance_sat < amount_sat ==> (
            r matches Err(ChannelError::InsufficientBalance { holder, available, needed })
                && holder@ == old(self).local_node_id@ && available == old(self).local_balance_sat
                && needed == amount_sat) && *final(self) == *old(self),
            old(self).state == ChannelState::Open && old(self).local_balance_sat >= amount_sat
                && old(self).commitment_number == u64::MAX ==> r == Err::<u64, ChannelError>(
                ChannelError::CommitmentOverflow,
            ) && final(self).local_balance_sat == old(self).local_balance_sat - amount_sat
                && final(self).next_htlc_id == old(self).next_htlc_id + 1
                && final(self).pending_htlcs == old(self).pending_htlcs
                && final(self).commitment_number == old(self).commitment_number,
            old(self).state == ChannelState::Open && old(self).local_balance_sat >= amount_sat
                && old(self).commitment_number < u64::MAX ==> {
                &&& r == Ok::<u64, ChannelError>(old(self).next_htlc_id)
                &&& final(self).local_balance_sat == old(self).local_balance_sat - amount_sat
                &&& final(self).remote_balance_sat == old(self).remote_balance_sat
                &&& final(self).next_htlc_id == old(self).next_htlc_id + 1
                &&& final(self).commitment_number == old(self).commitment_number + 1
                &&& final(self).pending_htlcs@.len() == old(self).pending_htlcs@.len() + 1
                &&& final(self).pending_htlcs@.drop_last() == old(self).pending_htlcs@
                &&& final(self).pending_htlcs@.last().htlc_id == old(self).next_htlc_id
                &&& final(self).pending_htlcs@.last().payment_hash@ == spec_sha256(preimage@)
                &&& final(self).pending_htlcs@.last().amount_sat == amount_sat
                &&& final(self).pending_htlcs@.last().expiry_blocks == expiry_blocks
                &&& final(self).pending_htlcs@.last().recipient_id@ == recipient_id@
                &&& final(self).pending_htlcs@.last().offered_by_local
                &&& final(self).spec_total() == old(self).spec_total()
            },
            final(self).state == old(self).state,
            final(self).channel_id == old(self).channel_id,
            final(self).local_node_id == old(self).local_node_id,
            final(self).remote_node_id == old(self).remote_node_id,
            final(self).remote_balance_sat == old(self).remote_balance_sat,
    {
        if let Err(e) = self.require_open() {
            return Err(e);
        }
        if self.local_balance_sat < amount_sat {
            return Err(
                ChannelError::InsufficientBalance {
                    holder: self.local_node_id.clone(),
                    available: self.local_balance_sat,
                    needed: amount_sat,
                },
            );
        }
        let htlc_id = self.next_htlc_id;
        self.next_htlc_id = self.next_htlc_id + 1;
        self.local_balance_sat = self.local_balance_sat - amount_sat;
        match self.commitment_number.checked_add(1) {
            Some(n) => {
                self.commitment_number = n;
            },
            None => {
                return Err(ChannelError::CommitmentOverflow);
            },
        }
        let htlc = LnHtlc::new(htlc_id, preimage, amount_sat, expiry_blocks, recipient_id);
        let ghost old_pending = self.pending_htlcs@;
        self.pending_htlcs.push(htlc);
        proof {
            lemma_pending_sum_push(old_pending, htlc);
            assert(self.pending_htlcs@.drop_last() =~= old_pending);
        }
        Ok(htlc_id)
    }

    /// Lock `amount_sat` of the remote balance in an HTLC to
    /// `SHA-256(preimage)` offered by the remote side to the local one (the
    /// `update_add_htlc` a channel receives); returns the HTLC id.  Nothing
    /// changes when it is refused.
    pub fn receive_htlc(
        &mut self,
        preimage: &[u8; 32],
        amount_sat: Satoshi,
        expiry_blocks: u32,
        recipient_id: &str,
    ) -> (r: Result<u64, ChannelError>)
        requires
            old(self).state == ChannelState::Open && old(self).remote_balance_sat >= amount_sat
                ==> old(self).next_htlc_id < u64::MAX,
        ensures
            old(self).state != ChannelState::Open ==> (r matches Err(ChannelError::NotOpen(s))
                && s@ == spec_state_name(old(self).state)) && *final(self) == *old(self),
            old(self).state == ChannelState::Open && old(self).remote_balance_sat < amount_sat ==> (
            r matches Err(ChannelError::InsufficientBalance { holder, available, needed })
                && holder@ == old(self).remote_node_id@ && available == old(self).remote_balance_sat
                && needed == amount_sat) && *final(self) == *old(self),
            old(self).state == ChannelState::Open && old(self).remote_balance_sat >= amount_sat
                && old(self).commitment_number == u64::MAX ==> r == Err::<u64, ChannelError>(
                ChannelError::CommitmentOverflow,
            ) && *final(self) == *old(self),
            old(self).state == ChannelState::Open && old(self).remote_balance_sat >= amount_sat
                && old(self).commitment_number < u64::MAX ==> {
                &&& r == Ok::<u64, ChannelError>(old(self).next_htlc_id)
                &&& final(self).remote_balance_sat == old(self).remote_balance_sat - amount_sat
                &&& final(self).local_balance_sat == old(self).local_balance_sat
                &&& final(self).next_htlc_id == old(self).next_htlc_id + 1
                &&& final(self).commitment_number == old(self).commitment_number + 1
                &&& final(self).pending_htlcs@.len() == old(self).pending_htlcs@.len() + 1
                &&& final(self).pending_htlcs@.drop_last() == old(self).pending_htlcs@
                &&& final(self).pending_htlcs@.last().htlc_id == old(self).next_htlc_id
                &&& final(self).pending_htlcs@.last().payment_hash@ == spec_sha256(preimage@)
                &&& final(self).pending_htlcs@.last().amount_sat == amount_sat
                &&& final(self).pending_htlcs@.last().expiry_blocks == expiry_blocks
                &&& final(self).pending_htlcs@.last().recipient_id@ == recipient_id@
                &&& !final(self).pending_htlcs@.last().offered_by_local
                &&& final(self).spec_total() == old(self).spec_total()
            },
            final(self).state == old(self).state,
            final(self).channel_id == old(self).channel_id,
            final(self).local_node_id == old(self).local_node_id,
            final(self).remote_node_id == old(self).remote_node_id,
    {
        if let Err(e) = self.require_open() {
            return Err(e);
        }
        if self.remote_balance_sat < amount_sat {
            return Err(
                ChannelError::InsufficientBalance {
                    holder: self.remote_node_id.clone(),
                    available: self.remote_balance_sat,
                    needed: amount_sat,
                },
            );
        }
        if self.commitment_number == u64::MAX {
            return Err(ChannelError::CommitmentOverflow);
        }
        let htlc_id = self.next_htlc_id;
        let base = LnHtlc::new(htlc_id, preimage, amount_sat, expiry_blocks, recipient_id);
        let htlc = LnHtlc { offered_by_local: false, ..base };
        self.next_htlc_id = self.next_htlc_id + 1;
        self.remote_balance_sat = self.remote_balance_sat - amount_sat;
        self.commitment_number = self.commitment_number + 1;
        let ghost old_pending = self.pending_htlcs@;
        self.pending_htlcs.push(htlc);
        proof {
            lemma_pending_sum_push(old_pending, htlc);
            assert(self.pending_htlcs@.drop_last() =~= old_pending);
        }
        Ok(htlc_id)
    }

    /// Settle the first pending HTLC locked to `SHA-256(preimage)`
    /// (`update_fulfill_htlc`): its amount goes to the side it was offered
    /// to; returns the amount.
    pub fn fulfill_htlc(&mut self, preimage: &[u8; 32]) -> (r: Result<Satoshi, ChannelError>)
        requires
            old(self).state == ChannelState::Open && spec_find_htlc(
                old(self).pending_htlcs@,
                spec_sha256(preimage@),
            ) < old(self).pending_htlcs@.len() ==> old(self).commitment_number < u64::MAX
                && old(self).spec_side(
                !old(self).pending_htlcs@[spec_find_htlc(old(self).pending_htlcs@, spec_sha256(preimage@))].offered_by_local,
            ) + old(self).pending_htlcs@[spec_find_htlc(
                old(self).pending_htlcs@,
                spec_sha256(preimage@),
            )].amount_sat <= u64::MAX,
        ensures
            old(self).state != ChannelState::Open ==> (r matches Err(ChannelError::NotOpen(s))
                && s@ == spec_state_name(old(self).state)) && *final(self) == *old(self),
            old(self).state == ChannelState::Open && spec_find_htlc(
                old(self).pending_htlcs@,
                spec_sha256(preimage@),
            ) == old(self).pending_htlcs@.len() ==> r == Err::<Satoshi, ChannelError>(
                ChannelError::HtlcError,
            ) && *final(self) == *old(self),
            old(self).state == ChannelState::Open && spec_find_htlc(
                old(self).pending_htlcs@,
                spec_sha256(preimage@),
            ) < old(self).pending_htlcs@.len() ==> {
                let i = spec_find_htlc(old(self).pending_htlcs@, spec_sha256(preimage@));
                let amt = old(self).pending_htlcs@[i].amount_sat;
                let to_remote = old(self).pending_htlcs@[i].offered_by_local;
                &&& r == Ok::<Satoshi, ChannelError>(amt)
                &&& final(self).pending_htlcs@ == old(self).pending_htlcs@.remove(i)
                &&& final(self).remote_balance_sat == old(self).remote_balance_sat + (if to_remote {
                    amt as int
                } else {
                    0
                })
                &&& final(self).local_balance_sat == old(self).local_balance_sat + (if to_remote {
                    0
                } else {
                    amt as int
                })
                &&& final(self).commitment_number == old(self).commitment_number + 1
                &&& final(self).next_htlc_id == old(self).next_htlc_id
                &&& final(self).state == old(self).state
                &&& final(self).channel_id == old(self).channel_id
                &&& final(self).local_node_id == old(self).local_node_id
                &&& final(self).remote_node_id == old(self).remote_node_id
                &&& final(self).spec_total() == old(self).spec_total()
            },
    {
        if let Err(e) = self.require_open() {
            return Err(e);
        }
        let pos = match self.find_htlc(preimage) {
            Some(p) => p,
            None => {
                return Err(ChannelError::HtlcError);
            },
        };
        let ghost old_pending = self.pending_htlcs@;
        let htlc = self.pending_htlcs.remove(pos);
        proof {
            lemma_pending_sum_remove(old_pending, pos as int);
        }
        if htlc.offered_by_local {
            self.remote_balance_sat = self.remote_balance_sat + htlc.amount_sat;
        } else {
            self.local_balance_sat = self.local_balance_sat + htlc.amount_sat;
        }
        self.commitment_number = self.commitment_number + 1;
        Ok(htlc.amount_sat)
    }

    /// Refund the first pending HTLC locked to `SHA-256(preimage)` to the
    /// side that offered it (`update_fail_htlc`); returns its amount.
    pub fn fail_htlc(&mut self, preimage: &[u8; 32]) -> (r: Result<Satoshi, ChannelError>)
        requires
            old(self).state == ChannelState::Open && spec_find_htlc(
                old(self).pending_htlcs@,
                spec_sha256(preimage@),
            ) < old(self).pending_htlcs@.len() ==> old(self).commitment_number < u64::MAX
                && old(self).spec_side(
                old(self).pending_htlcs@[spec_find_htlc(old(self).pending_htlcs@, spec_sha256(preimage@))].offered_by_local,
            ) + old(self).pending_htlcs@[spec_find_htlc(
                old(self).pending_htlcs@,
                spec_sha256(preimage@),
            )].amount_sat <= u64::MAX,
        ensures
            old(self).state != ChannelState::Open ==> (r matches Err(ChannelError::NotOpen(s))
                && s@ == spec_state_name(old(self).state)) && *final(self) == *old(self),
            old(self).state == ChannelState::Open && spec_find_htlc(
                old(self).pending_htlcs@,
                spec_sha256(preimage@),
            ) == old(self).pending_htlcs@.len() ==> r == Err::<Satoshi, ChannelError>(
                ChannelError::HtlcError,
            ) && *final(self) == *old(self),
            old(self).state == ChannelState::Open && spec_find_htlc(
                old(self).pending_htlcs@,
                spec_sha256(preimage@),
            ) < old(self).pending_htlcs@.len() ==> {
                let i = spec_find_htlc(old(self).pending_htlcs@, spec_sha256(preimage@));
                let amt = old(self).pending_htlcs@[i].amount_sat;
                let to_local = old(self).pending_htlcs@[i].offered_by_local;
                &&& r == Ok::<Satoshi, ChannelError>(amt)
                &&& final(self).pending_htlcs@ == old(self).pending_htlcs@.remove(i)
                &&& final(self).local_balance_sat == old(self).local_balance_sat + (if to_local {
                    amt as int
                } else {
                    0
                })
                &&& final(self).remote_balance_sat == old(self).remote_balance_sat + (if to_local {
                    0
                } else {
                    amt as int
                })
                &&& final(self).commitment_number == old(self).commitment_number + 1
                &&& final(self).next_htlc_id == old(self).next_htlc_id
                &&& final(self).state == old(self).state
                &&& final(self).channel_id == old(self).channel_id
                &&& final(self).local_node_id == old(self).local_node_id
                &&& final(self).remote_node_id == old(self).remote_node_id
                &&& final(self).spec_total() == old(self).spec_total()
            },
    {
        if let Err(e) = self.require_open() {
            return Err(e);
        }
        let pos = match self.find_htlc(preimage) {
            Some(p) => p,
            None => {
                return Err(ChannelError::HtlcError);
            },
        };
        let ghost old_pending = self.pending_htlcs@;
        let htlc = self.pending_htlcs.remove(pos);
        proof {
            lemma_pending_sum_remove(old_pending, pos as int);
        }
        if htlc.offered_by_local {
            self.local_balance_sat = self.local_balance_sat + htlc.amount_sat;
        } else {
            self.remote_balance_sat = self.remote_balance_sat + htlc.amount_sat;
        }
        self.commitment_number = self.commitment_number + 1;
        Ok(htlc.amount_sat)
    }

    /// `fail_htlc` where refunding cannot overflow the commitment number or
    /// the offering side's balance; `None`, with the channel unchanged,
    /// where it would.
    pub fn fail_htlc_checked(&mut self, preimage: &[u8; 32]) -> (r: Option<Result<Satoshi, ChannelError>>)
        ensures
            ({
                let i = spec_find_htlc(old(self).pending_htlcs@, spec_sha256(preimage@));
                old(self).state == ChannelState::Open && i < old(self).pending_htlcs@.len() && (
                old(self).commitment_number == u64::MAX || old(self).spec_side(
                    old(self).pending_htlcs@[i].offered_by_local,
                ) + old(self).pending_htlcs@[i].amount_sat > u64::MAX)
            }) <==> r is None,
            r is None ==> *final(self) == *old(self),
            old(self).state != ChannelState::Open ==> (r matches Some(Err(ChannelError::NotOpen(s)))
                && s@ == spec_state_name(old(self).state)) && *final(self) == *old(self),
            old(self).state == ChannelState::Open && spec_find_htlc(
                old(self).pending_htlcs@,
                spec_sha256(preimage@),
            ) == old(self).pending_htlcs@.len() ==> r == Some(
                Err::<Satoshi, ChannelError>(ChannelError::HtlcError),
            ) && *final(self) == *old(self),
            r matches Some(Ok(amt)) ==> {
                let i = spec_find_htlc(old(self).pending_htlcs@, spec_sha256(preimage@));
                let to_local = old(self).pending_htlcs@[i].offered_by_local;
                &&& amt == old(self).pending_htlcs@[i].amount_sat
                &&& final(self).pending_htlcs@ == old(self).pending_htlcs@.remove(i)
                &&& final(self).local_balance_sat == old(self).local_balance_sat + (if to_local {
                    amt as int
                } else {
                    0
                })
                &&& final(self).remote_balance_sat == old(self).remote_balance_sat + (if to_local {
                    0
                } else {
                    amt as int
                })
                &&& final(self).commitment_number == old(self).commitment_number + 1
                &&& final(self).spec_total() == old(self).spec_total()
            },
    {
        if self.state == ChannelState::Open {
            match self.find_htlc(preimage) {
                Some(i) => {
                    let side = if self.pending_htlcs[i].offered_by_local {
                        self.local_balance_sat
                    } else {
                        self.remote_balance_sat
                    };
                    if self.commitment_number == u64::MAX || side > u64::MAX
                        - self.pending_htlcs[i].amount_sat {
                        return None;
                    }
                },
                None => {},
            }
        }
        Some(self.fail_htlc(preimage))
    }

    /// Close the channel cooperatively and report the final balances.
    pub fn cooperative_close(&mut self) -> (r: Result<ChannelCloseRecord, ChannelError>)
        ensures
            old(self).state != ChannelState::Open ==> (r matches Err(ChannelError::NotOpen(s))
                && s@ == spec_state_name(old(self).state)) && *final(self) == *old(self),
            old(self).state == ChannelState::Open ==> {
                &&& r matches Ok(rec)
                &&& rec.channel_id == old(self).channel_id
                &&& rec.local_node_id == old(self).local_node_id
                &&& rec.remote_node_id == old(self).remote_node_id
                &&& rec.local_final_sat == old(self).local_balance_sat
                &&& rec.remote_final_sat == old(self).remote_balance_sat
                &&& *final(self) == BtcLightningChannel { state: ChannelState::Closed, ..*old(self) }
            },
    {
        if let Err(e) = self.require_open() {
            return Err(e);
        }
        self.state = ChannelState::Closed;
        Ok(ChannelCloseRecord {
            channel_id: self.channel_id.clone(),
            local_node_id: self.local_node_id.clone(),
            remote_node_id: self.remote_node_id.clone(),
            local_final_sat: self.local_balance_sat,
            remote_final_sat: self.remote_balance_sat,
        })
    }

    /// Total capacity: local + remote, not counting the amounts held in
    /// pending HTLCs.
    pub fn total_capacity_sat(&self) -> (r: Satoshi)
        requires
            self.local_balance_sat + self.remote_balance_sat <= u64::MAX,
        ensures
            r == self.local_balance_sat + self.remote_balance_sat,
    {
        self.local_balance_sat + self.remote_balance_sat
    }

    fn require_open(&self) -> (r: Result<(), ChannelError>)
        ensures
            self.state == ChannelState::Open <==> r is Ok,
            r matches Err(e) ==> (e matches ChannelError::NotOpen(s) && s@ == spec_state_name(
                self.state,
            )),
    {
        if self.state != ChannelState::Open {
            Err(ChannelError::NotOpen(self.state.to_string()))
        } else {
            Ok(())
        }
    }

    fn find_htlc(&self, preimage: &[u8; 32]) -> (r: Option<usize>)
        ensures
            r matches Some(i) ==> i == spec_find_htlc(self.pending_htlcs@, spec_sha256(preimage@))
                && i < self.pending_htlcs@.len(),
            r is None ==> spec_find_htlc(self.pending_htlcs@, spec_sha256(preimage@))
                == self.pending_htlcs@.len(),
    {
        let mut i: usize = 0;
        while i < self.pending_htlcs.len()
            invariant
                i <= self.pending_htlcs@.len(),
                forall|j: int|
                    0 <= j < i ==> self.pending_htlcs@[j].payment_hash@ != spec_sha256(preimage@),
            decreases self.pending_htlcs@.len() - i,
        {
            if self.pending_htlcs[i].verify_preimage(preimage) {
                proof {
                    lemma_find_htlc_unique(self.pending_htlcs@, spec_sha256(preimage@), i as int);
                }
                return Some(i);
            }
            i = i + 1;
        }
        proof {
            lemma_find_htlc_unique(
                self.pending_htlcs@,
                spec_sha256(preimage@),
                self.pending_htlcs@.len() as int,
            );
        }
        None
    }

    /// The channel id of two node ids.
    pub fn derive_channel_id(a: &str, b: &str) -> (r: String)
        ensures
            r@ == spec_channel_id(a@, b@),
    {
        let (x, y) = if bytes_less(a.as_bytes(), b.as_bytes()) {
            (a, b)
        } else {
            (b, a)
        };
        let mut buf: Vec<u8> = Vec::new();
        extend_bytes(&mut buf, x.as_bytes());
        extend_bytes(&mut buf, "|".as_bytes());
        extend_bytes(&mut buf, y.as_bytes());
        let h = sha256(buf.as_slice());
        hex_encode(vstd::slice::slice_subrange(&h, 0, 8))
    }
}

/// HTLC ids count up from 0: along a run of channel states that starts at a
/// freshly opened channel (next id 0) and where every step is a successful
/// `add_htlc` or `receive_htlc` (which returns the current next id and
/// advances it by one), the k-th HTLC gets id k.
pub proof fn lemma_htlc_ids_count_up(states: Seq<BtcLightningChannel>, ids: Seq<u64>)
    requires
        states.len() == ids.len() + 1,
        states[0].next_htlc_id == 0,
        forall|k: int|
            0 <= k < ids.len() ==> #[trigger] ids[k] == states[k].next_htlc_id && states[k + 1].next_htlc_id
                == states[k].next_htlc_id + 1,
    ensures
        forall|k: int| 0 <= k < ids.len() ==> #[trigger] ids[k] == k,
        states.last().next_htlc_id == ids.len(),
    decreases ids.len(),
{
    if ids.len() > 0 {
        let m = ids.len() - 1;
        lemma_htlc_ids_count_up(states.subrange(0, m + 1), ids.subrange(0, m));
        assert(states.subrange(0, m + 1).last() == states[m]);
        assert(ids[m] == states[m].next_htlc_id);
        assert(states.last() == states[m + 1]);
        assert forall|k: int| 0 <= k < ids.len() implies #[trigger] ids[k] == k by {
            if k < m {
                assert(ids.subrange(0, m)[k] == ids[k]);
            }
        }
    } else {
        assert(states.last() == states[0]);
    }
}

} // verus!
