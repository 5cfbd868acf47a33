//! Tamper-evident append-only audit log for the key vault.
//!
//! ```text
//! entry[0]: prev_hash = 0x000…0,   hash = H(0x000…0 ‖ payload[0])
//! entry[N]: prev_hash = hash[N-1], hash = H(hash[N-1] ‖ payload[N])
//! H(prev, ts, event, agent) = SHA-256("audit:v1:" ‖ prev ‖ ts_be ‖ event ‖ ":" ‖ agent)
//! ```

use vstd::prelude::*;
use vstd::utf8::encode_utf8;
use crate::bytes::{
    bytes_eq, extend_bytes, lemma_differ_at, lemma_differing_position, lemma_u64_be_bytes_injective,
    push_u64_be, u64_be_bytes,
};
use crate::digest::{sha256, spec_sha256, spec_sha256_collision, unix_time_secs};
use crate::tee::measurement::zero_digest;

verus! {

/// The hash an entry carries, over its predecessor's hash and its payload.
pub open spec fn spec_audit_hash(prev: Seq<u8>, ts: u64, event: Seq<char>, agent_id: Seq<char>) -> Seq<u8> {
    spec_sha256(
        encode_utf8("audit:v1:"@) + prev + u64_be_bytes(ts) + encode_utf8(event) + encode_utf8(":"@)
            + encode_utf8(agent_id),
    )
}

/// A single entry in the vault audit log.
#[derive(Debug, Clone)]
pub struct AuditEntry {
    /// UNIX timestamp (seconds) at which the event was recorded.
    pub timestamp: u64,
    /// Human-readable description of the event.
    pub event: String,
    /// The agent DID involved (empty string for system events).
    pub agent_id: String,
    /// The previous entry's hash (the genesis entry uses all zeros).
    pub prev_hash: [u8; 32],
    /// `H(prev_hash, timestamp, event, agent_id)`.
    pub hash: [u8; 32],
}

/// The hash an entry links to: its predecessor's, or zeros for the first.
pub open spec fn spec_expected_prev(entries: Seq<AuditEntry>, i: int) -> Seq<u8> {
    if i == 0 {
        zero_digest()
    } else {
        entries[i - 1].hash@
    }
}

/// Entry `i` links to its predecessor and carries the hash of its payload.
pub open spec fn spec_entry_ok(entries: Seq<AuditEntry>, i: int) -> bool {
    &&& entries[i].prev_hash@ == spec_expected_prev(entries, i)
    &&& entries[i].hash@ == spec_audit_hash(
        entries[i].prev_hash@,
        entries[i].timestamp,
        entries[i].event@,
        entries[i].agent_id@,
    )
}

/// The whole chain is intact.
pub open spec fn spec_chain_valid(entries: Seq<AuditEntry>) -> bool {
    forall|i: int| 0 <= i < entries.len() ==> #[trigger] spec_entry_ok(entries, i)
}

impl AuditEntry {
    /// A new entry chained to `prev_hash`, stamped with the current time.
    pub(crate) fn new(event: String, agent_id: String, prev_hash: [u8; 32]) -> (r: Self)
        ensures
            r.event@ == event@,
            r.agent_id@ == agent_id@,
            r.prev_hash == prev_hash,
            r.hash@ == spec_audit_hash(prev_hash@, r.timestamp, event@, agent_id@),
    {
        let timestamp = unix_time_secs();
        let hash = Self::compute_hash(&prev_hash, timestamp, event.as_str(), agent_id.as_str());
        AuditEntry { timestamp, event, agent_id, prev_hash, hash }
    }

    fn compute_hash(prev: &[u8; 32], ts: u64, event: &str, agent_id: &str) -> (r: [u8; 32])
        ensures
            r@ == spec_audit_hash(prev@, ts, event@, agent_id@),
    {
        let mut buf: Vec<u8> = Vec::new();
        extend_bytes(&mut buf, "audit:v1:".as_bytes());
        extend_bytes(&mut buf, prev);
        push_u64_be(&mut buf, ts);
        extend_bytes(&mut buf, event.as_bytes());
        extend_bytes(&mut buf, ":".as_bytes());
        extend_bytes(&mut buf, agent_id.as_bytes());
        sha256(buf.as_slice())
    }
}

/// An append-only, hash-chained audit log.
///
/// The entries are public so that an auditor holding the log can inspect
/// them; `verify_chain` detects any change that breaks the chain.
#[derive(Debug)]
pub struct AuditLog {
    pub entries: Vec<AuditEntry>,
}

impl AuditLog {
    /// An empty audit log.
    pub fn new() -> (r: Self)
        ensures
            r.entries@.len() == 0,
    {
        AuditLog { entries: Vec::new() }
    }

    /// Append a new event, chained to the previous entry's hash.
    pub fn append(&mut self, event: &str, agent_id: &str)
        ensures
            final(self).entries@.len() == old(self).entries@.len() + 1,
            final(self).entries@.subrange(0, old(self).entries@.len() as int) == old(self).entries@,
            final(self).entries@.last().event@ == event@,
            final(self).entries@.last().agent_id@ == agent_id@,
            final(self).entries@.last().prev_hash@ == spec_expected_prev(
                final(self).entries@,
                old(self).entries@.len() as int,
            ),
            spec_entry_ok(final(self).entries@, old(self).entries@.len() as int),
    {
        let n = self.entries.len();
        let prev_hash = if n == 0 {
            [0u8; 32]
        } else {
            self.entries[n - 1].hash
        };
        let ghost old_entries = self.entries@;
        if n == 0 {
            assert(prev_hash@ =~= zero_digest());
        }
        let entry = AuditEntry::new(String::from_str(event), String::from_str(agent_id), prev_hash);
        self.entries.push(entry);
        assert(self.entries@.subrange(0, n as int) =~= old_entries);
        assert(spec_expected_prev(self.entries@, n as int) == prev_hash@);
    }

    /// All audit entries, oldest first.
    pub fn entries(&self) -> (r: &[AuditEntry])
        ensures
            r@ == self.entries@,
    {
        self.entries.as_slice()
    }

    /// Verify the hash chain from genesis to tip: `true` exactly when every
    /// entry links to its predecessor and carries the hash of its payload.
    pub fn verify_chain(&self) -> (r: bool)
        ensures
            r == spec_chain_valid(self.entries@),
    {
        let mut expected_prev = [0u8; 32];
        let mut i: usize = 0;
        assert(expected_prev@ =~= zero_digest());
        while i < self.entries.len()
            invariant
                i <= self.entries@.len(),
                expected_prev@ == spec_expected_prev(self.entries@, i as int),
                forall|j: int| 0 <= j < i ==> #[trigger] spec_entry_ok(self.entries@, j),
            decreases self.entries@.len() - i,
        {
            let entry = &self.entries[i];
            if !bytes_eq(&entry.prev_hash, &expected_prev) {
                assert(!spec_entry_ok(self.entries@, i as int));
                return false;
            }
            let recomputed = AuditEntry::compute_hash(
                &entry.prev_hash,
                entry.timestamp,
                entry.event.as_str(),
                entry.agent_id.as_str(),
            );
            if !bytes_eq(&recomputed, &entry.hash) {
                assert(!spec_entry_ok(self.entries@, i as int));
                return false;
            }
            assert(spec_entry_ok(self.entries@, i as int));
            expected_prev = entry.hash;
            i = i + 1;
        }
        true
    }

    /// The number of entries.
    pub fn len(&self) -> (r: usize)
        ensures
            r == self.entries@.len(),
    {
        self.entries.len()
    }

    /// `true` when the log has no entries.
    pub fn is_empty(&self) -> (r: bool)
        ensures
            r == (self.entries@.len() == 0),
    {
        self.entries.len() == 0
    }
}

impl Default for AuditLog {
    fn default() -> (r: Self)
        ensures
            r.entries@.len() == 0,
    {
        Self::new()
    }
}

/// Appending to an intact log keeps it intact.
pub proof fn lemma_append_keeps_chain_valid(before: Seq<AuditEntry>, after: Seq<AuditEntry>)
    requires
        spec_chain_valid(before),
        after.len() == before.len() + 1,
        after.subrange(0, before.len() as int) == before,
        spec_entry_ok(after, before.len() as int),
    ensures
        spec_chain_valid(after),
{
    assert forall|i: int| 0 <= i < after.len() implies #[trigger] spec_entry_ok(after, i) by {
        if i < before.len() {
            assert(after[i] == before[i]);
            assert(spec_entry_ok(before, i));
            if i > 0 {
                assert(after[i - 1] == before[i - 1]);
            }
        }
    }
}

/// An empty log is intact.
pub proof fn lemma_empty_chain_valid(entries: Seq<AuditEntry>)
    requires
        entries.len() == 0,
    ensures
        spec_chain_valid(entries),
{
}

/// Replacing the stored hash of a non-final entry breaks the chain: the
/// next entry no longer links to it.
pub proof fn lemma_rewritten_hash_breaks_chain(entries: Seq<AuditEntry>, i: int, forged: AuditEntry)
    requires
        spec_chain_valid(entries),
        0 <= i < entries.len() - 1,
        forged.hash@ != entries[i].hash@,
    ensures
        !spec_chain_valid(entries.update(i, forged)),
{
    let t = entries.update(i, forged);
    assert(spec_entry_ok(entries, i + 1));
    assert(t[i + 1] == entries[i + 1]);
    assert(!spec_entry_ok(t, i + 1));
}

/// The bytes an entry's hash covers, field by field:
/// `"audit:v1:" ‖ prev ‖ ts (8 bytes, big-endian) ‖ event ‖ ":" ‖ agent`.
pub open spec fn spec_entry_preimage(e: AuditEntry) -> Seq<u8> {
    encode_utf8("audit:v1:"@) + e.prev_hash@ + u64_be_bytes(e.timestamp) + encode_utf8(e.event@)
        + encode_utf8(":"@) + encode_utf8(e.agent_id@)
}

/// Every entry of an intact log carries SHA-256 of its fields laid out as
/// `spec_entry_preimage` gives them.
pub proof fn lemma_entry_hash_layout(entries: Seq<AuditEntry>, i: int)
    requires
        spec_chain_valid(entries),
        0 <= i < entries.len(),
    ensures
        entries[i].hash@ == spec_sha256(spec_entry_preimage(entries[i])),
{
    assert(spec_entry_ok(entries, i));
}

/// Re-dating an entry is caught: if a log is intact and the same log with
/// one entry's timestamp changed (everything else, its stored hash
/// included, kept) is intact too, then SHA-256 gives one digest for the two
/// different byte strings that entry's hash covers before and after.
pub proof fn lemma_redated_entry_breaks_chain(entries: Seq<AuditEntry>, i: int, ts: u64)
    requires
        spec_chain_valid(entries),
        0 <= i < entries.len(),
        ts != entries[i].timestamp,
        spec_chain_valid(entries.update(i, AuditEntry { timestamp: ts, ..entries[i] })),
    ensures
        spec_sha256_collision(
            spec_entry_preimage(entries[i]),
            spec_entry_preimage(AuditEntry { timestamp: ts, ..entries[i] }),
        ),
{
    let e = entries[i];
    let f = AuditEntry { timestamp: ts, ..entries[i] };
    let t = entries.update(i, f);
    lemma_entry_hash_layout(entries, i);
    lemma_entry_hash_layout(t, i);
    let a = u64_be_bytes(e.timestamp);
    let b = u64_be_bytes(ts);
    if a == b {
        lemma_u64_be_bytes_injective(e.timestamp, ts);
    }
    let k = lemma_differing_position(a, b);
    let off = encode_utf8("audit:v1:"@).len() + e.prev_hash@.len();
    let x = spec_entry_preimage(e);
    let y = spec_entry_preimage(f);
    let px = encode_utf8("audit:v1:"@) + e.prev_hash@ + a;
    let py = encode_utf8("audit:v1:"@) + f.prev_hash@ + b;
    assert(px[off + k] == a[k]);
    assert(py[off + k] == b[k]);
    assert(x[off + k] == px[off + k]);
    assert(y[off + k] == py[off + k]);
    lemma_differ_at(x, y, off + k);
}

} // verus!
