//! Source-routed multi-hop payments (onion routing without the encryption).
//!
//! The sender computes the whole path: a breadth-first search over the
//! channels finds a path with the fewest hops on which every hop has the
//! liquidity for the amount.  Fees are then priced backwards from the
//! recipient, since every hop must carry the amount plus the fees of the
//! hops after it:
//!
//! ```text
//! fee = base_fee_sat + floor(amount_sat × fee_rate_ppm / 1_000_000)
//! ```

use vstd::prelude::*;
use crate::digest::spec_sha256;
use crate::lightning::channel::{
    lemma_find_htlc_bounds, lemma_find_htlc_unique, lemma_pending_item_le_sum,
    lemma_pending_sum_nonneg, spec_find_htlc, BtcLightningChannel, ChannelState,
};
use crate::bytes::str_eq;
use crate::lightning::invoice::Satoshi;

verus! {

#[derive(Debug, PartialEq)]
pub enum RouterError {
    NodeNotFound(String),
    NoRoute { src: String, dst: String },
    ChannelAlreadyExists(String, String),
    HopFailed { hop: usize, reason: String },
}

/// Routing parameters of one direction of a channel (BOLT-7 `channel_update`).
#[derive(Debug, Clone, Copy)]
pub struct EdgePolicy {
    /// Flat fee, independent of the amount.
    pub base_fee_sat: Satoshi,
    /// Proportional fee in parts per million.
    pub fee_rate_ppm: u64,
    /// Liquidity available in this direction.
    pub available_liquidity_sat: Satoshi,
}

/// The fee for forwarding `amount` over an edge: the base fee plus
/// `floor(amount × rate / 10^6)`, the latter truncated to 64 bits.
pub open spec fn spec_routing_fee(policy: EdgePolicy, amount: int) -> int {
    policy.base_fee_sat + ((amount * policy.fee_rate_ppm / 1_000_000) as u64)
}

impl EdgePolicy {
    /// The routing fee for forwarding `amount_sat`.
    pub fn routing_fee(&self, amount_sat: Satoshi) -> (r: Satoshi)
        requires
            spec_routing_fee(*self, amount_sat as int) <= u64::MAX,
        ensures
            r == spec_routing_fee(*self, amount_sat as int),
    {
        let a = amount_sat as u128;
        let rate = self.fee_rate_ppm as u128;
        assert(a * rate <= 0xffff_ffff_ffff_ffff * 0xffff_ffff_ffff_ffffu128) by (nonlinear_arith)
            requires
                a <= 0xffff_ffff_ffff_ffff,
                rate <= 0xffff_ffff_ffff_ffff,
        ;
        let proportional = #[verifier::truncate] ((a * rate / 1_000_000) as u64);
        self.base_fee_sat + proportional
    }
}

/// One hop of a route.
#[derive(Debug, Clone)]
pub struct RouteHop {
    /// The node this hop reaches.
    pub node_id: String,
    /// The channel the hop crosses.
    pub channel_id: String,
    /// The amount forwarded on this hop, the fees of later hops included.
    pub amount_sat: Satoshi,
    /// The routing fee this hop's node keeps for forwarding to the next
    /// hop (0 on the last hop); the sender side of the hop locks
    /// `amount_sat + fee_sat`.
    pub fee_sat: Satoshi,
    /// HTLC timeout in blocks.
    pub expiry_blocks: u32,
}

/// A complete route, sender excluded.
#[derive(Debug, Clone)]
pub struct Route {
    pub hops: Vec<RouteHop>,
    /// What the sender sends, fees included.
    pub total_amount_sat: Satoshi,
    /// The sum of the hop fees.
    pub total_fee_sat: Satoshi,
}

/// The payer of a hop that reaches `node` over `c`: the local side exactly
/// when `node` is the channel's remote end, the remote side otherwise.
pub open spec fn spec_local_pays(c: BtcLightningChannel, node: Seq<char>) -> bool {
    c.remote_node_id@ == node
}

/// What the payer of a hop locks: the amount forwarded on it plus the fee
/// its node keeps.
pub open spec fn spec_hop_lock(hop: RouteHop) -> int {
    hop.amount_sat + hop.fee_sat
}

/// `c` is `oc` after the payer's side of `hop` locked what the hop locks in
/// an HTLC to `hash`.
pub open spec fn spec_hop_locked(oc: BtcLightningChannel, c: BtcLightningChannel, hop: RouteHop, hash: Seq<u8>) -> bool {
    let fl = spec_local_pays(oc, hop.node_id@);
    let a = spec_hop_lock(hop);
    &&& c.spec_side(fl) == oc.spec_side(fl) - a
    &&& c.spec_side(!fl) == oc.spec_side(!fl)
    &&& c.pending_htlcs@.len() == oc.pending_htlcs@.len() + 1
    &&& c.pending_htlcs@.drop_last() == oc.pending_htlcs@
    &&& c.pending_htlcs@.last().payment_hash@ == hash
    &&& c.pending_htlcs@.last().amount_sat == a
    &&& c.pending_htlcs@.last().offered_by_local == fl
    &&& c.commitment_number == oc.commitment_number + 1
    &&& c.next_htlc_id == oc.next_htlc_id + 1
}

/// `c` is `oc` after `hop` settled: its payer's side paid what the hop
/// locks to the other side, and no HTLC is left from it.
pub open spec fn spec_hop_settled(oc: BtcLightningChannel, c: BtcLightningChannel, hop: RouteHop) -> bool {
    let fl = spec_local_pays(oc, hop.node_id@);
    let a = spec_hop_lock(hop);
    &&& c.spec_side(fl) == oc.spec_side(fl) - a
    &&& c.spec_side(!fl) == oc.spec_side(!fl) + a
    &&& c.pending_htlcs@ == oc.pending_htlcs@
    &&& c.commitment_number == oc.commitment_number + 2
    &&& c.next_htlc_id == oc.next_htlc_id + 1
}

/// The HTLC timeout every hop of a route gets.
pub const HOP_EXPIRY_BLOCKS: u32 = 144;

/// `true` when `u` is one of the channel's two ends.
pub open spec fn spec_touches(ch: BtcLightningChannel, u: Seq<char>) -> bool {
    ch.local_node_id@ == u || ch.remote_node_id@ == u
}

/// The end of the channel seen from `u`: the remote end when `u` is the
/// local end, the local end otherwise.
pub open spec fn spec_far_end(ch: BtcLightningChannel, u: Seq<char>) -> Seq<char> {
    if ch.local_node_id@ == u {
        ch.remote_node_id@
    } else {
        ch.local_node_id@
    }
}

/// The node a path step starts from: the source for the first step, the
/// node of the previous step otherwise.
pub open spec fn spec_hop_from(src: Seq<char>, p: Seq<(Seq<char>, int)>, i: int) -> Seq<char> {
    if i == 0 {
        src
    } else {
        p[i - 1].0
    }
}

/// The node a path ends at (the source for the empty path).
pub open spec fn spec_path_end(src: Seq<char>, p: Seq<(Seq<char>, int)>) -> Seq<char> {
    if p.len() == 0 {
        src
    } else {
        p.last().0
    }
}

/// A path as (node, channel index) pairs.
pub open spec fn spec_path_view(p: Seq<(String, usize)>) -> Seq<(Seq<char>, int)> {
    p.map_values(|e: (String, usize)| (e.0@, e.1 as int))
}

/// The names of a list of nodes.
spec fn spec_names(v: Seq<String>) -> Seq<Seq<char>> {
    v.map_values(|s: String| s@)
}

/// The nodes of a list of search entries.
spec fn spec_entry_names(v: Seq<(String, Vec<(String, usize)>)>) -> Seq<Seq<char>> {
    v.map_values(|e: (String, Vec<(String, usize)>)| e.0@)
}

/// `true` when `names` holds `w`.
fn is_listed(names: &Vec<String>, w: &String) -> (r: bool)
    ensures
        r == spec_names(names@).contains(w@),
{
    let mut i: usize = 0;
    while i < names.len()
        invariant
            i <= names@.len(),
            forall|j: int| 0 <= j < i ==> names@[j]@ != w@,
        decreases names@.len() - i,
    {
        if names[i] == *w {
            assert(spec_names(names@)[i as int] == w@);
            return true;
        }
        i = i + 1;
    }
    assert forall|j: int| 0 <= j < spec_names(names@).len() implies spec_names(names@)[j] != w@ by {
        assert(spec_names(names@)[j] == names@[j]@);
    }
    false
}

/// `path` followed by one more step.
fn extend_path(path: &Vec<(String, usize)>, node: &String, ci: usize) -> (r: Vec<(String, usize)>)
    ensures
        spec_path_view(r@) == spec_path_view(path@).push((node@, ci as int)),
{
    let mut r: Vec<(String, usize)> = Vec::new();
    let mut i: usize = 0;
    while i < path.len()
        invariant
            i <= path@.len(),
            r@.len() == i,
            forall|j: int| 0 <= j < i ==> r@[j].0@ == path@[j].0@ && r@[j].1 == path@[j].1,
        decreases path@.len() - i,
    {
        r.push((path[i].0.clone(), path[i].1));
        i = i + 1;
    }
    r.push((node.clone(), ci));
    assert(spec_path_view(r@) =~= spec_path_view(path@).push((node@, ci as int)));
    r
}

/// A payment router over a set of channels, each with a policy per direction.
pub struct LnRouter {
    /// The channels, in the order they were added.
    pub channels: Vec<BtcLightningChannel>,
    /// `policies[i]` is (local → remote, remote → local) for `channels[i]`.
    pub policies: Vec<(EdgePolicy, EdgePolicy)>,
}

impl LnRouter {
    /// One policy pair per channel, and no channel id twice.
    pub open spec fn wf(&self) -> bool {
        &&& self.policies@.len() == self.channels@.len()
        &&& forall|i: int, j: int|
            0 <= i < j < self.channels@.len() ==> #[trigger] self.channels@[i].channel_id@
                != #[trigger] self.channels@[j].channel_id@
    }

    /// `true` when some channel has `u` as one of its ends.
    pub open spec fn spec_has_node(&self, u: Seq<char>) -> bool {
        exists|j: int| 0 <= j < self.channels@.len() && spec_touches(#[trigger] self.channels@[j], u)
    }

    /// The policy of channel `j` in the direction leaving `u`.
    pub open spec fn spec_out_policy(&self, j: int, u: Seq<char>) -> EdgePolicy {
        if self.channels@[j].local_node_id@ == u {
            self.policies@[j].0
        } else {
            self.policies@[j].1
        }
    }

    /// A step from `u` to `v` over channel `j` with liquidity for `amount`.
    pub open spec fn spec_liquid_step(&self, u: Seq<char>, v: Seq<char>, j: int, amount: int) -> bool {
        &&& 0 <= j < self.channels@.len()
        &&& spec_touches(self.channels@[j], u)
        &&& v == spec_far_end(self.channels@[j], u)
        &&& self.spec_out_policy(j, u).available_liquidity_sat >= amount
    }

    /// Every step of `p`, starting at `src`, is a liquid step.
    pub open spec fn spec_liquid_path(&self, src: Seq<char>, p: Seq<(Seq<char>, int)>, amount: int) -> bool {
        forall|i: int|
            #![trigger p[i]]
            0 <= i < p.len() ==> self.spec_liquid_step(spec_hop_from(src, p, i), p[i].0, p[i].1, amount)
    }

    /// `w` is the end of a liquid path from `src` with at most `k` steps.
    pub open spec fn spec_reaches_within(&self, src: Seq<char>, w: Seq<char>, amount: int, k: int) -> bool {
        exists|p: Seq<(Seq<char>, int)>|
            #[trigger] self.spec_liquid_path(src, p, amount) && p.len() <= k && spec_path_end(src, p) == w
    }

    /// `p` is a liquid path from `src` to `dst` with at least one step and
    /// no liquid path from `src` reaches `dst` in fewer steps.
    pub open spec fn spec_shortest_route(
        &self,
        src: Seq<char>,
        dst: Seq<char>,
        p: Seq<(Seq<char>, int)>,
        amount: int,
    ) -> bool {
        &&& p.len() >= 1
        &&& self.spec_liquid_path(src, p, amount)
        &&& spec_path_end(src, p) == dst
        &&& !self.spec_reaches_within(src, dst, amount, p.len() - 1)
    }

    /// The policy that prices the step into `p[i]`: the local → remote
    /// direction unless the step's node is the channel's local end.
    pub open spec fn spec_hop_policy(&self, p: Seq<(Seq<char>, int)>, i: int) -> EdgePolicy {
        if self.channels@[p[i].1].local_node_id@ != p[i].0 {
            self.policies@[p[i].1].0
        } else {
            self.policies@[p[i].1].1
        }
    }

    /// The running amount once the last `k` hops of `p` are priced: the
    /// target for `k == 0`; the last hop adds no fee, every earlier hop adds
    /// its routing fee on the running amount.
    pub open spec fn spec_route_run(&self, p: Seq<(Seq<char>, int)>, target: int, k: int) -> int
        decreases k,
    {
        if k <= 0 {
            target
        } else {
            let prev = self.spec_route_run(p, target, k - 1);
            if k == 1 {
                prev
            } else {
                prev + spec_routing_fee(self.spec_hop_policy(p, p.len() - k), prev)
            }
        }
    }

    /// `route` is the priced route along `p` for a payment of `target`.
    pub open spec fn spec_route_matches(&self, route: Route, p: Seq<(Seq<char>, int)>, target: int) -> bool {
        let n = p.len() as int;
        &&& route.hops@.len() == n
        &&& forall|i: int|
            #![trigger route.hops@[i]]
            0 <= i < n ==> {
                &&& route.hops@[i].node_id@ == p[i].0
                &&& route.hops@[i].channel_id@ == self.channels@[p[i].1].channel_id@
                &&& route.hops@[i].amount_sat == self.spec_route_run(p, target, n - 1 - i)
                &&& route.hops@[i].fee_sat == self.spec_route_run(p, target, n - i)
                    - self.spec_route_run(p, target, n - 1 - i)
                &&& route.hops@[i].expiry_blocks == HOP_EXPIRY_BLOCKS
            }
        &&& route.total_amount_sat == self.spec_route_run(p, target, n)
        &&& route.total_fee_sat == self.spec_route_run(p, target, n) - target
    }

    /// Every channel end, two per channel.
    pub open spec fn spec_endpoints(&self) -> Seq<Seq<char>> {
        Seq::new(
            (2 * self.channels@.len()) as nat,
            |i: int|
                if i % 2 == 0 {
                    self.channels@[i / 2].local_node_id@
                } else {
                    self.channels@[i / 2].remote_node_id@
                },
        )
    }

    proof fn lemma_route_run_monotone(&self, p: Seq<(Seq<char>, int)>, target: int, a: int, b: int)
        requires
            target >= 0,
            a <= b,
        ensures
            0 <= self.spec_route_run(p, target, a) <= self.spec_route_run(p, target, b),
        decreases b - a,
    {
        if a < b {
            self.lemma_route_run_monotone(p, target, a, b - 1);
        } else {
            self.lemma_route_run_nonneg(p, target, a);
        }
    }

    proof fn lemma_route_run_nonneg(&self, p: Seq<(Seq<char>, int)>, target: int, k: int)
        requires
            target >= 0,
        ensures
            self.spec_route_run(p, target, k) >= 0,
        decreases k,
    {
        if k > 0 {
            self.lemma_route_run_nonneg(p, target, k - 1);
        }
    }

    /// The policy pricing the step into `path[i]`.
    fn hop_policy(&self, path: &Vec<(String, usize)>, i: usize) -> (r: EdgePolicy)
        requires
            self.wf(),
            i < path@.len(),
            path@[i as int].1 < self.channels@.len(),
        ensures
            r == self.spec_hop_policy(spec_path_view(path@), i as int),
    {
        let ci = path[i].1;
        if !(self.channels[ci].local_node_id == path[i].0) {
            self.policies[ci].0
        } else {
            self.policies[ci].1
        }
    }

    /// Price a path backwards from the recipient.
    fn build_route(&self, path: &Vec<(String, usize)>, target_amount_sat: Satoshi) -> (r: Route)
        requires
            self.wf(),
            forall|i: int| 0 <= i < path@.len() ==> #[trigger] path@[i].1 < self.channels@.len(),
            self.spec_route_run(spec_path_view(path@), target_amount_sat as int, path@.len() as int)
                <= u64::MAX,
        ensures
            self.spec_route_matches(r, spec_path_view(path@), target_amount_sat as int),
    {
        let ghost p = spec_path_view(path@);
        let ghost t = target_amount_sat as int;
        let n = path.len();
        let mut runs: Vec<u64> = Vec::new();
        runs.push(target_amount_sat);
        let mut running = target_amount_sat;
        let mut k: usize = 0;
        while k < n
            invariant
                self.wf(),
                n == path@.len(),
                p == spec_path_view(path@),
                t == target_amount_sat,
                forall|i: int| 0 <= i < path@.len() ==> #[trigger] path@[i].1 < self.channels@.len(),
                self.spec_route_run(p, t, n as int) <= u64::MAX,
                k <= n,
                runs@.len() == k + 1,
                forall|m: int| 0 <= m <= k ==> #[trigger] runs@[m] == self.spec_route_run(p, t, m),
                running == self.spec_route_run(p, t, k as int),
            decreases n - k,
        {
            proof {
                self.lemma_route_run_monotone(p, t, k + 1, n as int);
                self.lemma_route_run_nonneg(p, t, k as int);
            }
            let fee = if k == 0 {
                0
            } else {
                let pol = self.hop_policy(path, n - 1 - k);
                pol.routing_fee(running)
            };
            running = running + fee;
            runs.push(running);
            k = k + 1;
        }
        let mut hops: Vec<RouteHop> = Vec::new();
        let mut i: usize = 0;
        while i < n
            invariant
                self.wf(),
                n == path@.len(),
                p == spec_path_view(path@),
                t == target_amount_sat,
                forall|j: int| 0 <= j < path@.len() ==> #[trigger] path@[j].1 < self.channels@.len(),
                runs@.len() == n + 1,
                forall|m: int| 0 <= m <= n ==> #[trigger] runs@[m] == self.spec_route_run(p, t, m),
                i <= n,
                hops@.len() == i,
                forall|j: int|
                    #![trigger hops@[j]]
                    0 <= j < i ==> {
                        &&& hops@[j].node_id@ == p[j].0
                        &&& hops@[j].channel_id@ == self.channels@[p[j].1].channel_id@
                        &&& hops@[j].amount_sat == self.spec_route_run(p, t, n - 1 - j)
                        &&& hops@[j].fee_sat == self.spec_route_run(p, t, n - j) - self.spec_route_run(
                            p,
                            t,
                            n - 1 - j,
                        )
                        &&& hops@[j].expiry_blocks == HOP_EXPIRY_BLOCKS
                    },
            decreases n - i,
        {
            proof {
                self.lemma_route_run_monotone(p, t, n - 1 - i, n - i as int);
            }
            let ci = path[i].1;
            let hop = RouteHop {
                node_id: path[i].0.clone(),
                channel_id: self.channels[ci].channel_id.clone(),
                amount_sat: runs[n - 1 - i],
                fee_sat: runs[n - i] - runs[n - 1 - i],
                expiry_blocks: HOP_EXPIRY_BLOCKS,
            };
            hops.push(hop);
            i = i + 1;
        }
        let total_amount_sat = runs[n];
        proof {
            self.lemma_route_run_monotone(p, t, 0, n as int);
        }
        let total_fee_sat = runs[n] - target_amount_sat;
        Route { hops, total_amount_sat, total_fee_sat }
    }

    proof fn lemma_path_push(&self, src: Seq<char>, p: Seq<(Seq<char>, int)>, w: Seq<char>, j: int, amount: int)
        requires
            self.spec_liquid_path(src, p, amount),
            self.spec_liquid_step(spec_path_end(src, p), w, j, amount),
        ensures
            self.spec_liquid_path(src, p.push((w, j)), amount),
            spec_path_end(src, p.push((w, j))) == w,
    {
        let q = p.push((w, j));
        assert forall|i: int| 0 <= i < q.len() implies self.spec_liquid_step(
            spec_hop_from(src, q, i),
            q[i].0,
            q[i].1,
            amount,
        ) by {
            if i > 0 {
                assert(q[i - 1] == p[i - 1]);
            }
            if i < p.len() {
                assert(q[i] == p[i]);
                assert(self.spec_liquid_step(spec_hop_from(src, p, i), p[i].0, p[i].1, amount));
            }
        }
    }

    proof fn lemma_path_prefix(&self, src: Seq<char>, p: Seq<(Seq<char>, int)>, m: int, amount: int)
        requires
            self.spec_liquid_path(src, p, amount),
            0 <= m <= p.len(),
        ensures
            self.spec_liquid_path(src, p.subrange(0, m), amount),
            spec_path_end(src, p.subrange(0, m)) == spec_hop_from(src, p, m),
    {
        let q = p.subrange(0, m);
        assert forall|i: int| 0 <= i < q.len() implies self.spec_liquid_step(
            spec_hop_from(src, q, i),
            q[i].0,
            q[i].1,
            amount,
        ) by {
            assert(q[i] == p[i]);
            if i > 0 {
                assert(q[i - 1] == p[i - 1]);
            }
            assert(self.spec_liquid_step(spec_hop_from(src, p, i), p[i].0, p[i].1, amount));
        }
    }

    proof fn lemma_reach_monotone(&self, src: Seq<char>, w: Seq<char>, amount: int, k1: int, k2: int)
        requires
            self.spec_reaches_within(src, w, amount, k1),
            k1 <= k2,
        ensures
            self.spec_reaches_within(src, w, amount, k2),
    {
        let p = choose|p: Seq<(Seq<char>, int)>|
            #[trigger] self.spec_liquid_path(src, p, amount) && p.len() <= k1 && spec_path_end(src, p) == w;
        assert(self.spec_liquid_path(src, p, amount));
    }

    proof fn lemma_reach_step(&self, src: Seq<char>, u: Seq<char>, w: Seq<char>, j: int, amount: int, k: int)
        requires
            self.spec_reaches_within(src, u, amount, k),
            self.spec_liquid_step(u, w, j, amount),
        ensures
            self.spec_reaches_within(src, w, amount, k + 1),
    {
        let p = choose|p: Seq<(Seq<char>, int)>|
            #[trigger] self.spec_liquid_path(src, p, amount) && p.len() <= k && spec_path_end(src, p) == u;
        self.lemma_path_push(src, p, w, j, amount);
        assert(self.spec_liquid_path(src, p.push((w, j)), amount));
    }

    /// A node first reached in `k + 1` steps is one liquid step away from a
    /// node first reached in `k` steps.
    proof fn lemma_reach_pred(&self, src: Seq<char>, w: Seq<char>, amount: int, k: int) -> (r: (Seq<char>, int))
        requires
            k >= 0,
            self.spec_reaches_within(src, w, amount, k + 1),
            !self.spec_reaches_within(src, w, amount, k),
        ensures
            self.spec_reaches_within(src, r.0, amount, k),
            !self.spec_reaches_within(src, r.0, amount, k - 1),
            self.spec_liquid_step(r.0, w, r.1, amount),
    {
        let p = choose|p: Seq<(Seq<char>, int)>|
            #[trigger] self.spec_liquid_path(src, p, amount) && p.len() <= k + 1 && spec_path_end(src, p) == w;
        if p.len() <= k {
            assert(self.spec_liquid_path(src, p, amount));
        }
        assert(p.len() == k + 1);
        self.lemma_path_prefix(src, p, k, amount);
        let u = spec_hop_from(src, p, k);
        assert(self.spec_liquid_path(src, p.subrange(0, k), amount));
        assert(self.spec_liquid_step(spec_hop_from(src, p, k), p[k].0, p[k].1, amount));
        if self.spec_reaches_within(src, u, amount, k - 1) {
            self.lemma_reach_step(src, u, w, p[k].1, amount, k - 1);
        }
        (u, p[k].1)
    }

    /// When every node reached within `k` steps is reached within `k - 1`,
    /// every liquid path ends at a node reached within `k` steps.
    proof fn lemma_reach_closed(&self, src: Seq<char>, amount: int, k: int, p: Seq<(Seq<char>, int)>)
        requires
            k >= 0,
            self.spec_liquid_path(src, p, amount),
            forall|u: Seq<char>|
                #[trigger] self.spec_reaches_within(src, u, amount, k) ==> self.spec_reaches_within(
                    src,
                    u,
                    amount,
                    k - 1,
                ),
        ensures
            self.spec_reaches_within(src, spec_path_end(src, p), amount, k),
        decreases p.len(),
    {
        if p.len() == 0 {
            assert(self.spec_liquid_path(src, p, amount));
        } else {
            let m = p.len() - 1;
            self.lemma_path_prefix(src, p, m, amount);
            let q = p.subrange(0, m);
            self.lemma_reach_closed(src, amount, k, q);
            let u = spec_path_end(src, q);
            assert(self.spec_reaches_within(src, u, amount, k - 1));
            assert(self.spec_liquid_step(spec_hop_from(src, p, m), p[m].0, p[m].1, amount));
            self.lemma_reach_step(src, u, p[m].0, p[m].1, amount, k - 1);
        }
    }

    proof fn lemma_visited_bound(&self, names: Seq<Seq<char>>)
        requires
            names.no_duplicates(),
            forall|i: int| 0 <= i < names.len() ==> self.spec_has_node(#[trigger] names[i]),
        ensures
            names.len() <= 2 * self.channels@.len(),
    {
        let e = self.spec_endpoints();
        assert forall|x: Seq<char>| names.to_set().contains(x) implies e.to_set().contains(x) by {
            let i = choose|i: int| 0 <= i < names.len() && names[i] == x;
            assert(self.spec_has_node(names[i]));
            let j = choose|j: int|
                0 <= j < self.channels@.len() && spec_touches(#[trigger] self.channels@[j], x);
            assert((2 * j) / 2 == j && (2 * j) % 2 == 0 && (2 * j + 1) / 2 == j && (2 * j + 1) % 2
                == 1) by (nonlinear_arith);
            if self.channels@[j].local_node_id@ == x {
                assert(e[2 * j] == x);
            } else {
                assert(e[2 * j + 1] == x);
            }
        }
        names.unique_seq_to_set();
        e.lemma_cardinality_of_set();
        vstd::seq_lib::seq_to_set_is_finite(e);
        vstd::set_lib::lemma_len_subset(names.to_set(), e.to_set());
    }

    /// The search-entry facts kept for nodes queued from a path of `k` steps.
    spec fn spec_entry_ok(
        &self,
        src: Seq<char>,
        amount: int,
        k: int,
        e: (String, Vec<(String, usize)>),
    ) -> bool {
        &&& self.spec_liquid_path(src, spec_path_view(e.1@), amount)
        &&& spec_path_view(e.1@).len() == k
        &&& spec_path_end(src, spec_path_view(e.1@)) == e.0@
        &&& self.spec_has_node(e.0@)
    }

    /// Scan the channels of `node` in order; queue every unvisited neighbour
    /// that the channel can carry `amount` to, and stop with the extended
    /// path as soon as that neighbour is `dst`.
    fn expand(
        &self,
        Ghost(src): Ghost<Seq<char>>,
        node: &String,
        path: &Vec<(String, usize)>,
        dst: &str,
        amount: Satoshi,
        visited: &mut Vec<String>,
        next: &mut Vec<(String, Vec<(String, usize)>)>,
    ) -> (found: Option<Vec<(String, usize)>>)
        requires
            self.wf(),
            self.spec_liquid_path(src, spec_path_view(path@), amount as int),
            spec_path_end(src, spec_path_view(path@)) == node@,
        ensures
            final(next)@.len() >= old(next)@.len(),
            final(next)@.subrange(0, old(next)@.len() as int) == old(next)@,
            spec_names(final(visited)@) == spec_names(old(visited)@) + spec_entry_names(
                final(next)@.subrange(old(next)@.len() as int, final(next)@.len() as int),
            ),
            forall|t: int|
                old(next)@.len() <= t < final(next)@.len() ==> !spec_names(old(visited)@).contains(
                    #[trigger] final(next)@[t].0@,
                ) && self.spec_entry_ok(
                    src,
                    amount as int,
                    (spec_path_view(path@).len() + 1) as int,
                    final(next)@[t],
                ),
            spec_names(old(visited)@).no_duplicates() ==> spec_names(final(visited)@).no_duplicates(),
            found is None ==> forall|j: int, w: Seq<char>|
                #[trigger] self.spec_liquid_step(node@, w, j, amount as int) ==> spec_names(
                    final(visited)@,
                ).contains(w),
            found is None && !spec_names(old(visited)@).contains(dst@) ==> !spec_names(
                final(visited)@,
            ).contains(dst@),
            found matches Some(fp) ==> {
                &&& !spec_names(old(visited)@).contains(dst@)
                &&& self.spec_liquid_path(src, spec_path_view(fp@), amount as int)
                &&& spec_path_view(fp@).len() == spec_path_view(path@).len() + 1
                &&& spec_path_end(src, spec_path_view(fp@)) == dst@
                &&& forall|i: int| 0 <= i < fp@.len() ==> #[trigger] fp@[i].1 < self.channels@.len()
            },
    {
        let ghost old_names = spec_names(visited@);
        let ghost old_next = next@;
        let ghost pv = spec_path_view(path@);
        let mut j: usize = 0;
        while j < self.channels.len()
            invariant
                self.wf(),
                j <= self.channels@.len(),
                pv == spec_path_view(path@),
                self.spec_liquid_path(src, pv, amount as int),
                spec_path_end(src, pv) == node@,
                old_next == old(next)@,
                old_names == spec_names(old(visited)@),
                next@.len() >= old_next.len(),
                next@.subrange(0, old_next.len() as int) == old_next,
                spec_names(visited@) == old_names + spec_entry_names(
                    next@.subrange(old_next.len() as int, next@.len() as int),
                ),
                forall|t: int|
                    old_next.len() <= t < next@.len() ==> !old_names.contains(#[trigger] next@[t].0@)
                        && self.spec_entry_ok(src, amount as int, (pv.len() + 1) as int, next@[t]),
                old_names.no_duplicates() ==> spec_names(visited@).no_duplicates(),
                forall|jj: int, w: Seq<char>|
                    0 <= jj < j && #[trigger] self.spec_liquid_step(node@, w, jj, amount as int)
                        ==> spec_names(visited@).contains(w),
                !old_names.contains(dst@) ==> !spec_names(visited@).contains(dst@),
            decreases self.channels@.len() - j,
        {
            let ch = &self.channels[j];
            let touches = ch.local_node_id == *node || ch.remote_node_id == *node;
            if touches {
                let (neighbor, policy) = if ch.local_node_id == *node {
                    (&ch.remote_node_id, self.policies[j].0)
                } else {
                    (&ch.local_node_id, self.policies[j].1)
                };
                assert(policy == self.spec_out_policy(j as int, node@));
                if !is_listed(visited, neighbor) && policy.available_liquidity_sat >= amount {
                    let new_path = extend_path(path, neighbor, j);
                    proof {
                        self.lemma_path_push(src, pv, neighbor@, j as int, amount as int);
                    }
                    if str_eq(neighbor.as_str(), dst) {
                        proof {
                            if old_names.contains(dst@) {
                                let i = choose|i: int| 0 <= i < old_names.len() && old_names[i] == dst@;
                                assert(spec_names(visited@)[i] == dst@);
                            }
                            assert forall|i: int| 0 <= i < new_path@.len() implies #[trigger] new_path@[i].1
                                < self.channels@.len() by {
                                assert(spec_path_view(new_path@)[i].1 == new_path@[i].1 as int);
                                assert(self.spec_liquid_step(
                                    spec_hop_from(src, spec_path_view(new_path@), i),
                                    spec_path_view(new_path@)[i].0,
                                    spec_path_view(new_path@)[i].1,
                                    amount as int,
                                ));
                            }
                        }
                        return Some(new_path);
                    }
                    let ghost names_before = spec_names(visited@);
                    let ghost next_before = next@;
                    visited.push(neighbor.clone());
                    next.push((neighbor.clone(), new_path));
                    proof {
                        assert(spec_names(visited@) =~= names_before.push(neighbor@));
                        assert(next@.subrange(0, old_next.len() as int) =~= old_next) by {
                            assert forall|t: int| 0 <= t < old_next.len() implies next@[t] == old_next[t] by {
                                assert(next@[t] == next_before[t]);
                                assert(next_before.subrange(0, old_next.len() as int)[t] == old_next[t]);
                            }
                        }
                        assert(next@.subrange(old_next.len() as int, next@.len() as int) =~= next_before.subrange(
                            old_next.len() as int,
                            next_before.len() as int,
                        ).push(next@[next@.len() - 1]));
                        assert(spec_entry_names(next@.subrange(old_next.len() as int, next@.len() as int))
                            =~= spec_entry_names(
                            next_before.subrange(old_next.len() as int, next_before.len() as int),
                        ).push(neighbor@));
                        assert(spec_names(visited@) =~= old_names + spec_entry_names(
                            next@.subrange(old_next.len() as int, next@.len() as int),
                        ));
                        assert forall|t: int| old_next.len() <= t < next@.len() implies !old_names.contains(
                            #[trigger] next@[t].0@,
                        ) && self.spec_entry_ok(src, amount as int, (pv.len() + 1) as int, next@[t]) by {
                            if t < next@.len() - 1 {
                                assert(next@[t] == next_before[t]);
                            } else {
                                assert(self.spec_has_node(neighbor@)) by {
                                    assert(spec_touches(self.channels@[j as int], neighbor@));
                                }
                                if old_names.contains(neighbor@) {
                                    let i = choose|i: int| 0 <= i < old_names.len() && old_names[i] == neighbor@;
                                    assert(names_before[i] == neighbor@);
                                }
                            }
                        }
                        if old_names.no_duplicates() {
                            assert(spec_names(visited@).no_duplicates()) by {
                                assert forall|a: int, b: int|
                                    0 <= a < b < spec_names(visited@).len() implies spec_names(visited@)[a]
                                    != spec_names(visited@)[b] by {
                                    if b == spec_names(visited@).len() - 1 {
                                        assert(names_before[a] == spec_names(visited@)[a]);
                                    } else {
                                        assert(names_before[a] == spec_names(visited@)[a]);
                                        assert(names_before[b] == spec_names(visited@)[b]);
                                    }
                                }
                            }
                        }
                        assert forall|jj: int, w: Seq<char>|
                            0 <= jj < j + 1 && #[trigger] self.spec_liquid_step(node@, w, jj, amount as int)
                                implies spec_names(visited@).contains(w) by {
                            if jj < j {
                                assert(names_before.contains(w));
                                let i = choose|i: int| 0 <= i < names_before.len() && names_before[i] == w;
                                assert(spec_names(visited@)[i] == w);
                            } else {
                                assert(spec_names(visited@)[names_before.len() as int] == w);
                            }
                        }
                        if !old_names.contains(dst@) {
                            assert(!spec_names(visited@).contains(dst@)) by {
                                if spec_names(visited@).contains(dst@) {
                                    let i = choose|i: int|
                                        0 <= i < spec_names(visited@).len() && spec_names(visited@)[i] == dst@;
                                    if i < names_before.len() {
                                        assert(names_before[i] == dst@);
                                    }
                                }
                            }
                        }
                    }
                } else {
                    proof {
                        assert forall|jj: int, w: Seq<char>|
                            0 <= jj < j + 1 && #[trigger] self.spec_liquid_step(node@, w, jj, amount as int)
                                implies spec_names(visited@).contains(w) by {
                            if jj == j {
                                assert(w == neighbor@);
                            }
                        }
                    }
                }
            }
            j = j + 1;
        }
        None
    }

    /// One breadth-first round: from the nodes reached within `k` steps
    /// (`vk`) and the level-`k` frontier, the nodes queued in the round
    /// (`next`) complete the nodes reached within `k + 1` steps.
    proof fn lemma_next_level(
        &self,
        src: Seq<char>,
        amount: int,
        k: int,
        vk: Seq<Seq<char>>,
        frontier: Seq<(String, Vec<(String, usize)>)>,
        next: Seq<(String, Vec<(String, usize)>)>,
        vnew: Seq<Seq<char>>,
    )
        requires
            k >= 0,
            forall|i: int| 0 <= i < vk.len() ==> self.spec_reaches_within(src, #[trigger] vk[i], amount, k),
            forall|w: Seq<char>| #[trigger] self.spec_reaches_within(src, w, amount, k) ==> vk.contains(w),
            forall|u: Seq<char>|
                #[trigger] self.spec_reaches_within(src, u, amount, k) && !self.spec_reaches_within(
                    src,
                    u,
                    amount,
                    k - 1,
                ) ==> spec_entry_names(frontier).contains(u),
            vnew == vk + spec_entry_names(next),
            forall|t: int|
                0 <= t < next.len() ==> !vk.contains(#[trigger] next[t].0@) && self.spec_entry_ok(
                    src,
                    amount,
                    k + 1,
                    next[t],
                ),
            forall|i: int, j: int, w: Seq<char>|
                0 <= i < frontier.len() && #[trigger] self.spec_liquid_step(frontier[i].0@, w, j, amount)
                    ==> vnew.contains(w),
        ensures
            forall|i: int| 0 <= i < vnew.len() ==> self.spec_reaches_within(src, #[trigger] vnew[i], amount, k + 1),
            forall|w: Seq<char>| #[trigger] self.spec_reaches_within(src, w, amount, k + 1) ==> vnew.contains(w),
            forall|u: Seq<char>|
                #[trigger] self.spec_reaches_within(src, u, amount, k + 1) && !self.spec_reaches_within(
                    src,
                    u,
                    amount,
                    k,
                ) ==> spec_entry_names(next).contains(u),
    {
        assert forall|i: int| 0 <= i < vnew.len() implies self.spec_reaches_within(
            src,
            #[trigger] vnew[i],
            amount,
            k + 1,
        ) by {
            if i < vk.len() {
                assert(vnew[i] == vk[i]);
                self.lemma_reach_monotone(src, vk[i], amount, k, k + 1);
            } else {
                let t = i - vk.len();
                assert(vnew[i] == next[t].0@);
                assert(self.spec_entry_ok(src, amount, k + 1, next[t]));
                assert(self.spec_liquid_path(src, spec_path_view(next[t].1@), amount));
            }
        }
        assert forall|w: Seq<char>| #[trigger] self.spec_reaches_within(src, w, amount, k + 1) implies vnew.contains(
            w,
        ) by {
            if self.spec_reaches_within(src, w, amount, k) {
                let i = choose|i: int| 0 <= i < vk.len() && vk[i] == w;
                assert(vnew[i] == w);
            } else {
                let (u, j) = self.lemma_reach_pred(src, w, amount, k);
                assert(spec_entry_names(frontier).contains(u));
                let i = choose|i: int|
                    0 <= i < spec_entry_names(frontier).len() && spec_entry_names(frontier)[i] == u;
                assert(frontier[i].0@ == u);
                assert(self.spec_liquid_step(frontier[i].0@, w, j, amount));
            }
        }
        assert forall|u: Seq<char>|
            #[trigger] self.spec_reaches_within(src, u, amount, k + 1) && !self.spec_reaches_within(
                src,
                u,
                amount,
                k,
            ) implies spec_entry_names(next).contains(u) by {
            let i = choose|i: int| 0 <= i < vnew.len() && vnew[i] == u;
            if i < vk.len() {
                assert(vk[i] == u);
            } else {
                assert(spec_entry_names(next)[i - vk.len()] == u);
            }
        }
    }

    /// `true` when some channel has `u` as one of its ends.
    fn has_node(&self, u: &str) -> (r: bool)
        ensures
            r == self.spec_has_node(u@),
    {
        let mut j: usize = 0;
        while j < self.channels.len()
            invariant
                j <= self.channels@.len(),
                forall|i: int| 0 <= i < j ==> !spec_touches(#[trigger] self.channels@[i], u@),
            decreases self.channels@.len() - j,
        {
            if str_eq(self.channels[j].local_node_id.as_str(), u) || str_eq(
                self.channels[j].remote_node_id.as_str(),
                u,
            ) {
                assert(spec_touches(self.channels@[j as int], u@));
                return true;
            }
            j = j + 1;
        }
        false
    }

    /// A route from `src` to `dst` for `amount_sat` with the fewest hops,
    /// found by breadth-first search over the channels with liquidity for
    /// the amount, priced backwards from `dst`.
    pub fn find_route(&self, src: &str, dst: &str, amount_sat: Satoshi) -> (r: Result<Route, RouterError>)
        requires
            self.wf(),
            forall|p: Seq<(Seq<char>, int)>|
                #[trigger] self.spec_shortest_route(src@, dst@, p, amount_sat as int)
                    ==> self.spec_route_run(p, amount_sat as int, p.len() as int) <= u64::MAX,
        ensures
            !self.spec_has_node(src@) ==> (r matches Err(RouterError::NodeNotFound(s)) && s@ == src@),
            self.spec_has_node(src@) && !self.spec_has_node(dst@) ==> (r matches Err(
                RouterError::NodeNotFound(s),
            ) && s@ == dst@),
            self.spec_has_node(src@) && self.spec_has_node(dst@) ==> (r is Ok || (r matches Err(
                RouterError::NoRoute { src: s, dst: d },
            ) && s@ == src@ && d@ == dst@)),
            r matches Ok(route) ==> exists|p: Seq<(Seq<char>, int)>|
                #[trigger] self.spec_shortest_route(src@, dst@, p, amount_sat as int)
                    && self.spec_route_matches(route, p, amount_sat as int),
            (r matches Err(RouterError::NoRoute { .. })) ==> src@ == dst@ || forall|
                p: Seq<(Seq<char>, int)>,
            |
                #[trigger] self.spec_liquid_path(src@, p, amount_sat as int) && p.len() >= 1
                    ==> spec_path_end(src@, p) != dst@,
    {
        if !self.has_node(src) {
            return Err(RouterError::NodeNotFound(String::from_str(src)));
        }
        if !self.has_node(dst) {
            return Err(RouterError::NodeNotFound(String::from_str(dst)));
        }
        let ghost s = src@;
        let ghost d = dst@;
        let ghost a = amount_sat as int;
        let src_name = String::from_str(src);
        let mut visited: Vec<String> = Vec::new();
        visited.push(src_name.clone());
        let mut frontier: Vec<(String, Vec<(String, usize)>)> = Vec::new();
        frontier.push((src_name, Vec::new()));
        let ghost mut k: int = 0;
        proof {
            let e = Seq::<(Seq<char>, int)>::empty();
            assert(self.spec_liquid_path(s, e, a));
            assert(spec_names(visited@)[0] == s);
            assert(spec_path_view(frontier@[0].1@) =~= e);
            assert forall|w: Seq<char>| #[trigger] self.spec_reaches_within(s, w, a, 0) implies spec_names(
                visited@,
            ).contains(w) by {
                let p = choose|p: Seq<(Seq<char>, int)>|
                    #[trigger] self.spec_liquid_path(s, p, a) && p.len() <= 0 && spec_path_end(s, p) == w;
                assert(spec_names(visited@)[0] == w);
            }
            assert forall|u: Seq<char>|
                #[trigger] self.spec_reaches_within(s, u, a, 0) && !self.spec_reaches_within(
                    s,
                    u,
                    a,
                    0 - 1,
                ) implies spec_entry_names(frontier@).contains(u) by {
                let p = choose|p: Seq<(Seq<char>, int)>|
                    #[trigger] self.spec_liquid_path(s, p, a) && p.len() <= 0 && spec_path_end(s, p) == u;
                assert(spec_entry_names(frontier@)[0] == u);
            }
            assert(spec_names(visited@).no_duplicates());
        }
        while frontier.len() > 0
            invariant
                self.wf(),
                s == src@,
                d == dst@,
                a == amount_sat as int,
                self.spec_has_node(s),
                forall|p: Seq<(Seq<char>, int)>|
                    #[trigger] self.spec_shortest_route(s, d, p, a) ==> self.spec_route_run(p, a, p.len() as int)
                        <= u64::MAX,
                k >= 0,
                forall|i: int|
                    0 <= i < visited@.len() ==> self.spec_reaches_within(
                        s,
                        #[trigger] spec_names(visited@)[i],
                        a,
                        k,
                    ),
                forall|w: Seq<char>| #[trigger] self.spec_reaches_within(s, w, a, k) ==> spec_names(visited@).contains(w),
                forall|i: int| 0 <= i < frontier@.len() ==> self.spec_entry_ok(s, a, k, #[trigger] frontier@[i]),
                forall|u: Seq<char>|
                    #[trigger] self.spec_reaches_within(s, u, a, k) && !self.spec_reaches_within(s, u, a, k - 1)
                        ==> spec_entry_names(frontier@).contains(u),
                spec_names(visited@).contains(s),
                s != d ==> !spec_names(visited@).contains(d),
                spec_names(visited@).no_duplicates(),
                forall|i: int| 0 <= i < visited@.len() ==> self.spec_has_node(#[trigger] spec_names(visited@)[i]),
            decreases 2 * self.channels@.len() + 2 + (if frontier@.len() > 0 {
                1int
            } else {
                0int
            }) - visited@.len(),
        {
            proof {
                self.lemma_visited_bound(spec_names(visited@));
            }
            let ghost vk = spec_names(visited@);
            let mut next: Vec<(String, Vec<(String, usize)>)> = Vec::new();
            let mut fi: usize = 0;
            while fi < frontier.len()
                invariant
                    self.wf(),
                    s == src@,
                    d == dst@,
                    a == amount_sat as int,
                    forall|p: Seq<(Seq<char>, int)>|
                        #[trigger] self.spec_shortest_route(s, d, p, a) ==> self.spec_route_run(p, a, p.len() as int)
                            <= u64::MAX,
                    k >= 0,
                    fi <= frontier@.len(),
                    forall|w: Seq<char>| #[trigger] self.spec_reaches_within(s, w, a, k) ==> vk.contains(w),
                    forall|i: int| 0 <= i < frontier@.len() ==> self.spec_entry_ok(s, a, k, #[trigger] frontier@[i]),
                    vk.contains(s),
                    vk.no_duplicates(),
                    s != d ==> !spec_names(visited@).contains(d),
                    spec_names(visited@) == vk + spec_entry_names(next@),
                    forall|t: int|
                        0 <= t < next@.len() ==> !vk.contains(#[trigger] next@[t].0@) && self.spec_entry_ok(
                            s,
                            a,
                            k + 1,
                            next@[t],
                        ),
                    spec_names(visited@).no_duplicates(),
                    forall|i: int, j: int, w: Seq<char>|
                        0 <= i < fi && #[trigger] self.spec_liquid_step(frontier@[i].0@, w, j, a)
                            ==> spec_names(visited@).contains(w),
                decreases frontier@.len() - fi,
            {
                let ghost visited_before = spec_names(visited@);
                let ghost next_before = next@;
                assert(self.spec_entry_ok(s, a, k, frontier@[fi as int]));
                let found = self.expand(
                    Ghost(s),
                    &frontier[fi].0,
                    &frontier[fi].1,
                    dst,
                    amount_sat,
                    &mut visited,
                    &mut next,
                );
                match found {
                    Some(fp) => {
                        proof {
                            let pv = spec_path_view(fp@);
                            if vk.contains(d) {
                                let i = choose|i: int| 0 <= i < vk.len() && vk[i] == d;
                                assert(visited_before[i] == d);
                            }
                            assert(self.spec_shortest_route(s, d, pv, a));
                        }
                        let route = self.build_route(&fp, amount_sat);
                        proof {
                            assert(self.spec_shortest_route(src@, dst@, spec_path_view(fp@), amount_sat as int));
                        }
                        return Ok(route);
                    },
                    None => {},
                }
                proof {
                    let added = next@.subrange(next_before.len() as int, next@.len() as int);
                    assert(next@ =~= next_before + added) by {
                        assert(next@.subrange(0, next_before.len() as int) == next_before);
                    }
                    assert(spec_entry_names(next@) =~= spec_entry_names(next_before) + spec_entry_names(added));
                    assert(spec_names(visited@) =~= vk + spec_entry_names(next@));
                    assert forall|t: int|
                        0 <= t < next@.len() implies !vk.contains(#[trigger] next@[t].0@) && self.spec_entry_ok(
                            s,
                            a,
                            k + 1,
                            next@[t],
                        ) by {
                        if t < next_before.len() {
                            assert(next@[t] == next_before[t]);
                        } else {
                            assert(!visited_before.contains(next@[t].0@));
                            if vk.contains(next@[t].0@) {
                                let i = choose|i: int| 0 <= i < vk.len() && vk[i] == next@[t].0@;
                                assert(visited_before[i] == next@[t].0@);
                            }
                        }
                    }
                    assert forall|i: int, j: int, w: Seq<char>|
                        0 <= i < fi + 1 && #[trigger] self.spec_liquid_step(frontier@[i].0@, w, j, a)
                            implies spec_names(visited@).contains(w) by {
                        if i < fi {
                            assert(visited_before.contains(w));
                            let x = choose|x: int| 0 <= x < visited_before.len() && visited_before[x] == w;
                            assert(spec_names(visited@)[x] == w);
                        }
                    }
                }
                fi = fi + 1;
            }
            proof {
                self.lemma_next_level(s, a, k, vk, frontier@, next@, spec_names(visited@));
                assert forall|i: int| 0 <= i < visited@.len() implies self.spec_has_node(
                    #[trigger] spec_names(visited@)[i],
                ) by {
                    if i < vk.len() {
                        assert(spec_names(visited@)[i] == vk[i]);
                    } else {
                        let t = i - vk.len();
                        assert(spec_names(visited@)[i] == next@[t].0@);
                        assert(self.spec_entry_ok(s, a, k + 1, next@[t]));
                    }
                }
                assert(spec_names(visited@)[0] == vk[0]);
                let i0 = choose|i: int| 0 <= i < vk.len() && vk[i] == s;
                assert(spec_names(visited@)[i0] == s);
                self.lemma_visited_bound(spec_names(visited@));
                k = k + 1;
            }
            let ghost nx = next@;
            frontier = next;
            proof {
                assert forall|i: int| 0 <= i < frontier@.len() implies self.spec_entry_ok(
                    s,
                    a,
                    k,
                    #[trigger] frontier@[i],
                ) by {
                    assert(frontier@[i] == nx[i]);
                    assert(!vk.contains(nx[i].0@));
                }
            }
        }
        proof {
            assert forall|u: Seq<char>| #[trigger] self.spec_reaches_within(s, u, a, k) implies self.spec_reaches_within(
                s,
                u,
                a,
                k - 1,
            ) by {
                if !self.spec_reaches_within(s, u, a, k - 1) {
                    assert(spec_entry_names(frontier@).contains(u));
                }
            }
            if s != d {
                assert forall|p: Seq<(Seq<char>, int)>|
                    #[trigger] self.spec_liquid_path(s, p, a) && p.len() >= 1 implies spec_path_end(s, p) != d by {
                    self.lemma_reach_closed(s, a, k, p);
                }
            }
        }
        Err(RouterError::NoRoute { src: String::from_str(src), dst: String::from_str(dst) })
    }

    /// The index of the channel with id `id` (meaningful when there is one).
    pub open spec fn spec_channel_at(&self, id: Seq<char>) -> int {
        choose|j: int| 0 <= j < self.channels@.len() && self.channels@[j].channel_id@ == id
    }

    /// `true` when some channel has id `id`.
    pub open spec fn spec_has_channel(&self, id: Seq<char>) -> bool {
        exists|j: int| 0 <= j < self.channels@.len() && #[trigger] self.channels@[j].channel_id@ == id
    }

    /// Every hop of `route` crosses its own channel of the router, and that
    /// channel is open, holds what the hop locks on its payer's side and has
    /// no pending HTLC locked to `hash`.
    pub open spec fn spec_clean_payment(&self, route: Route, hash: Seq<u8>) -> bool {
        let hops = route.hops@;
        &&& forall|t: int| 0 <= t < hops.len() ==> self.spec_has_channel(#[trigger] hops[t].channel_id@)
        &&& forall|t1: int, t2: int|
            0 <= t1 < t2 < hops.len() ==> #[trigger] hops[t1].channel_id@ != #[trigger] hops[t2].channel_id@
        &&& forall|t: int|
            #![trigger hops[t]]
            0 <= t < hops.len() ==> {
                let c = self.channels@[self.spec_channel_at(hops[t].channel_id@)];
                &&& c.state == ChannelState::Open
                &&& c.spec_side(spec_local_pays(c, hops[t].node_id@)) >= spec_hop_lock(hops[t])
                &&& spec_find_htlc(c.pending_htlcs@, hash) == c.pending_htlcs@.len()
            }
    }

    proof fn lemma_channel_at(&self, id: Seq<char>, j: int)
        requires
            self.wf(),
            0 <= j < self.channels@.len(),
            self.channels@[j].channel_id@ == id,
        ensures
            self.spec_channel_at(id) == j,
    {
        let c = self.spec_channel_at(id);
        if c != j {
            if c < j {
                assert(self.channels@[c].channel_id@ != self.channels@[j].channel_id@);
            } else {
                assert(self.channels@[j].channel_id@ != self.channels@[c].channel_id@);
            }
        }
    }

    /// An empty router.
    pub fn new() -> (r: Self)
        ensures
            r.wf(),
            r.channels@.len() == 0,
    {
        LnRouter { channels: Vec::new(), policies: Vec::new() }
    }

    /// The index of the channel with id `channel_id`.
    fn channel_index(&self, channel_id: &str) -> (r: Option<usize>)
        ensures
            r matches Some(i) ==> i < self.channels@.len() && self.channels@[i as int].channel_id@
                == channel_id@,
            r is None ==> forall|j: int|
                0 <= j < self.channels@.len() ==> self.channels@[j].channel_id@ != channel_id@,
    {
        let mut i: usize = 0;
        while i < self.channels.len()
            invariant
                i <= self.channels@.len(),
                forall|j: int| 0 <= j < i ==> self.channels@[j].channel_id@ != channel_id@,
            decreases self.channels@.len() - i,
        {
            if str_eq(self.channels[i].channel_id.as_str(), channel_id) {
                return Some(i);
            }
            i = i + 1;
        }
        None
    }

    /// The channel with id `channel_id`, if the router has it.
    pub fn channel(&self, channel_id: &str) -> (r: Option<&BtcLightningChannel>)
        ensures
            r matches Some(c) ==> exists|j: int|
                0 <= j < self.channels@.len() && self.channels@[j].channel_id@ == channel_id@
                    && *c == #[trigger] self.channels@[j],
            r is None <==> forall|j: int|
                0 <= j < self.channels@.len() ==> self.channels@[j].channel_id@ != channel_id@,
    {
        match self.channel_index(channel_id) {
            Some(i) => Some(&self.channels[i]),
            None => None,
        }
    }

    /// Pay along `route`: on every hop, from the sender on, the hop's payer
    /// (the channel end the hop does not reach) locks the hop's amount plus
    /// its fee in an HTLC to `SHA-256(preimage)`; then the HTLCs settle from
    /// the recipient back, each paying its lock to the hop's node.  Returns
    /// the amount the recipient received.  A failing hop stops the payment
    /// with the changes made so far in place.
    pub fn execute_payment(&mut self, route: &Route, preimage: &[u8; 32]) -> (r: Result<Satoshi, RouterError>)
        requires
            old(self).wf(),
            forall|j: int|
                0 <= j < old(self).channels@.len() ==> (#[trigger] old(self).channels@[j]).spec_total()
                    <= u64::MAX,
            forall|j: int|
                0 <= j < old(self).channels@.len() ==> (#[trigger] old(self).channels@[j]).commitment_number
                    + 2 * route.hops@.len() <= u64::MAX,
            forall|j: int|
                0 <= j < old(self).channels@.len() ==> (#[trigger] old(self).channels@[j]).next_htlc_id
                    + route.hops@.len() <= u64::MAX,
        ensures
            final(self).wf(),
            final(self).policies@ == old(self).policies@,
            final(self).channels@.len() == old(self).channels@.len(),
            forall|j: int|
                #![trigger final(self).channels@[j]]
                0 <= j < old(self).channels@.len() ==> {
                    let o = old(self).channels@[j];
                    let f = final(self).channels@[j];
                    &&& f.channel_id == o.channel_id
                    &&& f.local_node_id == o.local_node_id
                    &&& f.remote_node_id == o.remote_node_id
                    &&& f.state == o.state
                    &&& f.spec_total() == o.spec_total()
                },
            r matches Ok(v) ==> v == (if route.hops@.len() == 0 {
                0
            } else {
                route.hops@.last().amount_sat
            }),
            r matches Ok(_) ==> forall|t: int|
                0 <= t < route.hops@.len() ==> old(self).spec_has_channel(#[trigger] route.hops@[t].channel_id@),
            r matches Err(e) ==> (e matches RouterError::HopFailed { hop, .. } && hop < route.hops@.len()),
            old(self).spec_clean_payment(*route, spec_sha256(preimage@)) ==> {
                &&& r == Ok::<Satoshi, RouterError>(
                    if route.hops@.len() == 0 {
                        0
                    } else {
                        route.hops@.last().amount_sat
                    },
                )
                &&& forall|t: int|
                    #![trigger route.hops@[t]]
                    0 <= t < route.hops@.len() ==> {
                        let j = old(self).spec_channel_at(route.hops@[t].channel_id@);
                        spec_hop_settled(old(self).channels@[j], final(self).channels@[j], route.hops@[t])
                    }
                &&& forall|j: int|
                    0 <= j < old(self).channels@.len() && (forall|t: int|
                        0 <= t < route.hops@.len() ==> old(self).channels@[j].channel_id@
                            != #[trigger] route.hops@[t].channel_id@) ==> #[trigger] final(self).channels@[j]
                        == old(self).channels@[j]
            },
    {
        let n = route.hops.len();
        let ghost h = spec_sha256(preimage@);
        let ghost o = *old(self);
        let ghost clean = o.spec_clean_payment(*route, h);
        let mut i: usize = 0;
        while i < n
            invariant
                n == route.hops@.len(),
                h == spec_sha256(preimage@),
                o == *old(self),
                clean == o.spec_clean_payment(*route, h),
                o.wf(),
                forall|j: int| 0 <= j < o.channels@.len() ==> (#[trigger] o.channels@[j]).spec_total() <= u64::MAX,
                forall|j: int|
                    0 <= j < o.channels@.len() ==> (#[trigger] o.channels@[j]).commitment_number + 2 * n
                        <= u64::MAX,
                forall|j: int|
                    0 <= j < o.channels@.len() ==> (#[trigger] o.channels@[j]).next_htlc_id + n <= u64::MAX,
                i <= n,
                self.wf(),
                self.policies@ == o.policies@,
                self.channels@.len() == o.channels@.len(),
                forall|j: int|
                    #![trigger self.channels@[j]]
                    0 <= j < o.channels@.len() ==> {
                        let c = self.channels@[j];
                        let oc = o.channels@[j];
                        &&& c.channel_id == oc.channel_id
                        &&& c.local_node_id == oc.local_node_id
                        &&& c.remote_node_id == oc.remote_node_id
                        &&& c.state == oc.state
                        &&& c.spec_total() == oc.spec_total()
                        &&& c.commitment_number <= oc.commitment_number + i
                        &&& c.next_htlc_id <= oc.next_htlc_id + i
                    },
                forall|t: int| 0 <= t < i ==> o.spec_has_channel(#[trigger] route.hops@[t].channel_id@),
                clean ==> forall|t: int|
                    #![trigger route.hops@[t]]
                    0 <= t < i ==> {
                        let j = o.spec_channel_at(route.hops@[t].channel_id@);
                        spec_hop_locked(o.channels@[j], self.channels@[j], route.hops@[t], h)
                    },
                clean ==> forall|j: int|
                    0 <= j < o.channels@.len() && (forall|t: int|
                        0 <= t < i ==> o.channels@[j].channel_id@ != #[trigger] route.hops@[t].channel_id@)
                        ==> #[trigger] self.channels@[j] == o.channels@[j],
            decreases n - i,
        {
            let hop = &route.hops[i];
            let ci = match self.channel_index(hop.channel_id.as_str()) {
                Some(ci) => ci,
                None => {
                    proof {
                        if clean {
                            let id = route.hops@[i as int].channel_id@;
                            assert(o.spec_has_channel(id));
                            let j = choose|j: int|
                                0 <= j < o.channels@.len() && #[trigger] o.channels@[j].channel_id@ == id;
                            assert(self.channels@[j].channel_id == o.channels@[j].channel_id);
                        }
                    }
                    let mut reason = String::from_str("channel ");
                    reason.append(hop.channel_id.as_str());
                    reason.append(" not found");
                    return Err(RouterError::HopFailed { hop: i, reason });
                },
            };
            proof {
                o.lemma_channel_at(hop.channel_id@, ci as int);
                assert(o.spec_has_channel(route.hops@[i as int].channel_id@)) by {
                    assert(o.channels@[ci as int].channel_id@ == hop.channel_id@);
                }
                if clean {
                    assert(self.channels@[ci as int] == o.channels@[ci as int]) by {
                        assert forall|t: int| 0 <= t < i implies o.channels@[ci as int].channel_id@
                            != #[trigger] route.hops@[t].channel_id@ by {
                            assert(route.hops@[t].channel_id@ != route.hops@[i as int].channel_id@);
                        }
                    }
                }
            }
            let lock = match hop.amount_sat.checked_add(hop.fee_sat) {
                Some(v) => v,
                None => {
                    return Err(
                        RouterError::HopFailed { hop: i, reason: String::from_str("amount overflow") },
                    );
                },
            };
            let local_pays = str_eq(self.channels[ci].remote_node_id.as_str(), hop.node_id.as_str());
            let ghost before = self.channels@;
            let res = if local_pays {
                self.channels[ci].add_htlc(preimage, lock, hop.expiry_blocks, hop.node_id.as_str())
            } else {
                self.channels[ci].receive_htlc(preimage, lock, hop.expiry_blocks, hop.node_id.as_str())
            };
            proof {
                assert(self.channels@ == before.update(ci as int, self.channels@[ci as int]));
            }
            match res {
                Ok(_) => {},
                Err(e) => {
                    return Err(RouterError::HopFailed { hop: i, reason: e.to_message() });
                },
            }
            proof {
                if clean {
                    assert forall|t: int|
                        #![trigger route.hops@[t]]
                        0 <= t < i + 1 implies {
                        let j = o.spec_channel_at(route.hops@[t].channel_id@);
                        spec_hop_locked(o.channels@[j], self.channels@[j], route.hops@[t], h)
                    } by {
                        if t < i {
                            assert(route.hops@[t].channel_id@ != route.hops@[i as int].channel_id@);
                            let j = o.spec_channel_at(route.hops@[t].channel_id@);
                            assert(o.spec_has_channel(route.hops@[t].channel_id@));
                            assert(j != ci);
                        }
                    }
                    assert forall|j: int|
                        0 <= j < o.channels@.len() && (forall|t: int|
                            0 <= t < i + 1 ==> o.channels@[j].channel_id@ != #[trigger] route.hops@[t].channel_id@)
                            implies #[trigger] self.channels@[j] == o.channels@[j] by {
                        assert(o.channels@[j].channel_id@ != route.hops@[i as int].channel_id@);
                        assert(j != ci);
                        assert(before[j] == o.channels@[j]);
                    }
                }
            }
            i = i + 1;
        }
        let received = if n == 0 {
            0
        } else {
            route.hops[n - 1].amount_sat
        };
        let mut i: usize = n;
        while i > 0
            invariant
                n == route.hops@.len(),
                h == spec_sha256(preimage@),
                o == *old(self),
                clean == o.spec_clean_payment(*route, h),
                o.wf(),
                forall|j: int| 0 <= j < o.channels@.len() ==> (#[trigger] o.channels@[j]).spec_total() <= u64::MAX,
                forall|j: int|
                    0 <= j < o.channels@.len() ==> (#[trigger] o.channels@[j]).commitment_number + 2 * n
                        <= u64::MAX,
                i <= n,
                self.wf(),
                self.policies@ == o.policies@,
                self.channels@.len() == o.channels@.len(),
                forall|j: int|
                    #![trigger self.channels@[j]]
                    0 <= j < o.channels@.len() ==> {
                        let c = self.channels@[j];
                        let oc = o.channels@[j];
                        &&& c.channel_id == oc.channel_id
                        &&& c.local_node_id == oc.local_node_id
                        &&& c.remote_node_id == oc.remote_node_id
                        &&& c.state == oc.state
                        &&& c.spec_total() == oc.spec_total()
                        &&& c.commitment_number <= oc.commitment_number + n + (n - i)
                    },
                forall|t: int| 0 <= t < n ==> o.spec_has_channel(#[trigger] route.hops@[t].channel_id@),
                clean ==> forall|t: int|
                    #![trigger route.hops@[t]]
                    0 <= t < n ==> {
                        let j = o.spec_channel_at(route.hops@[t].channel_id@);
                        &&& t < i ==> spec_hop_locked(o.channels@[j], self.channels@[j], route.hops@[t], h)
                        &&& t >= i ==> spec_hop_settled(o.channels@[j], self.channels@[j], route.hops@[t])
                    },
                clean ==> forall|j: int|
                    0 <= j < o.channels@.len() && (forall|t: int|
                        0 <= t < n ==> o.channels@[j].channel_id@ != #[trigger] route.hops@[t].channel_id@)
                        ==> #[trigger] self.channels@[j] == o.channels@[j],
            decreases i,
        {
            i = i - 1;
            let hop = &route.hops[i];
            let ci = match self.channel_index(hop.channel_id.as_str()) {
                Some(ci) => ci,
                None => {
                    return Err(
                        RouterError::HopFailed {
                            hop: i,
                            reason: String::from_str("channel not found on settle"),
                        },
                    );
                },
            };
            proof {
                o.lemma_channel_at(hop.channel_id@, ci as int);
                let c = self.channels@[ci as int];
                let k = spec_find_htlc(c.pending_htlcs@, h);
                lemma_find_htlc_bounds(c.pending_htlcs@, h);
                if k < c.pending_htlcs@.len() {
                    lemma_pending_item_le_sum(c.pending_htlcs@, k);
                    lemma_pending_sum_nonneg(c.pending_htlcs@);
                }
                if clean {
                    let oc = o.channels@[ci as int];
                    let p = c.pending_htlcs@;
                    lemma_find_htlc_bounds(oc.pending_htlcs@, h);
                    assert forall|jj: int| 0 <= jj < oc.pending_htlcs@.len() implies p[jj].payment_hash@ != h by {
                        assert(p[jj] == p.drop_last()[jj]);
                    }
                    lemma_find_htlc_unique(p, h, oc.pending_htlcs@.len() as int);
                    assert(p.remove(oc.pending_htlcs@.len() as int) =~= oc.pending_htlcs@);
                }
            }
            let ghost before = self.channels@;
            let res = self.channels[ci].fulfill_htlc(preimage);
            proof {
                assert(self.channels@ == before.update(ci as int, self.channels@[ci as int]));
            }
            match res {
                Ok(_) => {},
                Err(e) => {
                    return Err(RouterError::HopFailed { hop: i, reason: e.to_message() });
                },
            }
            proof {
                if clean {
                    assert forall|t: int|
                        #![trigger route.hops@[t]]
                        0 <= t < n implies {
                        let j = o.spec_channel_at(route.hops@[t].channel_id@);
                        &&& t < i ==> spec_hop_locked(o.channels@[j], self.channels@[j], route.hops@[t], h)
                        &&& t >= i ==> spec_hop_settled(o.channels@[j], self.channels@[j], route.hops@[t])
                    } by {
                        if t != i {
                            if t < i {
                                assert(route.hops@[t].channel_id@ != route.hops@[i as int].channel_id@);
                            } else {
                                assert(route.hops@[i as int].channel_id@ != route.hops@[t].channel_id@);
                            }
                            let j = o.spec_channel_at(route.hops@[t].channel_id@);
                            assert(o.spec_has_channel(route.hops@[t].channel_id@));
                            assert(j != ci);
                        }
                    }
                    assert forall|j: int|
                        0 <= j < o.channels@.len() && (forall|t: int|
                            0 <= t < n ==> o.channels@[j].channel_id@ != #[trigger] route.hops@[t].channel_id@)
                            implies #[trigger] self.channels@[j] == o.channels@[j] by {
                        assert(o.channels@[j].channel_id@ != route.hops@[i as int].channel_id@);
                        assert(j != ci);
                        assert(before[j] == o.channels@[j]);
                    }
                }
            }
        }
        Ok(received)
    }

    /// Register a channel with its two routing policies: `dir0_policy` for
    /// local → remote, `dir1_policy` for remote → local.
    pub fn add_channel(
        &mut self,
        channel: BtcLightningChannel,
        dir0_policy: EdgePolicy,
        dir1_policy: EdgePolicy,
    ) -> (r: Result<(), RouterError>)
        requires
            old(self).wf(),
        ensures
            final(self).wf(),
            (exists|j: int|
                0 <= j < old(self).channels@.len() && #[trigger] old(self).channels@[j].channel_id@
                    == channel.channel_id@) ==> (r matches Err(RouterError::ChannelAlreadyExists(
                a,
                b,
            )) && a@ == channel.local_node_id@ && b@ == channel.remote_node_id@)
                && *final(self) == *old(self),
            (forall|j: int|
                0 <= j < old(self).channels@.len() ==> #[trigger] old(self).channels@[j].channel_id@
                    != channel.channel_id@) ==> r is Ok && final(self).channels@ == old(
                self,
            ).channels@.push(channel) && final(self).policies@ == old(self).policies@.push(
                (dir0_policy, dir1_policy),
            ),
    {
        match self.channel_index(channel.channel_id.as_str()) {
            Some(_) => {
                return Err(
                    RouterError::ChannelAlreadyExists(
                        channel.local_node_id.clone(),
                        channel.remote_node_id.clone(),
                    ),
                );
            },
            None => {},
        }
        let ghost old_channels = self.channels@;
        self.channels.push(channel);
        self.policies.push((dir0_policy, dir1_policy));
        assert forall|i: int, j: int|
            0 <= i < j < self.channels@.len() implies #[trigger] self.channels@[i].channel_id@
            != #[trigger] self.channels@[j].channel_id@ by {
            if j < old_channels.len() {
                assert(self.channels@[i] == old_channels[i]);
                assert(self.channels@[j] == old_channels[j]);
            }
        }
        Ok(())
    }
}

/// The recipient of a priced route receives exactly the amount the route
/// was priced for: the last hop carries the target and no fee.
pub proof fn lemma_route_delivers_target(router: LnRouter, route: Route, p: Seq<(Seq<char>, int)>, target: int)
    requires
        router.spec_route_matches(route, p, target),
        p.len() >= 1,
    ensures
        route.hops@.last().amount_sat == target,
        route.hops@.last().fee_sat == 0,
{
    let n = p.len() as int;
    assert(route.hops@[n - 1] == route.hops@.last());
    assert(router.spec_route_run(p, target, 0) == target);
    assert(router.spec_route_run(p, target, 1) == target);
}

} // verus!
