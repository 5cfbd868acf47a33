use sha2::Digest;
use pocc::lightning::channel::{BtcLightningChannel, ChannelError, ChannelState};
use pocc::lightning::invoice::{invoice_summary, BoltInvoice, InvoiceError};
use pocc::lightning::router::{EdgePolicy, LnRouter, RouterError};
use pocc::lightning::swap::{gateway_fee, invoice_amount_msat, net_after_fee};

const PREIMAGE: [u8; 32] = [0x11; 32];
const PREIMAGE2: [u8; 32] = [0x22; 32];

// ── channel ──────────────────────────────────────────────────────────────────

#[test]
fn open_channel_initial_balances() {
    let ch = BtcLightningChannel::open("alice", "bob", 1_000_000, 500_000);
    assert_eq!(ch.local_balance_sat, 1_000_000);
    assert_eq!(ch.remote_balance_sat, 500_000);
    assert_eq!(ch.state, ChannelState::Open);
    assert_eq!(ch.total_capacity_sat(), 1_500_000);
}

#[test]
fn add_and_fulfill_htlc() {
    let mut ch = BtcLightningChannel::open("alice", "bob", 1_000_000, 0);
    ch.add_htlc(&PREIMAGE, 50_000, 144, "bob").unwrap();
    assert_eq!(ch.local_balance_sat, 950_000);
    assert_eq!(ch.pending_htlcs.len(), 1);
    let earned = ch.fulfill_htlc(&PREIMAGE).unwrap();
    assert_eq!(earned, 50_000);
    assert_eq!(ch.remote_balance_sat, 50_000);
    assert!(ch.pending_htlcs.is_empty());
}

#[test]
fn fail_htlc_refunds_local() {
    let mut ch = BtcLightningChannel::open("alice", "bob", 1_000_000, 0);
    ch.add_htlc(&PREIMAGE, 100_000, 144, "bob").unwrap();
    ch.fail_htlc(&PREIMAGE).unwrap();
    assert_eq!(ch.local_balance_sat, 1_000_000);
    assert!(ch.pending_htlcs.is_empty());
}

#[test]
fn insufficient_balance_error() {
    let mut ch = BtcLightningChannel::open("alice", "bob", 1_000, 0);
    let err = ch.add_htlc(&PREIMAGE, 5_000, 144, "bob").unwrap_err();
    assert!(matches!(err, ChannelError::InsufficientBalance { .. }));
}

#[test]
fn cooperative_close() {
    let mut ch = BtcLightningChannel::open("alice", "bob", 800_000, 200_000);
    ch.add_htlc(&PREIMAGE, 100_000, 144, "bob").unwrap();
    ch.fulfill_htlc(&PREIMAGE).unwrap();
    let rec = ch.cooperative_close().unwrap();
    assert_eq!(rec.local_final_sat, 700_000);
    assert_eq!(rec.remote_final_sat, 300_000);
    assert_eq!(ch.state, ChannelState::Closed);
}

#[test]
fn commitment_number_increments() {
    let mut ch = BtcLightningChannel::open("alice", "bob", 1_000_000, 0);
    let n0 = ch.commitment_number;
    ch.add_htlc(&PREIMAGE, 1_000, 144, "bob").unwrap();
    assert_eq!(ch.commitment_number, n0 + 1);
    ch.fulfill_htlc(&PREIMAGE).unwrap();
    assert_eq!(ch.commitment_number, n0 + 2);
}

#[test]
fn wrong_preimage_fails() {
    let mut ch = BtcLightningChannel::open("alice", "bob", 1_000_000, 0);
    ch.add_htlc(&PREIMAGE, 1_000, 144, "bob").unwrap();
    assert!(matches!(ch.fulfill_htlc(&PREIMAGE2).unwrap_err(), ChannelError::HtlcError));
}

#[test]
fn closed_channel_refuses_updates() {
    let mut ch = BtcLightningChannel::open("alice", "bob", 1_000, 0);
    ch.cooperative_close().unwrap();
    match ch.add_htlc(&PREIMAGE, 10, 144, "bob") {
        Err(ChannelError::NotOpen(s)) => assert_eq!(s, "Closed"),
        _ => panic!("expected NotOpen"),
    }
    assert!(matches!(ch.cooperative_close(), Err(ChannelError::NotOpen(_))));
    assert_eq!(ch.local_balance_sat, 1_000);
}

fn funds(ch: &BtcLightningChannel) -> u64 {
    ch.local_balance_sat + ch.remote_balance_sat + ch.pending_htlcs.iter().map(|h| h.amount_sat).sum::<u64>()
}

#[test]
fn htlc_updates_conserve_funds() {
    let mut ch = BtcLightningChannel::open("alice", "bob", 500, 300);
    ch.add_htlc(&PREIMAGE, 100, 144, "bob").unwrap();
    ch.add_htlc(&PREIMAGE2, 50, 144, "bob").unwrap();
    assert_eq!(funds(&ch), 800);
    ch.fulfill_htlc(&PREIMAGE).unwrap();
    assert_eq!(funds(&ch), 800);
    ch.fail_htlc(&PREIMAGE2).unwrap();
    assert_eq!(funds(&ch), 800);
    assert_eq!(ch.local_balance_sat, 400);
    assert_eq!(ch.remote_balance_sat, 400);
}

#[test]
fn capacity_excludes_pending_htlcs() {
    let mut ch = BtcLightningChannel::open("alice", "bob", 1_000_000, 0);
    assert_eq!(ch.add_htlc(&PREIMAGE, 50_000, 144, "bob"), Ok(0));
    assert_eq!(ch.total_capacity_sat(), 950_000);
    ch.fulfill_htlc(&PREIMAGE).unwrap();
    assert_eq!(ch.total_capacity_sat(), 1_000_000);
}

#[test]
fn received_htlc_debits_remote_and_settles_to_local() {
    let mut ch = BtcLightningChannel::open("alice", "bob", 100, 500);
    assert_eq!(ch.receive_htlc(&PREIMAGE, 200, 144, "alice"), Ok(0));
    assert_eq!(ch.remote_balance_sat, 300);
    assert_eq!(ch.local_balance_sat, 100);
    assert!(!ch.pending_htlcs[0].offered_by_local);
    assert_eq!(ch.fulfill_htlc(&PREIMAGE), Ok(200));
    assert_eq!(ch.local_balance_sat, 300);
    assert_eq!(ch.remote_balance_sat, 300);
    assert_eq!(ch.receive_htlc(&PREIMAGE2, 50, 144, "alice"), Ok(1));
    assert_eq!(ch.fail_htlc(&PREIMAGE2), Ok(50));
    assert_eq!(ch.remote_balance_sat, 300);
    match ch.receive_htlc(&PREIMAGE, 301, 144, "alice") {
        Err(ChannelError::InsufficientBalance { holder, available, needed }) => {
            assert_eq!(holder, "bob");
            assert_eq!(available, 300);
            assert_eq!(needed, 301);
        }
        other => panic!("unexpected {other:?}"),
    }
}

#[test]
fn htlc_ids_count_up_from_zero() {
    let mut ch = BtcLightningChannel::open("alice", "bob", 1_000, 1_000);
    assert_eq!(ch.add_htlc(&PREIMAGE, 1, 144, "bob"), Ok(0));
    assert_eq!(ch.receive_htlc(&PREIMAGE2, 1, 144, "alice"), Ok(1));
    assert_eq!(ch.add_htlc(&[0x33; 32], 1, 144, "bob"), Ok(2));
}

#[test]
fn htlc_ids_increase_and_hash_the_preimage() {
    let mut ch = BtcLightningChannel::open("alice", "bob", 1_000, 0);
    assert_eq!(ch.add_htlc(&PREIMAGE, 1, 144, "bob").unwrap(), 0);
    assert_eq!(ch.add_htlc(&PREIMAGE, 1, 144, "bob").unwrap(), 1);
    let h: [u8; 32] = sha2::Sha256::digest(PREIMAGE).into();
    assert_eq!(ch.pending_htlcs[1].payment_hash, h);
    assert_eq!(ch.pending_htlcs[1].htlc_id, 1);
    assert!(ch.pending_htlcs[0].verify_preimage(&PREIMAGE));
    assert!(!ch.pending_htlcs[0].verify_preimage(&PREIMAGE2));
}

#[test]
fn channel_id_is_order_independent_hash_prefix() {
    let a = BtcLightningChannel::derive_channel_id("alice", "bob");
    let b = BtcLightningChannel::derive_channel_id("bob", "alice");
    assert_eq!(a, b);
    let h = sha2::Sha256::digest(b"alice|bob");
    assert_eq!(a, hex::encode(&h[..8]));
    assert_eq!(a.len(), 16);
}

#[test]
fn channel_error_messages() {
    let e = ChannelError::InsufficientBalance { holder: "alice".to_string(), available: 5, needed: 7 };
    assert_eq!(e.to_message(), "Insufficient balance: alice has 5 sat, needs 7 sat");
    assert_eq!(ChannelError::HtlcError.to_message(), "HTLC not found or preimage mismatch");
    assert_eq!(ChannelError::NotOpen("Closed".to_string()).to_message(), "Channel is not open (state: Closed)");
    assert_eq!(ChannelError::CommitmentOverflow.to_message(), "Commitment number overflow");
    assert_eq!(ChannelState::Slashed.to_string(), "Slashed");
}

// ── invoice ──────────────────────────────────────────────────────────────────

const INV_PREIMAGE: [u8; 32] = [
    0xde, 0xad, 0xbe, 0xef, 0, 0, 0, 0, 0, 0, 0, 0, 0, 0, 0, 0, 0, 0, 0, 0, 0, 0, 0, 0, 0, 0, 0, 0, 0, 0, 0, 0,
];

#[test]
fn create_and_verify_invoice() {
    let inv = BoltInvoice::new(&INV_PREIMAGE, 1_000_000, 3600, "agent-b.ahin.io", "Warehouse cleaning task", 1_000_000)
        .unwrap();
    assert_eq!(inv.amount_sats(), 1_000);
    assert!(inv.is_valid_at(1_001_000));
    assert!(!inv.is_valid_at(1_004_001));
    inv.verify_payment(&INV_PREIMAGE, 1_000_000, 1_001_000).unwrap();
}

#[test]
fn expired_invoice_rejected() {
    let inv = BoltInvoice::new(&INV_PREIMAGE, 500, 100, "agent-c.ahin.io", "data query", 1_000).unwrap();
    let err = inv.verify_payment(&INV_PREIMAGE, 500, 2_000).unwrap_err();
    assert_eq!(err, InvoiceError::Expired);
}

#[test]
fn wrong_preimage_rejected() {
    let inv = BoltInvoice::new(&INV_PREIMAGE, 1000, 3600, "x.ahin.io", "test", 0).unwrap();
    let bad: [u8; 32] = [0xFF; 32];
    assert_eq!(inv.verify_payment(&bad, 1000, 0).unwrap_err(), InvoiceError::InvalidPreimage);
}

#[test]
fn underpayment_rejected() {
    let inv = BoltInvoice::new(&INV_PREIMAGE, 1000, 3600, "x.ahin.io", "test", 0).unwrap();
    let err = inv.verify_payment(&INV_PREIMAGE, 999, 0).unwrap_err();
    assert!(matches!(err, InvoiceError::AmountMismatch { .. }));
}

#[test]
fn zero_amount_rejected() {
    assert_eq!(BoltInvoice::new(&INV_PREIMAGE, 0, 3600, "x", "t", 0).unwrap_err(), InvoiceError::ZeroAmount);
}

#[test]
fn invoice_expires_at_its_deadline() {
    let inv = BoltInvoice::new(&INV_PREIMAGE, 1, 100, "x", "t", 1_000).unwrap();
    assert!(inv.is_valid_at(1_099));
    assert!(!inv.is_valid_at(1_100));
    assert_eq!(inv.verify_payment(&INV_PREIMAGE, 5, 1_099), Ok(()));
    assert_eq!(inv.verify_payment(&INV_PREIMAGE, 5, 1_100), Err(InvoiceError::Expired));
}

#[test]
fn invoice_summary_format() {
    let inv = BoltInvoice::new(&INV_PREIMAGE, 2_500, 60, "x", "coffee", 0).unwrap();
    let expected = format!("lnbc2500msat 1p{} | coffee | expires in 60s", hex::encode(&inv.payment_hash[..4]));
    assert_eq!(invoice_summary(&inv), expected);
}

// ── router ───────────────────────────────────────────────────────────────────

const ROUTE_PREIMAGE: [u8; 32] = [0xAB; 32];

fn default_policy(liquidity: u64) -> EdgePolicy {
    EdgePolicy { base_fee_sat: 1, fee_rate_ppm: 100, available_liquidity_sat: liquidity }
}

fn two_hop_router() -> LnRouter {
    let mut router = LnRouter::new();
    let ch_ab = BtcLightningChannel::open("alice", "bob", 500_000, 500_000);
    let ch_bc = BtcLightningChannel::open("bob", "carol", 500_000, 500_000);
    router.add_channel(ch_ab, default_policy(500_000), default_policy(500_000)).unwrap();
    router.add_channel(ch_bc, default_policy(500_000), default_policy(500_000)).unwrap();
    router
}

#[test]
fn find_direct_route() {
    let router = two_hop_router();
    let route = router.find_route("alice", "bob", 10_000).unwrap();
    assert_eq!(route.hops.len(), 1);
    assert_eq!(route.hops[0].node_id, "bob");
}

#[test]
fn find_two_hop_route() {
    let router = two_hop_router();
    let route = router.find_route("alice", "carol", 10_000).unwrap();
    assert_eq!(route.hops.len(), 2);
    assert_eq!(route.hops.last().unwrap().node_id, "carol");
}

#[test]
fn no_route_for_insufficient_liquidity() {
    let router = two_hop_router();
    let err = router.find_route("alice", "carol", 600_000).unwrap_err();
    assert!(matches!(err, RouterError::NoRoute { .. }));
}

#[test]
fn execute_payment_two_hop() {
    let mut router = two_hop_router();
    let route = router.find_route("alice", "carol", 10_000).unwrap();
    let received = router.execute_payment(&route, &ROUTE_PREIMAGE).unwrap();
    assert_eq!(received, 10_000);
    let cid_bc = BtcLightningChannel::derive_channel_id("bob", "carol");
    let ch = router.channel(&cid_bc).unwrap();
    assert_eq!(ch.remote_balance_sat, 510_000);
}

#[test]
fn routing_fee_calculation() {
    let policy = EdgePolicy { base_fee_sat: 10, fee_rate_ppm: 1_000, available_liquidity_sat: 1_000_000 };
    assert_eq!(policy.routing_fee(100_000), 110);
}

#[test]
fn two_hop_route_is_priced_backwards() {
    let router = two_hop_router();
    let route = router.find_route("alice", "carol", 10_000).unwrap();
    // The last hop carries the target and no fee; the first hop is priced on
    // the target: 1 + floor(10_000 * 100 / 1_000_000) = 2.
    assert_eq!(route.hops[1].amount_sat, 10_000);
    assert_eq!(route.hops[1].fee_sat, 0);
    assert_eq!(route.hops[0].amount_sat, 10_000);
    assert_eq!(route.hops[0].fee_sat, 2);
    assert_eq!(route.total_amount_sat, 10_002);
    assert_eq!(route.total_fee_sat, 2);
    assert_eq!(route.hops[0].node_id, "bob");
    assert_eq!(route.hops[0].expiry_blocks, 144);
    assert_eq!(route.hops[0].channel_id, BtcLightningChannel::derive_channel_id("alice", "bob"));
}

#[test]
fn three_hop_fees_compound() {
    let mut router = two_hop_router();
    let ch_cd = BtcLightningChannel::open("carol", "dave", 500_000, 500_000);
    router.add_channel(ch_cd, default_policy(500_000), default_policy(500_000)).unwrap();
    let route = router.find_route("alice", "dave", 100_000).unwrap();
    assert_eq!(route.hops.len(), 3);
    // hop 2: target, no fee; hop 1: fee 1 + 10 = 11 on 100_000;
    // hop 0: carries 100_011, fee 1 + floor(100_011 * 100 / 1e6) = 11.
    assert_eq!(route.hops[2].amount_sat, 100_000);
    assert_eq!(route.hops[1].amount_sat, 100_000);
    assert_eq!(route.hops[1].fee_sat, 11);
    assert_eq!(route.hops[0].amount_sat, 100_011);
    assert_eq!(route.hops[0].fee_sat, 11);
    assert_eq!(route.total_amount_sat, 100_022);
    assert_eq!(route.total_fee_sat, 22);
}

#[test]
fn unknown_nodes_are_reported() {
    let router = two_hop_router();
    assert_eq!(router.find_route("zed", "bob", 1).unwrap_err(), RouterError::NodeNotFound("zed".to_string()));
    assert_eq!(router.find_route("alice", "zed", 1).unwrap_err(), RouterError::NodeNotFound("zed".to_string()));
}

#[test]
fn route_to_self_is_no_route() {
    let router = two_hop_router();
    assert_eq!(
        router.find_route("alice", "alice", 1).unwrap_err(),
        RouterError::NoRoute { src: "alice".to_string(), dst: "alice".to_string() }
    );
}

#[test]
fn duplicate_channel_is_refused() {
    let mut router = two_hop_router();
    let again = BtcLightningChannel::open("bob", "alice", 1, 1);
    assert_eq!(
        router.add_channel(again, default_policy(1), default_policy(1)).unwrap_err(),
        RouterError::ChannelAlreadyExists("bob".to_string(), "alice".to_string())
    );
}

#[test]
fn shortest_route_is_preferred_over_longer_one() {
    let mut router = two_hop_router();
    let ch_ac = BtcLightningChannel::open("alice", "carol", 500_000, 500_000);
    router.add_channel(ch_ac, default_policy(500_000), default_policy(500_000)).unwrap();
    let route = router.find_route("alice", "carol", 1_000).unwrap();
    assert_eq!(route.hops.len(), 1);
}

#[test]
fn reverse_direction_uses_remote_policy_liquidity() {
    let mut router = LnRouter::new();
    let ch = BtcLightningChannel::open("alice", "bob", 500_000, 500_000);
    router.add_channel(ch, default_policy(500_000), default_policy(5)).unwrap();
    assert!(router.find_route("alice", "bob", 1_000).is_ok());
    assert!(matches!(router.find_route("bob", "alice", 1_000), Err(RouterError::NoRoute { .. })));
}

#[test]
fn payment_over_missing_channel_fails_at_that_hop() {
    let mut router = two_hop_router();
    let mut route = router.find_route("alice", "carol", 10_000).unwrap();
    route.hops[0].channel_id = "nope".to_string();
    match router.execute_payment(&route, &ROUTE_PREIMAGE) {
        Err(RouterError::HopFailed { hop, reason }) => {
            assert_eq!(hop, 0);
            assert_eq!(reason, "channel nope not found");
        }
        _ => panic!("expected HopFailed"),
    }
}

#[test]
fn payment_keeps_every_channel_capacity() {
    let mut router = two_hop_router();
    let route = router.find_route("alice", "carol", 10_000).unwrap();
    router.execute_payment(&route, &ROUTE_PREIMAGE).unwrap();
    let ab = router.channel(&BtcLightningChannel::derive_channel_id("alice", "bob")).unwrap();
    assert_eq!(ab.total_capacity_sat(), 1_000_000);
    assert_eq!(ab.local_balance_sat, 489_998);
    assert_eq!(ab.remote_balance_sat, 510_002);
    assert_eq!(ab.commitment_number, 2);
    let bc = router.channel(&BtcLightningChannel::derive_channel_id("bob", "carol")).unwrap();
    assert_eq!(bc.local_balance_sat, 490_000);
    assert_eq!(bc.remote_balance_sat, 510_000);
}

#[test]
fn sender_pays_routing_fee_to_intermediary() {
    let mut router = two_hop_router();
    let route = router.find_route("alice", "carol", 10_000).unwrap();
    assert_eq!(router.execute_payment(&route, &[0xAB; 32]), Ok(10_000));
    let ab = router.channel(&BtcLightningChannel::derive_channel_id("alice", "bob")).unwrap();
    assert_eq!(ab.local_balance_sat, 489_998);
    assert_eq!(ab.remote_balance_sat, 510_002);
    let bc = router.channel(&BtcLightningChannel::derive_channel_id("bob", "carol")).unwrap();
    assert_eq!(bc.remote_balance_sat, 510_000);
}

#[test]
fn payment_over_reversed_channel_moves_funds_to_payee() {
    let mut router = LnRouter::new();
    let ch = BtcLightningChannel::open("bob", "alice", 500_000, 500_000);
    router.add_channel(ch, default_policy(500_000), default_policy(500_000)).unwrap();
    let route = router.find_route("alice", "bob", 10_000).unwrap();
    assert_eq!(route.hops.len(), 1);
    assert_eq!(router.execute_payment(&route, &[0xAB; 32]), Ok(10_000));
    let ch = router.channel(&BtcLightningChannel::derive_channel_id("bob", "alice")).unwrap();
    assert_eq!(ch.local_balance_sat, 510_000);
    assert_eq!(ch.remote_balance_sat, 490_000);
    assert!(ch.pending_htlcs.is_empty());
}

// ── gateway fee ──────────────────────────────────────────────────────────────

#[test]
fn gateway_fee_calculation() {
    // 0.3% of 10_000 sat = 30 sat
    assert_eq!(gateway_fee(10_000, 3), 30);
}

#[test]
fn gateway_fee_rounds_down() {
    assert_eq!(gateway_fee(999, 3), 2);
    assert_eq!(gateway_fee(333, 3), 0);
    assert_eq!(gateway_fee(1_000, 1_000), 1_000);
}

#[test]
fn net_after_fee_subtracts_and_saturates() {
    assert_eq!(net_after_fee(10_000, 3), 9_970);
    assert_eq!(net_after_fee(100, 2_000), 0);
}

#[test]
fn invoice_amount_adds_fee_in_millisatoshi() {
    assert_eq!(invoice_amount_msat(100_000, 3), Some(100_300_000));
    assert_eq!(invoice_amount_msat(u64::MAX / 1_000, 0), Some(u64::MAX / 1_000 * 1_000));
    assert_eq!(invoice_amount_msat(u64::MAX / 1_000 + 1, 0), None);
}
