use pocc::lanes::{
    claim_resources, release_resources, PhysicalIntent, RES_CHASSIS, RES_LEFT_ARM,
    RES_RIGHT_ARM, RES_TENSOR_NPU, RES_VISION,
};
use pocc::provisioner::mac::{parse_hex_u8, parse_mac_or_default, DEFAULT_MAC};
use pocc::bonds::{check_transfer, redeem, slash, BondRejection, BondStatus};
use pocc::mandates::{check_claim, ClaimRejection, MandateStatus};
use pocc::text::{u64_to_decimal, usize_to_upper_hex};

// ── Resource lanes ───────────────────────────────────────────────────────────

#[test]
fn resource_acquire_conflict_and_release() {
    let mut state: u8 = 0;
    let mask = RES_LEFT_ARM | RES_TENSOR_NPU;

    let first = claim_resources(state, mask);
    assert!(first.is_some());
    state = first.unwrap();
    assert!(claim_resources(state, RES_LEFT_ARM).is_none());

    state = release_resources(state, mask);

    assert!(claim_resources(state, RES_LEFT_ARM).is_some());
}

#[test]
fn claim_sets_exactly_the_mask_bits() {
    assert_eq!(claim_resources(0, RES_CHASSIS | RES_VISION), Some(0b0001_0001));
    assert_eq!(claim_resources(RES_RIGHT_ARM, RES_CHASSIS), Some(0b0000_0101));
}

#[test]
fn claim_of_disjoint_resources_succeeds_while_others_held() {
    let held = RES_LEFT_ARM | RES_RIGHT_ARM;
    assert_eq!(claim_resources(held, RES_VISION), Some(held | RES_VISION));
    assert_eq!(claim_resources(held, RES_RIGHT_ARM | RES_VISION), None);
}

#[test]
fn release_of_claimed_mask_restores_state() {
    let before = RES_CHASSIS;
    let mask = RES_TENSOR_NPU | RES_VISION;
    let after = claim_resources(before, mask).unwrap();
    assert_eq!(release_resources(after, mask), before);
}

#[test]
fn release_leaves_other_resources_held() {
    let state = RES_CHASSIS | RES_LEFT_ARM | RES_VISION;
    assert_eq!(release_resources(state, RES_LEFT_ARM), RES_CHASSIS | RES_VISION);
    assert_eq!(release_resources(state, RES_RIGHT_ARM), state);
}

#[test]
fn physical_intent_clone_keeps_fields() {
    let intent = PhysicalIntent {
        intent_id: "intent-001".to_string(),
        resource_mask: RES_CHASSIS | RES_VISION,
        tensor_payload: vec![1, 2, 3],
    };
    let copy = intent.clone();
    assert_eq!(copy.intent_id, intent.intent_id);
    assert_eq!(copy.resource_mask, intent.resource_mask);
    assert_eq!(copy.tensor_payload, vec![1, 2, 3]);
}

// ── MAC address parsing ──────────────────────────────────────────────────────

#[test]
fn parses_a_well_formed_mac() {
    assert_eq!(
        parse_mac_or_default("00:1A:2B:3C:4D:5E"),
        [0x00, 0x1A, 0x2B, 0x3C, 0x4D, 0x5E]
    );
}

#[test]
fn parses_lower_case_and_single_digit_octets() {
    assert_eq!(parse_mac_or_default("a:b:c:d:e:ff"), [0x0A, 0x0B, 0x0C, 0x0D, 0x0E, 0xFF]);
}

#[test]
fn default_placeholder_parses_to_itself() {
    assert_eq!(parse_mac_or_default("AA:BB:CC:DD:EE:FF"), DEFAULT_MAC);
}

#[test]
fn wrong_octet_count_gives_default() {
    assert_eq!(parse_mac_or_default("00:1A:2B:3C:4D"), DEFAULT_MAC);
    assert_eq!(parse_mac_or_default("00:1A:2B:3C:4D:5E:6F"), DEFAULT_MAC);
    assert_eq!(parse_mac_or_default(""), DEFAULT_MAC);
}

#[test]
fn bad_octet_gives_default() {
    assert_eq!(parse_mac_or_default("00:1A:2B:3C:4D:ZZ"), DEFAULT_MAC);
    assert_eq!(parse_mac_or_default("00:1A::3C:4D:5E"), DEFAULT_MAC);
    assert_eq!(parse_mac_or_default("00:1A:2B:3C:4D:100"), DEFAULT_MAC);
}

#[test]
fn hex_octet_parser_follows_from_str_radix() {
    assert_eq!(parse_hex_u8(b"ff"), Some(255));
    assert_eq!(parse_hex_u8(b"+7f"), Some(0x7f));
    assert_eq!(parse_hex_u8(b"0000ff"), Some(255));
    assert_eq!(parse_hex_u8(b"+"), None);
    assert_eq!(parse_hex_u8(b""), None);
    assert_eq!(parse_hex_u8(b"-1"), None);
    assert_eq!(parse_hex_u8(b"100"), None);
    assert_eq!(parse_hex_u8(b"g"), None);
    for s in ["ff", "+7f", "0000ff", "+", "", "-1", "100", "g", "1A"] {
        assert_eq!(parse_hex_u8(s.as_bytes()), u8::from_str_radix(s, 16).ok());
    }
}

// ── Bond lifecycle ───────────────────────────────────────────────────────────


#[test]
fn bond_redeems_by_holder_at_maturity() {
    assert!(matches!(redeem(BondStatus::Active, "did:op", "did:op", 1_000, 1_000), Ok(BondStatus::Redeemed)));
    assert!(matches!(redeem(BondStatus::Active, "did:op", "did:op", 1_000, 5_000), Ok(BondStatus::Redeemed)));
}

#[test]
fn premature_bond_redemption_names_epochs() {
    match redeem(BondStatus::Active, "did:op", "did:op", 1_000, 999) {
        Err(BondRejection::NotYetMatured { current, maturity }) => {
            assert_eq!(current, 999);
            assert_eq!(maturity, 1_000);
        }
        other => panic!("unexpected {other:?}"),
    }
}

#[test]
fn only_the_holder_may_transfer_or_redeem() {
    assert!(check_transfer(BondStatus::Active, "did:op", "did:op").is_ok());
    match check_transfer(BondStatus::Active, "did:op", "did:thief") {
        Err(BondRejection::UnauthorisedTransfer(d)) => assert_eq!(d, "did:thief"),
        other => panic!("unexpected {other:?}"),
    }
    match redeem(BondStatus::Active, "did:new-holder", "did:op", 10, 20) {
        Err(BondRejection::UnauthorisedTransfer(d)) => assert_eq!(d, "did:op"),
        other => panic!("unexpected {other:?}"),
    }
}

#[test]
fn settled_bond_refuses_everything() {
    let after_redeem = redeem(BondStatus::Active, "did:op", "did:op", 10, 10).unwrap();
    assert!(matches!(redeem(after_redeem, "did:op", "did:op", 10, 10), Err(BondRejection::AlreadySettled)));
    assert!(matches!(slash(after_redeem), Err(BondRejection::AlreadySettled)));
    assert!(matches!(check_transfer(after_redeem, "did:op", "did:op"), Err(BondRejection::AlreadySettled)));

    let after_slash = slash(BondStatus::Active).unwrap();
    assert_eq!(after_slash, BondStatus::Slashed);
    assert!(matches!(slash(after_slash), Err(BondRejection::AlreadySettled)));
    assert!(matches!(redeem(after_slash, "did:op", "did:op", 0, 10), Err(BondRejection::AlreadySettled)));
}

// ── Intent mandate admission ─────────────────────────────────────────────────


#[test]
fn restricted_mandate_admits_its_seller_before_expiry() {
    let seller = Some("did:seller:bot".to_string());
    assert!(check_claim(MandateStatus::Active, 1_000, &seller, "did:seller:bot", 500).is_ok());
    assert!(check_claim(MandateStatus::Active, 1_000, &seller, "did:seller:bot", 1_000).is_ok());
}

#[test]
fn expired_mandate_names_epochs() {
    let seller = Some("did:seller:bot".to_string());
    match check_claim(MandateStatus::Active, 1_000, &seller, "did:seller:bot", 1_001) {
        Err(ClaimRejection::Expired { expired_at, now }) => {
            assert_eq!(expired_at, 1_000);
            assert_eq!(now, 1_001);
        }
        other => panic!("unexpected {other:?}"),
    }
}

#[test]
fn wrong_seller_is_refused() {
    let seller = Some("did:seller:bot".to_string());
    match check_claim(MandateStatus::Active, 1_000, &seller, "did:seller:evil", 500) {
        Err(ClaimRejection::SellerMismatch { expected, actual }) => {
            assert_eq!(expected, "did:seller:bot");
            assert_eq!(actual, "did:seller:evil");
        }
        other => panic!("unexpected {other:?}"),
    }
}

#[test]
fn open_mandate_admits_any_seller() {
    assert!(check_claim(MandateStatus::Active, 1_000, &None, "did:anyone", 10).is_ok());
}

#[test]
fn consumed_or_revoked_mandate_is_refused_first() {
    for status in [MandateStatus::Consumed, MandateStatus::Revoked] {
        assert!(matches!(
            check_claim(status, 0, &Some("x".to_string()), "y", 99),
            Err(ClaimRejection::AlreadyConsumed)
        ));
    }
}

// The bond and mandate checks, driven as the securitisation bridge and the
// mandate registry drive them for the original scenarios.

const OPERATOR: &str = "did:operator:amd_node_01";
const BOND_MATURITY: u64 = 1_000;

#[test]
fn premature_redemption_is_rejected() {
    assert!(matches!(
        redeem(BondStatus::Active, OPERATOR, OPERATOR, BOND_MATURITY, 500),
        Err(BondRejection::NotYetMatured { .. })
    ));
}

#[test]
fn double_redeem_is_rejected() {
    let status = redeem(BondStatus::Active, OPERATOR, OPERATOR, BOND_MATURITY, 1_001).unwrap();
    assert_eq!(status, BondStatus::Redeemed);
    assert!(matches!(
        redeem(status, OPERATOR, OPERATOR, BOND_MATURITY, 1_002),
        Err(BondRejection::AlreadySettled)
    ));
}

const MANDATE_SELLER: &str = "did:seller:bot";
const MANDATE_VALID_UNTIL: u64 = 1_000;

#[test]
fn expired_mandate_is_rejected() {
    let seller = Some(MANDATE_SELLER.to_string());
    assert!(matches!(
        check_claim(MandateStatus::Active, MANDATE_VALID_UNTIL, &seller, MANDATE_SELLER, 2_000),
        Err(ClaimRejection::Expired { .. })
    ));
}

#[test]
fn wrong_seller_is_rejected() {
    let seller = Some(MANDATE_SELLER.to_string());
    assert!(matches!(
        check_claim(MandateStatus::Active, MANDATE_VALID_UNTIL, &seller, "did:seller:impostor", 500),
        Err(ClaimRejection::SellerMismatch { .. })
    ));
}

#[test]
fn revoke_then_consume_fails() {
    let seller = Some(MANDATE_SELLER.to_string());
    assert!(matches!(
        check_claim(MandateStatus::Revoked, MANDATE_VALID_UNTIL, &seller, MANDATE_SELLER, 500),
        Err(ClaimRejection::AlreadyConsumed)
    ));
}

// ── Integer text ─────────────────────────────────────────────────────────────

#[test]
fn decimal_and_upper_hex_text_match_std_formatting() {
    for n in [0u64, 7, 9, 10, 99, 100, 12_345, 1_000_000, u64::MAX] {
        assert_eq!(u64_to_decimal(n), n.to_string());
    }
    for n in [0usize, 9, 10, 15, 16, 255, 4096, 0xBEEF, usize::MAX] {
        assert_eq!(usize_to_upper_hex(n), format!("{:X}", n));
    }
}
