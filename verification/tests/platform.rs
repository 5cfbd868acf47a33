use sha2::Digest;
use pocc::provisioner::crypto::{Ed25519Keypair, EvmWallet, PufManager};
use pocc::provisioner::hardware::{HardwareError, JtagController, OtpFuses};
use pocc::provisioner::provisioner::{GenesisProvisioner, ProvisionerConfig, ProvisionerError};
use pocc::tee::attestation::{TeeReport, TeeReportError, TeeVendor};
use pocc::tee::context::TeeContext;
use pocc::tee::measurement::MeasurementChain;
use pocc::tee::sealed_storage::{SealError, SealedBlob};

// ── OTP fuses ────────────────────────────────────────────────────────────────

#[test]
fn jtag_accessible_before_fuse_burn() {
    let fuses = OtpFuses::new();
    assert!(JtagController::is_accessible(fuses.state()));
}

#[test]
fn jtag_inaccessible_after_fuse_burn() {
    let mut fuses = OtpFuses::new();
    fuses.burn_jtag_disable_bit().expect("first burn should succeed");
    assert!(!JtagController::is_accessible(fuses.state()));
}

#[test]
fn burning_jtag_fuse_twice_returns_error() {
    let mut fuses = OtpFuses::new();
    fuses.burn_jtag_disable_bit().unwrap();
    let result = fuses.burn_jtag_disable_bit();
    assert!(matches!(result, Err(HardwareError::FuseAlreadyBurned)));
}

#[test]
fn secure_boot_enforced_after_burn() {
    let mut fuses = OtpFuses::new();
    fuses.burn_secure_boot_enforce_bit().unwrap();
    assert!(fuses.state().secure_boot_enforced);
}

#[test]
fn both_fuses_can_be_burned_independently() {
    let mut fuses = OtpFuses::new();
    fuses.burn_jtag_disable_bit().unwrap();
    fuses.burn_secure_boot_enforce_bit().unwrap();
    assert!(fuses.state().jtag_disabled);
    assert!(fuses.state().secure_boot_enforced);
}

#[test]
fn secure_boot_fuse_is_one_way_too() {
    let mut fuses = OtpFuses::new();
    fuses.burn_secure_boot_enforce_bit().unwrap();
    assert!(matches!(fuses.burn_secure_boot_enforce_bit(), Err(HardwareError::FuseAlreadyBurned)));
    assert!(fuses.state().secure_boot_enforced);
    assert!(!fuses.state().jtag_disabled);
}

// ── device keys ──────────────────────────────────────────────────────────────

#[test]
fn puf_seed_is_32_bytes() {
    let puf = PufManager::new([0xAA, 0xBB, 0xCC, 0xDD, 0xEE, 0xFF]);
    let seed = puf.extract_unique_seed();
    assert_eq!(seed.len(), 32);
}

#[test]
fn ed25519_keypair_public_key_differs_from_private() {
    let seed = [0x42u8; 32];
    let kp = Ed25519Keypair::from_seed(&seed);
    assert_ne!(*kp.private_key(), *kp.public_key());
}

#[test]
fn ed25519_signature_is_64_bytes() {
    let seed = [0x01u8; 32];
    let kp = Ed25519Keypair::from_seed(&seed);
    let sig = kp.sign(b"hello");
    assert_eq!(sig.len(), 64);
}

#[test]
fn evm_address_has_correct_format() {
    let seed = [0x11u8; 32];
    let wallet = EvmWallet::from_seed(&seed);
    let addr = wallet.address();
    assert!(addr.starts_with("0x"));
    assert_eq!(addr.len(), 42);
}

#[test]
fn erc8004_signed_tx_is_non_empty() {
    let seed = [0x22u8; 32];
    let wallet = EvmWallet::from_seed(&seed);
    let tx = wallet.sign_erc8004_registration("did:cis:amd395:deadbeef".into(), "ipfs://QmTest".into());
    assert!(!tx.is_empty());
}

#[test]
fn different_seeds_produce_different_evm_addresses() {
    let w1 = EvmWallet::from_seed(&[0x01u8; 32]);
    let w2 = EvmWallet::from_seed(&[0x02u8; 32]);
    assert_ne!(w1.address(), w2.address());
}

#[test]
fn ed25519_keys_are_domain_separated_hashes() {
    let seed = [0x42u8; 32];
    let kp = Ed25519Keypair::from_seed(&seed);
    let mut h = sha2::Sha256::new();
    h.update(b"cis:ed25519:v1:");
    h.update(seed);
    let private: [u8; 32] = h.finalize().into();
    assert_eq!(*kp.private_key(), private);
    let mut h = sha2::Sha256::new();
    h.update(b"ed25519:pubkey:");
    h.update(private);
    let public: [u8; 32] = h.finalize().into();
    assert_eq!(*kp.public_key(), public);
}

// ── provisioning ceremony ────────────────────────────────────────────────────

fn make_config() -> ProvisionerConfig {
    ProvisionerConfig {
        mac_address: [0x00, 0x1A, 0x2B, 0x3C, 0x4D, 0x5E],
        factory_ipfs_url: "http://192.168.100.1:5001".into(),
        factory_rpc_url: "http://192.168.100.1:8545".into(),
        provisioned_at: 1700000000,
    }
}

#[test]
fn provisioner_run_succeeds() {
    let mut p = GenesisProvisioner::new(make_config());
    let result = p.run().expect("provisioning should succeed");
    assert!(result.did.starts_with("did:cis:amd395:"));
    assert!(result.evm_address.starts_with("0x"));
    assert!(!result.signed_tx.is_empty());
}

#[test]
fn fuses_are_burned_after_provisioning() {
    let mut p = GenesisProvisioner::new(make_config());
    p.run().unwrap();
    assert!(p.fuse_state().jtag_disabled);
    assert!(p.fuse_state().secure_boot_enforced);
}

#[test]
fn provisioner_did_contains_hex_public_key() {
    let mut p = GenesisProvisioner::new(make_config());
    let result = p.run().unwrap();
    let hex_part = result.did.strip_prefix("did:cis:amd395:").unwrap();
    assert_eq!(hex_part.len(), 64);
    assert!(hex_part.chars().all(|c| c.is_ascii_hexdigit()));
}

#[test]
fn second_fuse_burn_returns_error() {
    let mut p = GenesisProvisioner::new(make_config());
    p.run().unwrap();
    let err = p.burn_jtag_again();
    assert!(err.is_err());
}

#[test]
fn second_ceremony_is_refused() {
    let mut p = GenesisProvisioner::new(make_config());
    p.run().unwrap();
    assert!(matches!(p.run(), Err(ProvisionerError::Hardware(HardwareError::FuseAlreadyBurned))));
}

// ── measurement chain ────────────────────────────────────────────────────────

#[test]
fn new_chain_is_empty_and_zero() {
    let chain = MeasurementChain::new();
    assert!(chain.is_empty());
    assert_eq!(chain.component_count(), 0);
    assert_eq!(chain.digest(), [0u8; 32]);
}

#[test]
fn extend_changes_digest() {
    let mut chain = MeasurementChain::new();
    chain.extend(b"component-a");
    assert_ne!(chain.digest(), [0u8; 32]);
}

#[test]
fn same_components_same_order_produce_same_digest() {
    let mut a = MeasurementChain::new();
    a.extend(b"bootloader:v1");
    a.extend(b"kernel:v5.15");
    let mut b = MeasurementChain::new();
    b.extend(b"bootloader:v1");
    b.extend(b"kernel:v5.15");
    assert_eq!(a.digest(), b.digest());
}

#[test]
fn different_order_produces_different_digest() {
    let mut a = MeasurementChain::new();
    a.extend(b"A");
    a.extend(b"B");
    let mut b = MeasurementChain::new();
    b.extend(b"B");
    b.extend(b"A");
    assert_ne!(a.digest(), b.digest());
}

#[test]
fn omitting_component_changes_digest() {
    let mut full = MeasurementChain::new();
    full.extend(b"A");
    full.extend(b"B");
    full.extend(b"C");
    let mut partial = MeasurementChain::new();
    partial.extend(b"A");
    partial.extend(b"C");
    assert_ne!(full.digest(), partial.digest());
}

#[test]
fn component_count_is_tracked() {
    let mut chain = MeasurementChain::new();
    assert_eq!(chain.component_count(), 0);
    chain.extend(b"x");
    assert_eq!(chain.component_count(), 1);
    chain.extend(b"y");
    assert_eq!(chain.component_count(), 2);
}

#[test]
fn extend_hashes_digest_with_component_hash() {
    let mut chain = MeasurementChain::new();
    chain.extend(b"boot");
    let comp: [u8; 32] = sha2::Sha256::digest(b"boot").into();
    let mut h = sha2::Sha256::new();
    h.update([0u8; 32]);
    h.update(comp);
    let expected: [u8; 32] = h.finalize().into();
    assert_eq!(chain.digest(), expected);
}

// ── attestation reports ──────────────────────────────────────────────────────

fn make_key() -> [u8; 32] {
    [0xABu8; 32]
}

fn make_measurement() -> [u8; 32] {
    let mut chain = MeasurementChain::new();
    chain.extend(b"bootloader");
    chain.extend(b"kernel");
    chain.digest()
}

#[test]
fn report_generate_and_verify_ok() {
    let m = make_measurement();
    let report = TeeReport::generate(TeeVendor::AmdSevSnp, m, b"nonce-abc", &make_key()).expect("should generate");
    report.verify().expect("report should be valid");
}

#[test]
fn report_fails_on_empty_measurement() {
    let result = TeeReport::generate(TeeVendor::Software, [0u8; 32], b"nonce", &make_key());
    assert!(matches!(result, Err(TeeReportError::EmptyMeasurement)));
}

#[test]
fn tampered_report_data_hash_fails_verify() {
    let m = make_measurement();
    let mut report = TeeReport::generate(TeeVendor::AmdSevSnp, m, b"nonce", &make_key()).unwrap();
    report.report_data_hash[0] ^= 0xFF;
    assert!(matches!(report.verify(), Err(TeeReportError::SignatureInvalid)));
}

#[test]
fn measurement_verification_passes_for_correct_expected() {
    let m = make_measurement();
    let report = TeeReport::generate(TeeVendor::AppleSecureEnclave, m, b"x", &make_key()).unwrap();
    report.verify_measurement(&m).expect("should match");
}

#[test]
fn measurement_verification_fails_for_wrong_expected() {
    let m = make_measurement();
    let report = TeeReport::generate(TeeVendor::ArmTrustZone, m, b"x", &make_key()).unwrap();
    let wrong = [0xFFu8; 32];
    assert!(matches!(report.verify_measurement(&wrong), Err(TeeReportError::MeasurementMismatch { .. })));
}

#[test]
fn different_vendors_produce_different_signatures() {
    let m = make_measurement();
    let k = make_key();
    let r1 = TeeReport::generate(TeeVendor::AmdSevSnp, m, b"n", &k).unwrap();
    let r2 = TeeReport::generate(TeeVendor::Software, m, b"n", &k).unwrap();
    assert_ne!(r1.platform_signature, r2.platform_signature);
}

#[test]
fn different_user_data_produces_different_hashes() {
    let m = make_measurement();
    let k = make_key();
    let r1 = TeeReport::generate(TeeVendor::Software, m, b"nonce-1", &k).unwrap();
    let r2 = TeeReport::generate(TeeVendor::Software, m, b"nonce-2", &k).unwrap();
    assert_ne!(r1.report_data_hash, r2.report_data_hash);
}

#[test]
fn user_data_is_truncated_to_64_bytes() {
    let m = make_measurement();
    let long = [7u8; 100];
    let report = TeeReport::generate(TeeVendor::Software, m, &long, &make_key()).unwrap();
    assert_eq!(report.user_data, vec![7u8; 64]);
    report.verify().unwrap();
}

#[test]
fn mismatch_error_carries_hex_digests() {
    let m = make_measurement();
    let report = TeeReport::generate(TeeVendor::Software, m, b"x", &make_key()).unwrap();
    let wrong = [0xFFu8; 32];
    match report.verify_measurement(&wrong) {
        Err(TeeReportError::MeasurementMismatch { expected, got }) => {
            assert_eq!(expected, hex::encode(wrong));
            assert_eq!(got, hex::encode(m));
            assert_eq!(report.measurement_hex(), hex::encode(m));
        }
        _ => panic!("expected MeasurementMismatch"),
    }
}

#[test]
fn vendor_tags() {
    assert_eq!(TeeVendor::AmdSevSnp.as_str(), "AMD_SEV_SNP");
    assert_eq!(TeeVendor::Software.as_str(), "SOFTWARE_TEE");
}

// ── sealed storage ───────────────────────────────────────────────────────────

fn seal_measurement() -> [u8; 32] {
    let mut c = MeasurementChain::new();
    c.extend(b"firmware:v1");
    c.extend(b"runtime:v0.1");
    c.digest()
}

fn platform_key() -> [u8; 32] {
    [0xCAu8; 32]
}

#[test]
fn seal_then_unseal_recovers_plaintext() {
    let plain = b"super-secret-key-material";
    let m = seal_measurement();
    let k = platform_key();
    let blob = SealedBlob::seal(plain, &m, &k);
    let recovered = blob.unseal(&m, &k).expect("should unseal");
    assert_eq!(recovered, plain);
}

#[test]
fn wrong_measurement_fails_unseal() {
    let plain = b"data";
    let m = seal_measurement();
    let k = platform_key();
    let blob = SealedBlob::seal(plain, &m, &k);
    let mut bad_m = m;
    bad_m[0] ^= 0x01;
    assert!(matches!(blob.unseal(&bad_m, &k), Err(SealError::MeasurementMismatch)));
}

#[test]
fn wrong_platform_key_fails_unseal() {
    let plain = b"data";
    let m = seal_measurement();
    let k = platform_key();
    let blob = SealedBlob::seal(plain, &m, &k);
    let mut bad_k = k;
    bad_k[0] ^= 0xFF;
    assert!(matches!(blob.unseal(&m, &bad_k), Err(SealError::MeasurementMismatch)));
}

#[test]
fn tampered_ciphertext_fails_auth_check() {
    let plain = b"data";
    let m = seal_measurement();
    let k = platform_key();
    let blob = SealedBlob::seal(plain, &m, &k);
    // The ciphertext follows the two 32-byte tags in the serialised blob.
    let mut bytes = blob.into_bytes();
    bytes[64] ^= 0x01;
    let blob = SealedBlob::from_bytes(&bytes).unwrap();
    assert!(matches!(blob.unseal(&m, &k), Err(SealError::AuthTagInvalid)));
}

#[test]
fn empty_plaintext_round_trips() {
    let m = seal_measurement();
    let k = platform_key();
    let blob = SealedBlob::seal(&[], &m, &k);
    let recovered = blob.unseal(&m, &k).expect("should unseal empty");
    assert!(recovered.is_empty());
}

#[test]
fn sealed_blobs_from_different_measurements_cannot_cross_unseal() {
    let mut c1 = MeasurementChain::new();
    c1.extend(b"v1");
    let mut c2 = MeasurementChain::new();
    c2.extend(b"v2");
    let k = platform_key();
    let b1 = SealedBlob::seal(b"secret", &c1.digest(), &k);
    assert!(b1.unseal(&c2.digest(), &k).is_err());
}

#[test]
fn short_blob_bytes_are_refused() {
    assert!(matches!(SealedBlob::from_bytes(&[0u8; 63]), Err(SealError::CiphertextTooShort)));
    assert!(SealedBlob::from_bytes(&[0u8; 64]).is_ok());
}

#[test]
fn blob_bytes_round_trip() {
    let m = seal_measurement();
    let k = platform_key();
    let blob = SealedBlob::seal(b"abc", &m, &k);
    let bytes = blob.clone().into_bytes();
    assert_eq!(bytes.len(), 67);
    let back = SealedBlob::from_bytes(&bytes).unwrap();
    assert_eq!(back.unseal(&m, &k).unwrap(), b"abc");
}

#[test]
fn xor_stream_is_an_involution() {
    let key = [0x5Au8; 32];
    let data: Vec<u8> = (0u8..70).collect();
    let once = SealedBlob::xor_stream(&data, &key);
    assert_eq!(once[0], 0x5A);
    assert_eq!(SealedBlob::xor_stream(&once, &key), data);
}

#[test]
fn context_seal_unseal_and_report() {
    let mut ctx = TeeContext::new(TeeVendor::Software);
    assert!(matches!(ctx.generate_report(b"x"), Err(TeeReportError::EmptyMeasurement)));
    ctx.extend_measurement(b"app:v1");
    let blob = ctx.seal(b"key");
    assert_eq!(ctx.unseal(&blob).unwrap(), b"key");
    let report = ctx.generate_report(b"challenge").unwrap();
    report.verify().unwrap();
    assert_eq!(ctx.measurement_hex(), report.measurement_hex());
    ctx.extend_measurement(b"app:v2");
    assert!(matches!(ctx.unseal(&blob), Err(SealError::MeasurementMismatch)));
}

#[test]
fn tee_report_error_messages() {
    assert_eq!(
        TeeReportError::EmptyMeasurement.to_message(),
        "Cannot generate report: measurement chain is empty"
    );
    assert_eq!(
        TeeReportError::SignatureInvalid.to_message(),
        "Report signature verification failed: report has been tampered with"
    );
    let e = TeeReportError::MeasurementMismatch { expected: "aa".to_string(), got: "bb".to_string() };
    assert_eq!(e.to_message(), "Measurement mismatch: expected aa, got bb");
}
