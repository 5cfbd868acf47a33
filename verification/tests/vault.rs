use hmac::Mac;
use sha2::Digest;
use pocc::vault::audit::AuditLog;
use pocc::vault::auth::{tx_digest, AgentAuthProof, AuthError, AuthToken};
use pocc::vault::key_vault::{SigningRequest, SolanaKeyVault, VaultError};
use pocc::vault::zk_commitment::{CommitmentError, ZkCommitmentScheme};

// ── audit log ────────────────────────────────────────────────────────────────

#[test]
fn empty_log_chain_is_valid() {
    let log = AuditLog::new();
    assert!(log.verify_chain());
}

#[test]
fn single_entry_chain_is_valid() {
    let mut log = AuditLog::new();
    log.append("vault_initialized", "");
    assert!(log.verify_chain());
}

#[test]
fn multi_entry_chain_is_valid() {
    let mut log = AuditLog::new();
    log.append("vault_initialized", "");
    log.append("agent_enrolled", "did:ahin:agent:alice");
    log.append("signing_request", "did:ahin:agent:alice");
    log.append("signing_success", "did:ahin:agent:alice");
    assert!(log.verify_chain());
    assert_eq!(log.len(), 4);
}

#[test]
fn tampered_event_breaks_chain() {
    let mut log = AuditLog::new();
    log.append("vault_initialized", "");
    log.append("agent_enrolled", "did:ahin:agent:alice");
    log.entries[0].event = "vault_pwned".to_string();
    assert!(!log.verify_chain());
}

#[test]
fn tampered_hash_breaks_chain() {
    let mut log = AuditLog::new();
    log.append("vault_initialized", "");
    log.append("agent_enrolled", "did:ahin:agent:alice");
    log.entries[0].hash[0] ^= 0xFF;
    assert!(!log.verify_chain());
}

#[test]
fn audit_entries_link_to_predecessors() {
    let mut log = AuditLog::new();
    assert!(log.is_empty());
    log.append("a", "x");
    log.append("b", "y");
    let entries = log.entries();
    assert_eq!(entries[0].prev_hash, [0u8; 32]);
    assert_eq!(entries[1].prev_hash, entries[0].hash);
    assert_eq!(entries[1].event, "b");
    assert_eq!(entries[1].agent_id, "y");
}

#[test]
fn tampered_last_entry_breaks_chain() {
    let mut log = AuditLog::new();
    log.append("a", "x");
    log.entries[0].agent_id = "z".to_string();
    assert!(!log.verify_chain());
}

// ── commitments ──────────────────────────────────────────────────────────────

fn sample_token() -> Vec<u8> {
    b"super-secret-auth-token-32bytes!".to_vec()
}

fn sample_nonce() -> [u8; 32] {
    [0x01u8; 32]
}

fn sample_digest() -> [u8; 32] {
    [0xABu8; 32]
}

#[test]
fn commitment_verifies_correctly() {
    let token = sample_token();
    let n = sample_nonce();
    let d = sample_digest();
    let commitment = ZkCommitmentScheme::commit(&token, &n, "did:ahin:agent:test", &d)
        .expect("commit should succeed");
    ZkCommitmentScheme::verify(&token, &n, "did:ahin:agent:test", &d, &commitment)
        .expect("verify should pass");
}

#[test]
fn wrong_token_fails_verification() {
    let token = sample_token();
    let bad_token = b"wrong-token-entirely-different!".to_vec();
    let n = sample_nonce();
    let d = sample_digest();
    let commitment = ZkCommitmentScheme::commit(&token, &n, "did:ahin:agent:test", &d)
        .expect("commit should succeed");
    let result = ZkCommitmentScheme::verify(&bad_token, &n, "did:ahin:agent:test", &d, &commitment);
    assert!(result.is_err());
}

#[test]
fn wrong_nonce_fails_verification() {
    let token = sample_token();
    let n = sample_nonce();
    let bad_nonce = [0x02u8; 32];
    let d = sample_digest();
    let commitment = ZkCommitmentScheme::commit(&token, &n, "did:ahin:agent:test", &d)
        .expect("commit should succeed");
    let result = ZkCommitmentScheme::verify(&token, &bad_nonce, "did:ahin:agent:test", &d, &commitment);
    assert!(result.is_err());
}

#[test]
fn wrong_agent_id_fails_verification() {
    let token = sample_token();
    let n = sample_nonce();
    let d = sample_digest();
    let commitment = ZkCommitmentScheme::commit(&token, &n, "did:ahin:agent:alice", &d)
        .expect("commit should succeed");
    let result = ZkCommitmentScheme::verify(&token, &n, "did:ahin:agent:bob", &d, &commitment);
    assert!(result.is_err());
}

#[test]
fn commitment_is_deterministic() {
    let token = sample_token();
    let n = sample_nonce();
    let d = sample_digest();
    let c1 = ZkCommitmentScheme::commit(&token, &n, "did:ahin:agent:test", &d).unwrap();
    let c2 = ZkCommitmentScheme::commit(&token, &n, "did:ahin:agent:test", &d).unwrap();
    assert_eq!(c1, c2);
}

#[test]
fn commitment_mismatch_reports_both_values_in_hex() {
    let token = sample_token();
    let n = sample_nonce();
    let d = sample_digest();
    let forged = [0u8; 32];
    let err = ZkCommitmentScheme::verify(&token, &n, "did:ahin:agent:test", &d, &forged).unwrap_err();
    let expected = ZkCommitmentScheme::commit(&token, &n, "did:ahin:agent:test", &d).unwrap();
    match &err {
        CommitmentError::VerificationFailed { expected: e, got } => {
            assert_eq!(*e, hex::encode(expected));
            assert_eq!(*got, "0".repeat(64));
        }
        CommitmentError::KeyInit => panic!("unexpected error"),
    }
    assert!(err.to_message().starts_with("Commitment verification failed: expected "));
}

#[test]
fn commitment_matches_hmac_sha256_reference() {
    let token = sample_token();
    let n = sample_nonce();
    let d = sample_digest();
    let c = ZkCommitmentScheme::commit(&token, &n, "did:ahin:agent:test", &d).unwrap();
    let mut mac = hmac::Hmac::<sha2::Sha256>::new_from_slice(&token).unwrap();
    mac.update(b"zkcommit:v1:");
    mac.update(&n);
    mac.update(b"did:ahin:agent:test");
    mac.update(&d);
    let reference: [u8; 32] = mac.finalize().into_bytes().into();
    assert_eq!(c, reference);
}

// ── authorisation proofs ─────────────────────────────────────────────────────

fn auth_sample_token() -> AuthToken {
    AuthToken::from_bytes([0x42u8; 32])
}

fn fresh_nonce() -> [u8; 32] {
    let mut n = [0u8; 32];
    getrandom::getrandom(&mut n).unwrap();
    n
}

#[test]
fn proof_verifies_with_correct_token() {
    let token = auth_sample_token();
    let nonce = fresh_nonce();
    let tx = b"fake-solana-transaction-bytes";
    let digest = tx_digest(tx);
    let proof = AgentAuthProof::build(&token, nonce, "did:ahin:agent:alice", &digest)
        .expect("build should succeed");
    proof.verify(&token, "did:ahin:agent:alice", &digest).expect("verify should pass");
}

#[test]
fn proof_fails_with_wrong_token() {
    let token = auth_sample_token();
    let wrong_token = AuthToken::from_bytes([0x99u8; 32]);
    let nonce = fresh_nonce();
    let tx = b"fake-solana-transaction-bytes";
    let digest = tx_digest(tx);
    let proof = AgentAuthProof::build(&token, nonce, "did:ahin:agent:alice", &digest).unwrap();
    let result = proof.verify(&wrong_token, "did:ahin:agent:alice", &digest);
    assert!(matches!(result, Err(AuthError::InvalidProof)));
}

#[test]
fn proof_fails_with_wrong_agent_id() {
    let token = auth_sample_token();
    let nonce = fresh_nonce();
    let tx = b"fake-solana-transaction-bytes";
    let digest = tx_digest(tx);
    let proof = AgentAuthProof::build(&token, nonce, "did:ahin:agent:alice", &digest).unwrap();
    let result = proof.verify(&token, "did:ahin:agent:eve", &digest);
    assert!(matches!(result, Err(AuthError::InvalidProof)));
}

#[test]
fn auth_token_generate_produces_32_bytes() {
    let token = AuthToken::generate();
    assert_eq!(token.as_bytes().len(), 32);
}

#[test]
fn tx_digest_is_sha256_of_the_bytes() {
    let d = tx_digest(b"abc");
    let reference: [u8; 32] = sha2::Sha256::digest(b"abc").into();
    assert_eq!(d, reference);
}

#[test]
fn auth_error_messages() {
    assert_eq!(AuthError::InvalidProof.to_message(), "Authorization proof is invalid");
    assert_eq!(
        AuthError::NonceReused.to_message(),
        "Nonce has already been used (replay attack detected)"
    );
    assert_eq!(
        AuthError::CommitmentBuild("x".to_string()).to_message(),
        "Commitment construction failed: x"
    );
}

// ── key vault ────────────────────────────────────────────────────────────────

fn test_seed() -> [u8; 32] {
    [0xDEu8; 32]
}

fn request_for(token: &AuthToken, agent: &str, tx_bytes: Vec<u8>) -> SigningRequest {
    let nonce = fresh_nonce();
    let digest = tx_digest(&tx_bytes);
    let proof = AgentAuthProof::build(token, nonce, agent, &digest).unwrap();
    SigningRequest { transaction_bytes: tx_bytes, agent_id: agent.to_string(), nonce, auth_proof: proof }
}

#[test]
fn enroll_and_sign_succeeds() {
    let mut vault = SolanaKeyVault::new();
    let token = vault.enroll_key("did:ahin:agent:alice", test_seed()).expect("enroll should succeed");
    let tx_bytes = b"transfer:from:alice:to:bob:42 LIFE".to_vec();
    let nonce = fresh_nonce();
    let digest = tx_digest(&tx_bytes);
    let proof = AgentAuthProof::build(&token, nonce, "did:ahin:agent:alice", &digest).unwrap();
    let request = SigningRequest {
        transaction_bytes: tx_bytes,
        agent_id: "did:ahin:agent:alice".to_string(),
        nonce,
        auth_proof: proof,
    };
    let response = vault.sign_transaction(request).expect("sign should succeed");
    assert_eq!(response.signing_pubkey.len(), 32);
    assert!(!response.signed_transaction.is_empty());
    assert!(!response.vault_attestation.is_empty());
}

#[test]
fn response_attestation_verifies() {
    let mut vault = SolanaKeyVault::new();
    let token = vault.enroll_key("did:ahin:agent:alice", test_seed()).unwrap();
    let request = request_for(&token, "did:ahin:agent:alice", b"transfer:42".to_vec());
    let response = vault.sign_transaction(request).unwrap();
    assert!(SolanaKeyVault::verify_response_attestation(&response));
}

#[test]
fn replay_nonce_is_rejected() {
    let mut vault = SolanaKeyVault::new();
    let token = vault.enroll_key("did:ahin:agent:alice", test_seed()).unwrap();
    let request = request_for(&token, "did:ahin:agent:alice", b"first-tx".to_vec());
    vault.sign_transaction(request.clone()).expect("first sign should succeed");
    let result = vault.sign_transaction(request);
    assert!(matches!(result, Err(VaultError::NonceReused)));
}

#[test]
fn wrong_auth_token_is_rejected() {
    let mut vault = SolanaKeyVault::new();
    let _token = vault.enroll_key("did:ahin:agent:alice", test_seed()).unwrap();
    let bad_token = AuthToken::from_bytes([0x00u8; 32]);
    let request = request_for(&bad_token, "did:ahin:agent:alice", b"tx".to_vec());
    let result = vault.sign_transaction(request);
    assert!(matches!(result, Err(VaultError::Unauthorized(_))));
}

#[test]
fn unregistered_agent_is_rejected() {
    let mut vault = SolanaKeyVault::new();
    let token = AuthToken::from_bytes([0xFFu8; 32]);
    let request = request_for(&token, "did:ahin:agent:ghost", b"tx".to_vec());
    let result = vault.sign_transaction(request);
    assert!(matches!(result, Err(VaultError::AgentNotRegistered(_))));
}

#[test]
fn audit_log_records_events() {
    let mut vault = SolanaKeyVault::new();
    let token = vault.enroll_key("did:ahin:agent:alice", test_seed()).unwrap();
    let request = request_for(&token, "did:ahin:agent:alice", b"tx".to_vec());
    vault.sign_transaction(request).unwrap();
    assert!(vault.audit_log.len() >= 3);
    assert!(vault.audit_log.verify_chain());
}

#[test]
fn two_agents_can_have_separate_keys() {
    let mut vault = SolanaKeyVault::new();
    let token_alice = vault.enroll_key("did:ahin:agent:alice", [0x01u8; 32]).unwrap();
    let token_bob = vault.enroll_key("did:ahin:agent:bob", [0x02u8; 32]).unwrap();
    for (agent, token) in [("did:ahin:agent:alice", token_alice), ("did:ahin:agent:bob", token_bob)] {
        let tx_bytes = format!("tx-from-{agent}").into_bytes();
        let request = request_for(&token, agent, tx_bytes);
        vault.sign_transaction(request).expect("sign should succeed");
    }
}

#[test]
fn alice_token_cannot_sign_for_bob() {
    let mut vault = SolanaKeyVault::new();
    let token_alice = vault.enroll_key("did:ahin:agent:alice", [0x01u8; 32]).unwrap();
    let _token_bob = vault.enroll_key("did:ahin:agent:bob", [0x02u8; 32]).unwrap();
    let tx_bytes = b"tx".to_vec();
    let nonce = fresh_nonce();
    let digest = tx_digest(&tx_bytes);
    let proof = AgentAuthProof::build(&token_alice, nonce, "did:ahin:agent:alice", &digest).unwrap();
    let request = SigningRequest {
        transaction_bytes: tx_bytes,
        agent_id: "did:ahin:agent:bob".to_string(),
        nonce,
        auth_proof: proof,
    };
    let result = vault.sign_transaction(request);
    assert!(matches!(result, Err(VaultError::Unauthorized(_))));
}

#[test]
fn signed_transaction_is_signature_then_payload() {
    let mut vault = SolanaKeyVault::new();
    let token = vault.enroll_key("did:ahin:agent:alice", test_seed()).unwrap();
    let tx = b"payload-bytes".to_vec();
    let request = request_for(&token, "did:ahin:agent:alice", tx.clone());
    let response = vault.sign_transaction(request).unwrap();
    assert_eq!(response.signed_transaction.len(), 64 + tx.len());
    assert_eq!(&response.signed_transaction[64..], &tx[..]);
    assert_eq!(response.vault_attestation_pubkey, vault.attestation_pubkey());
}

#[test]
fn refused_requests_are_logged() {
    let mut vault = SolanaKeyVault::new();
    let token = vault.enroll_key("did:ahin:agent:alice", test_seed()).unwrap();
    let before = vault.audit_log.len();
    let bad = request_for(&AuthToken::from_bytes([7u8; 32]), "did:ahin:agent:alice", b"tx".to_vec());
    assert!(vault.sign_transaction(bad).is_err());
    assert_eq!(vault.audit_log.len(), before + 1);
    assert_eq!(vault.audit_log.entries().last().unwrap().event, "auth_proof_rejected");
    let ok = request_for(&token, "did:ahin:agent:alice", b"tx".to_vec());
    let replay = ok.clone();
    vault.sign_transaction(ok).unwrap();
    assert!(vault.sign_transaction(replay).is_err());
    assert_eq!(vault.audit_log.entries().last().unwrap().event, "nonce_reuse_rejected");
    assert!(vault.audit_log.verify_chain());
}

#[test]
fn unauthorized_reason_is_the_proof_error_text() {
    let mut vault = SolanaKeyVault::new();
    vault.enroll_key("did:ahin:agent:alice", test_seed()).unwrap();
    let bad = request_for(&AuthToken::from_bytes([7u8; 32]), "did:ahin:agent:alice", b"tx".to_vec());
    match vault.sign_transaction(bad) {
        Err(VaultError::Unauthorized(m)) => assert_eq!(m, "Authorization proof is invalid"),
        _ => panic!("expected Unauthorized"),
    }
}

#[test]
fn tampered_attestation_fails_verification() {
    let mut vault = SolanaKeyVault::new();
    let token = vault.enroll_key("did:ahin:agent:alice", test_seed()).unwrap();
    let request = request_for(&token, "did:ahin:agent:alice", b"tx".to_vec());
    let mut response = vault.sign_transaction(request).unwrap();
    response.signed_transaction[0] ^= 1;
    assert!(!SolanaKeyVault::verify_response_attestation(&response));
}

#[test]
fn vault_error_messages() {
    assert_eq!(VaultError::NonceReused.to_message(), "Nonce has already been used (replay attack)");
    assert_eq!(
        VaultError::AgentNotRegistered("did:x".to_string()).to_message(),
        "Agent did:x is not registered in this vault"
    );
    assert_eq!(
        VaultError::Unauthorized("why".to_string()).to_message(),
        "Authorization proof is invalid: why"
    );
}
