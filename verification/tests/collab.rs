use sha2::Digest;
use pocc::collab::ctx_composer::{CognitiveBoundary, CtxComposer, CtxError, SettlementInstruction};
use pocc::collab::merkle::ConcurrentMerkleTree;
use pocc::collab::orchestrator::{CompositeTask, OrchestratorError, SubTaskNode, SubTaskStatus, TaskOrchestrator};
use pocc::collab::zk_prover::{CogPProver, CogPVerifier, CogWitness, ZkCogpError};
use pocc::gateway::{
    payload_allowed, success_message, vc_bundle_hash, AP2FrameworkOrchestrator, AP2Intent, GatewayRejection,
    OrchestratorConfig,
};
use pocc::timeline::{CogNode, CognitiveHashTimeline, TimelineError};

// ── merkle tree ──────────────────────────────────────────────────────────────

#[test]
fn empty_tree_has_zero_root() {
    let tree = ConcurrentMerkleTree::new();
    assert_eq!(tree.root(), [0u8; 32]);
}

#[test]
fn root_changes_after_inserts() {
    let mut tree = ConcurrentMerkleTree::new();
    tree.insert([1u8; 32]);
    let single = tree.root();
    tree.insert([2u8; 32]);
    assert_ne!(single, tree.root());
}

fn sha(parts: &[&[u8]]) -> [u8; 32] {
    let mut h = sha2::Sha256::new();
    for p in parts {
        h.update(p);
    }
    h.finalize().into()
}

#[test]
fn merkle_root_of_one_leaf_is_the_leaf() {
    let mut tree = ConcurrentMerkleTree::new();
    tree.insert([9u8; 32]);
    assert_eq!(tree.root(), [9u8; 32]);
    assert_eq!(tree.len(), 1);
    assert!(!tree.is_empty());
}

#[test]
fn merkle_root_pairs_and_duplicates_odd_leaf() {
    let (a, b, c) = ([1u8; 32], [2u8; 32], [3u8; 32]);
    let mut tree = ConcurrentMerkleTree::new();
    tree.insert(a);
    tree.insert(b);
    assert_eq!(tree.root(), sha(&[&a, &b]));
    tree.insert(c);
    let left = sha(&[&a, &b]);
    let right = sha(&[&c, &c]);
    assert_eq!(tree.root(), sha(&[&left, &right]));
}

// ── cognitive transactions ───────────────────────────────────────────────────

fn genesis() -> CognitiveHashTimeline {
    let node = CogNode {
        previous_hash: [0u8; 32],
        agent_did: "genesis".into(),
        ctx_payload_hash: [0u8; 32],
        zk_cog_proof_commitment: vec![],
        timestamp: 0,
    };
    CognitiveHashTimeline::new(node)
}

fn boundary() -> CognitiveBoundary {
    CognitiveBoundary { max_compute_units: 5000, max_time_ms: 3_600_000, safety_clearance_level: 1 }
}

fn settlement() -> SettlementInstruction {
    SettlementInstruction {
        amount_bits: 0.005f64.to_bits(),
        token_symbol: "USDC".into(),
        buyer_signature: "sig_abc".into(),
    }
}

#[test]
fn draft_then_anchor_roundtrip() {
    let mut ctx = CtxComposer::draft_transaction("did:buyer:001", "did:seller:bot", "Fetch coffee", boundary(), settlement());
    assert!(!ctx.is_executed);
    CtxComposer::fulfill_transaction(&mut ctx, "arm_actuator_01", [42u8; 32], vec![0xde, 0xad, 0xbe, 0xef]);
    assert!(ctx.is_executed);
    let mut timeline = genesis();
    let hash = CtxComposer::finalize_and_anchor(&ctx, &mut timeline).unwrap();
    assert_ne!(hash, [0u8; 32]);
}

#[test]
fn finalise_unexecuted_ctx_fails() {
    let ctx = CtxComposer::draft_transaction("did:buyer", "did:seller", "intent", boundary(), settlement());
    let mut timeline = genesis();
    assert!(matches!(CtxComposer::finalize_and_anchor(&ctx, &mut timeline), Err(CtxError::UnfinishedExecution)));
}

#[test]
fn ctx_id_is_hash_of_parties_intent_and_time() {
    let ctx = CtxComposer::draft_at("b", "s", "i", boundary(), settlement(), 7);
    let expected = sha(&[b"b", b"s", b"i", &7u64.to_be_bytes()]);
    assert_eq!(ctx.ctx_id, hex::encode(expected));
    assert_eq!(ctx.timestamp, 7);
}

#[test]
fn anchoring_links_to_latest_hash() {
    let mut timeline = genesis();
    let before = timeline.get_latest_hash();
    let mut ctx = CtxComposer::draft_at("b", "s", "i", boundary(), settlement(), 1);
    CtxComposer::fulfill_transaction(&mut ctx, "arm", [1u8; 32], vec![1]);
    let h = CtxComposer::finalize_and_anchor(&ctx, &mut timeline).unwrap();
    assert_eq!(timeline.get_latest_hash(), h);
    assert_ne!(before, h);
    assert_eq!(timeline.len(), 2);
}

// ── timeline ─────────────────────────────────────────────────────────────────

fn node(prev: [u8; 32], did: &str, ts: i64) -> CogNode {
    CogNode {
        previous_hash: prev,
        agent_did: did.into(),
        ctx_payload_hash: [5u8; 32],
        zk_cog_proof_commitment: vec![1, 2, 3],
        timestamp: ts,
    }
}

#[test]
fn node_hash_is_sha256_of_bincode_encoding() {
    let n = node([3u8; 32], "did:x", -5);
    let encoded = bincode::serialize(&(
        n.previous_hash,
        n.agent_did.clone(),
        n.ctx_payload_hash,
        n.zk_cog_proof_commitment.clone(),
        n.timestamp,
    ))
    .unwrap();
    assert_eq!(n.encode(), encoded);
    assert_eq!(n.calculate_hash(), sha(&[&encoded]));
}

#[test]
fn timeline_refuses_a_node_with_a_stale_link() {
    let mut timeline = genesis();
    let g = timeline.get_latest_hash();
    let h1 = timeline.anchor_cognition(node(g, "a", 1)).unwrap();
    assert!(matches!(timeline.anchor_cognition(node(g, "b", 2)), Err(TimelineError::AvalancheFailure)));
    assert_eq!(timeline.len(), 2);
    let h2 = timeline.anchor_cognition(node(h1, "b", 2)).unwrap();
    assert_eq!(timeline.get_latest_hash(), h2);
}

// ── cognitive proofs ─────────────────────────────────────────────────────────

fn proof_boundary() -> CognitiveBoundary {
    CognitiveBoundary { max_compute_units: 10_000, max_time_ms: 5_000, safety_clearance_level: 1 }
}

fn witness(compute: u64, elapsed: u64, clearance: u8) -> CogWitness {
    CogWitness {
        model_id: "llama3-8b".into(),
        intent: "fetch coffee".into(),
        output_hash: [0xABu8; 32],
        compute_units_used: compute,
        elapsed_ms: elapsed,
        seller_clearance_level: clearance,
    }
}

#[test]
fn valid_witness_produces_verifiable_proof() {
    let w = witness(5_000, 1_000, 2);
    let proof = CogPProver::generate_proof(&w, &proof_boundary()).unwrap();
    assert!(CogPVerifier::verify(&proof).is_ok());
}

#[test]
fn compute_overrun_rejected() {
    let w = witness(20_000, 1_000, 2);
    assert!(matches!(CogPProver::generate_proof(&w, &proof_boundary()), Err(ZkCogpError::ComputeOverrun { .. })));
}

#[test]
fn time_overrun_rejected() {
    let w = witness(1_000, 99_999, 2);
    assert!(matches!(CogPProver::generate_proof(&w, &proof_boundary()), Err(ZkCogpError::TimeOverrun { .. })));
}

#[test]
fn insufficient_clearance_rejected() {
    let w = witness(1_000, 1_000, 0);
    assert!(matches!(
        CogPProver::generate_proof(&w, &proof_boundary()),
        Err(ZkCogpError::ClearanceInsufficient { .. })
    ));
}

#[test]
fn tampered_proof_fails_verification() {
    let w = witness(5_000, 1_000, 2);
    let mut proof = CogPProver::generate_proof(&w, &proof_boundary()).unwrap();
    proof.proof_bytes[0] ^= 0xFF;
    assert!(matches!(CogPVerifier::verify(&proof), Err(ZkCogpError::VerificationFailed)));
}

#[test]
fn boundary_limits_are_inclusive() {
    let w = witness(10_000, 5_000, 1);
    let proof = CogPProver::generate_proof(&w, &proof_boundary()).unwrap();
    assert_eq!(proof.proof_bytes, proof.commitment.to_vec());
    assert_eq!(proof.public_inputs.output_hash, [0xABu8; 32]);
    assert!(CogPVerifier::verify(&proof).is_ok());
}

// ── gateway admission ────────────────────────────────────────────────────────

fn intent(hash: &str) -> AP2Intent {
    AP2Intent {
        action_type: "dispatch_physical_task".into(),
        target_domain: "energy_grid".into(),
        tensor_hash: hash.into(),
    }
}

fn make_orchestrator(require_tls: bool) -> AP2FrameworkOrchestrator {
    AP2FrameworkOrchestrator::new(OrchestratorConfig { require_tls })
}

#[test]
fn validate_ap2_intent_rejects_invalid_tensor_hash() {
    let orchestrator = make_orchestrator(false);
    let invalid_intent = intent("abc123");
    assert!(!orchestrator.validate_ap2_intent(&invalid_intent));
}

#[test]
fn validate_ap2_intent_accepts_prefixed_tensor_hash() {
    let orchestrator = make_orchestrator(false);
    let valid_intent = intent("0xabc123");
    assert!(orchestrator.validate_ap2_intent(&valid_intent));
}

#[test]
fn intent_with_empty_fields_is_rejected() {
    let o = make_orchestrator(false);
    let mut i = intent("0x1");
    i.action_type.clear();
    assert!(!o.validate_ap2_intent(&i));
    assert!(!o.validate_ap2_intent(&intent("0")));
    assert!(o.validate_ap2_intent(&intent("0x")));
}

#[test]
fn screening_follows_the_gateway_order() {
    let strict = AP2FrameworkOrchestrator::new(OrchestratorConfig::default());
    let ok = intent("0xabc");
    assert_eq!(strict.screen_request(false, true, 4, true, &ok, true), Err(GatewayRejection::TlsRequired));
    assert_eq!(strict.screen_request(true, false, 4, true, &ok, true), Err(GatewayRejection::RateLimitExceeded));
    assert_eq!(strict.screen_request(true, true, 4097, true, &ok, true), Err(GatewayRejection::PayloadTooLarge));
    assert_eq!(strict.screen_request(true, true, 4096, false, &ok, true), Err(GatewayRejection::ReputationTooLow));
    assert_eq!(strict.screen_request(true, true, 4096, true, &intent("x"), true), Err(GatewayRejection::IntentRejected));
    assert_eq!(strict.screen_request(true, true, 4096, true, &ok, false), Err(GatewayRejection::PaymentRequired));
    assert_eq!(strict.screen_request(true, true, 4096, true, &ok, true), Ok(()));
    let lax = make_orchestrator(false);
    assert_eq!(lax.screen_request(false, true, 0, true, &ok, true), Ok(()));
    assert!(payload_allowed(4096));
    assert!(!payload_allowed(4097));
}

#[test]
fn rejection_texts() {
    assert_eq!(GatewayRejection::TlsRequired.message(), "TLS_REQUIRED: Request rejected - unencrypted channel detected.");
    assert_eq!(GatewayRejection::PayloadTooLarge.message(), "PAYLOAD_TOO_LARGE: physical_payload exceeds the 4 KB limit.");
}

#[test]
fn vc_bundle_hash_format() {
    let h = vc_bundle_hash("did:erc8004:test:agent", 4);
    assert_eq!(h, format!("0x{}{:X}", "did:erc8004:test:agent".len(), 4usize));
    assert_eq!(vc_bundle_hash("abc", 255), "0x3FF");
    assert_eq!(success_message(&h), format!("SUCCESS_VC_ISSUED: {}", h));
}

// ── task orchestration ───────────────────────────────────────────────────────

fn share(total: f64, fraction: f64) -> u64 {
    (total * fraction).to_bits()
}

fn build_building_dag() -> (CompositeTask, String, String, String) {
    let mut task = CompositeTask::new("did:buyer:enterprise", "Clean 3-floor office", 300.0f64.to_bits(), "USDC");
    let open_doors = task.insert_subtask("Open all doors", vec![], share(300.0, 0.1));
    let floor1 = task.insert_subtask("Clean floor 1", vec![open_doors.clone()], share(300.0, 0.3));
    let floor2 = task.insert_subtask("Clean floor 2", vec![floor1.clone()], share(300.0, 0.3));
    (task, open_doors, floor1, floor2)
}

#[test]
fn dag_validation_passes_for_valid_dag() {
    let (task, _, _, _) = build_building_dag();
    assert!(task.validate_dag().is_ok());
}

#[test]
fn initial_ready_tasks_are_those_with_no_deps() {
    let (mut task, open_doors, _, _) = build_building_dag();
    let ready = TaskOrchestrator::get_ready_tasks(&mut task);
    assert_eq!(ready.len(), 1);
    assert_eq!(ready[0].id, open_doors);
}

#[test]
fn completing_task_unlocks_dependents() {
    let (mut task, open_doors, floor1, _) = build_building_dag();
    TaskOrchestrator::mark_task_completed(&mut task, &open_doors).unwrap();
    let ready = TaskOrchestrator::get_ready_tasks(&mut task);
    let ready_ids: Vec<_> = ready.iter().map(|n| n.id.as_str()).collect();
    assert!(ready_ids.contains(&floor1.as_str()));
}

#[test]
fn is_complete_only_when_all_done() {
    let (mut task, open_doors, floor1, floor2) = build_building_dag();
    assert!(!TaskOrchestrator::is_complete(&task));
    TaskOrchestrator::mark_task_completed(&mut task, &open_doors).unwrap();
    TaskOrchestrator::mark_task_completed(&mut task, &floor1).unwrap();
    TaskOrchestrator::mark_task_completed(&mut task, &floor2).unwrap();
    assert!(TaskOrchestrator::is_complete(&task));
}

#[test]
fn draft_ctx_has_correct_budget_allocation() {
    let (mut task, open_doors_id, _, _) = build_building_dag();
    TaskOrchestrator::get_ready_tasks(&mut task);
    let node = task.sub_tasks.iter().find(|n| n.id == open_doors_id).unwrap().copy();
    let ctx = TaskOrchestrator::draft_dispatchable_ctx(&task, &node, "did:robot:001");
    assert!((f64::from_bits(ctx.settlement.amount_bits) - 30.0).abs() < 1e-9);
    assert_eq!(ctx.settlement.buyer_signature, format!("sig:did:buyer:enterprise:{}", open_doors_id));
    assert_eq!(ctx.intent_declaration, "Open all doors");
    assert_eq!(ctx.boundary.safety_clearance_level, 2);
}

#[test]
fn cycle_is_detected() {
    let mut task = CompositeTask::new_at("b", "i", 0, "USDC", 5);
    let a = task.insert_subtask("a", vec![], 0);
    let b = task.insert_subtask("b", vec![a.clone()], 0);
    task.sub_tasks[0].dependencies.push(b.clone());
    assert!(matches!(task.validate_dag(), Err(OrchestratorError::CircularDependency)));
}

#[test]
fn self_dependency_is_a_cycle() {
    let mut task = CompositeTask::new_at("b", "i", 0, "USDC", 5);
    let a = task.insert_subtask("a", vec![], 0);
    task.sub_tasks[0].dependencies.push(a);
    assert!(task.validate_dag().is_err());
}

#[test]
fn unknown_dependency_fails_validation() {
    let mut task = CompositeTask::new_at("b", "i", 0, "USDC", 5);
    task.insert_subtask("a", vec!["ghost".to_string()], 0);
    assert!(task.validate_dag().is_err());
    let empty = CompositeTask::new_at("b", "i", 0, "USDC", 5);
    assert!(empty.validate_dag().is_ok());
}

#[test]
fn subtask_ids_hash_macro_id_description_and_index() {
    let mut task = CompositeTask::new_at("buyer", "intent", 0, "USDC", 7);
    let mut h = sha2::Sha256::new();
    h.update(b"buyer");
    h.update(b"intent");
    h.update(7u128.to_be_bytes());
    let macro_id = hex::encode(h.finalize());
    assert_eq!(task.macro_id, macro_id);
    let id = task.insert_subtask("a", vec![], 0);
    assert_eq!(id, hex::encode(sha(&[macro_id.as_bytes(), b"a", &0u64.to_be_bytes()])));
    assert!(matches!(task.sub_tasks[0].status, SubTaskStatus::Pending));
}

#[test]
fn marking_unknown_task_fails() {
    let (mut task, _, _, _) = build_building_dag();
    assert!(matches!(
        TaskOrchestrator::mark_task_completed(&mut task, "nope"),
        Err(OrchestratorError::TaskNotFound(s)) if s == "nope"
    ));
    let (mut task, open_doors, _, _) = build_building_dag();
    TaskOrchestrator::mark_task_failed(&mut task, &open_doors, "jammed").unwrap();
    assert!(matches!(&task.sub_tasks[0].status, SubTaskStatus::Failed(r) if r == "jammed"));
    assert!(!TaskOrchestrator::is_complete(&task));
}

fn pending_node(id: &str, deps: &[&str]) -> SubTaskNode {
    SubTaskNode {
        id: id.to_string(),
        description: id.to_string(),
        dependencies: deps.iter().map(|d| d.to_string()).collect(),
        allocated_budget_bits: 0,
        status: SubTaskStatus::Pending,
    }
}

#[test]
fn cycle_beside_unknown_dependencies_is_refused() {
    let mut task = CompositeTask::new("did:buyer", "intent", 100.0f64.to_bits(), "USDC");
    task.sub_tasks = vec![
        pending_node("A", &["B"]),
        pending_node("B", &["A"]),
        pending_node("C", &["g1", "g2"]),
    ];
    assert!(matches!(task.validate_dag(), Err(OrchestratorError::CircularDependency)));
}

#[test]
fn unknown_dependency_without_cycle_is_refused() {
    let mut task = CompositeTask::new("did:buyer", "intent", 100.0f64.to_bits(), "USDC");
    task.sub_tasks = vec![pending_node("A", &[]), pending_node("B", &["ghost"])];
    assert!(matches!(task.validate_dag(), Err(OrchestratorError::CircularDependency)));
    task.sub_tasks = vec![pending_node("A", &[]), pending_node("B", &["A"])];
    assert!(task.validate_dag().is_ok());
}
