//! The PoCC collaboration protocol: cognitive transactions, task
//! orchestration, cognitive proofs and Merkle batching.

pub mod ctx_composer;
pub mod merkle;
pub mod orchestrator;
pub mod zk_prover;
