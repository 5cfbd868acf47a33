//! Agent wallet vault: audit log, authorisation tokens and commitment
//! proofs, and the Solana key vault itself.

pub mod audit;
pub mod auth;
pub mod zk_commitment;
pub mod pqc;
pub mod key_vault;
