//! Trusted-execution primitives: measurement chain, attestation reports,
//! measurement-bound sealed storage and the enclave context tying them
//! together.

pub mod measurement;
pub mod attestation;
pub mod sealed_storage;
pub mod context;
