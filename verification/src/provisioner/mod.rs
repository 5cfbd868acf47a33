//! Genesis provisioning of CIS edge nodes: entropy, key derivation, fuses.

pub mod crypto;
pub mod hardware;
pub mod mac;
pub mod manifest;
pub mod provisioner;
