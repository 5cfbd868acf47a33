//! Verified core of the Life++ / PoCC agent stack.

pub mod bonds;
pub mod bytes;
pub mod collab;
pub mod digest;
pub mod gateway;
pub mod kinetic;
pub mod lanes;
pub mod lightning;
pub mod mandates;
pub mod provisioner;
pub mod tee;
pub mod text;
pub mod timeline;
pub mod vault;
