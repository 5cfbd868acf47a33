//! The Silicon Awakening ceremony: PUF entropy, dual key derivation,
//! genesis transaction signing and OTP fuse burning.
//!
//! The capability manifest of the node depends only on the DID and the
//! provisioning time, and is built by the caller from the returned DID.

use vstd::prelude::*;
use vstd::utf8::encode_utf8;
use crate::digest::{hex_encode, spec_hex, spec_sha256};
use crate::provisioner::crypto::{
    spec_bootstrap_selector, spec_ed25519_private, spec_ed25519_public, spec_evm_address,
    spec_evm_private, Ed25519Keypair, EvmWallet, PufManager,
};
use crate::provisioner::hardware::{FuseState, HardwareError, OtpFuses};

verus! {

#[derive(Debug)]
pub enum ProvisionerError {
    Hardware(HardwareError),
    AlreadyProvisioned,
}

/// Configuration for the factory provisioner.
pub struct ProvisionerConfig {
    /// The device MAC address, mixed into the PUF seed.
    pub mac_address: [u8; 6],
    /// Factory IPFS gateway URL for manifest pinning.
    pub factory_ipfs_url: String,
    /// Factory RPC gateway URL for genesis transaction broadcast.
    pub factory_rpc_url: String,
    /// UNIX time of provisioning.
    pub provisioned_at: u64,
}

/// What the ceremony produces.
#[derive(Debug)]
pub struct GenesisResult {
    /// The device DID: `did:cis:amd395:` and the hex Ed25519 public key.
    pub did: String,
    /// The EVM address of the device.
    pub evm_address: String,
    /// The signed ERC-8004 registration transaction, ready for broadcast.
    pub signed_tx: Vec<u8>,
}

/// The DID of a seed.
pub open spec fn spec_genesis_did(seed: Seq<u8>) -> Seq<char> {
    "did:cis:amd395:"@ + spec_hex(spec_ed25519_public(spec_ed25519_private(seed)))
}

/// The capabilities URI of a seed under a factory IPFS gateway.
pub open spec fn spec_capabilities_uri(ipfs_url: Seq<char>, seed: Seq<u8>) -> Seq<char> {
    ipfs_url + "/ipfs/Qm"@ + spec_hex(seed.subrange(0, 16))
}

/// The genesis transaction of a seed.
pub open spec fn spec_genesis_tx(ipfs_url: Seq<char>, seed: Seq<u8>) -> Seq<u8> {
    let payload = spec_bootstrap_selector() + encode_utf8(spec_genesis_did(seed)) + encode_utf8(
        spec_capabilities_uri(ipfs_url, seed),
    );
    payload + spec_sha256(spec_evm_private(seed) + payload)
}

/// Orchestrates the end-to-end ceremony.
pub struct GenesisProvisioner {
    config: ProvisionerConfig,
    otp_fuses: OtpFuses,
}

impl GenesisProvisioner {
    /// The configuration.
    pub closed spec fn spec_config(&self) -> ProvisionerConfig {
        self.config
    }

    /// The fuse state.
    pub closed spec fn spec_fuses(&self) -> FuseState {
        self.otp_fuses.spec_state()
    }

    pub fn new(config: ProvisionerConfig) -> (r: Self)
        ensures
            r.spec_config() == config,
            r.spec_fuses() == (FuseState { jtag_disabled: false, secure_boot_enforced: false }),
    {
        GenesisProvisioner { config, otp_fuses: OtpFuses::new() }
    }

    /// Run the ceremony: extract a seed, derive both key pairs, sign the
    /// genesis registration, wipe the EVM key and burn both fuses.
    ///
    /// Fails with the fuse error when a fuse is already burned; a JTAG fuse
    /// burned by this call stays burned when the secure-boot burn fails.
    pub fn run(&mut self) -> (r: Result<GenesisResult, ProvisionerError>)
        ensures
            final(self).spec_config() == old(self).spec_config(),
            old(self).spec_fuses().jtag_disabled ==> (r matches Err(
                ProvisionerError::Hardware(HardwareError::FuseAlreadyBurned),
            )) && final(self).spec_fuses() == old(self).spec_fuses(),
            !old(self).spec_fuses().jtag_disabled && old(self).spec_fuses().secure_boot_enforced
                ==> (r matches Err(ProvisionerError::Hardware(HardwareError::FuseAlreadyBurned)))
                && final(self).spec_fuses() == (FuseState {
                jtag_disabled: true,
                secure_boot_enforced: true,
            }),
            !old(self).spec_fuses().jtag_disabled && !old(self).spec_fuses().secure_boot_enforced
                ==> (r matches Ok(res) && exists|seed: Seq<u8>|
                #![trigger spec_genesis_did(seed)]
                {
                    &&& seed.len() == 32
                    &&& res.did@ == spec_genesis_did(seed)
                    &&& res.evm_address@ == "0x"@ + spec_hex(
                        spec_evm_address(spec_evm_private(seed)),
                    )
                    &&& res.signed_tx@ == spec_genesis_tx(old(self).spec_config().factory_ipfs_url@, seed)
                }) && final(self).spec_fuses() == (FuseState {
                jtag_disabled: true,
                secure_boot_enforced: true,
            }),
    {
        let puf = PufManager::new(self.config.mac_address);
        let genesis_seed = puf.extract_unique_seed();
        let agent_keypair = Ed25519Keypair::from_seed(&genesis_seed);
        let mut evm_wallet = EvmWallet::from_seed(&genesis_seed);

        let mut agent_did = String::from_str("did:cis:amd395:");
        agent_did.append(hex_encode(agent_keypair.public_key()).as_str());

        let mut capabilities_uri = self.config.factory_ipfs_url.clone();
        capabilities_uri.append("/ipfs/Qm");
        capabilities_uri.append(hex_encode(vstd::slice::slice_subrange(&genesis_seed, 0, 16)).as_str());

        let signed_tx = evm_wallet.sign_erc8004_registration(agent_did.clone(), capabilities_uri);
        let evm_address = evm_wallet.address();
        evm_wallet.zeroize();

        if let Err(e) = self.otp_fuses.burn_jtag_disable_bit() {
            return Err(ProvisionerError::Hardware(e));
        }
        if let Err(e) = self.otp_fuses.burn_secure_boot_enforce_bit() {
            return Err(ProvisionerError::Hardware(e));
        }
        assert(genesis_seed@.len() == 32);
        assert(agent_did@ == spec_genesis_did(genesis_seed@));
        Ok(GenesisResult { did: agent_did, evm_address, signed_tx })
    }

    /// The current fuse state, for diagnostics.
    pub fn fuse_state(&self) -> (r: &FuseState)
        ensures
            *r == self.spec_fuses(),
    {
        self.otp_fuses.state()
    }

    /// Burn the JTAG fuse directly (a second burn after the ceremony fails).
    pub fn burn_jtag_again(&mut self) -> (r: Result<(), HardwareError>)
        ensures
            old(self).spec_fuses().jtag_disabled ==> (r matches Err(HardwareError::FuseAlreadyBurned))
                && final(self).spec_fuses() == old(self).spec_fuses(),
            !old(self).spec_fuses().jtag_disabled ==> r is Ok && final(self).spec_fuses() == (
            FuseState { jtag_disabled: true, ..old(self).spec_fuses() }),
            final(self).spec_config() == old(self).spec_config(),
    {
        self.otp_fuses.burn_jtag_disable_bit()
    }
}

} // verus!
