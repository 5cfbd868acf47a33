//! One-time-programmable fuses and the JTAG debug interface of a CIS edge
//! node.  Burning a fuse is irreversible.

use vstd::prelude::*;

verus! {

#[derive(Debug)]
pub enum HardwareError {
    FuseBurnFailed(String),
    JtagError(String),
    FuseAlreadyBurned,
}

/// Current state of the hardware security fuses.
#[derive(Debug, Clone, Default, PartialEq, Eq, Structural)]
pub struct FuseState {
    /// External JTAG/SWD debug access is permanently disabled.
    pub jtag_disabled: bool,
    /// The boot ROM enforces a verified chain of trust on every boot.
    pub secure_boot_enforced: bool,
}

/// Interface to the OTP fuse controller.
pub struct OtpFuses {
    state: FuseState,
}

impl OtpFuses {
    /// The fuse state.
    pub closed spec fn spec_state(&self) -> FuseState {
        self.state
    }

    /// A controller in its factory-default state: every fuse intact.
    pub fn new() -> (r: Self)
        ensures
            r.spec_state() == (FuseState { jtag_disabled: false, secure_boot_enforced: false }),
    {
        OtpFuses { state: FuseState { jtag_disabled: false, secure_boot_enforced: false } }
    }

    /// Permanently disable JTAG; fails when that fuse is already burned.
    pub fn burn_jtag_disable_bit(&mut self) -> (r: Result<(), HardwareError>)
        ensures
            old(self).spec_state().jtag_disabled ==> (r matches Err(HardwareError::FuseAlreadyBurned))
                && final(self).spec_state() == old(self).spec_state(),
            !old(self).spec_state().jtag_disabled ==> r is Ok && final(self).spec_state() == (
            FuseState { jtag_disabled: true, ..old(self).spec_state() }),
    {
        if self.state.jtag_disabled {
            return Err(HardwareError::FuseAlreadyBurned);
        }
        self.state.jtag_disabled = true;
        Ok(())
    }

    /// Enforce secure boot; fails when that fuse is already burned.
    pub fn burn_secure_boot_enforce_bit(&mut self) -> (r: Result<(), HardwareError>)
        ensures
            old(self).spec_state().secure_boot_enforced ==> (r matches Err(
                HardwareError::FuseAlreadyBurned,
            )) && final(self).spec_state() == old(self).spec_state(),
            !old(self).spec_state().secure_boot_enforced ==> r is Ok && final(self).spec_state() == (
            FuseState { secure_boot_enforced: true, ..old(self).spec_state() }),
    {
        if self.state.secure_boot_enforced {
            return Err(HardwareError::FuseAlreadyBurned);
        }
        self.state.secure_boot_enforced = true;
        Ok(())
    }

    /// A snapshot of the fuse state.
    pub fn state(&self) -> (r: &FuseState)
        ensures
            *r == self.spec_state(),
    {
        &self.state
    }
}

impl Default for OtpFuses {
    fn default() -> (r: Self)
        ensures
            r.spec_state() == (FuseState { jtag_disabled: false, secure_boot_enforced: false }),
    {
        Self::new()
    }
}

/// The JTAG controller interface.
pub struct JtagController;

impl JtagController {
    /// JTAG is reachable exactly while its fuse is intact.
    pub fn is_accessible(fuse_state: &FuseState) -> (r: bool)
        ensures
            r == !fuse_state.jtag_disabled,
    {
        !fuse_state.jtag_disabled
    }
}

/// Fuses only ever go from intact to burned: after either burn call,
/// successful or not, every fuse that was burned stays burned.
pub proof fn lemma_fuses_are_one_way(before: FuseState, after: FuseState)
    requires
        after == before || after == (FuseState { jtag_disabled: true, ..before }) || after == (
        FuseState { secure_boot_enforced: true, ..before }),
    ensures
        before.jtag_disabled ==> after.jtag_disabled,
        before.secure_boot_enforced ==> after.secure_boot_enforced,
{
}

} // verus!
