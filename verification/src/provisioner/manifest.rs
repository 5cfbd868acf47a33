//! Plain capability descriptors of a CIS edge node.

use vstd::prelude::*;

verus! {

/// Hardware telemetry interfaces available on the device.
#[derive(Debug, Clone, PartialEq, Eq, Structural)]
pub struct TelemetryInterfaces {
    /// I²C bus for thermal sensors and current monitors.
    pub i2c: bool,
    /// SPI bus for high-speed sensor data.
    pub spi: bool,
    /// CAN bus for actuator feedback.
    pub can: bool,
}

/// Hardware root-of-trust mechanism.
#[derive(Debug, Clone, PartialEq, Eq, Structural)]
pub enum TrustRoot {
    /// Dedicated TPM 2.0 security chip.
    Tpm20,
    /// On-die SRAM physical unclonable function.
    SramPuf,
}

} // verus!
