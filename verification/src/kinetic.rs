//! Why the edge runtime's safety pipeline refuses a kinetic command.

use vstd::prelude::*;

verus! {

/// Why a kinetic command was refused.
#[derive(Debug)]
pub enum KineticError {
    /// The command breaks a safety constraint.
    SafetyViolation,
    /// The command carries no TEE attestation report.
    AttestationMissing,
    /// The command's attestation report does not verify; the reason.
    AttestationInvalid(String),
}

impl KineticError {
    /// The human-readable description of the error.
    pub fn to_message(&self) -> (s: String)
        ensures
            self is SafetyViolation ==> s@ == "Safety constraint violation"@,
            self is AttestationMissing ==> s@
                == "TEE attestation required: command carries no attestation report"@,
            self matches KineticError::AttestationInvalid(reason) ==> s@
                == "TEE attestation invalid: "@ + reason@,
    {
        match self {
            KineticError::SafetyViolation => String::from_str("Safety constraint violation"),
            KineticError::AttestationMissing => String::from_str(
                "TEE attestation required: command carries no attestation report",
            ),
            KineticError::AttestationInvalid(reason) => {
                let mut s = String::from_str("TEE attestation invalid: ");
                s.append(reason.as_str());
                s
            },
        }
    }
}

/// A network intent that a buyer has broadcast for auction.
#[derive(Debug, Clone)]
pub struct NetworkIntent {
    pub id: String,
    pub payload: String,
}

} // verus!
