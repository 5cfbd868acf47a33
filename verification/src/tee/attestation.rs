//! Remote attestation report, modelled on an AMD SEV-SNP / Intel TDX report.
//!
//! A [`TeeReport`] binds the software measurement, up to 64 bytes of
//! caller-supplied data and the hardware vendor tag, and carries a platform
//! signature over them:
//!
//! ```text
//! report_data_hash   = SHA-256( measurement ‖ user_data )
//! platform_signature = SHA-256( platform_key ‖ vendor_tag ‖ measurement ‖ user_data )
//! ```

use vstd::prelude::*;
use vstd::utf8::encode_utf8;
use crate::bytes::{bytes_eq, extend_bytes, lemma_differ_at, lemma_differing_position};
use crate::digest::{hex_encode, sha256, spec_hex, spec_sha256, spec_sha256_collision};
use crate::tee::measurement::zero_digest;

verus! {

/// Hardware vendor / TEE technology tag.
#[derive(Debug, Clone, Copy, PartialEq, Eq, Structural)]
pub enum TeeVendor {
    /// AMD Secure Encrypted Virtualisation – Secure Nested Paging.
    AmdSevSnp,
    /// Apple Secure Enclave Processor.
    AppleSecureEnclave,
    /// ARM TrustZone Secure World.
    ArmTrustZone,
    /// Software emulation, for testing without physical TEE hardware.
    Software,
}

/// The canonical ASCII identifier of a vendor.
pub open spec fn spec_vendor_tag(v: TeeVendor) -> Seq<char> {
    match v {
        TeeVendor::AmdSevSnp => "AMD_SEV_SNP"@,
        TeeVendor::AppleSecureEnclave => "APPLE_SECURE_ENCLAVE"@,
        TeeVendor::ArmTrustZone => "ARM_TRUSTZONE"@,
        TeeVendor::Software => "SOFTWARE_TEE"@,
    }
}

impl TeeVendor {
    /// The canonical ASCII identifier for this vendor tag.
    pub fn as_str(self) -> (s: &'static str)
        ensures
            s@ == spec_vendor_tag(self),
    {
        match self {
            TeeVendor::AmdSevSnp => "AMD_SEV_SNP",
            TeeVendor::AppleSecureEnclave => "APPLE_SECURE_ENCLAVE",
            TeeVendor::ArmTrustZone => "ARM_TRUSTZONE",
            TeeVendor::Software => "SOFTWARE_TEE",
        }
    }
}

/// Errors returned when generating or verifying a [`TeeReport`].
#[derive(Debug)]
pub enum TeeReportError {
    EmptyMeasurement,
    SignatureInvalid,
    MeasurementMismatch { expected: String, got: String },
}

impl TeeReportError {
    /// The human-readable description of the error.
    pub fn to_message(&self) -> (s: String)
        ensures
            self is EmptyMeasurement ==> s@
                == "Cannot generate report: measurement chain is empty"@,
            self is SignatureInvalid ==> s@
                == "Report signature verification failed: report has been tampered with"@,
            self matches TeeReportError::MeasurementMismatch { expected, got } ==> s@
                == "Measurement mismatch: expected "@ + expected@ + ", got "@ + got@,
    {
        match self {
            TeeReportError::EmptyMeasurement => String::from_str(
                "Cannot generate report: measurement chain is empty",
            ),
            TeeReportError::SignatureInvalid => String::from_str(
                "Report signature verification failed: report has been tampered with",
            ),
            TeeReportError::MeasurementMismatch { expected, got } => {
                let mut s = String::from_str("Measurement mismatch: expected ");
                s.append(expected.as_str());
                s.append(", got ");
                s.append(got.as_str());
                s
            },
        }
    }
}

/// The first `min(64, len)` bytes of the caller's data.
pub open spec fn spec_truncate_user_data(user_data: Seq<u8>) -> Seq<u8> {
    if user_data.len() <= 64 {
        user_data
    } else {
        user_data.subrange(0, 64)
    }
}

/// `SHA-256( measurement ‖ user_data )`.
pub open spec fn spec_report_data_hash(measurement: Seq<u8>, user_data: Seq<u8>) -> Seq<u8> {
    spec_sha256(measurement + user_data)
}

/// `SHA-256( platform_key ‖ vendor_tag ‖ measurement ‖ user_data )`.
pub open spec fn spec_platform_signature(
    platform_key: Seq<u8>,
    vendor: TeeVendor,
    measurement: Seq<u8>,
    user_data: Seq<u8>,
) -> Seq<u8> {
    spec_sha256(platform_key + encode_utf8(spec_vendor_tag(vendor)) + measurement + user_data)
}

/// A hardware-style remote attestation report.
#[derive(Debug, Clone)]
pub struct TeeReport {
    /// TEE technology that produced this report.
    pub vendor: TeeVendor,
    /// 32-byte software measurement digest.
    pub measurement: [u8; 32],
    /// Up to 64 bytes of caller-supplied challenge data.
    pub user_data: Vec<u8>,
    /// SHA-256 of (`measurement` ∥ `user_data`).
    pub report_data_hash: [u8; 32],
    /// Platform-key hash over the full report body.
    pub platform_signature: [u8; 32],
}

/// `rep` is the report generated for these inputs: it carries the vendor,
/// the measurement and the kept caller data, the hash over them and the
/// platform signature.
pub open spec fn spec_generated_report(
    rep: TeeReport,
    vendor: TeeVendor,
    measurement: Seq<u8>,
    user_data: Seq<u8>,
    platform_key: Seq<u8>,
) -> bool {
    &&& rep.vendor == vendor
    &&& rep.measurement@ == measurement
    &&& rep.user_data@ == spec_truncate_user_data(user_data)
    &&& rep.report_data_hash@ == spec_report_data_hash(measurement, spec_truncate_user_data(user_data))
    &&& rep.platform_signature@ == spec_platform_signature(
        platform_key,
        vendor,
        measurement,
        spec_truncate_user_data(user_data),
    )
}

/// The report's data hash is the hash of its measurement and caller data.
pub open spec fn spec_report_consistent(rep: TeeReport) -> bool {
    rep.report_data_hash@ == spec_report_data_hash(rep.measurement@, rep.user_data@)
}

/// A generated report verifies, and its measurement check accepts exactly
/// the measurement it was generated for.
pub proof fn lemma_generated_report_verifies(
    rep: TeeReport,
    vendor: TeeVendor,
    measurement: Seq<u8>,
    user_data: Seq<u8>,
    platform_key: Seq<u8>,
    expected: Seq<u8>,
)
    requires
        spec_generated_report(rep, vendor, measurement, user_data, platform_key),
    ensures
        spec_report_consistent(rep),
        rep.measurement@ == expected <==> measurement == expected,
{
}

/// A generated report's data hash is SHA-256 of the measurement bytes
/// followed by the kept caller data (at most 64 bytes of it).
pub proof fn lemma_report_data_layout(
    rep: TeeReport,
    vendor: TeeVendor,
    measurement: Seq<u8>,
    user_data: Seq<u8>,
    platform_key: Seq<u8>,
)
    requires
        spec_generated_report(rep, vendor, measurement, user_data, platform_key),
    ensures
        rep.report_data_hash@ == spec_sha256(
            measurement + user_data.subrange(0, if user_data.len() < 64 {
                user_data.len() as int
            } else {
                64
            }),
        ),
        rep.user_data@.len() <= 64,
{
    if user_data.len() < 64 {
        assert(user_data.subrange(0, user_data.len() as int) =~= user_data);
    } else if user_data.len() == 64 {
        assert(user_data.subrange(0, 64) =~= user_data);
    }
}

/// A report's data hash binds its measurement: two reports with the same
/// data hash and caller data but different measurements both pass `verify`
/// only if SHA-256 gives one digest for the two different byte strings
/// measurement ‖ caller data.  So altering the measurement of a generated
/// report is caught.
pub proof fn lemma_report_binds_measurement(r1: TeeReport, r2: TeeReport)
    requires
        spec_report_consistent(r1),
        spec_report_consistent(r2),
        r1.report_data_hash@ == r2.report_data_hash@,
        r1.user_data@ == r2.user_data@,
        r1.measurement@ != r2.measurement@,
    ensures
        spec_sha256_collision(r1.measurement@ + r1.user_data@, r2.measurement@ + r2.user_data@),
{
    let k = lemma_differing_position(r1.measurement@, r2.measurement@);
    let x = r1.measurement@ + r1.user_data@;
    let y = r2.measurement@ + r2.user_data@;
    assert(x[k] == r1.measurement@[k]);
    assert(y[k] == r2.measurement@[k]);
    lemma_differ_at(x, y, k);
}

impl TeeReport {
    /// Generate a new attestation report; fails on the all-zero measurement.
    pub fn generate(
        vendor: TeeVendor,
        measurement: [u8; 32],
        user_data: &[u8],
        platform_key: &[u8; 32],
    ) -> (r: Result<Self, TeeReportError>)
        ensures
            measurement@ == zero_digest() <==> r is Err,
            r matches Err(e) ==> e is EmptyMeasurement,
            r matches Ok(rep) ==> spec_generated_report(rep, vendor, measurement@, user_data@, platform_key@),
    {
        let zero = [0u8; 32];
        assert(zero@ =~= zero_digest());
        if bytes_eq(&measurement, &zero) {
            return Err(TeeReportError::EmptyMeasurement);
        }
        // At most 64 bytes of caller data are kept (the HOST_DATA field size).
        let mut ud: Vec<u8> = Vec::new();
        let mut i: usize = 0;
        while i < user_data.len() && i < 64
            invariant
                i <= user_data@.len(),
                i <= 64,
                ud@ == user_data@.subrange(0, i as int),
            decreases 64 - i,
        {
            ud.push(user_data[i]);
            i = i + 1;
            assert(ud@ =~= user_data@.subrange(0, i as int));
        }
        assert(ud@ =~= spec_truncate_user_data(user_data@));

        let mut body: Vec<u8> = Vec::new();
        extend_bytes(&mut body, &measurement);
        extend_bytes(&mut body, ud.as_slice());
        let report_data_hash = sha256(body.as_slice());

        let mut signed: Vec<u8> = Vec::new();
        extend_bytes(&mut signed, platform_key);
        extend_bytes(&mut signed, vendor.as_str().as_bytes());
        extend_bytes(&mut signed, &measurement);
        extend_bytes(&mut signed, ud.as_slice());
        let platform_signature = sha256(signed.as_slice());

        Ok(TeeReport { vendor, measurement, user_data: ud, report_data_hash, platform_signature })
    }

    /// Check that `report_data_hash` is the hash of (`measurement` ∥ `user_data`).
    pub fn verify(&self) -> (r: Result<(), TeeReportError>)
        ensures
            r is Ok <==> spec_report_consistent(*self),
            r matches Err(e) ==> e is SignatureInvalid,
    {
        let mut body: Vec<u8> = Vec::new();
        extend_bytes(&mut body, &self.measurement);
        extend_bytes(&mut body, self.user_data.as_slice());
        let expected = sha256(body.as_slice());
        if !bytes_eq(&self.report_data_hash, &expected) {
            return Err(TeeReportError::SignatureInvalid);
        }
        Ok(())
    }

    /// Check that the report's measurement equals `expected`.
    pub fn verify_measurement(&self, expected: &[u8; 32]) -> (r: Result<(), TeeReportError>)
        ensures
            r is Ok <==> self.measurement@ == expected@,
            r matches Err(e) ==> e matches TeeReportError::MeasurementMismatch { expected: x, got: g }
                && x@ == spec_hex(expected@) && g@ == spec_hex(self.measurement@),
    {
        if !bytes_eq(&self.measurement, expected) {
            return Err(TeeReportError::MeasurementMismatch {
                expected: hex_encode(expected),
                got: hex_encode(&self.measurement),
            });
        }
        Ok(())
    }

    /// The measurement as lowercase hex.
    pub fn measurement_hex(&self) -> (s: String)
        ensures
            s@ == spec_hex(self.measurement@),
    {
        hex_encode(&self.measurement)
    }

    /// The platform signature as lowercase hex.
    pub fn signature_hex(&self) -> (s: String)
        ensures
            s@ == spec_hex(self.platform_signature@),
    {
        hex_encode(&self.platform_signature)
    }
}

/// The platform signature is bound to the measurement: it is SHA-256 over
/// the platform key, the vendor tag, the measurement and the caller data,
/// so two different measurements of one length give the same signature
/// (everything else equal) only if SHA-256 collides on those strings.
pub proof fn lemma_platform_signature_binds_measurement(
    platform_key: Seq<u8>,
    vendor: TeeVendor,
    m1: Seq<u8>,
    m2: Seq<u8>,
    user_data: Seq<u8>,
)
    requires
        m1.len() == m2.len(),
        m1 != m2,
    ensures
        spec_platform_signature(platform_key, vendor, m1, user_data) == spec_platform_signature(
            platform_key,
            vendor,
            m2,
            user_data,
        ) ==> spec_sha256_collision(
            platform_key + encode_utf8(spec_vendor_tag(vendor)) + m1 + user_data,
            platform_key + encode_utf8(spec_vendor_tag(vendor)) + m2 + user_data,
        ),
{
    let pre = platform_key + encode_utf8(spec_vendor_tag(vendor));
    let k = lemma_differing_position(m1, m2);
    let x = pre + m1 + user_data;
    let y = pre + m2 + user_data;
    assert((pre + m1)[pre.len() + k] == m1[k]);
    assert((pre + m2)[pre.len() + k] == m2[k]);
    assert(x[pre.len() + k] == (pre + m1)[pre.len() + k]);
    assert(y[pre.len() + k] == (pre + m2)[pre.len() + k]);
    lemma_differ_at(x, y, pre.len() + k);
}

} // verus!
