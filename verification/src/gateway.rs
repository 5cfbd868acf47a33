//! The AP2 universal agent gateway's admission rules: transport security, a
//! payload cap, AP2 intent schema validation and the audit-bundle hash.
//!
//! The gateway checks, in order: TLS when required, the global rate limit,
//! the payload cap, the agent's ERC-8004 reputation, the intent schema and
//! the x402 payment.  The rate limiter, the reputation lookup and the payment
//! settlement run outside; their verdicts are combined here.

use vstd::prelude::*;
use vstd::utf8::encode_utf8;
use crate::text::{spec_decimal, spec_upper_hex, u64_to_decimal, usize_to_upper_hex};

verus! {

/// Largest accepted `physical_payload`, in bytes.
pub const MAX_PAYLOAD_BYTES: usize = 4096;

/// Requests per second the gateway accepts in total.
pub const MAX_REQUESTS_PER_SEC: u32 = 50;

/// An AP2 intent descriptor.
#[derive(Debug, Clone)]
pub struct AP2Intent {
    pub action_type: String,
    pub target_domain: String,
    pub tensor_hash: String,
}

/// Gateway configuration.
#[derive(Debug, Clone, Copy)]
pub struct OrchestratorConfig {
    /// Refuse requests that do not arrive over TLS.
    pub require_tls: bool,
}

impl Default for OrchestratorConfig {
    fn default() -> (r: Self)
        ensures
            r.require_tls,
    {
        OrchestratorConfig { require_tls: true }
    }
}

/// Why the gateway refused a request.
#[derive(Debug, Clone, Copy, PartialEq, Eq, Structural)]
pub enum GatewayRejection {
    TlsRequired,
    RateLimitExceeded,
    PayloadTooLarge,
    ReputationTooLow,
    IntentRejected,
    PaymentRequired,
}

/// The text the gateway answers a refusal with.
pub open spec fn spec_rejection_text(r: GatewayRejection) -> Seq<char> {
    match r {
        GatewayRejection::TlsRequired => "TLS_REQUIRED: Request rejected - unencrypted channel detected."@,
        GatewayRejection::RateLimitExceeded => "RATE_LIMIT_EXCEEDED: Too many requests. Please retry later."@,
        GatewayRejection::PayloadTooLarge => "PAYLOAD_TOO_LARGE: physical_payload exceeds the 4 KB limit."@,
        GatewayRejection::ReputationTooLow => "ERC-8004 REJECTED: Agent reputation too low or blacklisted."@,
        GatewayRejection::IntentRejected => "AP2 REJECTED: Intent schema does not conform to AP2 standards."@,
        GatewayRejection::PaymentRequired => "x402 REJECTED: Payment Required. Insufficient funds in Visa/Alipay/PayPal or crypto wallet."@,
    }
}

impl GatewayRejection {
    /// The text the gateway answers this refusal with.
    pub fn message(&self) -> (s: &'static str)
        ensures
            s@ == spec_rejection_text(*self),
    {
        match self {
            GatewayRejection::TlsRequired => "TLS_REQUIRED: Request rejected - unencrypted channel detected.",
            GatewayRejection::RateLimitExceeded => "RATE_LIMIT_EXCEEDED: Too many requests. Please retry later.",
            GatewayRejection::PayloadTooLarge => "PAYLOAD_TOO_LARGE: physical_payload exceeds the 4 KB limit.",
            GatewayRejection::ReputationTooLow => "ERC-8004 REJECTED: Agent reputation too low or blacklisted.",
            GatewayRejection::IntentRejected => "AP2 REJECTED: Intent schema does not conform to AP2 standards.",
            GatewayRejection::PaymentRequired => "x402 REJECTED: Payment Required. Insufficient funds in Visa/Alipay/PayPal or crypto wallet.",
        }
    }
}

/// The UTF-8 bytes of `s` begin with those of "0x" (0x30, 0x78), as
/// `str::starts_with` compares.
pub open spec fn spec_has_hex_prefix(s: Seq<char>) -> bool {
    let b = encode_utf8(s);
    b.len() >= 2 && b[0] == 0x30 && b[1] == 0x78
}

/// An intent conforms to AP2 when its action type and target domain are
/// non-empty and its tensor hash starts with "0x".
pub open spec fn spec_intent_conforms(intent: AP2Intent) -> bool {
    &&& intent.action_type@.len() > 0
    &&& intent.target_domain@.len() > 0
    &&& spec_has_hex_prefix(intent.tensor_hash@)
}

/// The admission verdict, checks taken in the gateway's order.
pub open spec fn spec_screen(
    require_tls: bool,
    tls_context: bool,
    within_rate_limit: bool,
    payload_len: int,
    reputation_accepted: bool,
    intent: AP2Intent,
    payment_cleared: bool,
) -> Result<(), GatewayRejection> {
    if require_tls && !tls_context {
        Err(GatewayRejection::TlsRequired)
    } else if !within_rate_limit {
        Err(GatewayRejection::RateLimitExceeded)
    } else if payload_len > MAX_PAYLOAD_BYTES {
        Err(GatewayRejection::PayloadTooLarge)
    } else if !reputation_accepted {
        Err(GatewayRejection::ReputationTooLow)
    } else if !spec_intent_conforms(intent) {
        Err(GatewayRejection::IntentRejected)
    } else if !payment_cleared {
        Err(GatewayRejection::PaymentRequired)
    } else {
        Ok(())
    }
}

/// The gateway's admission rules.
#[derive(Debug)]
pub struct AP2FrameworkOrchestrator {
    /// Refuse requests that do not arrive over TLS.
    pub require_tls: bool,
}

impl AP2FrameworkOrchestrator {
    /// A gateway with the given configuration.
    pub fn new(config: OrchestratorConfig) -> (r: Self)
        ensures
            r.require_tls == config.require_tls,
    {
        AP2FrameworkOrchestrator { require_tls: config.require_tls }
    }

    /// `true` unless TLS is required and the request arrived without it.
    pub fn transport_allowed(&self, tls_context: bool) -> (r: bool)
        ensures
            r == (!self.require_tls || tls_context),
    {
        !self.require_tls || tls_context
    }

    /// `true` when the intent conforms to the AP2 schema.
    pub fn validate_ap2_intent(&self, intent: &AP2Intent) -> (r: bool)
        ensures
            r == spec_intent_conforms(*intent),
    {
        let hash = intent.tensor_hash.as_str().as_bytes();
        !intent.action_type.as_str().is_empty() && !intent.target_domain.as_str().is_empty()
            && hash.len() >= 2 && hash[0] == 0x30 && hash[1] == 0x78
    }

    /// The verdict on a request, given the outside verdicts: whether the
    /// rate limiter let it through, whether the agent's reputation is high
    /// enough and whether the x402 payment cleared.
    pub fn screen_request(
        &self,
        tls_context: bool,
        within_rate_limit: bool,
        payload_len: usize,
        reputation_accepted: bool,
        intent: &AP2Intent,
        payment_cleared: bool,
    ) -> (r: Result<(), GatewayRejection>)
        ensures
            r == spec_screen(
                self.require_tls,
                tls_context,
                within_rate_limit,
                payload_len as int,
                reputation_accepted,
                *intent,
                payment_cleared,
            ),
    {
        if !self.transport_allowed(tls_context) {
            Err(GatewayRejection::TlsRequired)
        } else if !within_rate_limit {
            Err(GatewayRejection::RateLimitExceeded)
        } else if !payload_allowed(payload_len) {
            Err(GatewayRejection::PayloadTooLarge)
        } else if !reputation_accepted {
            Err(GatewayRejection::ReputationTooLow)
        } else if !self.validate_ap2_intent(intent) {
            Err(GatewayRejection::IntentRejected)
        } else if !payment_cleared {
            Err(GatewayRejection::PaymentRequired)
        } else {
            Ok(())
        }
    }
}

/// `true` when a payload of `len` bytes is within the cap.
pub fn payload_allowed(len: usize) -> (r: bool)
    ensures
        r == (len <= MAX_PAYLOAD_BYTES),
{
    len <= MAX_PAYLOAD_BYTES
}

/// The hash of the verifiable-credential audit bundle for an agent's
/// anchored payload: "0x", the byte length of the DID in decimal, then the
/// payload length in uppercase hex.
pub fn vc_bundle_hash(did: &str, payload_len: usize) -> (r: String)
    ensures
        r@ == "0x"@ + spec_decimal(encode_utf8(did@).len()) + spec_upper_hex(payload_len as nat),
{
    let n = did.as_bytes().len();
    let mut s = String::from_str("0x");
    let d = u64_to_decimal(n as u64);
    s.append(d.as_str());
    let h = usize_to_upper_hex(payload_len);
    s.append(h.as_str());
    s
}

/// The success answer for an anchored request.
pub fn success_message(bundle_hash: &str) -> (r: String)
    ensures
        r@ == "SUCCESS_VC_ISSUED: "@ + bundle_hash@,
{
    let mut s = String::from_str("SUCCESS_VC_ISSUED: ");
    s.append(bundle_hash);
    s
}

} // verus!
