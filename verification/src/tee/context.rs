//! A live TEE context: a vendor tag, a measurement chain of every component
//! loaded so far, and a per-boot platform key.

use vstd::prelude::*;
use vstd::utf8::encode_utf8;
use crate::bytes::extend_bytes;
use crate::digest::{hex_encode, os_random_32, sha256, spec_hex, spec_sha256};
use crate::tee::attestation::{
    spec_platform_signature, spec_report_data_hash, spec_truncate_user_data, TeeReport,
    TeeReportError, TeeVendor,
};
use crate::tee::measurement::{spec_extend, zero_digest, MeasurementChain};
use crate::tee::sealed_storage::{
    lemma_xor_stream_involution, spec_auth_tag, spec_measurement_tag, spec_seal_key,
    spec_xor_stream, SealError, SealedBlob,
};

verus! {

/// A live TEE context.
pub struct TeeContext {
    vendor: TeeVendor,
    chain: MeasurementChain,
    platform_key: [u8; 32],
}

impl TeeContext {
    /// The hardware vendor of this context.
    pub closed spec fn spec_vendor(&self) -> TeeVendor {
        self.vendor
    }

    /// The current measurement digest.
    pub closed spec fn spec_measurement(&self) -> Seq<u8> {
        self.chain.spec_digest()
    }

    /// How many components have been measured.
    pub closed spec fn spec_component_count(&self) -> nat {
        self.chain.spec_count()
    }

    /// The per-boot platform key.
    pub closed spec fn spec_platform_key(&self) -> Seq<u8> {
        self.platform_key@
    }

    /// A new context: empty measurement chain, fresh platform key.
    pub fn new(vendor: TeeVendor) -> (r: Self)
        ensures
            r.spec_vendor() == vendor,
            r.spec_measurement() == zero_digest(),
            r.spec_component_count() == 0,
            exists|raw: Seq<u8>|
                raw.len() == 32 && r.spec_platform_key() == spec_sha256(
                    encode_utf8("tee:platform-key:v1:"@) + raw,
                ),
    {
        let platform_key = Self::derive_platform_key();
        TeeContext { vendor, chain: MeasurementChain::new(), platform_key }
    }

    /// Extend the measurement with a new component, in load order.
    pub fn extend_measurement(&mut self, component: &[u8])
        requires
            old(self).spec_component_count() < usize::MAX,
        ensures
            final(self).spec_measurement() == spec_extend(old(self).spec_measurement(), component@),
            final(self).spec_component_count() == old(self).spec_component_count() + 1,
            final(self).spec_vendor() == old(self).spec_vendor(),
            final(self).spec_platform_key() == old(self).spec_platform_key(),
    {
        self.chain.extend(component);
    }

    /// A remote-attestation report over the current measurement.
    pub fn generate_report(&self, user_data: &[u8]) -> (r: Result<TeeReport, TeeReportError>)
        ensures
            self.spec_measurement() == zero_digest() <==> r is Err,
            r matches Err(e) ==> e is EmptyMeasurement,
            r matches Ok(rep) ==> {
                &&& rep.vendor == self.spec_vendor()
                &&& rep.measurement@ == self.spec_measurement()
                &&& rep.user_data@ == spec_truncate_user_data(user_data@)
                &&& rep.report_data_hash@ == spec_report_data_hash(
                    self.spec_measurement(),
                    spec_truncate_user_data(user_data@),
                )
                &&& rep.platform_signature@ == spec_platform_signature(
                    self.spec_platform_key(),
                    self.spec_vendor(),
                    self.spec_measurement(),
                    spec_truncate_user_data(user_data@),
                )
            },
    {
        TeeReport::generate(self.vendor, self.chain.digest(), user_data, &self.platform_key)
    }

    /// Seal `plaintext` to the current measurement.
    pub fn seal(&self, plaintext: &[u8]) -> (r: SealedBlob)
        ensures
            r.spec_measurement_tag() == spec_measurement_tag(
                self.spec_measurement(),
                self.spec_platform_key(),
            ),
            r.spec_ciphertext() == spec_xor_stream(
                plaintext@,
                spec_seal_key(self.spec_measurement(), self.spec_platform_key()),
            ),
            r.spec_auth_tag() == spec_auth_tag(
                spec_seal_key(self.spec_measurement(), self.spec_platform_key()),
                r.spec_ciphertext(),
            ),
    {
        SealedBlob::seal(plaintext, &self.chain.digest(), &self.platform_key)
    }

    /// Unseal a blob against the current measurement.
    pub fn unseal(&self, blob: &SealedBlob) -> (r: Result<Vec<u8>, SealError>)
        ensures
            blob.spec_measurement_tag() != spec_measurement_tag(
                self.spec_measurement(),
                self.spec_platform_key(),
            ) ==> r matches Err(SealError::MeasurementMismatch),
            blob.spec_measurement_tag() == spec_measurement_tag(
                self.spec_measurement(),
                self.spec_platform_key(),
            ) && blob.spec_auth_tag() != spec_auth_tag(
                spec_seal_key(self.spec_measurement(), self.spec_platform_key()),
                blob.spec_ciphertext(),
            ) ==> r matches Err(SealError::AuthTagInvalid),
            blob.spec_measurement_tag() == spec_measurement_tag(
                self.spec_measurement(),
                self.spec_platform_key(),
            ) && blob.spec_auth_tag() == spec_auth_tag(
                spec_seal_key(self.spec_measurement(), self.spec_platform_key()),
                blob.spec_ciphertext(),
            ) ==> (r matches Ok(p) && p@ == spec_xor_stream(
                blob.spec_ciphertext(),
                spec_seal_key(self.spec_measurement(), self.spec_platform_key()),
            )),
    {
        blob.unseal(&self.chain.digest(), &self.platform_key)
    }

    /// The current measurement digest as lowercase hex.
    pub fn measurement_hex(&self) -> (s: String)
        ensures
            s@ == spec_hex(self.spec_measurement()),
    {
        hex_encode(&self.chain.digest())
    }

    fn derive_platform_key() -> (r: [u8; 32])
        ensures
            exists|raw: Seq<u8>|
                raw.len() == 32 && r@ == spec_sha256(encode_utf8("tee:platform-key:v1:"@) + raw),
    {
        let raw = os_random_32();
        let mut buf: Vec<u8> = Vec::new();
        extend_bytes(&mut buf, "tee:platform-key:v1:".as_bytes());
        extend_bytes(&mut buf, &raw);
        let r = sha256(buf.as_slice());
        assert(raw@.len() == 32 && r@ == spec_sha256(encode_utf8("tee:platform-key:v1:"@) + raw@));
        r
    }
}

/// Whatever the context has measured, unsealing what it sealed, without a
/// measurement change in between, gives the plaintext back.
pub proof fn lemma_context_seal_unseal(ctx: TeeContext, blob: SealedBlob, plaintext: Seq<u8>)
    requires
        blob.spec_measurement_tag() == spec_measurement_tag(
            ctx.spec_measurement(),
            ctx.spec_platform_key(),
        ),
        blob.spec_ciphertext() == spec_xor_stream(
            plaintext,
            spec_seal_key(ctx.spec_measurement(), ctx.spec_platform_key()),
        ),
        blob.spec_auth_tag() == spec_auth_tag(
            spec_seal_key(ctx.spec_measurement(), ctx.spec_platform_key()),
            blob.spec_ciphertext(),
        ),
    ensures
        spec_xor_stream(
            blob.spec_ciphertext(),
            spec_seal_key(ctx.spec_measurement(), ctx.spec_platform_key()),
        ) == plaintext,
{
    lemma_xor_stream_involution(
        plaintext,
        spec_seal_key(ctx.spec_measurement(), ctx.spec_platform_key()),
    );
}

} // verus!
