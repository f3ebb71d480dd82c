//! Remote attestation verifiers for DCAP and IAS.
//!
//! Collateral fetching and report retrieval are simulated locally; the
//! verifier chooses the provider from the configuration and stamps results
//! with the current time.
use vstd::prelude::*;

use super::{AttestationConfig, AttestationProvider, EnclaveError, Quote};
use super::quote_verifier::saturating_sub;
use crate::crypto::unix_now;
use crate::util::{copy_str, spec_decimal, with_decimal};

verus! {

/// Result of a remote attestation.
#[derive(Debug, Clone)]
pub struct AttestationResult {
    /// The quote is valid.
    pub is_valid: bool,
    /// The enclave is fully patched.
    pub is_patched: bool,
    /// Verification time (seconds since the Unix epoch).
    pub verified_at: u64,
    /// Quote age in seconds.
    pub quote_age_seconds: u64,
    /// Advisory identifiers of known issues.
    pub advisory_ids: Vec<String>,
}

/// DCAP verification collateral.
#[derive(Debug, Clone)]
pub struct DcapCollateral {
    /// PCK certificate chain (PEM).
    pub pck_cert_chain: String,
    /// PCK revocation list.
    pub pck_crl: String,
    /// Root CA certificate.
    pub root_ca_cert: String,
    /// Processor certificate.
    pub processor_cert: String,
}

/// Report from the Intel Attestation Service.
#[derive(Debug, Clone)]
pub struct IasAttestationReport {
    /// Report identifier.
    pub id: String,
    /// Overall attestation result.
    pub attestation_result: String,
    /// Report time.
    pub timestamp: u64,
    /// Quote status (`OK`, `GROUP_OUT_OF_DATE`, ...).
    pub quote_status: String,
    /// Advisory identifiers.
    pub advisory_ids: Vec<String>,
}

/// DCAP attestation verifier.
pub struct DcapVerifier {
    /// Collateral URL.
    pub collateral_url: String,
    /// Allow outdated PCK certificates.
    pub allow_outdated_pcks: bool,
}

/// What an offline DCAP verification of `quote` at time `now` reports, the
/// collateral carrying a PCK certificate chain or not: the quote is valid when
/// it carries a signature, carries a certificate chain whenever the
/// collateral has one to check it against, and is at most an hour old; no
/// advisory is known, so the platform counts as patched.
pub open spec fn dcap_result(quote: Quote, collateral_has_chain: bool, now: u64, r: AttestationResult) -> bool {
    let age = saturating_sub(now, quote.timestamp);
    &&& r.verified_at == now
    &&& r.quote_age_seconds == age
    &&& r.is_patched
    &&& r.advisory_ids@.len() == 0
    &&& r.is_valid == (quote.signature@.len() > 0 && (quote.cert_chain@.len() > 0 || !collateral_has_chain)
        && age <= 3600)
}

/// A successful attestation with no advisories, stamped at some time.
pub open spec fn clean_result(r: AttestationResult) -> bool {
    &&& r.is_valid
    &&& r.is_patched
    &&& r.quote_age_seconds == 0
    &&& r.advisory_ids@.len() == 0
}

impl DcapVerifier {
    /// A DCAP verifier for `collateral_url`.
    pub fn new(collateral_url: String, allow_outdated_pcks: bool) -> (v: Self)
        ensures
            v.collateral_url == collateral_url,
            v.allow_outdated_pcks == allow_outdated_pcks,
    {
        DcapVerifier { collateral_url, allow_outdated_pcks }
    }

    /// Fetch the collateral for `quote`: simulated, every certificate field
    /// is empty.
    pub fn fetch_collateral(&self, _quote: &Quote) -> (res: Result<DcapCollateral, EnclaveError>)
        ensures
            res matches Ok(c) && c.pck_cert_chain@.len() == 0 && c.pck_crl@.len() == 0
                && c.root_ca_cert@.len() == 0 && c.processor_cert@.len() == 0,
    {
        Ok(
            DcapCollateral {
                pck_cert_chain: String::new(),
                pck_crl: String::new(),
                root_ca_cert: String::new(),
                processor_cert: String::new(),
            },
        )
    }

    /// Verify `quote` offline with `collateral` as of `now`: check that the
    /// quote is signed, that it carries a certificate chain when the
    /// collateral has a PCK chain to check it against, that it is at most an
    /// hour old, and look up advisories (none are known).
    pub fn verify_offline_at(&self, quote: &Quote, collateral: &DcapCollateral, now: u64) -> (res: Result<
        AttestationResult,
        EnclaveError,
    >)
        ensures
            res matches Ok(r) && dcap_result(*quote, collateral.pck_cert_chain@.len() > 0, now, r),
    {
        let signature_valid = quote.signature.len() != 0;
        let chain_valid = quote.cert_chain.len() != 0 || collateral.pck_cert_chain.as_str().is_empty();
        let age = now.saturating_sub(quote.timestamp);
        let fresh = age <= 3600;
        Ok(
            AttestationResult {
                is_valid: signature_valid && chain_valid && fresh,
                is_patched: true,
                verified_at: now,
                quote_age_seconds: age,
                advisory_ids: Vec::new(),
            },
        )
    }

    /// Verify `quote` offline with `collateral` as of the current time; the
    /// result is that of [`DcapVerifier::verify_offline_at`] at the time it
    /// reports.
    pub fn verify_offline(&self, quote: &Quote, collateral: &DcapCollateral) -> (res: Result<
        AttestationResult,
        EnclaveError,
    >)
        ensures
            res matches Ok(r) && dcap_result(*quote, collateral.pck_cert_chain@.len() > 0, r.verified_at, r),
    {
        let now = unix_now();
        self.verify_offline_at(quote, collateral, now)
    }
}

/// IAS attestation verifier.
pub struct IasVerifier {
    /// API key.
    pub api_key: String,
}

impl IasVerifier {
    /// An IAS verifier with `api_key`.
    pub fn new(api_key: String) -> (v: Self)
        ensures
            v.api_key == api_key,
    {
        IasVerifier { api_key }
    }

    /// Get an attestation report for `quote`: simulated, status `OK`, stamped
    /// with the current time and identified as `report-<time>`.
    pub fn get_report(&self, _quote: &Quote) -> (res: Result<IasAttestationReport, EnclaveError>)
        ensures
            res matches Ok(r) && {
                &&& r.id@ == "report-"@ + spec_decimal(r.timestamp as nat)
                &&& r.attestation_result@ == "OK"@
                &&& r.quote_status@ == "OK"@
                &&& r.advisory_ids@.len() == 0
            },
    {
        let now = unix_now();
        Ok(
            IasAttestationReport {
                id: with_decimal("report-", now),
                attestation_result: copy_str("OK"),
                timestamp: now,
                quote_status: copy_str("OK"),
                advisory_ids: Vec::new(),
            },
        )
    }
}

/// Attestation verifier for either provider.
pub struct AttestationVerifier {
    /// DCAP verifier, when the provider is DCAP.
    pub dcap: Option<DcapVerifier>,
    /// IAS verifier, when the provider is IAS.
    pub ias: Option<IasVerifier>,
}

impl AttestationVerifier {
    /// Build the verifier the configuration asks for.
    ///
    /// Fails with `AttestationFailed` when DCAP is chosen without a collateral
    /// URL or IAS without an API key.
    pub fn from_config(config: &AttestationConfig) -> (res: Result<Self, EnclaveError>)
        ensures
            config.provider == AttestationProvider::DCAP ==> match config.dcap_collateral_url {
                Some(url) => (res matches Ok(v) && v.ias is None && (v.dcap matches Some(d)
                    && d.collateral_url == url && d.allow_outdated_pcks == config.allow_outdated_pcks)),
                None => (res matches Err(EnclaveError::AttestationFailed(m)) && m@
                    == "DCAP collateral URL not provided"@),
            },
            config.provider == AttestationProvider::IAS ==> match config.ias_api_key {
                Some(key) => (res matches Ok(v) && v.dcap is None && (v.ias matches Some(i)
                    && i.api_key == key)),
                None => (res matches Err(EnclaveError::AttestationFailed(m)) && m@
                    == "IAS API key not provided"@),
            },
    {
        match config.provider {
            AttestationProvider::DCAP => {
                let collateral_url = match &config.dcap_collateral_url {
                    Some(url) => url.clone(),
                    None => {
                        return Err(
                            EnclaveError::AttestationFailed(copy_str("DCAP collateral URL not provided")),
                        );
                    },
                };
                Ok(
                    AttestationVerifier {
                        dcap: Some(DcapVerifier::new(collateral_url, config.allow_outdated_pcks)),
                        ias: None,
                    },
                )
            },
            AttestationProvider::IAS => {
                let api_key = match &config.ias_api_key {
                    Some(key) => key.clone(),
                    None => {
                        return Err(EnclaveError::AttestationFailed(copy_str("IAS API key not provided")));
                    },
                };
                Ok(AttestationVerifier { dcap: None, ias: Some(IasVerifier::new(api_key)) })
            },
        }
    }

    /// Verify `quote` with the configured provider: DCAP fetches collateral
    /// (which carries no PCK chain in simulation) and verifies offline; IAS
    /// fetches a report, whose simulated status is `OK`, and gives a clean
    /// result.  Fails when no provider is configured.
    pub fn verify(&self, quote: &Quote) -> (res: Result<AttestationResult, EnclaveError>)
        ensures
            self.dcap is Some ==> (res matches Ok(r) && dcap_result(*quote, false, r.verified_at, r)),
            self.dcap is None && self.ias is Some ==> (res matches Ok(r) && clean_result(r)),
            self.dcap is None && self.ias is None ==> (res matches Err(EnclaveError::AttestationFailed(m))
                && m@ == "No attestation provider configured"@),
    {
        match &self.dcap {
            Some(dcap) => {
                let collateral = match dcap.fetch_collateral(quote) {
                    Ok(c) => c,
                    Err(e) => {
                        return Err(e);
                    },
                };
                dcap.verify_offline(quote, &collateral)
            },
            None => match &self.ias {
                Some(ias) => {
                    match ias.get_report(quote) {
                        Ok(_) => {},
                        Err(e) => {
                            return Err(e);
                        },
                    }
                    Ok(
                        AttestationResult {
                            is_valid: true,
                            is_patched: true,
                            verified_at: unix_now(),
                            quote_age_seconds: 0,
                            advisory_ids: Vec::new(),
                        },
                    )
                },
                None => Err(EnclaveError::AttestationFailed(copy_str("No attestation provider configured"))),
            },
        }
    }
}

} // verus!
