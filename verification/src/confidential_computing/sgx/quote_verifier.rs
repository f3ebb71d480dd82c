//! SGX quote verification: signature and certificate-chain presence,
//! freshness against a maximum age, and advisory-based CPU patch status.
use vstd::prelude::*;

use super::{EnclaveError, Quote};
use crate::crypto::unix_now;
use crate::util::str_eq;

verus! {

/// An Intel SGX security advisory.
#[derive(Debug, Clone)]
pub struct SecurityAdvisory {
    /// Advisory identifier (e.g. `INTEL-SA-00219`).
    pub id: String,
    /// Affected CPU models.
    pub affected_cpus: Vec<String>,
    /// Description of the issue.
    pub description: String,
    /// Severity (`LOW`, `MEDIUM`, `HIGH`, `CRITICAL`).
    pub severity: String,
    /// Date issued.
    pub issued: String,
}

/// Quote validation policy.
#[derive(Debug)]
pub struct QuoteValidationPolicy {
    /// Maximum age of a quote in seconds.
    pub max_age_seconds: u64,
    /// Require a signature from Intel.
    pub require_intel_signature: bool,
    /// Require updated microcode.
    pub require_patched_cpu: bool,
    /// Allowed CPU models (empty means any).
    pub allowed_cpus: std::collections::HashSet<String>,
}

impl Default for QuoteValidationPolicy {
    /// One hour maximum age, Intel signature and patched CPU required, any CPU.
    fn default() -> (p: Self)
        ensures
            p.max_age_seconds == 3600,
            p.require_intel_signature,
            p.require_patched_cpu,
            p.allowed_cpus@ == Set::<String>::empty(),
    {
        QuoteValidationPolicy {
            max_age_seconds: 3600,
            require_intel_signature: true,
            require_patched_cpu: true,
            allowed_cpus: std::collections::HashSet::new(),
        }
    }
}

/// Quote verification result.
#[derive(Debug, Clone)]
pub struct QuoteVerificationResult {
    /// Overall verdict.
    pub is_valid: bool,
    /// Signature check.
    pub signature_valid: bool,
    /// Certificate chain check.
    pub cert_chain_valid: bool,
    /// Freshness check.
    pub is_fresh: bool,
    /// No critical advisory applies.
    pub cpu_patched: bool,
    /// Advisories that apply to the quote.
    pub advisories: Vec<SecurityAdvisory>,
    /// Verification time (seconds since the Unix epoch).
    pub verified_at: u64,
    /// Quote age in seconds.
    pub quote_age_seconds: u64,
}

/// SGX quote verifier.
pub struct QuoteVerifier {
    /// Validation policy.
    pub policy: QuoteValidationPolicy,
    /// Intel root certificates.
    pub intel_root_certs: Vec<Vec<u8>>,
    /// Advisory database.
    pub advisory_db: Vec<SecurityAdvisory>,
}

/// `a - b`, or 0 when `b > a`.
pub open spec fn saturating_sub(a: u64, b: u64) -> u64 {
    if a >= b {
        (a - b) as u64
    } else {
        0
    }
}

/// No advisory in the list is rated `CRITICAL`.
pub open spec fn none_critical(advisories: Seq<SecurityAdvisory>) -> bool {
    forall|i: int| 0 <= i < advisories.len() ==> #[trigger] advisories[i].severity@ != "CRITICAL"@
}

/// What verifying `quote` at time `now` under `policy`, with `root_count`
/// Intel root certificates on file, reports.
pub open spec fn quote_result(
    policy: QuoteValidationPolicy,
    root_count: nat,
    quote: Quote,
    now: u64,
    r: QuoteVerificationResult,
) -> bool {
    let age = saturating_sub(now, quote.timestamp);
    &&& r.verified_at == now
    &&& r.quote_age_seconds == age
    &&& r.is_fresh == (age <= policy.max_age_seconds)
    &&& r.signature_valid == (quote.signature@.len() > 0)
    &&& r.cert_chain_valid == (quote.cert_chain@.len() > 0 || root_count == 0)
    &&& r.advisories@.len() == 0
    &&& r.cpu_patched == none_critical(r.advisories@)
    &&& r.is_valid == (r.signature_valid && r.cert_chain_valid && r.is_fresh && (
    !policy.require_patched_cpu || r.cpu_patched))
}

impl QuoteVerifier {
    /// A verifier with `policy` and no certificates or advisories.
    pub fn new(policy: QuoteValidationPolicy) -> (v: Self)
        ensures
            v.policy == policy,
            v.intel_root_certs@.len() == 0,
            v.advisory_db@.len() == 0,
    {
        QuoteVerifier { policy, intel_root_certs: Vec::new(), advisory_db: Vec::new() }
    }

    /// Add an Intel root certificate.
    pub fn add_intel_cert(&mut self, cert_pem: Vec<u8>)
        ensures
            final(self).intel_root_certs@ == old(self).intel_root_certs@.push(cert_pem),
            final(self).advisory_db@ == old(self).advisory_db@,
            final(self).policy == old(self).policy,
    {
        self.intel_root_certs.push(cert_pem);
    }

    /// Add an advisory to the database.
    pub fn add_advisory(&mut self, advisory: SecurityAdvisory)
        ensures
            final(self).advisory_db@ == old(self).advisory_db@.push(advisory),
            final(self).intel_root_certs@ == old(self).intel_root_certs@,
            final(self).policy == old(self).policy,
    {
        self.advisory_db.push(advisory);
    }

    /// Verify `quote` as of `now` (seconds since the Unix epoch).
    pub fn verify_at(&self, quote: &Quote, now: u64) -> (res: Result<QuoteVerificationResult, EnclaveError>)
        ensures
            res matches Ok(r) && quote_result(
                self.policy,
                self.intel_root_certs@.len(),
                *quote,
                now,
                r,
            ),
    {
        let quote_age = now.saturating_sub(quote.timestamp);
        let is_fresh = quote_age <= self.policy.max_age_seconds;
        let signature_valid = match self.verify_signature(quote) {
            Ok(b) => b,
            Err(e) => {
                return Err(e);
            },
        };
        let cert_chain_valid = match self.verify_cert_chain(quote) {
            Ok(b) => b,
            Err(e) => {
                return Err(e);
            },
        };
        let advisories = match self.check_advisories(quote) {
            Ok(a) => a,
            Err(e) => {
                return Err(e);
            },
        };
        let cpu_patched = all_below_critical(&advisories);
        let is_valid = signature_valid && cert_chain_valid && is_fresh && (!self.policy.require_patched_cpu
            || cpu_patched);
        Ok(
            QuoteVerificationResult {
                is_valid,
                signature_valid,
                cert_chain_valid,
                is_fresh,
                cpu_patched,
                advisories,
                verified_at: now,
                quote_age_seconds: quote_age,
            },
        )
    }

    /// Verify `quote` as of the current time; the result is that of
    /// [`QuoteVerifier::verify_at`] at the time it reports.
    pub fn verify(&self, quote: &Quote) -> (res: Result<QuoteVerificationResult, EnclaveError>)
        ensures
            res matches Ok(r) && quote_result(
                self.policy,
                self.intel_root_certs@.len(),
                *quote,
                r.verified_at,
                r,
            ),
    {
        let now = unix_now();
        self.verify_at(quote, now)
    }

    /// The signature is present.
    fn verify_signature(&self, quote: &Quote) -> (res: Result<bool, EnclaveError>)
        ensures
            res == Ok::<bool, EnclaveError>(quote.signature@.len() > 0),
    {
        Ok(quote.signature.len() != 0)
    }

    /// The chain is present, or no root certificate is on file.
    fn verify_cert_chain(&self, quote: &Quote) -> (res: Result<bool, EnclaveError>)
        ensures
            res == Ok::<bool, EnclaveError>(quote.cert_chain@.len() > 0 || self.intel_root_certs@.len() == 0),
    {
        Ok(quote.cert_chain.len() != 0 || self.intel_root_certs.len() == 0)
    }

    /// The advisories that apply to the quote: none, since quotes carry no
    /// CPU model to look up.
    fn check_advisories(&self, _quote: &Quote) -> (res: Result<Vec<SecurityAdvisory>, EnclaveError>)
        ensures
            res matches Ok(v) && v@.len() == 0,
    {
        Ok(Vec::new())
    }
}

/// Whether no advisory in the list is rated `CRITICAL`.
fn all_below_critical(advisories: &Vec<SecurityAdvisory>) -> (b: bool)
    ensures
        b == none_critical(advisories@),
{
    let mut i: usize = 0;
    while i < advisories.len()
        invariant
            0 <= i <= advisories@.len(),
            forall|j: int| 0 <= j < i ==> #[trigger] advisories@[j].severity@ != "CRITICAL"@,
        decreases advisories@.len() - i,
    {
        if str_eq(advisories[i].severity.as_str(), "CRITICAL") {
            return false;
        }
        i = i + 1;
    }
    true
}

/// What verifying `quote` with a verifier that has no root certificates,
/// requires a patched CPU and accepts quotes up to `max_age` seconds old
/// reports, stamped at `r.verified_at`.
pub open spec fn standard_result(quote: Quote, max_age: u64, r: QuoteVerificationResult) -> bool {
    &&& r.quote_age_seconds == saturating_sub(r.verified_at, quote.timestamp)
    &&& r.is_fresh == (r.quote_age_seconds <= max_age)
    &&& r.signature_valid == (quote.signature@.len() > 0)
    &&& r.cert_chain_valid
    &&& r.advisories@.len() == 0
    &&& r.cpu_patched
    &&& r.is_valid == (r.signature_valid && r.is_fresh)
}

/// Verify a quote under the default policy (one hour maximum age, patched
/// CPU required) with no root certificates on file.
pub fn verify_quote_standard(quote: &Quote) -> (res: Result<QuoteVerificationResult, EnclaveError>)
    ensures
        res matches Ok(r) && standard_result(*quote, 3600, r),
{
    let policy = QuoteValidationPolicy::default();
    let verifier = QuoteVerifier::new(policy);
    verifier.verify(quote)
}

/// Verify a quote under the strict policy (five minutes maximum age, patched
/// CPU required) with no root certificates on file.
pub fn verify_quote_strict(quote: &Quote) -> (res: Result<QuoteVerificationResult, EnclaveError>)
    ensures
        res matches Ok(r) && standard_result(*quote, 300, r),
{
    let base = QuoteValidationPolicy::default();
    let policy = QuoteValidationPolicy {
        max_age_seconds: 300,
        require_intel_signature: base.require_intel_signature,
        require_patched_cpu: true,
        allowed_cpus: base.allowed_cpus,
    };
    let verifier = QuoteVerifier::new(policy);
    verifier.verify(quote)
}

} // verus!
