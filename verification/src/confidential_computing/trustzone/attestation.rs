//! TrustZone attestation policy and verifier.
use vstd::prelude::*;

use super::TrustZoneError;
use crate::confidential_computing::sgx::quote_verifier::saturating_sub;
use crate::confidential_computing::tee_common::{TeeAttestationReport, TeeType};
use crate::crypto::unix_now;
use crate::util::copy_str;

verus! {

/// TrustZone attestation policy.
#[derive(Debug, Clone, Copy)]
pub struct TrustZoneAttestationPolicy {
    /// Maximum accepted age in seconds.
    pub max_age_seconds: u64,
    /// Require the report format marker at the start of the payload.
    pub require_format_marker: bool,
}

impl Default for TrustZoneAttestationPolicy {
    /// Five minutes maximum age, marker required.
    fn default() -> (p: Self)
        ensures
            p.max_age_seconds == 300,
            p.require_format_marker,
    {
        TrustZoneAttestationPolicy { max_age_seconds: 300, require_format_marker: true }
    }
}

/// Attestation verification outcome.
#[derive(Debug, Clone, Copy)]
pub struct TrustZoneVerificationResult {
    /// Final verdict.
    pub is_valid: bool,
    /// The report is fresh enough.
    pub is_fresh: bool,
    /// The payload has the expected format.
    pub has_expected_format: bool,
    /// Report age in seconds.
    pub report_age_seconds: u64,
    /// Verification time.
    pub verified_at: u64,
}

/// The ASCII bytes of the report format marker `TZ-ATTEST`.
pub open spec fn format_marker() -> Seq<u8> {
    seq![84u8, 90u8, 45u8, 65u8, 84u8, 84u8, 69u8, 83u8, 84u8]
}

/// The ASCII bytes of the simulator payload `TZ-ATTEST:SIMULATED:OP-TEE`.
pub open spec fn simulated_payload() -> Seq<u8> {
    format_marker() + seq![
        58u8, 83u8, 73u8, 77u8, 85u8, 76u8, 65u8, 84u8, 69u8, 68u8, 58u8, 79u8, 80u8, 45u8, 84u8, 69u8,
        69u8,
    ]
}

/// `data` starts with `prefix`.
pub open spec fn has_prefix(data: Seq<u8>, prefix: Seq<u8>) -> bool {
    data.len() >= prefix.len() && data.subrange(0, prefix.len() as int) == prefix
}

/// What verifying `report` at time `now` under `policy` reports.
pub open spec fn tz_result(
    policy: TrustZoneAttestationPolicy,
    report: TeeAttestationReport,
    now: u64,
    r: TrustZoneVerificationResult,
) -> bool {
    let age = saturating_sub(now, report.timestamp);
    &&& r.verified_at == now
    &&& r.report_age_seconds == age
    &&& r.is_fresh == (age <= policy.max_age_seconds)
    &&& r.has_expected_format == (!policy.require_format_marker || has_prefix(
        report.attestation_data@,
        format_marker(),
    ))
    &&& r.is_valid == (r.is_fresh && r.has_expected_format)
}

/// The error for a report of another platform.
pub open spec fn wrong_platform_error(e: TrustZoneError) -> bool {
    e matches TrustZoneError::AttestationFailed(m) && m@ == "report tee type is not TrustZone"@
}

fn starts_with_marker(data: &[u8]) -> (b: bool)
    ensures
        b == has_prefix(data@, format_marker()),
{
    let marker: [u8; 9] = [84u8, 90u8, 45u8, 65u8, 84u8, 84u8, 69u8, 83u8, 84u8];
    assert(marker@ =~= format_marker());
    if data.len() < 9 {
        return false;
    }
    let mut i: usize = 0;
    while i < 9
        invariant
            0 <= i <= 9,
            data@.len() >= 9,
            marker@ == format_marker(),
            forall|j: int| 0 <= j < i ==> data@[j] == marker@[j],
        decreases 9 - i,
    {
        if data[i] != marker[i] {
            assert(data@.subrange(0, 9)[i as int] != format_marker()[i as int]);
            return false;
        }
        i = i + 1;
    }
    assert(data@.subrange(0, 9) =~= format_marker());
    true
}

/// Verifier for TrustZone attestation reports.
pub struct TrustZoneAttestationVerifier {
    /// Validation policy.
    pub policy: TrustZoneAttestationPolicy,
}

impl TrustZoneAttestationVerifier {
    /// A verifier with `policy`.
    pub fn new(policy: TrustZoneAttestationPolicy) -> (v: Self)
        ensures
            v.policy == policy,
    {
        TrustZoneAttestationVerifier { policy }
    }

    /// Validate `report` as of `now`; reports of other platforms are rejected.
    pub fn verify_at(&self, report: &TeeAttestationReport, now: u64) -> (res: Result<
        TrustZoneVerificationResult,
        TrustZoneError,
    >)
        ensures
            report.tee_type != TeeType::TrustZone ==> (res matches Err(e) && wrong_platform_error(e)),
            report.tee_type == TeeType::TrustZone ==> (res matches Ok(r) && tz_result(self.policy, *report, now, r)),
    {
        if report.tee_type != TeeType::TrustZone {
            return Err(TrustZoneError::AttestationFailed(copy_str("report tee type is not TrustZone")));
        }
        let age = now.saturating_sub(report.timestamp);
        let is_fresh = age <= self.policy.max_age_seconds;
        let has_expected_format = if self.policy.require_format_marker {
            starts_with_marker(report.attestation_data.as_slice())
        } else {
            true
        };
        Ok(
            TrustZoneVerificationResult {
                is_valid: is_fresh && has_expected_format,
                is_fresh,
                has_expected_format,
                report_age_seconds: age,
                verified_at: now,
            },
        )
    }

    /// Validate `report` as of the current time; the result is that of
    /// [`TrustZoneAttestationVerifier::verify_at`] at the time it reports.
    pub fn verify(&self, report: &TeeAttestationReport) -> (res: Result<TrustZoneVerificationResult, TrustZoneError>)
        ensures
            report.tee_type != TeeType::TrustZone ==> (res matches Err(e) && wrong_platform_error(e)),
            report.tee_type == TeeType::TrustZone ==> (res matches Ok(r) && tz_result(
                self.policy,
                *report,
                r.verified_at,
                r,
            )),
    {
        if report.tee_type != TeeType::TrustZone {
            return Err(TrustZoneError::AttestationFailed(copy_str("report tee type is not TrustZone")));
        }
        let now = unix_now();
        self.verify_at(report, now)
    }
}

/// A deterministic simulator report stamped with `timestamp`.
pub fn build_simulated_report(timestamp: u64) -> (r: TeeAttestationReport)
    ensures
        r.tee_type == TeeType::TrustZone,
        r.attestation_data@ == simulated_payload(),
        r.timestamp == timestamp,
{
    let data: Vec<u8> = vec![
        84u8, 90u8, 45u8, 65u8, 84u8, 84u8, 69u8, 83u8, 84u8, 58u8, 83u8, 73u8, 77u8, 85u8, 76u8, 65u8,
        84u8, 69u8, 68u8, 58u8, 79u8, 80u8, 45u8, 84u8, 69u8, 69u8,
    ];
    assert(data@ =~= simulated_payload());
    TeeAttestationReport { tee_type: TeeType::TrustZone, attestation_data: data, timestamp }
}

/// The simulator payload carries the format marker, so simulated reports
/// pass the format check of every policy.
pub proof fn lemma_simulated_payload_has_marker()
    ensures
        has_prefix(simulated_payload(), format_marker()),
{
    assert(simulated_payload().subrange(0, 9) =~= format_marker());
}

} // verus!
