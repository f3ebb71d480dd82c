use abir_guard::confidential_computing::tee_common::{TeeAttestationReport, TeeType};
use abir_guard::confidential_computing::trustzone::attestation::{
    build_simulated_report, TrustZoneAttestationPolicy, TrustZoneAttestationVerifier,
};
use std::time::{SystemTime, UNIX_EPOCH};

#[test]
fn test_verify_simulated_report() {
    let now = SystemTime::now()
        .duration_since(UNIX_EPOCH)
        .expect("time should be valid")
        .as_secs();
    let report = build_simulated_report(now);
    let verifier = TrustZoneAttestationVerifier::new(TrustZoneAttestationPolicy::default());
    let result = verifier.verify(&report).expect("verification should pass");
    assert!(result.is_valid);
    assert!(result.is_fresh);
    assert!(result.has_expected_format);
}

#[test]
fn test_verify_stale_report() {
    let old = SystemTime::now()
        .duration_since(UNIX_EPOCH)
        .expect("time should be valid")
        .as_secs()
        .saturating_sub(10_000);
    let report = build_simulated_report(old);
    let verifier = TrustZoneAttestationVerifier::new(TrustZoneAttestationPolicy::default());
    let result = verifier.verify(&report).expect("verification should pass");
    assert!(!result.is_valid);
    assert!(!result.is_fresh);
}

#[test]
fn test_verify_missing_format_marker() {
    let now = SystemTime::now()
        .duration_since(UNIX_EPOCH)
        .expect("time should be valid")
        .as_secs();
    let report = TeeAttestationReport {
        tee_type: TeeType::TrustZone,
        attestation_data: b"BAD-FORMAT".to_vec(),
        timestamp: now,
    };
    let verifier = TrustZoneAttestationVerifier::new(TrustZoneAttestationPolicy::default());
    let result = verifier.verify(&report).expect("verification should pass");
    assert!(!result.is_valid);
    assert!(!result.has_expected_format);
}

