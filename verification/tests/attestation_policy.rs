use abir_guard::confidential_computing::attestation_service::{
    AttestationRoutingPolicy, AttestationService, AttestationServiceError, TeeTypeSet, TrustLevel,
    UnifiedAttestationResult,
};
use abir_guard::confidential_computing::sgx::quote_verifier::{QuoteValidationPolicy, QuoteVerificationResult, QuoteVerifier};
use abir_guard::confidential_computing::sgx::{PcrValues, Quote};
use abir_guard::confidential_computing::tee_common::{TeeAttestationReport, TeeType};
use abir_guard::confidential_computing::trustzone::attestation::{
    build_simulated_report, TrustZoneAttestationPolicy, TrustZoneAttestationVerifier,
};
use abir_guard::confidential_computing::trustzone::TrustZoneError;

fn quote(signature: Vec<u8>, cert_chain: Vec<u8>, timestamp: u64) -> Quote {
    Quote {
        quote: vec![0u8; 16],
        signature,
        cert_chain,
        user_data: vec![],
        pcr_values: PcrValues::new([0u8; 32], [0u8; 32], [0u8; 32]),
        timestamp,
    }
}

#[test]
fn test_tee_type_set_operations() {
    let mut set = TeeTypeSet::new();
    assert!(!set.contains(&TeeType::SGX));
    assert!(set.insert(TeeType::SGX));
    assert!(!set.insert(TeeType::SGX));
    assert!(set.contains(&TeeType::SGX));
    assert!(set.remove(&TeeType::SGX));
    assert!(!set.remove(&TeeType::SGX));
    set.insert(TeeType::AmdSev);
    set.clear();
    assert!(!set.contains(&TeeType::AmdSev));
}

#[test]
fn test_quote_verify_at_freshness_and_chain() {
    let mut verifier = QuoteVerifier::new(QuoteValidationPolicy::default());
    let r = verifier.verify_at(&quote(vec![1], vec![], 1000), 4600).unwrap();
    assert_eq!(r.quote_age_seconds, 3600);
    assert!(r.is_fresh && r.signature_valid && r.cert_chain_valid && r.is_valid);
    assert_eq!(r.verified_at, 4600);
    let stale = verifier.verify_at(&quote(vec![1], vec![], 1000), 4601).unwrap();
    assert!(!stale.is_fresh && !stale.is_valid);
    let future = verifier.verify_at(&quote(vec![1], vec![], 5000), 10).unwrap();
    assert_eq!(future.quote_age_seconds, 0);
    verifier.add_intel_cert(b"root".to_vec());
    let no_chain = verifier.verify_at(&quote(vec![1], vec![], 1000), 1000).unwrap();
    assert!(!no_chain.cert_chain_valid && !no_chain.is_valid);
    let unsigned = verifier.verify_at(&quote(vec![], vec![7], 1000), 1000).unwrap();
    assert!(!unsigned.signature_valid && !unsigned.is_valid);
}

#[test]
fn test_unified_sgx_summary_and_trust() {
    let v = QuoteVerificationResult {
        is_valid: true,
        signature_valid: true,
        cert_chain_valid: false,
        is_fresh: true,
        cpu_patched: true,
        advisories: vec![],
        verified_at: 0,
        quote_age_seconds: 7,
    };
    let u = UnifiedAttestationResult::from(v);
    assert_eq!(u.trust_level, TrustLevel::Low);
    assert_eq!(u.evidence_age_seconds, 7);
    assert_eq!(u.summary, "sgx: signature_valid=true, cert_chain_valid=false, advisories=0");
}

#[test]
fn test_minimum_trust_level_rejects_trustzone() {
    let policy = AttestationRoutingPolicy { minimum_trust_level: TrustLevel::High, ..AttestationRoutingPolicy::default() };
    let service = AttestationService::with_routing_policy(policy);
    let now = std::time::SystemTime::now().duration_since(std::time::UNIX_EPOCH).unwrap().as_secs();
    let err = service.verify_trustzone_report(&build_simulated_report(now)).unwrap_err();
    assert_eq!(err, AttestationServiceError::PolicyRejected("trust level Medium below minimum High".to_string()));
}

#[test]
fn test_accepted_verdict_is_marked_enforced() {
    let service = AttestationService::new();
    let now = std::time::SystemTime::now().duration_since(std::time::UNIX_EPOCH).unwrap().as_secs();
    let ok = service.verify_trustzone_report(&build_simulated_report(now)).unwrap();
    assert_eq!(ok.summary, "trustzone: expected_format=true; policy=enforced");
}

#[test]
fn test_wrong_platform_and_invalid_evidence() {
    let service = AttestationService::new();
    let sgx_report = TeeAttestationReport { tee_type: TeeType::SGX, attestation_data: vec![], timestamp: 0 };
    assert_eq!(
        service.verify_trustzone_report(&sgx_report).unwrap_err(),
        AttestationServiceError::TrustZoneVerification("Attestation failed: report tee type is not TrustZone".to_string())
    );
    assert_eq!(
        service
            .verify_report(&TeeAttestationReport { tee_type: TeeType::AmdSev, attestation_data: vec![], timestamp: 0 })
            .unwrap_err(),
        AttestationServiceError::UnsupportedTee(TeeType::AmdSev)
    );
    let now = std::time::SystemTime::now().duration_since(std::time::UNIX_EPOCH).unwrap().as_secs();
    let bad = TeeAttestationReport { tee_type: TeeType::TrustZone, attestation_data: b"nope".to_vec(), timestamp: now };
    assert_eq!(
        service.verify_trustzone_report(&bad).unwrap_err(),
        AttestationServiceError::PolicyRejected("provider verification did not return valid/fresh evidence".to_string())
    );
}

#[test]
fn test_sgx_batch_counts() {
    let service = AttestationService::new();
    let now = std::time::SystemTime::now().duration_since(std::time::UNIX_EPOCH).unwrap().as_secs();
    let batch = service.verify_sgx_quotes_batch(&[quote(vec![1], vec![], now), quote(vec![], vec![], now)]);
    assert_eq!(batch.items.len(), 2);
    assert_eq!(batch.passed, 1);
    assert_eq!(batch.failed, 1);
    assert_eq!(
        batch.items[1].as_ref().unwrap_err(),
        &AttestationServiceError::PolicyRejected("provider verification did not return valid/fresh evidence".to_string())
    );
}

#[test]
fn test_trustzone_verify_at_exact() {
    let verifier = TrustZoneAttestationVerifier::new(TrustZoneAttestationPolicy::default());
    let r = verifier.verify_at(&build_simulated_report(100), 400).unwrap();
    assert_eq!(r.report_age_seconds, 300);
    assert!(r.is_fresh && r.has_expected_format && r.is_valid);
    assert_eq!(r.verified_at, 400);
    let lax = TrustZoneAttestationVerifier::new(TrustZoneAttestationPolicy { max_age_seconds: 10, require_format_marker: false });
    let unmarked = TeeAttestationReport { tee_type: TeeType::TrustZone, attestation_data: vec![1, 2], timestamp: 100 };
    let r2 = lax.verify_at(&unmarked, 105).unwrap();
    assert!(r2.has_expected_format && r2.is_valid);
    let sgx = TeeAttestationReport { tee_type: TeeType::SGX, attestation_data: vec![], timestamp: 0 };
    assert_eq!(
        verifier.verify_at(&sgx, 0).unwrap_err(),
        TrustZoneError::AttestationFailed("report tee type is not TrustZone".to_string())
    );
}
