use abir_guard::confidential_computing::attestation_service::{
    AttestationRoutingPolicy, AttestationService, AttestationServiceError, TrustLevel,
};
use abir_guard::confidential_computing::sgx::{AttestationConfig, Enclave};
use abir_guard::confidential_computing::tee_common::{TeeAttestationReport, TeeType};
use abir_guard::confidential_computing::trustzone::build_simulated_report;

#[test]
fn test_unified_from_sgx() {
    let enclave = match Enclave::initialize(AttestationConfig::dcap()) {
        Ok(enclave) => enclave,
        Err(_) => return,
    };
    let quote = enclave.get_quote().expect("quote should pass");

    let service = AttestationService::new();
    let result = service
        .verify_sgx_quote(&quote)
        .expect("sgx verification should pass");
    assert_eq!(result.tee_type, TeeType::SGX);
    assert_eq!(result.trust_level, TrustLevel::High);
}

#[test]
fn test_unified_from_trustzone() {
    let service = AttestationService::new();
    let now = std::time::SystemTime::now()
        .duration_since(std::time::UNIX_EPOCH)
        .expect("time should be valid")
        .as_secs();
    let report = build_simulated_report(now);

    let result = service
        .verify_trustzone_report(&report)
        .expect("trustzone verification should pass");
    assert_eq!(result.tee_type, TeeType::TrustZone);
    assert!(result.is_valid);
    assert_eq!(result.trust_level, TrustLevel::Medium);
}

#[test]
fn test_verify_report_rejects_unsupported_tee() {
    let service = AttestationService::new();
    let report = TeeAttestationReport {
        tee_type: TeeType::SGX,
        attestation_data: vec![],
        timestamp: 0,
    };

    let err = service
        .verify_report(&report)
        .expect_err("unsupported report should fail");
    match err {
        AttestationServiceError::UnsupportedTee(TeeType::SGX) => {}
        _ => panic!("unexpected error variant"),
    }
}

#[test]
fn test_routing_policy_blocks_disallowed_tee() {
    let mut policy = AttestationRoutingPolicy::default();
    policy.allowed_tees.clear();
    policy.allowed_tees.insert(TeeType::TrustZone);

    let service = AttestationService::with_routing_policy(policy);
    let enclave = match Enclave::initialize(AttestationConfig::dcap()) {
        Ok(enclave) => enclave,
        Err(_) => return,
    };
    let quote = enclave.get_quote().expect("quote should pass");

    let err = service
        .verify_sgx_quote(&quote)
        .expect_err("sgx should be denied by policy");
    match err {
        AttestationServiceError::PolicyRejected(msg) => {
            assert!(msg.contains("not allowed"));
        }
        _ => panic!("unexpected error variant"),
    }
}

#[test]
fn test_routing_policy_enforces_age_sla() {
    let policy = AttestationRoutingPolicy {
        max_trustzone_age_seconds: 1,
        ..AttestationRoutingPolicy::default()
    };
    let service = AttestationService::with_routing_policy(policy);

    let report = build_simulated_report(0);
    let err = service
        .verify_trustzone_report(&report)
        .expect_err("stale report should be rejected");
    match err {
        AttestationServiceError::PolicyRejected(msg) => {
            assert!(msg.contains("exceeds SLA"));
        }
        _ => panic!("unexpected error variant"),
    }
}

#[test]
fn test_batch_verification_mixed_reports() {
    let service = AttestationService::new();
    let now = std::time::SystemTime::now()
        .duration_since(std::time::UNIX_EPOCH)
        .expect("time should be valid")
        .as_secs();

    let good = build_simulated_report(now);
    let bad = TeeAttestationReport {
        tee_type: TeeType::SGX,
        attestation_data: vec![],
        timestamp: now,
    };

    let batch = service.verify_reports_batch(&[good, bad]);
    assert_eq!(batch.passed, 1);
    assert_eq!(batch.failed, 1);
    assert_eq!(batch.items.len(), 2);
}

