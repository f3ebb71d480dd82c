use abir_guard::confidential_computing::sgx::quote_verifier::{
    QuoteValidationPolicy, QuoteVerificationResult, QuoteVerifier, SecurityAdvisory,
};

#[test]
fn test_quote_validation_policy_default() {
    let policy = QuoteValidationPolicy::default();
    assert_eq!(policy.max_age_seconds, 3600);
    assert!(policy.require_intel_signature);
    assert!(policy.require_patched_cpu);
}

#[test]
fn test_quote_verifier_creation() {
    let policy = QuoteValidationPolicy::default();
    let verifier = QuoteVerifier::new(policy);
    assert_eq!(verifier.advisory_db.len(), 0);
    assert_eq!(verifier.intel_root_certs.len(), 0);
}

#[test]
fn test_security_advisory_creation() {
    let advisory = SecurityAdvisory {
        id: "INTEL-SA-00219".to_string(),
        affected_cpus: vec!["Sky Lake".to_string()],
        description: "SGX side-channel vulnerability".to_string(),
        severity: "HIGH".to_string(),
        issued: "2019-01-01".to_string(),
    };

    assert_eq!(advisory.id, "INTEL-SA-00219");
    assert_eq!(advisory.severity, "HIGH");
}

#[test]
fn test_quote_verification_result_structure() {
    let result = QuoteVerificationResult {
        is_valid: true,
        signature_valid: true,
        cert_chain_valid: true,
        is_fresh: true,
        cpu_patched: true,
        advisories: vec![],
        verified_at: 0,
        quote_age_seconds: 0,
    };

    assert!(result.is_valid);
    assert!(result.is_fresh);
}

