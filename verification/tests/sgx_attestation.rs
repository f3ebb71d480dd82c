use abir_guard::confidential_computing::sgx::attestation::{AttestationVerifier, DcapVerifier, IasVerifier};
use abir_guard::confidential_computing::sgx::AttestationConfig;

#[test]
fn test_dcap_verifier_creation() {
    let verifier = DcapVerifier::new(
        "https://api.trustedservices.intel.com/sgx/certification/v4".to_string(),
        false,
    );
    assert!(!verifier.allow_outdated_pcks);
}

#[test]
fn test_ias_verifier_creation() {
    let verifier = IasVerifier::new("test-api-key".to_string());
    assert_eq!(verifier.api_key, "test-api-key");
}

#[test]
fn test_attestation_verifier_dcap() {
    let config = AttestationConfig::dcap();
    let verifier = AttestationVerifier::from_config(&config);
    assert!(verifier.is_ok());
    assert!(verifier.unwrap().dcap.is_some());
}

#[test]
fn test_attestation_verifier_ias() {
    let config = AttestationConfig::ias("test-key".to_string());
    let verifier = AttestationVerifier::from_config(&config);
    assert!(verifier.is_ok());
    assert!(verifier.unwrap().ias.is_some());
}


fn sample_quote(signature: Vec<u8>, cert_chain: Vec<u8>, timestamp: u64) -> abir_guard::confidential_computing::sgx::Quote {
    abir_guard::confidential_computing::sgx::Quote {
        quote: vec![0u8; 1024],
        signature,
        cert_chain,
        user_data: vec![0u8; 32],
        pcr_values: abir_guard::confidential_computing::sgx::PcrValues::new([0u8; 32], [0u8; 32], [0u8; 32]),
        timestamp,
    }
}

fn collateral(chain: &str) -> abir_guard::confidential_computing::sgx::attestation::DcapCollateral {
    abir_guard::confidential_computing::sgx::attestation::DcapCollateral {
        pck_cert_chain: chain.to_string(),
        pck_crl: String::new(),
        root_ca_cert: String::new(),
        processor_cert: String::new(),
    }
}

#[test]
fn test_dcap_offline_checks_signature_chain_and_age() {
    let v = DcapVerifier::new("https://example.invalid/collateral".to_string(), false);
    let now = 1_000_000u64;
    let good = v.verify_offline_at(&sample_quote(vec![7u8; 64], vec![], now - 10), &collateral(""), now).unwrap();
    assert!(good.is_valid);
    assert!(good.is_patched);
    assert_eq!(good.quote_age_seconds, 10);
    assert_eq!(good.verified_at, now);
    let unsigned = v.verify_offline_at(&sample_quote(vec![], vec![], now), &collateral(""), now).unwrap();
    assert!(!unsigned.is_valid);
    let no_chain = v.verify_offline_at(&sample_quote(vec![7u8; 64], vec![], now), &collateral("PEM"), now).unwrap();
    assert!(!no_chain.is_valid);
    let with_chain = v.verify_offline_at(&sample_quote(vec![7u8; 64], vec![1, 2], now), &collateral("PEM"), now).unwrap();
    assert!(with_chain.is_valid);
    let stale = v.verify_offline_at(&sample_quote(vec![7u8; 64], vec![], now - 3601), &collateral(""), now).unwrap();
    assert!(!stale.is_valid);
    assert_eq!(stale.quote_age_seconds, 3601);
}

#[test]
fn test_attestation_verifier_rejects_unsigned_quote() {
    let verifier = AttestationVerifier::from_config(&AttestationConfig::dcap()).unwrap();
    let r = verifier.verify(&sample_quote(vec![], vec![], 0)).unwrap();
    assert!(!r.is_valid);
}
