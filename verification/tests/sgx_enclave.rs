use abir_guard::confidential_computing::sgx::{AttestationConfig, AttestationProvider, Enclave, PcrPolicy, PcrValues};

#[test]
fn test_attestation_config_dcap() {
    let config = AttestationConfig::dcap();
    assert_eq!(config.provider, AttestationProvider::DCAP);
    assert_eq!(config.ias_api_key, None);
    assert!(config.dcap_collateral_url.is_some());
}

#[test]
fn test_attestation_config_ias() {
    let config = AttestationConfig::ias("test-api-key".to_string());
    assert_eq!(config.provider, AttestationProvider::IAS);
    assert_eq!(config.ias_api_key.as_deref(), Some("test-api-key"));
}

#[test]
fn test_pcr_policy_any() {
    let policy = PcrPolicy::any();
    assert_eq!(policy.pcr0, None);
    assert_eq!(policy.pcr1, None);
    assert_eq!(policy.pcr2, None);
}

#[test]
fn test_pcr_values_match_policy() {
    let pcr0 = [1u8; 32];
    let pcr1 = [2u8; 32];
    let pcr2 = [3u8; 32];

    let values = PcrValues::new(pcr0, pcr1, pcr2);
    let policy = PcrPolicy::strict(pcr0, pcr1, pcr2);

    assert!(values.matches_policy(&policy));
}

#[test]
fn test_pcr_values_mismatch_policy() {
    let values = PcrValues::new([1u8; 32], [2u8; 32], [3u8; 32]);
    let policy = PcrPolicy::strict([0u8; 32], [2u8; 32], [3u8; 32]);

    assert!(!values.matches_policy(&policy));
}

#[test]
fn test_enclave_exposes_attestation_config() {
    let config = AttestationConfig::dcap();
    let enclave = match Enclave::initialize(config) {
        Ok(enclave) => enclave,
        Err(_) => return,
    };
    assert_eq!(
        enclave.attestation_config().provider,
        AttestationProvider::DCAP
    );
}

