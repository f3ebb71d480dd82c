use abir_guard::confidential_computing::sgx::{AttestationConfig, Enclave, PcrPolicy};
use abir_guard::confidential_computing::tee_common::TeeType;
use abir_guard::confidential_computing::trustzone::{TrustZoneConfig, TrustZoneEnclave};

#[test]
fn test_trustzone_init() {
    let cfg = TrustZoneConfig::secure_default();
    let tz = TrustZoneEnclave::initialize(cfg).expect("init should pass");
    assert!(tz.is_initialized());
    assert_eq!(tz.session_id(), 1);
}

#[test]
fn test_trustzone_seal_unseal() {
    let cfg = TrustZoneConfig::secure_default();
    let tz = TrustZoneEnclave::initialize(cfg).expect("init should pass");
    let sealed = tz.seal_data(b"edge-secret").expect("seal should pass");
    let plain = tz.unseal_data(&sealed).expect("unseal should pass");
    assert_eq!(plain, b"edge-secret");
}

#[test]
fn test_trustzone_attestation_type() {
    let cfg = TrustZoneConfig::secure_default();
    let tz = TrustZoneEnclave::initialize(cfg).expect("init should pass");
    let report = tz.get_attestation().expect("attestation should pass");
    assert_eq!(report.tee_type, TeeType::TrustZone);
}

#[test]
fn test_cross_tee_attestation_contract() {
    let tz = TrustZoneEnclave::initialize(TrustZoneConfig::secure_default())
        .expect("trustzone init should pass");
    let sgx = match Enclave::initialize(AttestationConfig::dcap()) {
        Ok(enclave) => enclave,
        Err(_) => return,
    };

    let tz_report = tz.get_attestation().expect("trustzone attestation should pass");
    let sgx_report = sgx.get_quote().expect("sgx quote should pass");

    assert_eq!(tz_report.tee_type, TeeType::TrustZone);
    assert!(!sgx_report.as_bytes().is_empty());
}

#[test]
fn test_cross_tee_sealing_contract() {
    let tz = TrustZoneEnclave::initialize(TrustZoneConfig::secure_default())
        .expect("trustzone init should pass");
    let sgx = match Enclave::initialize(AttestationConfig::dcap()) {
        Ok(enclave) => enclave,
        Err(_) => return,
    };

    let tz_sealed = tz.seal_data(b"contract-secret").expect("trustzone seal should pass");
    let sgx_policy = PcrPolicy::any();
    let sgx_sealed = sgx
        .seal_data(b"contract-secret", &sgx_policy)
        .expect("sgx seal should pass");

    assert_eq!(tz_sealed.tee_type, TeeType::TrustZone);
    assert!(!sgx_sealed.is_empty());
}

