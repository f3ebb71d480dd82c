use abir_guard::confidential_computing::tee_common::{SealedData, TeeConfig, TeeType};

#[test]
fn test_tee_type_sgx() {
    assert_eq!(TeeType::SGX, TeeType::SGX);
}

#[test]
fn test_tee_config_sgx() {
    let config = TeeConfig::sgx();
    assert_eq!(config.tee_type, TeeType::SGX);
    assert!(!config.debug_mode);
}

#[test]
fn test_sealed_data_creation() {
    let sealed = SealedData::new(
        TeeType::SGX,
        vec![1, 2, 3],
        vec![0u8; 16],
        vec![0u8; 12],
    );
    assert_eq!(sealed.tee_type, TeeType::SGX);
}

