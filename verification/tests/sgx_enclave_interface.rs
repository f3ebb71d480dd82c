use abir_guard::confidential_computing::sgx::enclave_interface::{SgxStatus, QUOTE_TYPE_ECDSA};

#[test]
fn test_quote_type_ecdsa() {
    assert_eq!(QUOTE_TYPE_ECDSA, 3);
}

#[test]
fn test_sgx_success_code() {
    assert_eq!(SgxStatus::SGX_SUCCESS as u32, 0x0);
}

