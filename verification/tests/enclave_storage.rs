use abir_guard::confidential_computing::sgx::enclave_interface::SgxStatus;
use abir_guard::confidential_computing::sgx::sealed_storage::{SealedDataBlob, SealedKeyStore, SealedStorage};
use abir_guard::confidential_computing::sgx::{AttestationConfig, Enclave, EnclaveError, PcrPolicy, PcrValues};
use abir_guard::confidential_computing::tee_common::{SealedData, TeeConfig, TeeType};
use abir_guard::confidential_computing::trustzone::interface::{complete_unseal, dispatch_command, TaCommand, TaDispatch, TaRequest};
use abir_guard::confidential_computing::trustzone::{TrustZoneConfig, TrustZoneEnclave, TrustZoneError};

#[test]
fn test_enclave_simulator_outputs() {
    let enclave = Enclave::initialize(AttestationConfig::dcap()).unwrap();
    assert!(enclave.is_initialized());
    assert_eq!(enclave.enclave_id(), 1);
    let (p, s) = enclave.generate_keypair("agent-1").unwrap();
    assert_eq!(p, "pub_agent-1");
    assert_eq!(s, "sec_agent-1");
    let q = enclave.get_quote().unwrap();
    assert_eq!(q.as_bytes().len(), 1024);
    assert_eq!(q.signature().len(), 256);
    assert!(q.cert_chain.is_empty());
    let sealed = enclave.seal_data(b"abc", &PcrPolicy::any()).unwrap();
    assert_eq!(sealed.len(), 63);
    assert_eq!(enclave.unseal_data(&sealed).unwrap(), b"abc".to_vec());
    assert_eq!(enclave.sign("k", b"m").unwrap().len(), 4096);
    assert_eq!(
        enclave.unseal_data(&[0u8; 80]),
        Err(EnclaveError::SealedStorageError("Sealed data authentication failed".to_string()))
    );
    assert_eq!(
        enclave.unseal_data(&[0u8; 59]),
        Err(EnclaveError::SealedStorageError("Sealed blob too short".to_string()))
    );
}

#[test]
fn test_enclave_error_text() {
    assert_eq!(
        EnclaveError::InvalidState("Enclave not initialized".to_string()).to_message(),
        "Invalid enclave state: Enclave not initialized"
    );
    assert_eq!(TrustZoneError::InvalidState("x".to_string()).to_message(), "Invalid state: x");
}

#[test]
fn test_config_builders() {
    let c = AttestationConfig::ias("k".to_string()).with_development_mode();
    assert!(c.allow_outdated_pcks);
    assert_eq!(c.ias_api_key.as_deref(), Some("k"));
    let t = TeeConfig::trustzone().with_debug();
    assert!(t.debug_mode);
    assert_eq!(t.max_enclave_size, 0x200000);
    assert_eq!(TeeConfig::sgx().max_enclave_size, 0x100000);
}

#[test]
fn test_unseal_requires_matching_pcrs() {
    let mut storage = SealedStorage::new(PcrValues::new([1u8; 32], [2u8; 32], [3u8; 32]));
    let blob = storage.seal("k", b"data", PcrPolicy::strict([1u8; 32], [2u8; 32], [3u8; 32])).unwrap();
    assert_eq!(blob.nonce, vec![0u8; 12]);
    assert_eq!(blob.auth_tag.len(), 16);
    assert_eq!(storage.unseal(&blob).unwrap(), b"data");
    storage.update_pcr(PcrValues::new([9u8; 32], [2u8; 32], [3u8; 32]));
    assert_eq!(
        storage.unseal(&blob),
        Err(EnclaveError::SealedStorageError("Current PCR values don't match sealing policy".to_string()))
    );
    assert_eq!(storage.cache_size(), 1);
    storage.clear_cache();
    assert_eq!(storage.cache_size(), 0);
    assert!(storage.get_cached("k").is_none());
}

#[test]
fn test_key_store_policy_mismatch() {
    let mut store = SealedKeyStore::new(PcrValues::new([0u8; 32], [0u8; 32], [0u8; 32]));
    let blob = store.store_private_key("pk", b"secret", Some(PcrPolicy { pcr0: Some([5u8; 32]), pcr1: None, pcr2: None })).unwrap();
    assert!(!store.can_retrieve(&blob));
    assert!(store.retrieve_private_key(&blob).is_err());
    let open = store.store_private_key("pk2", b"secret", None).unwrap();
    assert!(store.can_retrieve(&open));
}

#[test]
fn test_blob_size_and_aad() {
    let blob = SealedDataBlob::new(vec![0u8; 12], vec![1, 2, 3, 4], vec![0u8; 16], PcrPolicy::any()).with_aad(vec![9]);
    assert_eq!(blob.size(), 32);
    assert_eq!(blob.aad, Some(vec![9]));
}

#[test]
fn test_sdk_status_and_command_codes() {
    assert_eq!(SgxStatus::SGX_ERROR_INVALID_STATE.code(), 0xc);
    assert_eq!(SgxStatus::SGX_ERROR_ENCLAVE_LOST.code(), 0x5);
    assert_eq!(TaCommand::UnsealData.code(), 3);
    assert_eq!(TaCommand::from_code(2), Some(TaCommand::SealData));
    assert_eq!(TaCommand::from_code(4), None);
}

#[test]
fn test_trustzone_rejects_foreign_sealed_data_and_empty_uuid() {
    let tz = TrustZoneEnclave::initialize(TrustZoneConfig::secure_default()).unwrap();
    let foreign = SealedData::new(TeeType::SGX, vec![1], vec![], vec![]);
    assert_eq!(
        tz.unseal_data(&foreign),
        Err(TrustZoneError::OperationFailed("Sealed payload does not belong to TrustZone".to_string()))
    );
    let empty = TrustZoneConfig { ta_uuid: String::new(), require_attestation: true };
    assert!(matches!(TrustZoneEnclave::initialize(empty), Err(TrustZoneError::InitializationFailed(_))));
}

#[test]
fn test_dispatch_seal_then_complete_unseal() {
    let tz = TrustZoneEnclave::initialize(TrustZoneConfig::secure_default()).unwrap();
    let req = TaRequest::new(tz.session_id(), TaCommand::SealData, b"payload".to_vec());
    let sealed = match dispatch_command(&tz, &req).unwrap() {
        TaDispatch::EncodeSealed(s) => s,
        other => panic!("unexpected dispatch outcome {:?}", other),
    };
    assert_eq!(sealed.tee_type, TeeType::TrustZone);
    let resp = complete_unseal(&tz, &sealed).unwrap();
    assert!(resp.success);
    assert_eq!(resp.payload, b"payload");
    let unseal_req = TaRequest::new(tz.session_id(), TaCommand::UnsealData, b"raw".to_vec());
    assert!(matches!(dispatch_command(&tz, &unseal_req).unwrap(), TaDispatch::DecodeSealed(p) if p == b"raw"));
}

#[test]
fn test_enclave_seal_unseal_roundtrip_and_tampering() {
    let enclave = Enclave::initialize(AttestationConfig::dcap()).unwrap();
    let policy = PcrPolicy::strict([1u8; 32], [2u8; 32], [3u8; 32]);
    let sealed = enclave.seal_data(b"contract-secret", &policy).unwrap();
    assert_eq!(enclave.unseal_data(&sealed).unwrap(), b"contract-secret".to_vec());
    let tag_at = sealed.len() - 48;
    let mut tampered = sealed.clone();
    tampered[tag_at] ^= 1;
    assert_eq!(
        enclave.unseal_data(&tampered),
        Err(EnclaveError::SealedStorageError("Sealed data authentication failed".to_string()))
    );
    let mut altered = sealed.clone();
    altered[12] ^= 1;
    assert!(enclave.unseal_data(&altered).is_err());
    let empty = enclave.seal_data(b"", &PcrPolicy::any()).unwrap();
    assert_eq!(empty.len(), 60);
    assert_eq!(enclave.unseal_data(&empty).unwrap(), Vec::<u8>::new());
}

#[test]
fn test_sealed_storage_detects_tampering() {
    let mut storage = SealedStorage::new(PcrValues::new([0u8; 32], [0u8; 32], [0u8; 32]));
    let blob = storage.seal("key1", b"secret data", PcrPolicy::any()).unwrap();
    assert_eq!(storage.unseal(&blob).unwrap(), b"secret data".to_vec());
    let mut tag_changed = blob.clone();
    tag_changed.auth_tag[0] ^= 0xFF;
    assert_eq!(
        storage.unseal(&tag_changed),
        Err(EnclaveError::SealedStorageError("Sealed data authentication failed".to_string()))
    );
    let mut data_changed = blob.clone();
    data_changed.ciphertext[0] ^= 1;
    assert!(storage.unseal(&data_changed).is_err());
    let zero_tag = SealedDataBlob::new(vec![0u8; 12], vec![1, 2, 3], vec![0u8; 16], PcrPolicy::any());
    assert!(storage.unseal(&zero_tag).is_err());
}
