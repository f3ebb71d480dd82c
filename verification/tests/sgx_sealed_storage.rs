use abir_guard::confidential_computing::sgx::sealed_storage::{SealedDataBlob, SealedKeyStore, SealedStorage};
use abir_guard::confidential_computing::sgx::{PcrPolicy, PcrValues};

#[test]
fn test_sealed_blob_creation() {
    let blob = SealedDataBlob::new(
        vec![0u8; 12],
        vec![1, 2, 3],
        vec![0u8; 16],
        PcrPolicy::any(),
    );
    assert_eq!(blob.size(), 12 + 3 + 16);
}

#[test]
fn test_sealed_storage_seal_unseal() {
    let pcr_values = PcrValues::new([0u8; 32], [0u8; 32], [0u8; 32]);
    let mut storage = SealedStorage::new(pcr_values);

    let plaintext = b"secret data";
    let blob = storage.seal("key1", plaintext, PcrPolicy::any()).unwrap();
    let unsealed = storage.unseal(&blob).unwrap();
    assert_eq!(unsealed, plaintext);
}

#[test]
fn test_sealed_storage_cache() {
    let pcr_values = PcrValues::new([0u8; 32], [0u8; 32], [0u8; 32]);
    let mut storage = SealedStorage::new(pcr_values);

    let blob = SealedDataBlob::new(
        vec![0u8; 12],
        vec![1, 2, 3],
        vec![0u8; 16],
        PcrPolicy::any(),
    );

    storage.cache_blob("key1".to_string(), blob.clone());
    assert!(storage.get_cached("key1").is_some());
    assert_eq!(storage.cache_size(), 1);
}

#[test]
fn test_sealed_key_store_privacy() {
    let pcr_values = PcrValues::new([0u8; 32], [0u8; 32], [0u8; 32]);
    let mut key_store = SealedKeyStore::new(pcr_values);

    let private_key = b"super-secret-key";
    let policy = Some(PcrPolicy::any());

    let blob = key_store
        .store_private_key("pk1", private_key, policy)
        .unwrap();
    assert!(key_store.can_retrieve(&blob));

    let retrieved = key_store.retrieve_private_key(&blob).unwrap();
    assert_eq!(retrieved, private_key);
}
