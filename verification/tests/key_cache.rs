use sha2::Digest;
use abir_guard::performance::key_cache::DerivedKeyCache;

const PW: &[u8] = b"passphrase-test";
const SALT: &[u8] = b"salt-16-bytesXXX";

/// A deterministic 64-byte derivation standing in for the password KDF.
fn derive_test_key(password: &[u8], salt: &[u8]) -> Vec<u8> {
    let mut first = sha2::Sha256::new();
    first.update(password);
    first.update(salt);
    let mut second = sha2::Sha256::new();
    second.update(salt);
    second.update(password);
    let mut out = first.finalize().to_vec();
    out.extend_from_slice(&second.finalize());
    out
}

#[test]
fn test_cache_miss_derives_key() {
    let mut cache = DerivedKeyCache::new(4).unwrap();
    let key = cache.get_or_derive(PW, SALT, 32, derive_test_key).expect("should derive");
    assert_eq!(key.len(), 32);
    let stats = cache.stats();
    assert_eq!(stats.total_misses, 1);
    assert_eq!(stats.total_hits, 0);
}

#[test]
fn test_cache_hit_returns_same_bytes() {
    let mut cache = DerivedKeyCache::new(4).unwrap();
    let k1 = cache.get_or_derive(PW, SALT, 32, derive_test_key).expect("first");
    let k2 = cache.get_or_derive(PW, SALT, 32, derive_test_key).expect("second");
    assert_eq!(k1, k2);
    let stats = cache.stats();
    assert_eq!(stats.total_misses, 1);
    assert_eq!(stats.total_hits, 1);
}

#[test]
fn test_different_output_lengths_are_distinct_entries() {
    let mut cache = DerivedKeyCache::new(8).unwrap();
    let k16 = cache.get_or_derive(PW, SALT, 16, derive_test_key).expect("16-byte");
    let k32 = cache.get_or_derive(PW, SALT, 32, derive_test_key).expect("32-byte");
    assert_eq!(k16.len(), 16);
    assert_eq!(k32.len(), 32);
    // They are separate cache entries even when the first 16 bytes are identical.
    assert_eq!(cache.len(), 2);
    assert_eq!(cache.stats().total_misses, 2);
}

#[test]
fn test_capacity_evicts_oldest() {
    let mut cache = DerivedKeyCache::new(2).unwrap();
    cache.get_or_derive(b"pw1", SALT, 32, derive_test_key).expect("pw1");
    cache.get_or_derive(b"pw2", SALT, 32, derive_test_key).expect("pw2");
    assert_eq!(cache.len(), 2);
    // Adding pw3 should evict pw1.
    cache.get_or_derive(b"pw3", SALT, 32, derive_test_key).expect("pw3");
    assert_eq!(cache.len(), 2);
    // pw1 should now be a miss again.
    let stats_before = cache.stats();
    cache.get_or_derive(b"pw1", SALT, 32, derive_test_key).expect("pw1 again");
    let stats_after = cache.stats();
    assert_eq!(stats_after.total_misses, stats_before.total_misses + 1);
}

#[test]
fn test_invalidate_removes_entry() {
    let mut cache = DerivedKeyCache::new(4).unwrap();
    cache.get_or_derive(PW, SALT, 32, derive_test_key).expect("derive");
    assert_eq!(cache.len(), 1);
    let removed = cache.invalidate(PW, SALT, 32);
    assert!(removed);
    assert!(cache.is_empty());
}

#[test]
fn test_invalidate_nonexistent_returns_false() {
    let mut cache = DerivedKeyCache::new(4).unwrap();
    assert!(!cache.invalidate(b"missing", SALT, 32));
}

#[test]
fn test_clear_empties_cache() {
    let mut cache = DerivedKeyCache::new(4).unwrap();
    cache.get_or_derive(PW, SALT, 32, derive_test_key).expect("derive");
    cache.clear();
    assert!(cache.is_empty());
}

#[test]
fn test_invalid_output_length_rejected() {
    let mut cache = DerivedKeyCache::new(4).unwrap();
    assert!(cache.get_or_derive(PW, SALT, 0, derive_test_key).is_err());
    assert!(cache.get_or_derive(PW, SALT, 65, derive_test_key).is_err());
}

#[test]
fn test_zero_capacity_rejected() {
    assert!(DerivedKeyCache::new(0).is_err());
}

