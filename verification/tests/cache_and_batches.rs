use abir_guard::performance::batch_ops::{batch_sign, batch_verify, BatchOpsError, SignRequest, VerifyRequest};
use abir_guard::performance::key_cache::{CacheError, DerivedKeyCache};

fn counting_key(password: &[u8], salt: &[u8]) -> Vec<u8> {
    let mut out: Vec<u8> = Vec::new();
    for i in 0..64u8 {
        out.push(i ^ password.len() as u8 ^ salt.len() as u8);
    }
    out
}

fn short_key(_password: &[u8], _salt: &[u8]) -> Vec<u8> {
    vec![1, 2, 3]
}

#[test]
fn test_cache_returns_prefix_of_derivation() {
    let mut cache = DerivedKeyCache::new(2).unwrap();
    let k = cache.get_or_derive(b"pw", b"salt", 8, counting_key).unwrap();
    assert_eq!(k, counting_key(b"pw", b"salt")[..8].to_vec());
}

#[test]
fn test_cache_short_derivation_fails_and_counts_miss() {
    let mut cache = DerivedKeyCache::new(2).unwrap();
    let err = cache.get_or_derive(b"pw", b"salt", 8, short_key).unwrap_err();
    assert!(matches!(err, CacheError::DerivationFailed(_)));
    assert_eq!(cache.stats().total_misses, 1);
    assert!(cache.is_empty());
}

#[test]
fn test_cache_evicts_in_insertion_order() {
    let mut cache = DerivedKeyCache::new(2).unwrap();
    cache.get_or_derive(b"a", b"s", 4, counting_key).unwrap();
    cache.get_or_derive(b"b", b"s", 4, counting_key).unwrap();
    cache.get_or_derive(b"a", b"s", 4, counting_key).unwrap();
    cache.get_or_derive(b"c", b"s", 4, counting_key).unwrap();
    let stats = cache.stats();
    assert_eq!(stats.size, 2);
    assert_eq!(stats.capacity, 2);
    assert_eq!(stats.total_hits, 1);
    assert_eq!(stats.total_misses, 3);
    assert!(!cache.invalidate(b"a", b"s", 4));
    assert!(cache.invalidate(b"b", b"s", 4));
    assert!(cache.invalidate(b"c", b"s", 4));
}

#[test]
fn test_batch_verify_counts_errors_as_failures() {
    let reqs = vec![
        VerifyRequest { message: b"ok".to_vec(), signature: vec![1], verifying_key: vec![1] },
        VerifyRequest { message: b"bad".to_vec(), signature: vec![0], verifying_key: vec![1] },
        VerifyRequest { message: b"err".to_vec(), signature: vec![1], verifying_key: vec![] },
    ];
    let r = batch_verify(&reqs, |req: &VerifyRequest| -> Result<bool, String> {
        if req.verifying_key.is_empty() {
            Err("bad key".to_string())
        } else {
            Ok(req.signature == req.verifying_key)
        }
    })
    .unwrap();
    assert_eq!(r.total, 3);
    assert_eq!(r.passed, 1);
    assert_eq!(r.failed, 2);
    assert_eq!(r.results, vec![true, false, false]);
    assert!(!r.all_passed());
}

#[test]
fn test_batch_sign_records_failures() {
    let reqs = vec![
        SignRequest { message: b"m1".to_vec(), signing_key: vec![7] },
        SignRequest { message: b"m2".to_vec(), signing_key: vec![] },
    ];
    let r = batch_sign(&reqs, |req: &SignRequest| -> Result<Vec<u8>, String> {
        if req.signing_key.is_empty() {
            Err("no key".to_string())
        } else {
            Ok(req.message.iter().map(|b| b ^ req.signing_key[0]).collect())
        }
    })
    .unwrap();
    assert_eq!(r.succeeded, 1);
    assert_eq!(r.failed, 1);
    assert_eq!(r.signatures[0], Some(vec![b'm' ^ 7, b'1' ^ 7]));
    assert!(r.signatures[1].is_none());
    assert!(!r.all_succeeded());
}

#[test]
fn test_batch_verify_empty_rejects() {
    let err = batch_verify(&[], |_req: &VerifyRequest| -> Result<bool, String> { Ok(true) }).expect_err("empty batch");
    assert_eq!(err, BatchOpsError::EmptyBatch);
}

#[test]
fn test_batch_sign_empty_rejects() {
    let err = batch_sign(&[], |_req: &SignRequest| -> Result<Vec<u8>, String> { Ok(vec![]) }).expect_err("empty batch");
    assert_eq!(err, BatchOpsError::EmptyBatch);
}

#[test]
fn test_cache_hit_length_and_bound() {
    let mut cache = DerivedKeyCache::new(2).unwrap();
    let a = cache.get_or_derive(b"pw", b"salt", 16, counting_key).unwrap();
    let b = cache.get_or_derive(b"pw", b"salt", 16, short_key).unwrap();
    assert_eq!(b.len(), 16);
    assert_eq!(a, b);
    cache.get_or_derive(b"p2", b"salt", 4, counting_key).unwrap();
    cache.get_or_derive(b"p3", b"salt", 4, counting_key).unwrap();
    let s = cache.stats();
    assert_eq!(s.size, 2);
    assert!(s.size <= s.capacity);
}

#[test]
fn test_cache_invalidate_then_miss() {
    let mut cache = DerivedKeyCache::new(3).unwrap();
    cache.get_or_derive(b"pw", b"salt", 8, counting_key).unwrap();
    assert!(cache.invalidate(b"pw", b"salt", 8));
    assert!(!cache.invalidate(b"pw", b"salt", 8));
    let before = cache.stats().total_misses;
    assert_eq!(cache.get_or_derive(b"pw", b"salt", 8, short_key).unwrap_err(), CacheError::DerivationFailed("derived key is shorter than the requested length".to_string()));
    assert_eq!(cache.stats().total_misses, before + 1);
}
