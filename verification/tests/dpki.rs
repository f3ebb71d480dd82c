use abir_guard::blockchain::dpki::{DecentralizedPki, DpkiError};
use abir_guard::blockchain::key_anchor::KeyAnchorError;

fn dpki_pk(label: &str) -> Vec<u8> {
    format!("dpki-public-key-{label}").into_bytes()
}

#[test]
fn test_register_and_resolve() {
    let mut dpki = DecentralizedPki::new();
    dpki.register_key("did:alice", &dpki_pk("alice"), 0, None, 0)
        .expect("register should pass");
    let entry = dpki.resolve("did:alice", 100).expect("resolve should pass");
    assert_eq!(entry.entity_id, "did:alice");
}

#[test]
fn test_duplicate_registration_rejected() {
    let mut dpki = DecentralizedPki::new();
    dpki.register_key("did:bob", &dpki_pk("bob"), 0, None, 0)
        .expect("first register");
    let err = dpki
        .register_key("did:bob", &dpki_pk("bob2"), 0, None, 1)
        .expect_err("duplicate should fail");
    assert_eq!(err, DpkiError::AlreadyRegistered);
}

#[test]
fn test_resolve_expired_entry() {
    let mut dpki = DecentralizedPki::new();
    dpki.register_key("did:carol", &dpki_pk("carol"), 0, Some(500), 0)
        .expect("register");
    let err = dpki.resolve("did:carol", 501).expect_err("should be expired");
    assert!(matches!(err, DpkiError::Expired { .. }));
}

#[test]
fn test_resolve_not_yet_valid() {
    let mut dpki = DecentralizedPki::new();
    dpki.register_key("did:dan", &dpki_pk("dan"), 1000, None, 0)
        .expect("register");
    let err = dpki.resolve("did:dan", 500).expect_err("should be not-yet-valid");
    assert!(matches!(err, DpkiError::NotYetValid { .. }));
}

#[test]
fn test_invalidate_blocks_resolve() {
    let mut dpki = DecentralizedPki::new();
    dpki.register_key("did:eve", &dpki_pk("eve"), 0, None, 0)
        .expect("register");
    dpki.invalidate("did:eve").expect("invalidate should pass");
    let err = dpki.resolve("did:eve", 100).expect_err("should be revoked");
    assert!(matches!(err, DpkiError::AnchorError(KeyAnchorError::Revoked)));
}

#[test]
fn test_resolve_unknown_entity() {
    let dpki = DecentralizedPki::new();
    let err = dpki.resolve("did:ghost", 0).expect_err("unknown entity");
    assert_eq!(err, DpkiError::NotFound);
}

#[test]
fn test_empty_key_rejected() {
    let mut dpki = DecentralizedPki::new();
    let err = dpki
        .register_key("did:empty", b"", 0, None, 0)
        .expect_err("empty key should fail");
    assert_eq!(err, DpkiError::EmptyPublicKey);
}


#[test]
fn test_invalidate_affects_only_that_entity() {
    let mut dpki = DecentralizedPki::new();
    dpki.register_key("did:fay", &dpki_pk("fay"), 0, None, 0).expect("register");
    dpki.register_key("did:gus", &dpki_pk("gus"), 0, Some(500), 0).expect("register");
    dpki.invalidate("did:fay").expect("invalidate");
    assert!(matches!(dpki.resolve("did:fay", 10).unwrap_err(), DpkiError::AnchorError(KeyAnchorError::Revoked)));
    assert_eq!(dpki.resolve("did:gus", 10).unwrap().entity_id, "did:gus");
    assert!(matches!(dpki.resolve("did:gus", 501).unwrap_err(), DpkiError::Expired { .. }));
}
