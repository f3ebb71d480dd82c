use abir_guard::blockchain::key_anchor::{AnchorRegistry, KeyAnchor, KeyAnchorError};

fn key_anchor_pk(label: &str) -> Vec<u8> {
    format!("public-key-{label}").into_bytes()
}

#[test]
fn test_register_and_verify() {
    let mut registry = AnchorRegistry::new();
    let anchor = registry.register(&key_anchor_pk("alice"), "alice", 1000).expect("register should pass");
    assert!(!anchor.revoked);
    let found = registry.verify_anchor(&key_anchor_pk("alice")).expect("verify should pass");
    assert_eq!(found.owner_id, "alice");
}

#[test]
fn test_register_duplicate_rejected() {
    let mut registry = AnchorRegistry::new();
    registry.register(&key_anchor_pk("bob"), "bob", 1000).expect("first register");
    let err = registry.register(&key_anchor_pk("bob"), "bob", 1001).expect_err("duplicate should fail");
    assert_eq!(err, KeyAnchorError::AlreadyAnchored);
}

#[test]
fn test_register_empty_key_rejected() {
    let mut registry = AnchorRegistry::new();
    let err = registry.register(b"", "alice", 0).expect_err("empty key should fail");
    assert_eq!(err, KeyAnchorError::EmptyPublicKey);
}

#[test]
fn test_revoke_allows_owner() {
    let mut registry = AnchorRegistry::new();
    let anchor = registry.register(&key_anchor_pk("carol"), "carol", 2000).expect("register");
    registry.revoke(&anchor.anchor_id, "carol").expect("revoke should pass");
    let err = registry.verify_anchor(&key_anchor_pk("carol")).expect_err("revoked key");
    assert_eq!(err, KeyAnchorError::Revoked);
}

#[test]
fn test_revoke_rejects_wrong_owner() {
    let mut registry = AnchorRegistry::new();
    let anchor = registry.register(&key_anchor_pk("dan"), "dan", 3000).expect("register");
    let err = registry
        .revoke(&anchor.anchor_id, "eve")
        .expect_err("wrong owner should fail");
    assert!(matches!(err, KeyAnchorError::OwnerMismatch { .. }));
}

#[test]
fn test_lookup_nonexistent_returns_none() {
    let registry = AnchorRegistry::new();
    assert!(registry.lookup("deadbeef").is_none());
}

#[test]
fn test_verify_unknown_key_returns_not_found() {
    let registry = AnchorRegistry::new();
    let err = registry.verify_anchor(&key_anchor_pk("ghost")).expect_err("unknown key");
    assert_eq!(err, KeyAnchorError::NotFound);
}

#[test]
fn test_matches_key_predicate() {
    let anchor = KeyAnchor::new(&key_anchor_pk("frank"), "frank", 0);
    assert!(anchor.matches_key(&key_anchor_pk("frank")));
    assert!(!anchor.matches_key(&key_anchor_pk("other")));
}


#[test]
fn test_revoke_then_verify_by_id_and_repeat() {
    let mut registry = AnchorRegistry::new();
    let a = registry.register(&key_anchor_pk("fay"), "fay", 10).expect("register");
    let b = registry.register(&key_anchor_pk("gus"), "gus", 11).expect("register");
    registry.revoke(&a.anchor_id, "fay").expect("revoke");
    assert_eq!(registry.verify_anchor_by_id(&a.anchor_id).unwrap_err(), KeyAnchorError::Revoked);
    assert_eq!(registry.len(), 2);
    assert!(!registry.verify_anchor_by_id(&b.anchor_id).unwrap().revoked);
    registry.revoke(&a.anchor_id, "fay").expect("repeated revoke by the owner");
    assert_eq!(registry.verify_anchor_by_id(&a.anchor_id).unwrap_err(), KeyAnchorError::Revoked);
}

#[test]
fn test_register_then_lookup() {
    let mut registry = AnchorRegistry::new();
    let a = registry.register(&key_anchor_pk("hal"), "hal", 42).expect("register");
    assert_eq!(registry.len(), 1);
    let found = registry.lookup(&a.anchor_id).expect("lookup");
    assert_eq!(found.owner_id, "hal");
    assert_eq!(found.timestamp, 42);
    assert!(!found.revoked);
    assert_eq!(found.anchor_id, a.anchor_id);
    assert_eq!(registry.verify_anchor_by_id(&a.anchor_id).unwrap().anchor_id, a.anchor_id);
    assert_eq!(registry.register(&key_anchor_pk("hal"), "someone", 43).unwrap_err(), KeyAnchorError::AlreadyAnchored);
}
