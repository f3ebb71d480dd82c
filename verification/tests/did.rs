use abir_guard::interop::did::{DidDocument, DidError, VerificationMethod, VerificationRelationship};
use abir_guard::interop::jwk::{PqcAlgorithm, PqcJwk};

fn make_jwk(label: &str) -> PqcJwk {
    let key_bytes = format!("fake-public-key-{label}").into_bytes();
    PqcJwk::from_public(&PqcAlgorithm::MlDsa65, &key_bytes, Some(label.into()))
        .expect("from_public")
}

fn make_method(did: &str, fragment: &str) -> VerificationMethod {
    let id = format!("{did}#{fragment}");
    VerificationMethod::new(&id, did, make_jwk(fragment))
}

#[test]
fn test_create_did_document() {
    let doc = DidDocument::new("did:example:alice").expect("new");
    assert_eq!(doc.id, "did:example:alice");
    assert_eq!(doc.context.len(), 2);
    assert!(doc.verification_methods.is_empty());
}

#[test]
fn test_add_verification_method_authentication() {
    let mut doc = DidDocument::new("did:example:alice").unwrap();
    let method = make_method("did:example:alice", "key-1");
    doc.add_verification_method(
        method,
        &[VerificationRelationship::Authentication],
    )
    .expect("add method");
    assert_eq!(doc.verification_methods.len(), 1);
    assert_eq!(doc.authentication, vec!["did:example:alice#key-1"]);
    assert!(doc.assertion_method.is_empty());
}

#[test]
fn test_add_multiple_relationships() {
    let mut doc = DidDocument::new("did:example:bob").unwrap();
    let method = make_method("did:example:bob", "key-1");
    doc.add_verification_method(
        method,
        &[
            VerificationRelationship::Authentication,
            VerificationRelationship::AssertionMethod,
        ],
    )
    .expect("add method");
    assert_eq!(doc.authentication.len(), 1);
    assert_eq!(doc.assertion_method.len(), 1);
}

#[test]
fn test_duplicate_method_rejected() {
    let mut doc = DidDocument::new("did:example:carol").unwrap();
    let m1 = make_method("did:example:carol", "key-1");
    let m2 = make_method("did:example:carol", "key-1");
    doc.add_verification_method(m1, &[]).expect("first");
    let err = doc
        .add_verification_method(m2, &[])
        .expect_err("duplicate");
    assert!(matches!(err, DidError::DuplicateVerificationMethod(_)));
}

#[test]
fn test_get_method_found() {
    let mut doc = DidDocument::new("did:example:dan").unwrap();
    let method = make_method("did:example:dan", "key-1");
    doc.add_verification_method(method, &[]).unwrap();
    let found = doc
        .get_method("did:example:dan#key-1")
        .expect("get method");
    assert_eq!(found.method_type, "JsonWebKey2020");
}

#[test]
fn test_get_method_not_found() {
    let doc = DidDocument::new("did:example:eve").unwrap();
    let err = doc.get_method("did:example:eve#missing").expect_err("not found");
    assert!(matches!(err, DidError::VerificationMethodNotFound(_)));
}

#[test]
fn test_remove_method_clears_relationships() {
    let mut doc = DidDocument::new("did:example:frank").unwrap();
    let method = make_method("did:example:frank", "key-1");
    doc.add_verification_method(
        method,
        &[
            VerificationRelationship::Authentication,
            VerificationRelationship::KeyAgreement,
        ],
    )
    .unwrap();
    doc.remove_method("did:example:frank#key-1").expect("remove");
    assert!(doc.verification_methods.is_empty());
    assert!(doc.authentication.is_empty());
    assert!(doc.key_agreement.is_empty());
}

#[test]
fn test_remove_nonexistent_returns_error() {
    let mut doc = DidDocument::new("did:example:grace").unwrap();
    let err = doc.remove_method("did:example:grace#ghost").expect_err("not found");
    assert!(matches!(err, DidError::VerificationMethodNotFound(_)));
}

#[test]
fn test_empty_did_rejected() {
    let err = DidDocument::new("").expect_err("empty DID");
    assert_eq!(err, DidError::EmptyDid);
}
