use abir_guard::interop::did::{DidDocument, DidError, VerificationMethod, VerificationRelationship};
use abir_guard::interop::jwk::{JwkError, PqcAlgorithm, PqcJwk};

fn jwk(bytes: &[u8]) -> PqcJwk {
    PqcJwk::from_public(&PqcAlgorithm::MlKem1024, bytes, None).unwrap()
}

#[test]
fn test_did_contexts_and_empty_method_id() {
    let mut doc = DidDocument::new("did:example:z").unwrap();
    assert_eq!(doc.context, vec!["https://www.w3.org/ns/did/v1", "https://w3id.org/security/suites/jws-2020/v1"]);
    let err = doc.add_verification_method(VerificationMethod::new("", "did:example:z", jwk(b"k")), &[]).unwrap_err();
    assert_eq!(err, DidError::EmptyMethodId);
    assert!(doc.verification_methods.is_empty());
}

#[test]
fn test_add_then_get_then_remove() {
    let mut doc = DidDocument::new("did:example:z").unwrap();
    let m1 = VerificationMethod::new("did:example:z#a", "did:example:z", jwk(b"a"));
    let m2 = VerificationMethod::new("did:example:z#b", "did:example:z", jwk(b"b"));
    doc.add_verification_method(
        m1.clone(),
        &[VerificationRelationship::KeyAgreement, VerificationRelationship::CapabilityInvocation],
    )
    .unwrap();
    doc.add_verification_method(m2.clone(), &[VerificationRelationship::KeyAgreement]).unwrap();
    assert_eq!(doc.key_agreement, vec!["did:example:z#a", "did:example:z#b"]);
    assert!(doc.authentication.is_empty());
    assert_eq!(doc.get_method("did:example:z#b").unwrap(), &m2);
    assert_eq!(doc.get_method("did:example:z#a").unwrap().method_type, "JsonWebKey2020");
    doc.remove_method("did:example:z#a").unwrap();
    assert_eq!(doc.verification_methods, vec![m2]);
    assert_eq!(doc.key_agreement, vec!["did:example:z#b"]);
    assert_eq!(
        doc.get_method("did:example:z#a"),
        Err(DidError::VerificationMethodNotFound("did:example:z#a".to_string()))
    );
}

#[test]
fn test_jwk_fields_and_algorithms() {
    let j = PqcJwk::from_keypair(&PqcAlgorithm::MlKem1024, b"pk", b"sk", Some("kid-1".to_string())).unwrap();
    assert_eq!(j.kty, "OKP");
    assert_eq!(j.alg, "ML-KEM-1024");
    assert_eq!(j.crv, "ML-KEM-1024");
    assert_eq!(j.kid.as_deref(), Some("kid-1"));
    assert_eq!(j.decode_private_key().unwrap(), Some(b"sk".to_vec()));
    assert_eq!(j.algorithm(), Ok(PqcAlgorithm::MlKem1024));
    let mut other = j.clone();
    other.alg = "ml-kem-1024".to_string();
    assert_eq!(other.algorithm(), Err(JwkError::UnsupportedKeyType("ml-kem-1024".to_string())));
    assert_eq!(PqcJwk::from_keypair(&PqcAlgorithm::MlDsa65, b"", b"sk", None), Err(JwkError::EmptyKey));
}
