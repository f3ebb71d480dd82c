use abir_guard::interop::jwk::{JwkError, PqcAlgorithm, PqcJwk};
use base64::engine::general_purpose::URL_SAFE_NO_PAD;
use base64::Engine;

const FAKE_PK: &[u8] = b"ml-dsa-public-key-bytes-32------";
const FAKE_SK: &[u8] = b"ml-dsa-secret-key-bytes-64------";

#[test]
fn test_public_jwk_roundtrip() {
    let jwk = PqcJwk::from_public(&PqcAlgorithm::MlDsa65, FAKE_PK, Some("key-1".into()))
        .expect("from_public");
    assert_eq!(jwk.kty, "OKP");
    assert_eq!(jwk.alg, "ML-DSA-65");
    assert!(jwk.d.is_none());
    let decoded = jwk.decode_public_key().expect("decode");
    assert_eq!(decoded, FAKE_PK);
}

#[test]
fn test_keypair_jwk_roundtrip() {
    let jwk = PqcJwk::from_keypair(&PqcAlgorithm::MlDsa65, FAKE_PK, FAKE_SK, None)
        .expect("from_keypair");
    assert!(jwk.d.is_some());
    let decoded_pk = jwk.decode_public_key().expect("decode pk");
    let decoded_sk = jwk.decode_private_key().expect("decode sk").unwrap();
    assert_eq!(decoded_pk, FAKE_PK);
    assert_eq!(decoded_sk, FAKE_SK);
}

#[test]
fn test_mlkem_public_jwk() {
    let jwk = PqcJwk::from_public(&PqcAlgorithm::MlKem1024, FAKE_PK, None)
        .expect("from_public");
    assert_eq!(jwk.alg, "ML-KEM-1024");
    assert_eq!(jwk.algorithm().expect("alg"), PqcAlgorithm::MlKem1024);
}

#[test]
fn test_empty_public_key_rejected() {
    let err = PqcJwk::from_public(&PqcAlgorithm::MlDsa65, b"", None)
        .expect_err("empty key");
    assert_eq!(err, JwkError::EmptyKey);
}

#[test]
fn test_empty_private_key_rejected() {
    let err = PqcJwk::from_keypair(&PqcAlgorithm::MlDsa65, FAKE_PK, b"", None)
        .expect_err("empty sk");
    assert_eq!(err, JwkError::EmptyKey);
}

#[test]
fn test_public_only_decode_private_returns_none() {
    let jwk = PqcJwk::from_public(&PqcAlgorithm::MlDsa65, FAKE_PK, None).unwrap();
    let sk = jwk.decode_private_key().expect("no error");
    assert!(sk.is_none());
}

#[test]
fn test_unknown_alg_returns_error() {
    let jwk = PqcJwk {
        kty: "OKP".into(),
        alg: "SomeUnknownAlg".into(),
        crv: "SomeUnknownAlg".into(),
        x: URL_SAFE_NO_PAD.encode(FAKE_PK),
        d: None,
        kid: None,
    };
    let err = jwk.algorithm().expect_err("unknown alg");
    assert!(matches!(err, JwkError::UnsupportedKeyType(_)));
}
