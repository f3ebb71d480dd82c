use abir_guard::advanced_secret_sharing::authenticate_share;
use abir_guard::confidential_computing::mpc::commitment_for;
use abir_guard::interop::jwk::{JwkError, PqcAlgorithm, PqcJwk};
use abir_guard::util::{hex_encode, with_decimal};

#[test]
fn test_commitment_is_sha256_digest() {
    let c = commitment_for(b"abc");
    assert_eq!(hex_encode(&c), "ba7816bf8f01cfea414140de5dae2223b00361a396177a9cb410ff61f20015ad");
}

#[test]
fn test_share_mac_is_hmac_sha256_over_fields() {
    let auth = authenticate_share("p1", b"secret-share", 3, b"reshare-v1", b"mac-key").unwrap();
    assert_eq!(
        hex_encode(&auth.mac),
        "afa16ec014643e5cc9bfd3f37437790d2f2ae0c281709133651eab4a48bc9022"
    );
}

#[test]
fn test_jwk_public_key_is_base64url_without_padding() {
    let jwk = PqcJwk::from_public(&PqcAlgorithm::MlDsa65, b"hello", None).unwrap();
    assert_eq!(jwk.x, "aGVsbG8");
    assert_eq!(jwk.decode_public_key().unwrap(), b"hello");
}

#[test]
fn test_jwk_invalid_base64_is_decode_error() {
    let mut jwk = PqcJwk::from_public(&PqcAlgorithm::MlDsa65, b"hello", None).unwrap();
    jwk.x = "not base64 !".to_string();
    assert!(matches!(jwk.decode_public_key(), Err(JwkError::DecodeError(_))));
    jwk.d = Some("***".to_string());
    assert!(matches!(jwk.decode_private_key(), Err(JwkError::DecodeError(_))));
}

#[test]
fn test_hex_and_decimal_text() {
    assert_eq!(hex_encode(&[0x00, 0x0f, 0xa0, 0xff]), "000fa0ff");
    assert_eq!(with_decimal("report-", 0), "report-0");
    assert_eq!(with_decimal("n=", 1234567890), "n=1234567890");
}
