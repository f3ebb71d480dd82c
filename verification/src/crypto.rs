//! Trusted boundary to the hashing, MAC and encoding crates.
//!
//! Every item here calls exactly one outside function.  Results that would take
//! pages to state (SHA-256, HMAC-SHA-256, base64url) are given names; the
//! contracts only add the facts the crates document (output sizes, the
//! encode/decode round trip).
use vstd::prelude::*;

use base64::Engine;
use hmac::Mac;
use sha2::Digest;

verus! {

/// The SHA-256 digest of a byte string, as computed by the `sha2` crate.
pub uninterp spec fn spec_sha256(data: Seq<u8>) -> Seq<u8>;

/// Two different byte strings with the same SHA-256 digest.
pub open spec fn sha256_collides(x: Seq<u8>, y: Seq<u8>) -> bool {
    x != y && spec_sha256(x) == spec_sha256(y)
}

/// The HMAC-SHA-256 tag of `data` under `key`, as computed by the `hmac` crate.
pub uninterp spec fn spec_hmac_sha256(key: Seq<u8>, data: Seq<u8>) -> Seq<u8>;

/// The unpadded base64url text of a byte string (`base64`'s `URL_SAFE_NO_PAD`).
pub uninterp spec fn spec_b64url_encode(data: Seq<u8>) -> Seq<char>;

/// What `URL_SAFE_NO_PAD` decodes a text to: `None` where the text is rejected.
pub uninterp spec fn spec_b64url_decode(text: Seq<char>) -> Option<Seq<u8>>;

/// Calls `sha2::Sha256::digest`.  Claims: the result is the named digest of
/// the input and is 32 bytes long (SHA-256's fixed output size).
#[verifier::external_body]
pub(crate) fn sha256(data: &[u8]) -> (out: Vec<u8>)
    ensures
        out@ == spec_sha256(data@),
        out@.len() == 32,
{
    sha2::Sha256::digest(data).to_vec()
}

/// Calls `hmac::Hmac::<Sha256>` (`new_from_slice`, one `update`, `finalize`).
/// `new_from_slice` accepts keys of every length, so the call never fails.
/// Claims: the result is the named tag and is 32 bytes long.
#[verifier::external_body]
pub(crate) fn hmac_sha256(key: &[u8], data: &[u8]) -> (tag: Vec<u8>)
    ensures
        tag@ == spec_hmac_sha256(key@, data@),
        tag@.len() == 32,
{
    let mut mac = <hmac::Hmac<sha2::Sha256> as Mac>::new_from_slice(key)
        .expect("HMAC accepts keys of any length");
    mac.update(data);
    mac.finalize().into_bytes().to_vec()
}

/// Calls `URL_SAFE_NO_PAD.encode`.  Claims: the text is the named encoding
/// of the input, and decoding it with the same engine gives the input back
/// (the round trip that the crate documents and tests).  The input bound
/// keeps the crate's output-size computation from overflowing.
#[verifier::external_body]
pub(crate) fn b64url_encode(data: &[u8]) -> (text: String)
    requires
        data@.len() <= usize::MAX / 4,
    ensures
        text@ == spec_b64url_encode(data@),
        spec_b64url_decode(text@) == Some(data@),
{
    base64::engine::general_purpose::URL_SAFE_NO_PAD.encode(data)
}

/// Calls `URL_SAFE_NO_PAD.decode`.  Claims: it succeeds exactly when the
/// named decoding is defined and then returns those bytes; on failure it
/// returns the crate's error message (left unsaid).
#[verifier::external_body]
pub(crate) fn b64url_decode(text: &str) -> (res: Result<Vec<u8>, String>)
    ensures
        res is Ok <==> spec_b64url_decode(text@) is Some,
        res matches Ok(bytes) ==> spec_b64url_decode(text@) == Some(bytes@),
{
    match base64::engine::general_purpose::URL_SAFE_NO_PAD.decode(text) {
        Ok(bytes) => Ok(bytes),
        Err(e) => Err(e.to_string()),
    }
}

/// Calls `std::time::SystemTime::now` and returns the seconds since the Unix
/// epoch (0 if the clock is before it).  Nothing is promised of the value.
#[verifier::external_body]
pub(crate) fn unix_now() -> u64 {
    std::time::SystemTime::now()
        .duration_since(std::time::UNIX_EPOCH)
        .map(|d| d.as_secs())
        .unwrap_or(0)
}

} // verus!
