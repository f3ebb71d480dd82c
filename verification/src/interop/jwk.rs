//! JWK-style records for post-quantum keys (`kty = "OKP"`, the algorithm in
//! `alg` and `crv`), with key material as unpadded base64url text under `x`
//! (public) and `d` (private).
use vstd::prelude::*;

use crate::crypto::{b64url_decode, b64url_encode, spec_b64url_decode, spec_b64url_encode};
use crate::util::{copy_str, str_eq};

verus! {

/// Errors of JWK operations.
#[derive(Debug, Clone, PartialEq, Eq)]
pub enum JwkError {
    /// The algorithm name is not supported.
    UnsupportedKeyType(String),
    /// A required member is missing or malformed.
    MissingField(String),
    /// Base64url decoding failed with this message.
    DecodeError(String),
    /// Key bytes must not be empty.
    EmptyKey,
}

/// Supported post-quantum key algorithms.
#[derive(Debug, Clone, Copy, PartialEq, Eq, Structural)]
pub enum PqcAlgorithm {
    /// ML-DSA-65 (FIPS 204, category 3).
    MlDsa65,
    /// ML-KEM-1024 (FIPS 203, category 5).
    MlKem1024,
}

/// The JWK algorithm name of an algorithm.
pub open spec fn alg_name(a: PqcAlgorithm) -> Seq<char> {
    match a {
        PqcAlgorithm::MlDsa65 => "ML-DSA-65"@,
        PqcAlgorithm::MlKem1024 => "ML-KEM-1024"@,
    }
}

/// The algorithm a JWK algorithm name denotes, if any.
pub open spec fn parse_alg(s: Seq<char>) -> Option<PqcAlgorithm> {
    if s == "ML-DSA-65"@ {
        Some(PqcAlgorithm::MlDsa65)
    } else if s == "ML-KEM-1024"@ {
        Some(PqcAlgorithm::MlKem1024)
    } else {
        None
    }
}

impl PqcAlgorithm {
    fn alg_str(&self) -> (s: &'static str)
        ensures
            s@ == alg_name(*self),
    {
        match self {
            PqcAlgorithm::MlDsa65 => "ML-DSA-65",
            PqcAlgorithm::MlKem1024 => "ML-KEM-1024",
        }
    }

    fn from_str(s: &str) -> (res: Result<Self, JwkError>)
        ensures
            match parse_alg(s@) {
                Some(a) => res == Ok::<PqcAlgorithm, JwkError>(a),
                None => (res matches Err(JwkError::UnsupportedKeyType(m)) && m@ == s@),
            },
    {
        if str_eq(s, "ML-DSA-65") {
            Ok(PqcAlgorithm::MlDsa65)
        } else if str_eq(s, "ML-KEM-1024") {
            Ok(PqcAlgorithm::MlKem1024)
        } else {
            Err(JwkError::UnsupportedKeyType(copy_str(s)))
        }
    }
}

/// Every algorithm name parses back to its algorithm.
pub proof fn lemma_alg_name_parses(a: PqcAlgorithm)
    ensures
        parse_alg(alg_name(a)) == Some(a),
{
    reveal_strlit("ML-DSA-65");
    reveal_strlit("ML-KEM-1024");
    if a == PqcAlgorithm::MlKem1024 {
        assert("ML-KEM-1024"@ != "ML-DSA-65"@) by {
            assert("ML-KEM-1024"@.len() != "ML-DSA-65"@.len());
        }
    }
}

/// A JWK-encoded post-quantum key.
#[derive(Debug, Clone, PartialEq, Eq)]
pub struct PqcJwk {
    /// Key type, `OKP` for PQC keys.
    pub kty: String,
    /// Algorithm identifier.
    pub alg: String,
    /// Parameter set (mirrors `alg`).
    pub crv: String,
    /// Base64url public key.
    pub x: String,
    /// Base64url private key; `None` for public-only keys.
    pub d: Option<String>,
    /// Optional key identifier.
    pub kid: Option<String>,
}

/// Mathematical view of a [`PqcJwk`].
pub struct PqcJwkView {
    pub kty: Seq<char>,
    pub alg: Seq<char>,
    pub crv: Seq<char>,
    pub x: Seq<char>,
    pub d: Option<Seq<char>>,
    pub kid: Option<Seq<char>>,
}

/// The view of an optional string.
pub open spec fn opt_view(o: Option<String>) -> Option<Seq<char>> {
    match o {
        Some(s) => Some(s@),
        None => None,
    }
}

impl View for PqcJwk {
    type V = PqcJwkView;

    open spec fn view(&self) -> PqcJwkView {
        PqcJwkView {
            kty: self.kty@,
            alg: self.alg@,
            crv: self.crv@,
            x: self.x@,
            d: opt_view(self.d),
            kid: opt_view(self.kid),
        }
    }
}

/// The JWK of a key: `OKP`, the algorithm in `alg` and `crv`, the public key
/// in `x` and the private key, if any, in `d`.
pub open spec fn jwk_of(
    algorithm: PqcAlgorithm,
    public_key: Seq<u8>,
    private_key: Option<Seq<u8>>,
    kid: Option<Seq<char>>,
) -> PqcJwkView {
    PqcJwkView {
        kty: "OKP"@,
        alg: alg_name(algorithm),
        crv: alg_name(algorithm),
        x: spec_b64url_encode(public_key),
        d: match private_key {
            Some(k) => Some(spec_b64url_encode(k)),
            None => None,
        },
        kid,
    }
}

fn opt_copy(o: &Option<String>) -> (r: Option<String>)
    ensures
        opt_view(r) == opt_view(*o),
{
    match o {
        Some(s) => Some(copy_str(s.as_str())),
        None => None,
    }
}

impl PqcJwk {
    /// Export a public key.  Fails with `EmptyKey` on an empty key.
    pub fn from_public(algorithm: &PqcAlgorithm, public_key: &[u8], kid: Option<String>) -> (res: Result<
        Self,
        JwkError,
    >)
        requires
            public_key@.len() <= usize::MAX / 4,
        ensures
            public_key@.len() == 0 ==> res == Err::<PqcJwk, JwkError>(JwkError::EmptyKey),
            public_key@.len() > 0 ==> (res matches Ok(j) && j@ == jwk_of(*algorithm, public_key@, None, opt_view(kid))
                && spec_b64url_decode(j.x@) == Some(public_key@)),
    {
        if public_key.len() == 0 {
            return Err(JwkError::EmptyKey);
        }
        let x = b64url_encode(public_key);
        let r = PqcJwk {
            kty: copy_str("OKP"),
            alg: copy_str(algorithm.alg_str()),
            crv: copy_str(algorithm.alg_str()),
            x,
            d: None,
            kid,
        };
        Ok(r)
    }

    /// Export a key pair.  Fails with `EmptyKey` when either key is empty.
    pub fn from_keypair(
        algorithm: &PqcAlgorithm,
        public_key: &[u8],
        private_key: &[u8],
        kid: Option<String>,
    ) -> (res: Result<Self, JwkError>)
        requires
            public_key@.len() <= usize::MAX / 4,
            private_key@.len() <= usize::MAX / 4,
        ensures
            public_key@.len() == 0 || private_key@.len() == 0 ==> res == Err::<PqcJwk, JwkError>(
                JwkError::EmptyKey,
            ),
            public_key@.len() > 0 && private_key@.len() > 0 ==> (res matches Ok(j) && j@ == jwk_of(
                *algorithm,
                public_key@,
                Some(private_key@),
                opt_view(kid),
            ) && spec_b64url_decode(j.x@) == Some(public_key@) && (j.d matches Some(d) && spec_b64url_decode(d@)
                == Some(private_key@))),
    {
        if public_key.len() == 0 || private_key.len() == 0 {
            return Err(JwkError::EmptyKey);
        }
        let x = b64url_encode(public_key);
        let d = b64url_encode(private_key);
        Ok(
            PqcJwk {
                kty: copy_str("OKP"),
                alg: copy_str(algorithm.alg_str()),
                crv: copy_str(algorithm.alg_str()),
                x,
                d: Some(d),
                kid,
            },
        )
    }

    /// Decode the public key.  Fails with `DecodeError` on invalid base64url.
    pub fn decode_public_key(&self) -> (res: Result<Vec<u8>, JwkError>)
        ensures
            spec_b64url_decode(self.x@) matches Some(b) ==> (res matches Ok(v) && v@ == b),
            spec_b64url_decode(self.x@) is None ==> res matches Err(JwkError::DecodeError(_)),
    {
        match b64url_decode(self.x.as_str()) {
            Ok(bytes) => Ok(bytes),
            Err(msg) => Err(JwkError::DecodeError(msg)),
        }
    }

    /// Decode the private key: `None` for a public-only key.  Fails with
    /// `DecodeError` on invalid base64url.
    pub fn decode_private_key(&self) -> (res: Result<Option<Vec<u8>>, JwkError>)
        ensures
            self.d is None ==> (res matches Ok(None)),
            self.d matches Some(d) ==> match spec_b64url_decode(d@) {
                Some(b) => (res matches Ok(Some(v)) && v@ == b),
                None => res matches Err(JwkError::DecodeError(_)),
            },
    {
        match &self.d {
            None => Ok(None),
            Some(d) => match b64url_decode(d.as_str()) {
                Ok(bytes) => Ok(Some(bytes)),
                Err(msg) => Err(JwkError::DecodeError(msg)),
            },
        }
    }

    /// The algorithm named in `alg`.  Fails with `UnsupportedKeyType` for an
    /// unknown name.
    pub fn algorithm(&self) -> (res: Result<PqcAlgorithm, JwkError>)
        ensures
            match parse_alg(self.alg@) {
                Some(a) => res == Ok::<PqcAlgorithm, JwkError>(a),
                None => (res matches Err(JwkError::UnsupportedKeyType(m)) && m@ == self.alg@),
            },
    {
        PqcAlgorithm::from_str(self.alg.as_str())
    }

    /// A copy of the key.
    pub fn duplicate(&self) -> (r: Self)
        ensures
            r@ == self@,
    {
        PqcJwk {
            kty: copy_str(self.kty.as_str()),
            alg: copy_str(self.alg.as_str()),
            crv: copy_str(self.crv.as_str()),
            x: copy_str(self.x.as_str()),
            d: opt_copy(&self.d),
            kid: opt_copy(&self.kid),
        }
    }
}

} // verus!
