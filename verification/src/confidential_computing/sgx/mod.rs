//! Intel SGX 2.0 enclave model with remote attestation (DCAP or IAS).
//!
//! The enclave runs in simulator mode: key generation, quotes, sealing and
//! signing return placeholder material of the documented shapes.
use vstd::prelude::*;

use crate::crypto::{hmac_sha256, sha256, spec_hmac_sha256, spec_sha256, unix_now};
use crate::util::{bytes_eq, concat2, copy_bytes, copy_str, push_bytes, zeros};

pub mod enclave_interface;
pub mod quote_verifier;
pub mod attestation;
pub mod sealed_storage;

pub use quote_verifier::{
    verify_quote_standard, verify_quote_strict, QuoteValidationPolicy, QuoteVerificationResult, QuoteVerifier,
};

verus! {

/// SGX-specific errors; each carries a message.
#[derive(Debug, Clone, PartialEq, Eq)]
pub enum EnclaveError {
    InitializationFailed(String),
    OperationFailed(String),
    AttestationFailed(String),
    QuoteGenerationFailed(String),
    QuoteVerificationFailed(String),
    SealedStorageError(String),
    InvalidState(String),
    CommunicationError(String),
    CryptoError(String),
}

/// The human-readable text of an enclave error.
pub open spec fn enclave_error_text(e: EnclaveError) -> Seq<char> {
    match e {
        EnclaveError::InitializationFailed(m) => "Enclave initialization failed: "@ + m@,
        EnclaveError::OperationFailed(m) => "Enclave operation failed: "@ + m@,
        EnclaveError::AttestationFailed(m) => "Attestation failed: "@ + m@,
        EnclaveError::QuoteGenerationFailed(m) => "Quote generation failed: "@ + m@,
        EnclaveError::QuoteVerificationFailed(m) => "Quote verification failed: "@ + m@,
        EnclaveError::SealedStorageError(m) => "Sealed storage error: "@ + m@,
        EnclaveError::InvalidState(m) => "Invalid enclave state: "@ + m@,
        EnclaveError::CommunicationError(m) => "Communication error: "@ + m@,
        EnclaveError::CryptoError(m) => "Cryptographic error: "@ + m@,
    }
}

impl EnclaveError {
    /// The error's message text.
    pub fn to_message(&self) -> (s: String)
        ensures
            s@ == enclave_error_text(*self),
    {
        match self {
            EnclaveError::InitializationFailed(m) => concat2("Enclave initialization failed: ", m.as_str()),
            EnclaveError::OperationFailed(m) => concat2("Enclave operation failed: ", m.as_str()),
            EnclaveError::AttestationFailed(m) => concat2("Attestation failed: ", m.as_str()),
            EnclaveError::QuoteGenerationFailed(m) => concat2("Quote generation failed: ", m.as_str()),
            EnclaveError::QuoteVerificationFailed(m) => concat2("Quote verification failed: ", m.as_str()),
            EnclaveError::SealedStorageError(m) => concat2("Sealed storage error: ", m.as_str()),
            EnclaveError::InvalidState(m) => concat2("Invalid enclave state: ", m.as_str()),
            EnclaveError::CommunicationError(m) => concat2("Communication error: ", m.as_str()),
            EnclaveError::CryptoError(m) => concat2("Cryptographic error: ", m.as_str()),
        }
    }
}

/// Attestation service provider.
#[derive(Debug, Clone, Copy, PartialEq, Eq, Structural)]
pub enum AttestationProvider {
    /// Data Center Attestation Primitives.
    DCAP,
    /// Intel Attestation Service.
    IAS,
}

/// Attestation configuration.
#[derive(Debug, Clone)]
pub struct AttestationConfig {
    /// Attestation service provider.
    pub provider: AttestationProvider,
    /// IAS subscription key (needed for IAS).
    pub ias_api_key: Option<String>,
    /// DCAP collateral URL (needed for DCAP).
    pub dcap_collateral_url: Option<String>,
    /// Allow outdated PCK certificates (development only).
    pub allow_outdated_pcks: bool,
}

impl AttestationConfig {
    /// DCAP configuration with Intel's v4 certification endpoint.
    pub fn dcap() -> (c: Self)
        ensures
            c.provider == AttestationProvider::DCAP,
            c.ias_api_key is None,
            c.dcap_collateral_url matches Some(u)
                && u@ == "https://api.trustedservices.intel.com/sgx/certification/v4"@,
            !c.allow_outdated_pcks,
    {
        AttestationConfig {
            provider: AttestationProvider::DCAP,
            ias_api_key: None,
            dcap_collateral_url: Some(copy_str("https://api.trustedservices.intel.com/sgx/certification/v4")),
            allow_outdated_pcks: false,
        }
    }

    /// IAS configuration with the given subscription key.
    pub fn ias(api_key: String) -> (c: Self)
        ensures
            c.provider == AttestationProvider::IAS,
            c.ias_api_key == Some(api_key),
            c.dcap_collateral_url is None,
            !c.allow_outdated_pcks,
    {
        AttestationConfig {
            provider: AttestationProvider::IAS,
            ias_api_key: Some(api_key),
            dcap_collateral_url: None,
            allow_outdated_pcks: false,
        }
    }

    /// The same configuration with outdated PCK certificates allowed.
    pub fn with_development_mode(self) -> (c: Self)
        ensures
            c.allow_outdated_pcks,
            c.provider == self.provider,
            c.ias_api_key == self.ias_api_key,
            c.dcap_collateral_url == self.dcap_collateral_url,
    {
        let mut c = self;
        c.allow_outdated_pcks = true;
        c
    }
}

/// PCR (platform configuration register) values.
#[derive(Debug, Clone, Copy)]
pub struct PcrValues {
    /// PCR 0 (firmware).
    pub pcr0: [u8; 32],
    /// PCR 1 (configuration).
    pub pcr1: [u8; 32],
    /// PCR 2 (bootloader).
    pub pcr2: [u8; 32],
}

/// PCR policy for sealing: `None` leaves a register unchecked.
#[derive(Debug, Clone, Copy)]
pub struct PcrPolicy {
    pub pcr0: Option<[u8; 32]>,
    pub pcr1: Option<[u8; 32]>,
    pub pcr2: Option<[u8; 32]>,
}

/// One register meets its expectation.
pub open spec fn pcr_ok(value: [u8; 32], expected: Option<[u8; 32]>) -> bool {
    match expected {
        Some(e) => value@ == e@,
        None => true,
    }
}

/// Every register named by the policy holds the expected value.
pub open spec fn pcr_matches(values: PcrValues, policy: PcrPolicy) -> bool {
    &&& pcr_ok(values.pcr0, policy.pcr0)
    &&& pcr_ok(values.pcr1, policy.pcr1)
    &&& pcr_ok(values.pcr2, policy.pcr2)
}

/// A policy is met exactly when every register it names holds the named
/// value: naming a value for PCR0, PCR1 or PCR2 that the register does not
/// hold fails the policy, and registers it leaves open do not matter.
pub proof fn lemma_policy_checks_each_register(values: PcrValues, policy: PcrPolicy)
    ensures
        policy.pcr0 matches Some(e) && values.pcr0@ != e@ ==> !pcr_matches(values, policy),
        policy.pcr1 matches Some(e) && values.pcr1@ != e@ ==> !pcr_matches(values, policy),
        policy.pcr2 matches Some(e) && values.pcr2@ != e@ ==> !pcr_matches(values, policy),
        (policy.pcr0 matches Some(e) ==> values.pcr0@ == e@) && (policy.pcr1 matches Some(e) ==> values.pcr1@
            == e@) && (policy.pcr2 matches Some(e) ==> values.pcr2@ == e@) ==> pcr_matches(values, policy),
{
}

fn pcr_register_ok(value: &[u8; 32], expected: &Option<[u8; 32]>) -> (r: bool)
    ensures
        r == pcr_ok(*value, *expected),
{
    match expected {
        Some(e) => bytes_eq(value.as_slice(), e.as_slice()),
        None => true,
    }
}

/// The bytes that bind one register expectation: 0 for none, else 1 and the
/// expected value.
pub open spec fn register_bytes(r: Option<[u8; 32]>) -> Seq<u8> {
    match r {
        None => seq![0u8],
        Some(v) => seq![1u8] + v@,
    }
}

/// The bytes that bind a PCR policy into a sealed blob.
pub open spec fn policy_bytes(p: PcrPolicy) -> Seq<u8> {
    register_bytes(p.pcr0) + register_bytes(p.pcr1) + register_bytes(p.pcr2)
}

fn push_register(v: &mut Vec<u8>, r: &Option<[u8; 32]>)
    ensures
        final(v)@ == old(v)@ + register_bytes(*r),
{
    match r {
        None => {
            v.push(0u8);
            assert(v@ =~= old(v)@ + seq![0u8]);
        },
        Some(x) => {
            v.push(1u8);
            push_bytes(v, x.as_slice());
            assert(v@ =~= old(v)@ + (seq![1u8] + x@));
        },
    }
}

/// The encoding of `p` that sealing authenticates.
pub(crate) fn encode_policy(p: &PcrPolicy) -> (b: Vec<u8>)
    ensures
        b@ == policy_bytes(*p),
{
    let mut b: Vec<u8> = Vec::new();
    push_register(&mut b, &p.pcr0);
    push_register(&mut b, &p.pcr1);
    push_register(&mut b, &p.pcr2);
    assert(b@ =~= policy_bytes(*p));
    b
}

/// The sealing key of the simulated platform (the ASCII text
/// `sgx-sim-seal-key`); real hardware derives it inside the enclave.
pub open spec fn sealing_key() -> Seq<u8> {
    seq![115u8, 103u8, 120u8, 45u8, 115u8, 105u8, 109u8, 45u8, 115u8, 101u8, 97u8, 108u8, 45u8, 107u8, 101u8, 121u8]
}

/// The 16-byte authentication tag of sealed content: the first half of its
/// HMAC-SHA-256 under the sealing key.
pub open spec fn seal_tag(content: Seq<u8>) -> Seq<u8> {
    spec_hmac_sha256(sealing_key(), content).take(16)
}

/// Computes [`seal_tag`].
pub(crate) fn compute_seal_tag(content: &[u8]) -> (t: Vec<u8>)
    ensures
        t@ == seal_tag(content@),
        t@.len() == 16,
{
    let key: [u8; 16] = [115u8, 103u8, 120u8, 45u8, 115u8, 105u8, 109u8, 45u8, 115u8, 101u8, 97u8, 108u8, 45u8, 107u8, 101u8, 121u8];
    assert(key@ =~= sealing_key());
    let mac = hmac_sha256(key.as_slice(), content);
    let t = copy_bytes(vstd::slice::slice_subrange(mac.as_slice(), 0, 16));
    assert(t@ =~= seal_tag(content@));
    t
}

/// The 12 zero bytes of a simulated sealing nonce.
pub open spec fn zero_nonce() -> Seq<u8> {
    Seq::new(12, |i: int| 0u8)
}

/// The blob `Enclave::seal_data` makes of `plaintext` under `policy`:
/// `nonce(12) | ciphertext | tag(16) | policy hash(32)`, with a zero nonce,
/// the plaintext as ciphertext (simulator mode), the tag over nonce,
/// ciphertext and policy hash.
pub open spec fn enclave_sealed(plaintext: Seq<u8>, policy: PcrPolicy) -> Seq<u8> {
    let h = spec_sha256(policy_bytes(policy));
    zero_nonce() + plaintext + seal_tag(zero_nonce() + plaintext + h) + h
}

/// What `Enclave::unseal_data` finds in a blob of at least 60 bytes: the
/// ciphertext when the stored tag matches the one recomputed over nonce,
/// ciphertext and policy hash, else `None` (tampering).
pub open spec fn enclave_unsealed(blob: Seq<u8>) -> Option<Seq<u8>> {
    let l = blob.len() as int;
    let ct = blob.subrange(12, l - 48);
    let h = blob.subrange(l - 32, l);
    if blob.subrange(l - 48, l - 32) == seal_tag(blob.subrange(0, 12) + ct + h) {
        Some(ct)
    } else {
        None
    }
}

/// Altering a byte of the tag of a blob that unseals makes it fail to
/// unseal: the tag it is checked against does not change.
pub proof fn lemma_altered_tag_rejected(blob: Seq<u8>, i: int, x: u8)
    requires
        blob.len() >= 60,
        enclave_unsealed(blob) is Some,
        blob.len() - 48 <= i < blob.len() - 32,
        blob[i] != x,
    ensures
        enclave_unsealed(blob.update(i, x)) is None,
{
    let l = blob.len() as int;
    let b2 = blob.update(i, x);
    assert(b2.subrange(0, 12) =~= blob.subrange(0, 12));
    assert(b2.subrange(12, l - 48) =~= blob.subrange(12, l - 48));
    assert(b2.subrange(l - 32, l) =~= blob.subrange(l - 32, l));
    assert(b2.subrange(l - 48, l - 32)[i - (l - 48)] != blob.subrange(l - 48, l - 32)[i - (l - 48)]);
}

impl PcrValues {
    /// PCR values from three registers.
    pub fn new(pcr0: [u8; 32], pcr1: [u8; 32], pcr2: [u8; 32]) -> (v: Self)
        ensures
            v.pcr0 == pcr0,
            v.pcr1 == pcr1,
            v.pcr2 == pcr2,
    {
        PcrValues { pcr0, pcr1, pcr2 }
    }

    /// Whether these values satisfy `policy`.
    pub fn matches_policy(&self, policy: &PcrPolicy) -> (r: bool)
        ensures
            r == pcr_matches(*self, *policy),
    {
        if !pcr_register_ok(&self.pcr0, &policy.pcr0) {
            return false;
        }
        if !pcr_register_ok(&self.pcr1, &policy.pcr1) {
            return false;
        }
        pcr_register_ok(&self.pcr2, &policy.pcr2)
    }
}

impl PcrPolicy {
    /// The policy that checks no register.
    pub fn any() -> (p: Self)
        ensures
            p.pcr0 is None,
            p.pcr1 is None,
            p.pcr2 is None,
    {
        PcrPolicy { pcr0: None, pcr1: None, pcr2: None }
    }

    /// The policy that checks all three registers.
    pub fn strict(pcr0: [u8; 32], pcr1: [u8; 32], pcr2: [u8; 32]) -> (p: Self)
        ensures
            p.pcr0 == Some(pcr0),
            p.pcr1 == Some(pcr1),
            p.pcr2 == Some(pcr2),
    {
        PcrPolicy { pcr0: Some(pcr0), pcr1: Some(pcr1), pcr2: Some(pcr2) }
    }
}

/// Any PCR values satisfy the empty policy.
pub proof fn lemma_any_policy_matches(values: PcrValues)
    ensures
        pcr_matches(values, PcrPolicy { pcr0: None, pcr1: None, pcr2: None }),
{
}

/// PCR values satisfy the strict policy built from themselves.
pub proof fn lemma_strict_policy_matches_itself(values: PcrValues)
    ensures
        pcr_matches(
            values,
            PcrPolicy { pcr0: Some(values.pcr0), pcr1: Some(values.pcr1), pcr2: Some(values.pcr2) },
        ),
{
}

/// An SGX quote.
#[derive(Debug, Clone)]
pub struct Quote {
    /// Raw quote bytes.
    pub quote: Vec<u8>,
    /// Quote signature.
    pub signature: Vec<u8>,
    /// Signing certificate chain.
    pub cert_chain: Vec<u8>,
    /// User data embedded in the quote.
    pub user_data: Vec<u8>,
    /// PCR values at quote time.
    pub pcr_values: PcrValues,
    /// Generation time (seconds since the Unix epoch).
    pub timestamp: u64,
}

impl Quote {
    /// The raw quote bytes.
    pub fn as_bytes(&self) -> (b: &[u8])
        ensures
            b@ == self.quote@,
    {
        self.quote.as_slice()
    }

    /// The quote signature.
    pub fn signature(&self) -> (b: &[u8])
        ensures
            b@ == self.signature@,
    {
        self.signature.as_slice()
    }

    /// The PCR values at quote time.
    pub fn pcr_values(&self) -> (p: &PcrValues)
        ensures
            *p == self.pcr_values,
    {
        &self.pcr_values
    }
}

/// The error an operation on an uninitialized enclave returns.
pub open spec fn not_initialized_error(e: EnclaveError) -> bool {
    e matches EnclaveError::InvalidState(m) && m@ == "Enclave not initialized"@
}

/// An SGX enclave (simulator mode).
#[derive(Debug)]
pub struct Enclave {
    config: AttestationConfig,
    enclave_id: u64,
    is_initialized: bool,
}

impl Enclave {
    /// The configuration the enclave was created with.
    pub closed spec fn spec_config(&self) -> AttestationConfig {
        self.config
    }

    /// Whether the enclave is initialized.
    pub closed spec fn spec_initialized(&self) -> bool {
        self.is_initialized
    }

    /// The enclave identifier.
    pub closed spec fn spec_id(&self) -> u64 {
        self.enclave_id
    }

    /// Create an enclave in simulator mode: it is initialized with id 1.
    pub fn initialize(config: AttestationConfig) -> (res: Result<Self, EnclaveError>)
        ensures
            res matches Ok(e) && e.spec_initialized() && e.spec_id() == 1 && e.spec_config() == config,
    {
        Ok(Enclave { config, enclave_id: 1, is_initialized: true })
    }

    /// Whether the enclave is initialized.
    pub fn is_initialized(&self) -> (b: bool)
        ensures
            b == self.spec_initialized(),
    {
        self.is_initialized
    }

    /// The enclave identifier.
    pub fn enclave_id(&self) -> (id: u64)
        ensures
            id == self.spec_id(),
    {
        self.enclave_id
    }

    /// The active attestation configuration.
    pub fn attestation_config(&self) -> (c: &AttestationConfig)
        ensures
            *c == self.spec_config(),
    {
        &self.config
    }

    /// Generate a key pair inside the enclave; returns the public and the
    /// secret key handles `pub_<key_id>` and `sec_<key_id>`.
    pub fn generate_keypair(&self, key_id: &str) -> (res: Result<(String, String), EnclaveError>)
        ensures
            !self.spec_initialized() ==> (res matches Err(e) && not_initialized_error(e)),
            self.spec_initialized() ==> (res matches Ok((p, s)) && p@ == "pub_"@ + key_id@ && s@
                == "sec_"@ + key_id@),
    {
        if !self.is_initialized {
            return Err(EnclaveError::InvalidState(copy_str("Enclave not initialized")));
        }
        Ok((concat2("pub_", key_id), concat2("sec_", key_id)))
    }

    /// Produce an attestation quote: a 1024-byte quote and a 256-byte
    /// signature (both zero in simulator mode), no certificate chain, 32 bytes
    /// of zero user data, zero PCR values and the current time.
    pub fn get_quote(&self) -> (res: Result<Quote, EnclaveError>)
        ensures
            !self.spec_initialized() ==> (res matches Err(e) && not_initialized_error(e)),
            self.spec_initialized() ==> (res matches Ok(q) && {
                &&& q.quote@ == Seq::new(1024, |i: int| 0u8)
                &&& q.signature@ == Seq::new(256, |i: int| 0u8)
                &&& q.cert_chain@.len() == 0
                &&& q.user_data@ == Seq::new(32, |i: int| 0u8)
                &&& q.pcr_values.pcr0@ == Seq::new(32, |i: int| 0u8)
                &&& q.pcr_values.pcr1@ == Seq::new(32, |i: int| 0u8)
                &&& q.pcr_values.pcr2@ == Seq::new(32, |i: int| 0u8)
            }),
    {
        if !self.is_initialized {
            return Err(EnclaveError::InvalidState(copy_str("Enclave not initialized")));
        }
        let z: [u8; 32] = [0u8; 32];
        assert(z@ =~= Seq::new(32, |i: int| 0u8));
        Ok(
            Quote {
                quote: zeros(1024),
                signature: zeros(256),
                cert_chain: Vec::new(),
                user_data: zeros(32),
                pcr_values: PcrValues::new(z, z, z),
                timestamp: unix_now(),
            },
        )
    }

    /// Seal data to this enclave: the blob is
    /// `nonce(12) | ciphertext | tag(16) | policy hash(32)` as
    /// [`enclave_sealed`] describes, 60 bytes longer than the plaintext;
    /// unsealing it gives the plaintext back.
    pub fn seal_data(&self, plaintext: &[u8], pcr_policy: &PcrPolicy) -> (res: Result<Vec<u8>, EnclaveError>)
        requires
            plaintext@.len() + 60 <= usize::MAX,
        ensures
            !self.spec_initialized() ==> (res matches Err(e) && not_initialized_error(e)),
            self.spec_initialized() ==> (res matches Ok(b) && b@ == enclave_sealed(plaintext@, *pcr_policy)),
            self.spec_initialized() ==> (res matches Ok(b) && b@.len() == plaintext@.len() + 60),
            self.spec_initialized() ==> (res matches Ok(b) && enclave_unsealed(b@) == Some(plaintext@)),
    {
        if !self.is_initialized {
            return Err(EnclaveError::InvalidState(copy_str("Enclave not initialized")));
        }
        let policy_hash = sha256(encode_policy(pcr_policy).as_slice());
        let mut content = zeros(12);
        push_bytes(&mut content, plaintext);
        push_bytes(&mut content, policy_hash.as_slice());
        let tag = compute_seal_tag(content.as_slice());
        let mut blob = zeros(12);
        push_bytes(&mut blob, plaintext);
        push_bytes(&mut blob, tag.as_slice());
        push_bytes(&mut blob, policy_hash.as_slice());
        proof {
            let n = zero_nonce();
            let p = plaintext@;
            let h = policy_hash@;
            let l = blob@.len() as int;
            assert(blob@ =~= enclave_sealed(p, *pcr_policy));
            assert(blob@.subrange(0, 12) =~= n);
            assert(blob@.subrange(12, l - 48) =~= p);
            assert(blob@.subrange(l - 48, l - 32) =~= tag@);
            assert(blob@.subrange(l - 32, l) =~= h);
            assert(content@ =~= n + p + h);
            assert(blob@.subrange(0, 12) + blob@.subrange(12, l - 48) + blob@.subrange(l - 32, l) == content@);
            assert(blob@.subrange(l - 48, l - 32) == seal_tag(
                blob@.subrange(0, 12) + blob@.subrange(12, l - 48) + blob@.subrange(l - 32, l),
            ));
            assert(enclave_unsealed(blob@) == Some(p));
            assert(tag@.len() == 16);
            assert(h.len() == 32);
            assert(blob@ == n + p + tag@ + h);
            assert(blob@.len() == p.len() + 60);
        }
        Ok(blob)
    }

    /// Unseal a blob made by [`Enclave::seal_data`]: blobs shorter than the
    /// 60 bytes of framing, and blobs whose tag does not match their content
    /// (tampering), are rejected.  The blob carries only a hash of its
    /// policy, which the tag binds to it.
    pub fn unseal_data(&self, sealed_blob: &[u8]) -> (res: Result<Vec<u8>, EnclaveError>)
        ensures
            !self.spec_initialized() ==> (res matches Err(e) && not_initialized_error(e)),
            self.spec_initialized() && sealed_blob@.len() < 60 ==> (res matches Err(
                EnclaveError::SealedStorageError(m),
            ) && m@ == "Sealed blob too short"@),
            self.spec_initialized() && sealed_blob@.len() >= 60 ==> (match enclave_unsealed(sealed_blob@) {
                Some(p) => res matches Ok(b) && b@ == p,
                None => res matches Err(EnclaveError::SealedStorageError(m)) && m@
                    == "Sealed data authentication failed"@,
            }),
    {
        if !self.is_initialized {
            return Err(EnclaveError::InvalidState(copy_str("Enclave not initialized")));
        }
        let l = sealed_blob.len();
        if l < 60 {
            return Err(EnclaveError::SealedStorageError(copy_str("Sealed blob too short")));
        }
        let nonce = vstd::slice::slice_subrange(sealed_blob, 0, 12);
        let ct = vstd::slice::slice_subrange(sealed_blob, 12, l - 48);
        let tag = vstd::slice::slice_subrange(sealed_blob, l - 48, l - 32);
        let hash = vstd::slice::slice_subrange(sealed_blob, l - 32, l);
        let mut content = copy_bytes(nonce);
        push_bytes(&mut content, ct);
        push_bytes(&mut content, hash);
        let expected = compute_seal_tag(content.as_slice());
        if !bytes_eq(tag, expected.as_slice()) {
            return Err(EnclaveError::SealedStorageError(copy_str("Sealed data authentication failed")));
        }
        Ok(copy_bytes(ct))
    }

    /// Sign data with an enclave key: a 4096-byte (ML-DSA-65 sized)
    /// signature, zero-filled in simulator mode.
    pub fn sign(&self, _key_id: &str, _data: &[u8]) -> (res: Result<Vec<u8>, EnclaveError>)
        ensures
            !self.spec_initialized() ==> (res matches Err(e) && not_initialized_error(e)),
            self.spec_initialized() ==> (res matches Ok(s) && s@ == Seq::new(4096, |i: int| 0u8)),
    {
        if !self.is_initialized {
            return Err(EnclaveError::InvalidState(copy_str("Enclave not initialized")));
        }
        Ok(zeros(4096))
    }
}

} // verus!
