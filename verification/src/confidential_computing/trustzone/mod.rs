//! ARM TrustZone TEE model for edge and mobile devices: an OP-TEE session
//! that attests, seals and unseals in simulator mode.
use vstd::prelude::*;

use super::tee_common::{SealedData, TeeAttestationReport, TeeConfig, TeeType};
use crate::util::{concat2, copy_bytes, copy_str, zeros};

pub mod attestation;
pub mod interface;

pub use attestation::{
    build_simulated_report, TrustZoneAttestationPolicy, TrustZoneAttestationVerifier, TrustZoneVerificationResult,
};
pub use interface::{complete_unseal, dispatch_command, TaCommand, TaDispatch, TaRequest, TaResponse};

verus! {

/// TrustZone errors; each carries a message.
#[derive(Debug, Clone, PartialEq, Eq)]
pub enum TrustZoneError {
    InitializationFailed(String),
    OperationFailed(String),
    AttestationFailed(String),
    InvalidState(String),
}

/// The human-readable text of a TrustZone error.
pub open spec fn trustzone_error_text(e: TrustZoneError) -> Seq<char> {
    match e {
        TrustZoneError::InitializationFailed(m) => "TrustZone initialization failed: "@ + m@,
        TrustZoneError::OperationFailed(m) => "Trusted application operation failed: "@ + m@,
        TrustZoneError::AttestationFailed(m) => "Attestation failed: "@ + m@,
        TrustZoneError::InvalidState(m) => "Invalid state: "@ + m@,
    }
}

impl TrustZoneError {
    /// The error's message text.
    pub fn to_message(&self) -> (s: String)
        ensures
            s@ == trustzone_error_text(*self),
    {
        match self {
            TrustZoneError::InitializationFailed(m) => concat2("TrustZone initialization failed: ", m.as_str()),
            TrustZoneError::OperationFailed(m) => concat2("Trusted application operation failed: ", m.as_str()),
            TrustZoneError::AttestationFailed(m) => concat2("Attestation failed: ", m.as_str()),
            TrustZoneError::InvalidState(m) => concat2("Invalid state: ", m.as_str()),
        }
    }
}

/// OP-TEE session configuration.
#[derive(Debug, Clone)]
pub struct TrustZoneConfig {
    /// Trusted application UUID.
    pub ta_uuid: String,
    /// Require secure world attestation.
    pub require_attestation: bool,
}

impl TrustZoneConfig {
    /// The default secure profile.
    pub fn secure_default() -> (c: Self)
        ensures
            c.ta_uuid@ == "00000000-0000-0000-0000-000000000001"@,
            c.require_attestation,
    {
        TrustZoneConfig { ta_uuid: copy_str("00000000-0000-0000-0000-000000000001"), require_attestation: true }
    }
}

/// The error of an operation on an uninitialized session.
pub open spec fn session_not_initialized(e: TrustZoneError) -> bool {
    e matches TrustZoneError::InvalidState(m) && m@ == "TrustZone session is not initialized"@
}

/// `s` is what sealing `plaintext` in a TrustZone session produces.
pub open spec fn sealed_by_trustzone(plaintext: Seq<u8>, s: SealedData) -> bool {
    &&& s.tee_type == TeeType::TrustZone
    &&& s.ciphertext@ == plaintext
    &&& s.auth_tag@ == Seq::new(16, |i: int| 0u8)
    &&& s.nonce@ == Seq::new(12, |i: int| 0u8)
}

/// Unsealing TrustZone sealed data `s` gives `plaintext`.
pub open spec fn unseals_to(s: SealedData, plaintext: Seq<u8>) -> bool {
    s.tee_type == TeeType::TrustZone && plaintext == s.ciphertext@
}

/// What an initialized session seals with `seal_data`, `unseal_data` gives
/// back: the sealed data belongs to TrustZone, and the only plaintext it
/// unseals to is the one sealed.
pub proof fn lemma_trustzone_seal_unseal(plaintext: Seq<u8>, s: SealedData)
    requires
        sealed_by_trustzone(plaintext, s),
    ensures
        s.tee_type == TeeType::TrustZone,
        unseals_to(s, plaintext),
        forall|p: Seq<u8>| #[trigger] unseals_to(s, p) ==> p == plaintext,
{
}

/// An active TrustZone session.
#[derive(Debug)]
pub struct TrustZoneEnclave {
    config: TrustZoneConfig,
    session_id: u64,
    initialized: bool,
}

impl TrustZoneEnclave {
    /// The session's configuration.
    pub closed spec fn spec_config(&self) -> TrustZoneConfig {
        self.config
    }

    /// The session identifier.
    pub closed spec fn spec_session_id(&self) -> u64 {
        self.session_id
    }

    /// Whether the session is initialized.
    pub closed spec fn spec_initialized(&self) -> bool {
        self.initialized
    }

    /// Open a session; fails when the TA UUID is empty.
    pub fn initialize(config: TrustZoneConfig) -> (res: Result<Self, TrustZoneError>)
        ensures
            config.ta_uuid@.len() == 0 ==> (res matches Err(TrustZoneError::InitializationFailed(m))
                && m@ == "TA UUID cannot be empty"@),
            config.ta_uuid@.len() > 0 ==> (res matches Ok(e) && e.spec_initialized() && e.spec_session_id()
                == 1 && e.spec_config() == config),
    {
        if config.ta_uuid.as_str().is_empty() {
            return Err(TrustZoneError::InitializationFailed(copy_str("TA UUID cannot be empty")));
        }
        Ok(TrustZoneEnclave { config, session_id: 1, initialized: true })
    }

    /// Whether the session is initialized.
    pub fn is_initialized(&self) -> (b: bool)
        ensures
            b == self.spec_initialized(),
    {
        self.initialized
    }

    /// The session identifier.
    pub fn session_id(&self) -> (id: u64)
        ensures
            id == self.spec_session_id(),
    {
        self.session_id
    }

    /// The session's configuration.
    pub fn config(&self) -> (c: &TrustZoneConfig)
        ensures
            *c == self.spec_config(),
    {
        &self.config
    }

    /// A secure world attestation report: TrustZone, 256 zero bytes, time 0.
    pub fn get_attestation(&self) -> (res: Result<TeeAttestationReport, TrustZoneError>)
        ensures
            !self.spec_initialized() ==> (res matches Err(e) && session_not_initialized(e)),
            self.spec_initialized() ==> (res matches Ok(r) && r.tee_type == TeeType::TrustZone
                && r.attestation_data@ == Seq::new(256, |i: int| 0u8) && r.timestamp == 0),
    {
        if !self.initialized {
            return Err(TrustZoneError::InvalidState(copy_str("TrustZone session is not initialized")));
        }
        Ok(TeeAttestationReport { tee_type: TeeType::TrustZone, attestation_data: zeros(256), timestamp: 0 })
    }

    /// Seal bytes: TrustZone-typed sealed data carrying the plaintext, a
    /// 16-byte tag and a 12-byte nonce (zero in simulator mode).
    pub fn seal_data(&self, plaintext: &[u8]) -> (res: Result<SealedData, TrustZoneError>)
        ensures
            !self.spec_initialized() ==> (res matches Err(e) && session_not_initialized(e)),
            self.spec_initialized() ==> (res matches Ok(s) && sealed_by_trustzone(plaintext@, s)),
    {
        if !self.initialized {
            return Err(TrustZoneError::InvalidState(copy_str("TrustZone session is not initialized")));
        }
        Ok(SealedData::new(TeeType::TrustZone, copy_bytes(plaintext), zeros(16), zeros(12)))
    }

    /// Unseal TrustZone sealed data; data sealed by another platform is
    /// rejected.
    pub fn unseal_data(&self, sealed: &SealedData) -> (res: Result<Vec<u8>, TrustZoneError>)
        ensures
            !self.spec_initialized() ==> (res matches Err(e) && session_not_initialized(e)),
            self.spec_initialized() && sealed.tee_type != TeeType::TrustZone ==> (res matches Err(
                TrustZoneError::OperationFailed(m),
            ) && m@ == "Sealed payload does not belong to TrustZone"@),
            self.spec_initialized() && sealed.tee_type == TeeType::TrustZone ==> (res matches Ok(p) && unseals_to(
                *sealed,
                p@,
            )),
    {
        if !self.initialized {
            return Err(TrustZoneError::InvalidState(copy_str("TrustZone session is not initialized")));
        }
        if sealed.tee_type != TeeType::TrustZone {
            return Err(TrustZoneError::OperationFailed(copy_str("Sealed payload does not belong to TrustZone")));
        }
        Ok(copy_bytes(sealed.ciphertext.as_slice()))
    }

    /// The common TEE configuration of TrustZone.
    pub fn as_tee_config(&self) -> (c: TeeConfig)
        ensures
            c.tee_type == TeeType::TrustZone,
            !c.debug_mode,
            c.max_enclave_size == 0x200000,
    {
        TeeConfig::trustzone()
    }
}

} // verus!
