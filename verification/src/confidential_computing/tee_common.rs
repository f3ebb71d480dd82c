//! Types shared by the TEE platforms.
use vstd::prelude::*;

verus! {

/// TEE platform type.
#[derive(Debug, Clone, Copy, PartialEq, Eq, Structural, Hash)]
pub enum TeeType {
    /// Intel SGX 2.0 enclaves.
    SGX,
    /// ARM TrustZone with OP-TEE.
    TrustZone,
    /// AMD SEV-SNP.
    AmdSev,
    /// Intel TDX.
    IntelTdx,
}

/// TEE configuration.
#[derive(Debug, Clone, Copy)]
pub struct TeeConfig {
    /// Which TEE platform to target.
    pub tee_type: TeeType,
    /// Debug mode (reduces security).
    pub debug_mode: bool,
    /// Maximum enclave memory size in bytes.
    pub max_enclave_size: u64,
}

impl TeeConfig {
    /// SGX configuration: release mode, 1 MiB enclave.
    pub fn sgx() -> (c: Self)
        ensures
            c.tee_type == TeeType::SGX,
            !c.debug_mode,
            c.max_enclave_size == 0x100000,
    {
        TeeConfig { tee_type: TeeType::SGX, debug_mode: false, max_enclave_size: 0x100000 }
    }

    /// TrustZone configuration: release mode, 2 MiB enclave.
    pub fn trustzone() -> (c: Self)
        ensures
            c.tee_type == TeeType::TrustZone,
            !c.debug_mode,
            c.max_enclave_size == 0x200000,
    {
        TeeConfig { tee_type: TeeType::TrustZone, debug_mode: false, max_enclave_size: 0x200000 }
    }

    /// The same configuration with debug mode on.
    pub fn with_debug(self) -> (c: Self)
        ensures
            c.debug_mode,
            c.tee_type == self.tee_type,
            c.max_enclave_size == self.max_enclave_size,
    {
        let mut c = self;
        c.debug_mode = true;
        c
    }
}

/// Data sealed to a TEE state.
#[derive(Debug, Clone)]
pub struct SealedData {
    /// TEE platform type.
    pub tee_type: TeeType,
    /// Encrypted data.
    pub ciphertext: Vec<u8>,
    /// Authentication tag.
    pub auth_tag: Vec<u8>,
    /// Nonce.
    pub nonce: Vec<u8>,
}

impl SealedData {
    /// Assemble sealed data from its parts.
    pub fn new(tee_type: TeeType, ciphertext: Vec<u8>, auth_tag: Vec<u8>, nonce: Vec<u8>) -> (s: Self)
        ensures
            s.tee_type == tee_type,
            s.ciphertext == ciphertext,
            s.auth_tag == auth_tag,
            s.nonce == nonce,
    {
        SealedData { tee_type, ciphertext, auth_tag, nonce }
    }
}

/// A TEE attestation report.
#[derive(Debug, Clone)]
pub struct TeeAttestationReport {
    /// TEE platform type.
    pub tee_type: TeeType,
    /// Attestation data (format varies by platform).
    pub attestation_data: Vec<u8>,
    /// Timestamp (seconds since the Unix epoch).
    pub timestamp: u64,
}

} // verus!
