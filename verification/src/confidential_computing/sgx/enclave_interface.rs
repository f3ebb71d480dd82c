//! Constants and record layouts of the SGX SDK interface.
use vstd::prelude::*;

verus! {

/// ECDSA quote type (DCAP and legacy IAS).
pub const QUOTE_TYPE_ECDSA: u32 = 3;

/// Maximum size of a single enclave (1 MiB).
pub const ENCLAVE_SIZE: u64 = 0x100000;

/// SGX status codes.  `SGX_SUCCESS` is the first variant, so its
/// discriminant is 0; [`SgxStatus::code`] gives every variant's SDK code.
#[allow(non_camel_case_types)]
#[derive(Debug, Clone, Copy, PartialEq, Eq, Structural)]
pub enum SgxStatus {
    SGX_SUCCESS,
    SGX_ERROR_INVALID_PARAMETER,
    SGX_ERROR_OUT_OF_MEMORY,
    SGX_ERROR_ENCLAVE_LOST,
    SGX_ERROR_INVALID_STATE,
}

/// The SDK's numeric code of a status.
pub open spec fn status_code(s: SgxStatus) -> u32 {
    match s {
        SgxStatus::SGX_SUCCESS => 0x0,
        SgxStatus::SGX_ERROR_INVALID_PARAMETER => 0x2,
        SgxStatus::SGX_ERROR_OUT_OF_MEMORY => 0x4,
        SgxStatus::SGX_ERROR_ENCLAVE_LOST => 0x5,
        SgxStatus::SGX_ERROR_INVALID_STATE => 0xc,
    }
}

impl SgxStatus {
    /// The SDK's numeric code of this status.
    pub fn code(&self) -> (c: u32)
        ensures
            c == status_code(*self),
    {
        match self {
            SgxStatus::SGX_SUCCESS => 0x0,
            SgxStatus::SGX_ERROR_INVALID_PARAMETER => 0x2,
            SgxStatus::SGX_ERROR_OUT_OF_MEMORY => 0x4,
            SgxStatus::SGX_ERROR_ENCLAVE_LOST => 0x5,
            SgxStatus::SGX_ERROR_INVALID_STATE => 0xc,
        }
    }
}

/// SGX report (used inside the enclave).
pub struct SgxReport {
    /// Report body (384 bytes).
    pub report_body: [u8; 384],
    /// Key identifier (32 bytes).
    pub key_id: [u8; 32],
}

/// SGX target info: which enclave or platform can use a report key.
pub struct SgxTargetInfo {
    /// MRENCLAVE or MRSIGNER value.
    pub mr_enclave: [u8; 32],
    /// Extended product identifier.
    pub ext_prod_id: [u8; 16],
    /// Attributes.
    pub attributes: u64,
    /// Security version.
    pub config_svn: u16,
    /// Reserved.
    pub reserved: [u8; 86],
}

/// SGX report data (embedded in a report).
pub struct SgxReportData {
    /// User data (64 bytes).
    pub d: [u8; 64],
}

} // verus!
