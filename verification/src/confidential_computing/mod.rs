//! Confidential computing: enclave configuration and attestation policies for
//! Intel SGX and ARM TrustZone, multi-party computation sessions and a unified
//! attestation service.
//!
//! The platform calls themselves are simulated; what is verified here is the
//! bookkeeping and the decisions built on their results.

pub mod tee_common;
pub mod sgx;
pub mod trustzone;
pub mod attestation_service;
pub mod mpc;

pub use attestation_service::{AttestationService, AttestationServiceError, UnifiedAttestationResult};
pub use mpc::{
    AggregateMessage, CommitSubmission, MpcError, MpcPolicy, MpcSession, RevealSubmission, ShareSubmission,
};
pub use sgx::{AttestationConfig, Enclave, EnclaveError, Quote};
pub use tee_common::{SealedData, TeeConfig, TeeType};
pub use trustzone::{TrustZoneConfig, TrustZoneEnclave, TrustZoneError};
