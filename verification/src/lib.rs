//! Abir-Guard: verified building blocks of a post-quantum key vault for AI agents.
//!
//! The modules below hold the vault's bookkeeping logic (audit chains, key
//! anchors, decentralized PKI, share refresh, enclave policies, caches) with
//! contracts proved by Verus.  Cryptographic primitives come from outside
//! crates through the small trusted layer in [`crypto`].

pub mod crypto;
pub mod util;
pub mod audit;
pub mod str_map;
pub mod lex;
pub mod blockchain;
pub mod advanced_secret_sharing;
pub mod confidential_computing;
pub mod interop;
pub mod performance;
pub mod qkd;

pub use advanced_secret_sharing::{
    authenticate_share, create_commitments, verify_authenticated_share, verify_reshare_plan, verify_share,
    AdvancedSharingError, AuthenticatedShare, ParticipantShare, ProactiveRefresher, RefreshProof, ResharePlan,
    VerifiedShare, VssCommitment,
};
pub use audit::{AuditEntry, AuditError, AuditLog, ComplianceError, ComplianceReport, ComplianceViolation, Severity};
pub use blockchain::{
    AnchorRegistry, ContractError, DecentralizedPki, DpkiEntry, DpkiError, KeyAnchor, KeyAnchorError,
    OnChainVerificationResult, SimulatedContractAnchor, SmartContractAnchor,
};
pub use interop::{
    DidDocument, DidError, JwkError, PqcAlgorithm, PqcJwk, VerificationMethod, VerificationRelationship,
};
pub use performance::{
    batch_sign, batch_verify, BatchOpsError, BatchSignResult, BatchVerifyResult, CacheError, CacheStats,
    DerivedKeyCache, SignRequest, VerifyRequest,
};
pub use qkd::{EntropySource, QkdError, XorShift64};

use vstd::prelude::*;

verus! {

/// The library version.
pub const VERSION: &'static str = "3.2.0";

} // verus!
