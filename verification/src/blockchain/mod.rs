//! Blockchain integration: key anchors, decentralized PKI and a simulated
//! smart-contract back-end.
pub mod key_anchor;
pub mod dpki;
pub mod smart_contract;

pub use dpki::{DecentralizedPki, DpkiEntry, DpkiError};
pub use key_anchor::{AnchorRegistry, KeyAnchor, KeyAnchorError};
pub use smart_contract::{ContractError, OnChainVerificationResult, SimulatedContractAnchor, SmartContractAnchor};
