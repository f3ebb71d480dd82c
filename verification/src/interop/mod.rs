//! Interoperability formats: JWK-style post-quantum keys and W3C DID Core
//! documents that embed them.

pub mod jwk;
pub mod did;

pub use did::{DidDocument, DidError, VerificationMethod, VerificationRelationship};
pub use jwk::{JwkError, PqcAlgorithm, PqcJwk};
