//! Performance helpers: a bounded cache of derived keys and batch signing and
//! verification.

pub mod key_cache;
pub mod batch_ops;

pub use batch_ops::{
    batch_sign, batch_verify, BatchOpsError, BatchSignResult, BatchVerifyResult, SignRequest, VerifyRequest,
};
pub use key_cache::{CacheError, CacheStats, DerivedKeyCache};
