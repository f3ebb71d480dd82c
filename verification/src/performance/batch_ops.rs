//! Batch signing and verification.
//!
//! Each request is processed on its own: a failing item is recorded in the
//! result and does not abort the batch.  The signature scheme is supplied by
//! the caller as a function on one request.
use vstd::prelude::*;

verus! {

/// Errors of batch operations.
#[derive(Debug, Clone, PartialEq, Eq)]
pub enum BatchOpsError {
    /// The batch is empty.
    EmptyBatch,
    /// The signature scheme failed with this message.
    MldsaError(String),
}

/// One verification request.
#[derive(Debug, Clone)]
pub struct VerifyRequest {
    /// Message whose signature is checked.
    pub message: Vec<u8>,
    /// Detached signature.
    pub signature: Vec<u8>,
    /// Verifying (public) key.
    pub verifying_key: Vec<u8>,
}

/// Aggregate result of [`batch_verify`].
#[derive(Debug, Clone, PartialEq, Eq)]
pub struct BatchVerifyResult {
    /// Requests processed.
    pub total: usize,
    /// Requests that verified.
    pub passed: usize,
    /// Requests that did not verify (bad signature or an error).
    pub failed: usize,
    /// Per-item outcome.
    pub results: Vec<bool>,
}

impl BatchVerifyResult {
    /// Whether every item verified.
    pub fn all_passed(&self) -> (b: bool)
        ensures
            b == (self.failed == 0),
    {
        self.failed == 0
    }
}

/// One signing request.
#[derive(Debug, Clone)]
pub struct SignRequest {
    /// Message to sign.
    pub message: Vec<u8>,
    /// Signing (secret) key.
    pub signing_key: Vec<u8>,
}

/// Aggregate result of [`batch_sign`].
#[derive(Debug, Clone)]
pub struct BatchSignResult {
    /// Requests processed.
    pub total: usize,
    /// Requests signed.
    pub succeeded: usize,
    /// Requests that failed.
    pub failed: usize,
    /// Per-item signature, `None` on failure.
    pub signatures: Vec<Option<Vec<u8>>>,
}

impl BatchSignResult {
    /// Whether every item was signed.
    pub fn all_succeeded(&self) -> (b: bool)
        ensures
            b == (self.failed == 0),
    {
        self.failed == 0
    }
}

/// Number of `true` items.
pub open spec fn count_true(s: Seq<bool>) -> nat
    decreases s.len(),
{
    if s.len() == 0 {
        0
    } else {
        count_true(s.drop_last()) + if s.last() {
            1nat
        } else {
            0nat
        }
    }
}

/// Number of present signatures.
pub open spec fn count_some(s: Seq<Option<Vec<u8>>>) -> nat
    decreases s.len(),
{
    if s.len() == 0 {
        0
    } else {
        count_some(s.drop_last()) + if s.last() is Some {
            1nat
        } else {
            0nat
        }
    }
}

proof fn lemma_count_true_bound(s: Seq<bool>)
    ensures
        count_true(s) <= s.len(),
    decreases s.len(),
{
    if s.len() > 0 {
        lemma_count_true_bound(s.drop_last());
    }
}

proof fn lemma_count_some_bound(s: Seq<Option<Vec<u8>>>)
    ensures
        count_some(s) <= s.len(),
    decreases s.len(),
{
    if s.len() > 0 {
        lemma_count_some_bound(s.drop_last());
    }
}

/// `b` is the outcome `verify` can give for `req`: true exactly for `Ok(true)`.
pub open spec fn verify_outcome<F: Fn(&VerifyRequest) -> Result<bool, E>, E>(verify: F, req: VerifyRequest, b: bool) -> bool {
    exists|r: Result<bool, E>| #[trigger] verify.ensures((&req,), r) && b == (r == Ok::<bool, E>(true))
}

/// `o` is the outcome `sign` can give for `req`: the signature, or `None`
/// on an error.
pub open spec fn sign_outcome<F: Fn(&SignRequest) -> Result<Vec<u8>, E>, E>(
    sign: F,
    req: SignRequest,
    o: Option<Vec<u8>>,
) -> bool {
    exists|r: Result<Vec<u8>, E>|
        #[trigger] sign.ensures((&req,), r) && o == match r {
            Ok(s) => Some(s),
            Err(_) => None,
        }
}

/// Verify a batch of signatures with `verify`; an error counts as a failed
/// item.  Fails with `EmptyBatch` on an empty batch.
pub fn batch_verify<F: Fn(&VerifyRequest) -> Result<bool, E>, E>(requests: &[VerifyRequest], verify: F) -> (res:
    Result<BatchVerifyResult, BatchOpsError>)
    requires
        forall|i: int| 0 <= i < requests@.len() ==> verify.requires((&#[trigger] requests@[i],)),
    ensures
        requests@.len() == 0 ==> res == Err::<BatchVerifyResult, BatchOpsError>(BatchOpsError::EmptyBatch),
        requests@.len() > 0 ==> (res matches Ok(r) && {
            &&& r.total == requests@.len()
            &&& r.results@.len() == requests@.len()
            &&& forall|i: int| 0 <= i < requests@.len() ==> verify_outcome(verify, requests@[i], #[trigger] r.results@[i])
            &&& r.passed == count_true(r.results@)
            &&& r.failed == r.total - r.passed
        }),
{
    if requests.len() == 0 {
        return Err(BatchOpsError::EmptyBatch);
    }
    let mut results: Vec<bool> = Vec::new();
    let mut passed: usize = 0;
    let mut i: usize = 0;
    while i < requests.len()
        invariant
            0 <= i <= requests@.len(),
            results@.len() == i,
            passed == count_true(results@),
            forall|j: int| 0 <= j < requests@.len() ==> verify.requires((&#[trigger] requests@[j],)),
            forall|j: int| 0 <= j < i ==> verify_outcome(verify, requests@[j], #[trigger] results@[j]),
        decreases requests@.len() - i,
    {
        let r = verify(&requests[i]);
        let ok = match r {
            Ok(b) => b,
            Err(_) => false,
        };
        let ghost before = results@;
        results.push(ok);
        proof {
            assert(results@.drop_last() =~= before);
            lemma_count_true_bound(before);
            assert(verify_outcome(verify, requests@[i as int], results@[i as int]));
        }
        if ok {
            passed = passed + 1;
        }
        i = i + 1;
    }
    proof {
        lemma_count_true_bound(results@);
    }
    let total = results.len();
    Ok(BatchVerifyResult { total, passed, failed: total - passed, results })
}

/// Sign a batch of messages with `sign`; an error is recorded as `None`.
/// Fails with `EmptyBatch` on an empty batch.
pub fn batch_sign<F: Fn(&SignRequest) -> Result<Vec<u8>, E>, E>(requests: &[SignRequest], sign: F) -> (res: Result<
    BatchSignResult,
    BatchOpsError,
>)
    requires
        forall|i: int| 0 <= i < requests@.len() ==> sign.requires((&#[trigger] requests@[i],)),
    ensures
        requests@.len() == 0 ==> res == Err::<BatchSignResult, BatchOpsError>(BatchOpsError::EmptyBatch),
        requests@.len() > 0 ==> (res matches Ok(r) && {
            &&& r.total == requests@.len()
            &&& r.signatures@.len() == requests@.len()
            &&& forall|i: int| 0 <= i < requests@.len() ==> sign_outcome(sign, requests@[i], #[trigger] r.signatures@[i])
            &&& r.succeeded == count_some(r.signatures@)
            &&& r.failed == r.total - r.succeeded
        }),
{
    if requests.len() == 0 {
        return Err(BatchOpsError::EmptyBatch);
    }
    let mut signatures: Vec<Option<Vec<u8>>> = Vec::new();
    let mut succeeded: usize = 0;
    let mut i: usize = 0;
    while i < requests.len()
        invariant
            0 <= i <= requests@.len(),
            signatures@.len() == i,
            succeeded == count_some(signatures@),
            forall|j: int| 0 <= j < requests@.len() ==> sign.requires((&#[trigger] requests@[j],)),
            forall|j: int| 0 <= j < i ==> sign_outcome(sign, requests@[j], #[trigger] signatures@[j]),
        decreases requests@.len() - i,
    {
        let r = sign(&requests[i]);
        let ghost rr = r;
        let item = match r {
            Ok(s) => Some(s),
            Err(_) => None,
        };
        let present = item.is_some();
        let ghost before = signatures@;
        signatures.push(item);
        proof {
            assert(signatures@.drop_last() =~= before);
            lemma_count_some_bound(before);
            assert(sign_outcome(sign, requests@[i as int], signatures@[i as int])) by {
                assert(sign.ensures((&requests@[i as int],), rr));
            }
        }
        if present {
            succeeded = succeeded + 1;
        }
        i = i + 1;
    }
    proof {
        lemma_count_some_bound(signatures@);
    }
    let total = signatures.len();
    Ok(BatchSignResult { total, succeeded, failed: total - succeeded, signatures })
}

} // verus!
