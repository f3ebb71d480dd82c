//! Attestation-as-a-service: normalizes SGX and TrustZone verification
//! results into one verdict and enforces a routing policy on it (allowed
//! platforms, per-platform age limits, minimum trust level).
use vstd::prelude::*;

use crate::confidential_computing::sgx::quote_verifier::{
    standard_result, verify_quote_standard, QuoteVerificationResult,
};
use crate::confidential_computing::sgx::Quote;
use crate::confidential_computing::tee_common::{TeeAttestationReport, TeeType};
use crate::confidential_computing::trustzone::attestation::{
    tz_result, TrustZoneAttestationPolicy, TrustZoneAttestationVerifier, TrustZoneVerificationResult,
};
use crate::util::{append_bool, append_decimal, append_str, bool_text, copy_str, spec_decimal};

verus! {

/// Errors of the attestation service.
#[derive(Debug, Clone, PartialEq, Eq)]
pub enum AttestationServiceError {
    /// SGX verification failed with this message.
    SgxVerification(String),
    /// TrustZone verification failed with this message.
    TrustZoneVerification(String),
    /// Reports of this platform are not supported.
    UnsupportedTee(TeeType),
    /// The routing policy rejected the evidence, for this reason.
    PolicyRejected(String),
}

/// Relative trust class of attestation evidence.
#[derive(Debug, Clone, Copy, PartialEq, Eq, Structural)]
pub enum TrustLevel {
    Low,
    Medium,
    High,
}

/// The rank of a trust level (Low 1, Medium 2, High 3).
pub open spec fn trust_rank(l: TrustLevel) -> u8 {
    match l {
        TrustLevel::Low => 1,
        TrustLevel::Medium => 2,
        TrustLevel::High => 3,
    }
}

impl TrustLevel {
    fn rank(self) -> (r: u8)
        ensures
            r == trust_rank(self),
    {
        match self {
            TrustLevel::Low => 1,
            TrustLevel::Medium => 2,
            TrustLevel::High => 3,
        }
    }

    fn meets_minimum(self, minimum: TrustLevel) -> (b: bool)
        ensures
            b == (trust_rank(self) >= trust_rank(minimum)),
    {
        self.rank() >= minimum.rank()
    }
}

/// The name Rust's `Debug` gives a platform.
pub open spec fn tee_name(t: TeeType) -> Seq<char> {
    match t {
        TeeType::SGX => "SGX"@,
        TeeType::TrustZone => "TrustZone"@,
        TeeType::AmdSev => "AmdSev"@,
        TeeType::IntelTdx => "IntelTdx"@,
    }
}

fn append_tee_name(s: &mut String, t: TeeType)
    ensures
        final(s)@ == old(s)@ + tee_name(t),
{
    match t {
        TeeType::SGX => append_str(s, "SGX"),
        TeeType::TrustZone => append_str(s, "TrustZone"),
        TeeType::AmdSev => append_str(s, "AmdSev"),
        TeeType::IntelTdx => append_str(s, "IntelTdx"),
    }
}

/// The name Rust's `Debug` gives a trust level.
pub open spec fn level_name(l: TrustLevel) -> Seq<char> {
    match l {
        TrustLevel::Low => "Low"@,
        TrustLevel::Medium => "Medium"@,
        TrustLevel::High => "High"@,
    }
}

fn append_level_name(s: &mut String, l: TrustLevel)
    ensures
        final(s)@ == old(s)@ + level_name(l),
{
    match l {
        TrustLevel::Low => append_str(s, "Low"),
        TrustLevel::Medium => append_str(s, "Medium"),
        TrustLevel::High => append_str(s, "High"),
    }
}

/// A set of TEE platforms.
#[derive(Debug, Clone, Copy)]
pub struct TeeTypeSet {
    sgx: bool,
    trustzone: bool,
    amd_sev: bool,
    intel_tdx: bool,
}

impl View for TeeTypeSet {
    type V = Set<TeeType>;

    closed spec fn view(&self) -> Set<TeeType> {
        Set::new(
            |t: TeeType|
                match t {
                    TeeType::SGX => self.sgx,
                    TeeType::TrustZone => self.trustzone,
                    TeeType::AmdSev => self.amd_sev,
                    TeeType::IntelTdx => self.intel_tdx,
                },
        )
    }
}

impl TeeTypeSet {
    /// The empty set.
    pub fn new() -> (s: Self)
        ensures
            s@ == Set::<TeeType>::empty(),
    {
        let s = TeeTypeSet { sgx: false, trustzone: false, amd_sev: false, intel_tdx: false };
        assert(s@ =~= Set::<TeeType>::empty());
        s
    }

    /// Whether `t` is in the set.
    pub fn contains(&self, t: &TeeType) -> (b: bool)
        ensures
            b == self@.contains(*t),
    {
        match t {
            TeeType::SGX => self.sgx,
            TeeType::TrustZone => self.trustzone,
            TeeType::AmdSev => self.amd_sev,
            TeeType::IntelTdx => self.intel_tdx,
        }
    }

    /// Add `t`; returns whether it was absent.
    pub fn insert(&mut self, t: TeeType) -> (added: bool)
        ensures
            final(self)@ == old(self)@.insert(t),
            added == !old(self)@.contains(t),
    {
        let added = !self.contains(&t);
        match t {
            TeeType::SGX => self.sgx = true,
            TeeType::TrustZone => self.trustzone = true,
            TeeType::AmdSev => self.amd_sev = true,
            TeeType::IntelTdx => self.intel_tdx = true,
        }
        assert(self@ =~= old(self)@.insert(t));
        added
    }

    /// Remove `t`; returns whether it was present.
    pub fn remove(&mut self, t: &TeeType) -> (removed: bool)
        ensures
            final(self)@ == old(self)@.remove(*t),
            removed == old(self)@.contains(*t),
    {
        let removed = self.contains(t);
        match t {
            TeeType::SGX => self.sgx = false,
            TeeType::TrustZone => self.trustzone = false,
            TeeType::AmdSev => self.amd_sev = false,
            TeeType::IntelTdx => self.intel_tdx = false,
        }
        assert(self@ =~= old(self)@.remove(*t));
        removed
    }

    /// Remove every platform.
    pub fn clear(&mut self)
        ensures
            final(self)@ == Set::<TeeType>::empty(),
    {
        *self = TeeTypeSet::new();
    }
}

/// Routing policy of the service.
#[derive(Debug, Clone, Copy)]
pub struct AttestationRoutingPolicy {
    /// Platforms whose evidence may pass.
    pub allowed_tees: TeeTypeSet,
    /// Maximum SGX evidence age in seconds.
    pub max_sgx_age_seconds: u64,
    /// Maximum TrustZone evidence age in seconds.
    pub max_trustzone_age_seconds: u64,
    /// Minimum trust level.
    pub minimum_trust_level: TrustLevel,
}

impl Default for AttestationRoutingPolicy {
    /// SGX and TrustZone allowed, one hour for SGX, five minutes for
    /// TrustZone, any trust level.
    fn default() -> (p: Self)
        ensures
            p.allowed_tees@ == set![TeeType::SGX, TeeType::TrustZone],
            p.max_sgx_age_seconds == 3600,
            p.max_trustzone_age_seconds == 300,
            p.minimum_trust_level == TrustLevel::Low,
    {
        let mut allowed_tees = TeeTypeSet::new();
        allowed_tees.insert(TeeType::SGX);
        allowed_tees.insert(TeeType::TrustZone);
        assert(allowed_tees@ =~= set![TeeType::SGX, TeeType::TrustZone]);
        AttestationRoutingPolicy {
            allowed_tees,
            max_sgx_age_seconds: 3600,
            max_trustzone_age_seconds: 300,
            minimum_trust_level: TrustLevel::Low,
        }
    }
}

/// Unified attestation verdict.
#[derive(Debug, Clone)]
pub struct UnifiedAttestationResult {
    /// Platform that produced the evidence.
    pub tee_type: TeeType,
    /// Final allow/deny status.
    pub is_valid: bool,
    /// Freshness check passed.
    pub is_fresh: bool,
    /// Evidence age in seconds.
    pub evidence_age_seconds: u64,
    /// Trust classification.
    pub trust_level: TrustLevel,
    /// Short summary.
    pub summary: String,
}

/// Mathematical view of a [`UnifiedAttestationResult`].
pub struct UnifiedView {
    pub tee_type: TeeType,
    pub is_valid: bool,
    pub is_fresh: bool,
    pub evidence_age_seconds: u64,
    pub trust_level: TrustLevel,
    pub summary: Seq<char>,
}

impl View for UnifiedAttestationResult {
    type V = UnifiedView;

    open spec fn view(&self) -> UnifiedView {
        UnifiedView {
            tee_type: self.tee_type,
            is_valid: self.is_valid,
            is_fresh: self.is_fresh,
            evidence_age_seconds: self.evidence_age_seconds,
            trust_level: self.trust_level,
            summary: self.summary@,
        }
    }
}

/// The unified verdict of an SGX quote verification.
pub open spec fn sgx_unified(v: QuoteVerificationResult) -> UnifiedView {
    UnifiedView {
        tee_type: TeeType::SGX,
        is_valid: v.is_valid,
        is_fresh: v.is_fresh,
        evidence_age_seconds: v.quote_age_seconds,
        trust_level: if v.signature_valid && v.cert_chain_valid && v.advisories@.len() == 0 {
            TrustLevel::High
        } else if v.signature_valid && v.cert_chain_valid {
            TrustLevel::Medium
        } else {
            TrustLevel::Low
        },
        summary: "sgx: signature_valid="@ + bool_text(v.signature_valid) + ", cert_chain_valid="@ + bool_text(
            v.cert_chain_valid,
        ) + ", advisories="@ + spec_decimal(v.advisories@.len()),
    }
}

/// The unified verdict of a TrustZone report verification.
pub open spec fn tz_unified(v: TrustZoneVerificationResult) -> UnifiedView {
    UnifiedView {
        tee_type: TeeType::TrustZone,
        is_valid: v.is_valid,
        is_fresh: v.is_fresh,
        evidence_age_seconds: v.report_age_seconds,
        trust_level: if v.is_valid {
            TrustLevel::Medium
        } else {
            TrustLevel::Low
        },
        summary: "trustzone: expected_format="@ + bool_text(v.has_expected_format),
    }
}

impl UnifiedAttestationResult {
    /// The unified verdict of an SGX quote verification: High trust for a
    /// valid signature and chain with no advisories, Medium with advisories,
    /// Low otherwise.
    pub fn from_sgx(value: QuoteVerificationResult) -> (r: Self)
        ensures
            r@ == sgx_unified(value),
    {
        let trust_level = if value.signature_valid && value.cert_chain_valid && value.advisories.len() == 0 {
            TrustLevel::High
        } else if value.signature_valid && value.cert_chain_valid {
            TrustLevel::Medium
        } else {
            TrustLevel::Low
        };
        let mut summary = copy_str("sgx: signature_valid=");
        append_bool(&mut summary, value.signature_valid);
        append_str(&mut summary, ", cert_chain_valid=");
        append_bool(&mut summary, value.cert_chain_valid);
        append_str(&mut summary, ", advisories=");
        append_decimal(&mut summary, value.advisories.len() as u64);
        UnifiedAttestationResult {
            tee_type: TeeType::SGX,
            is_valid: value.is_valid,
            is_fresh: value.is_fresh,
            evidence_age_seconds: value.quote_age_seconds,
            trust_level,
            summary,
        }
    }

    /// The unified verdict of a TrustZone verification: Medium trust when
    /// valid, Low otherwise.
    pub fn from_trustzone(value: TrustZoneVerificationResult) -> (r: Self)
        ensures
            r@ == tz_unified(value),
    {
        let mut summary = copy_str("trustzone: expected_format=");
        append_bool(&mut summary, value.has_expected_format);
        UnifiedAttestationResult {
            tee_type: TeeType::TrustZone,
            is_valid: value.is_valid,
            is_fresh: value.is_fresh,
            evidence_age_seconds: value.report_age_seconds,
            trust_level: if value.is_valid {
                TrustLevel::Medium
            } else {
                TrustLevel::Low
            },
            summary,
        }
    }
}

impl From<QuoteVerificationResult> for UnifiedAttestationResult {
    /// See [`UnifiedAttestationResult::from_sgx`].
    fn from(value: QuoteVerificationResult) -> (r: Self)
        ensures
            r@ == sgx_unified(value),
    {
        UnifiedAttestationResult::from_sgx(value)
    }
}

impl vstd::std_specs::convert::FromSpecImpl<QuoteVerificationResult> for UnifiedAttestationResult {
    /// The conversion is specified by its own `ensures` (over the view).
    open spec fn obeys_from_spec() -> bool {
        false
    }

    open spec fn from_spec(v: QuoteVerificationResult) -> Self {
        arbitrary()
    }
}

impl From<TrustZoneVerificationResult> for UnifiedAttestationResult {
    /// See [`UnifiedAttestationResult::from_trustzone`].
    fn from(value: TrustZoneVerificationResult) -> (r: Self)
        ensures
            r@ == tz_unified(value),
    {
        UnifiedAttestationResult::from_trustzone(value)
    }
}

impl vstd::std_specs::convert::FromSpecImpl<TrustZoneVerificationResult> for UnifiedAttestationResult {
    /// The conversion is specified by its own `ensures` (over the view).
    open spec fn obeys_from_spec() -> bool {
        false
    }

    open spec fn from_spec(v: TrustZoneVerificationResult) -> Self {
        arbitrary()
    }
}

/// Policy `p` applied to `u`: accepted (the summary gains the suffix
/// `; policy=enforced`) or rejected with a reason.
pub open spec fn policy_outcome(p: AttestationRoutingPolicy, u: UnifiedView) -> Result<UnifiedView, Seq<char>> {
    if !p.allowed_tees@.contains(u.tee_type) {
        Err("tee type "@ + tee_name(u.tee_type) + " is not allowed by routing policy"@)
    } else if u.tee_type != TeeType::SGX && u.tee_type != TeeType::TrustZone {
        Err("tee type "@ + tee_name(u.tee_type) + " has no configured age SLA"@)
    } else {
        let max_age = if u.tee_type == TeeType::SGX {
            p.max_sgx_age_seconds
        } else {
            p.max_trustzone_age_seconds
        };
        if u.evidence_age_seconds > max_age {
            Err(
                "evidence age "@ + spec_decimal(u.evidence_age_seconds as nat) + "s exceeds SLA "@ + spec_decimal(
                    max_age as nat,
                ) + "s for "@ + tee_name(u.tee_type),
            )
        } else if trust_rank(u.trust_level) < trust_rank(p.minimum_trust_level) {
            Err("trust level "@ + level_name(u.trust_level) + " below minimum "@ + level_name(p.minimum_trust_level))
        } else if !u.is_valid || !u.is_fresh {
            Err("provider verification did not return valid/fresh evidence"@)
        } else {
            Ok(UnifiedView { summary: u.summary + "; policy=enforced"@, ..u })
        }
    }
}

/// The service's answer `res` is the policy outcome `o`, a rejection being
/// reported as `PolicyRejected`.
pub open spec fn answers(
    res: Result<UnifiedAttestationResult, AttestationServiceError>,
    o: Result<UnifiedView, Seq<char>>,
) -> bool {
    match o {
        Ok(v) => res matches Ok(r) && r@ == v,
        Err(m) => res matches Err(AttestationServiceError::PolicyRejected(x)) && x@ == m,
    }
}

/// Attestation service.
#[derive(Debug, Clone, Copy)]
pub struct AttestationService {
    tz_policy: TrustZoneAttestationPolicy,
    routing_policy: AttestationRoutingPolicy,
}

impl AttestationService {
    /// The TrustZone verification policy.
    pub closed spec fn spec_tz_policy(&self) -> TrustZoneAttestationPolicy {
        self.tz_policy
    }

    /// The routing policy.
    pub closed spec fn spec_routing_policy(&self) -> AttestationRoutingPolicy {
        self.routing_policy
    }
}

/// The answer of `s` to a TrustZone report: a report of another platform
/// fails verification; otherwise the routing policy decides on the verdict
/// for the time the verification reports.
pub open spec fn trustzone_answer(
    s: AttestationService,
    report: TeeAttestationReport,
    res: Result<UnifiedAttestationResult, AttestationServiceError>,
) -> bool {
    if report.tee_type != TeeType::TrustZone {
        res matches Err(AttestationServiceError::TrustZoneVerification(m)) && m@ == "Attestation failed: "@
            + "report tee type is not TrustZone"@
    } else {
        exists|v: TrustZoneVerificationResult|
            #![trigger tz_unified(v)]
            tz_result(s.spec_tz_policy(), report, v.verified_at, v) && answers(
                res,
                policy_outcome(s.spec_routing_policy(), tz_unified(v)),
            )
    }
}

/// The answer of `s` to an SGX quote: the routing policy decides on the
/// verdict of a standard verification at the time it reports.
pub open spec fn sgx_answer(
    s: AttestationService,
    quote: Quote,
    res: Result<UnifiedAttestationResult, AttestationServiceError>,
) -> bool {
    exists|v: QuoteVerificationResult|
        #![trigger sgx_unified(v)]
        standard_result(quote, 3600, v) && answers(res, policy_outcome(s.spec_routing_policy(), sgx_unified(v)))
}

/// The answer of `s` to a report of any platform: TrustZone reports are
/// verified, other platforms are unsupported.
pub open spec fn report_answer(
    s: AttestationService,
    report: TeeAttestationReport,
    res: Result<UnifiedAttestationResult, AttestationServiceError>,
) -> bool {
    if report.tee_type == TeeType::TrustZone {
        trustzone_answer(s, report, res)
    } else {
        res == Err::<UnifiedAttestationResult, AttestationServiceError>(
            AttestationServiceError::UnsupportedTee(report.tee_type),
        )
    }
}

/// The number of successful items.
pub open spec fn count_ok(items: Seq<Result<UnifiedAttestationResult, AttestationServiceError>>) -> nat
    decreases items.len(),
{
    if items.len() == 0 {
        0
    } else {
        count_ok(items.drop_last()) + if items.last() is Ok {
            1nat
        } else {
            0nat
        }
    }
}

/// Batch verification output.
#[derive(Debug)]
pub struct BatchVerificationResult {
    /// Results in input order.
    pub items: Vec<Result<UnifiedAttestationResult, AttestationServiceError>>,
    /// Number of successful items.
    pub passed: usize,
    /// Number of failed items.
    pub failed: usize,
}

/// A batch result whose counts agree with its items.
pub open spec fn batch_counts(b: BatchVerificationResult) -> bool {
    &&& b.passed == count_ok(b.items@)
    &&& b.failed == b.items@.len() - b.passed
}

proof fn lemma_count_ok_bound(items: Seq<Result<UnifiedAttestationResult, AttestationServiceError>>)
    ensures
        count_ok(items) <= items.len(),
    decreases items.len(),
{
    if items.len() > 0 {
        lemma_count_ok_bound(items.drop_last());
    }
}

fn batch_from_items(items: Vec<Result<UnifiedAttestationResult, AttestationServiceError>>) -> (b:
    BatchVerificationResult)
    ensures
        b.items == items,
        batch_counts(b),
{
    let mut passed: usize = 0;
    let mut i: usize = 0;
    while i < items.len()
        invariant
            0 <= i <= items@.len(),
            passed == count_ok(items@.take(i as int)),
            passed <= i,
        decreases items@.len() - i,
    {
        assert(items@.take(i + 1).drop_last() =~= items@.take(i as int));
        if items[i].is_ok() {
            passed = passed + 1;
        }
        i = i + 1;
    }
    assert(items@.take(i as int) =~= items@);
    let failed = items.len() - passed;
    BatchVerificationResult { items, passed, failed }
}

impl AttestationService {
    /// A service with the default TrustZone and routing policies.
    pub fn new() -> (s: Self)
        ensures
            s.spec_tz_policy().max_age_seconds == 300,
            s.spec_tz_policy().require_format_marker,
            s.spec_routing_policy().allowed_tees@ == set![TeeType::SGX, TeeType::TrustZone],
            s.spec_routing_policy().max_sgx_age_seconds == 3600,
            s.spec_routing_policy().max_trustzone_age_seconds == 300,
            s.spec_routing_policy().minimum_trust_level == TrustLevel::Low,
    {
        AttestationService {
            tz_policy: TrustZoneAttestationPolicy::default(),
            routing_policy: AttestationRoutingPolicy::default(),
        }
    }

    /// A service with a custom TrustZone policy and the default routing
    /// policy.
    pub fn with_trustzone_policy(tz_policy: TrustZoneAttestationPolicy) -> (s: Self)
        ensures
            s.spec_tz_policy() == tz_policy,
            s.spec_routing_policy().allowed_tees@ == set![TeeType::SGX, TeeType::TrustZone],
            s.spec_routing_policy().max_sgx_age_seconds == 3600,
            s.spec_routing_policy().max_trustzone_age_seconds == 300,
            s.spec_routing_policy().minimum_trust_level == TrustLevel::Low,
    {
        AttestationService { tz_policy, routing_policy: AttestationRoutingPolicy::default() }
    }

    /// A service with a custom routing policy and the default TrustZone
    /// policy.
    pub fn with_routing_policy(routing_policy: AttestationRoutingPolicy) -> (s: Self)
        ensures
            s.spec_routing_policy() == routing_policy,
            s.spec_tz_policy().max_age_seconds == 300,
            s.spec_tz_policy().require_format_marker,
    {
        AttestationService { tz_policy: TrustZoneAttestationPolicy::default(), routing_policy }
    }

    /// Verify an SGX quote with the standard policy and apply the routing
    /// policy to the verdict.
    pub fn verify_sgx_quote(&self, quote: &Quote) -> (res: Result<UnifiedAttestationResult, AttestationServiceError>)
        ensures
            sgx_answer(*self, *quote, res),
    {
        let result = match verify_quote_standard(quote) {
            Ok(r) => r,
            Err(e) => {
                return Err(AttestationServiceError::SgxVerification(e.to_message()));
            },
        };
        let ghost v = result;
        let unified = UnifiedAttestationResult::from(result);
        let res = self.enforce_policy(unified);
        assert(standard_result(*quote, 3600, v) && answers(res, policy_outcome(self.routing_policy, sgx_unified(v))));
        res
    }

    /// Verify a TrustZone report and apply the routing policy to the verdict.
    pub fn verify_trustzone_report(&self, report: &TeeAttestationReport) -> (res: Result<
        UnifiedAttestationResult,
        AttestationServiceError,
    >)
        ensures
            trustzone_answer(*self, *report, res),
    {
        let verifier = TrustZoneAttestationVerifier::new(self.tz_policy);
        let result = match verifier.verify(report) {
            Ok(r) => r,
            Err(e) => {
                return Err(AttestationServiceError::TrustZoneVerification(e.to_message()));
            },
        };
        let ghost v = result;
        let unified = UnifiedAttestationResult::from(result);
        let res = self.enforce_policy(unified);
        assert(tz_result(self.tz_policy, *report, v.verified_at, v) && answers(
            res,
            policy_outcome(self.routing_policy, tz_unified(v)),
        ));
        res
    }

    /// Verify a report according to its declared platform: TrustZone reports
    /// are verified, other platforms are unsupported.
    pub fn verify_report(&self, report: &TeeAttestationReport) -> (res: Result<
        UnifiedAttestationResult,
        AttestationServiceError,
    >)
        ensures
            report_answer(*self, *report, res),
    {
        match report.tee_type {
            TeeType::TrustZone => self.verify_trustzone_report(report),
            other => Err(AttestationServiceError::UnsupportedTee(other)),
        }
    }

    /// Verify a batch of reports; item `i` answers report `i`.
    pub fn verify_reports_batch(&self, reports: &[TeeAttestationReport]) -> (b: BatchVerificationResult)
        ensures
            b.items@.len() == reports@.len(),
            forall|i: int| 0 <= i < reports@.len() ==> report_answer(*self, reports@[i], #[trigger] b.items@[i]),
            batch_counts(b),
    {
        let mut items: Vec<Result<UnifiedAttestationResult, AttestationServiceError>> = Vec::new();
        let mut i: usize = 0;
        while i < reports.len()
            invariant
                0 <= i <= reports@.len(),
                items@.len() == i,
                forall|j: int| 0 <= j < i ==> report_answer(*self, reports@[j], #[trigger] items@[j]),
            decreases reports@.len() - i,
        {
            let r = self.verify_report(&reports[i]);
            items.push(r);
            i = i + 1;
        }
        batch_from_items(items)
    }

    /// Verify a batch of SGX quotes; item `i` answers quote `i`.
    pub fn verify_sgx_quotes_batch(&self, quotes: &[Quote]) -> (b: BatchVerificationResult)
        ensures
            b.items@.len() == quotes@.len(),
            forall|i: int| 0 <= i < quotes@.len() ==> sgx_answer(*self, quotes@[i], #[trigger] b.items@[i]),
            batch_counts(b),
    {
        let mut items: Vec<Result<UnifiedAttestationResult, AttestationServiceError>> = Vec::new();
        let mut i: usize = 0;
        while i < quotes.len()
            invariant
                0 <= i <= quotes@.len(),
                items@.len() == i,
                forall|j: int| 0 <= j < i ==> sgx_answer(*self, quotes@[j], #[trigger] items@[j]),
            decreases quotes@.len() - i,
        {
            let r = self.verify_sgx_quote(&quotes[i]);
            items.push(r);
            i = i + 1;
        }
        batch_from_items(items)
    }

    fn enforce_policy(&self, result: UnifiedAttestationResult) -> (res: Result<
        UnifiedAttestationResult,
        AttestationServiceError,
    >)
        ensures
            answers(res, policy_outcome(self.routing_policy, result@)),
    {
        let tee = result.tee_type;
        if !self.routing_policy.allowed_tees.contains(&tee) {
            let mut m = copy_str("tee type ");
            append_tee_name(&mut m, tee);
            append_str(&mut m, " is not allowed by routing policy");
            return Err(AttestationServiceError::PolicyRejected(m));
        }
        let max_age = match tee {
            TeeType::SGX => self.routing_policy.max_sgx_age_seconds,
            TeeType::TrustZone => self.routing_policy.max_trustzone_age_seconds,
            _ => {
                let mut m = copy_str("tee type ");
                append_tee_name(&mut m, tee);
                append_str(&mut m, " has no configured age SLA");
                return Err(AttestationServiceError::PolicyRejected(m));
            },
        };
        if result.evidence_age_seconds > max_age {
            let mut m = copy_str("evidence age ");
            append_decimal(&mut m, result.evidence_age_seconds);
            append_str(&mut m, "s exceeds SLA ");
            append_decimal(&mut m, max_age);
            append_str(&mut m, "s for ");
            append_tee_name(&mut m, tee);
            return Err(AttestationServiceError::PolicyRejected(m));
        }
        if !result.trust_level.meets_minimum(self.routing_policy.minimum_trust_level) {
            let mut m = copy_str("trust level ");
            append_level_name(&mut m, result.trust_level);
            append_str(&mut m, " below minimum ");
            append_level_name(&mut m, self.routing_policy.minimum_trust_level);
            return Err(AttestationServiceError::PolicyRejected(m));
        }
        if !result.is_valid || !result.is_fresh {
            return Err(
                AttestationServiceError::PolicyRejected(
                    copy_str("provider verification did not return valid/fresh evidence"),
                ),
            );
        }
        let mut out = result;
        append_str(&mut out.summary, "; policy=enforced");
        Ok(out)
    }
}

/// Evidence the routing policy accepts is valid, fresh, from an allowed
/// platform, within that platform's age limit and at or above the minimum
/// trust level; the verdict is kept apart from the summary.
pub proof fn lemma_accepted_evidence_meets_policy(p: AttestationRoutingPolicy, u: UnifiedView)
    requires
        policy_outcome(p, u) is Ok,
    ensures
        p.allowed_tees@.contains(u.tee_type),
        u.is_valid && u.is_fresh,
        u.tee_type == TeeType::SGX ==> u.evidence_age_seconds <= p.max_sgx_age_seconds,
        u.tee_type == TeeType::TrustZone ==> u.evidence_age_seconds <= p.max_trustzone_age_seconds,
        u.tee_type == TeeType::SGX || u.tee_type == TeeType::TrustZone,
        trust_rank(u.trust_level) >= trust_rank(p.minimum_trust_level),
        ({
            let v = policy_outcome(p, u)->Ok_0;
            v.tee_type == u.tee_type && v.is_valid == u.is_valid && v.is_fresh == u.is_fresh
                && v.evidence_age_seconds == u.evidence_age_seconds && v.trust_level == u.trust_level
        }),
{
}

impl Default for AttestationService {
    /// The service with the default TrustZone and routing policies.
    fn default() -> (s: Self)
        ensures
            s.spec_tz_policy().max_age_seconds == 300,
            s.spec_tz_policy().require_format_marker,
            s.spec_routing_policy().allowed_tees@ == set![TeeType::SGX, TeeType::TrustZone],
            s.spec_routing_policy().max_sgx_age_seconds == 3600,
            s.spec_routing_policy().max_trustzone_age_seconds == 300,
            s.spec_routing_policy().minimum_trust_level == TrustLevel::Low,
    {
        AttestationService::new()
    }
}

/// The answer of `s` to `report` when its verification runs at time `now`.
pub open spec fn report_answer_at(
    s: AttestationService,
    report: TeeAttestationReport,
    now: u64,
    res: Result<UnifiedAttestationResult, AttestationServiceError>,
) -> bool {
    if report.tee_type == TeeType::TrustZone {
        exists|v: TrustZoneVerificationResult|
            #![trigger tz_unified(v)]
            tz_result(s.spec_tz_policy(), report, now, v) && answers(
                res,
                policy_outcome(s.spec_routing_policy(), tz_unified(v)),
            )
    } else {
        report_answer(s, report, res)
    }
}

/// The answer of `s` to `quote` when its verification runs at time `now`.
pub open spec fn sgx_answer_at(
    s: AttestationService,
    quote: Quote,
    now: u64,
    res: Result<UnifiedAttestationResult, AttestationServiceError>,
) -> bool {
    exists|v: QuoteVerificationResult|
        #![trigger sgx_unified(v)]
        v.verified_at == now && standard_result(quote, 3600, v) && answers(
            res,
            policy_outcome(s.spec_routing_policy(), sgx_unified(v)),
        )
}

/// Two answers carry the same outcome: both succeed with the same verdict,
/// or both are rejected by the policy for the same reason, or both are the
/// same error.
pub open spec fn same_outcome(
    a: Result<UnifiedAttestationResult, AttestationServiceError>,
    b: Result<UnifiedAttestationResult, AttestationServiceError>,
) -> bool {
    match a {
        Ok(x) => b matches Ok(y) && x@ == y@,
        Err(AttestationServiceError::PolicyRejected(m)) => b matches Err(AttestationServiceError::PolicyRejected(n))
            && m@ == n@,
        Err(e) => b == Err::<UnifiedAttestationResult, AttestationServiceError>(e),
    }
}

/// Every answer to a report is the answer at the time its verification ran.
pub proof fn lemma_report_answer_has_a_time(
    s: AttestationService,
    report: TeeAttestationReport,
    res: Result<UnifiedAttestationResult, AttestationServiceError>,
)
    requires
        report_answer(s, report, res),
    ensures
        exists|now: u64| #[trigger] report_answer_at(s, report, now, res),
{
    if report.tee_type == TeeType::TrustZone {
        let v = choose|v: TrustZoneVerificationResult|
            #![trigger tz_unified(v)]
            tz_result(s.spec_tz_policy(), report, v.verified_at, v) && answers(
                res,
                policy_outcome(s.spec_routing_policy(), tz_unified(v)),
            );
        assert(report_answer_at(s, report, v.verified_at, res));
    } else {
        assert(report_answer_at(s, report, 0, res));
    }
}

/// A batch of reports is the single-report check applied to each report:
/// every answer `verify_report` gives is one that holds at the time its
/// verification runs, and item `i` of `verify_reports_batch` and a separate
/// `verify_report` call on report `i` that run at the same moment carry the
/// same outcome (a batch does not stop at a failing report; its counts are
/// those of its items).
pub proof fn lemma_report_batch_matches_single_calls(
    s: AttestationService,
    report: TeeAttestationReport,
    now: u64,
    item: Result<UnifiedAttestationResult, AttestationServiceError>,
    single: Result<UnifiedAttestationResult, AttestationServiceError>,
)
    requires
        report_answer_at(s, report, now, item),
        report_answer_at(s, report, now, single),
    ensures
        report_answer(s, report, item),
        same_outcome(item, single),
{
    if report.tee_type == TeeType::TrustZone {
        let v1 = choose|v: TrustZoneVerificationResult|
            #![trigger tz_unified(v)]
            tz_result(s.spec_tz_policy(), report, now, v) && answers(
                item,
                policy_outcome(s.spec_routing_policy(), tz_unified(v)),
            );
        let v2 = choose|v: TrustZoneVerificationResult|
            #![trigger tz_unified(v)]
            tz_result(s.spec_tz_policy(), report, now, v) && answers(
                single,
                policy_outcome(s.spec_routing_policy(), tz_unified(v)),
            );
        assert(v1 == v2);
        assert(tz_result(s.spec_tz_policy(), report, v1.verified_at, v1));
    }
}

/// A batch of SGX quotes is the single-quote check applied to each quote:
/// item `i` of `verify_sgx_quotes_batch` and a separate `verify_sgx_quote`
/// call on quote `i` that run at the same moment carry the same outcome.
pub proof fn lemma_quote_batch_matches_single_calls(
    s: AttestationService,
    quote: Quote,
    now: u64,
    item: Result<UnifiedAttestationResult, AttestationServiceError>,
    single: Result<UnifiedAttestationResult, AttestationServiceError>,
)
    requires
        sgx_answer_at(s, quote, now, item),
        sgx_answer_at(s, quote, now, single),
    ensures
        sgx_answer(s, quote, item),
        same_outcome(item, single),
{
    let v1 = choose|v: QuoteVerificationResult|
        #![trigger sgx_unified(v)]
        v.verified_at == now && standard_result(quote, 3600, v) && answers(
            item,
            policy_outcome(s.spec_routing_policy(), sgx_unified(v)),
        );
    let v2 = choose|v: QuoteVerificationResult|
        #![trigger sgx_unified(v)]
        v.verified_at == now && standard_result(quote, 3600, v) && answers(
            single,
            policy_outcome(s.spec_routing_policy(), sgx_unified(v)),
        );
    assert(sgx_unified(v1) == sgx_unified(v2));
}

} // verus!
