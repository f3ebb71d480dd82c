//! Compliance rules over audit logs.
//!
//! The integer rules live here: runs of consecutive `auth.failure` events
//! longer than allowed, `key.revoke` events not marked critical, and
//! revocations without any rotation.  Each check appends the violations it
//! finds to a list; a report records whether the list stayed empty.
use vstd::prelude::*;

use super::audit_log::{AuditEntry, AuditLog, Severity};
use crate::util::{append_decimal, append_str, copy_str, spec_decimal, str_eq};

verus! {

/// Errors of compliance evaluation.
#[derive(Debug, Clone, Copy, PartialEq, Eq, Structural)]
pub enum ComplianceError {
    /// The audit log has no entries.
    EmptyLog,
}

/// One compliance violation.
#[derive(Debug, Clone)]
pub struct ComplianceViolation {
    /// Human-readable description.
    pub description: String,
    /// Indices of the entries involved (empty for global rules).
    pub entry_indices: Vec<usize>,
}

/// Mathematical view of a [`ComplianceViolation`]: description and indices.
pub type ViolationView = (Seq<char>, Seq<usize>);

impl View for ComplianceViolation {
    type V = ViolationView;

    open spec fn view(&self) -> ViolationView {
        (self.description@, self.entry_indices@)
    }
}

/// The views of a list of violations.
pub open spec fn violation_views(v: Seq<ComplianceViolation>) -> Seq<ViolationView> {
    v.map_values(|x: ComplianceViolation| x@)
}

/// Result of evaluating rules against a log.
#[derive(Debug, Clone)]
pub struct ComplianceReport {
    /// Number of entries in the log.
    pub total_entries: usize,
    /// Violations found.
    pub violations: Vec<ComplianceViolation>,
    /// No violation was found.
    pub passed: bool,
}

impl ComplianceReport {
    /// The report on `log` with the violations the rules found.  Fails with
    /// `EmptyLog` when the log has no entries.
    pub fn from_violations(log: &AuditLog, violations: Vec<ComplianceViolation>) -> (res: Result<
        Self,
        ComplianceError,
    >)
        ensures
            log@.len() == 0 ==> res == Err::<ComplianceReport, ComplianceError>(ComplianceError::EmptyLog),
            log@.len() > 0 ==> (res matches Ok(r) && r.total_entries == log@.len() && r.violations
                == violations && r.passed == (violations@.len() == 0)),
    {
        if log.is_empty() {
            return Err(ComplianceError::EmptyLog);
        }
        let passed = violations.len() == 0;
        Ok(ComplianceReport { total_entries: log.len(), violations, passed })
    }
}

// ---------------------------------------------------------------------------
// Consecutive authentication failures
// ---------------------------------------------------------------------------

/// Scanning the entries: the current run of `auth.failure` indices and the
/// runs longer than `max` closed so far.
pub open spec fn auth_scan(entries: Seq<AuditEntry>, max: usize) -> (Seq<usize>, Seq<Seq<usize>>)
    decreases entries.len(),
{
    if entries.len() == 0 {
        (Seq::empty(), Seq::empty())
    } else {
        let (run, closed) = auth_scan(entries.drop_last(), max);
        let e = entries.last();
        if e.action@ == "auth.failure"@ {
            (run.push(e.index), closed)
        } else {
            (Seq::empty(), if run.len() > max {
                closed.push(run)
            } else {
                closed
            })
        }
    }
}

/// The maximal runs of consecutive `auth.failure` events longer than `max`,
/// as entry indices, in log order.
pub open spec fn long_auth_failure_runs(entries: Seq<AuditEntry>, max: usize) -> Seq<Seq<usize>> {
    let (run, closed) = auth_scan(entries, max);
    if run.len() > max {
        closed.push(run)
    } else {
        closed
    }
}

/// The violation reported for a run of `n` failures.
pub open spec fn auth_run_text(n: nat, max: usize) -> Seq<char> {
    spec_decimal(n) + " consecutive auth.failure events (max allowed: "@ + spec_decimal(max as nat) + ")"@
}

/// The violations for a list of runs.
pub open spec fn auth_run_violations(runs: Seq<Seq<usize>>, max: usize) -> Seq<ViolationView> {
    runs.map_values(|r: Seq<usize>| (auth_run_text(r.len(), max), r))
}

fn auth_run_violation(run: &Vec<usize>, max_consecutive: usize) -> (v: ComplianceViolation)
    ensures
        v@ == (auth_run_text(run@.len(), max_consecutive), run@),
{
    let mut d = String::new();
    append_decimal(&mut d, run.len() as u64);
    append_str(&mut d, " consecutive auth.failure events (max allowed: ");
    append_decimal(&mut d, max_consecutive as u64);
    append_str(&mut d, ")");
    ComplianceViolation { description: d, entry_indices: run.clone() }
}

/// Append a violation for every maximal run of consecutive `auth.failure`
/// events longer than `max_consecutive`: each new violation lists the
/// indices of such a run, every such run gets one, in log order.
pub fn check_consecutive_auth_failures(
    entries: &[AuditEntry],
    max_consecutive: usize,
    violations: &mut Vec<ComplianceViolation>,
)
    ensures
        violation_views(final(violations)@) == violation_views(old(violations)@) + auth_run_violations(
            long_auth_failure_runs(entries@, max_consecutive),
            max_consecutive,
        ),
        forall|k: int|
            old(violations)@.len() <= k < final(violations)@.len() ==> #[trigger] is_long_failure_run(
                entries@,
                max_consecutive,
                final(violations)@[k].entry_indices@,
            ),
        forall|a: int, b: int|
            #[trigger] maximal_failure_run(entries@, a, b) && b - a > max_consecutive ==> exists|k: int|
                old(violations)@.len() <= k < final(violations)@.len() && #[trigger] final(violations)@[k].entry_indices@
                    == run_indices(entries@, a, b),
{
    let ghost base = violation_views(violations@);
    let mut run: Vec<usize> = Vec::new();
    let mut i: usize = 0;
    while i < entries.len()
        invariant
            0 <= i <= entries@.len(),
            run@ == auth_scan(entries@.take(i as int), max_consecutive).0,
            violation_views(violations@) == base + auth_run_violations(
                auth_scan(entries@.take(i as int), max_consecutive).1,
                max_consecutive,
            ),
        decreases entries@.len() - i,
    {
        let ghost prev = entries@.take(i as int);
        proof {
            assert(entries@.take(i + 1).drop_last() =~= prev);
            assert(entries@.take(i + 1).last() == entries@[i as int]);
        }
        let entry = &entries[i];
        if str_eq(entry.action.as_str(), "auth.failure") {
            run.push(entry.index);
        } else {
            if run.len() > max_consecutive {
                let ghost vs = violations@;
                let v = auth_run_violation(&run, max_consecutive);
                violations.push(v);
                proof {
                    let runs = auth_scan(prev, max_consecutive).1;
                    assert(auth_run_violations(runs.push(run@), max_consecutive) =~= auth_run_violations(
                        runs,
                        max_consecutive,
                    ).push((auth_run_text(run@.len(), max_consecutive), run@)));
                    assert(violation_views(violations@) =~= violation_views(vs).push(v@));
                }
            }
            run = Vec::new();
        }
        i = i + 1;
    }
    assert(entries@.take(i as int) =~= entries@);
    if run.len() > max_consecutive {
        let ghost vs = violations@;
        let v = auth_run_violation(&run, max_consecutive);
        violations.push(v);
        proof {
            let runs = auth_scan(entries@, max_consecutive).1;
            assert(auth_run_violations(runs.push(run@), max_consecutive) =~= auth_run_violations(
                runs,
                max_consecutive,
            ).push((auth_run_text(run@.len(), max_consecutive), run@)));
            assert(violation_views(violations@) =~= violation_views(vs).push(v@));
        }
    }
    proof {
        lemma_long_runs_are_maximal_runs(entries@, max_consecutive);
        let runs = long_auth_failure_runs(entries@, max_consecutive);
        let base = old(violations)@.len() as int;
        let fv = violation_views(violations@);
        assert(fv.len() == violations@.len());
        assert(violation_views(old(violations)@).len() == base);
        assert forall|k: int| base <= k < violations@.len() implies #[trigger] is_long_failure_run(
            entries@,
            max_consecutive,
            violations@[k].entry_indices@,
        ) by {
            assert(fv[k] == violations@[k]@);
            assert(fv[k] == auth_run_violations(runs, max_consecutive)[k - base]);
            assert(is_long_failure_run(entries@, max_consecutive, runs[k - base]));
        }
        assert forall|a: int, b: int| #[trigger] maximal_failure_run(entries@, a, b) && b - a > max_consecutive implies exists|k: int|
            base <= k < violations@.len() && #[trigger] violations@[k].entry_indices@ == run_indices(entries@, a, b) by {
            let j = choose|j: int| 0 <= j < runs.len() && runs[j] == run_indices(entries@, a, b);
            let k = base + j;
            assert(fv[k] == violations@[k]@);
            assert(fv[k] == auth_run_violations(runs, max_consecutive)[j]);
            assert(violations@[k].entry_indices@ == run_indices(entries@, a, b));
        }
    }
}

// ---------------------------------------------------------------------------
// Revocation severity
// ---------------------------------------------------------------------------

/// The name Rust's `Debug` gives a severity.
pub open spec fn severity_name(s: Severity) -> Seq<char> {
    match s {
        Severity::Info => "Info"@,
        Severity::Warning => "Warning"@,
        Severity::Critical => "Critical"@,
    }
}

/// The violations for `key.revoke` entries not marked critical, in log
/// order.
pub open spec fn revocation_violations(entries: Seq<AuditEntry>) -> Seq<ViolationView>
    decreases entries.len(),
{
    if entries.len() == 0 {
        Seq::empty()
    } else {
        let e = entries.last();
        revocation_violations(entries.drop_last()) + if e.action@ == "key.revoke"@ && e.severity
            != Severity::Critical {
            seq![
                (
                    "key.revoke at index "@ + spec_decimal(e.index as nat) + " is not marked Critical (got "@
                        + severity_name(e.severity) + ")"@,
                    seq![e.index],
                ),
            ]
        } else {
            Seq::empty()
        }
    }
}

fn append_severity(s: &mut String, sev: Severity)
    ensures
        final(s)@ == old(s)@ + severity_name(sev),
{
    match sev {
        Severity::Info => append_str(s, "Info"),
        Severity::Warning => append_str(s, "Warning"),
        Severity::Critical => append_str(s, "Critical"),
    }
}

/// Append a violation for every `key.revoke` entry not marked critical.
pub fn check_revocation_criticality(entries: &[AuditEntry], violations: &mut Vec<ComplianceViolation>)
    ensures
        violation_views(final(violations)@) == violation_views(old(violations)@) + revocation_violations(entries@),
{
    let ghost base = violation_views(violations@);
    let mut i: usize = 0;
    while i < entries.len()
        invariant
            0 <= i <= entries@.len(),
            violation_views(violations@) == base + revocation_violations(entries@.take(i as int)),
        decreases entries@.len() - i,
    {
        proof {
            assert(entries@.take(i + 1).drop_last() =~= entries@.take(i as int));
            assert(entries@.take(i + 1).last() == entries@[i as int]);
        }
        let entry = &entries[i];
        let ghost vs = violations@;
        if str_eq(entry.action.as_str(), "key.revoke") && entry.severity != Severity::Critical {
            let mut d = copy_str("key.revoke at index ");
            append_decimal(&mut d, entry.index as u64);
            append_str(&mut d, " is not marked Critical (got ");
            append_severity(&mut d, entry.severity);
            append_str(&mut d, ")");
            let mut idx: Vec<usize> = Vec::new();
            idx.push(entry.index);
            let v = ComplianceViolation { description: d, entry_indices: idx };
            assert(v@.1 =~= seq![entry.index]);
            violations.push(v);
            proof {
                assert(violation_views(violations@) =~= violation_views(vs).push(v@));
            }
        } else {
            assert(violation_views(violations@) =~= violation_views(vs));
        }
        i = i + 1;
    }
    assert(entries@.take(i as int) =~= entries@);
}

// ---------------------------------------------------------------------------
// Revocations and rotations
// ---------------------------------------------------------------------------

/// Number of entries with `action`.
pub open spec fn count_action(entries: Seq<AuditEntry>, action: Seq<char>) -> nat
    decreases entries.len(),
{
    if entries.len() == 0 {
        0
    } else {
        count_action(entries.drop_last(), action) + if entries.last().action@ == action {
            1nat
        } else {
            0nat
        }
    }
}

proof fn lemma_count_action_bound(entries: Seq<AuditEntry>, action: Seq<char>)
    ensures
        count_action(entries, action) <= entries.len(),
    decreases entries.len(),
{
    if entries.len() > 0 {
        lemma_count_action_bound(entries.drop_last(), action);
    }
}

/// Number of entries with `action`.
pub fn count_entries_with_action(entries: &[AuditEntry], action: &str) -> (n: usize)
    ensures
        n == count_action(entries@, action@),
{
    let mut n: usize = 0;
    let mut i: usize = 0;
    while i < entries.len()
        invariant
            0 <= i <= entries@.len(),
            n == count_action(entries@.take(i as int), action@),
            n <= i,
        decreases entries@.len() - i,
    {
        assert(entries@.take(i + 1).drop_last() =~= entries@.take(i as int));
        if str_eq(entries[i].action.as_str(), action) {
            n = n + 1;
        }
        i = i + 1;
    }
    assert(entries@.take(i as int) =~= entries@);
    n
}

/// The violation for revocations with no rotation at all.
pub open spec fn undefined_ratio_text(revocations: nat) -> Seq<char> {
    spec_decimal(revocations) + " key.revoke events with 0 key.rotation events (ratio undefined)"@
}

/// Count `key.revoke` and `key.rotation` entries; when there are
/// revocations but no rotation, append the undefined-ratio violation.
/// Returns the two counts.
pub fn check_revocations_without_rotation(entries: &[AuditEntry], violations: &mut Vec<ComplianceViolation>) -> (counts: (
    usize,
    usize,
))
    ensures
        counts.0 == count_action(entries@, "key.revoke"@),
        counts.1 == count_action(entries@, "key.rotation"@),
        counts.1 == 0 && counts.0 > 0 ==> violation_views(final(violations)@) == violation_views(old(violations)@).push(
            (undefined_ratio_text(counts.0 as nat), Seq::<usize>::empty()),
        ),
        !(counts.1 == 0 && counts.0 > 0) ==> final(violations)@ == old(violations)@,
{
    let revocations = count_entries_with_action(entries, "key.revoke");
    let rotations = count_entries_with_action(entries, "key.rotation");
    if rotations == 0 && revocations > 0 {
        let ghost vs = violations@;
        let mut d = String::new();
        append_decimal(&mut d, revocations as u64);
        append_str(&mut d, " key.revoke events with 0 key.rotation events (ratio undefined)");
        let v = ComplianceViolation { description: d, entry_indices: Vec::new() };
        assert(v@.1 =~= Seq::<usize>::empty());
        violations.push(v);
        assert(violation_views(violations@) =~= violation_views(vs).push(v@));
    }
    (revocations, rotations)
}

/// Every reported run is longer than the limit: a log whose runs all stay
/// within the limit yields no violation.
pub proof fn lemma_long_runs_exceed_limit(entries: Seq<AuditEntry>, max: usize)
    ensures
        forall|i: int|
            0 <= i < long_auth_failure_runs(entries, max).len() ==> #[trigger] long_auth_failure_runs(
                entries,
                max,
            )[i].len() > max,
{
    lemma_auth_scan_closed_long(entries, max);
}

proof fn lemma_auth_scan_closed_long(entries: Seq<AuditEntry>, max: usize)
    ensures
        forall|i: int|
            0 <= i < auth_scan(entries, max).1.len() ==> #[trigger] auth_scan(entries, max).1[i].len() > max,
    decreases entries.len(),
{
    if entries.len() > 0 {
        lemma_auth_scan_closed_long(entries.drop_last(), max);
        let (run, closed) = auth_scan(entries.drop_last(), max);
        let now = auth_scan(entries, max).1;
        assert forall|i: int| 0 <= i < now.len() implies #[trigger] now[i].len() > max by {
            if i < closed.len() {
                assert(now[i] == closed[i]);
            }
        }
    }
}

/// The entry records an authentication failure.
pub open spec fn is_auth_failure(e: AuditEntry) -> bool {
    e.action@ == "auth.failure"@
}

/// Positions `a..b` hold a maximal run of consecutive `auth.failure`
/// entries: all of them are failures, and neither neighbour is.
pub open spec fn maximal_failure_run(entries: Seq<AuditEntry>, a: int, b: int) -> bool {
    &&& 0 <= a < b <= entries.len()
    &&& forall|i: int| a <= i < b ==> #[trigger] is_auth_failure(entries[i])
    &&& a == 0 || !is_auth_failure(entries[a - 1])
    &&& b == entries.len() || !is_auth_failure(entries[b])
}

/// The indices of the entries at positions `a..b`.
pub open spec fn run_indices(entries: Seq<AuditEntry>, a: int, b: int) -> Seq<usize> {
    entries.subrange(a, b).map_values(|e: AuditEntry| e.index)
}

/// `r` is the indices of a maximal run of consecutive `auth.failure`
/// entries longer than `max`.
pub open spec fn is_long_failure_run(entries: Seq<AuditEntry>, max: usize, r: Seq<usize>) -> bool {
    exists|a: int, b: int| #[trigger] maximal_failure_run(entries, a, b) && b - a > max && r == run_indices(entries, a, b)
}

/// What scanning `entries` has gathered: `run` is the trailing run of
/// failures, `closed` the long maximal runs that a later entry ended.
spec fn ended_long_run(entries: Seq<AuditEntry>, max: usize, r: Seq<usize>) -> bool {
    exists|a: int, b: int|
        #[trigger] maximal_failure_run(entries, a, b) && b < entries.len() && b - a > max && r == run_indices(
            entries,
            a,
            b,
        )
}

spec fn scan_state(entries: Seq<AuditEntry>, max: usize, run: Seq<usize>, closed: Seq<Seq<usize>>) -> bool {
    let n = entries.len() as int;
    let s = n - run.len();
    &&& 0 <= s
    &&& run == run_indices(entries, s, n)
    &&& forall|i: int| s <= i < n ==> #[trigger] is_auth_failure(entries[i])
    &&& s == 0 || !is_auth_failure(entries[s - 1])
    &&& forall|k: int| 0 <= k < closed.len() ==> #[trigger] ended_long_run(entries, max, closed[k])
    &&& forall|a: int, b: int|
        #[trigger] maximal_failure_run(entries, a, b) && b < n && b - a > max ==> closed.contains(
            run_indices(entries, a, b),
        )
}

proof fn lemma_scan_state(entries: Seq<AuditEntry>, max: usize)
    ensures
        scan_state(entries, max, auth_scan(entries, max).0, auth_scan(entries, max).1),
    decreases entries.len(),
{
    if entries.len() == 0 {
        assert(run_indices(entries, 0, 0) =~= Seq::<usize>::empty());
    } else {
        let p = entries.drop_last();
        let e = entries.last();
        let pn = p.len() as int;
        let n = entries.len() as int;
        lemma_scan_state(p, max);
        let (run0, closed0) = auth_scan(p, max);
        let s0 = pn - run0.len();
        assert forall|i: int| 0 <= i < pn implies entries[i] == #[trigger] p[i] by {}
        // A maximal run of the prefix that a later prefix entry ends stays maximal.
        assert forall|a: int, b: int| #[trigger] maximal_failure_run(p, a, b) && b < pn implies maximal_failure_run(
            entries,
            a,
            b,
        ) && run_indices(entries, a, b) == run_indices(p, a, b) by {
            assert forall|i: int| a <= i < b implies #[trigger] is_auth_failure(entries[i]) by {
                assert(is_auth_failure(p[i]));
            }
            assert(entries.subrange(a, b) =~= p.subrange(a, b));
        }
        assert forall|a: int, b: int| #[trigger] maximal_failure_run(entries, a, b) && b < pn implies maximal_failure_run(
            p,
            a,
            b,
        ) by {
            assert forall|i: int| a <= i < b implies #[trigger] is_auth_failure(p[i]) by {
                assert(is_auth_failure(entries[i]));
            }
        }
        let (run, closed) = auth_scan(entries, max);
        if is_auth_failure(e) {
            assert(entries.subrange(s0, n) =~= p.subrange(s0, pn).push(e));
            assert(run_indices(entries, s0, n) =~= run0.push(e.index));
            assert forall|i: int| s0 <= i < n implies #[trigger] is_auth_failure(entries[i]) by {
                if i < pn {
                    assert(is_auth_failure(p[i]));
                }
            }
            assert forall|k: int| 0 <= k < closed.len() implies #[trigger] ended_long_run(entries, max, closed[k]) by {
                assert(ended_long_run(p, max, closed0[k]));
                let (a, b) = choose|a: int, b: int|
                    #[trigger] maximal_failure_run(p, a, b) && b < pn && b - a > max && closed0[k] == run_indices(
                        p,
                        a,
                        b,
                    );
                assert(maximal_failure_run(entries, a, b));
            }
            assert forall|a: int, b: int| #[trigger] maximal_failure_run(entries, a, b) && b < n && b - a > max implies closed.contains(
                run_indices(entries, a, b),
            ) by {
                if b == pn {
                    assert(!is_auth_failure(entries[b]));
                    assert(entries[b] == e);
                }
                assert(maximal_failure_run(p, a, b));
            }
        } else {
            assert(run_indices(entries, n, n) =~= Seq::<usize>::empty());
            assert(entries[n - 1] == e);
            let long = run0.len() > max;
            assert forall|k: int| 0 <= k < closed.len() implies #[trigger] ended_long_run(entries, max, closed[k]) by {
                if k < closed0.len() {
                    assert(closed[k] == closed0[k]);
                    assert(ended_long_run(p, max, closed0[k]));
                    let (a, b) = choose|a: int, b: int|
                        #[trigger] maximal_failure_run(p, a, b) && b < pn && b - a > max && closed0[k] == run_indices(
                            p,
                            a,
                            b,
                        );
                    assert(maximal_failure_run(entries, a, b));
                } else {
                    assert(long && closed[k] == run0);
                    assert forall|i: int| s0 <= i < pn implies #[trigger] is_auth_failure(entries[i]) by {
                        assert(is_auth_failure(p[i]));
                    }
                    assert(maximal_failure_run(entries, s0, pn));
                    assert(entries.subrange(s0, pn) =~= p.subrange(s0, pn));
                    assert(run_indices(entries, s0, pn) == run0);
                    assert(ended_long_run(entries, max, closed[k]));
                }
            }
            assert forall|a: int, b: int| #[trigger] maximal_failure_run(entries, a, b) && b < n && b - a > max implies closed.contains(
                run_indices(entries, a, b),
            ) by {
                if b < pn {
                    assert(maximal_failure_run(p, a, b));
                    assert(closed0.contains(run_indices(p, a, b)));
                    let k = choose|k: int| 0 <= k < closed0.len() && closed0[k] =~= run_indices(p, a, b);
                    assert(closed[k] == closed0[k]);
                } else {
                    assert(b == pn);
                    if a < s0 {
                        assert(is_auth_failure(entries[s0 - 1]));
                        assert(entries[s0 - 1] == p[s0 - 1]);
                    }
                    if a > s0 {
                        assert(is_auth_failure(p[a - 1]));
                        assert(entries[a - 1] == p[a - 1]);
                    }
                    assert(a == s0);
                    assert(entries.subrange(s0, pn) =~= p.subrange(s0, pn));
                    assert(closed[closed.len() - 1] == run0);
                }
            }
        }
    }
}

/// The runs that `check_consecutive_auth_failures` reports are exactly the
/// maximal runs of consecutive `auth.failure` entries longer than the limit:
/// each reported run is the indices of such a run, and each such run is
/// reported.
pub proof fn lemma_long_runs_are_maximal_runs(entries: Seq<AuditEntry>, max: usize)
    ensures
        forall|k: int|
            0 <= k < long_auth_failure_runs(entries, max).len() ==> #[trigger] is_long_failure_run(
                entries,
                max,
                long_auth_failure_runs(entries, max)[k],
            ),
        forall|a: int, b: int|
            #[trigger] maximal_failure_run(entries, a, b) && b - a > max ==> long_auth_failure_runs(
                entries,
                max,
            ).contains(run_indices(entries, a, b)),
{
    lemma_scan_state(entries, max);
    let (run, closed) = auth_scan(entries, max);
    let n = entries.len() as int;
    let s = n - run.len();
    let runs = long_auth_failure_runs(entries, max);
    assert forall|k: int| 0 <= k < runs.len() implies #[trigger] is_long_failure_run(entries, max, runs[k]) by {
        if k < closed.len() {
            assert(runs[k] == closed[k]);
            assert(ended_long_run(entries, max, closed[k]));
            let (a, b) = choose|a: int, b: int|
                #[trigger] maximal_failure_run(entries, a, b) && b < n && b - a > max && closed[k] == run_indices(
                    entries,
                    a,
                    b,
                );
            assert(maximal_failure_run(entries, a, b));
            assert(is_long_failure_run(entries, max, runs[k]));
        } else {
            assert(run.len() > max && runs[k] == run);
            assert(maximal_failure_run(entries, s, n));
            assert(is_long_failure_run(entries, max, runs[k]));
        }
    }
    assert forall|a: int, b: int| #[trigger] maximal_failure_run(entries, a, b) && b - a > max implies runs.contains(
        run_indices(entries, a, b),
    ) by {
        if b < n {
            assert(closed.contains(run_indices(entries, a, b)));
            let k = choose|k: int| 0 <= k < closed.len() && closed[k] =~= run_indices(entries, a, b);
            assert(runs[k] == closed[k]);
        } else {
            if a < s {
                assert(is_auth_failure(entries[s - 1]));
            }
            if a > s {
                assert(is_auth_failure(entries[a - 1]));
            }
            assert(a == s);
            assert(runs[runs.len() - 1] == run);
        }
    }
}

/// Entry `i` is a `key.revoke` marked Info or Warning.
pub open spec fn non_critical_revocation(entries: Seq<AuditEntry>, i: int) -> bool {
    &&& 0 <= i < entries.len()
    &&& entries[i].action@ == "key.revoke"@
    &&& entries[i].severity == Severity::Info || entries[i].severity == Severity::Warning
}

/// The index list `r` names a non-critical revocation of `entries`.
pub open spec fn names_non_critical_revocation(entries: Seq<AuditEntry>, r: Seq<usize>) -> bool {
    exists|i: int| #[trigger] non_critical_revocation(entries, i) && r == seq![entries[i].index]
}

/// Some violation in `v` names exactly index `idx`.
pub open spec fn has_violation_for(v: Seq<ViolationView>, idx: usize) -> bool {
    exists|k: int| 0 <= k < v.len() && #[trigger] v[k].1 == seq![idx]
}

/// Every `key.revoke` entry marked Info or Warning gets a violation naming
/// exactly its index, and every violation names such an entry; revocations
/// marked Critical, and other actions, get none.
pub proof fn lemma_revocation_violations_exact(entries: Seq<AuditEntry>)
    ensures
        forall|i: int| #[trigger] non_critical_revocation(entries, i) ==> has_violation_for(
            revocation_violations(entries),
            entries[i].index,
        ),
        forall|k: int|
            0 <= k < revocation_violations(entries).len() ==> #[trigger] names_non_critical_revocation(
                entries,
                revocation_violations(entries)[k].1,
            ),
    decreases entries.len(),
{
    if entries.len() > 0 {
        let p = entries.drop_last();
        let e = entries.last();
        let n = entries.len() - 1;
        lemma_revocation_violations_exact(p);
        let vp = revocation_violations(p);
        let v = revocation_violations(entries);
        let flagged = e.action@ == "key.revoke"@ && e.severity != Severity::Critical;
        assert forall|k: int| 0 <= k < vp.len() implies v[k] == vp[k] by {}
        assert forall|i: int| #[trigger] non_critical_revocation(entries, i) implies has_violation_for(
            v,
            entries[i].index,
        ) by {
            if i < n {
                assert(entries[i] == p[i]);
                assert(non_critical_revocation(p, i));
                assert(has_violation_for(vp, p[i].index));
                let k = choose|k: int| 0 <= k < vp.len() && #[trigger] vp[k].1 == seq![p[i].index];
                assert(v[k] == vp[k]);
            } else {
                assert(entries[i] == e);
                assert(flagged);
                assert(v[vp.len() as int].1 == seq![e.index]);
            }
        }
        assert forall|k: int| 0 <= k < v.len() implies #[trigger] names_non_critical_revocation(entries, v[k].1) by {
            if k < vp.len() {
                assert(v[k] == vp[k]);
                assert(names_non_critical_revocation(p, vp[k].1));
                let i = choose|i: int| #[trigger] non_critical_revocation(p, i) && vp[k].1 == seq![p[i].index];
                assert(entries[i] == p[i]);
                assert(non_critical_revocation(entries, i));
            } else {
                assert(flagged);
                assert(entries[n] == e);
                assert(v[k].1 == seq![e.index]);
                assert(non_critical_revocation(entries, n));
            }
        }
    }
}

} // verus!
