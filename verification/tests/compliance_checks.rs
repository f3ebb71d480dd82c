use abir_guard::audit::audit_log::{AuditLog, Severity};
use abir_guard::audit::compliance::{
    check_consecutive_auth_failures, check_revocation_criticality, check_revocations_without_rotation,
    ComplianceError, ComplianceReport,
};

#[test]
fn test_auth_failure_runs_reported_with_indices() {
    let mut log = AuditLog::new();
    for i in 0..4u64 {
        log.append(i, "anon", "auth.failure", None, Severity::Warning).unwrap();
    }
    log.append(10, "sys", "session.end", None, Severity::Info).unwrap();
    log.append(11, "anon", "auth.failure", None, Severity::Warning).unwrap();
    log.append(12, "anon", "auth.failure", None, Severity::Warning).unwrap();
    let mut violations = Vec::new();
    check_consecutive_auth_failures(log.entries(), 1, &mut violations);
    assert_eq!(violations.len(), 2);
    assert_eq!(violations[0].entry_indices, vec![0, 1, 2, 3]);
    assert_eq!(violations[0].description, "4 consecutive auth.failure events (max allowed: 1)");
    assert_eq!(violations[1].entry_indices, vec![5, 6]);
    let mut none = Vec::new();
    check_consecutive_auth_failures(log.entries(), 4, &mut none);
    assert!(none.is_empty());
}

#[test]
fn test_non_critical_revocation_reported() {
    let mut log = AuditLog::new();
    log.append(1, "sys", "key.revoke", None, Severity::Critical).unwrap();
    log.append(2, "sys", "key.revoke", None, Severity::Info).unwrap();
    let mut violations = Vec::new();
    check_revocation_criticality(log.entries(), &mut violations);
    assert_eq!(violations.len(), 1);
    assert_eq!(violations[0].description, "key.revoke at index 1 is not marked Critical (got Info)");
    assert_eq!(violations[0].entry_indices, vec![1]);
}

#[test]
fn test_revocations_without_rotation() {
    let mut log = AuditLog::new();
    log.append(1, "sys", "key.revoke", None, Severity::Critical).unwrap();
    log.append(2, "sys", "key.revoke", None, Severity::Critical).unwrap();
    let mut violations = Vec::new();
    assert_eq!(check_revocations_without_rotation(log.entries(), &mut violations), (2, 0));
    assert_eq!(violations[0].description, "2 key.revoke events with 0 key.rotation events (ratio undefined)");
    assert!(violations[0].entry_indices.is_empty());
    log.append(3, "sys", "key.rotation", None, Severity::Info).unwrap();
    let mut more = Vec::new();
    assert_eq!(check_revocations_without_rotation(log.entries(), &mut more), (2, 1));
    assert!(more.is_empty());
}

#[test]
fn test_report_on_empty_and_clean_logs() {
    let empty = AuditLog::new();
    assert!(matches!(ComplianceReport::from_violations(&empty, Vec::new()), Err(ComplianceError::EmptyLog)));
    let mut log = AuditLog::new();
    log.append(1, "a", "key.generate", None, Severity::Info).unwrap();
    let report = ComplianceReport::from_violations(&log, Vec::new()).unwrap();
    assert!(report.passed);
    assert_eq!(report.total_entries, 1);
}
