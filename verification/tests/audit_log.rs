use abir_guard::audit::audit_log::{AuditError, AuditLog, Severity};

fn fill_log(log: &mut AuditLog) {
    log.append(1000, "alice", "key.generate", None, Severity::Info)
        .unwrap();
    log.append(1001, "alice", "vault.open", Some("vault-id=v1".into()), Severity::Info)
        .unwrap();
    log.append(1002, "bob", "key.revoke", None, Severity::Warning)
        .unwrap();
}

#[test]
fn test_append_and_length() {
    let mut log = AuditLog::new();
    fill_log(&mut log);
    assert_eq!(log.len(), 3);
}

#[test]
fn test_chain_valid_after_appends() {
    let mut log = AuditLog::new();
    fill_log(&mut log);
    log.verify_chain().expect("chain should be valid");
}

#[test]
fn test_chain_detects_tampered_action() {
    let mut log = AuditLog::new();
    fill_log(&mut log);
    // Tamper with the second entry's action.
    let mut entries = log.into_entries();
    entries[1].action = "tampered.action".into();
    let log = AuditLog::from_entries(entries);
    let err = log.verify_chain().expect_err("chain should be broken");
    assert!(matches!(err, AuditError::ChainBroken(1)));
}

#[test]
fn test_chain_detects_tampered_hash() {
    let mut log = AuditLog::new();
    fill_log(&mut log);
    let mut entries = log.into_entries();
    entries[0].entry_hash[0] ^= 0xFF;
    let log = AuditLog::from_entries(entries);
    let err = log.verify_chain().expect_err("chain broken");
    assert!(matches!(err, AuditError::ChainBroken(0)));
}

#[test]
fn test_verify_empty_log_returns_error() {
    let log = AuditLog::new();
    let err = log.verify_chain().expect_err("empty log");
    assert_eq!(err, AuditError::EmptyLog);
}

#[test]
fn test_entries_by_actor() {
    let mut log = AuditLog::new();
    fill_log(&mut log);
    let alice = log.entries_by_actor("alice");
    assert_eq!(alice.len(), 2);
}

#[test]
fn test_entries_by_action() {
    let mut log = AuditLog::new();
    fill_log(&mut log);
    let generates = log.entries_by_action("key.generate");
    assert_eq!(generates.len(), 1);
}

#[test]
fn test_entries_by_severity_warning_and_above() {
    let mut log = AuditLog::new();
    fill_log(&mut log);
    log.append(1003, "sys", "auth.failure", None, Severity::Critical)
        .unwrap();
    let high = log.entries_by_severity(&Severity::Warning);
    assert_eq!(high.len(), 2);
}

#[test]
fn test_empty_actor_rejected() {
    let mut log = AuditLog::new();
    let err = log
        .append(0, "", "action", None, Severity::Info)
        .expect_err("empty actor");
    assert_eq!(err, AuditError::EmptyActor);
}

#[test]
fn test_empty_action_rejected() {
    let mut log = AuditLog::new();
    let err = log
        .append(0, "actor", "", None, Severity::Info)
        .expect_err("empty action");
    assert_eq!(err, AuditError::EmptyAction);
}

#[test]
fn test_index_is_sequential() {
    let mut log = AuditLog::new();
    fill_log(&mut log);
    for (i, entry) in log.entries().iter().enumerate() {
        assert_eq!(entry.index, i);
    }
}

