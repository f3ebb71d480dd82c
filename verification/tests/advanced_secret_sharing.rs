use abir_guard::advanced_secret_sharing::{
    authenticate_share, create_commitments, verify_authenticated_share, verify_reshare_plan, verify_share,
    AdvancedSharingError, ParticipantShare, ProactiveRefresher,
};

#[test]
fn test_commitment_roundtrip() {
    let shares = vec![b"s1".to_vec(), b"s2".to_vec()];
    let commitments = create_commitments(&shares);

    let verified = verify_share(&shares[0], &commitments[0]).expect("verification should pass");
    assert_eq!(verified.index, 0);
    assert_eq!(verified.share, b"s1");
}

#[test]
fn test_commitment_rejects_tampered_share() {
    let shares = vec![b"s1".to_vec()];
    let commitments = create_commitments(&shares);

    let err = verify_share(b"tampered", &commitments[0]).expect_err("verification should fail");
    match err {
        AdvancedSharingError::VerificationFailed => {}
        _ => panic!("unexpected error variant"),
    }
}

#[test]
fn test_proactive_refresh_changes_with_epoch() {
    let mut refresher = ProactiveRefresher::new();
    let share = b"share-material";
    let seed = b"seed-01";

    let r1 = refresher.refresh_share(share, seed).expect("refresh should pass");
    refresher.advance_epoch();
    let r2 = refresher.refresh_share(share, seed).expect("refresh should pass");

    assert_ne!(r1, r2);
}

#[test]
fn test_reshare_join_participant() {
    let mut refresher = ProactiveRefresher::new();
    let current = vec![
        ParticipantShare::new("p1", b"share-a".to_vec()),
        ParticipantShare::new("p2", b"share-b".to_vec()),
        ParticipantShare::new("p3", b"share-c".to_vec()),
    ];
    let next = vec![
        "p1".to_string(),
        "p2".to_string(),
        "p3".to_string(),
        "p4".to_string(),
    ];

    let plan = refresher
        .reshare_for_participants(&current, &next, 2, 3, b"seed")
        .expect("reshare should pass");
    assert_eq!(plan.old_threshold, 2);
    assert_eq!(plan.new_threshold, 3);
    assert_eq!(plan.refreshed.len(), 4);
    assert_eq!(plan.old_epoch + 1, plan.new_epoch);
    assert!(verify_reshare_plan(&plan));
}

#[test]
fn test_reshare_leave_participant() {
    let mut refresher = ProactiveRefresher::new();
    let current = vec![
        ParticipantShare::new("p1", b"share-a".to_vec()),
        ParticipantShare::new("p2", b"share-b".to_vec()),
        ParticipantShare::new("p3", b"share-c".to_vec()),
        ParticipantShare::new("p4", b"share-d".to_vec()),
    ];
    let next = vec!["p1".to_string(), "p2".to_string(), "p3".to_string()];

    let plan = refresher
        .reshare_for_participants(&current, &next, 3, 2, b"seed")
        .expect("reshare should pass");
    assert_eq!(plan.refreshed.len(), 3);
    assert_eq!(plan.new_threshold, 2);
    assert!(verify_reshare_plan(&plan));
}

#[test]
fn test_reshare_rejects_invalid_threshold() {
    let mut refresher = ProactiveRefresher::new();
    let current = vec![
        ParticipantShare::new("p1", b"share-a".to_vec()),
        ParticipantShare::new("p2", b"share-b".to_vec()),
    ];
    let next = vec!["p1".to_string(), "p2".to_string()];

    let err = refresher
        .reshare_for_participants(&current, &next, 0, 2, b"seed")
        .expect_err("invalid threshold should fail");
    match err {
        AdvancedSharingError::InvalidThreshold => {}
        _ => panic!("unexpected error variant"),
    }
}

#[test]
fn test_authenticated_share_roundtrip() {
    let auth = authenticate_share("p1", b"secret-share", 3, b"reshare-v1", b"mac-key")
        .expect("authentication should succeed");
    verify_authenticated_share(&auth, b"reshare-v1", b"mac-key")
        .expect("verification should pass");
}

#[test]
fn test_authenticated_share_rejects_tampered_bytes() {
    let mut auth = authenticate_share("p1", b"secret-share", 3, b"reshare-v1", b"mac-key")
        .expect("authentication should succeed");
    auth.share_bytes[0] ^= 0xFF;
    let err = verify_authenticated_share(&auth, b"reshare-v1", b"mac-key")
        .expect_err("should reject tampered share");
    assert!(matches!(err, AdvancedSharingError::MacAuthenticationFailed));
}

#[test]
fn test_authenticated_share_rejects_wrong_epoch() {
    let mut auth = authenticate_share("p1", b"secret-share", 3, b"reshare-v1", b"mac-key")
        .expect("authentication should succeed");
    auth.epoch = 99;
    let err = verify_authenticated_share(&auth, b"reshare-v1", b"mac-key")
        .expect_err("should reject wrong epoch");
    assert!(matches!(err, AdvancedSharingError::MacAuthenticationFailed));
}

#[test]
fn test_authenticated_share_rejects_wrong_participant() {
    let mut auth = authenticate_share("p1", b"secret-share", 3, b"reshare-v1", b"mac-key")
        .expect("authentication should succeed");
    auth.participant_id = "attacker".to_string();
    let err = verify_authenticated_share(&auth, b"reshare-v1", b"mac-key")
        .expect_err("should reject wrong participant id");
    assert!(matches!(err, AdvancedSharingError::MacAuthenticationFailed));
}

#[test]
fn test_authenticated_share_rejects_wrong_context() {
    let auth = authenticate_share("p1", b"secret-share", 3, b"reshare-v1", b"mac-key")
        .expect("authentication should succeed");
    let err = verify_authenticated_share(&auth, b"other-context", b"mac-key")
        .expect_err("should reject wrong context");
    assert!(matches!(err, AdvancedSharingError::MacAuthenticationFailed));
}

#[test]
fn test_authenticated_share_rejects_empty_key() {
    let err = authenticate_share("p1", b"share", 1, b"ctx", b"")
        .expect_err("empty key should fail");
    assert!(matches!(err, AdvancedSharingError::EmptyMacKey));
}

#[test]
fn test_verify_reshare_plan_detects_tampering() {
    let mut refresher = ProactiveRefresher::new();
    let current = vec![
        ParticipantShare::new("p1", b"share-a".to_vec()),
        ParticipantShare::new("p2", b"share-b".to_vec()),
        ParticipantShare::new("p3", b"share-c".to_vec()),
    ];
    let next = vec!["p1".to_string(), "p2".to_string(), "p3".to_string()];

    let mut plan = refresher
        .reshare_for_participants(&current, &next, 2, 2, b"seed")
        .expect("reshare should pass");
    plan.refreshed[0].share[0] ^= 0xFF;

    assert!(!verify_reshare_plan(&plan));
}

