use abir_guard::confidential_computing::mpc::{
    commitment_for, AggregateMessage, CommitSubmission, MpcError, MpcPolicy, MpcSession, RevealSubmission,
    ShareSubmission,
};

#[test]
fn test_policy_validation() {
    let p = MpcPolicy::new(3, 2, 4).expect("valid policy should pass");
    assert_eq!(p.total_parties, 3);
    assert_eq!(p.threshold, 2);
    assert_eq!(p.max_rounds, 4);
}

#[test]
fn test_register_and_submit() {
    let policy = MpcPolicy::new(3, 2, 3).expect("policy should pass");
    let mut session = MpcSession::new(policy);

    session.register_party("p1").expect("register p1 should pass");
    session.register_party("p2").expect("register p2 should pass");

    session
        .submit_share(ShareSubmission::new("p1", b"share1".to_vec()))
        .expect("share p1 should pass");
    session
        .submit_share(ShareSubmission::new("p2", b"share2".to_vec()))
        .expect("share p2 should pass");

    assert_eq!(session.submitted_shares(), 2);
    assert!(session.can_finalize());
}

#[test]
fn test_finalize_digest_deterministic() {
    let policy = MpcPolicy::new(3, 2, 3).expect("policy should pass");
    let mut session_a = MpcSession::new(policy.clone());
    let mut session_b = MpcSession::new(policy);

    session_a.register_party("p1").expect("register p1 should pass");
    session_a.register_party("p2").expect("register p2 should pass");
    session_b.register_party("p1").expect("register p1 should pass");
    session_b.register_party("p2").expect("register p2 should pass");

    session_a
        .submit_share(ShareSubmission::new("p1", b"A".to_vec()))
        .expect("share p1 should pass");
    session_a
        .submit_share(ShareSubmission::new("p2", b"B".to_vec()))
        .expect("share p2 should pass");

    session_b
        .submit_share(ShareSubmission::new("p2", b"B".to_vec()))
        .expect("share p2 should pass");
    session_b
        .submit_share(ShareSubmission::new("p1", b"A".to_vec()))
        .expect("share p1 should pass");

    let digest_a = session_a.finalize_digest().expect("finalize should pass");
    let digest_b = session_b.finalize_digest().expect("finalize should pass");
    assert_eq!(digest_a, digest_b);
}

#[test]
fn test_finalize_rejects_insufficient_shares() {
    let policy = MpcPolicy::new(3, 2, 3).expect("policy should pass");
    let mut session = MpcSession::new(policy);
    session.register_party("p1").expect("register p1 should pass");
    session
        .submit_share(ShareSubmission::new("p1", b"share1".to_vec()))
        .expect("share p1 should pass");

    let err = session.finalize_digest().expect_err("finalize should fail");
    match err {
        MpcError::InsufficientShares => {}
        _ => panic!("unexpected error variant"),
    }
}

#[test]
fn test_commit_reveal_and_aggregate_flow() {
    let policy = MpcPolicy::new(3, 2, 3).expect("policy should pass");
    let mut session = MpcSession::new(policy);
    session.register_party("p1").expect("register p1 should pass");
    session.register_party("p2").expect("register p2 should pass");

    let c1 = commitment_for(b"share-a");
    let c2 = commitment_for(b"share-b");

    session
        .submit_commit(CommitSubmission::new("p1", c1, 11, 1))
        .expect("commit p1 should pass");
    session
        .submit_commit(CommitSubmission::new("p2", c2, 12, 1))
        .expect("commit p2 should pass");

    session
        .submit_reveal(RevealSubmission::new("p1", b"share-a".to_vec(), 21, 1))
        .expect("reveal p1 should pass");
    session
        .submit_reveal(RevealSubmission::new("p2", b"share-b".to_vec(), 22, 1))
        .expect("reveal p2 should pass");

    let digest = session.finalize_digest().expect("finalize should pass");
    let aggregate = AggregateMessage::new(1, 31, digest);
    session
        .apply_aggregate(&aggregate)
        .expect("aggregate should pass");
}

#[test]
fn test_replay_nonce_rejected() {
    let policy = MpcPolicy::new(3, 2, 3).expect("policy should pass");
    let mut session = MpcSession::new(policy);
    session.register_party("p1").expect("register p1 should pass");

    let c1 = commitment_for(b"share-a");
    session
        .submit_commit(CommitSubmission::new("p1", c1, 99, 1))
        .expect("first commit should pass");

    let err = session
        .submit_reveal(RevealSubmission::new("p1", b"share-a".to_vec(), 99, 1))
        .expect_err("replay nonce should fail");
    match err {
        MpcError::ReplayDetected(99) => {}
        _ => panic!("unexpected error variant"),
    }
}

