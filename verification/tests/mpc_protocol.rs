use abir_guard::confidential_computing::mpc::{
    commitment_for, AggregateMessage, CommitSubmission, MpcError, MpcPolicy, MpcSession, RevealSubmission,
    ShareSubmission,
};
use abir_guard::util::hex_encode;

fn session_with(parties: &[&str]) -> MpcSession {
    let mut s = MpcSession::new(MpcPolicy::new(3, 2, 2).unwrap());
    for p in parties {
        s.register_party(p).unwrap();
    }
    s
}

#[test]
fn test_policy_rejections() {
    assert!(matches!(MpcPolicy::new(0, 1, 1), Err(MpcError::InvalidPolicy(m)) if m == "total_parties must be greater than zero"));
    assert!(matches!(MpcPolicy::new(2, 0, 1), Err(MpcError::InvalidPolicy(m)) if m == "threshold must be between 1 and total_parties"));
    assert!(matches!(MpcPolicy::new(2, 3, 1), Err(MpcError::InvalidPolicy(_))));
    assert!(matches!(MpcPolicy::new(2, 2, 0), Err(MpcError::InvalidPolicy(m)) if m == "max_rounds must be greater than zero"));
}

#[test]
fn test_session_nonce_formula() {
    let s = MpcSession::new(MpcPolicy::new(3, 2, 4).unwrap());
    assert_eq!(s.session_nonce(), (3u64 << 32) ^ (2u64 << 16) ^ 4);
    assert_eq!(s.session_nonce(), 12885032964);
    assert_eq!(s.round(), 1);
}

#[test]
fn test_registration_and_share_errors() {
    let mut s = session_with(&["p1"]);
    assert_eq!(s.register_party("p1"), Err(MpcError::DuplicateParty("p1".to_string())));
    assert_eq!(s.submit_share(ShareSubmission::new("ghost", b"x".to_vec())), Err(MpcError::UnknownParty("ghost".to_string())));
    s.submit_share(ShareSubmission::new("p1", b"x".to_vec())).unwrap();
    assert_eq!(s.submit_share(ShareSubmission::new("p1", b"y".to_vec())), Err(MpcError::DuplicateShare("p1".to_string())));
    assert_eq!(s.submitted_shares(), 1);
    assert!(!s.can_finalize());
    assert_eq!(s.finalize_digest(), Err(MpcError::InsufficientShares));
}

#[test]
fn test_digest_is_sha256_in_party_order() {
    let mut s = session_with(&["p2", "p1"]);
    s.submit_share(ShareSubmission::new("p2", b"B".to_vec())).unwrap();
    s.submit_share(ShareSubmission::new("p1", b"A".to_vec())).unwrap();
    let d = s.finalize_digest().unwrap();
    assert_eq!(hex_encode(&d), "9aab681dffc446fee679fcf27370ec7f4699db8c4559e2b12514ee65fc0d95aa");
}

#[test]
fn test_round_and_nonce_gate() {
    let mut s = session_with(&["p1"]);
    let c = commitment_for(b"s");
    assert_eq!(
        s.submit_commit(CommitSubmission::new("p1", c.clone(), 5, 2)),
        Err(MpcError::RoundMismatch { expected: 1, received: 2 })
    );
    s.submit_commit(CommitSubmission::new("p1", c.clone(), 5, 1)).unwrap();
    assert_eq!(s.submit_commit(CommitSubmission::new("p1", c.clone(), 5, 1)), Err(MpcError::ReplayDetected(5)));
    assert_eq!(s.submit_commit(CommitSubmission::new("p1", c, 6, 1)), Err(MpcError::DuplicateCommitment("p1".to_string())));
    assert_eq!(s.submit_commit(CommitSubmission::new("ghost", vec![], 7, 1)), Err(MpcError::UnknownParty("ghost".to_string())));
}

#[test]
fn test_reveal_checks_commitment() {
    let mut s = session_with(&["p1", "p2"]);
    assert_eq!(
        s.submit_reveal(RevealSubmission::new("p1", b"s".to_vec(), 1, 1)),
        Err(MpcError::UnknownCommitment("p1".to_string()))
    );
    s.submit_commit(CommitSubmission::new("p1", commitment_for(b"s"), 2, 1)).unwrap();
    assert_eq!(
        s.submit_reveal(RevealSubmission::new("p1", b"other".to_vec(), 3, 1)),
        Err(MpcError::InvalidCommitment("p1".to_string()))
    );
    s.submit_reveal(RevealSubmission::new("p1", b"s".to_vec(), 4, 1)).unwrap();
    assert_eq!(
        s.submit_reveal(RevealSubmission::new("p1", b"s".to_vec(), 8, 1)),
        Err(MpcError::DuplicateShare("p1".to_string()))
    );
}

#[test]
fn test_aggregate_mismatch_and_shortfall() {
    let mut s = session_with(&["p1", "p2"]);
    assert_eq!(s.apply_aggregate(&AggregateMessage::new(1, 1, vec![])), Err(MpcError::InsufficientShares));
    s.submit_share(ShareSubmission::new("p1", b"A".to_vec())).unwrap();
    s.submit_share(ShareSubmission::new("p2", b"B".to_vec())).unwrap();
    assert_eq!(s.apply_aggregate(&AggregateMessage::new(1, 2, vec![0u8; 32])), Err(MpcError::AggregateMismatch));
    let d = s.finalize_digest().unwrap();
    s.apply_aggregate(&AggregateMessage::new(1, 3, d)).unwrap();
}

#[test]
fn test_round_advances_up_to_limit() {
    let mut s = session_with(&[]);
    s.advance_round();
    assert_eq!(s.round(), 2);
    s.advance_round();
    assert_eq!(s.round(), 2);
}

#[test]
fn test_error_messages() {
    assert_eq!(MpcError::RoundMismatch { expected: 1, received: 2 }.to_message(), "round mismatch: expected 1, got 2");
    assert_eq!(MpcError::ReplayDetected(99).to_message(), "nonce replay detected: 99");
    assert_eq!(MpcError::UnknownParty("x".to_string()).to_message(), "party is not registered: x");
}
