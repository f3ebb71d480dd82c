use abir_guard::advanced_secret_sharing::{
    create_commitments, verify_authenticated_share, verify_share, AdvancedSharingError, ParticipantShare,
    ProactiveRefresher, VssCommitment,
};
use abir_guard::advanced_secret_sharing::authenticate_share;

#[test]
fn test_refresh_twice_restores_share() {
    let refresher = ProactiveRefresher::new();
    let share = b"a share that is longer than one mask block of thirty-two bytes";
    let once = refresher.refresh_share(share, b"seed").unwrap();
    let twice = refresher.refresh_share(&once, b"seed").unwrap();
    assert_eq!(twice, share.to_vec());
    assert_eq!(once.len(), share.len());
    assert_ne!(once, share.to_vec());
}

#[test]
fn test_refresh_empty_share_rejected() {
    let refresher = ProactiveRefresher::new();
    assert_eq!(refresher.refresh_share(b"", b"seed"), Err(AdvancedSharingError::InvalidShareLength));
}

#[test]
fn test_epoch_starts_at_one_and_saturates() {
    let mut refresher = ProactiveRefresher::new();
    assert_eq!(refresher.epoch, 1);
    refresher.advance_epoch();
    assert_eq!(refresher.epoch, 2);
    refresher.epoch = u64::MAX;
    refresher.advance_epoch();
    assert_eq!(refresher.epoch, u64::MAX);
}

#[test]
fn test_every_share_verifies_against_its_commitment() {
    let shares = vec![b"s1".to_vec(), b"s2".to_vec(), b"s3".to_vec()];
    let commitments = create_commitments(&shares);
    assert_eq!(commitments.len(), 3);
    for (i, share) in shares.iter().enumerate() {
        assert_eq!(commitments[i].index, i as u8);
        let v = verify_share(share, &commitments[i]).unwrap();
        assert_eq!(v.index, i as u8);
        assert_eq!(&v.share, share);
    }
}

#[test]
fn test_share_against_other_index_fails() {
    let shares = vec![b"s1".to_vec(), b"s2".to_vec()];
    let commitments = create_commitments(&shares);
    let moved = VssCommitment { index: 1, commitment: commitments[0].commitment.clone() };
    assert_eq!(verify_share(&shares[0], &moved), Err(AdvancedSharingError::VerificationFailed));
}

#[test]
fn test_verify_with_empty_key_rejected() {
    let auth = authenticate_share("p1", b"share", 1, b"ctx", b"key").unwrap();
    assert_eq!(verify_authenticated_share(&auth, b"ctx", b""), Err(AdvancedSharingError::EmptyMacKey));
}

#[test]
fn test_reshare_rejects_empty_source_share_after_epoch_advance() {
    let mut refresher = ProactiveRefresher::new();
    let current = vec![ParticipantShare::new("p1", b"share-a".to_vec()), ParticipantShare::new("p2", Vec::new())];
    let next = vec!["p1".to_string(), "p2".to_string()];
    let err = refresher.reshare_for_participants(&current, &next, 1, 1, b"seed").unwrap_err();
    assert_eq!(err, AdvancedSharingError::InvalidShareLength);
    assert_eq!(refresher.epoch, 2);
}

#[test]
fn test_reshare_threshold_above_roster_rejected_without_epoch_change() {
    let mut refresher = ProactiveRefresher::new();
    let current = vec![ParticipantShare::new("p1", b"share-a".to_vec())];
    let next = vec!["p1".to_string()];
    let err = refresher.reshare_for_participants(&current, &next, 1, 2, b"seed").unwrap_err();
    assert_eq!(err, AdvancedSharingError::InvalidThreshold);
    assert_eq!(refresher.epoch, 1);
}

#[test]
fn test_reshare_assigns_shares_round_robin() {
    let mut refresher = ProactiveRefresher::new();
    let current = vec![ParticipantShare::new("p1", b"aaaa".to_vec()), ParticipantShare::new("p2", b"bbbbbb".to_vec())];
    let next = vec!["q1".to_string(), "q2".to_string(), "q3".to_string()];
    let plan = refresher.reshare_for_participants(&current, &next, 2, 2, b"seed").unwrap();
    assert_eq!(plan.old_epoch, 1);
    assert_eq!(plan.new_epoch, 2);
    assert_eq!(plan.refreshed[0].participant_id, "q1");
    assert_eq!(plan.refreshed[2].participant_id, "q3");
    assert_eq!(plan.refreshed[0].share.len(), 4);
    assert_eq!(plan.refreshed[1].share.len(), 6);
    assert_eq!(plan.refreshed[2].share.len(), 4);
}
