use abir_guard::blockchain::key_anchor::KeyAnchorError;
use abir_guard::blockchain::smart_contract::{ContractError, SimulatedContractAnchor, SmartContractAnchor};

fn contract_pk(label: &str) -> Vec<u8> {
    format!("contract-pk-{label}").into_bytes()
}

#[test]
fn test_submit_and_verify() {
    let mut contract = SimulatedContractAnchor::new();
    let anchor_id = contract
        .submit_anchor(&contract_pk("alice"), "alice", 0)
        .expect("submit should pass");
    let result = contract
        .verify_on_chain(&anchor_id)
        .expect("verify should pass");
    assert!(result.valid);
    assert_eq!(result.anchor_id, anchor_id);
    assert_eq!(result.block_height, 1);
}

#[test]
fn test_revoke_marks_invalid() {
    let mut contract = SimulatedContractAnchor::new();
    let anchor_id = contract
        .submit_anchor(&contract_pk("bob"), "bob", 0)
        .expect("submit");
    contract
        .revoke_anchor(&anchor_id, "bob")
        .expect("revoke should pass");
    let result = contract
        .verify_on_chain(&anchor_id)
        .expect("verify still returns result");
    assert!(!result.valid);
    assert_eq!(result.block_height, 2);
}

#[test]
fn test_verify_unknown_anchor_fails() {
    let contract = SimulatedContractAnchor::new();
    let err = contract
        .verify_on_chain("deadbeef")
        .expect_err("unknown anchor should fail");
    assert!(matches!(err, ContractError::VerificationFailed { .. }));
}

#[test]
fn test_revoke_wrong_owner_fails() {
    let mut contract = SimulatedContractAnchor::new();
    let anchor_id = contract
        .submit_anchor(&contract_pk("carol"), "carol", 0)
        .expect("submit");
    let err = contract
        .revoke_anchor(&anchor_id, "attacker")
        .expect_err("wrong owner should fail");
    assert!(matches!(err, ContractError::AnchorError(KeyAnchorError::OwnerMismatch { .. })));
}

#[test]
fn test_block_height_increments() {
    let mut contract = SimulatedContractAnchor::new();
    assert_eq!(contract.block_height, 0);
    contract.submit_anchor(&contract_pk("dan"), "dan", 0).expect("submit");
    assert_eq!(contract.block_height, 1);
    let anchor_id = contract
        .submit_anchor(&contract_pk("eve"), "eve", 0)
        .expect("submit");
    assert_eq!(contract.block_height, 2);
    contract.revoke_anchor(&anchor_id, "eve").expect("revoke");
    assert_eq!(contract.block_height, 3);
}

