use abir_guard::confidential_computing::trustzone::interface::{dispatch_command, TaCommand, TaDispatch, TaRequest};
use abir_guard::confidential_computing::trustzone::{TrustZoneConfig, TrustZoneEnclave};

#[test]
fn test_dispatch_session_mismatch() {
    let enclave = TrustZoneEnclave::initialize(TrustZoneConfig::secure_default())
        .expect("init should pass");
    let req = TaRequest::new(enclave.session_id() + 1, TaCommand::SealData, vec![]);
    let resp = match dispatch_command(&enclave, &req).expect("dispatch should return response") {
        TaDispatch::Reply(r) => r,
        other => panic!("unexpected dispatch outcome {:?}", other),
    };
    assert!(!resp.success);
    assert_eq!(resp.message, "session mismatch");
}
