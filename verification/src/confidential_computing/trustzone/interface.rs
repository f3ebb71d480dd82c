//! OP-TEE style command interface: requests, responses and the dispatch
//! decision for a TrustZone session.
//!
//! Payload encoding is JSON and happens at the transport edge: dispatch says
//! which value to encode, or that the request payload must be decoded as
//! sealed data and handed to [`complete_unseal`].
use vstd::prelude::*;

use super::{sealed_by_trustzone, session_not_initialized, TrustZoneEnclave, TrustZoneError};
use crate::confidential_computing::tee_common::{SealedData, TeeAttestationReport, TeeType};
use crate::util::{copy_bytes, copy_str};

verus! {

/// Command identifiers of the trusted application.
#[derive(Debug, Clone, Copy, PartialEq, Eq, Structural)]
pub enum TaCommand {
    /// Retrieve the attestation report (command 1).
    GetAttestation,
    /// Seal the payload (command 2).
    SealData,
    /// Unseal the payload (command 3).
    UnsealData,
}

/// The numeric identifier of a command.
pub open spec fn command_code(c: TaCommand) -> u32 {
    match c {
        TaCommand::GetAttestation => 1,
        TaCommand::SealData => 2,
        TaCommand::UnsealData => 3,
    }
}

impl TaCommand {
    /// The numeric identifier of the command.
    pub fn code(&self) -> (c: u32)
        ensures
            c == command_code(*self),
    {
        match self {
            TaCommand::GetAttestation => 1,
            TaCommand::SealData => 2,
            TaCommand::UnsealData => 3,
        }
    }

    /// The command with numeric identifier `code`, if any.
    pub fn from_code(code: u32) -> (c: Option<TaCommand>)
        ensures
            c matches Some(cmd) ==> command_code(cmd) == code,
            c is None <==> !(1 <= code <= 3),
    {
        if code == 1 {
            Some(TaCommand::GetAttestation)
        } else if code == 2 {
            Some(TaCommand::SealData)
        } else if code == 3 {
            Some(TaCommand::UnsealData)
        } else {
            None
        }
    }
}

/// A command request for the secure world.
#[derive(Debug, Clone)]
pub struct TaRequest {
    /// Session the request is bound to.
    pub session_id: u64,
    /// Command identifier.
    pub command: TaCommand,
    /// Opaque payload bytes.
    pub payload: Vec<u8>,
}

impl TaRequest {
    /// A request for `command` in session `session_id`.
    pub fn new(session_id: u64, command: TaCommand, payload: Vec<u8>) -> (r: Self)
        ensures
            r.session_id == session_id,
            r.command == command,
            r.payload == payload,
    {
        TaRequest { session_id, command, payload }
    }
}

/// A response from the secure world.
#[derive(Debug, Clone)]
pub struct TaResponse {
    /// The operation succeeded.
    pub success: bool,
    /// Diagnostic message.
    pub message: String,
    /// Output payload.
    pub payload: Vec<u8>,
}

impl TaResponse {
    /// A successful response carrying `payload`.
    pub fn ok(payload: Vec<u8>) -> (r: Self)
        ensures
            r.success,
            r.message@.len() == 0,
            r.payload == payload,
    {
        TaResponse { success: true, message: String::new(), payload }
    }

    /// A failed response with `message` and no payload.
    pub fn err(message: &str) -> (r: Self)
        ensures
            !r.success,
            r.message@ == message@,
            r.payload@.len() == 0,
    {
        TaResponse { success: false, message: copy_str(message), payload: Vec::new() }
    }
}

/// What the transport does to finish a dispatched command.
#[derive(Debug)]
pub enum TaDispatch {
    /// The response is complete.
    Reply(TaResponse),
    /// Reply successfully with the JSON encoding of this report.
    EncodeReport(TeeAttestationReport),
    /// Reply successfully with the JSON encoding of this sealed data.
    EncodeSealed(SealedData),
    /// Decode the request payload as sealed data and pass it to
    /// [`complete_unseal`].
    DecodeSealed(Vec<u8>),
}

/// The error for dispatching on an uninitialized session.
pub open spec fn dispatch_not_initialized(e: TrustZoneError) -> bool {
    e matches TrustZoneError::InvalidState(m) && m@
        == "cannot dispatch command on uninitialized TrustZone session"@
}

/// Dispatch `request` through the session.
///
/// An uninitialized session is an error; a request for another session gets
/// the failed reply `session mismatch`; otherwise the command runs and the
/// result says what to encode or decode.
pub fn dispatch_command(enclave: &TrustZoneEnclave, request: &TaRequest) -> (res: Result<
    TaDispatch,
    TrustZoneError,
>)
    ensures
        !enclave.spec_initialized() ==> (res matches Err(e) && dispatch_not_initialized(e)),
        enclave.spec_initialized() && request.session_id != enclave.spec_session_id() ==> (res matches Ok(
            TaDispatch::Reply(r),
        ) && !r.success && r.message@ == "session mismatch"@ && r.payload@.len() == 0),
        enclave.spec_initialized() && request.session_id == enclave.spec_session_id() ==> match request.command {
            TaCommand::GetAttestation => (res matches Ok(TaDispatch::EncodeReport(rep)) && rep.tee_type
                == TeeType::TrustZone && rep.attestation_data@ == Seq::new(256, |i: int| 0u8) && rep.timestamp
                == 0),
            TaCommand::SealData => (res matches Ok(TaDispatch::EncodeSealed(s)) && sealed_by_trustzone(
                request.payload@,
                s,
            )),
            TaCommand::UnsealData => (res matches Ok(TaDispatch::DecodeSealed(p)) && p@ == request.payload@),
        },
{
    if !enclave.is_initialized() {
        return Err(
            TrustZoneError::InvalidState(copy_str("cannot dispatch command on uninitialized TrustZone session")),
        );
    }
    if request.session_id != enclave.session_id() {
        return Ok(TaDispatch::Reply(TaResponse::err("session mismatch")));
    }
    match request.command {
        TaCommand::GetAttestation => {
            let report = match enclave.get_attestation() {
                Ok(r) => r,
                Err(e) => {
                    return Err(e);
                },
            };
            Ok(TaDispatch::EncodeReport(report))
        },
        TaCommand::SealData => {
            let sealed = match enclave.seal_data(request.payload.as_slice()) {
                Ok(s) => s,
                Err(e) => {
                    return Err(e);
                },
            };
            Ok(TaDispatch::EncodeSealed(sealed))
        },
        TaCommand::UnsealData => Ok(TaDispatch::DecodeSealed(copy_bytes(request.payload.as_slice()))),
    }
}

/// Finish an unseal command with the decoded sealed data.
pub fn complete_unseal(enclave: &TrustZoneEnclave, sealed: &SealedData) -> (res: Result<TaResponse, TrustZoneError>)
    ensures
        !enclave.spec_initialized() ==> (res matches Err(e) && session_not_initialized(e)),
        enclave.spec_initialized() && sealed.tee_type != TeeType::TrustZone ==> (res matches Err(
            TrustZoneError::OperationFailed(m),
        ) && m@ == "Sealed payload does not belong to TrustZone"@),
        enclave.spec_initialized() && sealed.tee_type == TeeType::TrustZone ==> (res matches Ok(r) && r.success
            && r.payload@ == sealed.ciphertext@),
{
    let plain = match enclave.unseal_data(sealed) {
        Ok(p) => p,
        Err(e) => {
            return Err(e);
        },
    };
    Ok(TaResponse::ok(plain))
}

} // verus!
