//! What becomes of the answers of the key service.
use vstd::prelude::*;
use crate::text::{hex_encode, hex_of, principal_text, principal_text_of};
use crate::types::{ErrorResponse, KeyResponse, TimelockError};

verus! {

/// A key handed out by the key service, hex encoded, for the principal with
/// bytes `caller`.
pub fn key_response(key: &[u8], caller: &[u8]) -> (r: KeyResponse)
    requires
        caller@.len() <= 29,
    ensures
        r.key_hex@ == hex_of(key@),
        r.caller@ == principal_text_of(caller@),
{
    KeyResponse { key_hex: hex_encode(key), caller: principal_text(caller) }
}

/// The answer to a request to the key service: the key, hex encoded, for
/// the principal with bytes `caller`, or the service's own description of
/// its failure.
pub fn key_service_answer(outcome: Result<Vec<u8>, String>, caller: &[u8]) -> (r: Result<KeyResponse, ErrorResponse>)
    requires
        caller@.len() <= 29,
    ensures
        outcome is Ok <==> r is Ok,
        r matches Ok(k) ==> k.key_hex@ == hex_of(outcome->Ok_0@) && k.caller@ == principal_text_of(caller@),
        r matches Err(e) ==> e.error == outcome->Err_0,
{
    match outcome {
        Ok(key) => Ok(key_response(key.as_slice(), caller)),
        Err(error) => Err(ErrorResponse { error }),
    }
}

/// The decryption key of a time-locked message: the hex-encoded key that
/// the key service derived, or its failure as `KeyServiceError`.
pub fn decryption_key_answer(outcome: Result<Vec<u8>, String>) -> (r: Result<String, TimelockError>)
    ensures
        outcome is Ok ==> r is Ok && r->Ok_0@ == hex_of(outcome->Ok_0@),
        outcome is Err ==> r == Err::<String, TimelockError>(TimelockError::KeyServiceError(outcome->Err_0)),
{
    match outcome {
        Ok(key) => Ok(hex_encode(key.as_slice())),
        Err(detail) => Err(TimelockError::KeyServiceError(detail)),
    }
}

} // verus!
