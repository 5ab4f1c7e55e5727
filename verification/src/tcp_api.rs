//! The raw-TCP front-end's pure byte mapping. The socket handling is an
//! external collaborator; what is verified here is the translation
//! between the engine's answer and the single response byte, and the
//! client-side reading of that byte.

use vstd::prelude::*;

use crate::context::LeasingResponse;
use crate::errors::LldResult;

verus! {

/// The response byte owed for an engine answer: `48` for a grant, `49`
/// for a legitimate denial, `50` for a malfunction — the latter two are
/// never conflated.
pub open spec fn spec_tcp_response_byte(response: LldResult<LeasingResponse>) -> u8 {
    match response {
        Ok(LeasingResponse::Granted { validity: _ }) => 48,
        Ok(LeasingResponse::Rejected) => 49,
        Err(_) => 50,
    }
}

/// Encode the engine's answer as the single TCP response byte.
pub fn encode_tcp_response(response: &LldResult<LeasingResponse>) -> (b: u8)
    ensures
        b == spec_tcp_response_byte(*response),
{
    match response {
        Ok(LeasingResponse::Granted { validity: _ }) => 48,
        Ok(LeasingResponse::Rejected) => 49,
        Err(_) => 50,
    }
}

/// What a client concludes from the response byte: a grant byte means a
/// lease valid for `duration` from its own clock reading `now`; any
/// other byte means no lease.
pub fn client_validity_from_response(result: u8, duration: u64, now: u64) -> (r: Option<u64>)
    requires
        now + duration <= u64::MAX,
    ensures
        result == 48 ==> r == Some((now + duration) as u64),
        result != 48 ==> r is None,
{
    if result == 48 {
        Some(duration + now)
    } else {
        None
    }
}

} // verus!
