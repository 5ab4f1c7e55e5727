//! The JSON front-end's data shapes and its pure response mapping. The
//! HTTP plumbing itself (routing, body decoding, TLS) is an external
//! collaborator; what is verified here is the translation between the
//! engine's answer and the wire reply.

use vstd::prelude::*;

use crate::context::LeasingResponse;
use crate::errors::{LldError, LldResult};

verus! {

/// The decoded body of `POST /request`.
#[derive(Debug)]
pub struct RestLeasingRequest {
    pub application_id: String,
    pub instance_id: String,
    pub duration: u64,
}

/// The JSON reply, tagged `granted`, `rejected` or `error`.
#[derive(Debug, PartialEq, Eq, Structural)]
pub enum RestLeasingResponse {
    Granted { validity: u64 },
    Rejected,
    Error,
}

/// The wire reply owed for an engine answer: a grant carries its expiry,
/// a legitimate denial is `rejected`, and a malfunction is `error` — the
/// latter two are never conflated.
pub open spec fn spec_rest_response(response: LldResult<LeasingResponse>) -> RestLeasingResponse {
    match response {
        Ok(LeasingResponse::Granted { validity }) => RestLeasingResponse::Granted { validity },
        Ok(LeasingResponse::Rejected) => RestLeasingResponse::Rejected,
        Err(_) => RestLeasingResponse::Error,
    }
}

/// Translate the engine's answer into the JSON reply to encode.
pub fn to_rest_response(response: LldResult<LeasingResponse>) -> (r: RestLeasingResponse)
    ensures
        r == spec_rest_response(response),
{
    match response {
        Ok(LeasingResponse::Granted { validity }) => RestLeasingResponse::Granted { validity },
        Ok(LeasingResponse::Rejected) => RestLeasingResponse::Rejected,
        Err(_) => RestLeasingResponse::Error,
    }
}

} // verus!
