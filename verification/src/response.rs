//! The response half of the wire contract: outcome status, the full
//! response record, and the status-derivation rule.

use vstd::prelude::*;

verus! {

use crate::state::{StateModel, TalonEditorState};

/// Protocol version stamped into every response.
pub const PROTOCOL_VERSION: u64 = 1;

/// Outcome of one processing cycle.
///
/// `Success` is reported on the wire as `"ok"`, `NoRequest` as
/// `"no_request"` and `Error` as `"error"`.
#[derive(PartialEq, Eq, Structural)]
pub enum TalonResponseStatus {
    Success,
    NoRequest,
    Error,
}

/// The full response record, overwritten whole on every processing cycle.
pub struct TalonResponse {
    pub version: u64,
    pub status: TalonResponseStatus,
    pub state: TalonEditorState,
    pub applied: Vec<String>,
    pub error: Option<String>,
    pub timestamp_ms: u64,
}

/// Mathematical model of a response.
#[verifier::ext_equal]
pub ghost struct ResponseModel {
    pub version: u64,
    pub status: TalonResponseStatus,
    pub state: StateModel,
    pub applied: Seq<Seq<char>>,
    pub error: Option<Seq<char>>,
    pub timestamp_ms: u64,
}

impl View for TalonResponse {
    type V = ResponseModel;

    open spec fn view(&self) -> ResponseModel {
        ResponseModel {
            version: self.version,
            status: self.status,
            state: self.state@,
            applied: self.applied.deep_view(),
            error: self.error.deep_view(),
            timestamp_ms: self.timestamp_ms,
        }
    }
}

/// The status a response must carry: `Error` if an error occurred anywhere
/// in the pipeline, `NoRequest` if nothing was applied and no error
/// occurred, and `Success` otherwise.
pub open spec fn spec_status(applied_len: nat, error: Option<Seq<char>>) -> TalonResponseStatus {
    if error is Some {
        TalonResponseStatus::Error
    } else if applied_len == 0 {
        TalonResponseStatus::NoRequest
    } else {
        TalonResponseStatus::Success
    }
}

/// Assemble the response for a processing cycle, deriving the status from
/// the applied labels and the error.
pub fn build_response(
    state: TalonEditorState,
    applied: Vec<String>,
    error: Option<String>,
    timestamp_ms: u64,
) -> (r: TalonResponse)
    ensures
        r@ =~= (ResponseModel {
            version: PROTOCOL_VERSION,
            status: spec_status(applied.deep_view().len(), error.deep_view()),
            state: state@,
            applied: applied.deep_view(),
            error: error.deep_view(),
            timestamp_ms: timestamp_ms,
        }),
{
    let status = if error.is_some() {
        TalonResponseStatus::Error
    } else if applied.len() == 0 {
        TalonResponseStatus::NoRequest
    } else {
        TalonResponseStatus::Success
    };
    TalonResponse { version: PROTOCOL_VERSION, status, state, applied, error, timestamp_ms }
}

} // verus!
