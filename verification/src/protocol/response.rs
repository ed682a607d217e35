//! Responses, tagged like the requests that they answer.
use vstd::prelude::*;

use crate::protocol::request::{
    DocumentRevision, EnvironmentEpoch, ExecutionContextV1, WorkspaceEpoch,
};

verus! {

#[derive(Debug, PartialEq, Eq)]
pub struct ResponseEnvelope<T> {
    pub request_id: u128,
    pub workspace_epoch: WorkspaceEpoch,
    pub environment_epoch: EnvironmentEpoch,
    pub document_revision: Option<DocumentRevision>,
    pub execution_context: ExecutionContextV1,
    pub payload: Result<T, RemoteError>,
}

#[derive(Debug, PartialEq, Eq)]
pub struct RemoteError {
    pub code: RemoteErrorCode,
    pub message: String,
}

#[derive(Clone, Copy, Debug, PartialEq, Eq, Structural)]
pub enum RemoteErrorCode {
    InvalidRequest,
    PermissionDenied,
    NotFound,
    Cancelled,
    TimedOut,
    OutputLimit,
    StaleEpoch,
    Internal,
}

} // verus!
