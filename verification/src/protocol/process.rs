//! Programs run over the wire.
use vstd::prelude::*;

use crate::protocol::request::{CommandSpec, RequestEnvelope};
use crate::protocol::response::ResponseEnvelope;

verus! {

pub const MAX_WIRE_OUTPUT_BYTES: u64 = 2097152;

#[derive(Debug, PartialEq, Eq)]
pub enum ProcessMessage {
    Exec(RequestEnvelope<ExecRequest>),
    Cancel { request_id: u128 },
    Result(ResponseEnvelope<ExecOutput>),
}

#[derive(Debug, PartialEq, Eq)]
pub struct ExecRequest {
    pub command: CommandSpec,
    pub timeout_ms: u64,
    pub stdout_limit: u64,
    pub stderr_limit: u64,
}

#[derive(Debug, PartialEq, Eq)]
pub struct ExecOutput {
    pub exit_code: Option<i32>,
    pub stdout: Vec<u8>,
    pub stderr: Vec<u8>,
    pub stdout_truncated: bool,
    pub stderr_truncated: bool,
}

} // verus!
