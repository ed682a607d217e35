//! File reads and writes over the wire.
use vstd::prelude::*;

use crate::protocol::request::RequestEnvelope;
use crate::protocol::response::ResponseEnvelope;

verus! {

pub const MAX_WIRE_FILE_BYTES: u64 = 8388608;

#[derive(Debug, PartialEq, Eq)]
pub enum FsMessage {
    Read(RequestEnvelope<ReadFile>),
    ReadResult(ResponseEnvelope<FileContent>),
    Write(RequestEnvelope<WriteFile>),
    WriteResult(ResponseEnvelope<WriteResult>),
}

#[derive(Debug, PartialEq, Eq)]
pub struct ReadFile {
    pub path: String,
    pub max_bytes: u64,
}

#[derive(Debug, PartialEq, Eq)]
pub struct FileContent {
    pub bytes: Vec<u8>,
}

#[derive(Debug, PartialEq, Eq)]
pub struct WriteFile {
    pub path: String,
    pub bytes: Vec<u8>,
    pub create: bool,
}

#[derive(Clone, Copy, Debug, PartialEq, Eq, Structural)]
pub struct WriteResult {
    pub bytes_written: u64,
}

} // verus!
