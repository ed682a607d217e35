//! Pseudo terminals over the wire.
use vstd::prelude::*;

use crate::protocol::request::{
    CommandSpec, DocumentRevision, EnvironmentEpoch, ExecutionContextV1, RequestEnvelope,
    WorkspaceEpoch,
};

verus! {

pub type StreamId = u64;

#[derive(Clone, Copy, Debug, PartialEq, Eq, Structural)]
pub struct PtySize {
    pub rows: u16,
    pub cols: u16,
    pub pixel_width: u16,
    pub pixel_height: u16,
}

impl PtySize {
    /// The size itself, unless it has no rows or no columns.
    pub fn validate(self) -> (r: Result<Self, &'static str>)
        ensures
            self.rows > 0 && self.cols > 0 ==> r == Ok::<Self, &'static str>(self),
            self.rows == 0 || self.cols == 0 ==> r is Err && r->Err_0@
                == "PTY rows and columns must be non-zero"@,
    {
        if self.rows == 0 || self.cols == 0 {
            Err("PTY rows and columns must be non-zero")
        } else {
            Ok(self)
        }
    }
}

/// What every message of one terminal stream is tagged with.
#[derive(Debug, PartialEq, Eq, Hash)]
pub struct PtyStreamContext {
    pub request_id: u128,
    pub stream_id: StreamId,
    pub generation: u64,
    pub workspace_epoch: WorkspaceEpoch,
    pub environment_epoch: EnvironmentEpoch,
    pub document_revision: Option<DocumentRevision>,
    pub execution_context: ExecutionContextV1,
}

impl Clone for PtyStreamContext {
    fn clone(&self) -> (copy: Self)
        ensures
            copy == *self,
    {
        PtyStreamContext { execution_context: self.execution_context.clone(), ..*self }
    }
}

impl PtyStreamContext {
    /// Whether two contexts name the same stream under the same tags.
    pub open spec fn equals(&self, other: &Self) -> bool {
        &&& self.request_id == other.request_id
        &&& self.stream_id == other.stream_id
        &&& self.generation == other.generation
        &&& self.workspace_epoch == other.workspace_epoch
        &&& self.environment_epoch == other.environment_epoch
        &&& self.document_revision == other.document_revision
        &&& self.execution_context@ == other.execution_context@
    }

    pub fn same(&self, other: &Self) -> (same: bool)
        ensures
            same == self.equals(other),
    {
        let revisions = match (self.document_revision, other.document_revision) {
            (None, None) => true,
            (Some(a), Some(b)) => a == b,
            _ => false,
        };
        self.request_id == other.request_id && self.stream_id == other.stream_id && self.generation
            == other.generation && self.workspace_epoch == other.workspace_epoch
            && self.environment_epoch == other.environment_epoch && revisions
            && self.execution_context.same(&other.execution_context)
    }

    /// The context of the stream that a spawn request opens.
    pub fn from_spawn(request: &RequestEnvelope<PtySpawn>) -> (context: Self)
        ensures
            context.request_id == request.request_id,
            context.stream_id == request.payload.stream_id,
            context.generation == request.payload.generation,
            context.workspace_epoch == request.workspace_epoch,
            context.environment_epoch == request.environment_epoch,
            context.document_revision == request.document_revision,
            context.execution_context == request.execution_context,
    {
        PtyStreamContext {
            request_id: request.request_id,
            stream_id: request.payload.stream_id,
            generation: request.payload.generation,
            workspace_epoch: request.workspace_epoch,
            environment_epoch: request.environment_epoch,
            document_revision: request.document_revision,
            execution_context: request.execution_context.clone(),
        }
    }
}

#[derive(Debug, PartialEq, Eq)]
pub enum PtyMessage {
    Spawn(RequestEnvelope<PtySpawn>),
    Input { context: PtyStreamContext, bytes: Vec<u8> },
    Resize { context: PtyStreamContext, size: PtySize },
    Cancel { context: PtyStreamContext },
    Started { context: PtyStreamContext, process_id: Option<u32> },
    Output { context: PtyStreamContext, bytes: Vec<u8> },
    Exited { context: PtyStreamContext, exit_code: Option<i32>, truncated: bool },
    Lost { context: PtyStreamContext, reason: String },
}

#[derive(Debug, PartialEq, Eq)]
pub struct PtySpawn {
    pub stream_id: StreamId,
    pub generation: u64,
    pub command: CommandSpec,
    pub size: PtySize,
}

/// Two contexts are the same only where they name the same stream and agree in every
/// tag; a context is the same as itself.
pub proof fn streams_are_told_apart(a: PtyStreamContext, b: PtyStreamContext)
    ensures
        a.equals(&a),
        a.equals(&b) == b.equals(&a),
        a.stream_id != b.stream_id ==> !a.equals(&b),
        a.generation != b.generation ==> !a.equals(&b),
        a.request_id != b.request_id ==> !a.equals(&b),
        a.workspace_epoch != b.workspace_epoch ==> !a.equals(&b),
        a.environment_epoch != b.environment_epoch ==> !a.equals(&b),
        a.document_revision != b.document_revision ==> !a.equals(&b),
        a.execution_context@ != b.execution_context@ ==> !a.equals(&b),
{
}

} // verus!
