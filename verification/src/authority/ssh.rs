//! The authority of a machine reached over SSH: the connection to its helper, and
//! the requests and answers that go over it.
use vstd::prelude::*;

use super::base::{
    edit_evidence_fault, epoch_fault, found, is_probe, is_usable, lang_environment, probe_usable,
    AuthorityBase, ProbeOutput,
};
use super::local::{file_fault, run_fault};
use super::types::{
    AuthorityKind, AuthorityRequest, AuthorityResult, AuthorityTrust, ExecRequest,
    LspDocumentChange, LspDocumentRevisionSnapshot, LspWorkspaceEditPreconditions,
    LspWorkspaceEditRequest, PtyRequest, ReadFileRequest, WriteFileRequest,
};
use super::{AuthorityError, Awaited, EditConflict, ProtocolFault, SshFault};
use crate::config::{clone_strings, EffectiveLspConfig};
use crate::path::{joined, joined_paths_lie_below, only_names, path_below, path_parts};
use crate::protocol::fs::{FileContent, FsMessage, ReadFile, WriteFile, MAX_WIRE_FILE_BYTES};
use crate::protocol::lsp::{lsp_context, LspContext, LspServerConfig, LspV1};
use crate::protocol::message::Message;
use crate::protocol::process::{self, ExecOutput, ProcessMessage};
use crate::protocol::pty::PtySpawn;
use crate::protocol::request::{
    has_nul, holds_char, CommandSpec, DocumentRevision, EnvironmentEpoch, ExecutionContextV1,
    RequestEnvelope, WorkspaceEpoch,
};
use crate::protocol::response::{RemoteError, ResponseEnvelope};
use crate::remote::lsp::exited;
use crate::words::{
    begins_with, first_word, is_space, split_words, starts_with, texts, words_stand_between_space,
};

verus! {

/// How long the helper may take to answer a file request, in milliseconds.
pub const FILE_REQUEST_TIMEOUT_MS: u64 = 30000;

/// How much longer than a program may run its answer may take, in milliseconds.
pub const EXEC_GRACE_MS: u64 = 3000;

/// A connection to the helper. A lost one is no longer alive.
#[derive(Clone, Copy, Debug, PartialEq, Eq, Structural)]
pub struct Transport {
    pub id: u64,
    pub generation: u64,
    pub alive: bool,
}

#[derive(Debug)]
pub struct SshAuthority {
    pub base: AuthorityBase,
    pub transport: Option<Transport>,
}

/// The later of two environment epochs.
pub open spec fn later_epoch(a: EnvironmentEpoch, b: u64) -> EnvironmentEpoch {
    if a.0 >= b {
        a
    } else {
        EnvironmentEpoch(b)
    }
}

fn later(a: EnvironmentEpoch, b: u64) -> (e: EnvironmentEpoch)
    ensures
        e == later_epoch(a, b),
{
    if a.0 >= b {
        a
    } else {
        EnvironmentEpoch(b)
    }
}

/// Whether there is a connection that is alive.
pub open spec fn connected(a: SshAuthority) -> bool {
    a.transport is Some && a.transport->0.alive
}

/// The place on the remote machine that a path names: none if the path leaves the
/// root or holds NUL.
pub open spec fn remote_place(root: Seq<char>, path: Seq<char>) -> Option<Seq<char>> {
    if only_names(path_parts(path)) && !has_nul(joined(root, path)) {
        Some(joined(root, path))
    } else {
        None
    }
}

/// Whether an envelope carries the tags of a request and a payload.
pub open spec fn enveloped<A, T>(e: RequestEnvelope<T>, request: AuthorityRequest<A>) -> bool {
    &&& e.request_id == request.request_id
    &&& e.workspace_epoch == request.workspace_epoch
    &&& e.environment_epoch == request.environment_epoch
    &&& e.document_revision == request.document_revision
    &&& e.execution_context == ExecutionContextV1::AuthorityRoot
}

/// Why an answer is not taken: it belongs to another request, it is of other
/// epochs, or the epochs have moved on since.
pub open spec fn response_fault<A, T>(
    a: AuthorityBase,
    request: AuthorityRequest<A>,
    response: ResponseEnvelope<T>,
) -> Option<AuthorityError> {
    if response.request_id != request.request_id || response.document_revision
        != request.document_revision || !(response.execution_context@ is AuthorityRoot) {
        Some(AuthorityError::Protocol(ProtocolFault::ResponseMismatch))
    } else if response.workspace_epoch != request.workspace_epoch || response.environment_epoch
        != request.environment_epoch {
        Some(
            AuthorityError::StaleEpoch {
                expected_workspace: request.workspace_epoch,
                actual_workspace: response.workspace_epoch,
                expected_environment: request.environment_epoch,
                actual_environment: response.environment_epoch,
            },
        )
    } else {
        epoch_fault(a, request)
    }
}

/// A request that was made before a connection was lost is refused afterwards, and
/// so is the answer to it: the generation of the lost connection is a later epoch.
pub proof fn requests_end_with_their_connection<A, T>(
    a: AuthorityBase,
    request: AuthorityRequest<A>,
    response: ResponseEnvelope<T>,
    generation: u64,
)
    requires
        epoch_fault(a, request) is None,
        generation > a.environment_epoch.0,
    ensures
        ({
            let after = AuthorityBase {
                environment_epoch: later_epoch(a.environment_epoch, generation),
                ..a
            };
            &&& epoch_fault(after, request) is Some
            &&& response_fault(after, request, response) is Some
            &&& after.environment_epoch.0 >= a.environment_epoch.0
        }),
{
}

/// Why a request cannot be sent to a place: no connection, or no such place.
pub open spec fn send_fault(a: SshAuthority, path: String) -> Option<AuthorityError> {
    if !connected(a) {
        Some(AuthorityError::Ssh(SshFault::NotConnected))
    } else if remote_place(a.base.root@, path@) is None {
        Some(AuthorityError::PathEscapesRoot(path))
    } else {
        None
    }
}

/// The smaller of two sizes.
pub open spec fn wire_limit(n: usize) -> u64 {
    if n <= MAX_WIRE_FILE_BYTES {
        n as u64
    } else {
        MAX_WIRE_FILE_BYTES
    }
}

fn same_revision(
    a: Option<DocumentRevision>,
    b: Option<DocumentRevision>,
) -> (same: bool)
    ensures
        same == (a == b),
{
    match (a, b) {
        (None, None) => true,
        (Some(x), Some(y)) => x == y,
        _ => false,
    }
}

/// The bytes of a file that came in an answer, unless they are more than asked for.
pub open spec fn content_taken(payload: Result<FileContent, RemoteError>, max: u64) -> Result<
    Vec<u8>,
    AuthorityError,
> {
    match payload {
        Err(e) => Err(AuthorityError::Ssh(SshFault::Remote(e))),
        Ok(content) => if content.bytes@.len() > max {
            Err(AuthorityError::OutputLimit { limit: max as usize })
        } else {
            Ok(content.bytes)
        },
    }
}

impl SshAuthority {
    /// The authority for a root on a remote machine, which must be an absolute path.
    /// It starts without a connection, without trust and without grants.
    pub fn new(label: String, root: String, workspace_epoch: WorkspaceEpoch) -> (r: Result<
        Self,
        AuthorityError,
    >)
        ensures
            r is Ok <==> begins_with(root@, "/"@),
            r is Err ==> r->Err_0 == AuthorityError::Ssh(SshFault::RootNotAbsolute),
            r is Ok ==> r->Ok_0.transport is None && r->Ok_0.base.kind == AuthorityKind::Ssh
                && r->Ok_0.base.label == label && r->Ok_0.base.host_id == label
                && r->Ok_0.base.root == root && r->Ok_0.base.trust == AuthorityTrust::InspectOnly
                && r->Ok_0.base.workspace_epoch == workspace_epoch
                && r->Ok_0.base.environment_epoch.0 == 0 && r->Ok_0.base.next_id == 1
                && r->Ok_0.base.lsp_grants@.len() == 0,
    {
        if !starts_with(root.as_str(), "/") {
            return Err(AuthorityError::Ssh(SshFault::RootNotAbsolute));
        }
        Ok(
            SshAuthority {
                base: AuthorityBase {
                    kind: AuthorityKind::Ssh,
                    host_id: label.clone(),
                    label,
                    root,
                    trust: AuthorityTrust::InspectOnly,
                    workspace_epoch,
                    environment_epoch: EnvironmentEpoch(0),
                    next_id: 1,
                    lsp_grants: Vec::new(),
                },
                transport: None,
            },
        )
    }

    /// Begins to connect: a connection that is alive stays, a dead one is let go and
    /// its generation counts as passed. Nothing is connected without trust.
    pub fn begin_activation(&mut self) -> (r: Result<(), AuthorityError>)
        ensures
            if connected(*old(self)) {
                r == Err::<(), AuthorityError>(AuthorityError::Ssh(SshFault::AlreadyConnected)) && *final(self)
                    == *old(self)
            } else {
                &&& final(self).transport is None
                &&& final(self).base == (AuthorityBase {
                    environment_epoch: match old(self).transport {
                        Some(stale) => later_epoch(
                            old(self).base.environment_epoch,
                            stale.generation,
                        ),
                        None => old(self).base.environment_epoch,
                    },
                    ..old(self).base
                })
                &&& r == if old(self).base.trust == AuthorityTrust::ExecutionGranted {
                    Ok::<(), AuthorityError>(())
                } else {
                    Err::<(), AuthorityError>(AuthorityError::InspectOnly)
                }
            },
    {
        if let Some(transport) = self.transport {
            if transport.alive {
                return Err(AuthorityError::Ssh(SshFault::AlreadyConnected));
            }
            self.transport = None;
            self.base.environment_epoch = later(self.base.environment_epoch, transport.generation);
        }
        self.base.require_execution()
    }

    /// Takes over a connection that was made, unless it was lost already.
    pub fn finish_activation(&mut self, transport: Transport, lost: Option<(u64, String)>) -> (r:
        Result<(), AuthorityError>)
        ensures
            match lost {
                Some((generation, reason)) => {
                    &&& r == Err::<(), AuthorityError>(AuthorityError::Protocol(ProtocolFault::Other(reason)))
                    &&& final(self).transport == old(self).transport
                    &&& final(self).base == (AuthorityBase {
                        environment_epoch: later_epoch(
                            old(self).base.environment_epoch,
                            generation,
                        ),
                        ..old(self).base
                    })
                },
                None => {
                    &&& r is Ok
                    &&& *final(self) == (SshAuthority {
                        transport: Some(transport),
                        ..*old(self)
                    })
                },
            },
    {
        match lost {
            Some((generation, reason)) => {
                self.base.environment_epoch = later(self.base.environment_epoch, generation);
                Err(AuthorityError::Protocol(ProtocolFault::Other(reason)))
            },
            None => {
                self.transport = Some(transport);
                Ok(())
            },
        }
    }

    /// Takes note that a connection was lost: its generation counts as passed, and it
    /// is let go unless another one has taken its place.
    pub fn transport_lost(&mut self, id: u64, generation: u64)
        ensures
            final(self).base == (AuthorityBase {
                environment_epoch: later_epoch(old(self).base.environment_epoch, generation),
                ..old(self).base
            }),
            final(self).transport == match old(self).transport {
                Some(t) => if t.id == id {
                    None
                } else {
                    Some(t)
                },
                None => None,
            },
    {
        self.base.environment_epoch = later(self.base.environment_epoch, generation);
        if let Some(transport) = self.transport {
            if transport.id == id {
                self.transport = None;
            }
        }
    }

    /// Lets the connection go, which is then to be shut down.
    pub fn begin_disconnect(&mut self) -> (transport: Option<Transport>)
        ensures
            transport == old(self).transport,
            *final(self) == (SshAuthority { transport: None, ..*old(self) }),
    {
        let transport = self.transport;
        self.transport = None;
        transport
    }

    /// Takes note of the generation of a connection that was shut down.
    pub fn finish_disconnect(&mut self, generation: u64)
        ensures
            final(self).transport == old(self).transport,
            final(self).base == (AuthorityBase {
                environment_epoch: later_epoch(old(self).base.environment_epoch, generation),
                ..old(self).base
            }),
    {
        self.base.environment_epoch = later(self.base.environment_epoch, generation);
    }

    pub fn is_connected(&self) -> (yes: bool)
        ensures
            yes == connected(*self),
    {
        match self.transport {
            Some(transport) => transport.alive,
            None => false,
        }
    }

    /// The connection, if it is alive.
    pub fn current_transport(&self) -> (r: Result<Transport, AuthorityError>)
        ensures
            r == if connected(*self) {
                Ok::<Transport, AuthorityError>(self.transport->0)
            } else {
                Err::<Transport, AuthorityError>(AuthorityError::Ssh(SshFault::NotConnected))
            },
    {
        if let Some(transport) = self.transport {
            if transport.alive {
                return Ok(transport);
            }
        }
        Err(AuthorityError::Ssh(SshFault::NotConnected))
    }

    /// The place on the remote machine that a relative path names.
    pub fn resolve_remote(&self, path: &String) -> (r: Result<String, AuthorityError>)
        ensures
            match remote_place(self.base.root@, path@) {
                Some(place) => r is Ok && r->Ok_0@ == place,
                None => r == Err::<String, AuthorityError>(AuthorityError::PathEscapesRoot(*path)),
            },
    {
        match self.base.resolve_relative(path) {
            Err(e) => Err(e),
            Ok(resolved) => if holds_char(resolved.as_str(), '\0') {
                Err(AuthorityError::PathEscapesRoot(path.clone()))
            } else {
                Ok(resolved)
            },
        }
    }

    /// Checks that an answer belongs to a request and to the current epochs.
    pub fn validate_response<A, T>(
        &self,
        request: &AuthorityRequest<A>,
        response: &ResponseEnvelope<T>,
    ) -> (r: Result<(), AuthorityError>)
        ensures
            found(r, response_fault(self.base, *request, *response)),
    {
        let at_root = match response.execution_context {
            ExecutionContextV1::AuthorityRoot => true,
            _ => false,
        };
        if response.request_id != request.request_id || !same_revision(
            response.document_revision,
            request.document_revision,
        ) || !at_root {
            return Err(AuthorityError::Protocol(ProtocolFault::ResponseMismatch));
        }
        if response.workspace_epoch != request.workspace_epoch || response.environment_epoch
            != request.environment_epoch {
            return Err(
                AuthorityError::StaleEpoch {
                    expected_workspace: request.workspace_epoch,
                    actual_workspace: response.workspace_epoch,
                    expected_environment: request.environment_epoch,
                    actual_environment: response.environment_epoch,
                },
            );
        }
        self.base.validate_epochs(request)
    }

    /// A request as it goes over the wire, with a payload of its own.
    pub fn envelope<A, T>(&self, request: &AuthorityRequest<A>, payload: T) -> (e: RequestEnvelope<
        T,
    >)
        ensures
            enveloped(e, *request),
            e.payload == payload,
    {
        RequestEnvelope {
            request_id: request.request_id,
            workspace_epoch: request.workspace_epoch,
            environment_epoch: request.environment_epoch,
            document_revision: request.document_revision,
            execution_context: ExecutionContextV1::AuthorityRoot,
            payload,
        }
    }

    /// Finds where a request goes, if it can be sent at all.
    fn place_for(&self, path: &String) -> (r: Result<String, AuthorityError>)
        ensures
            match send_fault(*self, *path) {
                Some(e) => r == Err::<String, AuthorityError>(e),
                None => r is Ok && Some(r->Ok_0@) == remote_place(self.base.root@, path@),
            },
    {
        match self.current_transport() {
            Err(e) => return Err(e),
            Ok(_) => {},
        }
        self.resolve_remote(path)
    }

    /// The read request to send to the helper.
    pub fn begin_read(&self, request: &AuthorityRequest<ReadFileRequest>) -> (r: Result<
        RequestEnvelope<ReadFile>,
        AuthorityError,
    >)
        ensures
            match (file_fault(self.base, *request), send_fault(*self, request.payload.path)) {
                (Some(e), _) => r == Err::<RequestEnvelope<ReadFile>, AuthorityError>(e),
                (None, Some(e)) => r == Err::<RequestEnvelope<ReadFile>, AuthorityError>(e),
                (None, None) => {
                    &&& r is Ok
                    &&& enveloped(r->Ok_0, *request)
                    &&& r->Ok_0.payload.path@ == joined(self.base.root@, request.payload.path@)
                    &&& r->Ok_0.payload.max_bytes == wire_limit(request.payload.max_bytes)
                },
            },
    {
        match self.base.validate_epochs(request) {
            Err(e) => return Err(e),
            Ok(()) => {},
        }
        if request.document_revision.is_none() {
            return Err(AuthorityError::MissingDocumentRevision);
        }
        let path = match self.place_for(&request.payload.path) {
            Err(e) => return Err(e),
            Ok(p) => p,
        };
        let max_bytes: u64 = if request.payload.max_bytes as u64 <= MAX_WIRE_FILE_BYTES {
            request.payload.max_bytes as u64
        } else {
            MAX_WIRE_FILE_BYTES
        };
        Ok(self.envelope(request, ReadFile { path, max_bytes }))
    }

    /// The answer to a read request, from what the helper answered.
    pub fn finish_read(&self, request: AuthorityRequest<ReadFileRequest>, response: Message) -> (r:
        Result<AuthorityResult<Vec<u8>>, AuthorityError>)
        ensures
            match response {
                Message::Fs(FsMessage::ReadResult(answer)) => match response_fault(
                    self.base,
                    request,
                    answer,
                ) {
                    Some(e) => r == Err::<AuthorityResult<Vec<u8>>, AuthorityError>(e),
                    None => match content_taken(
                        answer.payload,
                        wire_limit(request.payload.max_bytes),
                    ) {
                        Err(e) => r == Err::<AuthorityResult<Vec<u8>>, AuthorityError>(e),
                        Ok(bytes) => r == Ok::<AuthorityResult<Vec<u8>>, AuthorityError>(
                            AuthorityResult {
                                request_id: request.request_id,
                                workspace_epoch: request.workspace_epoch,
                                environment_epoch: request.environment_epoch,
                                document_revision: request.document_revision,
                                payload: bytes,
                            },
                        ),
                    },
                },
                _ => r == Err::<AuthorityResult<Vec<u8>>, AuthorityError>(
                    AuthorityError::Protocol(ProtocolFault::UnexpectedResponse(Awaited::FileRead)),
                ),
            },
    {
        match response {
            Message::Fs(FsMessage::ReadResult(answer)) => {
                match self.validate_response(&request, &answer) {
                    Err(e) => return Err(e),
                    Ok(()) => {},
                }
                let max_bytes: u64 = if request.payload.max_bytes as u64 <= MAX_WIRE_FILE_BYTES {
                    request.payload.max_bytes as u64
                } else {
                    MAX_WIRE_FILE_BYTES
                };
                match answer.payload {
                    Err(e) => Err(AuthorityError::Ssh(SshFault::Remote(e))),
                    Ok(content) => if content.bytes.len() as u64 > max_bytes {
                        Err(AuthorityError::OutputLimit { limit: max_bytes as usize })
                    } else {
                        Ok(request.respond(content.bytes))
                    },
                }
            },
            _ => Err(AuthorityError::Protocol(ProtocolFault::UnexpectedResponse(Awaited::FileRead))),
        }
    }

    /// The write request to send to the helper. Too long a content is refused.
    pub fn begin_write(&self, request: &AuthorityRequest<WriteFileRequest>) -> (r: Result<
        RequestEnvelope<WriteFile>,
        AuthorityError,
    >)
        ensures
            match (file_fault(self.base, *request), send_fault(*self, request.payload.path)) {
                (Some(e), _) => r == Err::<RequestEnvelope<WriteFile>, AuthorityError>(e),
                (None, fault) => if request.payload.bytes@.len() > MAX_WIRE_FILE_BYTES {
                    r == Err::<RequestEnvelope<WriteFile>, AuthorityError>(
                        AuthorityError::InputLimit { limit: MAX_WIRE_FILE_BYTES as usize },
                    )
                } else {
                    match fault {
                        Some(e) => r == Err::<RequestEnvelope<WriteFile>, AuthorityError>(e),
                        None => {
                            &&& r is Ok
                            &&& enveloped(r->Ok_0, *request)
                            &&& r->Ok_0.payload.path@ == joined(
                                self.base.root@,
                                request.payload.path@,
                            )
                            &&& r->Ok_0.payload.bytes@ == request.payload.bytes@
                            &&& r->Ok_0.payload.create == request.payload.create
                        },
                    }
                },
            },
    {
        match self.base.validate_epochs(request) {
            Err(e) => return Err(e),
            Ok(()) => {},
        }
        if request.document_revision.is_none() {
            return Err(AuthorityError::MissingDocumentRevision);
        }
        if request.payload.bytes.len() as u64 > MAX_WIRE_FILE_BYTES {
            return Err(AuthorityError::InputLimit { limit: MAX_WIRE_FILE_BYTES as usize });
        }
        let path = match self.place_for(&request.payload.path) {
            Err(e) => return Err(e),
            Ok(p) => p,
        };
        let bytes = copy_bytes(&request.payload.bytes);
        Ok(self.envelope(request, WriteFile { path, bytes, create: request.payload.create }))
    }

    /// The answer to a write request, from what the helper answered.
    pub fn finish_write(&self, request: AuthorityRequest<WriteFileRequest>, response: Message) -> (
    r: Result<AuthorityResult<u64>, AuthorityError>)
        ensures
            match response {
                Message::Fs(FsMessage::WriteResult(answer)) => match (
                    response_fault(self.base, request, answer),
                    answer.payload,
                ) {
                    (Some(e), _) => r == Err::<AuthorityResult<u64>, AuthorityError>(e),
                    (None, Err(e)) => r == Err::<AuthorityResult<u64>, AuthorityError>(
                        AuthorityError::Ssh(SshFault::Remote(e)),
                    ),
                    (None, Ok(written)) => r == Ok::<AuthorityResult<u64>, AuthorityError>(
                        AuthorityResult {
                            request_id: request.request_id,
                            workspace_epoch: request.workspace_epoch,
                            environment_epoch: request.environment_epoch,
                            document_revision: request.document_revision,
                            payload: written.bytes_written,
                        },
                    ),
                },
                _ => r == Err::<AuthorityResult<u64>, AuthorityError>(
                    AuthorityError::Protocol(ProtocolFault::UnexpectedResponse(Awaited::FileWrite)),
                ),
            },
    {
        match response {
            Message::Fs(FsMessage::WriteResult(answer)) => {
                match self.validate_response(&request, &answer) {
                    Err(e) => return Err(e),
                    Ok(()) => {},
                }
                match answer.payload {
                    Err(e) => Err(AuthorityError::Ssh(SshFault::Remote(e))),
                    Ok(written) => Ok(request.respond(written.bytes_written)),
                }
            },
            _ => Err(AuthorityError::Protocol(ProtocolFault::UnexpectedResponse(Awaited::FileWrite))),
        }
    }

    /// The spawn request of a new terminal stream, if programs may be run and the
    /// request was not cancelled meanwhile.
    pub fn begin_pty(&mut self, request: AuthorityRequest<PtyRequest>, cancelled: bool) -> (r:
        Result<RequestEnvelope<PtySpawn>, AuthorityError>)
        ensures
            match run_fault(old(self).base, request) {
                Some(e) => r == Err::<RequestEnvelope<PtySpawn>, AuthorityError>(e)
                    && *final(self) == *old(self),
                None => if cancelled {
                    r == Err::<RequestEnvelope<PtySpawn>, AuthorityError>(
                        AuthorityError::Ssh(SshFault::SpawnCancelled),
                    ) && *final(self) == *old(self)
                } else if !connected(*old(self)) {
                    r == Err::<RequestEnvelope<PtySpawn>, AuthorityError>(
                        AuthorityError::Ssh(SshFault::NotConnected),
                    ) && *final(self) == *old(self)
                } else {
                    &&& r is Ok
                    &&& enveloped(r->Ok_0, request)
                    &&& r->Ok_0.payload.stream_id == old(self).base.next_id
                    &&& r->Ok_0.payload.generation == request.environment_epoch.0
                    &&& r->Ok_0.payload.command == request.payload.command
                    &&& r->Ok_0.payload.size == request.payload.size
                    &&& final(self).transport == old(self).transport
                    &&& final(self).base == (AuthorityBase {
                        next_id: if old(self).base.next_id < u64::MAX {
                            (old(self).base.next_id + 1) as u64
                        } else {
                            0
                        },
                        ..old(self).base
                    })
                },
            },
    {
        match self.base.require_execution() {
            Err(e) => return Err(e),
            Ok(()) => {},
        }
        match self.base.validate_epochs(&request) {
            Err(e) => return Err(e),
            Ok(()) => {},
        }
        if cancelled {
            return Err(AuthorityError::Ssh(SshFault::SpawnCancelled));
        }
        match self.current_transport() {
            Err(e) => return Err(e),
            Ok(_) => {},
        }
        let stream_id: u64 = self.base.take_id();
        Ok(
            RequestEnvelope {
                request_id: request.request_id,
                workspace_epoch: request.workspace_epoch,
                environment_epoch: request.environment_epoch,
                document_revision: request.document_revision,
                execution_context: ExecutionContextV1::AuthorityRoot,
                payload: PtySpawn {
                    stream_id,
                    generation: request.environment_epoch.0,
                    command: request.payload.command,
                    size: request.payload.size,
                },
            },
        )
    }

    /// The run request to send to the helper, and how long its answer may take, in
    /// milliseconds.
    pub fn begin_exec(&self, request: AuthorityRequest<ExecRequest>) -> (r: Result<
        (RequestEnvelope<process::ExecRequest>, u64),
        AuthorityError,
    >)
        ensures
            match run_fault(self.base, request) {
                Some(e) => r == Err::<
                    (RequestEnvelope<process::ExecRequest>, u64),
                    AuthorityError,
                >(e),
                None => if !connected(*self) {
                    r == Err::<(RequestEnvelope<process::ExecRequest>, u64), AuthorityError>(
                        AuthorityError::Ssh(SshFault::NotConnected),
                    )
                } else {
                    &&& r is Ok
                    &&& enveloped(r->Ok_0.0, request)
                    &&& r->Ok_0.0.payload.command == request.payload.command
                    &&& r->Ok_0.0.payload.stdout_limit == request.payload.stdout_limit
                    &&& r->Ok_0.0.payload.stderr_limit == request.payload.stderr_limit
                    &&& r->Ok_0.0.payload.timeout_ms == request.payload.timeout_ms
                    &&& r->Ok_0.1 == if request.payload.timeout_ms + EXEC_GRACE_MS <= u64::MAX {
                        request.payload.timeout_ms + EXEC_GRACE_MS
                    } else {
                        u64::MAX as int
                    }
                },
            },
    {
        match self.base.require_execution() {
            Err(e) => return Err(e),
            Ok(()) => {},
        }
        match self.base.validate_epochs(&request) {
            Err(e) => return Err(e),
            Ok(()) => {},
        }
        match self.current_transport() {
            Err(e) => return Err(e),
            Ok(_) => {},
        }
        let wait: u64 = request.payload.timeout_ms.saturating_add(EXEC_GRACE_MS);
        Ok(
            (
                RequestEnvelope {
                    request_id: request.request_id,
                    workspace_epoch: request.workspace_epoch,
                    environment_epoch: request.environment_epoch,
                    document_revision: request.document_revision,
                    execution_context: ExecutionContextV1::AuthorityRoot,
                    payload: process::ExecRequest {
                        timeout_ms: request.payload.timeout_ms,
                        stdout_limit: request.payload.stdout_limit as u64,
                        stderr_limit: request.payload.stderr_limit as u64,
                        command: request.payload.command,
                    },
                },
                wait,
            ),
        )
    }

    /// What a program left behind, from what the helper answered.
    pub fn finish_exec<A>(&self, request: AuthorityRequest<A>, response: Message) -> (r: Result<
        AuthorityResult<ExecOutput>,
        AuthorityError,
    >)
        ensures
            match response {
                Message::Process(ProcessMessage::Result(answer)) => match (
                    response_fault(self.base, request, answer),
                    answer.payload,
                ) {
                    (Some(e), _) => r == Err::<AuthorityResult<ExecOutput>, AuthorityError>(e),
                    (None, Err(e)) => r == Err::<AuthorityResult<ExecOutput>, AuthorityError>(
                        AuthorityError::Ssh(SshFault::Remote(e)),
                    ),
                    (None, Ok(output)) => r == Ok::<AuthorityResult<ExecOutput>, AuthorityError>(
                        AuthorityResult {
                            request_id: request.request_id,
                            workspace_epoch: request.workspace_epoch,
                            environment_epoch: request.environment_epoch,
                            document_revision: request.document_revision,
                            payload: output,
                        },
                    ),
                },
                _ => r == Err::<AuthorityResult<ExecOutput>, AuthorityError>(
                    AuthorityError::Protocol(ProtocolFault::UnexpectedResponse(Awaited::Process)),
                ),
            },
    {
        match response {
            Message::Process(ProcessMessage::Result(answer)) => {
                match self.validate_response(&request, &answer) {
                    Err(e) => return Err(e),
                    Ok(()) => {},
                }
                match answer.payload {
                    Err(e) => Err(AuthorityError::Ssh(SshFault::Remote(e))),
                    Ok(output) => Ok(request.respond(output)),
                }
            },
            _ => Err(AuthorityError::Protocol(ProtocolFault::UnexpectedResponse(Awaited::Process))),
        }
    }

    /// The command that finds the digest of an executable on the remote machine.
    pub fn digest_probe(&self, executable: &str) -> (command: CommandSpec)
        ensures
            is_probe(
                command,
                "sha256sum"@,
                seq!["--"@, executable@],
                self.base.root@,
                "C"@,
            ),
    {
        let mut args: Vec<String> = Vec::new();
        args.push("--".to_owned());
        args.push(executable.to_owned());
        assert(texts(args@) =~= seq!["--"@, executable@]);
        CommandSpec {
            program: "sha256sum".to_owned(),
            args,
            cwd: self.base.root.clone(),
            env: lang_environment("C"),
        }
    }

    /// The message that starts a language server on the remote machine.
    pub fn start_message(
        &self,
        context: &LspContext,
        config: &EffectiveLspConfig,
        executable: &str,
    ) -> (message: LspV1)
        ensures
            message matches LspV1::Start { context: c, config: s } && c == *context
                && s.language_id@ == "hermito"@ && s.program@ == executable@ && s.args@
                == config.args@ && s.cwd == self.base.root,
    {
        LspV1::Start {
            context: context.clone(),
            config: LspServerConfig {
                language_id: "hermito".to_owned(),
                program: executable.to_owned(),
                args: clone_strings(&config.args),
                cwd: self.base.root.clone(),
            },
        }
    }

    /// Checks that a workspace edit may be made on the remote machine: who asks for
    /// it and what it was made for, then that every path of the batch names a place
    /// there and no two name the same.
    pub fn authorize_workspace_edit(
        &self,
        request: &AuthorityRequest<LspWorkspaceEditRequest>,
        preconditions: &LspWorkspaceEditPreconditions,
    ) -> (r: Result<(), AuthorityError>)
        ensures
            found(r, remote_edit_fault(*self, *request, preconditions.snapshots@)),
            r is Ok ==> forall|i: int|
                0 <= i < request.payload.changes@.len() ==> remote_place(
                    self.base.root@,
                    (#[trigger] request.payload.changes@[i]).relative_path@,
                ) is Some,
    {
        match self.base.check_workspace_edit(request, preconditions) {
            Err(e) => return Err(e),
            Ok(()) => {},
        }
        for k in 0..request.payload.changes.len()
            invariant
                edit_evidence_fault(self.base, *request, preconditions.snapshots@) is None,
                remote_path_fault_from(self.base.root@, request.payload.changes@, 0)
                    == remote_path_fault_from(
                    self.base.root@,
                    request.payload.changes@,
                    k as int,
                ),
                forall|i: int|
                    0 <= i < k ==> remote_place(
                        self.base.root@,
                        (#[trigger] request.payload.changes@[i]).relative_path@,
                    ) is Some,
        {
            match self.resolve_remote(&request.payload.changes[k].relative_path) {
                Err(e) => return Err(e),
                Ok(_) => {},
            }
        }
        for k in 0..request.payload.changes.len()
            invariant
                edit_evidence_fault(self.base, *request, preconditions.snapshots@) is None,
                remote_path_fault_from(self.base.root@, request.payload.changes@, 0) is None,
                duplicate_from(*self, *request, 0) == duplicate_from(*self, *request, k as int),
                forall|i: int|
                    0 <= i < request.payload.changes@.len() ==> remote_place(
                        self.base.root@,
                        (#[trigger] request.payload.changes@[i]).relative_path@,
                    ) is Some,
        {
            match self.edit_target(request, k) {
                Err(e) => return Err(e),
                Ok(_) => {},
            }
        }
        Ok(())
    }

    /// The place of one change of a workspace edit on the remote machine. A place
    /// that an earlier change has too is refused.
    pub fn edit_target(
        &self,
        request: &AuthorityRequest<LspWorkspaceEditRequest>,
        k: usize,
    ) -> (r: Result<String, AuthorityError>)
        requires
            k < request.payload.changes@.len(),
        ensures
            ({
                let path = request.payload.changes@[k as int].relative_path;
                match remote_place(self.base.root@, path@) {
                    None => r == Err::<String, AuthorityError>(
                        AuthorityError::PathEscapesRoot(path),
                    ),
                    Some(place) => if place_taken(*self, *request, place, k as int) {
                        r == Err::<String, AuthorityError>(
                            AuthorityError::LspEditConflict(EditConflict::DuplicateRemoteTarget { path }),
                        )
                    } else {
                        r is Ok && r->Ok_0@ == place
                    },
                }
            }),
    {
        let path = &request.payload.changes[k].relative_path;
        let place = match self.resolve_remote(path) {
            Err(e) => return Err(e),
            Ok(p) => p,
        };
        for j in 0..k
            invariant
                k < request.payload.changes@.len(),
                *path == request.payload.changes@[k as int].relative_path,
                remote_place(self.base.root@, path@) == Some(place@),
                forall|i: int|
                    0 <= i < j ==> remote_place(
                        self.base.root@,
                        (#[trigger] request.payload.changes@[i]).relative_path@,
                    ) != Some(place@),
        {
            match self.resolve_remote(&request.payload.changes[j].relative_path) {
                Ok(other) => if other == place {
                    return Err(
                        AuthorityError::LspEditConflict(
                            EditConflict::DuplicateRemoteTarget { path: path.clone() },
                        ),
                    );
                },
                Err(_) => {},
            }
        }
        Ok(place)
    }

    /// The read request for the original of one change. It carries no revision: the
    /// buffers were checked on this side.
    pub fn begin_original(
        &self,
        transaction: &AuthorityRequest<LspWorkspaceEditRequest>,
        path: &String,
    ) -> (r: Result<
        (AuthorityRequest<ReadFileRequest>, RequestEnvelope<ReadFile>),
        AuthorityError,
    >)
        ensures
            match (epoch_fault(self.base, *transaction), send_fault(*self, *path)) {
                (Some(e), _) => r is Err && r->Err_0 == e,
                (None, Some(e)) => r is Err && r->Err_0 == e,
                (None, None) => {
                    &&& r is Ok
                    &&& r->Ok_0.0.workspace_epoch == transaction.workspace_epoch
                    &&& r->Ok_0.0.environment_epoch == transaction.environment_epoch
                    &&& r->Ok_0.0.document_revision is None
                    &&& r->Ok_0.0.payload.path == *path
                    &&& r->Ok_0.0.payload.max_bytes == MAX_WIRE_FILE_BYTES
                    &&& enveloped(r->Ok_0.1, r->Ok_0.0)
                    &&& r->Ok_0.1.payload.path@ == joined(self.base.root@, path@)
                    &&& r->Ok_0.1.payload.max_bytes == MAX_WIRE_FILE_BYTES
                },
            },
    {
        match self.base.validate_epochs(transaction) {
            Err(e) => return Err(e),
            Ok(()) => {},
        }
        let place = match self.place_for(path) {
            Err(e) => return Err(e),
            Ok(p) => p,
        };
        let request = AuthorityRequest::new(
            ReadFileRequest { path: path.clone(), max_bytes: MAX_WIRE_FILE_BYTES as usize },
            transaction.workspace_epoch,
            transaction.environment_epoch,
            None,
        );
        let envelope = self.envelope(
            &request,
            ReadFile { path: place, max_bytes: MAX_WIRE_FILE_BYTES },
        );
        Ok((request, envelope))
    }

    /// The original of one change, from what the helper answered.
    pub fn finish_original(
        &self,
        request: &AuthorityRequest<ReadFileRequest>,
        response: Message,
    ) -> (r: Result<Vec<u8>, AuthorityError>)
        ensures
            match response {
                Message::Fs(FsMessage::ReadResult(answer)) => match response_fault(
                    self.base,
                    *request,
                    answer,
                ) {
                    Some(e) => r == Err::<Vec<u8>, AuthorityError>(e),
                    None => r == content_taken(answer.payload, MAX_WIRE_FILE_BYTES),
                },
                _ => r == Err::<Vec<u8>, AuthorityError>(
                    AuthorityError::Protocol(ProtocolFault::UnexpectedResponse(Awaited::Original)),
                ),
            },
    {
        match response {
            Message::Fs(FsMessage::ReadResult(answer)) => {
                match self.validate_response(request, &answer) {
                    Err(e) => return Err(e),
                    Ok(()) => {},
                }
                match answer.payload {
                    Err(e) => Err(AuthorityError::Ssh(SshFault::Remote(e))),
                    Ok(content) => if content.bytes.len() as u64 > MAX_WIRE_FILE_BYTES {
                        Err(AuthorityError::OutputLimit { limit: MAX_WIRE_FILE_BYTES as usize })
                    } else {
                        Ok(content.bytes)
                    },
                }
            },
            _ => Err(
                AuthorityError::Protocol(ProtocolFault::UnexpectedResponse(Awaited::Original)),
            ),
        }
    }

    /// The write request for one change, or for an original that goes back. It
    /// carries no revision: the buffers were checked on this side.
    pub fn begin_replacement(
        &self,
        transaction: &AuthorityRequest<LspWorkspaceEditRequest>,
        path: &String,
        bytes: &Vec<u8>,
    ) -> (r: Result<
        (AuthorityRequest<WriteFileRequest>, RequestEnvelope<WriteFile>),
        AuthorityError,
    >)
        ensures
            if bytes@.len() > MAX_WIRE_FILE_BYTES {
                r is Err && r->Err_0 == (AuthorityError::InputLimit {
                    limit: MAX_WIRE_FILE_BYTES as usize,
                })
            } else {
                match (epoch_fault(self.base, *transaction), send_fault(*self, *path)) {
                    (Some(e), _) => r is Err && r->Err_0 == e,
                    (None, Some(e)) => r is Err && r->Err_0 == e,
                    (None, None) => {
                        &&& r is Ok
                        &&& r->Ok_0.0.workspace_epoch == transaction.workspace_epoch
                        &&& r->Ok_0.0.environment_epoch == transaction.environment_epoch
                        &&& r->Ok_0.0.document_revision is None
                        &&& r->Ok_0.0.payload.path == *path
                        &&& r->Ok_0.0.payload.bytes@ == bytes@
                        &&& r->Ok_0.0.payload.create
                        &&& enveloped(r->Ok_0.1, r->Ok_0.0)
                        &&& r->Ok_0.1.payload.path@ == joined(self.base.root@, path@)
                        &&& r->Ok_0.1.payload.bytes@ == bytes@
                        &&& r->Ok_0.1.payload.create
                    },
                }
            },
    {
        if bytes.len() as u64 > MAX_WIRE_FILE_BYTES {
            return Err(AuthorityError::InputLimit { limit: MAX_WIRE_FILE_BYTES as usize });
        }
        match self.base.validate_epochs(transaction) {
            Err(e) => return Err(e),
            Ok(()) => {},
        }
        let place = match self.place_for(path) {
            Err(e) => return Err(e),
            Ok(p) => p,
        };
        let request = AuthorityRequest::new(
            WriteFileRequest { path: path.clone(), bytes: copy_bytes(bytes), create: true },
            transaction.workspace_epoch,
            transaction.environment_epoch,
            None,
        );
        let envelope = self.envelope(
            &request,
            WriteFile { path: place, bytes: copy_bytes(bytes), create: true },
        );
        Ok((request, envelope))
    }

    /// Whether one change was written, from what the helper answered.
    pub fn finish_replacement(
        &self,
        request: &AuthorityRequest<WriteFileRequest>,
        response: Message,
    ) -> (r: Result<(), AuthorityError>)
        ensures
            match response {
                Message::Fs(FsMessage::WriteResult(answer)) => match (
                    response_fault(self.base, *request, answer),
                    answer.payload,
                ) {
                    (Some(e), _) => r == Err::<(), AuthorityError>(e),
                    (None, Err(e)) => r == Err::<(), AuthorityError>(
                        AuthorityError::Ssh(SshFault::Remote(e)),
                    ),
                    (None, Ok(_)) => r is Ok,
                },
                _ => r == Err::<(), AuthorityError>(
                    AuthorityError::Protocol(
                        ProtocolFault::UnexpectedResponse(Awaited::Replacement),
                    ),
                ),
            },
    {
        match response {
            Message::Fs(FsMessage::WriteResult(answer)) => {
                match self.validate_response(request, &answer) {
                    Err(e) => return Err(e),
                    Ok(()) => {},
                }
                match answer.payload {
                    Err(e) => Err(AuthorityError::Ssh(SshFault::Remote(e))),
                    Ok(_) => Ok(()),
                }
            },
            _ => Err(
                AuthorityError::Protocol(ProtocolFault::UnexpectedResponse(Awaited::Replacement)),
            ),
        }
    }
}

/// The first path, from index `i` on, that names no place on the remote machine.
pub open spec fn remote_path_fault_from(
    root: Seq<char>,
    changes: Seq<LspDocumentChange>,
    i: int,
) -> Option<AuthorityError>
    decreases changes.len() - i,
{
    if i < 0 || i >= changes.len() {
        None
    } else if remote_place(root, changes[i].relative_path@) is None {
        Some(AuthorityError::PathEscapesRoot(changes[i].relative_path))
    } else {
        remote_path_fault_from(root, changes, i + 1)
    }
}

/// The first path, from index `i` on, that names the place of an earlier one.
pub open spec fn duplicate_from(
    a: SshAuthority,
    request: AuthorityRequest<LspWorkspaceEditRequest>,
    i: int,
) -> Option<AuthorityError>
    decreases request.payload.changes@.len() - i,
{
    let path = request.payload.changes@[i].relative_path;
    if i < 0 || i >= request.payload.changes@.len() {
        None
    } else if place_taken(a, request, remote_place(a.base.root@, path@)->0, i) {
        Some(AuthorityError::LspEditConflict(EditConflict::DuplicateRemoteTarget { path }))
    } else {
        duplicate_from(a, request, i + 1)
    }
}

/// Why a workspace edit may not be made on the remote machine.
pub open spec fn remote_edit_fault(
    a: SshAuthority,
    request: AuthorityRequest<LspWorkspaceEditRequest>,
    snapshots: Seq<LspDocumentRevisionSnapshot>,
) -> Option<AuthorityError> {
    if edit_evidence_fault(a.base, request, snapshots) is Some {
        edit_evidence_fault(a.base, request, snapshots)
    } else if remote_path_fault_from(a.base.root@, request.payload.changes@, 0) is Some {
        remote_path_fault_from(a.base.root@, request.payload.changes@, 0)
    } else {
        duplicate_from(a, request, 0)
    }
}

/// Whether a place belongs to a change before index `k`.
pub open spec fn place_taken(
    a: SshAuthority,
    request: AuthorityRequest<LspWorkspaceEditRequest>,
    place: Seq<char>,
    k: int,
) -> bool {
    exists|j: int|
        0 <= j < k && remote_place(
            a.base.root@,
            (#[trigger] request.payload.changes@[j]).relative_path@,
        ) == Some(place)
}

/// A copy of some bytes.
pub fn copy_bytes(bytes: &Vec<u8>) -> (out: Vec<u8>)
    ensures
        out@ == bytes@,
{
    let mut out: Vec<u8> = Vec::new();
    for i in 0..bytes.len()
        invariant
            out@ == bytes@.take(i as int),
    {
        out.push(bytes[i]);
        assert(out@ =~= bytes@.take(i + 1));
    }
    assert(out@ =~= bytes@);
    out
}

/// The digest that a remote probe tells: the first word that it wrote, nothing if
/// it failed.
pub open spec fn digest_told(p: ProbeOutput) -> Seq<char> {
    if probe_usable(p) {
        match first_word(p.stdout@) {
            Some(w) => w,
            None => Seq::empty(),
        }
    } else {
        Seq::empty()
    }
}

/// The digest that a remote probe tells.
pub fn digest_of_probe(p: &ProbeOutput) -> (digest: String)
    ensures
        digest@ == digest_told(*p),
{
    if is_usable(p) {
        let words = split_words(p.stdout.as_str());
        assert(texts(words@).len() == words@.len());
        if words.len() > 0 {
            assert(texts(words@)[0] == words@[0]@);
            return words[0].clone();
        }
    }
    let empty = String::new();
    assert(empty@ =~= Seq::empty());
    empty
}

/// A message under the context that its session is routed by.
pub open spec fn routed(message: LspV1, context: LspContext) -> LspV1 {
    match message {
        LspV1::Start { config, .. } => LspV1::Start { context, config },
        LspV1::Started { capabilities, .. } => LspV1::Started { context, capabilities },
        LspV1::Shutdown { .. } => LspV1::Shutdown { context },
        LspV1::Exited { exit_code, .. } => LspV1::Exited { context, exit_code },
        LspV1::JsonRpcRequest { payload, .. } => LspV1::JsonRpcRequest { context, payload },
        LspV1::JsonRpcResponse { payload, .. } => LspV1::JsonRpcResponse { context, payload },
        LspV1::JsonRpcNotification { payload, .. } => LspV1::JsonRpcNotification {
            context,
            payload,
        },
        LspV1::PublishDiagnostics { uri, version, diagnostics, .. } => LspV1::PublishDiagnostics {
            context,
            uri,
            version,
            diagnostics,
        },
        LspV1::WorkspaceEdit { request_id, edit, .. } => LspV1::WorkspaceEdit {
            context,
            request_id,
            edit,
        },
        LspV1::WorkspaceEditResult { request_id, applied, reason, .. } =>
            LspV1::WorkspaceEditResult { context, request_id, applied, reason },
    }
}

/// Puts a message under the context that its session is routed by. What it carries
/// stays.
pub fn with_routing_context(message: LspV1, session: &LspContext) -> (out: LspV1)
    ensures
        out == routed(message, *session),
        lsp_context(out) == *session,
{
    let context = session.clone();
    match message {
        LspV1::Start { config, .. } => LspV1::Start { context, config },
        LspV1::Started { capabilities, .. } => LspV1::Started { context, capabilities },
        LspV1::Shutdown { .. } => LspV1::Shutdown { context },
        LspV1::Exited { exit_code, .. } => LspV1::Exited { context, exit_code },
        LspV1::JsonRpcRequest { payload, .. } => LspV1::JsonRpcRequest { context, payload },
        LspV1::JsonRpcResponse { payload, .. } => LspV1::JsonRpcResponse { context, payload },
        LspV1::JsonRpcNotification { payload, .. } => LspV1::JsonRpcNotification {
            context,
            payload,
        },
        LspV1::PublishDiagnostics { uri, version, diagnostics, .. } => LspV1::PublishDiagnostics {
            context,
            uri,
            version,
            diagnostics,
        },
        LspV1::WorkspaceEdit { request_id, edit, .. } => LspV1::WorkspaceEdit {
            context,
            request_id,
            edit,
        },
        LspV1::WorkspaceEditResult { request_id, applied, reason, .. } =>
            LspV1::WorkspaceEditResult { context, request_id, applied, reason },
    }
}

/// The messages of one remote language server, as they come in over its route. The
/// loss of the connection ends the server, and that is told once.
#[derive(Debug)]
pub struct LspRoute {
    pub context: LspContext,
    /// Whether the route still has a receiving end.
    pub open: bool,
    /// Whether the loss of the connection was told.
    pub loss_told: bool,
}

/// What a reader of a route that waits is woken by.
#[derive(Debug)]
pub enum RouteNews {
    /// A message came in.
    Received(Message),
    /// The route ended; whether the connection is lost.
    Ended { lost: bool },
    /// The watcher of the connection changed or is gone; whether the connection is
    /// lost.
    Watched { gone: bool, lost: bool },
}

/// Why a reader of a route gets no message.
#[derive(Clone, Copy, Debug, PartialEq, Eq, Structural)]
pub enum RouteError {
    Closed,
    NotLsp,
    Ended,
    WatcherClosed,
}

impl RouteError {
    pub fn text(self) -> (out: &'static str)
        ensures
            out@ == match self {
                RouteError::Closed => "lsp stream closed"@,
                RouteError::NotLsp => "non-lsp on route"@,
                RouteError::Ended => "lsp stream ended"@,
                RouteError::WatcherClosed => "remote lsp loss watcher closed"@,
            },
    {
        match self {
            RouteError::Closed => "lsp stream closed",
            RouteError::NotLsp => "non-lsp on route",
            RouteError::Ended => "lsp stream ended",
            RouteError::WatcherClosed => "remote lsp loss watcher closed",
        }
    }
}

/// What a reader of a route gets without waiting: a loss that was not told, or that
/// the route is closed. `None` stands for a reader that has to wait.
pub open spec fn at_once(route: LspRoute, lost: bool) -> Option<Result<LspV1, RouteError>> {
    if !route.open || route.loss_told {
        Some(Err(RouteError::Closed))
    } else if lost {
        Some(Ok(exited(route.context)))
    } else {
        None
    }
}

/// Whether news bring the loss of the connection.
pub open spec fn tells_loss(news: RouteNews) -> bool {
    match news {
        RouteNews::Received(_) => false,
        RouteNews::Ended { lost } => lost,
        RouteNews::Watched { gone, lost } => !gone && lost,
    }
}

/// What a reader of a route that waits gets from news.
pub open spec fn from_news(route: LspRoute, news: RouteNews) -> Result<LspV1, RouteError> {
    if tells_loss(news) {
        Ok(exited(route.context))
    } else {
        match news {
            RouteNews::Received(Message::Lsp(message)) => Ok(message),
            RouteNews::Received(_) => Err(RouteError::NotLsp),
            RouteNews::Ended { .. } => Err(RouteError::Ended),
            RouteNews::Watched { .. } => Err(RouteError::WatcherClosed),
        }
    }
}

/// A route on which the loss of the connection was told, if it was not before and
/// `lost` says so.
pub open spec fn route_told(route: LspRoute, lost: bool) -> LspRoute {
    LspRoute { loss_told: route.loss_told || lost, ..route }
}

impl LspRoute {
    /// Begins to read: gives what there is to get without waiting, if anything. A
    /// loss that is handed out here counts as told.
    pub fn begin_recv(&mut self, lost: bool) -> (got: Option<Result<LspV1, RouteError>>)
        ensures
            got == at_once(*old(self), lost),
            *final(self) == route_told(*old(self), old(self).open && lost),
    {
        if !self.open || self.loss_told {
            return Some(Err(RouteError::Closed));
        }
        if !lost {
            return None;
        }
        self.loss_told = true;
        Some(Ok(LspV1::Exited { context: self.context.clone(), exit_code: None }))
    }

    /// Ends a read that had to wait, with the news that woke it.
    pub fn finish_recv(&mut self, news: RouteNews) -> (got: Result<LspV1, RouteError>)
        requires
            old(self).open,
            !old(self).loss_told,
        ensures
            got == from_news(*old(self), news),
            *final(self) == route_told(*old(self), tells_loss(news)),
    {
        let (lost, error): (bool, RouteError) = match news {
            RouteNews::Received(Message::Lsp(message)) => {
                return Ok(message);
            },
            RouteNews::Received(_) => (false, RouteError::NotLsp),
            RouteNews::Ended { lost } => (lost, RouteError::Ended),
            RouteNews::Watched { gone, lost } => (!gone && lost, RouteError::WatcherClosed),
        };
        if !lost {
            return Err(error);
        }
        self.loss_told = true;
        Ok(LspV1::Exited { context: self.context.clone(), exit_code: None })
    }
}

/// The loss of a connection is told at most once: whether a reader got it at once or
/// after waiting, every later read finds the route closed.
pub proof fn loss_is_told_once(route: LspRoute, lost: bool, news: RouteNews, later: bool)
    requires
        route.open,
    ensures
        at_once(route, lost) matches Some(Ok(_)) ==> at_once(route_told(route, lost), later)
            == Some(Err::<LspV1, RouteError>(RouteError::Closed)),
        tells_loss(news) ==> at_once(route_told(route, tells_loss(news)), later)
            == Some(Err::<LspV1, RouteError>(RouteError::Closed)),
{
}

/// An answer is taken only for the request that it answers: the same identifier, the
/// same revision, at the root of the authority, and in epochs that both had and that
/// are still current.
pub proof fn answers_are_taken_for_their_request<A, T>(
    a: AuthorityBase,
    request: AuthorityRequest<A>,
    response: ResponseEnvelope<T>,
)
    ensures
        response_fault(a, request, response) is None <==> response.request_id == request.request_id
            && response.document_revision == request.document_revision
            && response.execution_context@ is AuthorityRoot && response.workspace_epoch
            == request.workspace_epoch && response.environment_epoch == request.environment_epoch
            && request.workspace_epoch == a.workspace_epoch && request.environment_epoch
            == a.environment_epoch,
{
}

/// A message that is routed keeps what it carries and gets the context of its route
/// alone.
pub proof fn routing_changes_the_context_alone(message: LspV1, context: LspContext)
    ensures
        message matches LspV1::JsonRpcResponse { payload, .. } ==> routed(message, context) == (
        LspV1::JsonRpcResponse { context, payload }),
        message matches LspV1::JsonRpcRequest { payload, .. } ==> routed(message, context) == (
        LspV1::JsonRpcRequest { context, payload }),
        message matches LspV1::JsonRpcNotification { payload, .. } ==> routed(message, context) == (
        LspV1::JsonRpcNotification { context, payload }),
        message matches LspV1::WorkspaceEdit { request_id, edit, .. } ==> routed(message, context)
            == (LspV1::WorkspaceEdit { context, request_id, edit }),
        message matches LspV1::WorkspaceEditResult { request_id, applied, reason, .. } ==> routed(
            message,
            context,
        ) == (LspV1::WorkspaceEditResult { context, request_id, applied, reason }),
        message matches LspV1::PublishDiagnostics { uri, version, diagnostics, .. } ==> routed(
            message,
            context,
        ) == (LspV1::PublishDiagnostics { context, uri, version, diagnostics }),
        message matches LspV1::Exited { exit_code, .. } ==> routed(message, context) == (
        LspV1::Exited { context, exit_code }),
        message matches LspV1::Start { config, .. } ==> routed(message, context) == (LspV1::Start {
            context,
            config,
        }),
        lsp_context(routed(message, context)) == context,
        routed(message, lsp_context(message)) == message,
{
}

/// What comes over a route is handed out as it came; a loss is handed out as the end of
/// the server of that route, and only then.
pub proof fn routes_hand_out_what_comes(route: LspRoute, message: LspV1, lost: bool)
    ensures
        from_news(route, RouteNews::Received(Message::Lsp(message))) == Ok::<LspV1, RouteError>(
            message,
        ),
        from_news(route, RouteNews::Ended { lost: true }) == Ok::<LspV1, RouteError>(
            LspV1::Exited { context: route.context, exit_code: None },
        ),
        from_news(route, RouteNews::Ended { lost: false }) is Err,
        route.open && !route.loss_told && lost ==> at_once(route, lost) == Some(
            Ok::<LspV1, RouteError>(LspV1::Exited { context: route.context, exit_code: None }),
        ),
        !route.open || route.loss_told ==> at_once(route, lost) == Some(
            Err::<LspV1, RouteError>(RouteError::Closed),
        ),
        route.open && !route.loss_told && !lost ==> at_once(route, lost) is None,
{
}

/// A path names a place on the remote machine only if it stays below the root and holds
/// no NUL; the place is the path below the root. What is asked for is sent only over a
/// connection that is alive.
pub proof fn remote_places_stay_below_the_root(a: SshAuthority, path: String)
    requires
        a.base.root@.len() > 0,
    ensures
        remote_place(a.base.root@, path@) matches Some(place) ==> path_below(place, a.base.root@)
            && path_parts(place) == path_parts(a.base.root@) + path_parts(path@) && !has_nul(place),
        send_fault(a, path) is None <==> (a.transport matches Some(t) && t.alive) && remote_place(
            a.base.root@,
            path@,
        ) is Some,
{
    if only_names(path_parts(path@)) {
        joined_paths_lie_below(a.base.root@, path@);
    }
}

/// The bytes of a file are taken as they came, unless they are more than were asked
/// for; an error of the other side is passed on.
pub proof fn contents_are_taken_whole(payload: Result<FileContent, RemoteError>, max: u64)
    ensures
        payload matches Ok(content) ==> (content.bytes@.len() <= max ==> content_taken(payload, max)
            == Ok::<Vec<u8>, AuthorityError>(content.bytes)),
        payload matches Ok(content) ==> (content.bytes@.len() > max ==> content_taken(
            payload,
            max,
        ) is Err),
        payload matches Err(e) ==> content_taken(payload, max) == Err::<Vec<u8>, AuthorityError>(
            AuthorityError::Ssh(SshFault::Remote(e)),
        ),
{
}

/// A request goes over the wire with all of its tags, for the root of the authority.
pub proof fn requests_keep_their_tags<A, T>(e: RequestEnvelope<T>, request: AuthorityRequest<A>)
    requires
        enveloped(e, request),
    ensures
        e.request_id == request.request_id,
        e.workspace_epoch.0 == request.workspace_epoch.0,
        e.environment_epoch.0 == request.environment_epoch.0,
        e.document_revision == request.document_revision,
        e.execution_context is AuthorityRoot,
{
}

/// A remote edit is made only if every path of it names a place below the root, and no
/// two the same.
pub proof fn remote_edits_have_their_own_places(
    a: SshAuthority,
    request: AuthorityRequest<LspWorkspaceEditRequest>,
    snapshots: Seq<LspDocumentRevisionSnapshot>,
    i: int,
    j: int,
)
    requires
        remote_edit_fault(a, request, snapshots) is None,
        0 <= i < j < request.payload.changes@.len(),
    ensures
        remote_place(a.base.root@, request.payload.changes@[i].relative_path@) is Some,
        remote_place(a.base.root@, request.payload.changes@[j].relative_path@) is Some,
        remote_place(a.base.root@, request.payload.changes@[i].relative_path@) != remote_place(
            a.base.root@,
            request.payload.changes@[j].relative_path@,
        ),
{
    let changes = request.payload.changes@;
    lemma_remote_path(a.base.root@, changes, 0, i);
    lemma_remote_path(a.base.root@, changes, 0, j);
    lemma_no_duplicate(a, request, 0, j);
    let place = remote_place(a.base.root@, changes[j].relative_path@)->0;
    if remote_place(a.base.root@, changes[i].relative_path@) == Some(place) {
        assert(place_taken(a, request, place, j));
    }
}

proof fn lemma_remote_path(root: Seq<char>, changes: Seq<LspDocumentChange>, k: int, j: int)
    requires
        0 <= k <= j < changes.len(),
        remote_path_fault_from(root, changes, k) is None,
    ensures
        remote_place(root, changes[j].relative_path@) is Some,
    decreases j - k,
{
    if k < j {
        lemma_remote_path(root, changes, k + 1, j);
    }
}

proof fn lemma_no_duplicate(
    a: SshAuthority,
    request: AuthorityRequest<LspWorkspaceEditRequest>,
    k: int,
    j: int,
)
    requires
        0 <= k <= j < request.payload.changes@.len(),
        duplicate_from(a, request, k) is None,
    ensures
        !place_taken(
            a,
            request,
            remote_place(a.base.root@, request.payload.changes@[j].relative_path@)->0,
            j,
        ),
    decreases j - k,
{
    if k < j {
        lemma_no_duplicate(a, request, k + 1, j);
    }
}

/// The digest that a usable probe tells is the first word of what it wrote, and a probe
/// that cannot be used tells none. A length is cut down only to what one file may have.
pub proof fn digests_are_the_first_word(p: ProbeOutput, digest: Seq<char>, rest: Seq<char>, n: usize)
    requires
        digest.len() > 0,
        forall|x: int| 0 <= x < digest.len() ==> !is_space(#[trigger] digest[x]),
        p.stdout@ == digest + seq![' '] + rest,
    ensures
        probe_usable(p) ==> digest_told(p) == digest,
        !probe_usable(p) ==> digest_told(p).len() == 0,
        wire_limit(n) <= n,
        wire_limit(n) <= MAX_WIRE_FILE_BYTES,
        wire_limit(n) == n || n > MAX_WIRE_FILE_BYTES && wire_limit(n) == MAX_WIRE_FILE_BYTES,
{
    words_stand_between_space(digest, ' ', rest);
}

} // verus!
