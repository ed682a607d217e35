//! What the helper does with each message that comes in, how much it lets run at
//! once, and what it answers.
use std::collections::{HashMap, HashSet};

use vstd::prelude::*;

use crate::protocol::dispatcher::{negotiate, negotiated, DispatchError, NegotiatedVersion};
use crate::protocol::frame::{class_limit, FrameLimits};
use crate::protocol::fs::{FileContent, FsMessage, ReadFile, WriteFile, WriteResult};
use crate::protocol::fs::MAX_WIRE_FILE_BYTES;
use crate::protocol::lsp::LspV1;
use crate::protocol::message::{current_version, message_class, Message, ProtocolVersion};
use crate::protocol::process::{ExecRequest, ProcessMessage, MAX_WIRE_OUTPUT_BYTES};
use crate::protocol::pty::{PtyMessage, PtySize, PtySpawn, PtyStreamContext};
use crate::protocol::request::{
    command_fault, command_fault_text, has_nul, holds_char, ExecutionContextV1, RequestEnvelope,
};
use crate::protocol::response::{RemoteError, RemoteErrorCode, ResponseEnvelope};
use crate::words::{decimal, decimal_text, join2};

verus! {

/// The most output of one terminal, in bytes.
pub const PTY_SESSION_BUDGET: u64 = 67108864;

/// The longest piece of output that is read at once, in bytes.
pub const PTY_CHUNK: usize = 65536;

/// The longest piece of terminal input, in bytes.
pub const PTY_INPUT_CHUNK_LIMIT: usize = 65536;

/// The most terminals at once.
pub const MAX_PTY_SESSIONS: usize = 32;

/// The most file and process requests at once.
pub const MAX_IN_FLIGHT_OPERATIONS: usize = 16;

/// The most output of a program that is ever kept, in bytes.
pub const MAX_KEPT_OUTPUT: usize = 16777216;

/// A terminal, with whether it was told to end.
#[derive(Debug)]
pub struct PtyEntry {
    pub context: PtyStreamContext,
    pub cancelled: bool,
}

/// What runs on behalf of the editor: terminals by their streams, programs by
/// their requests, and how many file and process requests.
#[derive(Debug)]
pub struct Service {
    pub ptys: HashMap<u64, PtyEntry>,
    pub execs: HashSet<u128>,
    pub operations: usize,
}

/// Why a message ends the service.
#[derive(Clone, Copy, Debug, PartialEq, Eq, Structural)]
pub enum ServiceError {
    DuplicateRequestId,
    LspResponse,
    DuplicateNegotiation,
    ReservedFamily,
    ResponseOnly,
}

/// Why a terminal is given up.
#[derive(Clone, Copy, Debug, PartialEq, Eq, Structural)]
pub enum InputLoss {
    TooLong,
    QueueFull,
    WorkerStopped,
}

/// What is done with a message.
#[derive(Debug)]
#[allow(inconsistent_fields)]
pub enum Step {
    Nothing,
    /// An answer goes back.
    Send(Message),
    /// A terminal is opened.
    SpawnPty(RequestEnvelope<PtySpawn>),
    /// Bytes go to a terminal.
    WritePty { context: PtyStreamContext, bytes: Vec<u8> },
    /// A terminal changes its size.
    ResizePty { context: PtyStreamContext, size: PtySize },
    /// A terminal is ended, and the answer goes back.
    EndPty { stream_id: u64, answer: Message },
    ReadFile(RequestEnvelope<ReadFile>),
    WriteFile(RequestEnvelope<WriteFile>),
    Exec(RequestEnvelope<ExecRequest>),
    CancelExec(u128),
    Lsp(LspV1),
}

/// The reason that is given for giving a terminal up.
pub open spec fn loss_text(loss: InputLoss) -> Seq<char> {
    match loss {
        InputLoss::TooLong => "PTY input exceeds 64 KiB"@,
        InputLoss::QueueFull => "PTY input queue exceeded"@,
        InputLoss::WorkerStopped => "PTY input worker stopped"@,
    }
}

/// Why an execution context cannot be served.
pub open spec fn context_refused(context: ExecutionContextV1) -> Option<Seq<char>> {
    match context {
        ExecutionContextV1::AuthorityRoot => None,
        ExecutionContextV1::DevContainer { .. } => Some(
            "development-container execution context is not enabled"@,
        ),
    }
}

/// Checks that a context can be served.
pub fn validated_execution_context(context: &ExecutionContextV1) -> (r: Result<
    ExecutionContextV1,
    RemoteError,
>)
    ensures
        match context_refused(*context) {
            None => r == Ok::<ExecutionContextV1, RemoteError>(*context),
            Some(text) => r is Err && r->Err_0.code == RemoteErrorCode::InvalidRequest
                && r->Err_0.message@ == text,
        },
{
    match context {
        ExecutionContextV1::AuthorityRoot => Ok(ExecutionContextV1::AuthorityRoot),
        ExecutionContextV1::DevContainer { .. } => Err(
            RemoteError {
                code: RemoteErrorCode::InvalidRequest,
                message: "development-container execution context is not enabled".to_owned(),
            },
        ),
    }
}

/// Whether a response carries the tags of a request.
pub open spec fn answers<U, T>(response: ResponseEnvelope<T>, request: RequestEnvelope<U>) -> bool {
    &&& response.request_id == request.request_id
    &&& response.workspace_epoch == request.workspace_epoch
    &&& response.environment_epoch == request.environment_epoch
    &&& response.document_revision == request.document_revision
}

/// Whether a result is an error with a code and a message.
pub open spec fn is_error<T>(
    result: Result<T, RemoteError>,
    code: RemoteErrorCode,
    message: Seq<char>,
) -> bool {
    result is Err && result->Err_0.code == code && result->Err_0.message@ == message
}

/// The answer that refuses a request.
pub fn error_response<U, T>(
    request: &RequestEnvelope<U>,
    code: RemoteErrorCode,
    message: &str,
) -> (response: ResponseEnvelope<T>)
    ensures
        answers(response, *request),
        response.execution_context == request.execution_context,
        is_error(response.payload, code, message@),
{
    ResponseEnvelope {
        request_id: request.request_id,
        workspace_epoch: request.workspace_epoch,
        environment_epoch: request.environment_epoch,
        document_revision: request.document_revision,
        execution_context: request.execution_context.clone(),
        payload: Err(RemoteError { code, message: message.to_owned() }),
    }
}

/// The context in an answer: that of the request if it can be served, else the
/// root of the authority.
pub open spec fn answer_context(context: ExecutionContextV1) -> ExecutionContextV1 {
    if context_refused(context) is None {
        context
    } else {
        ExecutionContextV1::AuthorityRoot
    }
}

fn respond<U, T>(request: &RequestEnvelope<U>, payload: Result<T, RemoteError>) -> (response:
    ResponseEnvelope<T>)
    ensures
        answers(response, *request),
        response.execution_context == answer_context(request.execution_context),
        response.payload == payload,
{
    let context = match validated_execution_context(&request.execution_context) {
        Ok(c) => c,
        Err(_) => ExecutionContextV1::AuthorityRoot,
    };
    ResponseEnvelope {
        request_id: request.request_id,
        workspace_epoch: request.workspace_epoch,
        environment_epoch: request.environment_epoch,
        document_revision: request.document_revision,
        execution_context: context,
        payload,
    }
}

/// What went wrong in the file system or with a process.
#[derive(Clone, Copy, Debug, PartialEq, Eq, Structural)]
pub enum Failure {
    NotFound,
    PermissionDenied,
    Other,
}

/// The error that is told of a failure.
pub fn remote_error(failure: Failure, message: String) -> (e: RemoteError)
    ensures
        e.message == message,
        e.code == match failure {
            Failure::NotFound => RemoteErrorCode::NotFound,
            Failure::PermissionDenied => RemoteErrorCode::PermissionDenied,
            Failure::Other => RemoteErrorCode::Internal,
        },
{
    let code = match failure {
        Failure::NotFound => RemoteErrorCode::NotFound,
        Failure::PermissionDenied => RemoteErrorCode::PermissionDenied,
        Failure::Other => RemoteErrorCode::Internal,
    };
    RemoteError { code, message }
}

/// Why a file is not read, before it is opened.
pub open spec fn read_refused(request: RequestEnvelope<ReadFile>) -> Option<Seq<char>> {
    match context_refused(request.execution_context) {
        Some(text) => Some(text),
        None => if has_nul(request.payload.path@) {
            Some("path contains NUL"@)
        } else {
            None
        },
    }
}

/// Checks that a file may be read: the context and the path.
pub fn check_read(request: &RequestEnvelope<ReadFile>) -> (r: Result<(), RemoteError>)
    ensures
        match read_refused(*request) {
            None => r is Ok,
            Some(text) => is_error(r, RemoteErrorCode::InvalidRequest, text),
        },
{
    match validated_execution_context(&request.execution_context) {
        Err(e) => return Err(e),
        Ok(_) => {},
    }
    if holds_char(request.payload.path.as_str(), '\0') {
        return Err(
            RemoteError {
                code: RemoteErrorCode::InvalidRequest,
                message: "path contains NUL".to_owned(),
            },
        );
    }
    Ok(())
}

/// The answer to a read request, from the bytes that came or the reason why none
/// did. Too long a file is refused.
pub fn answer_read(
    request: &RequestEnvelope<ReadFile>,
    outcome: Result<Vec<u8>, RemoteError>,
) -> (response: ResponseEnvelope<FileContent>)
    ensures
        answers(response, *request),
        response.execution_context == answer_context(request.execution_context),
        match outcome {
            Err(e) => response.payload == Err::<FileContent, RemoteError>(e),
            Ok(bytes) => if bytes@.len() > MAX_WIRE_FILE_BYTES {
                is_error(response.payload, RemoteErrorCode::OutputLimit, "file too large"@)
            } else {
                response.payload == Ok::<FileContent, RemoteError>(FileContent { bytes })
            },
        },
{
    let payload: Result<FileContent, RemoteError> = match outcome {
        Err(e) => Err(e),
        Ok(bytes) => if bytes.len() as u64 > MAX_WIRE_FILE_BYTES {
            Err(
                RemoteError {
                    code: RemoteErrorCode::OutputLimit,
                    message: "file too large".to_owned(),
                },
            )
        } else {
            Ok(FileContent { bytes })
        },
    };
    respond(request, payload)
}

/// Why a file is not written.
pub open spec fn write_refused(request: RequestEnvelope<WriteFile>) -> Option<Seq<char>> {
    match context_refused(request.execution_context) {
        Some(text) => Some(text),
        None => if has_nul(request.payload.path@) || request.payload.bytes@.contains(0) {
            Some("path or content contains NUL"@)
        } else {
            None
        },
    }
}

fn holds_zero(bytes: &Vec<u8>) -> (found: bool)
    ensures
        found == bytes@.contains(0),
{
    for i in 0..bytes.len()
        invariant
            forall|j: int| 0 <= j < i ==> bytes@[j] != 0,
    {
        if bytes[i] == 0 {
            assert(bytes@[i as int] == 0);
            return true;
        }
    }
    false
}

/// Checks that a file may be written: the context, the path and the content.
pub fn check_write(request: &RequestEnvelope<WriteFile>) -> (r: Result<(), RemoteError>)
    ensures
        match write_refused(*request) {
            None => r is Ok,
            Some(text) => is_error(r, RemoteErrorCode::InvalidRequest, text),
        },
{
    match validated_execution_context(&request.execution_context) {
        Err(e) => return Err(e),
        Ok(_) => {},
    }
    if holds_char(request.payload.path.as_str(), '\0') || holds_zero(&request.payload.bytes) {
        return Err(
            RemoteError {
                code: RemoteErrorCode::InvalidRequest,
                message: "path or content contains NUL".to_owned(),
            },
        );
    }
    Ok(())
}

/// The answer to a write request: how many bytes were written, or the reason why
/// none were.
pub fn answer_write(
    request: &RequestEnvelope<WriteFile>,
    outcome: Result<(), RemoteError>,
) -> (response: ResponseEnvelope<WriteResult>)
    ensures
        answers(response, *request),
        response.execution_context == answer_context(request.execution_context),
        response.payload == match outcome {
            Err(e) => Err::<WriteResult, RemoteError>(e),
            Ok(()) => Ok::<WriteResult, RemoteError>(
                WriteResult { bytes_written: request.payload.bytes@.len() as u64 },
            ),
        },
{
    let payload: Result<WriteResult, RemoteError> = match outcome {
        Err(e) => Err(e),
        Ok(()) => Ok(WriteResult { bytes_written: request.payload.bytes.len() as u64 }),
    };
    respond(request, payload)
}

/// Why a program is not run.
pub open spec fn exec_refused(request: RequestEnvelope<ExecRequest>) -> Option<Seq<char>> {
    match context_refused(request.execution_context) {
        Some(text) => Some(text),
        None => match command_fault(request.payload.command) {
            Some(fault) => Some(command_fault_text(fault)),
            None => None,
        },
    }
}

/// How a program is run: how much of its output is kept, and how long it may take,
/// in milliseconds.
#[derive(Clone, Copy, Debug, PartialEq, Eq, Structural)]
pub struct ExecLimits {
    pub stdout_bytes: usize,
    pub stderr_bytes: usize,
    pub timeout_ms: u64,
}

/// The output that is kept for a limit in a request.
pub open spec fn kept_output(limit: u64) -> int {
    if limit <= MAX_WIRE_OUTPUT_BYTES {
        limit as int
    } else {
        MAX_WIRE_OUTPUT_BYTES as int
    }
}

fn output_limit(limit: u64) -> (n: usize)
    ensures
        n == kept_output(limit),
        n <= MAX_KEPT_OUTPUT,
{
    if limit <= MAX_WIRE_OUTPUT_BYTES {
        limit as usize
    } else {
        MAX_WIRE_OUTPUT_BYTES as usize
    }
}

/// Checks that a program may be run, and says within which limits.
pub fn check_exec(request: &RequestEnvelope<ExecRequest>) -> (r: Result<ExecLimits, RemoteError>)
    ensures
        match exec_refused(*request) {
            Some(text) => is_error(r, RemoteErrorCode::InvalidRequest, text),
            None => {
                &&& r is Ok
                &&& r->Ok_0.stdout_bytes == kept_output(request.payload.stdout_limit)
                &&& r->Ok_0.stderr_bytes == kept_output(request.payload.stderr_limit)
                &&& r->Ok_0.timeout_ms == if request.payload.timeout_ms == 0 {
                    1
                } else {
                    request.payload.timeout_ms
                }
            },
        },
{
    match validated_execution_context(&request.execution_context) {
        Err(e) => return Err(e),
        Ok(_) => {},
    }
    match request.payload.command.validate() {
        Err(text) => return Err(
            RemoteError { code: RemoteErrorCode::InvalidRequest, message: text.to_owned() },
        ),
        Ok(()) => {},
    }
    Ok(
        ExecLimits {
            stdout_bytes: output_limit(request.payload.stdout_limit),
            stderr_bytes: output_limit(request.payload.stderr_limit),
            timeout_ms: if request.payload.timeout_ms == 0 {
                1
            } else {
                request.payload.timeout_ms
            },
        },
    )
}

/// The answer to a run request.
pub fn answer_exec(
    request: &RequestEnvelope<ExecRequest>,
    outcome: Result<crate::protocol::process::ExecOutput, RemoteError>,
) -> (response: ResponseEnvelope<crate::protocol::process::ExecOutput>)
    ensures
        answers(response, *request),
        response.execution_context == answer_context(request.execution_context),
        response.payload == outcome,
{
    respond(request, outcome)
}

/// Output as it is collected: no more than a limit, and whether more came.
#[derive(Debug)]
pub struct LimitedOutput {
    pub limit: usize,
    pub bytes: Vec<u8>,
    pub truncated: bool,
}

/// The first `n` of some bytes, or all of them if they are fewer.
pub open spec fn first_bytes(bytes: Seq<u8>, n: int) -> Seq<u8> {
    if n >= bytes.len() {
        bytes
    } else {
        bytes.take(n)
    }
}

impl LimitedOutput {
    /// Whether no more is kept than may be.
    pub open spec fn wf(&self) -> bool {
        self.bytes@.len() <= self.limit
    }

    /// Whether the collected output is that of some bytes: the first of them, and
    /// whether there were more.
    pub open spec fn holds(&self, all: Seq<u8>) -> bool {
        &&& self.bytes@ == first_bytes(all, self.limit as int)
        &&& self.truncated == (all.len() > self.limit)
    }

    pub fn new(limit: usize) -> (out: Self)
        ensures
            out.wf(),
            out.limit == limit,
            out.holds(Seq::empty()),
    {
        let out = LimitedOutput { limit, bytes: Vec::new(), truncated: false };
        assert(out.bytes@ =~= Seq::<u8>::empty());
        out
    }

    /// Takes another piece of output. Whatever the pieces were, what is kept is the
    /// beginning of all of them together.
    pub fn take(&mut self, chunk: &[u8])
        requires
            old(self).wf(),
        ensures
            final(self).wf(),
            final(self).limit == old(self).limit,
            final(self).bytes@ == old(self).bytes@ + first_bytes(
                chunk@,
                old(self).limit - old(self).bytes@.len(),
            ),
            final(self).truncated == (old(self).truncated || chunk@.len() > old(self).limit
                - old(self).bytes@.len()),
            forall|all: Seq<u8>| #[trigger]
                old(self).holds(all) ==> final(self).holds(all + chunk@),
    {
        let ghost before = *self;
        let remaining: usize = self.limit - self.bytes.len();
        let count: usize = if chunk.len() <= remaining {
            chunk.len()
        } else {
            remaining
        };
        let mut i: usize = 0;
        while i < count
            invariant
                i <= count <= chunk@.len(),
                self.limit == before.limit,
                self.truncated == before.truncated,
                self.bytes@ == before.bytes@ + chunk@.take(i as int),
            decreases count - i,
        {
            self.bytes.push(chunk[i]);
            i += 1;
            assert(self.bytes@ =~= before.bytes@ + chunk@.take(i as int));
        }
        assert(chunk@.take(count as int) =~= first_bytes(chunk@, remaining as int));
        if chunk.len() > remaining {
            self.truncated = true;
        }
        proof {
            assert forall|all: Seq<u8>| #[trigger] before.holds(all) implies self.holds(
                all + chunk@,
            ) by {
                assert(self.bytes@ =~= first_bytes(all + chunk@, self.limit as int));
            }
        }
    }
}

/// How much of a terminal's output has come.
#[derive(Clone, Copy, Debug, PartialEq, Eq, Structural)]
pub struct PtyOutput {
    pub total: u64,
}

impl PtyOutput {
    /// Whether no more has come than a terminal may write.
    pub open spec fn open(&self) -> bool {
        self.total <= PTY_SESSION_BUDGET
    }

    /// How much of a piece of output goes on to the editor. A piece that goes beyond
    /// what a terminal may write is cut there, and is the last.
    pub fn accept(&mut self, chunk: usize) -> (send: usize)
        requires
            old(self).open(),
            chunk <= PTY_CHUNK,
        ensures
            final(self).total == old(self).total + chunk,
            send == if final(self).open() {
                chunk as int
            } else {
                PTY_SESSION_BUDGET - old(self).total
            },
            old(self).total + send <= PTY_SESSION_BUDGET,
    {
        self.total = self.total + chunk as u64;
        if self.total > PTY_SESSION_BUDGET {
            let over: u64 = self.total - PTY_SESSION_BUDGET;
            chunk - over as usize
        } else {
            chunk
        }
    }

    /// Whether output was cut off.
    pub fn is_truncated(&self) -> (yes: bool)
        ensures
            yes == !self.open(),
    {
        self.total > PTY_SESSION_BUDGET
    }
}

/// Whether a context is that of the stream that a spawn request opens.
pub open spec fn opened_by(context: PtyStreamContext, request: RequestEnvelope<PtySpawn>) -> bool {
    &&& context.request_id == request.request_id
    &&& context.stream_id == request.payload.stream_id
    &&& context.generation == request.payload.generation
    &&& context.workspace_epoch == request.workspace_epoch
    &&& context.environment_epoch == request.environment_epoch
    &&& context.document_revision == request.document_revision
    &&& context.execution_context == request.execution_context
}

/// Whether a message tells that a terminal is lost, and why.
pub open spec fn tells_loss(message: Message, context: PtyStreamContext, reason: Seq<char>) -> bool {
    message matches Message::Pty(PtyMessage::Lost { context: c, reason: r }) && c == context && r@
        == reason
}

/// The message that a terminal has ended, with no exit code and nothing cut off.
pub open spec fn ended(context: PtyStreamContext) -> Message {
    Message::Pty(PtyMessage::Exited { context, exit_code: None, truncated: false })
}

/// Whether a step gives a terminal up and tells why.
pub open spec fn gives_up(step: Step, context: PtyStreamContext, reason: Seq<char>) -> bool {
    step matches Step::EndPty { stream_id, answer } && stream_id == context.stream_id && tells_loss(
        answer,
        context,
        reason,
    )
}

/// Whether a step ends a terminal as the editor asked.
pub open spec fn ends(step: Step, context: PtyStreamContext) -> bool {
    step == Step::EndPty { stream_id: context.stream_id, answer: ended(context) }
}

/// Why a terminal is not opened.
pub open spec fn spawn_refused(s: Service, request: RequestEnvelope<PtySpawn>) -> Option<Seq<char>> {
    if context_refused(request.execution_context) is Some {
        context_refused(request.execution_context)
    } else if command_fault(request.payload.command) is Some {
        Some(command_fault_text(command_fault(request.payload.command)->0))
    } else if request.payload.size.rows == 0 || request.payload.size.cols == 0 {
        Some("PTY rows and columns must be non-zero"@)
    } else if request.document_revision is Some {
        Some("PTY stream document revision must be None"@)
    } else if s.ptys@.contains_key(request.payload.stream_id) {
        Some("duplicate PTY stream id "@ + decimal(request.payload.stream_id as nat))
    } else if s.ptys@.len() >= MAX_PTY_SESSIONS {
        Some("remote PTY session limit reached"@)
    } else {
        None
    }
}

/// Whether there is a terminal under exactly a context.
pub open spec fn has_pty(s: Service, context: PtyStreamContext) -> bool {
    s.ptys@.contains_key(context.stream_id) && s.ptys@[context.stream_id].context.equals(&context)
}

/// The reason for refusing a file request without a revision.
pub open spec fn needs_revision() -> Seq<char> {
    "document file request requires a document revision"@
}

/// The reason for refusing a request beyond those that may run at once.
pub open spec fn too_many() -> Seq<char> {
    "concurrent request limit reached"@
}

/// Whether the service is as before but for what it holds of terminals.
pub open spec fn only_ptys(before: Service, after: Service) -> bool {
    after == Service { ptys: after.ptys, ..before }
}

/// What is done with a message about terminals.
pub open spec fn pty_step(
    before: Service,
    message: PtyMessage,
    after: Service,
    r: Result<Step, ServiceError>,
) -> bool {
    match message {
        PtyMessage::Spawn(request) => {
            &&& after == before
            &&& match spawn_refused(before, request) {
                Some(reason) => r is Ok && (r->Ok_0 matches Step::Send(m) && (m matches Message::Pty(
                    PtyMessage::Lost { context, reason: text },
                ) && opened_by(context, request) && text@ == reason)),
                None => r == Ok::<Step, ServiceError>(Step::SpawnPty(request)),
            }
        },
        PtyMessage::Input { context, bytes } => {
            if !has_pty(before, context) || before.ptys@[context.stream_id].cancelled {
                after == before && r == Ok::<Step, ServiceError>(Step::Nothing)
            } else if bytes@.len() > PTY_INPUT_CHUNK_LIMIT {
                &&& only_ptys(before, after)
                &&& after.ptys@ == before.ptys@.remove(context.stream_id)
                &&& r is Ok
                &&& gives_up(r->Ok_0, context, loss_text(InputLoss::TooLong))
            } else {
                after == before && r == Ok::<Step, ServiceError>(Step::WritePty { context, bytes })
            }
        },
        PtyMessage::Resize { context, size } => {
            &&& after == before
            &&& r == Ok::<Step, ServiceError>(
                if has_pty(before, context) {
                    Step::ResizePty { context, size }
                } else {
                    Step::Nothing
                },
            )
        },
        PtyMessage::Cancel { context } => {
            if has_pty(before, context) {
                &&& only_ptys(before, after)
                &&& after.ptys@ == before.ptys@.remove(context.stream_id)
                &&& r is Ok
                &&& ends(r->Ok_0, context)
            } else {
                after == before && r == Ok::<Step, ServiceError>(Step::Nothing)
            }
        },
        _ => after == before && r == Err::<Step, ServiceError>(ServiceError::ResponseOnly),
    }
}

/// Whether a step answers a read request with an error.
pub open spec fn read_error(
    step: Step,
    request: RequestEnvelope<ReadFile>,
    code: RemoteErrorCode,
    message: Seq<char>,
) -> bool {
    step matches Step::Send(m) && (m matches Message::Fs(FsMessage::ReadResult(response))
        && answers(response, request) && response.execution_context == request.execution_context
        && is_error(response.payload, code, message))
}

/// Whether a step answers a write request with an error.
pub open spec fn write_error(
    step: Step,
    request: RequestEnvelope<WriteFile>,
    code: RemoteErrorCode,
    message: Seq<char>,
) -> bool {
    step matches Step::Send(m) && (m matches Message::Fs(FsMessage::WriteResult(response))
        && answers(response, request) && response.execution_context == request.execution_context
        && is_error(response.payload, code, message))
}

/// Whether one more request runs than before.
pub open spec fn one_more(before: Service, after: Service) -> bool {
    after == Service { operations: (before.operations + 1) as usize, ..before }
}

/// What is done with a message about files.
pub open spec fn fs_step(
    before: Service,
    message: FsMessage,
    after: Service,
    r: Result<Step, ServiceError>,
) -> bool {
    match message {
        FsMessage::Read(request) => {
            if request.document_revision is None {
                after == before && r is Ok && read_error(
                    r->Ok_0,
                    request,
                    RemoteErrorCode::InvalidRequest,
                    needs_revision(),
                )
            } else if before.operations >= MAX_IN_FLIGHT_OPERATIONS {
                after == before && r is Ok && read_error(
                    r->Ok_0,
                    request,
                    RemoteErrorCode::OutputLimit,
                    too_many(),
                )
            } else {
                one_more(before, after) && r == Ok::<Step, ServiceError>(Step::ReadFile(request))
            }
        },
        FsMessage::Write(request) => {
            if request.document_revision is None {
                after == before && r is Ok && write_error(
                    r->Ok_0,
                    request,
                    RemoteErrorCode::InvalidRequest,
                    needs_revision(),
                )
            } else if before.operations >= MAX_IN_FLIGHT_OPERATIONS {
                after == before && r is Ok && write_error(
                    r->Ok_0,
                    request,
                    RemoteErrorCode::OutputLimit,
                    too_many(),
                )
            } else {
                one_more(before, after) && r == Ok::<Step, ServiceError>(Step::WriteFile(request))
            }
        },
        _ => after == before && r == Err::<Step, ServiceError>(ServiceError::ResponseOnly),
    }
}

/// What is done with a message about programs.
pub open spec fn process_step(
    before: Service,
    message: ProcessMessage,
    after: Service,
    r: Result<Step, ServiceError>,
) -> bool {
    match message {
        ProcessMessage::Exec(request) => {
            if before.operations >= MAX_IN_FLIGHT_OPERATIONS {
                after == before && r is Ok && (r->Ok_0 matches Step::Send(m)
                    && (m matches Message::Process(ProcessMessage::Result(response)) && answers(
                    response,
                    request,
                ) && response.execution_context == request.execution_context && is_error(
                    response.payload,
                    RemoteErrorCode::OutputLimit,
                    too_many(),
                )))
            } else if before.execs@.contains(request.request_id) {
                after == before && r == Err::<Step, ServiceError>(ServiceError::DuplicateRequestId)
            } else {
                &&& after.ptys == before.ptys
                &&& after.operations == before.operations + 1
                &&& after.execs@ == before.execs@.insert(request.request_id)
                &&& r == Ok::<Step, ServiceError>(Step::Exec(request))
            }
        },
        ProcessMessage::Cancel { request_id } => {
            &&& after.ptys == before.ptys
            &&& after.operations == before.operations
            &&& after.execs@ == before.execs@.remove(request_id)
            &&& r == Ok::<Step, ServiceError>(
                if before.execs@.contains(request_id) {
                    Step::CancelExec(request_id)
                } else {
                    Step::Nothing
                },
            )
        },
        _ => after == before && r == Err::<Step, ServiceError>(ServiceError::ResponseOnly),
    }
}

/// Whether a language server message is one that an editor sends.
pub open spec fn from_editor(message: LspV1) -> bool {
    match message {
        LspV1::Start { .. } => true,
        LspV1::Shutdown { .. } => true,
        LspV1::JsonRpcRequest { .. } => true,
        LspV1::WorkspaceEditResult { .. } => true,
        _ => false,
    }
}

/// What is done with a message.
pub open spec fn service_step(
    before: Service,
    message: Message,
    after: Service,
    r: Result<Step, ServiceError>,
) -> bool {
    match message {
        Message::Pty(m) => pty_step(before, m, after, r),
        Message::Fs(m) => fs_step(before, m, after, r),
        Message::Process(m) => process_step(before, m, after, r),
        Message::Lsp(m) => after == before && r == if from_editor(m) {
            Ok::<Step, ServiceError>(Step::Lsp(m))
        } else {
            Err::<Step, ServiceError>(ServiceError::LspResponse)
        },
        Message::Hello { .. } => after == before && r == Err::<Step, ServiceError>(
            ServiceError::DuplicateNegotiation,
        ),
        Message::HelloAck { .. } => after == before && r == Err::<Step, ServiceError>(
            ServiceError::DuplicateNegotiation,
        ),
        _ => after == before && r == Err::<Step, ServiceError>(ServiceError::ReservedFamily),
    }
}

impl Service {
    /// Whether no more runs than may.
    pub open spec fn wf(&self) -> bool {
        &&& self.operations <= MAX_IN_FLIGHT_OPERATIONS
        &&& self.ptys@.len() <= MAX_PTY_SESSIONS
        &&& self.ptys@.dom().finite()
        &&& forall|id: u64| #[trigger]
            self.ptys@.contains_key(id) ==> self.ptys@[id].context.stream_id == id
    }

    /// A service that runs nothing yet.
    pub fn new() -> (s: Self)
        ensures
            s.wf(),
            s.ptys@ == Map::<u64, PtyEntry>::empty(),
            s.execs@ == Set::<u128>::empty(),
            s.operations == 0,
    {
        Service { ptys: HashMap::new(), execs: HashSet::new(), operations: 0 }
    }

    fn finds_pty(&self, context: &PtyStreamContext) -> (found: bool)
        ensures
            found == has_pty(*self, *context),
    {
        broadcast use vstd::std_specs::hash::group_hash_axioms;

        match self.ptys.get(&context.stream_id) {
            Some(entry) => entry.context.same(context),
            None => false,
        }
    }

    /// The reason for not opening a terminal.
    fn refuse_spawn(&self, request: &RequestEnvelope<PtySpawn>) -> (reason: Option<String>)
        ensures
            match spawn_refused(*self, *request) {
                Some(text) => reason is Some && reason->0@ == text,
                None => reason is None,
            },
    {
        broadcast use vstd::std_specs::hash::group_hash_axioms;

        match validated_execution_context(&request.execution_context) {
            Err(e) => return Some(e.message),
            Ok(_) => {},
        }
        match request.payload.command.validate() {
            Err(text) => return Some(text.to_owned()),
            Ok(()) => {},
        }
        match request.payload.size.validate() {
            Err(text) => return Some(text.to_owned()),
            Ok(_) => {},
        }
        if request.document_revision.is_some() {
            return Some("PTY stream document revision must be None".to_owned());
        }
        if self.ptys.contains_key(&request.payload.stream_id) {
            return Some(
                join2(
                    "duplicate PTY stream id ",
                    decimal_text(request.payload.stream_id).as_str(),
                ),
            );
        }
        if self.ptys.len() >= MAX_PTY_SESSIONS {
            return Some("remote PTY session limit reached".to_owned());
        }
        None
    }

    fn drop_pty(&mut self, stream_id: u64)
        requires
            old(self).wf(),
        ensures
            only_ptys(*old(self), *final(self)),
            final(self).ptys@ == old(self).ptys@.remove(stream_id),
            final(self).wf(),
    {
        broadcast use vstd::std_specs::hash::group_hash_axioms;

        self.ptys.remove(&stream_id);
    }

    fn dispatch_pty(&mut self, message: PtyMessage) -> (r: Result<Step, ServiceError>)
        requires
            old(self).wf(),
        ensures
            final(self).wf(),
            pty_step(*old(self), message, *final(self), r),
    {
        broadcast use vstd::std_specs::hash::group_hash_axioms;

        match message {
            PtyMessage::Spawn(request) => {
                match self.refuse_spawn(&request) {
                    Some(reason) => {
                        let context = PtyStreamContext::from_spawn(&request);
                        Ok(Step::Send(Message::Pty(PtyMessage::Lost { context, reason })))
                    },
                    None => Ok(Step::SpawnPty(request)),
                }
            },
            PtyMessage::Input { context, bytes } => {
                let cancelled = match self.ptys.get(&context.stream_id) {
                    Some(entry) => entry.cancelled,
                    None => true,
                };
                if !self.finds_pty(&context) || cancelled {
                    return Ok(Step::Nothing);
                }
                if bytes.len() > PTY_INPUT_CHUNK_LIMIT {
                    return Ok(self.lose_input(context, InputLoss::TooLong));
                }
                Ok(Step::WritePty { context, bytes })
            },
            PtyMessage::Resize { context, size } => {
                if self.finds_pty(&context) {
                    Ok(Step::ResizePty { context, size })
                } else {
                    Ok(Step::Nothing)
                }
            },
            PtyMessage::Cancel { context } => {
                if self.finds_pty(&context) {
                    self.drop_pty(context.stream_id);
                    Ok(
                        Step::EndPty {
                            stream_id: context.stream_id,
                            answer: Message::Pty(
                                PtyMessage::Exited { context, exit_code: None, truncated: false },
                            ),
                        },
                    )
                } else {
                    Ok(Step::Nothing)
                }
            },
            _ => Err(ServiceError::ResponseOnly),
        }
    }

    fn dispatch_fs(&mut self, message: FsMessage) -> (r: Result<Step, ServiceError>)
        requires
            old(self).wf(),
        ensures
            final(self).wf(),
            fs_step(*old(self), message, *final(self), r),
    {
        match message {
            FsMessage::Read(request) => {
                if request.document_revision.is_none() {
                    return Ok(
                        Step::Send(
                            Message::Fs(
                                FsMessage::ReadResult(
                                    error_response(
                                        &request,
                                        RemoteErrorCode::InvalidRequest,
                                        "document file request requires a document revision",
                                    ),
                                ),
                            ),
                        ),
                    );
                }
                if self.operations >= MAX_IN_FLIGHT_OPERATIONS {
                    return Ok(
                        Step::Send(
                            Message::Fs(
                                FsMessage::ReadResult(
                                    error_response(
                                        &request,
                                        RemoteErrorCode::OutputLimit,
                                        "concurrent request limit reached",
                                    ),
                                ),
                            ),
                        ),
                    );
                }
                self.operations = self.operations + 1;
                Ok(Step::ReadFile(request))
            },
            FsMessage::Write(request) => {
                if request.document_revision.is_none() {
                    return Ok(
                        Step::Send(
                            Message::Fs(
                                FsMessage::WriteResult(
                                    error_response(
                                        &request,
                                        RemoteErrorCode::InvalidRequest,
                                        "document file request requires a document revision",
                                    ),
                                ),
                            ),
                        ),
                    );
                }
                if self.operations >= MAX_IN_FLIGHT_OPERATIONS {
                    return Ok(
                        Step::Send(
                            Message::Fs(
                                FsMessage::WriteResult(
                                    error_response(
                                        &request,
                                        RemoteErrorCode::OutputLimit,
                                        "concurrent request limit reached",
                                    ),
                                ),
                            ),
                        ),
                    );
                }
                self.operations = self.operations + 1;
                Ok(Step::WriteFile(request))
            },
            _ => Err(ServiceError::ResponseOnly),
        }
    }

    fn dispatch_process(&mut self, message: ProcessMessage) -> (r: Result<Step, ServiceError>)
        requires
            old(self).wf(),
        ensures
            final(self).wf(),
            process_step(*old(self), message, *final(self), r),
    {
        broadcast use vstd::std_specs::hash::group_hash_axioms;

        match message {
            ProcessMessage::Exec(request) => {
                if self.operations >= MAX_IN_FLIGHT_OPERATIONS {
                    return Ok(
                        Step::Send(
                            Message::Process(
                                ProcessMessage::Result(
                                    error_response(
                                        &request,
                                        RemoteErrorCode::OutputLimit,
                                        "concurrent request limit reached",
                                    ),
                                ),
                            ),
                        ),
                    );
                }
                if self.execs.contains(&request.request_id) {
                    return Err(ServiceError::DuplicateRequestId);
                }
                self.execs.insert(request.request_id);
                self.operations = self.operations + 1;
                Ok(Step::Exec(request))
            },
            ProcessMessage::Cancel { request_id } => {
                let running = self.execs.remove(&request_id);
                if running {
                    Ok(Step::CancelExec(request_id))
                } else {
                    Ok(Step::Nothing)
                }
            },
            _ => Err(ServiceError::ResponseOnly),
        }
    }

    /// What is done with a message that came in.
    pub fn dispatch(&mut self, message: Message) -> (r: Result<Step, ServiceError>)
        requires
            old(self).wf(),
        ensures
            final(self).wf(),
            service_step(*old(self), message, *final(self), r),
    {
        match message {
            Message::Pty(m) => self.dispatch_pty(m),
            Message::Fs(m) => self.dispatch_fs(m),
            Message::Process(m) => self.dispatch_process(m),
            Message::Lsp(m) => {
                let asked = match &m {
                    LspV1::Start { .. } => true,
                    LspV1::Shutdown { .. } => true,
                    LspV1::JsonRpcRequest { .. } => true,
                    LspV1::WorkspaceEditResult { .. } => true,
                    _ => false,
                };
                if asked {
                    Ok(Step::Lsp(m))
                } else {
                    Err(ServiceError::LspResponse)
                }
            },
            Message::Hello { .. } => Err(ServiceError::DuplicateNegotiation),
            Message::HelloAck { .. } => Err(ServiceError::DuplicateNegotiation),
            _ => Err(ServiceError::ReservedFamily),
        }
    }

    /// Gives a terminal up whose input could not be taken.
    pub fn lose_input(&mut self, context: PtyStreamContext, loss: InputLoss) -> (step: Step)
        requires
            old(self).wf(),
        ensures
            final(self).wf(),
            only_ptys(*old(self), *final(self)),
            final(self).ptys@ == old(self).ptys@.remove(context.stream_id),
            gives_up(step, context, loss_text(loss)),
    {
        let reason = match loss {
            InputLoss::TooLong => "PTY input exceeds 64 KiB",
            InputLoss::QueueFull => "PTY input queue exceeded",
            InputLoss::WorkerStopped => "PTY input worker stopped",
        };
        self.lose_pty(context, reason.to_owned())
    }

    /// Gives a terminal up whose size could not be changed.
    pub fn lose_resize(&mut self, context: PtyStreamContext, error: &str) -> (step: Step)
        requires
            old(self).wf(),
        ensures
            final(self).wf(),
            only_ptys(*old(self), *final(self)),
            final(self).ptys@ == old(self).ptys@.remove(context.stream_id),
            gives_up(step, context, "PTY resize failed: "@ + error@),
    {
        self.lose_pty(context, join2("PTY resize failed: ", error))
    }

    /// Gives a terminal up, for a reason that is told.
    fn lose_pty(&mut self, context: PtyStreamContext, reason: String) -> (step: Step)
        requires
            old(self).wf(),
        ensures
            final(self).wf(),
            only_ptys(*old(self), *final(self)),
            final(self).ptys@ == old(self).ptys@.remove(context.stream_id),
            gives_up(step, context, reason@),
    {
        self.drop_pty(context.stream_id);
        Step::EndPty {
            stream_id: context.stream_id,
            answer: Message::Pty(PtyMessage::Lost { context, reason }),
        }
    }

    /// Takes note of a terminal that was opened, and tells the editor.
    pub fn pty_opened(&mut self, request: &RequestEnvelope<PtySpawn>, process_id: Option<u32>) -> (
    started: Message)
        requires
            old(self).wf(),
            spawn_refused(*old(self), *request) is None,
        ensures
            final(self).wf(),
            only_ptys(*old(self), *final(self)),
            final(self).ptys@ == old(self).ptys@.insert(
                request.payload.stream_id,
                final(self).ptys@[request.payload.stream_id],
            ),
            opened_by(final(self).ptys@[request.payload.stream_id].context, *request),
            !final(self).ptys@[request.payload.stream_id].cancelled,
            started == Message::Pty(
                PtyMessage::Started {
                    context: final(self).ptys@[request.payload.stream_id].context,
                    process_id,
                },
            ),
    {
        broadcast use vstd::std_specs::hash::group_hash_axioms;

        let context = PtyStreamContext::from_spawn(request);
        let told = context.clone();
        self.ptys.insert(request.payload.stream_id, PtyEntry { context, cancelled: false });
        Message::Pty(PtyMessage::Started { context: told, process_id })
    }

    /// Takes note that a terminal could not be opened, or that the editor could not be
    /// told so, and tells the editor that it is lost. No terminal is left on its stream.
    pub fn pty_failed(&mut self, request: &RequestEnvelope<PtySpawn>, reason: String) -> (lost:
        Message)
        requires
            old(self).wf(),
        ensures
            final(self).wf(),
            only_ptys(*old(self), *final(self)),
            final(self).ptys@ == old(self).ptys@.remove(request.payload.stream_id),
            lost matches Message::Pty(PtyMessage::Lost { context, reason: text }) && opened_by(
                context,
                *request,
            ) && text == reason,
    {
        broadcast use vstd::std_specs::hash::group_hash_axioms;

        self.ptys.remove(&request.payload.stream_id);
        Message::Pty(PtyMessage::Lost { context: PtyStreamContext::from_spawn(request), reason })
    }

    /// Takes note that a terminal takes no more input.
    pub fn pty_stopped(&mut self, stream_id: u64)
        requires
            old(self).wf(),
        ensures
            final(self).wf(),
            only_ptys(*old(self), *final(self)),
            if old(self).ptys@.contains_key(stream_id) {
                final(self).ptys@ == old(self).ptys@.insert(
                    stream_id,
                    (PtyEntry { cancelled: true, ..old(self).ptys@[stream_id] }),
                )
            } else {
                final(self).ptys@ == old(self).ptys@
            },
    {
        broadcast use vstd::std_specs::hash::group_hash_axioms;

        let ghost before = self.ptys@;
        match self.ptys.remove(&stream_id) {
            Some(entry) => {
                self.ptys.insert(stream_id, PtyEntry { context: entry.context, cancelled: true });
                assert(self.ptys@ =~= before.insert(
                    stream_id,
                    (PtyEntry { cancelled: true, ..before[stream_id] }),
                ));
            },
            None => {
                assert(self.ptys@ =~= before);
            },
        }
    }

    /// Takes note that a file or process request is done.
    pub fn operation_done(&mut self)
        requires
            old(self).wf(),
            old(self).operations > 0,
        ensures
            final(self).wf(),
            *final(self) == (Service {
                operations: (old(self).operations - 1) as usize,
                ..*old(self)
            }),
    {
        self.operations = self.operations - 1;
    }

    /// Takes note that a program has ended.
    pub fn exec_done(&mut self, request_id: u128)
        requires
            old(self).wf(),
        ensures
            final(self).wf(),
            final(self).ptys == old(self).ptys,
            final(self).operations == old(self).operations,
            final(self).execs@ == old(self).execs@.remove(request_id),
    {
        broadcast use vstd::std_specs::hash::group_hash_axioms;

        self.execs.remove(&request_id);
    }
}

/// Why the first message does not open the service.
#[derive(Clone, Copy, Debug, PartialEq, Eq, Structural)]
pub enum HelloError {
    NotHello,
    Version(DispatchError),
    HeaderMismatch,
}

/// The version that the first message settles on: it must be a greeting, of the
/// same major version, in a frame of the version that it names.
pub fn accept_hello(first: &Message, header_version: ProtocolVersion) -> (r: Result<
    NegotiatedVersion,
    HelloError,
>)
    ensures
        r == match *first {
            Message::Hello { version } => match negotiated(current_version(), version) {
                Err(e) => Err::<NegotiatedVersion, HelloError>(HelloError::Version(e)),
                Ok(v) => if header_version == version {
                    Ok::<NegotiatedVersion, HelloError>(v)
                } else {
                    Err::<NegotiatedVersion, HelloError>(HelloError::HeaderMismatch)
                },
            },
            _ => Err::<NegotiatedVersion, HelloError>(HelloError::NotHello),
        },
{
    let version = match first {
        Message::Hello { version } => *version,
        _ => return Err(HelloError::NotHello),
    };
    match negotiate(version) {
        Err(e) => Err(HelloError::Version(e)),
        Ok(v) => if header_version == version {
            Ok(v)
        } else {
            Err(HelloError::HeaderMismatch)
        },
    }
}

/// How the service ends.
#[derive(Clone, Copy, Debug, PartialEq, Eq, Structural)]
pub enum Ending {
    /// With the error that ended it.
    Failed,
    /// Well: the editor closed its side.
    Closed,
    /// The connection was shut down meanwhile.
    ShutDown,
    /// Once everything is written out.
    Flush,
}

/// How the service ends, once its loop is left.
pub fn ending(failed: bool, input_closed: bool, shut_down: bool) -> (e: Ending)
    ensures
        e == if failed {
            Ending::Failed
        } else if input_closed {
            Ending::Closed
        } else if shut_down {
            Ending::ShutDown
        } else {
            Ending::Flush
        },
{
    if failed {
        Ending::Failed
    } else if input_closed {
        Ending::Closed
    } else if shut_down {
        Ending::ShutDown
    } else {
        Ending::Flush
    }
}

/// How much of the outgoing budget a message takes until it is written: as much as
/// one of its class may be long.
pub fn permits_for(limits: FrameLimits, message: &Message) -> (permits: u32)
    requires
        class_limit(limits, message_class(*message)) <= u32::MAX,
    ensures
        permits == class_limit(limits, message_class(*message)),
{
    limits.max_for(message.class()) as u32
}

/// Terminals do not touch each other: what is done with a message about one stream
/// leaves the terminals of all other streams as they are.
pub proof fn terminals_are_independent(
    before: Service,
    message: PtyMessage,
    after: Service,
    r: Result<Step, ServiceError>,
    stream: u64,
)
    requires
        before.wf(),
        pty_step(before, message, after, r),
        match message {
            PtyMessage::Input { context, .. } => context.stream_id != stream,
            PtyMessage::Cancel { context } => context.stream_id != stream,
            _ => true,
        },
    ensures
        after.ptys@.contains_key(stream) == before.ptys@.contains_key(stream),
        after.ptys@.contains_key(stream) ==> after.ptys@[stream] == before.ptys@[stream],
{
}

/// A message under a context that is no longer that of its stream changes nothing
/// and runs nothing.
pub proof fn stale_terminal_messages_do_nothing(
    before: Service,
    message: PtyMessage,
    after: Service,
    r: Result<Step, ServiceError>,
)
    requires
        pty_step(before, message, after, r),
        match message {
            PtyMessage::Input { context, .. } => !has_pty(before, context),
            PtyMessage::Resize { context, .. } => !has_pty(before, context),
            PtyMessage::Cancel { context } => !has_pty(before, context),
            _ => false,
        },
    ensures
        after == before,
        r == Ok::<Step, ServiceError>(Step::Nothing),
{
}

/// An answer carries every tag of its request.
pub proof fn answers_carry_the_tags<U, T>(response: ResponseEnvelope<T>, request: RequestEnvelope<U>)
    requires
        answers(response, request),
    ensures
        response.request_id == request.request_id,
        response.workspace_epoch.0 == request.workspace_epoch.0,
        response.environment_epoch.0 == request.environment_epoch.0,
        response.document_revision == request.document_revision,
{
}

/// What is typed reaches the terminal that it was typed for, whole and unchanged, as
/// long as it is no longer than 64 KiB; the terminal and all others stay. Longer input
/// ends that terminal, and the editor is told.
pub proof fn terminal_input_arrives(
    before: Service,
    context: PtyStreamContext,
    bytes: Vec<u8>,
    after: Service,
    r: Result<Step, ServiceError>,
)
    requires
        service_step(before, Message::Pty(PtyMessage::Input { context, bytes }), after, r),
        before.ptys@.contains_key(context.stream_id),
        before.ptys@[context.stream_id].context.equals(&context),
        !before.ptys@[context.stream_id].cancelled,
    ensures
        bytes@.len() <= 65536 ==> after == before && (r matches Ok(Step::WritePty {
            context: c,
            bytes: b,
        }) && c == context && b == bytes),
        bytes@.len() > 65536 ==> !after.ptys@.contains_key(context.stream_id) && (r matches Ok(
            Step::EndPty { stream_id, answer },
        ) && stream_id == context.stream_id && (answer matches Message::Pty(PtyMessage::Lost {
            context: c,
            ..
        }) && c == context)),
{
}

/// A terminal is resized to the size that was asked for, and ended where that was asked
/// for, if it is the one that the context names; the editor is told of its end.
pub proof fn terminal_requests_are_carried_out(
    before: Service,
    context: PtyStreamContext,
    size: PtySize,
    after: Service,
    r: Result<Step, ServiceError>,
)
    requires
        before.ptys@.contains_key(context.stream_id),
        before.ptys@[context.stream_id].context.equals(&context),
    ensures
        service_step(before, Message::Pty(PtyMessage::Resize { context, size }), after, r) ==> after
            == before && r == Ok::<Step, ServiceError>(Step::ResizePty { context, size }),
        service_step(before, Message::Pty(PtyMessage::Cancel { context }), after, r)
            ==> !after.ptys@.contains_key(context.stream_id) && (r matches Ok(Step::EndPty {
            stream_id,
            answer,
        }) && stream_id == context.stream_id && (answer matches Message::Pty(PtyMessage::Exited {
            context: c,
            exit_code,
            truncated,
        }) && c == context && exit_code is None && !truncated)),
{
}

/// A terminal is opened as it was asked for if it can be: at the root of the authority,
/// with rows and columns, a command that can be run and a stream of its own, while
/// fewer than 32 are open. Otherwise the editor is told under the tags of the request
/// that it is lost, and nothing is opened.
pub proof fn terminals_open_as_asked(
    before: Service,
    request: RequestEnvelope<PtySpawn>,
    after: Service,
    r: Result<Step, ServiceError>,
)
    requires
        service_step(before, Message::Pty(PtyMessage::Spawn(request)), after, r),
    ensures
        after == before,
        r matches Ok(Step::SpawnPty(asked)) ==> {
            &&& asked == request
            &&& request.execution_context is AuthorityRoot
            &&& request.payload.size.rows > 0
            &&& request.payload.size.cols > 0
            &&& request.payload.command.program@.len() > 0
            &&& request.payload.command.cwd@.len() > 0
            &&& !before.ptys@.contains_key(request.payload.stream_id)
            &&& before.ptys@.len() < 32
            &&& request.document_revision is None
        },
        (r matches Ok(Step::SpawnPty(_))) || (r matches Ok(Step::Send(Message::Pty(
            PtyMessage::Lost { context, .. },
        ))) && context.request_id == request.request_id && context.stream_id
            == request.payload.stream_id && context.generation == request.payload.generation
            && context.workspace_epoch == request.workspace_epoch && context.environment_epoch
            == request.environment_epoch),
        request.execution_context is AuthorityRoot && command_fault(request.payload.command) is None
            && request.payload.size.rows > 0 && request.payload.size.cols > 0
            && request.document_revision is None && !before.ptys@.contains_key(
            request.payload.stream_id,
        ) && before.ptys@.len() < 32 ==> r == Ok::<Step, ServiceError>(Step::SpawnPty(request)),
{
}

/// A file is read or written as it was asked for, with a revision and while fewer than
/// sixteen requests run; otherwise the request itself is answered with an error. A
/// request that runs counts until it is done.
pub proof fn file_requests_run_as_asked(
    before: Service,
    read: RequestEnvelope<ReadFile>,
    write: RequestEnvelope<WriteFile>,
    after: Service,
    r: Result<Step, ServiceError>,
)
    ensures
        service_step(before, Message::Fs(FsMessage::Read(read)), after, r) ==> {
            &&& read.document_revision is Some && before.operations < 16 ==> r == Ok::<
                Step,
                ServiceError,
            >(Step::ReadFile(read)) && after.operations == before.operations + 1
            &&& read.document_revision is None || before.operations >= 16 ==> after.operations
                == before.operations && (r matches Ok(Step::Send(Message::Fs(
                FsMessage::ReadResult(response),
            ))) && response.request_id == read.request_id && response.payload is Err)
            &&& after.ptys == before.ptys
        },
        service_step(before, Message::Fs(FsMessage::Write(write)), after, r) ==> {
            &&& write.document_revision is Some && before.operations < 16 ==> r == Ok::<
                Step,
                ServiceError,
            >(Step::WriteFile(write)) && after.operations == before.operations + 1
            &&& write.document_revision is None || before.operations >= 16 ==> after.operations
                == before.operations && (r matches Ok(Step::Send(Message::Fs(
                FsMessage::WriteResult(response),
            ))) && response.request_id == write.request_id && response.payload is Err)
            &&& after.ptys == before.ptys
        },
{
}

/// A program is run as it was asked for, under its request, while fewer than sixteen
/// requests run and none under the same identifier; it can be cancelled under that
/// identifier while it runs, and no other program is.
pub proof fn programs_run_as_asked(
    before: Service,
    request: RequestEnvelope<ExecRequest>,
    id: u128,
    after: Service,
    r: Result<Step, ServiceError>,
)
    ensures
        service_step(before, Message::Process(ProcessMessage::Exec(request)), after, r) ==> {
            &&& before.operations < 16 && !before.execs@.contains(request.request_id) ==> r == Ok::<
                Step,
                ServiceError,
            >(Step::Exec(request)) && after.execs@.contains(request.request_id)
                && after.operations == before.operations + 1
            &&& before.operations >= 16 ==> after == before && (r matches Ok(Step::Send(
                Message::Process(ProcessMessage::Result(response)),
            )) && response.request_id == request.request_id && response.payload is Err)
            &&& id != request.request_id ==> after.execs@.contains(id) == before.execs@.contains(id)
        },
        service_step(
            before,
            Message::Process(ProcessMessage::Cancel { request_id: id }),
            after,
            r,
        ) ==> {
            &&& before.execs@.contains(id) ==> r == Ok::<Step, ServiceError>(Step::CancelExec(id))
            &&& !before.execs@.contains(id) ==> r == Ok::<Step, ServiceError>(Step::Nothing)
            &&& !after.execs@.contains(id)
            &&& id != request.request_id ==> after.execs@.contains(request.request_id)
                == before.execs@.contains(request.request_id)
        },
{
}

/// A message for language servers is handed on as it is, if it is one that an editor
/// sends.
pub proof fn server_messages_are_handed_on(
    before: Service,
    message: LspV1,
    after: Service,
    r: Result<Step, ServiceError>,
)
    requires
        service_step(before, Message::Lsp(message), after, r),
    ensures
        after == before,
        message is Start || message is Shutdown || message is JsonRpcRequest
            || message is WorkspaceEditResult ==> r == Ok::<Step, ServiceError>(Step::Lsp(message)),
        message is Started || message is Exited || message is JsonRpcResponse
            || message is JsonRpcNotification || message is PublishDiagnostics
            || message is WorkspaceEdit ==> r is Err,
{
}

/// Only a path or a content with NUL, or a place other than the root of the authority,
/// keeps a file from being read or written.
pub proof fn files_are_refused_for_nul(
    read: RequestEnvelope<ReadFile>,
    write: RequestEnvelope<WriteFile>,
)
    ensures
        read_refused(read) is None <==> read.execution_context is AuthorityRoot
            && !read.payload.path@.contains('\0'),
        write_refused(write) is None <==> write.execution_context is AuthorityRoot
            && !write.payload.path@.contains('\0') && !write.payload.bytes@.contains(0u8),
{
}

/// What is kept of a program's output is what was asked for, up to two times 1024 KiB.
pub proof fn outputs_are_kept_as_asked(limit: u64)
    ensures
        limit <= 2 * 1024 * 1024 ==> kept_output(limit) == limit,
        limit > 2 * 1024 * 1024 ==> kept_output(limit) == 2 * 1024 * 1024,
{
}

/// A program is refused if and only if its place is refused or its command is at fault,
/// and an answer is given in the context of its request wherever that is taken.
pub proof fn programs_are_refused_for_a_fault(
    request: RequestEnvelope<ExecRequest>,
    context: ExecutionContextV1,
)
    ensures
        exec_refused(request) is None <==> context_refused(request.execution_context) is None
            && command_fault(request.payload.command) is None,
        context_refused(context) is None ==> answer_context(context) == context,
        context_refused(answer_context(context)) is None,
{
}

/// A terminal carries every tag of the request that opened it.
pub proof fn terminals_carry_their_tags(
    context: PtyStreamContext,
    request: RequestEnvelope<PtySpawn>,
)
    requires
        opened_by(context, request),
    ensures
        context.request_id == request.request_id,
        context.stream_id == request.payload.stream_id,
        context.generation == request.payload.generation,
        context.workspace_epoch == request.workspace_epoch,
        context.environment_epoch == request.environment_epoch,
        context.document_revision == request.document_revision,
        context.execution_context == request.execution_context,
{
}

} // verus!
