use hermito::json::Json;
use hermito::protocol::fs::{FsMessage, ReadFile, WriteFile};
use hermito::protocol::lsp::{
    AuthorityIdentity, LspContext, LspJsonRpcRequest, LspRequestId, LspServerConfig, LspV1,
    SentVersion, SessionGeneration,
};
use hermito::protocol::message::{current_version, Message, ProtocolVersion};
use hermito::protocol::process::{ExecRequest, ProcessMessage};
use hermito::protocol::pty::{PtyMessage, PtySize, PtySpawn, PtyStreamContext};
use hermito::protocol::request::{
    CommandSpec, DocumentRevision, EnvironmentEpoch, ExecutionContextV1, RequestEnvelope,
    WorkspaceEpoch,
};
use hermito::protocol::response::RemoteErrorCode;
use hermito::remote::lsp::{
    parse_request_id, refusal, request_frame, send_frame, Decoded, FrameHeaderReader, HeaderStep,
    LspSessions, LspStep, METHOD_NOT_FOUND,
};
use hermito::remote::service::{
    accept_hello, answer_write, check_exec, check_read, check_write, ending, error_response,
    remote_error, Ending, Failure, HelloError, LimitedOutput, PtyOutput, Service, ServiceError,
    Step, PTY_SESSION_BUDGET,
};

fn envelope<T>(payload: T) -> RequestEnvelope<T> {
    let mut e = RequestEnvelope::authority_root(payload, WorkspaceEpoch(1), EnvironmentEpoch(2));
    e.document_revision = Some(DocumentRevision(1));
    e
}

fn command() -> CommandSpec {
    CommandSpec {
        program: "/bin/sh".to_owned(),
        args: vec![],
        cwd: "/".to_owned(),
        env: vec![],
    }
}

fn spawn(stream_id: u64, generation: u64) -> RequestEnvelope<PtySpawn> {
    RequestEnvelope::authority_root(
        PtySpawn {
            stream_id,
            generation,
            command: command(),
            size: PtySize { rows: 24, cols: 80, pixel_width: 0, pixel_height: 0 },
        },
        WorkspaceEpoch(1),
        EnvironmentEpoch(2),
    )
}

#[test]
fn a_session_begins_with_hello() {
    let hello = Message::Hello { version: current_version() };
    assert!(accept_hello(&hello, current_version()).is_ok());
    assert!(matches!(
        accept_hello(&hello, ProtocolVersion { major: 1, minor: 9 }),
        Err(HelloError::HeaderMismatch)
    ));
    let other = Message::Hello { version: ProtocolVersion { major: 9, minor: 0 } };
    assert!(matches!(
        accept_hello(&other, ProtocolVersion { major: 9, minor: 0 }),
        Err(HelloError::Version(_))
    ));
    let ack = Message::HelloAck { version: current_version() };
    assert!(matches!(
        accept_hello(&ack, current_version()),
        Err(HelloError::NotHello)
    ));
}

#[test]
fn messages_out_of_place_end_the_service() {
    let mut s = Service::new();
    assert!(matches!(
        s.dispatch(Message::Hello { version: current_version() }),
        Err(ServiceError::DuplicateNegotiation)
    ));
    let git = hermito::protocol::message::ExtensionMessage {
        family_version: 1,
        kind: "x".to_owned(),
        body: vec![],
    };
    assert!(matches!(s.dispatch(Message::Git(git)), Err(ServiceError::ReservedFamily)));
}

#[test]
fn terminals_are_told_apart_by_their_context() {
    let mut s = Service::new();
    let first = spawn(1, 1);
    let context = PtyStreamContext::from_spawn(&first);
    assert!(matches!(
        s.dispatch(Message::Pty(PtyMessage::Spawn(first))),
        Ok(Step::SpawnPty(_))
    ));
    let again = spawn(1, 1);
    s.pty_opened(&again, Some(7));
    let right = PtyStreamContext::from_spawn(&again);
    assert!(matches!(
        s.dispatch(Message::Pty(PtyMessage::Input { context, bytes: vec![1] })),
        Ok(Step::Nothing)
    ));
    assert!(matches!(
        s.dispatch(Message::Pty(PtyMessage::Input { context: right, bytes: vec![1] })),
        Ok(Step::WritePty { .. })
    ));
}

#[test]
fn programs_are_cancelled_by_their_identifiers() {
    let mut s = Service::new();
    let exec = envelope(ExecRequest {
        command: command(),
        timeout_ms: 1000,
        stdout_limit: 10,
        stderr_limit: 10,
    });
    let id = exec.request_id;
    let limits = check_exec(&exec).unwrap();
    assert_eq!((limits.stdout_bytes, limits.timeout_ms), (10, 1000));
    assert!(matches!(
        s.dispatch(Message::Process(ProcessMessage::Exec(exec))),
        Ok(Step::Exec(_))
    ));
    assert!(matches!(
        s.dispatch(Message::Process(ProcessMessage::Cancel { request_id: id })),
        Ok(Step::CancelExec(_))
    ));
    s.exec_done(id);
    assert!(matches!(
        s.dispatch(Message::Process(ProcessMessage::Cancel { request_id: id })),
        Ok(Step::Nothing)
    ));
}

#[test]
fn files_need_a_revision_and_a_bound() {
    let read = |max_bytes: u64| envelope(ReadFile { path: "/a".to_owned(), max_bytes });
    assert!(check_read(&read(64)).is_ok());
    let nul = envelope(ReadFile { path: "/a\0".to_owned(), max_bytes: 64 });
    assert_eq!(check_read(&nul).err().unwrap().code, RemoteErrorCode::InvalidRequest);
    let mut bare = read(64);
    bare.document_revision = None;
    let id = bare.request_id;
    match Service::new().dispatch(Message::Fs(FsMessage::Read(bare))) {
        Ok(Step::Send(Message::Fs(FsMessage::ReadResult(answer)))) => {
            assert_eq!(answer.request_id, id);
            assert_eq!(answer.payload.err().unwrap().code, RemoteErrorCode::InvalidRequest);
        }
        other => panic!("{other:?}"),
    }
    let write = envelope(WriteFile { path: "/a".to_owned(), bytes: b"abc".to_vec(), create: true });
    assert!(check_write(&write).is_ok());
    let answer = answer_write(&write, Ok(()));
    assert_eq!(answer.request_id, write.request_id);
    assert_eq!(answer.payload.unwrap().bytes_written, 3);
    let failed = answer_write(&write, Err(remote_error(Failure::NotFound, "no".to_owned())));
    assert_eq!(failed.payload.err().unwrap().code, RemoteErrorCode::NotFound);
    let e = error_response::<WriteFile, ()>(&write, RemoteErrorCode::Cancelled, "stopped");
    assert_eq!(e.payload.err().unwrap().message, "stopped");
    assert!(matches!(
        Service::new().dispatch(Message::Fs(FsMessage::Write(write))),
        Ok(Step::WriteFile(_))
    ));
}

#[test]
fn output_is_cut_at_its_limit() {
    let mut out = LimitedOutput::new(4);
    out.take(b"abc");
    assert!(!out.truncated);
    out.take(b"def");
    assert_eq!(out.bytes, b"abcd");
    assert!(out.truncated);
    let mut pty = PtyOutput { total: PTY_SESSION_BUDGET - 3 };
    assert_eq!(pty.accept(2), 2);
    assert!(!pty.is_truncated());
    assert_eq!(pty.accept(5), 1);
    assert!(pty.is_truncated());
}

#[test]
fn endings_are_told_apart() {
    assert_eq!(ending(true, true, true), Ending::Failed);
    assert_eq!(ending(false, true, false), Ending::Closed);
    assert_eq!(ending(false, false, true), Ending::ShutDown);
}

fn lsp_context() -> LspContext {
    LspContext {
        workspace_epoch: WorkspaceEpoch(1),
        environment_epoch: EnvironmentEpoch(2),
        document_revision: Some(DocumentRevision(3)),
        sent_version: SentVersion(4),
        session_generation: SessionGeneration(5),
        execution_context: ExecutionContextV1::AuthorityRoot,
        authority_identity: AuthorityIdentity("box".to_owned()),
    }
}

fn start() -> LspV1 {
    LspV1::Start {
        context: lsp_context(),
        config: LspServerConfig {
            language_id: "rust".to_owned(),
            program: "/bin/ra".to_owned(),
            args: vec![],
            cwd: "/w".to_owned(),
        },
    }
}

#[test]
fn servers_get_requests_only_while_they_run() {
    let mut s = LspSessions::new();
    assert!(matches!(s.handle_lsp(start()), LspStep::Launch { .. }));
    assert!(matches!(s.started(lsp_context()), LspV1::Started { .. }));
    let ask = || LspV1::JsonRpcRequest {
        context: lsp_context(),
        payload: LspJsonRpcRequest {
            id: LspRequestId::Number(1),
            method: "textDocument/hover".to_owned(),
            params: None,
        },
    };
    assert!(matches!(s.handle_lsp(ask()), LspStep::Write { request: true, .. }));
    assert!(matches!(
        s.handle_lsp(LspV1::Shutdown { context: lsp_context() }),
        LspStep::End { .. }
    ));
    assert!(!matches!(s.handle_lsp(ask()), LspStep::Write { .. }));
}

#[test]
fn lost_requests_end_their_server() {
    let mut s = LspSessions::new();
    s.handle_lsp(start());
    s.started(lsp_context());
    assert!(matches!(s.write_failed(lsp_context(), false), LspStep::Nothing));
    assert_eq!(s.sessions.len(), 1);
    assert!(matches!(s.write_failed(lsp_context(), true), LspStep::End { .. }));
    assert_eq!(s.sessions.len(), 0);
    assert!(matches!(s.write_failed(lsp_context(), true), LspStep::Nothing));
}

#[test]
fn unknown_requests_of_servers_are_refused() {
    let mut s = LspSessions::new();
    s.handle_lsp(start());
    s.started(lsp_context());
    let frame = Json::Object(vec![
        ("jsonrpc".to_owned(), Json::Text("2.0".to_owned())),
        ("id".to_owned(), Json::Int(8)),
        ("method".to_owned(), Json::Text("window/showDocument".to_owned())),
    ]);
    let nothing = Decoded { error: None, edit: None, published: None };
    match s.receive(&lsp_context(), frame, nothing) {
        LspStep::Write { frame, .. } => {
            let error = frame.get("error").unwrap();
            assert_eq!(error.get("code").unwrap().as_i64(), Some(METHOD_NOT_FOUND));
            assert_eq!(frame.get("id").unwrap().as_i64(), Some(8));
        }
        other => panic!("{other:?}"),
    }
}

#[test]
fn frames_of_servers_have_the_form_of_json_rpc() {
    let frame = request_frame(LspJsonRpcRequest {
        id: LspRequestId::String("a".to_owned()),
        method: "m".to_owned(),
        params: Some(Json::Null),
    });
    assert_eq!(frame.get("jsonrpc").unwrap().as_str(), Some("2.0"));
    assert_eq!(frame.get("id").unwrap().as_str(), Some("a"));
    assert_eq!(frame.get("method").unwrap().as_str(), Some("m"));
    let no = refusal(LspRequestId::Number(2), METHOD_NOT_FOUND, "unknown");
    assert_eq!(no.get("error").unwrap().get("message").unwrap().as_str(), Some("unknown"));
    assert!(matches!(parse_request_id(&Json::Int(4)), Some(LspRequestId::Number(4))));
    assert!(parse_request_id(&Json::Null).is_none());
}

#[test]
fn lengths_that_are_written_are_read_back() {
    let body = b"{}".to_vec();
    let frame = send_frame(&body, 100).unwrap();
    assert_eq!(frame, b"Content-Length: 2\r\n\r\n{}");
    assert!(send_frame(&body, 1).is_none());
    let mut reader = FrameHeaderReader::new();
    assert_eq!(reader.line("Content-Type: x\r\n"), HeaderStep::More);
    assert_eq!(reader.line("Content-Length: 2\r\n"), HeaderStep::More);
    assert_eq!(reader.line("\r\n"), HeaderStep::Body(2));
    let mut empty = FrameHeaderReader::new();
    assert_eq!(empty.line("\r\n"), HeaderStep::MissingLength);
    let mut long = FrameHeaderReader::new();
    assert_eq!(long.line("Content-Length: 99999999\r\n"), HeaderStep::More);
    assert_eq!(long.line("\r\n"), HeaderStep::TooLong);
}
