use hermito::json::Json;
use hermito::protocol::dispatcher::{
    negotiate, validate_for_dispatch, validate_frame_version, DispatchError, NegotiatedVersion,
};
use hermito::protocol::frame::{
    read_frame, write_message, AggregateBudget, FrameError, FrameHeader, FrameLimits,
    ReceivedFrame, FRAME_MAGIC, HEADER_LEN,
};
use hermito::protocol::fs::{FsMessage, ReadFile};
use hermito::protocol::lsp::{
    AuthorityIdentity, LspContext, LspJsonRpcNotification, LspPosition, LspProtocolError,
    LspRange, LspRequestId, LspServerConfig, LspTextEdit, LspV1, SentVersion, ServerDocumentEdit,
    ServerDocumentChanges, ServerOperation, ServerWorkspaceEdit, SessionGeneration,
    TransactionalDocumentEdit, TransactionalWorkspaceEdit,
};
use hermito::protocol::message::{current_version, Message, MessageClass, ProtocolVersion};
use hermito::protocol::pty::{PtySize, PtySpawn, PtyStreamContext};
use hermito::protocol::request::{
    CommandSpec, DocumentRevision, EnvironmentEpoch, ExecutionContextV1, RequestEnvelope,
    WorkspaceEpoch,
};

#[test]
fn frames_that_are_written_are_read_back() {
    let limits = FrameLimits::default();
    let bytes = write_message(b"payload", MessageClass::Fs, limits).unwrap();
    assert_eq!(bytes.len(), HEADER_LEN + 7);
    assert_eq!(bytes[0..4], FRAME_MAGIC);
    assert_eq!(&bytes[0..4], b"HMT2");
    let mut head = [0u8; 12];
    head.copy_from_slice(&bytes[0..12]);
    let header = read_frame(head, limits).unwrap();
    assert_eq!(header.class, MessageClass::Fs);
    assert_eq!(header.version, current_version());
    assert_eq!(header.payload_len, 7);
    assert_eq!(&bytes[12..], b"payload");
}

#[test]
fn headers_are_big_endian() {
    let header = FrameHeader {
        version: ProtocolVersion { major: 1, minor: 0 },
        class: MessageClass::Pty,
        flags: 0,
        payload_len: 0x0102_0304,
    };
    let bytes = header.encode();
    assert_eq!(bytes, [b'H', b'M', b'T', b'2', 1, 0, 1, 0, 1, 2, 3, 4]);
    assert_eq!(FrameHeader::decode(bytes).unwrap(), header);
}

#[test]
fn frames_that_break_a_rule_are_refused() {
    let limits = FrameLimits::default();
    assert_eq!(read_frame([0; 12], limits).err(), Some(FrameError::BadMagic));
    let unknown = [b'H', b'M', b'T', b'2', 1, 0, 9, 0, 0, 0, 0, 0];
    assert_eq!(read_frame(unknown, limits).err(), Some(FrameError::UnknownClass(9)));
    let long = [b'H', b'M', b'T', b'2', 1, 0, 0, 0, 0, 1, 0, 1];
    assert_eq!(
        read_frame(long, limits).err(),
        Some(FrameError::ClassLimit {
            class: MessageClass::Control,
            length: 65537,
            limit: 65536,
        })
    );
    let too_long = vec![0u8; 65537];
    assert!(write_message(&too_long, MessageClass::Control, limits).is_err());
}

#[test]
fn budgets_give_back_what_is_released() {
    let mut budget = AggregateBudget::new(10);
    let a = budget.try_reserve(6).unwrap();
    assert_eq!(budget.used(), 6);
    assert_eq!(
        budget.try_reserve(5).err(),
        Some(FrameError::AggregateLimit { requested: 5, available: 4 })
    );
    assert!(budget.reserve(5).unwrap().is_none());
    assert!(budget.reserve(11).is_err());
    budget.release(a);
    assert_eq!(budget.used(), 0);
    assert!(budget.reserve(10).unwrap().is_some());
}

#[test]
fn classes_keep_their_codes() {
    for code in 0..8u8 {
        assert_eq!(MessageClass::try_from(code).unwrap().code(), code);
    }
    assert_eq!(MessageClass::try_from(8).err(), Some(FrameError::UnknownClass(8)));
}

#[test]
fn messages_must_have_the_class_of_their_frame() {
    let mut budget = AggregateBudget::new(100);
    let frame = ReceivedFrame {
        header: FrameHeader {
            version: current_version(),
            class: MessageClass::Fs,
            flags: 0,
            payload_len: 0,
        },
        payload: vec![],
        permit: budget.try_reserve(1).unwrap(),
    };
    let hello = Message::Hello { version: current_version() };
    assert_eq!(
        frame.into_message(hello).err(),
        Some(FrameError::ClassMismatch {
            header: MessageClass::Fs,
            payload: MessageClass::Control,
        })
    );
}

#[test]
fn versions_are_negotiated() {
    let ours = current_version();
    assert_eq!(negotiate(ours), Ok(NegotiatedVersion(ours)));
    let newer = ProtocolVersion { major: ours.major, minor: 7 };
    assert_eq!(negotiate(newer), Ok(NegotiatedVersion(ours)));
    assert_eq!(
        negotiate(ProtocolVersion { major: 2, minor: 0 }),
        Err(DispatchError::MajorVersion { local: 1, peer: 2 })
    );
    assert!(validate_frame_version(ours, NegotiatedVersion(ours)).is_ok());
    assert_eq!(
        validate_frame_version(newer, NegotiatedVersion(ours)),
        Err(DispatchError::FrameVersion {
            expected_major: 1,
            expected_minor: 0,
            actual_major: 1,
            actual_minor: 7,
        })
    );
    let read = RequestEnvelope::authority_root(
        ReadFile { path: "/a".to_owned(), max_bytes: 1 },
        WorkspaceEpoch(1),
        EnvironmentEpoch(2),
    );
    assert_eq!((read.request_id >> 76) & 0xf, 4);
    let message = Message::Fs(FsMessage::Read(read));
    assert_eq!(message.class(), MessageClass::Fs);
    assert!(validate_for_dispatch(&message, NegotiatedVersion(ours)).is_ok());
}

fn command() -> CommandSpec {
    CommandSpec {
        program: "/bin/sh".to_owned(),
        args: vec!["-c".to_owned()],
        cwd: "/".to_owned(),
        env: vec![("TERM".to_owned(), "dumb".to_owned())],
    }
}

#[test]
fn commands_are_checked() {
    assert!(command().validate().is_ok());
    let mut c = command();
    c.program = String::new();
    assert_eq!(c.validate(), Err("program must not be empty"));
    let mut c = command();
    c.cwd = String::new();
    assert_eq!(c.validate(), Err("cwd must not be empty"));
    for bad in ["A=B", "", "A\0"] {
        let mut c = command();
        c.env = vec![(bad.to_owned(), "x".to_owned())];
        assert_eq!(
            c.validate(),
            Err("command contains an invalid NUL byte or environment key")
        );
    }
    let mut c = command();
    c.args.push("a\0b".to_owned());
    assert!(c.validate().is_err());
}

#[test]
fn terminals_have_a_size_and_a_context() {
    let size = PtySize { rows: 24, cols: 80, pixel_width: 0, pixel_height: 0 };
    assert_eq!(size.validate(), Ok(size));
    let flat = PtySize { rows: 0, cols: 80, pixel_width: 0, pixel_height: 0 };
    assert!(flat.validate().is_err());
    let mut spawn = RequestEnvelope::authority_root(
        PtySpawn { stream_id: 3, generation: 4, command: command(), size },
        WorkspaceEpoch(1),
        EnvironmentEpoch(2),
    );
    spawn.document_revision = Some(DocumentRevision(5));
    let context = PtyStreamContext::from_spawn(&spawn);
    assert_eq!((context.stream_id, context.generation), (3, 4));
    assert_eq!(context.request_id, spawn.request_id);
    assert_eq!(context.document_revision, Some(DocumentRevision(5)));
    assert!(context.same(&PtyStreamContext::from_spawn(&spawn)));
}

fn lsp_context() -> LspContext {
    LspContext {
        workspace_epoch: WorkspaceEpoch(1),
        environment_epoch: EnvironmentEpoch(2),
        document_revision: Some(DocumentRevision(3)),
        sent_version: SentVersion(4),
        session_generation: SessionGeneration(5),
        execution_context: ExecutionContextV1::AuthorityRoot,
        authority_identity: AuthorityIdentity("local".to_owned()),
    }
}

#[test]
fn server_messages_are_checked() {
    let shutdown = LspV1::Shutdown { context: lsp_context() };
    assert!(shutdown.validate().is_ok());
    let mut nobody = lsp_context();
    nobody.authority_identity = AuthorityIdentity(String::new());
    assert_eq!(
        LspV1::Shutdown { context: nobody }.validate(),
        Err(LspProtocolError::EmptyAuthorityIdentity)
    );
    let start = |language: &str| LspV1::Start {
        context: lsp_context(),
        config: LspServerConfig {
            language_id: language.to_owned(),
            program: "/bin/ls".to_owned(),
            args: vec![],
            cwd: "/w".to_owned(),
        },
    };
    assert!(start("rust").validate().is_ok());
    assert_eq!(start("").validate(), Err(LspProtocolError::EmptyLanguageId));
    let notice = |method: &str| LspV1::JsonRpcNotification {
        context: lsp_context(),
        payload: LspJsonRpcNotification { method: method.to_owned(), params: Some(Json::Null) },
    };
    assert!(notice("textDocument/didOpen").validate().is_ok());
    assert_eq!(notice("").validate(), Err(LspProtocolError::EmptyMethod));
    assert!(LspRequestId::Number(1).same(&LspRequestId::Number(1)));
    assert!(!LspRequestId::Number(1).same(&LspRequestId::String("1".to_owned())));
}

fn insertion() -> LspTextEdit {
    let at = LspPosition { line: 0, character: 0 };
    LspTextEdit { range: LspRange { start: at, end: at }, new_text: "x".to_owned() }
}

#[test]
fn workspace_edits_hold_text_edits_only() {
    let edit = ServerDocumentEdit {
        uri: "file:///a.rs".to_owned(),
        version: Some(4),
        edits: vec![insertion()],
    };
    let taken = TransactionalWorkspaceEdit::try_from(ServerWorkspaceEdit {
        document_changes: Some(ServerDocumentChanges::Edits(vec![edit])),
        changes: Some(vec![("file:///b.rs".to_owned(), vec![insertion()])]),
    })
    .unwrap();
    assert_eq!(taken.document_changes.len(), 1);
    let TransactionalDocumentEdit::TextDocument { uri, expected_lsp_version, .. } =
        &taken.document_changes[0];
    assert_eq!(uri, "file:///a.rs");
    assert_eq!(*expected_lsp_version, Some(SentVersion(4)));
    let resource = ServerDocumentChanges::Operations(vec![ServerOperation::Resource]);
    assert!(TransactionalWorkspaceEdit::try_from(ServerWorkspaceEdit {
        document_changes: Some(resource),
        changes: None,
    })
    .is_err());
    let plain = TransactionalWorkspaceEdit::try_from(ServerWorkspaceEdit {
        document_changes: None,
        changes: Some(vec![("file:///b.rs".to_owned(), vec![insertion()])]),
    })
    .unwrap();
    assert_eq!(plain.document_changes.len(), 1);
}

#[test]
fn errors_of_the_protocol_say_what_is_wrong() {
    let long = FrameError::ClassLimit { class: MessageClass::Fs, length: 9, limit: 8 };
    assert_eq!(long.text(), "Fs frame length 9 exceeds cap 8");
    let full = FrameError::AggregateLimit { requested: 5, available: 4 };
    assert_eq!(full.text(), "aggregate frame budget exceeded: requested 5, available 4");
    let mixed = FrameError::ClassMismatch { header: MessageClass::Pty, payload: MessageClass::Lsp };
    assert_eq!(mixed.text(), "frame class Pty does not match decoded message class Lsp");
    let version = DispatchError::FrameVersion {
        expected_major: 1,
        expected_minor: 2,
        actual_major: 1,
        actual_minor: 10,
    };
    assert_eq!(version.text(), "frame version mismatch: expected 1.2, got 1.10");
    let field = LspProtocolError::InvalidField { field: "f".to_owned(), reason: "r".to_owned() };
    assert_eq!(field.text(), "invalid field f: r");
}
