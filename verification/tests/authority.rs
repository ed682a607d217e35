use hermito::authority::base::{
    check_digest, check_version, is_usable, lang_environment, ProbeOutput,
};
use hermito::authority::edit_task::{EditNews, EditPhase, EditStep, EditTask};
use hermito::authority::launch::{probe_request, LaunchNews, LaunchPhase, LaunchStep};
use hermito::authority::local::{
    executable_digest, LocalAuthority, LspExit, LspExitNews, LOCAL_FILE_READ_LIMIT,
};
use hermito::authority::remote_edit::{RemoteEditNews, RemoteEditStep, RemoteEditTask};
use hermito::authority::ssh::{
    digest_of_probe, LspRoute, RouteError, RouteNews, SshAuthority, Transport,
};
use hermito::authority::transaction::{
    discard_staged, roll_back, sibling, tidy_up, undo_replacements, FileAction,
    StagedLspReplacement,
};
use hermito::authority::tuf_verifier::{
    check_file, count_chunk, offline_sources, sanitize_name, verify_file, TufPolicy,
    TufVerificationError, TufVerifier, VerifiedTarget, VerifyNews, VerifyStep,
};
use hermito::authority::types::{
    allowlisted_environment, path_comes_before, AuthorityRequest, ExecRequest,
    LspDocumentChange, LspDocumentRevisionSnapshot, LspWorkspaceEditPreconditions,
    LspWorkspaceEditRequest, PtyRequest, ReadFileRequest, WriteFileRequest,
};
use hermito::authority::{
    AuthorityError, Awaited, EditConflict, IoFault, ProtocolFault, SshFault,
};
use hermito::buffer::Buffer;
use hermito::config::EffectiveLspConfig;
use hermito::document;
use hermito::document::{DocumentId, Language};
use hermito::protocol::fs::{FileContent, FsMessage, WriteResult};
use hermito::protocol::lsp::{
    AuthorityIdentity, LspContext, LspV1, SentVersion, SessionGeneration,
};
use hermito::protocol::message::{Message, ProtocolVersion};
use hermito::protocol::pty::PtySize;
use hermito::protocol::request::{
    CommandSpec, DocumentRevision, EnvironmentEpoch, ExecutionContextV1, WorkspaceEpoch,
};
use hermito::protocol::response::{RemoteError, RemoteErrorCode, ResponseEnvelope};

fn local() -> LocalAuthority {
    LocalAuthority::new("host".to_owned(), "/w".to_owned(), WorkspaceEpoch(3))
}

fn request<T>(payload: T) -> AuthorityRequest<T> {
    AuthorityRequest::new(payload, WorkspaceEpoch(3), EnvironmentEpoch(0), Some(DocumentRevision(1)))
}

fn read(path: &str, max_bytes: usize) -> AuthorityRequest<ReadFileRequest> {
    request(ReadFileRequest { path: path.to_owned(), max_bytes })
}

#[test]
fn files_are_read_below_the_root_only() {
    let a = local();
    let plan = a.begin_read(&read("src/a.rs", 10)).unwrap();
    assert_eq!(plan.candidate, "/w/src/a.rs");
    assert_eq!(
        a.resolve_existing(&"x".to_owned(), "/w/x".to_owned()).unwrap(),
        "/w/x"
    );
    assert_eq!(
        a.resolve_existing(&"x".to_owned(), "/etc/passwd".to_owned()).err(),
        Some(AuthorityError::PathEscapesRoot("x".to_owned()))
    );
    assert!(LOCAL_FILE_READ_LIMIT == 16 * 1024 * 1024);
}

#[test]
fn reads_are_bounded() {
    let a = local();
    let r = read("a", 4);
    let plan = a.begin_read(&r).unwrap();
    assert_eq!(plan.max_bytes, 4);
    assert_eq!(plan.read_limit, 5);
    assert_eq!(
        a.finish_read(r, &plan, vec![1, 2, 3, 4, 5]).err(),
        Some(AuthorityError::OutputLimit { limit: 4 })
    );
    let r = read("a", 4);
    let id = r.request_id;
    let done = a.finish_read(r, &plan, vec![1, 2, 3, 4]).unwrap();
    assert_eq!(done.request_id, id);
    assert_eq!(done.payload, vec![1, 2, 3, 4]);
}

#[test]
fn requests_of_other_epochs_are_refused() {
    let a = local();
    let mut r = read("a", 4);
    r.workspace_epoch = WorkspaceEpoch(2);
    assert_eq!(
        a.begin_read(&r).err(),
        Some(AuthorityError::StaleEpoch {
            expected_workspace: WorkspaceEpoch(3),
            actual_workspace: WorkspaceEpoch(2),
            expected_environment: EnvironmentEpoch(0),
            actual_environment: EnvironmentEpoch(0),
        })
    );
}

fn write(path: &str, create: bool) -> AuthorityRequest<WriteFileRequest> {
    request(WriteFileRequest { path: path.to_owned(), bytes: b"abc".to_vec(), create })
}

#[test]
fn writes_go_beside_their_target_first() {
    let a = local();
    let r = write("src/a.rs", true);
    let plan = a.place_write(&r, Some("/w/src".to_owned()), "77").unwrap();
    assert_eq!(plan.target, "/w/src/a.rs");
    assert!(plan.temp.starts_with("/w/src/.a.rs"));
    assert!(plan.temp.contains("77"));
    assert_eq!(
        a.place_write(&r, Some("/etc".to_owned()), "77").err(),
        Some(AuthorityError::PathEscapesRoot("src/a.rs".to_owned()))
    );
    assert!(a.check_target(&r, false).is_ok());
    assert_eq!(
        a.check_target(&write("src/a.rs", false), false).err(),
        Some(AuthorityError::Io(IoFault::TargetMissing))
    );
    assert_eq!(a.finish_write(r).payload, 3);
}

fn command() -> CommandSpec {
    CommandSpec {
        program: "/bin/true".to_owned(),
        args: vec![],
        cwd: "/w".to_owned(),
        env: vec![],
    }
}

#[test]
fn programs_run_only_with_trust() {
    let mut a = local();
    let pty = |a: &mut LocalAuthority| {
        a.begin_pty(&request(PtyRequest {
            command: command(),
            size: PtySize { rows: 1, cols: 1, pixel_width: 0, pixel_height: 0 },
        }))
    };
    assert_eq!(pty(&mut a).err(), Some(AuthorityError::InspectOnly));
    a.base.grant_execution();
    assert_eq!(pty(&mut a).unwrap(), 1);
    assert_eq!(pty(&mut a).unwrap(), 2);
    let exec = request(ExecRequest {
        command: command(),
        stdout_limit: 1,
        stderr_limit: 1,
        timeout_ms: 1,
    });
    assert!(a.begin_exec(&exec).is_ok());
    a.base.revoke_execution();
    assert_eq!(a.begin_exec(&exec).err(), Some(AuthorityError::InspectOnly));
}

#[test]
fn servers_need_a_grant_of_their_own() {
    let mut a = local();
    a.base.grant_execution();
    assert!(!a.base.is_lsp_execution_granted("d"));
    a.base.grant_lsp_execution("d");
    assert!(a.base.is_lsp_execution_granted("d"));
    assert!(!a.base.is_lsp_execution_granted("e"));
    a.base.revoke_lsp_execution("d");
    assert!(!a.base.is_lsp_execution_granted("d"));
}

fn context() -> LspContext {
    LspContext {
        workspace_epoch: WorkspaceEpoch(3),
        environment_epoch: EnvironmentEpoch(0),
        document_revision: Some(DocumentRevision(0)),
        sent_version: SentVersion(0),
        session_generation: SessionGeneration(1),
        execution_context: ExecutionContextV1::AuthorityRoot,
        authority_identity: AuthorityIdentity("local".to_owned()),
    }
}

#[test]
fn servers_are_started_after_every_check() {
    let mut a = local();
    assert_eq!(a.base.start_lsp(&context(), "d").err(), Some(AuthorityError::InspectOnly));
    a.base.grant_lsp_execution("d");
    assert!(a.base.start_lsp(&context(), "d").is_ok());
    let mut stale = context();
    stale.workspace_epoch = WorkspaceEpoch(9);
    assert!(a.base.start_lsp(&stale, "d").is_err());
    let mut inside = context();
    inside.execution_context = ExecutionContextV1::DevContainer {
        container_id: "c".to_owned(),
        environment_epoch: EnvironmentEpoch(0),
    };
    assert_eq!(
        a.base.start_lsp(&inside, "d").err(),
        Some(AuthorityError::UnsupportedExecutionContext)
    );
}

fn server_config(version: Option<&str>, digest: Option<&str>) -> EffectiveLspConfig {
    EffectiveLspConfig {
        executable: "/bin/ls".to_owned(),
        args: vec![],
        version_probe_args: Some(vec!["--version".to_owned()]),
        expected_version: version.map(str::to_owned),
        expected_digest: digest.map(str::to_owned),
        initialization_options: None,
    }
}

fn probe(stdout: &str) -> ProbeOutput {
    ProbeOutput {
        exit_code: Some(0),
        stdout_truncated: false,
        stderr_truncated: false,
        stdout: stdout.to_owned(),
        stderr: String::new(),
    }
}

#[test]
fn versions_and_digests_of_servers_are_checked_before_they_run() {
    let mut a = local();
    let begin = |a: &LocalAuthority, version: Option<&str>, digest: Option<&str>| {
        a.base.begin_launch(&context(), "d", server_config(version, digest), "C".to_owned())
    };
    assert_eq!(begin(&a, None, None).err(), Some(AuthorityError::InspectOnly));
    a.base.grant_lsp_execution("d");
    let (mut task, step) = begin(&a, None, None).unwrap();
    assert!(matches!(step, LaunchStep::Resolve { candidate } if candidate == "/bin/ls"));
    let step = a.base.launch_step(&mut task, LaunchNews::Resolved("/bin/real".to_owned()));
    assert!(matches!(step, LaunchStep::Run { executable } if executable == "/bin/real"));
    assert_eq!(task.phase, LaunchPhase::Ready);
    let (mut task, _) = begin(&a, Some("server 1.2"), Some("AB")).unwrap();
    let step = a.base.launch_step(&mut task, LaunchNews::Resolved("/bin/real".to_owned()));
    assert!(matches!(step, LaunchStep::Digest { .. }));
    match a.base.launch_step(&mut task, LaunchNews::Digest("ab".to_owned())) {
        LaunchStep::Version(command) => {
            assert_eq!(command.program, "/bin/real");
            assert_eq!(command.args, vec!["--version".to_owned()]);
            assert_eq!(command.cwd, "/w");
            assert_eq!(command.env, vec![("LANG".to_owned(), "C".to_owned())]);
        }
        other => panic!("{other:?}"),
    }
    let step = a.base.launch_step(&mut task, LaunchNews::Probe(probe("server 1.2\n")));
    assert!(matches!(step, LaunchStep::Run { .. }));
    let (mut task, _) = begin(&a, None, Some("d")).unwrap();
    a.base.launch_step(&mut task, LaunchNews::Resolved("/bin/real".to_owned()));
    match a.base.launch_step(&mut task, LaunchNews::Digest("e".to_owned())) {
        LaunchStep::Refuse(e) => assert_eq!(
            e.text(),
            "remote protocol failed: LSP_VERSION_MISMATCH: expected \"d\", actual \"e\""
        ),
        other => panic!("{other:?}"),
    }
    assert_eq!(task.phase, LaunchPhase::Refused);
    let asked = probe_request(a.base.version_probe(&server_config(None, None), "/b", "C"), &context());
    assert_eq!(asked.payload.stdout_limit, 16 * 1024);
    assert_eq!(asked.payload.timeout_ms, 5000);
    assert_eq!(asked.document_revision, context().document_revision);
    let command = a.base.server_command(&server_config(None, None), "/bin/real", "C");
    assert_eq!(command.program, "/bin/real");
    assert_eq!(command.cwd, "/w");
    assert_eq!(
        command.env,
        vec![
            ("LANG".to_owned(), "C".to_owned()),
            ("TERM".to_owned(), "dumb".to_owned())
        ]
    );
    assert_eq!(
        check_version(&probe("server 1.2"), &"1.2".to_owned()).err(),
        Some(AuthorityError::Protocol(ProtocolFault::VersionMismatch {
            expected: "1.2".to_owned(),
            actual: "server 1.2".to_owned(),
        }))
    );
    assert!(check_digest("a".to_owned(), &"a".to_owned()).is_ok());
    assert!(check_digest("a".to_owned(), &"b".to_owned()).is_err());
    let mut cut = probe("1.2");
    cut.stdout_truncated = true;
    assert!(!is_usable(&cut));
    assert_eq!(lang_environment("C"), vec![("LANG".to_owned(), "C".to_owned())]);
}

#[test]
fn digests_of_executables_are_sha256() {
    assert_eq!(
        executable_digest(b"abc"),
        "ba7816bf8f01cfea414140de5dae2223b00361a396177a9cb410ff61f20015ad"
    );
    assert_eq!(digest_of_probe(&probe("ab12  /bin/ls\n")), "ab12");
}

#[test]
fn exits_are_told_once() {
    let mut exit = LspExit { emitted: false };
    assert_eq!(exit.poll(None), LspExitNews::Wait);
    assert_eq!(exit.poll(Some(Some(3))), LspExitNews::Exited(Some(3)));
    assert_eq!(exit.poll(Some(Some(3))), LspExitNews::Closed);
}

#[test]
fn exits_can_be_seen_while_waiting() {
    let mut exit = LspExit { emitted: false };
    assert_eq!(exit.watched(true, Some(None)), LspExitNews::WatcherClosed);
    assert_eq!(exit.watched(false, None), LspExitNews::WatcherClosed);
    assert!(!exit.emitted);
    assert_eq!(exit.watched(false, Some(None)), LspExitNews::Exited(None));
    let closed = exit.poll(None);
    assert_eq!(closed.error_text(), Some("local lsp stream closed"));
    assert_eq!(LspExitNews::WatcherClosed.error_text(), Some("local lsp exit watcher closed"));
    assert_eq!(LspExitNews::Wait.error_text(), None);
}

fn route() -> LspRoute {
    LspRoute { context: context(), open: true, loss_told: false }
}

#[test]
fn losses_are_told_once() {
    let mut r = route();
    assert!(r.begin_recv(false).is_none());
    match r.finish_recv(RouteNews::Ended { lost: true }) {
        Ok(LspV1::Exited { context: c, exit_code }) => {
            assert_eq!(c, context());
            assert_eq!(exit_code, None);
        }
        other => panic!("{:?}", other),
    }
    assert!(matches!(r.begin_recv(true), Some(Err(RouteError::Closed))));
    let mut r = route();
    assert!(matches!(r.begin_recv(true), Some(Ok(LspV1::Exited { .. }))));
    assert!(matches!(r.begin_recv(true), Some(Err(RouteError::Closed))));
    let mut r = LspRoute { open: false, ..route() };
    assert!(matches!(r.begin_recv(true), Some(Err(RouteError::Closed))));
    assert!(!r.loss_told);
}

#[test]
fn routes_carry_language_messages_only() {
    let mut r = route();
    let message = Message::Lsp(LspV1::Shutdown { context: context() });
    assert!(matches!(
        r.finish_recv(RouteNews::Received(message)),
        Ok(LspV1::Shutdown { .. })
    ));
    let other = Message::Hello { version: ProtocolVersion { major: 1, minor: 0 } };
    let error = r.finish_recv(RouteNews::Received(other)).err().unwrap();
    assert_eq!(error.text(), "non-lsp on route");
    let error = r.finish_recv(RouteNews::Ended { lost: false }).err().unwrap();
    assert_eq!(error.text(), "lsp stream ended");
    let error = r.finish_recv(RouteNews::Watched { gone: true, lost: true }).err().unwrap();
    assert_eq!(error.text(), "remote lsp loss watcher closed");
    assert_eq!(RouteError::Closed.text(), "lsp stream closed");
    assert!(!r.loss_told);
    assert!(r.finish_recv(RouteNews::Watched { gone: false, lost: true }).is_ok());
    assert!(r.loss_told);
}

#[test]
fn environments_keep_what_is_allowed() {
    let kept = allowlisted_environment(vec![
        ("PATH".to_owned(), "/bin".to_owned()),
        ("A=B".to_owned(), "x".to_owned()),
        ("".to_owned(), "x".to_owned()),
        ("NUL".to_owned(), "a\0b".to_owned()),
        ("TERM".to_owned(), "dumb".to_owned()),
        ("PATH".to_owned(), "/usr/bin".to_owned()),
    ]);
    let mut pairs: Vec<(&str, &str)> =
        kept.iter().map(|(name, value)| (name.as_str(), value.as_str())).collect();
    pairs.sort();
    assert_eq!(pairs, vec![("PATH", "/usr/bin"), ("TERM", "dumb")]);
    assert!(path_comes_before("/a/b", "/a/c"));
    assert!(!path_comes_before("/a/c", "/a/b"));
}

fn ssh() -> SshAuthority {
    SshAuthority::new("box".to_owned(), "/srv".to_owned(), WorkspaceEpoch(3)).unwrap()
}

fn connected() -> SshAuthority {
    let mut a = ssh();
    a.base.grant_execution();
    a.begin_activation().unwrap();
    let generation = a.base.environment_epoch.0;
    a.finish_activation(Transport { id: 9, generation, alive: true }, None).unwrap();
    a
}

#[test]
fn connections_over_ssh_are_made_and_lost() {
    let mut a = ssh();
    assert_eq!(a.begin_activation().err(), Some(AuthorityError::InspectOnly));
    assert!(!a.is_connected());
    let mut a = connected();
    assert!(a.is_connected());
    assert_eq!(a.begin_activation().err(), Some(AuthorityError::Ssh(SshFault::AlreadyConnected)));
    let generation = a.base.environment_epoch.0;
    a.transport_lost(9, generation);
    assert!(!a.is_connected());
    assert_eq!(a.current_transport().err(), Some(AuthorityError::Ssh(SshFault::NotConnected)));
    assert_eq!(
        SshAuthority::new("b".to_owned(), "srv".to_owned(), WorkspaceEpoch(1)).err(),
        Some(AuthorityError::Ssh(SshFault::RootNotAbsolute))
    );
}

#[test]
fn answers_over_ssh_must_fit_their_requests() {
    let a = connected();
    let epoch = a.base.environment_epoch;
    let make = || {
        AuthorityRequest::new(
            ReadFileRequest { path: "a.txt".to_owned(), max_bytes: 8 },
            WorkspaceEpoch(3),
            epoch,
            Some(DocumentRevision(1)),
        )
    };
    let r = make();
    let envelope = a.begin_read(&r).unwrap();
    assert_eq!(envelope.payload.path, "/srv/a.txt");
    assert_eq!(envelope.request_id, r.request_id);
    let answer = |id: u128, payload| {
        Message::Fs(FsMessage::ReadResult(ResponseEnvelope {
            request_id: id,
            workspace_epoch: WorkspaceEpoch(3),
            environment_epoch: epoch,
            document_revision: Some(DocumentRevision(1)),
            execution_context: ExecutionContextV1::AuthorityRoot,
            payload,
        }))
    };
    let id = r.request_id;
    let done = a
        .finish_read(r, answer(id, Ok(FileContent { bytes: b"hi".to_vec() })))
        .unwrap();
    assert_eq!(done.payload, b"hi");
    let r = make();
    assert_eq!(
        a.finish_read(r, answer(1, Ok(FileContent { bytes: vec![] }))).err(),
        Some(AuthorityError::Protocol(ProtocolFault::ResponseMismatch))
    );
    let r = make();
    let id = r.request_id;
    let gone = RemoteError { code: RemoteErrorCode::NotFound, message: "gone".to_owned() };
    assert_eq!(
        a.finish_read(r, answer(id, Err(gone))).err(),
        Some(AuthorityError::Ssh(SshFault::Remote(RemoteError {
            code: RemoteErrorCode::NotFound,
            message: "gone".to_owned()
        })))
    );
    let r = make();
    let id = r.request_id;
    let wrong = Message::Fs(FsMessage::WriteResult(ResponseEnvelope {
        request_id: id,
        workspace_epoch: WorkspaceEpoch(3),
        environment_epoch: epoch,
        document_revision: Some(DocumentRevision(1)),
        execution_context: ExecutionContextV1::AuthorityRoot,
        payload: Ok(WriteResult { bytes_written: 1 }),
    }));
    assert_eq!(
        a.finish_read(r, wrong).err(),
        Some(AuthorityError::Protocol(ProtocolFault::UnexpectedResponse(Awaited::FileRead)))
    );
    assert_eq!(
        a.resolve_remote(&"../x".to_owned()).err(),
        Some(AuthorityError::PathEscapesRoot("../x".to_owned()))
    );
}

fn staged(n: u8, backup: bool) -> StagedLspReplacement {
    StagedLspReplacement {
        temp: format!("/w/.t{n}"),
        target: format!("/w/f{n}"),
        backup: if backup { Some(format!("/w/.b{n}")) } else { None },
    }
}

fn rename(from: &str, to: &str) -> FileAction {
    FileAction::Rename { from: from.to_owned(), to: to.to_owned() }
}

fn remove(path: &str) -> FileAction {
    FileAction::Remove { path: path.to_owned() }
}

#[test]
fn edits_are_put_in_place_and_taken_back() {
    let both = vec![staged(1, true), staged(2, true)];
    assert_eq!(
        discard_staged(&vec![staged(1, false), staged(2, false)], 1),
        vec![remove("/w/.t1")]
    );
    let back = undo_replacements(&both);
    assert!(back.contains(&rename("/w/.b1", "/w/f1")));
    assert!(back.contains(&rename("/w/.b2", "/w/f2")));
    let half = roll_back(&both, 1);
    assert!(half.contains(&rename("/w/.b1", "/w/f1")));
    assert!(half.contains(&remove("/w/.t2")));
    assert!(sibling("a.rs", "lsp", "7").contains("a.rs"));
}

#[test]
fn local_edits_end_whole_or_not_at_all() {
    let both = || vec![staged(1, false), staged(2, false)];
    let backups = || vec!["/w/.b1".to_owned(), "/w/.b2".to_owned()];
    let renamed = |from: &str, to: &str| EditStep::Rename { from: from.to_owned(), to: to.to_owned() };
    let (mut task, step) = EditTask::begin(both(), backups());
    assert_eq!(step, EditStep::Write { path: "/w/.t1".to_owned(), change: 0 });
    let step = task.step(EditNews::Done);
    assert_eq!(step, EditStep::Write { path: "/w/.t2".to_owned(), change: 1 });
    let step = task.step(EditNews::Failed("full".to_owned()));
    assert_eq!(
        step,
        EditStep::Finish {
            cleanup: vec![remove("/w/.t1")],
            result: Err(AuthorityError::Io(IoFault::Other("full".to_owned()))),
        }
    );
    let (mut task, _) = EditTask::begin(both(), backups());
    task.step(EditNews::Done);
    assert_eq!(task.step(EditNews::Done), EditStep::Look { path: "/w/f1".to_owned() });
    assert_eq!(task.step(EditNews::Present(true)), renamed("/w/f1", "/w/.b1"));
    assert_eq!(task.step(EditNews::Done), EditStep::Look { path: "/w/f2".to_owned() });
    assert_eq!(task.step(EditNews::Present(false)), renamed("/w/.t1", "/w/f1"));
    assert_eq!(task.step(EditNews::Done), renamed("/w/.t2", "/w/f2"));
    match task.step(EditNews::Failed("gone".to_owned())) {
        EditStep::Finish { cleanup, result } => {
            assert_eq!(
                cleanup,
                vec![
                    remove("/w/f1"),
                    remove("/w/.t2"),
                    rename("/w/.b1", "/w/f1"),
                    remove("/w/.t1"),
                ]
            );
            assert_eq!(
                result.unwrap_err().text(),
                "lsp workspace edit conflict: failed to commit workspace edit for \"/w/f2\": gone"
            );
        }
        other => panic!("{other:?}"),
    }
    assert_eq!(task.phase, EditPhase::Ended);
    assert_eq!(task.step(EditNews::Done), EditStep::Wait);
    let (mut task, _) = EditTask::begin(both(), backups());
    task.step(EditNews::Done);
    task.step(EditNews::Done);
    task.step(EditNews::Present(true));
    match task.step(EditNews::Failed("no".to_owned())) {
        EditStep::Finish { cleanup, result } => {
            assert_eq!(cleanup, vec![remove("/w/.t2"), remove("/w/.t1")]);
            assert_eq!(
                result.unwrap_err(),
                AuthorityError::LspEditConflict(EditConflict::NotPreserved {
                    error: "no".to_owned()
                })
            );
        }
        other => panic!("{other:?}"),
    }
    let (mut task, _) = EditTask::begin(vec![staged(1, false)], vec!["/w/.b1".to_owned()]);
    task.step(EditNews::Done);
    task.step(EditNews::Present(true));
    task.step(EditNews::Done);
    assert_eq!(
        task.step(EditNews::Done),
        EditStep::Finish { cleanup: vec![remove("/w/.b1"), remove("/w/.t1")], result: Ok(()) }
    );
}

#[test]
fn remote_edits_are_put_back_in_reverse() {
    let paths = || vec!["a".to_owned(), "b".to_owned(), "c".to_owned()];
    let (mut task, step) = RemoteEditTask::begin(paths());
    assert_eq!(step, RemoteEditStep::Read { change: 0 });
    for k in 1..3 {
        let step = task.step(RemoteEditNews::Original(vec![k as u8]));
        assert_eq!(step, RemoteEditStep::Read { change: k });
    }
    let step = task.step(RemoteEditNews::Original(vec![3]));
    assert_eq!(step, RemoteEditStep::Write { change: 0 });
    assert_eq!(task.step(RemoteEditNews::Done), RemoteEditStep::Write { change: 1 });
    assert_eq!(task.step(RemoteEditNews::Done), RemoteEditStep::Write { change: 2 });
    let lost = || RemoteEditNews::Failed(AuthorityError::Ssh(SshFault::NotConnected));
    assert_eq!(task.step(lost()), RemoteEditStep::PutBack { change: 1 });
    assert_eq!(task.step(lost()), RemoteEditStep::PutBack { change: 0 });
    match task.step(RemoteEditNews::Done) {
        RemoteEditStep::Finish { result } => assert_eq!(
            result.unwrap_err().text(),
            "lsp workspace edit conflict: remote workspace edit failed for \"c\": \
             SSH transport failed: remote helper is not connected; rollback failures: \
             \"b\": SSH transport failed: remote helper is not connected"
        ),
        other => panic!("{other:?}"),
    }
    let (mut task, _) = RemoteEditTask::begin(paths());
    match task.step(lost()) {
        RemoteEditStep::Finish { result } => assert_eq!(
            result.unwrap_err().text(),
            "lsp workspace edit conflict: failed to stage remote workspace edit for \"a\": \
             SSH transport failed: remote helper is not connected"
        ),
        other => panic!("{other:?}"),
    }
}

#[test]
fn errors_say_what_is_wrong() {
    let stale = AuthorityError::StaleEpoch {
        expected_workspace: WorkspaceEpoch(1),
        actual_workspace: WorkspaceEpoch(2),
        expected_environment: EnvironmentEpoch(3),
        actual_environment: EnvironmentEpoch(4),
    };
    assert_eq!(
        stale.text(),
        "stale authority epoch: workspace WorkspaceEpoch(2)/WorkspaceEpoch(1), environment \
         EnvironmentEpoch(4)/EnvironmentEpoch(3)"
    );
    assert_eq!(
        AuthorityError::OutputLimit { limit: 12 }.text(),
        "authority output exceeds limit 12"
    );
    assert_eq!(
        AuthorityError::Io(IoFault::TargetMissing).text(),
        "authority I/O failed: target does not exist"
    );
    assert_eq!(
        AuthorityError::MissingLspEditPrecondition { path: "a\tb".to_owned() }.text(),
        "LSP workspace edit is missing a validated host precondition for \"a\\tb\""
    );
    let remote = RemoteError { code: RemoteErrorCode::NotFound, message: "no file".to_owned() };
    assert_eq!(
        AuthorityError::Ssh(SshFault::Remote(remote)).text(),
        "SSH transport failed: NotFound: no file"
    );
    assert_eq!(
        TufVerificationError::Metadata { online: "a".to_owned(), offline: Some("b".to_owned()) }
            .text(),
        "TUF metadata verification failed online: a; offline: Some(\"b\")"
    );
    assert_eq!(
        TufVerificationError::InvalidPolicy("offline targets URL missing").text(),
        "invalid TUF policy: offline targets URL missing"
    );
}

fn edit_request(path: &str) -> AuthorityRequest<LspWorkspaceEditRequest> {
    request(LspWorkspaceEditRequest {
        context: context(),
        config_digest: "d".to_owned(),
        changes: vec![LspDocumentChange {
            relative_path: path.to_owned(),
            content: b"new".to_vec(),
        }],
    })
}

fn open_buffer() -> Buffer {
    let mut b = Buffer::new(DocumentId(1), Language::Rust, "text");
    b.ensure_lsp_ledger(
        AuthorityIdentity("local".to_owned()),
        ExecutionContextV1::AuthorityRoot,
        document::WorkspaceEpoch(3),
        EnvironmentEpoch(0),
    );
    b
}

fn evidence<'a>(path: &str, buffer: &'a Buffer) -> LspDocumentRevisionSnapshot<'a> {
    LspDocumentRevisionSnapshot {
        relative_path: path.to_owned(),
        authority_identity: AuthorityIdentity("local".to_owned()),
        execution_context: ExecutionContextV1::AuthorityRoot,
        workspace_epoch: document::WorkspaceEpoch(3),
        environment_epoch: EnvironmentEpoch(0),
        revision: document::DocumentRevision(0),
        buffer,
    }
}

#[test]
fn paths_of_a_batch_are_checked_before_staging() {
    let mut a = local();
    a.base.grant_lsp_execution("d");
    let b = open_buffer();
    let fits = LspWorkspaceEditPreconditions {
        snapshots: vec![evidence("a.rs", &b), evidence("../x", &b)],
    };
    let mut batch = edit_request("a.rs");
    let bad = "../x".to_owned();
    batch
        .payload
        .changes
        .push(LspDocumentChange { relative_path: bad.clone(), content: vec![] });
    assert_eq!(
        a.base.authorize_workspace_edit(&batch, &fits).err(),
        Some(AuthorityError::PathEscapesRoot(bad))
    );
}

#[test]
fn remote_paths_of_a_batch_are_checked_before_dispatch() {
    let mut a = ssh();
    a.base.grant_lsp_execution("d");
    let b = open_buffer();
    let batch = |second: &str| {
        let mut batch = edit_request("a.rs");
        batch.payload.context.authority_identity = AuthorityIdentity("box".to_owned());
        batch
            .payload
            .changes
            .push(LspDocumentChange { relative_path: second.to_owned(), content: vec![] });
        batch
    };
    let none = LspWorkspaceEditPreconditions { snapshots: vec![] };
    assert!(a.authorize_workspace_edit(&batch("b.rs"), &none).is_err());
    let mut b2 = open_buffer();
    b2.ensure_lsp_ledger(
        AuthorityIdentity("box".to_owned()),
        ExecutionContextV1::AuthorityRoot,
        document::WorkspaceEpoch(3),
        EnvironmentEpoch(0),
    );
    drop(b);
    let seen = |path: &str| {
        let mut seen = evidence(path, &b2);
        seen.authority_identity = AuthorityIdentity("box".to_owned());
        seen
    };
    let both = |second: &str| LspWorkspaceEditPreconditions {
        snapshots: vec![seen("a.rs"), seen(second)],
    };
    assert!(a.authorize_workspace_edit(&batch("b.rs"), &both("b.rs")).is_ok());
    for bad in ["../x", "b\0"] {
        assert_eq!(
            a.authorize_workspace_edit(&batch(bad), &both(bad)).err(),
            Some(AuthorityError::PathEscapesRoot(bad.to_owned()))
        );
    }
}

#[test]
fn whole_batches_are_staged() {
    let a = local();
    let change = |path: &str| LspDocumentChange {
        relative_path: path.to_owned(),
        content: vec![],
    };
    let ids = vec!["1".to_owned(), "2".to_owned()];
    let parents = vec![Some("/w".to_owned()), Some("/w/s".to_owned())];
    let staged = a.stage_all(&vec![change("a"), change("s/b")], &parents, &ids).unwrap();
    assert_eq!(staged[0].target, "/w/a");
    assert_eq!(staged[1].target, "/w/s/b");
    assert_eq!(staged[1].temp, "/w/s/.b.hermito-lsp-edit-2.tmp");
    let outside = vec![Some("/w".to_owned()), Some("/other".to_owned())];
    assert_eq!(
        a.stage_all(&vec![change("a"), change("s/b")], &outside, &ids).err(),
        Some(AuthorityError::PathEscapesRoot("s/b".to_owned()))
    );
    let same = vec![Some("/w".to_owned()), Some("/w".to_owned())];
    assert_eq!(
        a.stage_all(&vec![change("a"), change("l/a")], &same, &ids).err(),
        Some(AuthorityError::LspEditConflict(EditConflict::DuplicateTarget {
            path: "l/a".to_owned()
        }))
    );
}

#[test]
fn workspace_edits_need_a_grant_and_evidence() {
    let mut a = local();
    let b = open_buffer();
    let fits = LspWorkspaceEditPreconditions { snapshots: vec![evidence("a.rs", &b)] };
    assert_eq!(
        a.base.authorize_workspace_edit(&edit_request("a.rs"), &fits).err(),
        Some(AuthorityError::InspectOnly)
    );
    a.base.grant_lsp_execution("d");
    assert!(a.base.authorize_workspace_edit(&edit_request("a.rs"), &fits).is_ok());
    let none = LspWorkspaceEditPreconditions { snapshots: vec![] };
    assert_eq!(
        a.base.authorize_workspace_edit(&edit_request("a.rs"), &none).err(),
        Some(AuthorityError::MissingLspEditPrecondition { path: "a.rs".to_owned() })
    );
    let mut late = evidence("a.rs", &b);
    late.revision = document::DocumentRevision(4);
    let moved = LspWorkspaceEditPreconditions { snapshots: vec![late] };
    assert!(matches!(
        a.base.authorize_workspace_edit(&edit_request("a.rs"), &moved).err(),
        Some(AuthorityError::LspEditPreconditionMismatch { .. })
    ));
    let twice = LspWorkspaceEditPreconditions {
        snapshots: vec![evidence("a.rs", &b), evidence("a.rs", &b)],
    };
    assert_eq!(
        a.base.authorize_workspace_edit(&edit_request("a.rs"), &twice).err(),
        Some(AuthorityError::LspEditConflict(EditConflict::DuplicatePrecondition {
            path: "a.rs".to_owned()
        }))
    );
}

fn policy() -> TufPolicy {
    TufPolicy {
        trusted_root: "/t/root.json".to_owned(),
        metadata_base_url: "https://e/m".to_owned(),
        targets_base_url: "https://e/t".to_owned(),
        datastore: "/data".to_owned(),
        target_cache: "/cache".to_owned(),
        offline_metadata_url: Some("file:///m".to_owned()),
        offline_targets_url: None,
        allow_offline_cache: true,
        max_target_bytes: 10,
    }
}

#[test]
fn downloads_are_bounded_and_checked() {
    let name = "helper".to_owned();
    assert_eq!(count_chunk(&policy(), &name, 4, 6), Ok(10));
    assert_eq!(
        count_chunk(&policy(), &name, 4, 7),
        Err(TufVerificationError::TargetTooLarge { name: "helper".to_owned(), limit: 10 })
    );
    let digest = "ba7816bf8f01cfea414140de5dae2223b00361a396177a9cb410ff61f20015ad".to_owned();
    let path = "/cache/x".to_owned();
    assert!(verify_file(&path, b"abc", 3, &digest).is_ok());
    assert!(matches!(
        verify_file(&path, b"abd", 3, &digest),
        Err(TufVerificationError::HashMismatch { .. })
    ));
    assert!(check_file(&path, 3, "d".to_owned(), 3, &"d".to_owned()).is_ok());
    assert_eq!(
        check_file(&path, 4, "d".to_owned(), 3, &"d".to_owned()),
        Err(TufVerificationError::HashMismatch {
            path: "/cache/x".to_owned(),
            expected_length: 3,
            actual_length: 4,
            expected_sha256: "d".to_owned(),
            actual_sha256: "d".to_owned(),
        })
    );
}

#[test]
fn names_of_downloads_stay_in_the_cache() {
    let safe = sanitize_name("../../etc/passwd");
    assert!(!safe.contains('/'));
    assert_eq!(sanitize_name("helper-1.2_x"), "helper-1.2_x");
    assert_eq!(
        offline_sources(&policy(), "down".to_owned()).err(),
        Some(TufVerificationError::InvalidPolicy("offline targets URL missing"))
    );
    let mut closed = policy();
    closed.allow_offline_cache = false;
    assert_eq!(
        offline_sources(&closed, "down".to_owned()).err(),
        Some(TufVerificationError::Metadata { online: "down".to_owned(), offline: None })
    );
}

const ABC: &str = "ba7816bf8f01cfea414140de5dae2223b00361a396177a9cb410ff61f20015ad";

#[test]
fn downloads_are_handed_out_after_a_last_check() {
    let verifier = TufVerifier::new(policy(), None).unwrap();
    let (mut task, step) = verifier.verify_target("a/b".to_owned(), "id");
    assert_eq!(step, VerifyStep::ReadRoot { path: "/t/root.json".to_owned() });
    let temp = "/cache/.a_b.id.tmp".to_owned();
    let place = format!("/cache/a_b-{ABC}");
    let steps = [
        (VerifyNews::Done, VerifyStep::MakeDirectory { path: "/data".to_owned() }),
        (VerifyNews::Done, VerifyStep::MakeDirectory { path: "/cache".to_owned() }),
        (
            VerifyNews::Done,
            VerifyStep::Load { metadata: "https://e/m".to_owned(), targets: "https://e/t".to_owned() },
        ),
        (VerifyNews::Done, VerifyStep::Find { name: "a/b".to_owned() }),
        (VerifyNews::Done, VerifyStep::Create { path: temp.clone() }),
        (VerifyNews::Done, VerifyStep::Receive),
        (VerifyNews::Chunk(b"ab".to_vec()), VerifyStep::Append(b"ab".to_vec())),
        (VerifyNews::Done, VerifyStep::Receive),
        (VerifyNews::Chunk(b"c".to_vec()), VerifyStep::Append(b"c".to_vec())),
        (VerifyNews::Done, VerifyStep::Receive),
        (VerifyNews::End, VerifyStep::Sync),
        (VerifyNews::Done, VerifyStep::Look { path: place.clone() }),
        (VerifyNews::Present(true), VerifyStep::Read { path: place.clone() }),
        (VerifyNews::Content(b"abd".to_vec()), VerifyStep::Remove { path: place.clone() }),
        (VerifyNews::Done, VerifyStep::Look { path: place.clone() }),
        (
            VerifyNews::Present(false),
            VerifyStep::Rename { from: temp.clone(), to: place.clone() },
        ),
        (VerifyNews::Done, VerifyStep::Read { path: place.clone() }),
        (
            VerifyNews::Content(b"abc".to_vec()),
            VerifyStep::Finish {
                remove: None,
                result: Ok(VerifiedTarget {
                    name: "a/b".to_owned(),
                    path: place.clone(),
                    length: 3,
                    sha256_hex: ABC.to_owned(),
                }),
            },
        ),
        (VerifyNews::Done, VerifyStep::Wait),
    ];
    for (news, expected) in steps {
        assert_eq!(verifier.step(&mut task, news), expected);
    }
}

#[test]
fn failed_downloads_leave_nothing_behind() {
    let verifier = TufVerifier::new(policy(), None).unwrap();
    let (mut task, _) = verifier.verify_target("a".to_owned(), "id");
    assert_eq!(
        verifier.step(&mut task, VerifyNews::Failed("x".to_owned())),
        VerifyStep::Finish {
            remove: None,
            result: Err(TufVerificationError::Role { role: "root", detail: "x".to_owned() }),
        }
    );
    let (mut task, _) = verifier.verify_target("a".to_owned(), "id");
    for _ in 0..3 {
        verifier.step(&mut task, VerifyNews::Done);
    }
    assert_eq!(
        verifier.step(&mut task, VerifyNews::Failed("down".to_owned())),
        VerifyStep::Finish {
            remove: None,
            result: Err(TufVerificationError::InvalidPolicy("offline targets URL missing")),
        }
    );
    let (mut task, _) = verifier.verify_target("a".to_owned(), "id");
    for _ in 0..6 {
        verifier.step(&mut task, VerifyNews::Done);
    }
    assert_eq!(
        verifier.step(&mut task, VerifyNews::Chunk(vec![0; 11])),
        VerifyStep::Finish {
            remove: Some("/cache/.a.id.tmp".to_owned()),
            result: Err(TufVerificationError::TargetTooLarge { name: "a".to_owned(), limit: 10 }),
        }
    );
    let (mut task, _) = verifier.verify_target("a".to_owned(), "id");
    for _ in 0..6 {
        verifier.step(&mut task, VerifyNews::Done);
    }
    verifier.step(&mut task, VerifyNews::Chunk(b"abc".to_vec()));
    verifier.step(&mut task, VerifyNews::Done);
    verifier.step(&mut task, VerifyNews::End);
    verifier.step(&mut task, VerifyNews::Done);
    verifier.step(&mut task, VerifyNews::Present(false));
    verifier.step(&mut task, VerifyNews::Present(false));
    verifier.step(&mut task, VerifyNews::Done);
    match verifier.step(&mut task, VerifyNews::Content(b"abx".to_vec())) {
        VerifyStep::Finish { remove, result } => {
            assert_eq!(remove, Some(format!("/cache/a-{ABC}")));
            assert!(matches!(result, Err(TufVerificationError::HashMismatch { .. })));
        }
        other => panic!("{other:?}"),
    }
}
