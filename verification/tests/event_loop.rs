use hermito::action::{Action, HighlightSpan};
use hermito::app::persist::Recovery;
use hermito::app::requests::{LspProviderSnapshot, LspSessionCommand};
use hermito::app::services::SendOutcome;
use hermito::app::session::{
    edit_not_taken, receive, Received, ReceiveStep, SessionNews, SessionPhase, SessionStep,
    SessionTask,
};
use hermito::app::events::{EditRefusal, LspRuntimeEvent, ProviderAnswer};
use hermito::app::status::{KindNames, StatusMessage};
use hermito::app::{App, AuthorityConnectionState, LspProviderKind, Overlay, TrustLevel};
use hermito::authority::ssh::{SshAuthority, Transport};
use hermito::config::known_hosts::HostKeyCandidate;
use hermito::config::EffectiveLspConfig;
use hermito::document::{DocumentId, DocumentRevision, Language, WorkspaceEpoch};
use hermito::event_loop::activation::{ActivationNews, ActivationStep, ActivationTask};
use hermito::event_loop::shutdown::{Shutdown, ShutdownCause, ShutdownReason, ShutdownStep};
use hermito::event_loop::EventLoop;
use hermito::lsp::{LanguageServiceState, LspDocumentLedger, SupervisorKey};
use hermito::protocol;
use hermito::protocol::lsp::{
    AuthorityIdentity, LspContext, LspPosition, SentVersion, SessionGeneration,
};
use hermito::protocol::request::{EnvironmentEpoch, ExecutionContextV1};
use hermito::secret::Secret;

fn event_loop() -> EventLoop {
    EventLoop::new(App::new_from_recovery(Recovery::default(), 10))
}

fn names() -> KindNames {
    KindNames {
        local: "local".to_owned(),
        ssh: "SSH".to_owned(),
        dev_container: "container".to_owned(),
    }
}

fn status(l: &EventLoop) -> String {
    l.app.status.text(&names())
}

fn open(l: &mut EventLoop, path: &str) {
    l.act(Action::RequestProjectFile { path: path.to_owned() });
    l.file_read(path.to_owned(), Some("text".to_owned()), WorkspaceEpoch(0));
}

fn trust(l: &mut EventLoop) -> hermito::event_loop::LoopStep {
    l.act(Action::ReviewTrust);
    l.act(Action::NextControl);
    l.act(Action::GrantTrust)
}

#[test]
fn shutdown_reports_state_error_only_after_cleanup_attempted() {
    let app = App::new_from_recovery(Recovery::default(), 10);
    let st = app.to_state();
    let _ = st;
    let mut s = Shutdown::begin(ShutdownCause::Quit);
    assert_eq!(s.next(), ShutdownStep::SubmitRetained);
    assert_eq!(s.next(), ShutdownStep::SaveState);
    s.state_not_saved("disk full".to_owned());
    assert_eq!(s.next(), ShutdownStep::FlushJournal);
    assert_eq!(s.next(), ShutdownStep::Finish(Err("disk full".to_owned())));
    assert_eq!(s.next(), ShutdownStep::Finish(Err("disk full".to_owned())));
}

#[test]
fn runs_end_for_their_reasons() {
    let finish = |cause| {
        let mut s = Shutdown::begin(cause);
        s.next();
        s.next();
        s.next();
        s.next()
    };
    assert_eq!(finish(ShutdownCause::Quit), ShutdownStep::Finish(Ok(ShutdownReason::Normal)));
    assert_eq!(
        finish(ShutdownCause::InputLost),
        ShutdownStep::Finish(Ok(ShutdownReason::FatalWorker))
    );
    assert_eq!(
        finish(ShutdownCause::Asked(ShutdownReason::Signal)),
        ShutdownStep::Finish(Ok(ShutdownReason::Signal))
    );
    assert_eq!(
        finish(ShutdownCause::AskerLost),
        ShutdownStep::Finish(Ok(ShutdownReason::FatalWorker))
    );
}

#[test]
fn quitting_changes_nothing_by_itself() {
    let mut l = event_loop();
    let step = l.act(Action::Quit);
    assert!(step.quit);
    assert!(step.save.is_none());
}

#[test]
fn one_file_is_read_at_a_time_and_the_latest_next() {
    let mut l = event_loop();
    let epoch = WorkspaceEpoch(0);
    let step = l.act(Action::RequestProjectFile { path: "/a".to_owned() });
    assert_eq!(step.read, Some(("/a".to_owned(), epoch)));
    assert!(l.act(Action::RequestProjectFile { path: "/b".to_owned() }).read.is_none());
    assert!(l.act(Action::RequestProjectFile { path: "/c".to_owned() }).read.is_none());
    let (_, next) = l.file_read("/x".to_owned(), Some("?".to_owned()), epoch);
    assert_eq!(next, None);
    assert_eq!(l.app.buffers.len(), 1);
    let (_, next) = l.file_read("//a".to_owned(), Some("A".to_owned()), epoch);
    assert_eq!(next, Some(("/c".to_owned(), epoch)));
    assert_eq!(l.app.buffers.len(), 2);
}

#[test]
fn the_shown_text_is_highlighted_once_per_revision() {
    let mut l = event_loop();
    let request = l.dispatch_syntax_for_current().unwrap();
    assert_eq!(request.new_text, "fn main() {}\n");
    assert_eq!(request.old_text, None);
    assert!(l.dispatch_syntax_for_current().is_none());
    let doc = request.doc_id;
    l.act(Action::EditorInsert('x'));
    let next = l
        .syntax_done(doc, DocumentRevision(0), WorkspaceEpoch(0), vec![], true, "old".to_owned())
        .unwrap();
    assert_eq!(next.revision, DocumentRevision(1));
    assert!(l
        .syntax_done(
            doc,
            DocumentRevision(1),
            WorkspaceEpoch(0),
            vec![HighlightSpan { start_byte: 1, end_byte: 3, style: 7 }],
            true,
            "xfn main() {}\n".to_owned()
        )
        .is_none());
    assert!(l.app.syntax_is_current(doc, DocumentRevision(1)));
    let shown = l.app.snapshot(&names()).current_buffer.unwrap();
    assert_eq!(shown.highlights, vec![HighlightSpan { start_byte: 1, end_byte: 3, style: 7 }]);
    l.act(Action::EditorInsert('y'));
    let third = l.dispatch_syntax_for_current().unwrap();
    assert_eq!(third.old_text.as_deref(), Some("xfn main() {}\n"));
    let doc_id = third.doc_id;
    assert!(l
        .syntax_done(doc_id, third.revision, WorkspaceEpoch(0), vec![], false, third.new_text)
        .is_none());
    l.act(Action::EditorInsert('z'));
    assert_eq!(l.dispatch_syntax_for_current().unwrap().old_text, None);
    l.workers_lost();
    assert!(l.dispatch_syntax_for_current().is_some());
}

#[test]
fn saves_of_a_document_follow_each_other() {
    let mut l = event_loop();
    assert!(l.act(Action::Save).save.is_none());
    l.act(Action::SaveAsOverlayInput(' '));
    assert!(l.act(Action::SaveAsOverlayConfirm).save.is_none());
    l.act(Action::Save);
    for c in " /w/n ".chars() {
        l.act(Action::SaveAsOverlayInput(c));
    }
    let first = l.act(Action::SaveAsOverlayConfirm).save.unwrap();
    assert_eq!((first.path.as_str(), first.content.as_str()), ("/w/n", "fn main() {}\n"));
    let doc = first.doc_id;
    l.save_done(doc, DocumentRevision(0), "/w/n".to_owned(), true, WorkspaceEpoch(0));
    let one = l.act(Action::Save).save.unwrap();
    assert_eq!(one.revision, DocumentRevision(0));
    l.act(Action::EditorInsert('z'));
    assert!(l.act(Action::Save).save.is_none());
    let (_, next) =
        l.save_done(doc, DocumentRevision(0), "/w/n".to_owned(), true, WorkspaceEpoch(0));
    assert_eq!(next.unwrap().revision, DocumentRevision(1));
    assert_eq!(l.app.status, StatusMessage::SaveStale);
}

#[test]
fn terminals_are_started_one_at_a_time() {
    let mut l = event_loop();
    assert!(l.act(Action::OpenTerminal).terminal.is_none());
    trust(&mut l);
    assert!(l.act(Action::OpenTerminal).terminal.is_some());
    l.act(Action::CloseTerminal);
    assert!(l.act(Action::OpenTerminal).terminal.is_none());
    assert!(l.next_terminal().is_none());
    l.terminal_answered();
    assert!(l.next_terminal().is_some());
}

fn with_ssh(passphrase_required: bool) -> EventLoop {
    let mut l = event_loop();
    let authority = SshAuthority::new(
        "box".to_owned(),
        "/srv".to_owned(),
        protocol::request::WorkspaceEpoch(0),
    )
    .unwrap();
    l.app.register_ssh_authority(authority);
    l.add_ssh("box".to_owned(), passphrase_required).unwrap();
    l
}

#[test]
fn labels_of_ssh_authorities_are_unique() {
    let mut l = with_ssh(false);
    assert_eq!(
        l.add_ssh("box".to_owned(), false),
        Err("duplicate SSH authority label box".to_owned())
    );
}

#[test]
fn trusted_ssh_authorities_are_activated() {
    let mut l = with_ssh(false);
    assert!(l.act(Action::CycleAuthority).activate.is_none());
    let step = trust(&mut l);
    assert_eq!(step.activate, Some(("box".to_owned(), None)));
    assert_eq!(status(&l), "Connecting SSH authority box…");
    assert_eq!(l.app.authorities[1].connection, AuthorityConnectionState::Connecting);
    assert!(trust(&mut l).activate.is_none());
    let effects = l.ssh_activated(WorkspaceEpoch(0), "box".to_owned(), Ok(()));
    assert!(effects.start_language_service);
    assert_eq!(status(&l), "SSH authority box connected.");
    let step = l.act(Action::RevokeTrust);
    assert_eq!(step.disconnect, Some(("box".to_owned(), false)));
    assert_eq!(status(&l), "SSH authority box disconnected.");
    assert_eq!(l.app.current_trust(), TrustLevel::InspectOnly);
}

#[test]
fn failed_and_late_activations_are_told_apart() {
    let mut l = with_ssh(false);
    l.act(Action::CycleAuthority);
    trust(&mut l);
    l.ssh_activated(WorkspaceEpoch(7), "box".to_owned(), Ok(()));
    assert_eq!(status(&l), "Connecting SSH authority box…");
    l.ssh_activated(WorkspaceEpoch(0), "box".to_owned(), Err("no route".to_owned()));
    assert_eq!(status(&l), "SSH authority box failed: no route");
    assert_eq!(l.app.authorities[1].connection, AuthorityConnectionState::Disconnected);
}

#[test]
fn passphrases_are_asked_for_before_an_activation() {
    let mut l = with_ssh(true);
    l.act(Action::CycleAuthority);
    assert!(trust(&mut l).activate.is_none());
    assert!(matches!(l.app.overlay, Overlay::SshPassphrase { .. }));
    l.act(Action::SshPassphraseInput('p'));
    let step = l.act(Action::SshPassphraseSubmit);
    assert_eq!(step.activate, Some(("box".to_owned(), Some(Secret::new("p".to_owned())))));
}

#[test]
fn a_run_begins_with_the_trusted_authorities() {
    let mut l = with_ssh(false);
    assert_eq!(l.begin_ssh(0, false), (false, false));
    l.app.ssh_authorities[0].base.grant_execution();
    assert_eq!(l.begin_ssh(0, false), (true, false));
    let mut l = with_ssh(true);
    l.app.ssh_authorities[0].base.grant_execution();
    assert_eq!(l.begin_ssh(0, false), (false, false));
    assert_eq!(status(&l), "SSH authority box requires its key passphrase.");
    l.act(Action::CycleAuthority);
    assert_eq!(l.begin_ssh(0, false), (false, true));
    assert!(matches!(l.app.overlay, Overlay::SshPassphrase { .. }));
}

#[test]
fn opened_files_are_shown() {
    let mut l = event_loop();
    open(&mut l, "/w/a.rs");
    assert_eq!(l.app.buffers[1].language(), Language::Rust);
}

fn context() -> LspContext {
    LspContext {
        workspace_epoch: protocol::request::WorkspaceEpoch(0),
        environment_epoch: EnvironmentEpoch(0),
        document_revision: None,
        sent_version: SentVersion(3),
        session_generation: SessionGeneration(1),
        execution_context: ExecutionContextV1::AuthorityRoot,
        authority_identity: AuthorityIdentity("local".to_owned()),
    }
}

fn service() -> SupervisorKey {
    SupervisorKey::new(
        protocol::request::WorkspaceEpoch(0),
        EnvironmentEpoch(0),
        AuthorityIdentity("local".to_owned()),
        ExecutionContextV1::AuthorityRoot,
        Language::Rust,
    )
}

fn task() -> SessionTask {
    let config = EffectiveLspConfig {
        executable: "/bin/ra".to_owned(),
        args: vec![],
        version_probe_args: None,
        expected_version: None,
        expected_digest: Some("d1".to_owned()),
        initialization_options: None,
    };
    SessionTask::spawn_lsp_session(
        service(),
        DocumentId(5),
        context(),
        "file:///a.rs".to_owned(),
        "rust".to_owned(),
        "text".to_owned(),
        &config,
    )
}

#[test]
fn sessions_open_their_document_before_they_serve() {
    let mut t = task();
    assert_eq!(t.step(SessionNews::Done), SessionStep::Initialize);
    assert_eq!(
        t.step(SessionNews::Done),
        SessionStep::Open {
            uri: "file:///a.rs".to_owned(),
            language_id: "rust".to_owned(),
            version: 3,
            text: "text".to_owned(),
        }
    );
    assert_eq!(
        t.step(SessionNews::Done),
        SessionStep::Report(LspRuntimeEvent::Initialized { key: service() })
    );
    let snapshot = LspProviderSnapshot {
        context: context(),
        uri: "file:///a.rs".to_owned(),
        revision: DocumentRevision(2),
        ledger: LspDocumentLedger {
            authority_identity: AuthorityIdentity("local".to_owned()),
            context: ExecutionContextV1::AuthorityRoot,
            revision: DocumentRevision(2),
            sent_version: 3,
            session_generation: 1,
            workspace_epoch: WorkspaceEpoch(0),
            environment_epoch: EnvironmentEpoch(0),
            text: "text".to_owned(),
        },
        config_digest: "d".to_owned(),
        service_state: LanguageServiceState::Ready,
    };
    let position = LspPosition { line: 1, character: 2 };
    let step = t.step(SessionNews::Command(LspSessionCommand::Provider {
        kind: LspProviderKind::Hover,
        snapshot,
        position,
    }));
    assert!(matches!(step, SessionStep::Ask { kind: LspProviderKind::Hover, .. }));
    match t.step(SessionNews::Answered(ProviderAnswer::Empty)) {
        SessionStep::Report(LspRuntimeEvent::ProviderResult { document_id, revision, .. }) => {
            assert_eq!((document_id, revision), (DocumentId(5), DocumentRevision(2)));
        }
        other => panic!("{other:?}"),
    }
    assert_eq!(t.step(SessionNews::CommandsClosed), SessionStep::End);
    assert_eq!(t.step(SessionNews::Done), SessionStep::Wait);
    assert_eq!(t.phase, SessionPhase::Ended);
}

#[test]
fn servers_that_do_not_start_say_why() {
    let mut t = task();
    match t.step(SessionNews::Failed("LSP_VERSION_MISMATCH: 2".to_owned())) {
        SessionStep::Fail { state, .. } => assert_eq!(
            state,
            LanguageServiceState::VersionMismatch {
                expected: "d1".to_owned(),
                actual: "LSP_VERSION_MISMATCH: 2".to_owned(),
            }
        ),
        other => panic!("{other:?}"),
    }
    let mut t = task();
    match t.step(SessionNews::Failed("not found".to_owned())) {
        SessionStep::Fail { state, .. } => assert_eq!(
            state,
            LanguageServiceState::Failed { message: "not found".to_owned() }
        ),
        other => panic!("{other:?}"),
    }
    assert_eq!(t.phase, SessionPhase::Ended);
}

#[test]
fn what_servers_send_is_reported_or_ends_the_session() {
    match receive(&service(), DocumentId(5), Received::Exited) {
        ReceiveStep::Lose(_, detail) => assert_eq!(detail, "language server session exited"),
        other => panic!("{other:?}"),
    }
    assert_eq!(receive(&service(), DocumentId(5), Received::Other), ReceiveStep::Ignore);
    assert_eq!(edit_not_taken(SendOutcome::Full), Some(EditRefusal::QueueBusy));
    assert_eq!(edit_not_taken(SendOutcome::Closed), Some(EditRefusal::NoHandler));
    assert_eq!(edit_not_taken(SendOutcome::Sent), None);
}

fn activation() -> (ActivationTask, SshAuthority) {
    let (task, step) = ActivationTask::begin(
        "SHA256:k".to_owned(),
        "helper".to_owned(),
        "/opt".to_owned(),
    );
    assert_eq!(step, ActivationStep::Scan);
    let authority = SshAuthority::new(
        "box".to_owned(),
        "/srv".to_owned(),
        protocol::request::WorkspaceEpoch(0),
    );
    (task, authority.unwrap())
}

fn host_key(fingerprint: &str) -> HostKeyCandidate {
    HostKeyCandidate {
        host_field: "h".to_owned(),
        algorithm: "a".to_owned(),
        key_base64: "k".to_owned(),
        fingerprint: fingerprint.to_owned(),
    }
}

#[test]
fn authorities_are_activated_step_by_step() {
    let (mut task, mut a) = activation();
    a.base.grant_execution();
    let keys = vec![host_key("SHA256:x"), host_key("SHA256:k")];
    let step = task.step(&mut a, ActivationNews::Keys(keys));
    assert_eq!(step, ActivationStep::Accept { key: 1 });
    let steps = [
        ActivationStep::Verify { target: "helper".to_owned() },
        ActivationStep::Install { directory: "/opt".to_owned() },
        ActivationStep::Launch,
        ActivationStep::Connect { generation: 0 },
    ];
    for expected in steps {
        assert_eq!(task.step(&mut a, ActivationNews::Done), expected);
    }
    let transport = Transport { id: 1, generation: 0, alive: true };
    let step = task.step(&mut a, ActivationNews::Connected { transport, lost: None });
    assert_eq!(step, ActivationStep::Finish { result: Ok(()) });
    assert!(a.is_connected());
}

#[test]
fn activations_end_with_their_reason() {
    let ended = |step: ActivationStep| match step {
        ActivationStep::Finish { result } => result.unwrap_err(),
        other => panic!("{other:?}"),
    };
    let (mut task, mut a) = activation();
    let step = task.step(&mut a, ActivationNews::Keys(vec![host_key("SHA256:x")]));
    assert_eq!(ended(step), "SSH host did not present configured fingerprint SHA256:k");
    let (mut task, mut a) = activation();
    task.step(&mut a, ActivationNews::Keys(vec![host_key("SHA256:k")]));
    assert_eq!(
        ended(task.step(&mut a, ActivationNews::Done)),
        "authority is inspect only; explicit execution trust is required"
    );
    let (mut task, mut a) = activation();
    a.base.grant_execution();
    task.step(&mut a, ActivationNews::Keys(vec![host_key("SHA256:k")]));
    task.step(&mut a, ActivationNews::Done);
    assert_eq!(
        ended(task.step(&mut a, ActivationNews::Failed("bad".to_owned()))),
        "remote helper verification failed: bad"
    );
    let (mut task, mut a) = activation();
    a.base.grant_execution();
    task.step(&mut a, ActivationNews::Keys(vec![host_key("SHA256:k")]));
    for _ in 0..4 {
        task.step(&mut a, ActivationNews::Done);
    }
    let transport = Transport { id: 1, generation: 0, alive: false };
    let lost = Some((4, "gone".to_owned()));
    let step = task.step(&mut a, ActivationNews::Connected { transport, lost });
    assert_eq!(ended(step), "remote protocol failed: gone");
    assert_eq!(a.base.environment_epoch, EnvironmentEpoch(4));
}
