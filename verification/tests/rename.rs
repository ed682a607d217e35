use hermito::action::Action;
use hermito::app::events::{Freshness, LspRuntimeEvent, ProviderAnswer, RuntimeStep};
use hermito::app::persist::Recovery;
use hermito::app::rename::{
    edit_documents, workspace_edit_target_path, EditAuthority, EditPlan, EditPlanError,
    WorkspaceEditTarget,
};
use hermito::app::start::{StartNews, StartPhase, StartStep, StartTask};
use hermito::app::status::StatusMessage;
use hermito::app::{App, AuthorityKind, LspProviderKind, LspSession, Overlay};
use hermito::authority::local::LocalAuthority;
use hermito::authority::ssh::SshAuthority;
use hermito::config::{EffectiveLspConfig, ResolvedLanguageServerConfig};
use hermito::document::{DocumentId, DocumentRevision, Language};
use hermito::json::Json;
use hermito::layout::Landmark;
use hermito::lsp::{LanguageServiceState, SupervisorKey};
use hermito::protocol::lsp::{
    AuthorityIdentity, LspContext, LspPosition, LspRange, SentVersion, SessionGeneration,
    TransactionalDocumentEdit, TransactionalWorkspaceEdit,
};
use hermito::protocol::request::{EnvironmentEpoch, ExecutionContextV1, WorkspaceEpoch};

fn key() -> SupervisorKey {
    SupervisorKey::new(
        WorkspaceEpoch(0),
        EnvironmentEpoch(0),
        AuthorityIdentity("local".to_owned()),
        ExecutionContextV1::AuthorityRoot,
        Language::Rust,
    )
}

fn context() -> LspContext {
    LspContext {
        workspace_epoch: WorkspaceEpoch(0),
        environment_epoch: EnvironmentEpoch(0),
        document_revision: Some(hermito::protocol::request::DocumentRevision(0)),
        sent_version: SentVersion(0),
        session_generation: SessionGeneration(0),
        execution_context: ExecutionContextV1::AuthorityRoot,
        authority_identity: AuthorityIdentity("local".to_owned()),
    }
}

/// A workbench with `/w/a.rs` open and a session for it.
fn app() -> (App, DocumentId) {
    let mut app = App::new_from_recovery(Recovery::default(), 10);
    let epoch = app.epoch;
    app.project_file_loaded("/w/a.rs".to_owned(), Some("a".to_owned()), epoch);
    let document_id = app.current_doc.unwrap();
    app.services.sessions.push(LspSession {
        key: key(),
        document_id,
        context: context(),
        pending_change: None,
        config_digest: "digest".to_owned(),
    });
    (app, document_id)
}

fn edit(uris: &[&str]) -> TransactionalWorkspaceEdit {
    TransactionalWorkspaceEdit {
        document_changes: uris
            .iter()
            .map(|uri| TransactionalDocumentEdit::TextDocument {
                uri: uri.to_string(),
                expected_revision: None,
                expected_lsp_version: None,
                edits: vec![],
            })
            .collect(),
    }
}

fn plan(app: &App, id: DocumentId, uris: &[&str]) -> Result<EditPlan, EditPlanError> {
    app.plan_workspace_edit(&"/w".to_owned(), &key(), id, &edit(uris))
}

#[test]
fn targets_are_files_below_the_root() {
    let root = "/w".to_owned();
    assert_eq!(
        workspace_edit_target_path(&"file:///w/a%20b.rs".to_owned(), &root),
        Ok(("/w/a b.rs".to_owned(), "a b.rs".to_owned()))
    );
    for uri in ["file:///etc/passwd", "file:///w", "https://w/a", "no uri"] {
        assert_eq!(
            workspace_edit_target_path(&uri.to_owned(), &root),
            Err(EditPlanError::UnresolvableWorkspaceDocument { uri: uri.to_owned() })
        );
    }
}

#[test]
fn plans_name_each_document_once() {
    let (app, id) = app();
    let p = plan(&app, id, &["file:///w/b.rs", "file:///w/a.rs", "file:///w/b.rs"]).unwrap();
    assert_eq!(p.config_digest, "digest");
    assert_eq!(p.document_index, 1);
    assert_eq!(p.source_relative_path, "a.rs");
    assert_eq!(p.request_uri, "file:///w/a.rs");
    assert_eq!(
        p.targets,
        vec![
            WorkspaceEditTarget {
                uri: "file:///w/b.rs".to_owned(),
                relative_path: "b.rs".to_owned(),
                buffer_index: None,
            },
            WorkspaceEditTarget {
                uri: "file:///w/a.rs".to_owned(),
                relative_path: "a.rs".to_owned(),
                buffer_index: Some(1),
            },
        ]
    );
}

#[test]
fn plans_fail_for_their_reasons() {
    let (mut app, id) = app();
    assert_eq!(
        plan(&app, id, &["file:///w/a.rs", "file:///w/%61.rs"]),
        Err(EditPlanError::DuplicateWorkspaceDocument { uri: "file:///w/%61.rs".to_owned() })
    );
    assert_eq!(
        plan(&app, id, &["file:///x/a.rs"]),
        Err(EditPlanError::UnresolvableWorkspaceDocument { uri: "file:///x/a.rs".to_owned() })
    );
    assert_eq!(plan(&app, DocumentId(1), &[]), Err(EditPlanError::MissingLedger));
    app.services.sessions[0].document_id = DocumentId(1);
    assert_eq!(
        plan(&app, DocumentId(1), &[]),
        Err(EditPlanError::MissingWorkspaceDocument {
            uri: "document:DocumentId(00000000-0000-0000-0000-000000000001)".to_owned()
        })
    );
}

#[test]
fn documents_that_are_not_open_are_opened() {
    let (mut app, id) = app();
    let mut p = plan(&app, id, &["file:///w/b.rs"]).unwrap();
    assert_eq!(
        edit_documents(&p),
        Err(EditPlanError::MissingWorkspaceDocument { uri: "file:///w/b.rs".to_owned() })
    );
    let request = p.targets[0].read_request(&context()).unwrap();
    assert_eq!(request.payload.path, "b.rs");
    assert_eq!(request.payload.max_bytes, 8 * 1024 * 1024);
    assert_eq!(request.workspace_epoch, WorkspaceEpoch(0));
    assert_eq!(request.environment_epoch, EnvironmentEpoch(0));
    assert_eq!(request.document_revision, context().document_revision);
    let root = "/w".to_owned();
    assert_eq!(
        app.open_edit_target(&root, &context(), &mut p.targets[0], None),
        Err(EditPlanError::UnresolvableWorkspaceDocument { uri: "file:///w/b.rs".to_owned() })
    );
    app.open_edit_target(&root, &context(), &mut p.targets[0], Some("b".to_owned())).unwrap();
    assert_eq!(app.buffers.len(), 3);
    assert_eq!(app.buffers[2].path().unwrap(), "/w/b.rs");
    assert_eq!(app.buffers[2].lsp_ledgers().len(), 1);
    assert!(p.targets[0].read_request(&context()).is_none());
    assert_eq!(edit_documents(&p), Ok(vec![2]));
}

#[test]
fn cancelling_a_rename_gives_the_focus_back() {
    let (mut app, id) = app();
    app.overlay = Overlay::RenameInput {
        document_id: id,
        key: key(),
        context: context(),
        position: LspPosition { line: 0, character: 0 },
        preparation: 1,
        new_name: "n".to_owned(),
        invoker: Landmark::Editor,
    };
    app.focus = Landmark::PrimaryPane;
    app.apply_action(Action::CancelModal);
    assert_eq!(app.overlay, Overlay::Closed);
    assert_eq!(app.focus, Landmark::Editor);
    assert_eq!(app.buffers.len(), 2);
    app.focus = Landmark::PrimaryPane;
    app.apply_action(Action::CancelModal);
    assert_eq!(app.focus, Landmark::PrimaryPane);
}

#[test]
fn edits_are_made_by_the_selected_authority() {
    let (mut app, _) = app();
    app.local_authority = None;
    assert_eq!(app.edit_authority(), EditAuthority::Unavailable);
    app.local_authority =
        Some(LocalAuthority::new("host".to_owned(), "/w".to_owned(), WorkspaceEpoch(0)));
    assert_eq!(app.edit_authority(), EditAuthority::Local);
    app.authorities[app.current_authority].kind = AuthorityKind::DevContainer;
    assert_eq!(app.edit_authority(), EditAuthority::Unavailable);
    let current = app.current_authority;
    app.authorities[current].kind = AuthorityKind::Ssh;
    app.authorities[current].label = "box".to_owned();
    assert_eq!(app.edit_authority(), EditAuthority::Unavailable);
    app.ssh_authorities.push(
        SshAuthority::new("box".to_owned(), "/srv".to_owned(), WorkspaceEpoch(0)).unwrap(),
    );
    assert_eq!(app.edit_authority(), EditAuthority::Ssh(0));
}

#[test]
fn definitions_are_found_by_the_written_form_of_their_url() {
    let (mut app, id) = app();
    let payload = |uri: &str| {
        Json::Object(vec![
            ("uri".to_owned(), Json::Text(uri.to_owned())),
            ("range".to_owned(), Json::Object(vec![])),
        ])
    };
    assert_eq!(app.definition_buffer(&payload("FILE:///w/x/../a.rs")), Some(1));
    assert_eq!(app.definition_buffer(&payload("file:///w/z.rs")), None);
    assert_eq!(app.definition_buffer(&payload("not a url")), None);
    app.buffers[1].ensure_lsp_ledger(
        AuthorityIdentity("local".to_owned()),
        ExecutionContextV1::AuthorityRoot,
        hermito::document::WorkspaceEpoch(0),
        EnvironmentEpoch(0),
    );
    let at = LspPosition { line: 0, character: 0 };
    let event = LspRuntimeEvent::ProviderResult {
        key: key(),
        document_id: id,
        context: context(),
        revision: DocumentRevision(0),
        position: at,
        kind: LspProviderKind::Definition,
        answer: ProviderAnswer::Response {
            payload: payload("file:///w/z.rs"),
            range: Some(LspRange { start: at, end: at }),
            span: None,
        },
    };
    let fresh = Freshness { session_current: true, context_fresh: true };
    assert_eq!(app.apply_lsp_runtime_event(event, fresh), RuntimeStep::Nothing);
    assert_eq!(app.status, StatusMessage::DefinitionOpening);
    assert_eq!(app.take_pending_definition_open().as_deref(), Some("/w/z.rs"));
}

fn start_task(document_id: DocumentId) -> StartTask {
    StartTask {
        key: key(),
        document_id,
        config: ResolvedLanguageServerConfig {
            id: "server".to_owned(),
            effective: EffectiveLspConfig {
                executable: "/bin/server".to_owned(),
                args: vec![],
                version_probe_args: None,
                expected_version: Some("1.2".to_owned()),
                expected_digest: None,
                initialization_options: None,
            },
            digest: "d".to_owned(),
        },
        phase: StartPhase::Inspecting,
    }
}

#[test]
fn services_without_a_configuration_are_not_started() {
    let (app, _) = app();
    let (task, step) = app.begin_start();
    assert!(task.is_none());
    match step {
        StartStep::EnterState { state: LanguageServiceState::NotFound { detail }, .. } => {
            assert_eq!(detail, "LSP configuration not found for document association");
        }
        other => panic!("{other:?}"),
    }
}

#[test]
fn sessions_are_superseded_opened_activated_and_kept() {
    let (mut app, id) = app();
    let mut task = start_task(id);
    let starting = || StartNews::Inspected(LanguageServiceState::Starting);
    let step = app.start_lsp_session(&mut task, starting());
    assert_eq!(step, StartStep::Restart { key: key(), context: context() });
    assert!(app.services.sessions.is_empty());
    let step = app.start_lsp_session(&mut task, StartNews::Done);
    let told = match step {
        StartStep::Activate { context, .. } => context,
        other => panic!("{other:?}"),
    };
    assert!(app.services.sessions.is_empty());
    match app.start_lsp_session(&mut task, StartNews::Done) {
        StartStep::Spawn(session) => {
            assert_eq!(session.context, told);
            assert_eq!(session.uri, "file:///w/a.rs");
            assert_eq!(session.text, "a");
            assert_eq!(session.constraint, "1.2");
        }
        other => panic!("{other:?}"),
    }
    assert_eq!(app.services.sessions.len(), 1);
    assert_eq!(app.services.sessions[0].context, told);
    assert_eq!(app.services.sessions[0].config_digest, "d");
    assert_eq!(app.start_lsp_session(&mut task, StartNews::Done), StartStep::Nothing);
}

#[test]
fn services_start_only_while_the_supervisor_lets_them() {
    let (mut app, id) = app();
    let mut task = start_task(id);
    let ready = StartNews::Inspected(LanguageServiceState::Ready);
    assert_eq!(app.start_lsp_session(&mut task, ready), StartStep::Nothing);
    assert_eq!(task.phase, StartPhase::Ended);
    let mut task = start_task(DocumentId(5));
    let starting = || StartNews::Inspected(LanguageServiceState::Starting);
    assert_eq!(app.start_lsp_session(&mut task, starting()), StartStep::Nothing);
    let mut task = start_task(id);
    app.start_lsp_session(&mut task, starting());
    let step = app.start_lsp_session(&mut task, StartNews::Failed("no".to_owned()));
    assert_eq!(
        step,
        StartStep::EnterState {
            key: key(),
            state: LanguageServiceState::Failed { message: "no".to_owned() },
        }
    );
    let mut task = start_task(id);
    let step = app.start_lsp_session(&mut task, starting());
    assert!(matches!(step, StartStep::Activate { .. }));
    let step = app.start_lsp_session(&mut task, StartNews::Failed("no".to_owned()));
    assert!(matches!(step, StartStep::EnterState { .. }));
    assert!(app.services.sessions.is_empty());
}
