use hermito::action::Action;
use hermito::app::events::{
    ApplyOutcome, EditRefusal, Freshness, LspRuntimeEvent, ProviderAnswer, RuntimeStep,
};
use hermito::app::journal::JournalReply;
use hermito::app::overlay::{command_palette_items, fitting_items};
use hermito::app::payload::{completion_candidates, definition_target, hover_document};
use hermito::app::persist::{
    focus_or_default, layout_fits, AppState, RecoveredBuffer, Recovery, TabMetadata, TrustRecord,
};
use hermito::app::services::{uri_of, uri_or_untitled};
use hermito::app::snapshot::{OverlaySnapshot, TerminalViewState};
use hermito::app::status::{KindNames, StatusMessage};
use hermito::app::{
    App, AuthorityConnectionState, AuthorityKind, CompletionCandidate, FollowUp, Overlay,
    PaletteItem, PtySessionState, TrustLevel,
};
use hermito::authority::ssh::{SshAuthority, Transport};
use hermito::document::{
    BufferPathState, DocumentId, DocumentRevision, Language, WorkspaceEpoch,
};
use hermito::edit::TextEdit;
use hermito::json::Json;
use hermito::layout::{Landmark, WorkbenchLayout};
use hermito::lsp::{LanguageServiceState, SupervisorKey};
use hermito::protocol;
use hermito::protocol::lsp::{AuthorityIdentity, LspPosition, LspRange};
use hermito::protocol::request::{EnvironmentEpoch, ExecutionContextV1};
use hermito::secret::Secret;

fn names() -> KindNames {
    KindNames {
        local: "local".to_owned(),
        ssh: "SSH".to_owned(),
        dev_container: "container".to_owned(),
    }
}

fn app() -> App {
    App::new_from_recovery(Recovery::default(), 100)
}

fn status(app: &App) -> String {
    app.status.text(&names())
}

fn recovered(id: u128, path: Option<&str>, content: &str) -> RecoveredBuffer {
    RecoveredBuffer {
        id: DocumentId(id),
        revision: DocumentRevision(4),
        content: content.to_owned(),
        path: path.map(str::to_owned),
        language: Language::Rust,
    }
}

fn open(app: &mut App, path: &str, text: &str) {
    let epoch = app.epoch;
    app.apply_action(Action::ProjectFileLoaded {
        path: path.to_owned(),
        content: Some(text.to_owned()),
        epoch,
    });
}

fn trust(app: &mut App) {
    app.apply_action(Action::ReviewTrust);
    app.apply_action(Action::NextControl);
    app.apply_action(Action::GrantTrust);
}

#[test]
fn focus_roundtrip_non_editor_and_old_state_default() {
    let mut app = app();
    app.focus = Landmark::BottomPane;
    let st = app.to_state();
    assert_eq!(st.focus, "BottomPane");

    let app2 = App::restore_state(st, Recovery::default(), 100);
    assert_eq!(app2.focus, Landmark::BottomPane);

    let fresh = app2.to_state();
    let serialized = format!("version = {}\nfocus = \"{}\"\n", fresh.version, fresh.focus);
    let legacy = serialized
        .lines()
        .filter(|l| !l.trim_start().starts_with("focus"))
        .collect::<Vec<_>>()
        .join("\n");
    let table: toml::Table =
        toml::from_str(&legacy).expect("old TOML (focus key omitted) must remain valid");
    assert_eq!(table.get("version").and_then(|value| value.as_integer()), Some(1));
    let kept = |table: &toml::Table| {
        focus_or_default(table.get("focus").and_then(|value| value.as_str()).map(str::to_owned))
    };
    assert_eq!(kept(&toml::from_str(&serialized).unwrap()), "BottomPane");
    let mut st_old = fresh;
    st_old.focus = kept(&table);
    assert_eq!(
        st_old.focus, "Editor",
        "missing focus key must default to Editor"
    );
    let app3 = App::restore_state(st_old, Recovery::default(), 100);
    assert_eq!(app3.focus, Landmark::Editor);
}

#[test]
fn compaction_retry_on_tick_path_retains_until_success() {
    let mut app = app();
    let doc = app.current_doc.unwrap();
    app.retain_pending_compact(doc, DocumentRevision(7));
    app.retry_pending_compacts(&vec![]);
    assert!(app.pending_checkpoint_revision(doc).is_none());
    assert_eq!(app.journal.compactions.get(&doc.0), Some(&DocumentRevision(7)));
    app.retain_pending_compact(doc, DocumentRevision(5));
    assert_eq!(app.journal.compactions.get(&doc.0), Some(&DocumentRevision(7)));
    assert!(app.submit_all_retained_blocking(false).compactions.is_empty());
    assert_eq!(app.journal.compactions.len(), 1);
    let taken = app.submit_all_retained_blocking(true);
    assert_eq!(taken.compactions.get(&doc.0), Some(&DocumentRevision(7)));
    assert!(app.journal.compactions.is_empty());
    app.save_offered(doc, DocumentRevision(8), JournalReply::Taken);
    app.save_offered(doc, DocumentRevision(8), JournalReply::Absent);
    assert!(app.journal.compactions.is_empty());
    app.save_offered(doc, DocumentRevision(8), JournalReply::Refused);
    assert_eq!(app.journal.compactions.get(&doc.0), Some(&DocumentRevision(8)));
}

#[test]
fn a_first_run_trusts_nobody_and_shows_a_document() {
    let app = app();
    assert_eq!(app.authorities.len(), 1);
    assert_eq!(app.current_trust(), TrustLevel::InspectOnly);
    assert_eq!(app.buffers.len(), 1);
    assert_eq!(app.buffers[0].text(), "fn main() {}\n");
    assert_eq!(app.layout.editor_tabs.len(), 1);
    assert_eq!(app.workspace_root(), "/workspace");
}

#[test]
fn trust_is_granted_by_a_focused_grant_alone() {
    let mut app = app();
    app.apply_action(Action::GrantTrust);
    assert_eq!(app.current_trust(), TrustLevel::InspectOnly);
    app.apply_action(Action::ReviewTrust);
    app.apply_action(Action::GrantTrust);
    assert_eq!(app.current_trust(), TrustLevel::InspectOnly);
    app.apply_action(Action::NextControl);
    let effects = app.apply_action(Action::GrantTrust);
    assert_eq!(app.current_trust(), TrustLevel::Trusted);
    assert!(effects.start_language_service);
    assert_eq!(app.overlay, Overlay::Closed);
    assert_eq!(status(&app), "Execution granted for current authority.");
    app.apply_action(Action::RevokeTrust);
    assert_eq!(app.current_trust(), TrustLevel::InspectOnly);
    assert_eq!(status(&app), "Execution revoked. Now INSPECT ONLY.");
}

#[test]
fn terminals_need_trust() {
    let mut app = app();
    app.apply_action(Action::OpenTerminal);
    assert!(!app.terminal_start_in_flight());
    assert_eq!(status(&app), "Terminal blocked: current authority is INSPECT ONLY.");
    assert!(app.terminal_spawn_spec().is_none());
    trust(&mut app);
    app.apply_action(Action::OpenTerminal);
    assert!(app.terminal_start_in_flight());
    assert_eq!(status(&app), "Starting local terminal…");
    assert!(app.terminal_spawn_spec().is_some());
    let launch = app.terminal.launch_id;
    let epoch = app.epoch;
    app.apply_action(Action::CloseTerminal);
    app.apply_action(Action::OpenTerminal);
    assert!(app
        .begin_attach(epoch, launch, protocol::request::WorkspaceEpoch(epoch.0))
        .is_none());
    app.fail_terminal_start(epoch, launch, "old".to_owned());
    assert!(app.terminal_start_in_flight());
    let launch = app.terminal.launch_id;
    app.fail_terminal_start(epoch, launch, "no shell".to_owned());
    assert!(!app.terminal_start_in_flight());
    assert_eq!(status(&app), "Terminal failed: no shell");
}

#[test]
fn a_running_terminal_takes_what_is_typed() {
    let mut app = app();
    trust(&mut app);
    app.apply_action(Action::OpenTerminal);
    app.attach_terminal("host".to_owned(), None);
    assert_eq!(app.terminal.session, Some(PtySessionState::Running));
    let effects = app.apply_action(Action::TerminalInput(vec![3]));
    assert_eq!(effects.terminal_input, Some(vec![3]));
    assert_eq!(app.snapshot(&names()).terminal.state, TerminalViewState::Running);
    assert!(app.snapshot(&names()).terminal.captured);
    app.terminal_session_changed(PtySessionState::Exited);
    assert!(!app.snapshot(&names()).terminal.captured);
    app.apply_action(Action::ReleaseTerminalCapture);
    assert_eq!(app.focus, Landmark::Editor);
    let effects = app.apply_action(Action::TerminalInput(vec![3]));
    assert_eq!(effects.terminal_input, None);
    let effects = app.apply_action(Action::RevokeTrust);
    assert!(effects.end_terminal);
    assert_eq!(app.terminal.session, None);
}

#[test]
fn typing_changes_the_text_and_hands_it_to_the_journal() {
    let mut app = app();
    let effects = app.apply_action(Action::EditorInsert('é'));
    assert_eq!(app.buffers[0].text(), "éfn main() {}\n");
    assert_eq!(app.layout.editor_tabs[0].cursor_byte, 2);
    let payload = effects.checkpoint.unwrap();
    assert_eq!(payload.content, "éfn main() {}\n");
    assert_eq!(payload.revision, DocumentRevision(1));
    app.apply_action(Action::EditorPaste("ab".to_owned()));
    assert_eq!(app.layout.editor_tabs[0].cursor_byte, 4);
    app.apply_action(Action::EditorDeleteBackward);
    assert_eq!(app.buffers[0].text(), "éafn main() {}\n");
    app.apply_action(Action::EditorSetSelection { anchor: 0, cursor: 3 });
    app.apply_action(Action::EditorDeleteBackward);
    assert_eq!(app.buffers[0].text(), "fn main() {}\n");
    assert_eq!(app.buffers[0].revision(), DocumentRevision(4));
}

#[test]
fn the_cursor_moves_by_clusters_and_lines() {
    let mut app = app();
    open(&mut app, "/w/a.txt", "ab\n文d\n");
    let step = |app: &mut App, line_delta: i32, col_delta: i32, extend_selection: bool| {
        app.apply_action(Action::EditorMoveCursor { line_delta, col_delta, extend_selection });
        let tab = app.layout.editor_tabs[app.layout.active_editor_tab];
        (tab.cursor_byte, tab.selection_anchor)
    };
    assert_eq!(step(&mut app, 0, 1, false), (1, None));
    assert_eq!(step(&mut app, 1, 0, false), (3, None));
    assert_eq!(step(&mut app, 0, 1, false), (6, None));
    assert_eq!(step(&mut app, 0, -2, true), (1, Some(6)));
    app.apply_action(Action::EditorPage { up: false, extend: false });
    assert_eq!(app.layout.editor_tabs[app.layout.active_editor_tab].cursor_byte, 8);
    app.apply_action(Action::EditorPage { up: true, extend: false });
    assert_eq!(app.layout.editor_tabs[app.layout.active_editor_tab].cursor_byte, 0);
}

#[test]
fn edits_for_another_revision_do_nothing() {
    let mut app = app();
    let doc = app.current_doc.unwrap();
    let effects = app.apply_action(Action::ApplyBufferEdit {
        doc_id: doc,
        expected_rev: DocumentRevision(5),
        edit: TextEdit::insert(0, "x".to_owned()),
    });
    assert!(effects.checkpoint.is_none());
    assert_eq!(app.buffers[0].text(), "fn main() {}\n");
}

#[test]
fn results_of_another_epoch_do_nothing() {
    let mut app = app();
    app.apply_action(Action::ProjectFileLoaded {
        path: "/w/a".to_owned(),
        content: Some("x".to_owned()),
        epoch: WorkspaceEpoch(9),
    });
    assert_eq!(app.buffers.len(), 1);
    assert_eq!(app.status, StatusMessage::Empty);
    app.apply_action(Action::UpdateProjectState { tree: Some(3), epoch: WorkspaceEpoch(9) });
    assert_eq!(app.project.tree, None);
}

#[test]
fn files_are_opened_once() {
    let mut app = app();
    open(&mut app, "/w/a.rs", "x");
    assert_eq!(app.buffers.len(), 2);
    assert_eq!(status(&app), "Opened /w/a.rs");
    open(&mut app, "/w/a.rs", "changed on disk");
    assert_eq!(app.buffers.len(), 2);
    assert_eq!(app.buffers[1].text(), "x");
    assert_eq!(status(&app), "Focused /w/a.rs");
    let epoch = app.epoch;
    app.apply_action(Action::ProjectFileLoaded { path: "/w/b".to_owned(), content: None, epoch });
    assert_eq!(status(&app), "Failed to open /w/b");
    app.apply_action(Action::RequestProjectFile { path: "/w/c".to_owned() });
    assert_eq!(status(&app), "Opening /w/c…");
}

#[test]
fn only_a_save_of_the_current_revision_makes_a_document_clean() {
    let mut app = app();
    open(&mut app, "/w/a.rs", "x");
    let doc = app.current_doc.unwrap();
    let epoch = app.epoch;
    app.apply_action(Action::EditorInsert('y'));
    assert!(app.buffers[1].is_dirty());
    let done = |app: &mut App, revision: u64, success: bool| {
        app.apply_action(Action::SaveCompleted {
            doc_id: doc,
            revision: DocumentRevision(revision),
            path: "/w/a.rs".to_owned(),
            success,
            epoch,
        })
    };
    assert!(done(&mut app, 0, true).ack_save.is_none());
    assert_eq!(status(&app), "Save stale (concurrent edit); left dirty");
    assert!(app.buffers[1].is_dirty());
    done(&mut app, 1, false);
    assert_eq!(status(&app), "Save failed: /w/a.rs");
    assert!(app.buffers[1].is_dirty());
    let effects = done(&mut app, 1, true);
    assert_eq!(effects.ack_save, Some((doc, DocumentRevision(1))));
    assert!(!app.buffers[1].is_dirty());
    assert_eq!(status(&app), "Saved /w/a.rs");
}

#[test]
fn untitled_documents_are_saved_under_a_typed_path() {
    let mut app = app();
    app.apply_action(Action::Save);
    assert!(matches!(app.overlay, Overlay::SaveAs { .. }));
    for c in "/w/x".chars() {
        app.apply_action(Action::SaveAsOverlayInput(c));
    }
    app.apply_action(Action::SaveAsOverlayBackspace);
    match &app.overlay {
        Overlay::SaveAs { path, .. } => assert_eq!(path, "/w/"),
        other => panic!("{other:?}"),
    }
    app.apply_action(Action::SaveAsOverlayCancel);
    assert_eq!(app.overlay, Overlay::Closed);
    assert_eq!(status(&app), "Save cancelled");
    open(&mut app, "/w/a.rs", "x");
    app.apply_action(Action::Save);
    assert_eq!(status(&app), "Saving…");
}

#[test]
fn the_palette_offers_what_fits() {
    assert_eq!(
        command_palette_items(TrustLevel::Trusted, ""),
        vec![PaletteItem::ReviewTrust, PaletteItem::RevokeTrust]
    );
    assert_eq!(
        command_palette_items(TrustLevel::InspectOnly, " AUTHORITY "),
        vec![PaletteItem::ReviewTrust]
    );
    assert_eq!(
        command_palette_items(TrustLevel::Trusted, "REVOKE"),
        vec![PaletteItem::RevokeTrust]
    );
    assert!(command_palette_items(TrustLevel::Trusted, "nothing").is_empty());
    assert_eq!(
        fitting_items(TrustLevel::Trusted, "b", "abc", "xyz"),
        vec![PaletteItem::ReviewTrust]
    );
    let mut app = app();
    app.apply_action(Action::OpenCommandPalette);
    app.apply_action(Action::PaletteInput('r'));
    app.apply_action(Action::ActivateFocused);
    assert!(matches!(app.overlay, Overlay::TrustReview { .. }));
    app.apply_action(Action::CancelModal);
    assert_eq!(app.focus, Landmark::Editor);
}

#[test]
fn stepping_forth_and_back_selects_the_same_entry() {
    let mut app = app();
    trust(&mut app);
    app.apply_action(Action::OpenCommandPalette);
    let selected = |app: &App| match &app.overlay {
        Overlay::CommandPalette { selected, .. } => *selected,
        other => panic!("{other:?}"),
    };
    app.apply_action(Action::PrevControl);
    assert_eq!(selected(&app), 1);
    app.apply_action(Action::NextControl);
    assert_eq!(selected(&app), 0);
}

#[test]
fn the_focus_goes_round() {
    let mut app = app();
    app.apply_action(Action::CycleLandmarkForward);
    assert_eq!(app.focus, Landmark::RightStripe);
    app.apply_action(Action::CycleLandmarkBackward);
    assert_eq!(app.focus, Landmark::Editor);
    app.apply_action(Action::ActivateLeftTool(2));
    assert_eq!(app.focus, Landmark::PrimaryPane);
    assert_eq!(app.layout.primary_active_tab, 1);
}

#[test]
fn the_project_selection_stays_in_the_tree() {
    let mut app = app();
    let epoch = app.epoch;
    app.apply_action(Action::UpdateProjectState { tree: Some(3), epoch });
    app.apply_action(Action::ProjectMoveSelection { delta: 9 });
    assert_eq!(app.project.selected_row, 2);
    app.apply_action(Action::ProjectMoveSelection { delta: -1 });
    assert_eq!(app.project.selected_row, 1);
    app.apply_action(Action::ProjectMoveSelection { delta: -5 });
    assert_eq!(app.project.selected_row, 0);
    let effects = app.apply_action(Action::ProjectToggleDir { path: "/w/src".to_owned() });
    assert_eq!(effects.follow_up, FollowUp::ToggleDir("/w/src".to_owned()));
    app.apply_action(Action::Wheel { landmark: Landmark::PrimaryPane, lines: 3 });
    assert_eq!(app.project.scroll, 3);
    app.apply_action(Action::Wheel { landmark: Landmark::PrimaryPane, lines: -9 });
    assert_eq!(app.project.scroll, 0);
}

#[test]
fn numbers_that_cannot_be_counted_are_found_before() {
    let app = app();
    assert!(app.can_apply(&Action::EditorInsert('x')));
    assert!(app.can_apply(&Action::Wheel { landmark: Landmark::Editor, lines: 2_147_483_647 }));
    assert!(!app.can_apply(&Action::UpdateProjectState {
        tree: Some(2_147_483_648),
        epoch: WorkspaceEpoch(0),
    }));
}

#[test]
fn the_journal_keeps_the_latest_checkpoint() {
    let mut app = app();
    let doc = app.current_doc.unwrap();
    let epoch = app.epoch;
    let one = app.apply_action(Action::EditorInsert('a')).checkpoint.unwrap();
    let two = app.apply_action(Action::EditorInsert('b')).checkpoint.unwrap();
    app.checkpoint_offered(two, JournalReply::Refused);
    app.checkpoint_offered(one, JournalReply::Refused);
    assert_eq!(app.pending_checkpoint_revision(doc), Some(DocumentRevision(2)));
    assert!(app.snapshot(&names()).journal_lagging);
    app.apply_action(Action::JournalAck { doc_id: doc, revision: DocumentRevision(1), epoch });
    assert_eq!(app.pending_checkpoint_revision(doc), Some(DocumentRevision(2)));
    app.apply_action(Action::JournalAck { doc_id: doc, revision: DocumentRevision(2), epoch });
    assert_eq!(app.pending_checkpoint_revision(doc), None);
    assert_eq!(app.buffers[0].last_checkpointed_revision(), Some(DocumentRevision(2)));
    assert!(app.buffers[0].is_dirty());
}

fn tab(id: u128, path: Option<&str>, content: Option<&str>) -> TabMetadata {
    TabMetadata {
        id: DocumentId(id),
        path: path.map(str::to_owned),
        last_known_revision: DocumentRevision(2),
        cursor_byte: 1,
        scroll_top_line: 3,
        selection_start_byte: Some(0),
        selection_end_byte: Some(1),
        content: content.map(str::to_owned),
        language: Language::Go,
    }
}

fn state(tabs: Vec<TabMetadata>, current: Option<u128>) -> AppState {
    AppState {
        version: 1,
        epoch: WorkspaceEpoch(6),
        layout: WorkbenchLayout::default(),
        tabs,
        current_tab: current.map(DocumentId),
        focus: "PrimaryPane".to_owned(),
        trust: vec![TrustRecord {
            workspace_root: "/home/w".to_owned(),
            authority: "box".to_owned(),
            kind: "ssh".to_owned(),
            level: "trusted".to_owned(),
        }],
        lsp_grants: vec![],
    }
}

#[test]
fn recovered_documents_come_before_kept_tabs() {
    let kept = state(
        vec![
            tab(1, Some("/w/a.go"), Some("disk")),
            tab(2, Some("/w/b.go"), Some("b")),
            tab(3, Some("/w/gone.go"), None),
            tab(4, None, None),
        ],
        Some(2),
    );
    let recovery = Recovery { buffers: vec![recovered(1, Some("/w/a.go"), "typed")] };
    assert!(layout_fits(&kept.layout));
    let app = App::restore_state(kept, recovery, 100);
    let texts: Vec<String> = app.buffers.iter().map(|b| b.text()).collect();
    assert_eq!(texts, vec!["typed", "b", ""]);
    assert!(app.buffers[0].is_dirty());
    assert!(!app.buffers[1].is_dirty());
    assert!(matches!(app.buffers[0].path_state(), BufferPathState::Recovered { .. }));
    assert_eq!(app.current_doc, Some(DocumentId(2)));
    let ids: Vec<u128> = app.layout.editor_tabs.iter().map(|t| t.doc_id.0).collect();
    assert_eq!(ids, vec![1, 2, 4]);
    assert_eq!(app.layout.active_editor_tab, 1);
    assert_eq!(app.layout.editor_tabs[1].scroll_line, 3);
    assert_eq!(app.layout.editor_tabs[0].cursor_byte, 0);
    assert_eq!(app.workspace_root(), "/home/w");
    assert_eq!(app.focus, Landmark::PrimaryPane);
    assert_eq!(app.authorities[0].kind, AuthorityKind::Ssh);
    assert_eq!(app.authorities[0].trust, TrustLevel::Trusted);
    assert_eq!(app.authorities[0].connection, AuthorityConnectionState::Disconnected);
}

#[test]
fn what_is_kept_comes_back() {
    let app = App::restore_state(state(vec![tab(2, Some("/w/b.go"), Some("b"))], None),
        Recovery::default(), 100);
    let kept = app.to_state();
    assert_eq!(kept.tabs.len(), 1);
    assert_eq!(kept.tabs[0].path.as_deref(), Some("/w/b.go"));
    assert_eq!(kept.tabs[0].content, None);
    assert_eq!(kept.trust[0].kind, "ssh");
    assert_eq!(kept.trust[0].level, "trusted");
    let again = App::restore_state(kept, Recovery::default(), 100);
    assert_eq!(again.epoch, app.epoch);
    assert_eq!(again.focus, app.focus);
    assert_eq!(again.authorities, app.authorities);
    assert_eq!(again.workspace_root(), app.workspace_root());
}

#[test]
fn snapshots_show_tabs_and_hide_passphrases() {
    let mut app = app();
    open(&mut app, "/w/a.rs", "x");
    let shown = app.snapshot(&names());
    assert_eq!(shown.open_editor_tabs.len(), 2);
    assert_eq!(shown.open_editor_tabs[0].title, "untitled");
    assert_eq!(shown.open_editor_tabs[0].path_label, "<untitled>");
    let current = shown.current_buffer.unwrap();
    assert_eq!((current.title.as_str(), current.path_label.as_str()), ("a.rs", "/w/a.rs"));
    assert_eq!(shown.status.message.as_deref(), Some("Opened /w/a.rs"));
    assert!(current.highlights.is_empty());
    app.prompt_ssh_passphrase("box".to_owned());
    app.apply_action(Action::SshPassphraseInput('é'));
    app.apply_action(Action::SshPassphraseInput('\n'));
    match app.snapshot(&names()).overlay {
        OverlaySnapshot::SshPassphrase { authority_label, length, .. } => {
            assert_eq!((authority_label.as_str(), length), ("box", 1));
        }
        other => panic!("{other:?}"),
    }
    app.apply_action(Action::SshPassphraseSubmit);
    assert_eq!(
        app.take_submitted_ssh_passphrase(),
        Some(("box".to_owned(), Secret::new("é".to_owned())))
    );
    assert_eq!(app.take_submitted_ssh_passphrase(), None);
}

fn ssh() -> SshAuthority {
    SshAuthority::new(
        "box".to_owned(),
        "/srv".to_owned(),
        protocol::request::WorkspaceEpoch(0),
    )
    .unwrap()
}

#[test]
fn authorities_are_registered_selected_and_lost() {
    let mut app = app();
    app.apply_action(Action::CycleAuthority);
    assert_eq!(status(&app), "No configured SSH authority.");
    app.register_ssh_authority(ssh());
    assert_eq!(app.authorities.len(), 2);
    let effects = app.apply_action(Action::CycleAuthority);
    assert!(effects.end_lsp_sessions);
    assert_eq!(status(&app), "box authority selected (disconnected).");
    assert_eq!(app.current_ssh_authority_label().as_deref(), Some("box"));
    app.ssh_authorities[0].transport = Some(Transport { id: 1, generation: 0, alive: true });
    app.refresh_authority_connections();
    assert_eq!(app.authorities[1].connection, AuthorityConnectionState::Connected);
    app.ssh_authorities[0].transport = None;
    app.refresh_authority_connections();
    assert_eq!(app.authorities[1].connection, AuthorityConnectionState::Lost);
    trust(&mut app);
    app.apply_action(Action::OpenTerminal);
    assert_eq!(
        status(&app),
        "SSH helper is not connected. Activate this authority before opening a terminal."
    );
}

fn key(app: &App) -> SupervisorKey {
    SupervisorKey::new(
        protocol::request::WorkspaceEpoch(app.epoch.0),
        EnvironmentEpoch(0),
        AuthorityIdentity("local".to_owned()),
        ExecutionContextV1::AuthorityRoot,
        Language::Rust,
    )
}

#[test]
fn stale_events_of_servers_change_nothing() {
    let mut app = app();
    let k = key(&app);
    let stale = Freshness { session_current: false, context_fresh: false };
    let event = LspRuntimeEvent::State {
        key: k,
        state: LanguageServiceState::Failed { message: "x".to_owned() },
    };
    assert_eq!(app.apply_lsp_runtime_event(event, stale), RuntimeStep::Nothing);
    assert!(app.services.states.is_empty());
    let event = LspRuntimeEvent::Initialized { key: key(&app) };
    assert_eq!(app.apply_lsp_runtime_event(event, stale), RuntimeStep::Nothing);
}

#[test]
fn requests_without_a_server_say_why() {
    let mut app = app();
    app.apply_action(Action::RequestHover);
    assert_eq!(app.status, StatusMessage::ServiceUnavailable);
    app.current_doc = None;
    app.apply_action(Action::RequestRename);
    assert_eq!(app.status, StatusMessage::RequestNeedsDocument);
}

#[test]
fn refused_edits_are_answered_with_a_reason() {
    let mut app = app();
    assert_eq!(
        app.workspace_edit_applied(&ApplyOutcome::Rejected),
        Some(EditRefusal::Rejected)
    );
    assert_eq!(
        app.workspace_edit_applied(&ApplyOutcome::Failed("disk".to_owned())),
        Some(EditRefusal::Failed)
    );
    assert_eq!(app.workspace_edit_applied(&ApplyOutcome::Applied), None);
    assert_eq!(EditRefusal::QueueBusy.text(), "workspace edit queue is busy");
    app.rename_applied(ApplyOutcome::NoChanges);
    assert_eq!(app.status, StatusMessage::RenameNoChanges);
}

fn offered(app: &mut App, revision: u64) {
    let doc = app.current_doc.unwrap();
    app.overlay = Overlay::Completion {
        document_id: doc,
        revision: DocumentRevision(revision),
        position: LspPosition { line: 0, character: 2 },
        candidates: vec![CompletionCandidate {
            label: "println".to_owned(),
            detail: None,
            replacement: "println!".to_owned(),
        }],
        selected: 0,
        invoker: Landmark::Editor,
    };
}

#[test]
fn completions_go_into_the_revision_they_were_asked_for() {
    let mut app = app();
    offered(&mut app, 0);
    let effects = app.apply_action(Action::ActivateFocused);
    assert_eq!(effects.follow_up, FollowUp::PlaceCompletion);
    assert_eq!(app.completion_buffer(), Some((0, LspPosition { line: 0, character: 2 })));
    let effects = app.place_completion(Some(2));
    assert!(effects.queue_lsp_change);
    assert_eq!(app.buffers[0].text(), "fnprintln! main() {}\n");
    assert_eq!(app.layout.editor_tabs[0].cursor_byte, 10);
    assert_eq!(status(&app), "Completion inserted: println.");
    offered(&mut app, 0);
    app.place_completion(Some(2));
    assert_eq!(status(&app), "Completion discarded because its editor context changed.");
    assert_eq!(app.overlay, Overlay::Closed);
    assert_eq!(app.buffers[0].revision(), DocumentRevision(1));
}

fn object(members: Vec<(&str, Json)>) -> Json {
    Json::Object(members.into_iter().map(|(n, v)| (n.to_owned(), v)).collect())
}

fn text(s: &str) -> Json {
    Json::Text(s.to_owned())
}

#[test]
fn answers_of_servers_are_read() {
    let items = Json::Array(vec![
        object(vec![("label", text("a")), ("insertText", text("A()")), ("detail", text("d"))]),
        object(vec![("label", text("b"))]),
        object(vec![("detail", text("no label"))]),
    ]);
    let found = completion_candidates(&object(vec![("items", items)]));
    assert_eq!(found.len(), 2);
    assert_eq!((found[0].label.as_str(), found[0].replacement.as_str()), ("a", "A()"));
    assert_eq!(found[0].detail.as_deref(), Some("d"));
    assert_eq!(found[1].replacement, "b");
    let hover = object(vec![("contents", object(vec![("value", text("docs"))]))]);
    assert_eq!(hover_document(&hover).as_deref(), Some("docs"));
    assert_eq!(hover_document(&Json::Null), None);
    let place = object(vec![("uri", text("file:///a.rs")), ("range", Json::Null)]);
    assert_eq!(definition_target(&place).unwrap().0, "file:///a.rs");
    assert!(definition_target(&Json::Null).is_none());
}

#[test]
fn definitions_are_shown_or_opened() {
    let mut app = app();
    let at = LspPosition { line: 0, character: 0 };
    let range = LspRange { start: at, end: at };
    app.show_definition(9, Some("/w/b.rs".to_owned()), range, None);
    assert_eq!(app.status, StatusMessage::DefinitionOpening);
    assert_eq!(app.take_pending_definition_open().as_deref(), Some("/w/b.rs"));
    let epoch = app.epoch;
    let effects = app.apply_action(Action::ProjectFileLoaded {
        path: "/w/b.rs".to_owned(),
        content: Some("abc".to_owned()),
        epoch,
    });
    assert_eq!(effects.follow_up, FollowUp::PlaceDefinition(range));
    app.place_definition(Some((1, 2)));
    assert_eq!(app.status, StatusMessage::DefinitionOpened);
    app.show_definition(9, None, range, None);
    assert_eq!(app.status, StatusMessage::DefinitionUnopenable);
    app.show_definition(0, None, range, Some((1, 2)));
    assert_eq!(app.current_doc, Some(app.buffers[0].id()));
    assert_eq!(app.layout.editor_tabs[0].selection_anchor, Some(1));
}

#[test]
fn documents_have_uris() {
    let mut app = app();
    app.buffers[0] = hermito::buffer::Buffer::new(DocumentId(0x10), Language::Rust, "");
    assert_eq!(
        uri_of(&app.buffers[0]),
        "untitled:DocumentId(00000000-0000-0000-0000-000000000010)"
    );
    open(&mut app, "/w/a b.rs", "");
    assert_eq!(uri_of(&app.buffers[1]), "file:///w/a%20b.rs");
    assert_eq!(uri_or_untitled(Some("x:y".to_owned()), DocumentId(1)), "x:y");
}

#[test]
fn answers_for_nobody_are_dropped() {
    let mut app = app();
    let before = app.buffers[0].revision();
    let event = LspRuntimeEvent::ProviderResult {
        key: key(&app),
        document_id: DocumentId(99),
        context: hermito::protocol::lsp::LspContext {
            workspace_epoch: protocol::request::WorkspaceEpoch(0),
            environment_epoch: EnvironmentEpoch(0),
            document_revision: None,
            sent_version: hermito::protocol::lsp::SentVersion(0),
            session_generation: hermito::protocol::lsp::SessionGeneration(0),
            execution_context: ExecutionContextV1::AuthorityRoot,
            authority_identity: AuthorityIdentity("local".to_owned()),
        },
        revision: before,
        position: LspPosition { line: 0, character: 0 },
        kind: hermito::app::LspProviderKind::Hover,
        answer: ProviderAnswer::Empty,
    };
    let fresh = Freshness { session_current: true, context_fresh: true };
    assert_eq!(app.apply_lsp_runtime_event(event, fresh), RuntimeStep::Nothing);
    assert_eq!(app.status, StatusMessage::Empty);
}
