//! What each action does to the workbench.
use vstd::prelude::*;
use vstd::utf8::*;

use super::completion::focused_activated;
use super::editing::{
    cursor_moved, cursor_of, cursor_target, deleted_backward, edit_applied, is_checkpoint,
    is_shown, lemma_shown, moved_lines, page_lines, shown_bytes, snapped_if_shown, tab_set,
    text_typed,
};
use super::files::{file_loaded, project_updated, row_moved, save_begun, save_finished};
use super::journal::{acknowledged, highlights_applied};
use super::overlay::{
    captured_at, focus_after_cancel, invoker_of, is_palette, new_name_typed, palette_typed,
    passphrase_typed, save_path_typed, stepped_overlay,
};
use super::requests::{provider_fault, rename_confirmed};
use super::status::StatusMessage;
use super::terminal::{
    ends_session, terminal_cells, terminal_closed, terminal_opened, wheel_fits, wheel_scrolled,
};
use super::trust::{
    authority_cycled, focused_grant, trust_granted, trust_reviewed, trust_revoked,
};
use super::{
    buffer_at, lemma_buffer_from, no_effects, trust_of, App, Effects, FollowUp, LspProviderKind,
    Overlay, ProjectTreeSnapshot, TerminalState, TrustLevel,
};
use crate::action::Action;
use crate::buffer::{BufferView, CheckpointPayload};
use crate::coordinate::{is_stop, lines_cut, snapped, snapping_leads_to_the_last_stop};
use crate::document::{backing, DocumentId, WorkspaceEpoch};
use crate::layout::{
    authority_rect, bottom_rect, covers, current_tab, fitted, next_landmark, prev_landmark, resized,
    EditorTabState, Geometry, Landmark, TabChoice,
};
use crate::rope::line_breaks_before;
use crate::secret::Secret;

verus! {

/// Whether the numbers that an action leads to can be counted.
pub open spec fn action_fits(app: App, action: Action) -> bool {
    let cursor = cursor_of(app.layout.tabs());
    match action {
        Action::EditorInsert(c) => cursor + encode_utf8(seq![c]).len() <= usize::MAX,
        Action::EditorPaste(text) => cursor + encode_utf8(text@).len() <= usize::MAX,
        Action::Wheel { landmark, lines } => wheel_fits(app, landmark, lines),
        Action::UpdateProjectState { tree: Some(n), .. } => n <= i32::MAX,
        Action::ProjectMoveSelection { delta } => app.project.selected_row + delta <= i32::MAX,
        _ => true,
    }
}

/// Where the terminal, the workbench or a server is asked to do something for an
/// action, and what the workbench is after it.
pub open spec fn action_applied(before: App, action: Action, after: App, effects: Effects) -> bool {
    match action {
        Action::Quit | Action::MouseDrag { .. } | Action::MouseUp => after == before && effects
            == no_effects(),
        Action::CycleLandmarkForward => after == (App {
            focus: next_landmark(before.focus, before.layout.context_visible),
            ..before
        }) && effects == no_effects(),
        Action::CycleLandmarkBackward => after == (App {
            focus: prev_landmark(before.focus, before.layout.context_visible),
            ..before
        }) && effects == no_effects(),
        Action::FocusLandmark(landmark) => after == (App {
            focus: landmark,
            terminal: TerminalState { capture: captured_at(before, landmark), ..before.terminal },
            ..before
        }) && effects == no_effects(),
        Action::CycleAuthority => authority_cycled(before, after, effects),
        Action::NextControl => after == (App {
            overlay: stepped_overlay(before.overlay, true),
            ..before
        }) && effects == no_effects(),
        Action::PrevControl => after == (App {
            overlay: stepped_overlay(before.overlay, false),
            ..before
        }) && effects == no_effects(),
        Action::ActivateFocused => focused_activated(before, after, effects),
        Action::ActivateLeftTool(n) => {
            &&& after == App { layout: after.layout, focus: Landmark::PrimaryPane, ..before }
            &&& after.layout.geometry() == Geometry {
                primary_visible: true,
                ..before.layout.geometry()
            }
            &&& after.layout.tabs() == TabChoice {
                primary_active_tab: if n > 0 {
                    (n - 1) as usize
                } else {
                    0
                },
                ..before.layout.tabs()
            }
            &&& effects == no_effects()
        },
        Action::OpenCommandPalette => {
            &&& after == App { overlay: after.overlay, ..before }
            &&& is_palette(after.overlay, Seq::empty(), trust_of(before), before.focus)
            &&& effects == no_effects()
        },
        Action::PaletteInput(c) => palette_typed(before, Some(c), after) && effects
            == no_effects(),
        Action::PaletteBackspace => palette_typed(before, None, after) && effects == no_effects(),
        Action::MouseDown { x, y, .. } => {
            &&& if covers(authority_rect(before.layout.geometry()), x, y) {
                trust_reviewed(before, after)
            } else {
                after == before
            }
            &&& effects == no_effects()
        },
        Action::Wheel { landmark, lines } => wheel_scrolled(before, landmark, lines, after)
            && effects == no_effects(),
        Action::OpenTerminal => terminal_opened(before, after, effects),
        Action::TerminalInput(bytes) => after == before && effects == (Effects {
            terminal_input: if before.terminal.capture && before.terminal.session is Some {
                Some(bytes)
            } else {
                None
            },
            ..no_effects()
        }),
        Action::ReleaseTerminalCapture => after == (App {
            terminal: TerminalState { capture: false, ..before.terminal },
            focus: Landmark::Editor,
            status: StatusMessage::CaptureReleased,
            ..before
        }) && effects == no_effects(),
        Action::CloseTerminal => after == (App {
            terminal: terminal_closed(before.terminal),
            ..before
        }) && effects == ends_session(before.terminal),
        Action::TerminalResize { width, height } => {
            &&& after == App { layout: after.layout, ..before }
            &&& after.layout.geometry() == fitted(resized(before.layout.geometry(), width, height))
            &&& after.layout.tabs() == before.layout.tabs()
            &&& effects == Effects {
                terminal_size: if before.terminal.session is Some {
                    Some(terminal_cells(after.layout.geometry()))
                } else {
                    None
                },
                ..no_effects()
            }
        },
        Action::ReviewTrust => trust_reviewed(before, after) && effects == no_effects(),
        Action::GrantTrust => trust_granted(before, after, effects),
        Action::RevokeTrust => trust_revoked(before, after, effects),
        Action::CancelModal => after == (App {
            overlay: Overlay::Closed,
            focus: focus_after_cancel(before.overlay, before.focus),
            ..before
        }) && effects == no_effects(),
        Action::SshPassphraseInput(c) => passphrase_typed(before, Some(c), after) && effects
            == no_effects(),
        Action::SshPassphraseBackspace => passphrase_typed(before, None, after) && effects
            == no_effects(),
        Action::SshPassphraseSubmit => {
            &&& match before.overlay {
                Overlay::SshPassphrase { authority_label, passphrase, invoker } => after == App {
                    overlay: Overlay::Closed,
                    submitted_ssh_passphrase: Some((authority_label, passphrase)),
                    focus: invoker,
                    status: StatusMessage::PassphraseSubmitted,
                    ..before
                },
                _ => after == App { overlay: Overlay::Closed, ..before },
            }
            &&& effects == no_effects()
        },
        Action::JournalAck { doc_id, revision, epoch } => acknowledged(
            before,
            doc_id,
            revision,
            epoch,
            after,
        ) && effects == no_effects(),
        Action::ApplySyntaxHighlights { doc_id, revision, spans, epoch } => highlights_applied(
            before,
            doc_id,
            revision,
            spans,
            epoch,
            after,
        ) && effects == no_effects(),
        Action::UpdateProjectState { tree, epoch } => after == (if epoch == before.epoch {
            App { project: project_updated(before.project, tree), ..before }
        } else {
            before
        }) && effects == no_effects(),
        Action::ProjectMoveSelection { delta } => after == (match before.project.tree {
            Some(n) if n > 0 => App {
                project: ProjectTreeSnapshot {
                    selected_row: row_moved(before.project.selected_row, delta, n),
                    ..before.project
                },
                ..before
            },
            _ => before,
        }) && effects == no_effects(),
        Action::ProjectActivateSelected => after == (App {
            focus: Landmark::PrimaryPane,
            ..before
        }) && effects == no_effects(),
        Action::ProjectToggleDir { path } => after == before && effects == (Effects {
            follow_up: if before.project.tree is Some {
                FollowUp::ToggleDir(path)
            } else {
                FollowUp::Nothing
            },
            ..no_effects()
        }),
        Action::RequestProjectFile { path } => after == (App {
            status: StatusMessage::Opening(path),
            ..before
        }) && effects == no_effects(),
        Action::ProjectFileLoaded { path, content, epoch } => file_loaded(
            before,
            path,
            content,
            epoch,
            after,
            effects,
        ),
        Action::Save => save_begun(before, after) && effects == no_effects(),
        Action::SaveAsOverlayInput(c) => save_path_typed(before, Some(c), after) && effects
            == no_effects(),
        Action::SaveAsOverlayBackspace => save_path_typed(before, None, after) && effects
            == no_effects(),
        Action::SaveAsOverlayConfirm => after == (App {
            overlay: Overlay::Closed,
            focus: match before.overlay {
                Overlay::SaveAs { invoker, .. } => invoker,
                _ => before.focus,
            },
            ..before
        }) && effects == no_effects(),
        Action::SaveAsOverlayCancel => after == (App {
            overlay: Overlay::Closed,
            focus: match before.overlay {
                Overlay::SaveAs { invoker, .. } => invoker,
                _ => before.focus,
            },
            status: StatusMessage::SaveCancelled,
            ..before
        }) && effects == no_effects(),
        Action::RenameOverlayInput(c) => new_name_typed(before, Some(c), after) && effects
            == no_effects(),
        Action::RenameOverlayBackspace => new_name_typed(before, None, after) && effects
            == no_effects(),
        Action::RenameOverlayConfirm => rename_confirmed(before, after, effects),
        Action::RenameOverlayCancel => after == (App {
            overlay: Overlay::Closed,
            focus: match before.overlay {
                Overlay::RenameInput { invoker, .. } => invoker,
                _ => before.focus,
            },
            status: StatusMessage::RenameCancelled,
            ..before
        }) && effects == no_effects(),
        Action::SaveCompleted { doc_id, revision, path, success, epoch } => save_finished(
            before,
            doc_id,
            revision,
            path,
            success,
            epoch,
            after,
            effects,
        ),
        Action::ApplyBufferEdit { doc_id, expected_rev, edit } => edit_applied(
            before,
            doc_id,
            expected_rev,
            edit@,
            after,
            effects,
        ),
        Action::EditorInsert(c) => text_typed(before, seq![c], after, effects),
        Action::EditorPaste(text) => text_typed(before, text@, after, effects),
        Action::EditorDeleteBackward => deleted_backward(before, after, effects),
        Action::EditorMoveCursor { line_delta, col_delta, extend_selection } => cursor_moved(
            before,
            cursor_target(
                shown_bytes(before),
                cursor_of(before.layout.tabs()) as int,
                line_delta,
                col_delta,
            ),
            extend_selection,
            after,
        ) && effects == no_effects(),
        Action::EditorSetCursor { byte } => {
            &&& after == App { layout: after.layout, focus: Landmark::Editor, ..before }
            &&& tab_set(
                before,
                EditorTabState {
                    cursor_byte: snapped_if_shown(before, byte),
                    selection_anchor: None,
                    ..current_tab(before.layout.tabs())
                },
                after,
            )
            &&& effects == no_effects()
        },
        Action::EditorSetSelection { anchor, cursor } => {
            &&& after == App { layout: after.layout, ..before }
            &&& tab_set(
                before,
                EditorTabState {
                    cursor_byte: snapped_if_shown(before, cursor),
                    selection_anchor: Some(snapped_if_shown(before, anchor)),
                    ..current_tab(before.layout.tabs())
                },
                after,
            )
            &&& effects == no_effects()
        },
        Action::EditorPage { up, extend } => cursor_moved(
            before,
            moved_lines(
                shown_bytes(before),
                snapped(shown_bytes(before), cursor_of(before.layout.tabs()) as int),
                if up {
                    -page_lines(before.layout.geometry())
                } else {
                    page_lines(before.layout.geometry())
                },
            ),
            extend,
            after,
        ) && effects == no_effects(),
        Action::RequestCompletion => asked(before, LspProviderKind::Completion, after, effects),
        Action::RequestHover => asked(before, LspProviderKind::Hover, after, effects),
        Action::RequestDefinition => asked(before, LspProviderKind::Definition, after, effects),
        Action::RequestRename => asked(before, LspProviderKind::RenamePreparation, after, effects),
    }
}

/// What asking a language server does: it says why it cannot be asked, or leaves
/// the asking to be done.
pub open spec fn asked(before: App, kind: LspProviderKind, after: App, effects: Effects) -> bool {
    match provider_fault(before) {
        Some(status) => after == (App { status, ..before }) && effects == no_effects(),
        None => after == before && effects == (Effects {
            follow_up: FollowUp::AskServer(kind),
            ..no_effects()
        }),
    }
}

/// Trust is granted in one way: an authority that is trusted after an action and
/// was not before is the selected one, the action is the grant, and the grant of a
/// trust review was focused.
pub proof fn trust_is_granted_in_one_way(
    before: App,
    action: Action,
    after: App,
    effects: Effects,
    i: int,
)
    requires
        before.wf(),
        action_applied(before, action, after, effects),
        0 <= i < after.authorities@.len(),
        after.authorities@[i].trust == TrustLevel::Trusted,
    ensures
        after.authorities@.len() == before.authorities@.len(),
        before.authorities@[i].trust == TrustLevel::Trusted || (action == Action::GrantTrust && i
            == before.current_authority && before.overlay is TrustReview && focused_grant(
            before.overlay,
        ) is Some),
{
}

/// Whatever is on top, trust can be revoked at once, and no terminal is left that
/// takes what is typed.
pub proof fn trust_is_revoked_at_once(before: App, after: App, effects: Effects)
    requires
        before.wf(),
        action_applied(before, Action::RevokeTrust, after, effects),
    ensures
        trust_of(after) == TrustLevel::InspectOnly,
        after.terminal.session is None,
        !after.terminal.capture,
        !after.terminal.starting,
        before.terminal.session is Some ==> effects.end_terminal,
{
}

/// Cancelling closes whatever is on top and gives the focus back to where it was
/// before that was opened. Nothing else changes.
pub proof fn cancelling_gives_the_focus_back(before: App, after: App, effects: Effects)
    requires
        action_applied(before, Action::CancelModal, after, effects),
    ensures
        after.overlay is Closed,
        invoker_of(before.overlay) matches Some(landmark) ==> after.focus == landmark,
        before.overlay is Closed <==> invoker_of(before.overlay) is None,
        after == (App { overlay: after.overlay, focus: after.focus, ..before }),
{
}

/// The epoch of the work that an action brings the result of.
pub open spec fn result_epoch(action: Action) -> Option<WorkspaceEpoch> {
    match action {
        Action::JournalAck { epoch, .. } => Some(epoch),
        Action::ApplySyntaxHighlights { epoch, .. } => Some(epoch),
        Action::UpdateProjectState { epoch, .. } => Some(epoch),
        Action::ProjectFileLoaded { epoch, .. } => Some(epoch),
        Action::SaveCompleted { epoch, .. } => Some(epoch),
        _ => None,
    }
}

/// Results of work that was begun in another epoch change nothing.
pub proof fn results_of_other_epochs_do_nothing(
    before: App,
    action: Action,
    after: App,
    effects: Effects,
)
    requires
        action_applied(before, action, after, effects),
        result_epoch(action) is Some,
        result_epoch(action)->0 != before.epoch,
    ensures
        after == before,
        effects == no_effects(),
{
}

/// Whether a save of a document at its revision and in the current epoch succeeded.
pub open spec fn is_save_of(app: App, action: Action, b: BufferView) -> bool {
    action matches Action::SaveCompleted { doc_id, revision, success, epoch, .. } && success
        && doc_id == b.id && revision == b.revision && epoch == app.epoch
}

/// The buffers that an action names, and the one that is shown, are found where
/// they are.
proof fn lemma_named_buffers(app: App, action: Action)
    ensures
        app.current_doc is Some ==> 0 <= buffer_at(app, app.current_doc->0),
        action matches Action::SaveCompleted { doc_id, .. } ==> found_at(app, doc_id),
        action matches Action::JournalAck { doc_id, .. } ==> found_at(app, doc_id),
        action matches Action::ApplyBufferEdit { doc_id, .. } ==> found_at(app, doc_id),
{
    if let Action::SaveCompleted { doc_id, .. } = action {
        lemma_buffer_from(app.buffers@, doc_id, 0);
    }
    if let Action::JournalAck { doc_id, .. } = action {
        lemma_buffer_from(app.buffers@, doc_id, 0);
    }
    if let Action::ApplyBufferEdit { doc_id, .. } = action {
        lemma_buffer_from(app.buffers@, doc_id, 0);
    }
    if app.current_doc is Some {
        lemma_buffer_from(app.buffers@, app.current_doc->0, 0);
    }
}

/// Whether the buffer of a document is found where it is, if it has one.
spec fn found_at(app: App, id: DocumentId) -> bool {
    let i = buffer_at(app, id);
    0 <= i && (i < app.buffers@.len() ==> app.buffers@[i]@.id == id)
}

/// No action closes a document. Its revision grows by one with every change of its
/// text and never falls, and it becomes clean only when its current revision was
/// saved.
pub proof fn documents_only_advance(
    before: App,
    action: Action,
    after: App,
    effects: Effects,
    i: int,
)
    requires
        before.wf(),
        before.editable(),
        action_applied(before, action, after, effects),
        0 <= i < before.buffers@.len(),
    ensures
        i < after.buffers@.len(),
        ({
            let old_view = before.buffers@[i]@;
            let new_view = after.buffers@[i]@;
            &&& new_view.id == old_view.id
            &&& new_view.revision == old_view.revision || new_view.revision.0
                == old_view.revision.0 + 1
            &&& new_view.text != old_view.text ==> new_view.revision.0 == old_view.revision.0 + 1
            &&& old_view.dirty && !new_view.dirty ==> is_save_of(before, action, old_view)
        }),
{
    lemma_named_buffers(before, action);
}

/// Every change of a text is handed to the journal, whole and at its new revision.
pub proof fn changes_are_checkpointed(
    before: App,
    action: Action,
    after: App,
    effects: Effects,
    i: int,
)
    requires
        before.wf(),
        before.editable(),
        action_applied(before, action, after, effects),
        0 <= i < before.buffers@.len(),
        after.buffers@[i]@.text != before.buffers@[i]@.text,
    ensures
        effects.checkpoint is Some,
        is_checkpoint(effects.checkpoint->0, after.buffers@[i]@, before.epoch),
{
    lemma_named_buffers(before, action);
}

impl App {
    /// Whether an action can be done: every buffer can take another edit, and the
    /// numbers that the action leads to can be counted.
    pub fn can_apply(&self, action: &Action) -> (yes: bool)
        requires
            self.wf(),
        ensures
            yes == (self.editable() && action_fits(*self, *action)),
    {
        if !self.can_edit() {
            return false;
        }
        let cursor: usize = match self.layout.current_editor() {
            Some(tab) => tab.cursor_byte,
            None => 0,
        };
        match action {
            Action::EditorInsert(c) => {
                let mut text = String::new();
                text.push(*c);
                assert(text@ =~= seq![*c]);
                cursor.checked_add(text.as_str().as_bytes().len()).is_some()
            },
            Action::EditorPaste(text) => cursor.checked_add(
                text.as_str().as_bytes().len(),
            ).is_some(),
            Action::Wheel { landmark, lines } => {
                if *landmark == Landmark::Editor {
                    match self.layout.current_editor() {
                        Some(tab) => (tab.scroll_line as i32).checked_add(*lines).is_some(),
                        None => true,
                    }
                } else if *landmark == Landmark::PrimaryPane {
                    (self.project.scroll as i32).checked_add(*lines).is_some()
                } else {
                    true
                }
            },
            Action::UpdateProjectState { tree: Some(n), .. } => *n <= 0x7fff_ffff,
            Action::ProjectMoveSelection { delta } => (self.project.selected_row as i32).checked_add(
                *delta,
            ).is_some(),
            _ => true,
        }
    }

    /// Does an action, and says what has to be done for it outside the workbench.
    #[verifier::rlimit(60)]
    pub fn apply_action(&mut self, action: Action) -> (effects: Effects)
        requires
            old(self).wf(),
            old(self).editable(),
            action_fits(*old(self), action),
        ensures
            final(self).wf(),
            action_applied(*old(self), action, *final(self), effects),
    {
        match action {
            Action::Quit | Action::MouseDrag { .. } | Action::MouseUp => {},
            Action::CycleLandmarkForward => self.cycle_focus(true),
            Action::CycleLandmarkBackward => self.cycle_focus(false),
            Action::FocusLandmark(landmark) => self.focus_landmark(landmark),
            Action::CycleAuthority => return self.cycle_authority(),
            Action::NextControl => self.step_control(true),
            Action::PrevControl => self.step_control(false),
            Action::ActivateFocused => return self.activate_focused(),
            Action::ActivateLeftTool(n) => self.activate_left_tool(n),
            Action::OpenCommandPalette => self.open_palette(),
            Action::PaletteInput(c) => self.type_into_palette(Some(c)),
            Action::PaletteBackspace => self.type_into_palette(None),
            Action::MouseDown { x, y, .. } => {
                if self.layout.rect_authority().contains(x, y) {
                    self.review_trust();
                }
            },
            Action::Wheel { landmark, lines } => self.wheel(landmark, lines),
            Action::OpenTerminal => return self.open_terminal(),
            Action::TerminalInput(bytes) => return self.terminal_input(bytes),
            Action::ReleaseTerminalCapture => self.release_terminal_capture(),
            Action::CloseTerminal => return self.close_terminal(),
            Action::TerminalResize { width, height } => return self.resize(width, height),
            Action::ReviewTrust => self.review_trust(),
            Action::GrantTrust => return self.grant_trust(),
            Action::RevokeTrust => return self.revoke_trust(),
            Action::CancelModal => self.cancel_modal(),
            Action::SshPassphraseInput(c) => self.type_passphrase(Some(c)),
            Action::SshPassphraseBackspace => self.type_passphrase(None),
            Action::SshPassphraseSubmit => self.submit_passphrase(),
            Action::JournalAck { doc_id, revision, epoch } => self.apply_journal_ack(
                doc_id,
                revision,
                epoch,
            ),
            Action::ApplySyntaxHighlights { doc_id, revision, spans, epoch } =>
                self.apply_syntax_highlights(doc_id, revision, spans, epoch),
            Action::UpdateProjectState { tree, epoch } => self.update_project(tree, epoch),
            Action::ProjectMoveSelection { delta } => self.move_project_selection(delta),
            Action::ProjectActivateSelected => self.focus = Landmark::PrimaryPane,
            Action::ProjectToggleDir { path } => {
                if self.project.tree.is_some() {
                    return Effects { follow_up: FollowUp::ToggleDir(path), ..Effects::none() };
                }
            },
            Action::RequestProjectFile { path } => self.status = StatusMessage::Opening(path),
            Action::ProjectFileLoaded { path, content, epoch } =>
                return self.project_file_loaded(path, content, epoch),
            Action::Save => self.begin_save(),
            Action::SaveAsOverlayInput(c) => self.type_save_path(Some(c)),
            Action::SaveAsOverlayBackspace => self.type_save_path(None),
            Action::SaveAsOverlayConfirm => self.confirm_save_as(),
            Action::SaveAsOverlayCancel => self.cancel_save_as(),
            Action::RenameOverlayInput(c) => self.type_new_name(Some(c)),
            Action::RenameOverlayBackspace => self.type_new_name(None),
            Action::RenameOverlayConfirm => return self.confirm_rename(),
            Action::RenameOverlayCancel => self.cancel_rename(),
            Action::SaveCompleted { doc_id, revision, path, success, epoch } =>
                return self.save_completed(doc_id, revision, path, success, epoch),
            Action::ApplyBufferEdit { doc_id, expected_rev, edit } =>
                return self.apply_buffer_edit(doc_id, expected_rev, edit),
            Action::EditorInsert(c) => {
                let mut text = String::new();
                text.push(c);
                assert(text@ =~= seq![c]);
                return self.type_text(text);
            },
            Action::EditorPaste(text) => return self.type_text(text),
            Action::EditorDeleteBackward => return self.delete_backward(),
            Action::EditorMoveCursor { line_delta, col_delta, extend_selection } =>
                self.move_cursor(line_delta, col_delta, extend_selection),
            Action::EditorSetCursor { byte } => self.set_cursor(byte),
            Action::EditorSetSelection { anchor, cursor } => self.set_selection(anchor, cursor),
            Action::EditorPage { up, extend } => self.page(up, extend),
            Action::RequestCompletion => return self.begin_provider(LspProviderKind::Completion),
            Action::RequestHover => return self.begin_provider(LspProviderKind::Hover),
            Action::RequestDefinition => return self.begin_provider(LspProviderKind::Definition),
            Action::RequestRename => return self.begin_provider(
                LspProviderKind::RenamePreparation,
            ),
        }
        Effects::none()
    }
}

/// A press in the text puts the cursor at the place that was pressed, or at the last
/// place before it where it can stand, and selects nothing; a drag selects from one such
/// place to another. Neither changes a text.
pub proof fn pressing_and_dragging_move_the_cursor(
    before: App,
    byte: usize,
    anchor: usize,
    after: App,
    effects: Effects,
    i: int,
)
    requires
        is_shown(before, i),
        before.layout.tabs().active_editor_tab < before.layout.tabs().editor_tabs.len(),
        byte <= encode_utf8(before.buffers@[i]@.text).len(),
        anchor <= encode_utf8(before.buffers@[i]@.text).len(),
    ensures
        action_applied(before, Action::EditorSetCursor { byte }, after, effects) ==> {
            let tab = after.layout.tabs().editor_tabs[after.layout.tabs().active_editor_tab as int];
            &&& after.buffers == before.buffers
            &&& after.focus == Landmark::Editor
            &&& tab.selection_anchor is None
            &&& lines_cut(encode_utf8(before.buffers@[i]@.text)) ==> tab.cursor_byte <= byte
                && is_stop(
                encode_utf8(before.buffers@[i]@.text),
                line_breaks_before(encode_utf8(before.buffers@[i]@.text), byte as int),
                tab.cursor_byte as int,
            )
            &&& snapped(encode_utf8(before.buffers@[i]@.text), byte as int) == byte
                ==> tab.cursor_byte == byte
        },
        action_applied(
            before,
            Action::EditorSetSelection { anchor, cursor: byte },
            after,
            effects,
        ) ==> {
            let tab = after.layout.tabs().editor_tabs[after.layout.tabs().active_editor_tab as int];
            &&& after.buffers == before.buffers
            &&& snapped(encode_utf8(before.buffers@[i]@.text), byte as int) == byte
                ==> tab.cursor_byte == byte
            &&& snapped(encode_utf8(before.buffers@[i]@.text), anchor as int) == anchor
                ==> tab.selection_anchor == Some(anchor)
        },
{
    lemma_shown(before, i);
    let text = before.buffers@[i]@.text;
    encode_utf8_valid_utf8(text);
    snapping_leads_to_the_last_stop(encode_utf8(text), byte as int);
}

/// Giving the focus gives it to the landmark that was named; a tool of the left stripe
/// is shown in the primary pane under its number, which counts from one.
pub proof fn focus_goes_where_it_is_sent(
    before: App,
    landmark: Landmark,
    n: u8,
    after: App,
    effects: Effects,
)
    ensures
        action_applied(before, Action::FocusLandmark(landmark), after, effects) ==> after.focus
            == landmark && after.buffers == before.buffers && after.layout == before.layout && (
        landmark == Landmark::Editor ==> !after.terminal.capture),
        action_applied(before, Action::ActivateLeftTool(n), after, effects) ==> after.focus
            == Landmark::PrimaryPane && after.layout.geometry().primary_visible && (n > 0
            ==> after.layout.tabs().primary_active_tab == n - 1) && after.layout.tabs().editor_tabs
            == before.layout.tabs().editor_tabs && after.buffers == before.buffers,
        action_applied(before, Action::ProjectActivateSelected, after, effects) ==> after.focus
            == Landmark::PrimaryPane && after.buffers == before.buffers,
{
}

/// What is typed for the terminal reaches it as it is while it takes what is typed and a
/// session is there, and nothing does otherwise; Escape gives what is typed back to the
/// editor; closing ends the session that there was.
pub proof fn terminal_actions_reach_the_terminal(
    before: App,
    bytes: Vec<u8>,
    after: App,
    effects: Effects,
)
    ensures
        action_applied(before, Action::TerminalInput(bytes), after, effects) ==> after == before && (
        before.terminal.capture && before.terminal.session is Some ==> effects.terminal_input
            == Some(bytes)) && (!before.terminal.capture || before.terminal.session is None
            ==> effects.terminal_input is None),
        action_applied(before, Action::ReleaseTerminalCapture, after, effects)
            ==> !after.terminal.capture && after.focus == Landmark::Editor
            && after.terminal.session == before.terminal.session && !effects.end_terminal,
        action_applied(before, Action::CloseTerminal, after, effects) ==> after.terminal.session is None
            && !after.terminal.capture && !after.terminal.starting && effects.end_terminal
            == before.terminal.session is Some && after.buffers == before.buffers,
{
}

/// The screen is taken in its new size, down to sixty columns and twenty rows, and a
/// terminal that is there is told the size that it has then; no tab and no text changes.
pub proof fn resizing_reaches_the_terminal(
    before: App,
    width: u16,
    height: u16,
    after: App,
    effects: Effects,
)
    requires
        action_applied(before, Action::TerminalResize { width, height }, after, effects),
    ensures
        width >= 60 ==> after.layout.geometry().width == width,
        height >= 20 ==> after.layout.geometry().height == height,
        width < 60 ==> after.layout.geometry().width == 60,
        height < 20 ==> after.layout.geometry().height == 20,
        after.layout.tabs() == before.layout.tabs(),
        after.buffers == before.buffers,
        effects.terminal_size is Some <==> before.terminal.session is Some,
        effects.terminal_size matches Some(cells) ==> (bottom_rect(
            after.layout.geometry(),
        ).height >= 3 ==> cells.0 + 2 == bottom_rect(after.layout.geometry()).height) && (
        bottom_rect(after.layout.geometry()).width >= 3 ==> cells.1 + 2 == bottom_rect(
            after.layout.geometry(),
        ).width),
{
}

/// A passphrase that is submitted is handed on with the authority that it was typed for,
/// as it was typed, and what asked for it is closed.
pub proof fn submitted_passphrases_are_handed_on(
    before: App,
    label: String,
    passphrase: Secret,
    invoker: Landmark,
    after: App,
    effects: Effects,
)
    requires
        before.overlay == (Overlay::SshPassphrase { authority_label: label, passphrase, invoker }),
        action_applied(before, Action::SshPassphraseSubmit, after, effects),
    ensures
        after.submitted_ssh_passphrase == Some((label, passphrase)),
        after.overlay is Closed,
        after.focus == invoker,
        after.buffers == before.buffers,
{
}

/// Closing a prompt gives the focus back to where it was, whichever way it is closed,
/// and changes no document; a cancelled save says so.
pub proof fn prompts_give_the_focus_back(before: App, after: App, effects: Effects)
    ensures
        action_applied(before, Action::SaveAsOverlayConfirm, after, effects) || action_applied(
            before,
            Action::SaveAsOverlayCancel,
            after,
            effects,
        ) ==> after.overlay is Closed && after.buffers == before.buffers && (
        before.overlay matches Overlay::SaveAs { invoker, .. } ==> after.focus == invoker),
        action_applied(before, Action::RenameOverlayCancel, after, effects)
            ==> after.overlay is Closed && after.buffers == before.buffers && (
        before.overlay matches Overlay::RenameInput { invoker, .. } ==> after.focus == invoker),
        action_applied(before, Action::SaveAsOverlayCancel, after, effects) ==> after.status
            == StatusMessage::SaveCancelled,
{
}

/// The palette opens empty and with everything that it offers without a query, and
/// remembers where the focus was; asking a server for something asks for that and no
/// other thing, if it can be asked.
pub proof fn palettes_and_requests_open_as_asked(before: App, after: App, effects: Effects)
    ensures
        action_applied(before, Action::OpenCommandPalette, after, effects) ==> (
        after.overlay matches Overlay::CommandPalette { query, selected, invoker, .. }
            && query@.len() == 0 && selected == 0 && invoker == before.focus) && after.buffers
            == before.buffers,
        provider_fault(before) is None && action_applied(
            before,
            Action::RequestCompletion,
            after,
            effects,
        ) ==> effects.follow_up == FollowUp::AskServer(LspProviderKind::Completion),
        provider_fault(before) is None && action_applied(
            before,
            Action::RequestHover,
            after,
            effects,
        ) ==> effects.follow_up == FollowUp::AskServer(LspProviderKind::Hover),
        provider_fault(before) is None && action_applied(
            before,
            Action::RequestDefinition,
            after,
            effects,
        ) ==> effects.follow_up == FollowUp::AskServer(LspProviderKind::Definition),
        provider_fault(before) is None && action_applied(
            before,
            Action::RequestRename,
            after,
            effects,
        ) ==> effects.follow_up == FollowUp::AskServer(LspProviderKind::RenamePreparation),
{
}

/// A checkpoint holds the whole text of its document at its revision, with the language
/// and the file that the document has.
pub proof fn checkpoints_hold_the_text(p: CheckpointPayload, b: BufferView, epoch: WorkspaceEpoch)
    requires
        is_checkpoint(p, b, epoch),
    ensures
        p.content@ == b.text,
        p.doc_id == b.id,
        p.revision == b.revision,
        p.language == b.language,
        p.epoch == epoch,
        p.path == backing(b.path_state),
{
}

/// Nothing but an edit, typing, deleting, a file that is opened or a save touches a
/// document; only typing, deleting, pasting and edits change its text.
pub proof fn other_actions_leave_the_texts(
    before: App,
    action: Action,
    after: App,
    effects: Effects,
    i: int,
)
    requires
        before.wf(),
        before.editable(),
        action_applied(before, action, after, effects),
        0 <= i < before.buffers@.len(),
        !(action is EditorInsert || action is EditorPaste || action is EditorDeleteBackward
            || action is ApplyBufferEdit),
    ensures
        after.buffers@[i]@.text == before.buffers@[i]@.text,
        after.buffers@[i]@.revision == before.buffers@[i]@.revision,
{
    lemma_named_buffers(before, action);
}

} // verus!
