//! The loop of the workbench: what is done with each result of background work and
//! with each action, and what is started for it.
use vstd::prelude::*;

use crate::action::{Action, HighlightSpan};
use crate::app::authorities::ssh_state_from;
use crate::app::dispatch::{action_applied, action_fits};
use crate::app::editing::{is_shown, lemma_shown};
use crate::app::files::{
    file_loaded, has_file, read_files_are_shown, save_finished as save_reported,
};
use crate::app::journal::is_current_revision;
use crate::app::status::StatusMessage;
use crate::app::terminal::{spawn_planned, TerminalSpawnSpec};
use crate::app::{
    buffer_at, buffer_of, has_buffer, lemma_buffer_from, no_effects, selected_authority, ssh_from,
    trust_of, App, AuthorityConnectionState, AuthorityKind, AuthorityState, Effects, Overlay,
    TrustLevel,
};
use crate::authority::ssh::connected;
use crate::authority::types::AuthorityTrust;
use crate::coalesce::{
    is_read_of, save_finished, save_requested, ProjectFileCoalesceState, SaveCoalesceState,
    SaveRequestData, SyntaxCoalesceState,
};
use crate::document::{BufferPathState, DocumentId, DocumentRevision, Language, WorkspaceEpoch};
use crate::layout::Landmark;
use crate::secret::Secret;
use crate::words::{join2, join3, join4, trim, trimmed};

pub mod activation;
pub mod shutdown;
pub mod ssh;

verus! {

/// A configured SSH authority: whether its key needs a passphrase, and whether it
/// is being activated.
#[derive(Debug, PartialEq, Eq)]
pub struct SshSlot {
    pub label: String,
    pub passphrase_required: bool,
    pub activating: bool,
}

/// The workbench with the background work that is in flight.
pub struct EventLoop {
    pub app: App,
    pub syntax: SyntaxCoalesceState,
    pub files: ProjectFileCoalesceState,
    pub saves: SaveCoalesceState,
    pub terminal_launch_in_flight: bool,
    pub ssh: Vec<SshSlot>,
}

/// A text to be highlighted, with the text that was highlighted before.
#[derive(Debug, PartialEq, Eq)]
pub struct SyntaxRequest {
    pub epoch: WorkspaceEpoch,
    pub doc_id: DocumentId,
    pub revision: DocumentRevision,
    pub language: Language,
    pub new_text: String,
    pub old_text: Option<String>,
}

/// What is to be started for an action.
#[derive(Debug)]
pub struct LoopStep {
    pub effects: Effects,
    pub quit: bool,
    pub save: Option<SaveRequestData>,
    pub read: Option<(String, WorkspaceEpoch)>,
    pub terminal: Option<TerminalSpawnSpec>,
    /// An SSH authority to be activated, with the passphrase of its key.
    pub activate: Option<(String, Option<Secret>)>,
    /// An SSH authority to be disconnected, and whether it was being activated.
    pub disconnect: Option<(String, bool)>,
}

/// Nothing to be started.
pub open spec fn idle_step(effects: Effects) -> LoopStep {
    LoopStep {
        effects,
        quit: false,
        save: None,
        read: None,
        terminal: None,
        activate: None,
        disconnect: None,
    }
}

impl LoopStep {
    /// Nothing to be started.
    pub fn nothing() -> (step: Self)
        ensures
            step == idle_step(no_effects()),
    {
        LoopStep {
            effects: Effects::none(),
            quit: false,
            save: None,
            read: None,
            terminal: None,
            activate: None,
            disconnect: None,
        }
    }
}

/// The first slot with a label, from index `i` on; their number if there is none.
pub open spec fn slot_from(slots: Seq<SshSlot>, label: Seq<char>, i: int) -> int
    decreases slots.len() - i,
{
    if i >= slots.len() {
        slots.len() as int
    } else if slots[i].label@ == label {
        i
    } else {
        slot_from(slots, label, i + 1)
    }
}

/// The slots with one of them activating or not.
pub open spec fn with_activating(slots: Seq<SshSlot>, i: int, activating: bool) -> Seq<SshSlot> {
    slots.update(i, SshSlot { activating, ..slots[i] })
}

/// The label of the SSH authority that is selected.
pub open spec fn selected_ssh_label(app: App) -> Option<String> {
    match selected_authority(app) {
        Some(a) if a.kind == AuthorityKind::Ssh => Some(a.label),
        _ => None,
    }
}

/// Whether the SSH authority with a label is connected.
pub open spec fn ssh_connected(app: App, label: Seq<char>) -> bool {
    let k = ssh_from(app.ssh_authorities@, label, 0);
    k < app.ssh_authorities@.len() && connected(app.ssh_authorities@[k])
}

/// Whether the SSH authority with a label may run programs.
pub open spec fn ssh_granted(app: App, label: Seq<char>) -> bool {
    let k = ssh_from(app.ssh_authorities@, label, 0);
    k < app.ssh_authorities@.len() && app.ssh_authorities@[k].base.trust
        == AuthorityTrust::ExecutionGranted
}

/// What telling the state of a connection does.
pub open spec fn connection_told(
    before: App,
    label: Seq<char>,
    connection: AuthorityConnectionState,
    text: Seq<char>,
    after: App,
) -> bool {
    let i = ssh_state_from(before.authorities@, label, 0);
    &&& after == App { authorities: after.authorities, status: after.status, ..before }
    &&& after.status matches StatusMessage::ConnectionNews(message) && message@ == text
    &&& after.authorities@ == if i < before.authorities@.len() {
        before.authorities@.update(
            i,
            AuthorityState { connection, ..before.authorities@[i] },
        )
    } else {
        before.authorities@
    }
}

/// What asking for a passphrase does.
pub open spec fn passphrase_asked(before: App, label: String, after: App) -> bool {
    &&& after.overlay matches Overlay::SshPassphrase { authority_label, passphrase, invoker }
        && authority_label == label && passphrase@.len() == 0 && invoker == before.focus
    &&& after == App {
        overlay: after.overlay,
        focus: Landmark::Authority,
        status: StatusMessage::PassphrasePrompt,
        ..before
    }
}

/// What is said while an SSH authority is being connected.
pub open spec fn connecting_text(label: Seq<char>) -> Seq<char> {
    "Connecting SSH authority "@ + label + "…"@
}

/// The file that is read next, once none is being read.
pub open spec fn next_read(pending: Option<(String, WorkspaceEpoch)>, epoch: WorkspaceEpoch) ->
    Option<(String, WorkspaceEpoch)> {
    match pending {
        Some((path, e)) if e == epoch => Some((path, e)),
        _ => None,
    }
}

/// What a file that was read does. A file that nobody waits for changes nothing;
/// the one that was asked for last is read next, if it is of the current epoch.
pub open spec fn file_read(
    before: EventLoop,
    path: String,
    content: Option<String>,
    epoch: WorkspaceEpoch,
    after: EventLoop,
    effects: Effects,
    read: Option<(String, WorkspaceEpoch)>,
) -> bool {
    let matched = is_read_of(before.files.in_flight, path@, epoch);
    &&& after == EventLoop { app: after.app, files: after.files, ..before }
    &&& if matched {
        file_loaded(before.app, path, content, epoch, after.app, effects)
    } else {
        after.app == before.app && effects == no_effects()
    }
    &&& if matched || before.files.in_flight is None {
        &&& read == next_read(before.files.pending, before.app.epoch)
        &&& after.files.in_flight == read
        &&& after.files.pending is None
    } else {
        after.files == before.files && read is None
    }
}

/// Whether a text is to be highlighted: the one that is shown, if its highlights
/// are not held and no other text is being highlighted.
pub open spec fn wants_syntax(l: EventLoop) -> bool {
    match l.app.current_doc {
        Some(id) => {
            let b = buffer_of(l.app, id);
            has_buffer(l.app, id) && l.syntax.in_flight is None && !(
            l.app.syntax.highlights@.contains_key(id.0) && l.app.syntax.highlights@[id.0].0
                == b.revision)
        },
        None => false,
    }
}

/// What is highlighted next.
pub open spec fn syntax_dispatched(
    before: EventLoop,
    after: EventLoop,
    request: Option<SyntaxRequest>,
) -> bool {
    &&& after == EventLoop { syntax: after.syntax, ..before }
    &&& if wants_syntax(before) {
        let id = before.app.current_doc->0;
        let b = buffer_of(before.app, id);
        &&& after.syntax.in_flight == Some((id, b.revision))
        &&& request matches Some(r) && r.epoch == before.app.epoch && r.doc_id == id && r.revision
            == b.revision && r.language == b.language && r.new_text@ == b.text && r.old_text == (
        if before.app.syntax.retained@.contains_key(id.0) && before.app.syntax.retained@[id.0].1 {
            Some(before.app.syntax.retained@[id.0].2)
        } else {
            None
        })
    } else {
        after.syntax == before.syntax && request is None
    }
}

/// What highlights that came back do to what is held of them.
pub open spec fn syntax_taken(
    before: App,
    doc_id: DocumentId,
    revision: DocumentRevision,
    epoch: WorkspaceEpoch,
    spans: Vec<HighlightSpan>,
    has_tree: bool,
    source: String,
    after: App,
) -> bool {
    if is_current_revision(before, doc_id, revision, epoch) {
        &&& after == App { syntax: after.syntax, ..before }
        &&& after.syntax.highlights@ == before.syntax.highlights@.insert(
            doc_id.0,
            (revision, spans),
        )
        &&& after.syntax.retained@ == before.syntax.retained@.insert(
            doc_id.0,
            (revision, has_tree, source),
        )
    } else {
        after == before
    }
}

/// What the save of a document asks for, if it has a path.
pub open spec fn is_save_request(app: App, data: SaveRequestData) -> bool {
    let id = app.current_doc->0;
    let b = buffer_of(app, id);
    &&& data.epoch == app.epoch
    &&& data.doc_id == id
    &&& data.revision == b.revision
    &&& b.path_state == BufferPathState::Saved(data.path)
    &&& data.content@ == b.text
}

/// Whether the document that is shown can be saved under its own path.
pub open spec fn can_save(app: App) -> bool {
    app.current_doc is Some && has_buffer(app, app.current_doc->0) && buffer_of(
        app,
        app.current_doc->0,
    ).path_state is Saved
}

/// What a save under a path that was typed asks for.
pub open spec fn is_save_as_request(app: App, data: SaveRequestData) -> bool {
    &&& app.overlay matches Overlay::SaveAs { path, doc_id, .. } && data.doc_id == doc_id
        && data.path@ == trimmed(path@)
    &&& data.epoch == app.epoch
    &&& if has_buffer(app, data.doc_id) {
        data.revision == buffer_of(app, data.doc_id).revision && data.content@ == buffer_of(
            app,
            data.doc_id,
        ).text
    } else {
        data.revision == DocumentRevision(0) && data.content@.len() == 0
    }
}

/// Whether a path was typed to save under.
pub open spec fn can_save_as(app: App) -> bool {
    app.overlay matches Overlay::SaveAs { path, .. } && trimmed(path@).len() > 0
}

/// The save that an action asks for.
pub open spec fn asked_save(app: App, action: Action, data: SaveRequestData) -> bool {
    match action {
        Action::Save => can_save(app) && is_save_request(app, data),
        Action::SaveAsOverlayConfirm => can_save_as(app) && is_save_as_request(app, data),
        _ => false,
    }
}

/// Whether an action asks for a save.
pub open spec fn asks_save(app: App, action: Action) -> bool {
    (action == Action::Save && can_save(app)) || (action == Action::SaveAsOverlayConfirm
        && can_save_as(app))
}

/// What becomes of the save that an action asks for: it is started, or waits for
/// the one of the same document that is in flight.
pub open spec fn save_planned(
    before: EventLoop,
    action: Action,
    after: SaveCoalesceState,
    save: Option<SaveRequestData>,
) -> bool {
    if asks_save(before.app, action) {
        exists|data: SaveRequestData| #[trigger]
            asked_save(before.app, action, data) && (after@, save) == save_requested(
                before.saves@,
                data,
            )
    } else {
        after == before.saves && save is None
    }
}

/// What becomes of the file that an action asks for: it is read, or waits, in place
/// of any other that waits.
pub open spec fn read_planned(
    before: EventLoop,
    action: Action,
    after: ProjectFileCoalesceState,
    read: Option<(String, WorkspaceEpoch)>,
) -> bool {
    match action {
        Action::RequestProjectFile { path } => if before.files.in_flight is None {
            &&& read == Some((path, before.app.epoch))
            &&& after.in_flight == read
            &&& after.pending == before.files.pending
        } else {
            &&& read is None
            &&& after.in_flight == before.files.in_flight
            &&& after.pending == Some((path, before.app.epoch))
        },
        _ => after == before.files && read is None,
    }
}

/// What becomes of a terminal that is to be started: one is started at a time.
pub open spec fn terminal_planned(
    app: App,
    in_flight: bool,
    after: bool,
    plan: Option<TerminalSpawnSpec>,
) -> bool {
    if in_flight {
        after && plan is None
    } else {
        spawn_planned(app, plan) && after == (plan is Some)
    }
}

/// What a submitted passphrase starts: the activation of its authority, unless that
/// is being activated.
pub open spec fn passphrase_followed(
    mid: App,
    ssh: Seq<SshSlot>,
    after: App,
    ssh_after: Seq<SshSlot>,
    activate: Option<(String, Option<Secret>)>,
) -> bool {
    let taken = App { submitted_ssh_passphrase: None, ..mid };
    match mid.submitted_ssh_passphrase {
        Some((label, passphrase)) => {
            let i = slot_from(ssh, label@, 0);
            if i < ssh.len() && !ssh[i].activating {
                &&& connection_told(
                    taken,
                    label@,
                    AuthorityConnectionState::Connecting,
                    connecting_text(label@),
                    after,
                )
                &&& ssh_after == with_activating(ssh, i, true)
                &&& activate == Some((label, Some(passphrase)))
            } else {
                after == taken && ssh_after == ssh && activate is None
            }
        },
        None => after == taken && ssh_after == ssh && activate is None,
    }
}

/// What revoked trust ends: the connection of the authority that was selected.
pub open spec fn revocation_followed(
    label: Option<String>,
    mid: App,
    ssh: Seq<SshSlot>,
    after: App,
    ssh_after: Seq<SshSlot>,
    disconnect: Option<(String, bool)>,
) -> bool {
    match label {
        Some(l) => {
            let i = slot_from(ssh, l@, 0);
            &&& connection_told(
                mid,
                l@,
                AuthorityConnectionState::Disconnected,
                "SSH authority "@ + l@ + " disconnected."@,
                after,
            )
            &&& if i < ssh.len() {
                ssh_after == with_activating(ssh, i, false) && disconnect == Some(
                    (l, ssh[i].activating),
                )
            } else {
                ssh_after == ssh && disconnect is None
            }
        },
        None => after == mid && ssh_after == ssh && disconnect is None,
    }
}

/// What trust in the selected authority starts: its activation, or the question
/// for its passphrase, unless it is connected or being activated.
pub open spec fn selection_followed(
    mid: App,
    ssh: Seq<SshSlot>,
    after: App,
    ssh_after: Seq<SshSlot>,
    activate: Option<(String, Option<Secret>)>,
) -> bool {
    let label = selected_ssh_label(mid);
    let i = slot_from(ssh, label->0@, 0);
    if trust_of(mid) == TrustLevel::Trusted && label is Some && i < ssh.len()
        && !ssh[i].activating && !ssh_connected(mid, label->0@) {
        if ssh[i].passphrase_required {
            passphrase_asked(mid, label->0, after) && ssh_after == ssh && activate is None
        } else {
            &&& connection_told(
                mid,
                label->0@,
                AuthorityConnectionState::Connecting,
                connecting_text(label->0@),
                after,
            )
            &&& ssh_after == with_activating(ssh, i, true)
            &&& activate == Some((label->0, None::<Secret>))
        }
    } else {
        after == mid && ssh_after == ssh && activate is None
    }
}

/// What is done about SSH authorities after an action.
pub open spec fn ssh_followed(
    action: Action,
    label: Option<String>,
    mid: App,
    ssh: Seq<SshSlot>,
    after: App,
    ssh_after: Seq<SshSlot>,
    step: LoopStep,
) -> bool {
    match action {
        Action::SshPassphraseSubmit => passphrase_followed(
            mid,
            ssh,
            after,
            ssh_after,
            step.activate,
        ) && step.disconnect is None,
        Action::RevokeTrust => revocation_followed(
            label,
            mid,
            ssh,
            after,
            ssh_after,
            step.disconnect,
        ) && step.activate is None,
        Action::GrantTrust => selection_followed(mid, ssh, after, ssh_after, step.activate)
            && step.disconnect is None,
        Action::CycleAuthority => selection_followed(mid, ssh, after, ssh_after, step.activate)
            && step.disconnect is None,
        _ => after == mid && ssh_after == ssh && step.activate is None && step.disconnect is None,
    }
}

/// What an action does, and what is started for it. `mid` is the workbench after
/// the action, before SSH authorities are seen to.
pub open spec fn acted_through(
    before: EventLoop,
    action: Action,
    mid: App,
    after: EventLoop,
    step: LoopStep,
) -> bool {
    &&& action_applied(before.app, action, mid, step.effects)
    &&& !step.quit
    &&& save_planned(before, action, after.saves, step.save)
    &&& read_planned(before, action, after.files, step.read)
    &&& if action == Action::OpenTerminal {
        terminal_planned(
            mid,
            before.terminal_launch_in_flight,
            after.terminal_launch_in_flight,
            step.terminal,
        )
    } else {
        after.terminal_launch_in_flight == before.terminal_launch_in_flight && step.terminal is None
    }
    &&& ssh_followed(
        action,
        selected_ssh_label(before.app),
        mid,
        before.ssh@,
        after.app,
        after.ssh@,
        step,
    )
    &&& after.syntax == before.syntax
}

/// What an action does, and what is started for it. To quit changes nothing: the
/// run is ended by steps of its own.
pub open spec fn acted(before: EventLoop, action: Action, after: EventLoop, step: LoopStep) -> bool {
    if action == Action::Quit {
        after == before && step == (LoopStep { quit: true, ..idle_step(no_effects()) })
    } else {
        exists|mid: App| #[trigger] acted_through(before, action, mid, after, step)
    }
}

impl EventLoop {
    /// A loop with nothing in flight.
    pub fn new(app: App) -> (l: Self)
        ensures
            l.app == app,
            l.syntax.in_flight is None,
            l.files.in_flight is None,
            l.files.pending is None,
            l.saves@.in_flight == Map::<u128, DocumentRevision>::empty(),
            l.saves@.pending == Map::<u128, SaveRequestData>::empty(),
            !l.terminal_launch_in_flight,
            l.ssh@.len() == 0,
    {
        EventLoop {
            app,
            syntax: SyntaxCoalesceState::default(),
            files: ProjectFileCoalesceState::default(),
            saves: SaveCoalesceState::default(),
            terminal_launch_in_flight: false,
            ssh: Vec::new(),
        }
    }

    fn find_slot(&self, label: &String) -> (i: usize)
        ensures
            i == slot_from(self.ssh@, label@, 0),
            i <= self.ssh@.len(),
    {
        let mut i: usize = 0;
        while i < self.ssh.len()
            invariant
                i <= self.ssh@.len(),
                slot_from(self.ssh@, label@, 0) == slot_from(self.ssh@, label@, i as int),
            decreases self.ssh@.len() - i,
        {
            if self.ssh[i].label == *label {
                return i;
            }
            i += 1;
        }
        i
    }

    /// Adds an SSH authority. Its label must be a new one.
    pub fn add_ssh(&mut self, label: String, passphrase_required: bool) -> (r: Result<(), String>)
        ensures
            *final(self) == (EventLoop { ssh: final(self).ssh, ..*old(self) }),
            if slot_from(old(self).ssh@, label@, 0) < old(self).ssh@.len() {
                &&& r is Err
                &&& r->Err_0@ == "duplicate SSH authority label "@ + label@
                &&& final(self).ssh@ == old(self).ssh@
            } else {
                &&& r is Ok
                &&& final(self).ssh@ == old(self).ssh@.push(
                    SshSlot { label, passphrase_required, activating: false },
                )
            },
    {
        if self.find_slot(&label) < self.ssh.len() {
            return Err(join2("duplicate SSH authority label ", label.as_str()));
        }
        self.ssh.push(SshSlot { label, passphrase_required, activating: false });
        Ok(())
    }

    /// Takes a file that was read.
    pub fn file_read(&mut self, path: String, content: Option<String>, epoch: WorkspaceEpoch) -> (r:
        (Effects, Option<(String, WorkspaceEpoch)>))
        requires
            old(self).app.wf(),
        ensures
            final(self).app.wf(),
            file_read(*old(self), path, content, epoch, *final(self), r.0, r.1),
    {
        let current = self.app.epoch;
        let matched = self.files.on_result(&path, epoch);
        let effects = if matched {
            self.app.project_file_loaded(path, content, epoch)
        } else {
            Effects::none()
        };
        let mut read: Option<(String, WorkspaceEpoch)> = None;
        if !self.files.has_in_flight() {
            if let Some((next, e)) = self.files.take_pending() {
                if e == current {
                    self.files.on_dispatch(next.clone(), e);
                    read = Some((next, e));
                }
            }
        }
        (effects, read)
    }

    /// Highlights the text that is shown, if that is due.
    pub fn dispatch_syntax_for_current(&mut self) -> (request: Option<SyntaxRequest>)
        ensures
            syntax_dispatched(*old(self), *final(self), request),
    {
        let id = match self.app.current_doc {
            Some(id) => id,
            None => return None,
        };
        let i: usize = self.app.find_buffer(id);
        if i >= self.app.buffers.len() {
            return None;
        }
        let revision = self.app.buffers[i].revision();
        let up_to_date = self.app.syntax_is_current(id, revision);
        if !self.syntax.should_spawn_for(id, revision, up_to_date) {
            return None;
        }
        self.syntax.on_dispatch(id, revision);
        let buffer = &self.app.buffers[i];
        Some(
            SyntaxRequest {
                epoch: self.app.epoch,
                doc_id: id,
                revision,
                language: buffer.language(),
                new_text: buffer.text(),
                old_text: match self.app.syntax_retained(id) {
                    Some((_, true, text)) => Some(text),
                    _ => None,
                },
            },
        )
    }

    /// Takes highlights that came back, and highlights what is shown now if that is
    /// due.
    pub fn syntax_done(
        &mut self,
        doc_id: DocumentId,
        revision: DocumentRevision,
        epoch: WorkspaceEpoch,
        spans: Vec<HighlightSpan>,
        has_tree: bool,
        source: String,
    ) -> (request: Option<SyntaxRequest>)
        requires
            old(self).app.wf(),
        ensures
            final(self).app.wf(),
            syntax_taken(
                old(self).app,
                doc_id,
                revision,
                epoch,
                spans,
                has_tree,
                source,
                final(self).app,
            ),
            ({
                let answered = EventLoop {
                    app: final(self).app,
                    syntax: SyntaxCoalesceState {
                        in_flight: if old(self).syntax.in_flight == Some((doc_id, revision)) {
                            None
                        } else {
                            old(self).syntax.in_flight
                        },
                    },
                    ..*old(self)
                };
                syntax_dispatched(answered, *final(self), request)
            }),
    {
        let _ = self.syntax.on_result(doc_id, revision);
        self.app.apply_syntax_result(doc_id, revision, epoch, spans, has_tree, source);
        if self.syntax.has_in_flight() {
            None
        } else {
            self.dispatch_syntax_for_current()
        }
    }

    /// Forgets all background work, once it cannot be finished any more.
    pub fn workers_lost(&mut self)
        ensures
            final(self).syntax.in_flight is None,
            final(self).files.in_flight is None,
            final(self).files.pending is None,
            final(self).saves@.in_flight == Map::<u128, DocumentRevision>::empty(),
            final(self).saves@.pending == Map::<u128, SaveRequestData>::empty(),
            *final(self) == (EventLoop {
                syntax: final(self).syntax,
                files: final(self).files,
                saves: final(self).saves,
                ..*old(self)
            }),
    {
        self.syntax.clear();
        self.saves.clear();
        self.files.clear();
    }

    /// Takes the outcome of a save, and starts the save of the same document that
    /// waited for it.
    pub fn save_done(
        &mut self,
        doc_id: DocumentId,
        revision: DocumentRevision,
        path: String,
        success: bool,
        epoch: WorkspaceEpoch,
    ) -> (r: (Effects, Option<SaveRequestData>))
        requires
            old(self).app.wf(),
        ensures
            final(self).app.wf(),
            *final(self) == (EventLoop {
                app: final(self).app,
                saves: final(self).saves,
                ..*old(self)
            }),
            save_reported(
                old(self).app,
                doc_id,
                revision,
                path,
                success,
                epoch,
                final(self).app,
                r.0,
            ),
            (final(self).saves@, r.1) == save_finished(old(self).saves@, doc_id),
    {
        let effects = self.app.save_completed(doc_id, revision, path, success, epoch);
        let next = self.saves.on_result(doc_id, revision);
        (effects, next)
    }

    /// Notes that a terminal launch has come to an end, in whatever way.
    pub fn terminal_answered(&mut self)
        ensures
            *final(self) == (EventLoop { terminal_launch_in_flight: false, ..*old(self) }),
    {
        self.terminal_launch_in_flight = false;
    }

    /// The terminal to be started now, if one is wanted and none is being started.
    pub fn next_terminal(&mut self) -> (plan: Option<TerminalSpawnSpec>)
        requires
            old(self).app.wf(),
        ensures
            *final(self) == (EventLoop {
                terminal_launch_in_flight: final(self).terminal_launch_in_flight,
                ..*old(self)
            }),
            terminal_planned(
                old(self).app,
                old(self).terminal_launch_in_flight,
                final(self).terminal_launch_in_flight,
                plan,
            ),
    {
        if self.terminal_launch_in_flight {
            return None;
        }
        let plan = self.app.terminal_spawn_spec();
        if plan.is_some() {
            self.terminal_launch_in_flight = true;
        }
        plan
    }

    fn set_activating(&mut self, i: usize, activating: bool)
        requires
            i < old(self).ssh@.len(),
        ensures
            *final(self) == (EventLoop { ssh: final(self).ssh, ..*old(self) }),
            final(self).ssh@ == with_activating(old(self).ssh@, i as int, activating),
    {
        let ghost before = self.ssh@;
        self.ssh[i].activating = activating;
        assert(self.ssh@ =~= with_activating(before, i as int, activating));
    }

    fn tell_connecting(&mut self, label: &String)
        requires
            old(self).app.wf(),
        ensures
            final(self).app.wf(),
            *final(self) == (EventLoop { app: final(self).app, ..*old(self) }),
            connection_told(
                old(self).app,
                label@,
                AuthorityConnectionState::Connecting,
                connecting_text(label@),
                final(self).app,
            ),
    {
        let text = join3("Connecting SSH authority ", label.as_str(), "…");
        let _ = self.app.set_authority_connection(
            label,
            AuthorityConnectionState::Connecting,
            text,
        );
    }

    /// Sees to one SSH authority when the run begins: one that may run programs is
    /// activated, or its passphrase is asked for if it is the selected one and no
    /// other was asked for. The result says whether to activate it and whether a
    /// passphrase has been asked for.
    pub fn begin_ssh(&mut self, i: usize, prompted: bool) -> (r: (bool, bool))
        requires
            old(self).app.wf(),
            i < old(self).ssh@.len(),
        ensures
            final(self).app.wf(),
            *final(self) == (EventLoop {
                app: final(self).app,
                ssh: final(self).ssh,
                ..*old(self)
            }),
            ({
                let slot = old(self).ssh@[i as int];
                if !ssh_granted(old(self).app, slot.label@) {
                    final(self).app == old(self).app && final(self).ssh@ == old(self).ssh@ && r == (
                        false,
                        prompted,
                    )
                } else if slot.passphrase_required {
                    let asks = !prompted && selected_ssh_label(old(self).app) is Some
                        && selected_ssh_label(old(self).app)->0@ == slot.label@;
                    &&& final(self).ssh@ == old(self).ssh@
                    &&& r == (false, prompted || asks)
                    &&& exists|mid: App|
                        #![trigger mid.status]
                        {
                            &&& connection_told(
                                old(self).app,
                                slot.label@,
                                AuthorityConnectionState::Disconnected,
                                "SSH authority "@ + slot.label@ + " requires its key passphrase."@,
                                mid,
                            )
                            &&& if asks {
                                passphrase_asked(mid, slot.label, final(self).app)
                            } else {
                                final(self).app == mid
                            }
                        }
                } else {
                    &&& connection_told(
                        old(self).app,
                        slot.label@,
                        AuthorityConnectionState::Connecting,
                        connecting_text(slot.label@),
                        final(self).app,
                    )
                    &&& final(self).ssh@ == with_activating(old(self).ssh@, i as int, true)
                    &&& r == (true, prompted)
                }
            }),
    {
        let label = self.ssh[i].label.clone();
        let k: usize = self.app.find_ssh(&label);
        let granted = k < self.app.ssh_authorities.len() && self.app.ssh_authorities[k].base.trust
            == AuthorityTrust::ExecutionGranted;
        if !granted {
            return (false, prompted);
        }
        if !self.ssh[i].passphrase_required {
            self.tell_connecting(&label);
            self.set_activating(i, true);
            return (true, prompted);
        }
        let asks = !prompted && match self.app.current_ssh_authority_label() {
            Some(selected) => selected == label,
            None => false,
        };
        let text = join3("SSH authority ", label.as_str(), " requires its key passphrase.");
        let _ = self.app.set_authority_connection(
            &label,
            AuthorityConnectionState::Disconnected,
            text,
        );
        let ghost mid = self.app;
        assert(connection_told(
            old(self).app,
            label@,
            AuthorityConnectionState::Disconnected,
            "SSH authority "@ + label@ + " requires its key passphrase."@,
            mid,
        ));
        if asks {
            self.app.prompt_ssh_passphrase(label);
        }
        assert(mid.status == mid.status);
        (false, prompted || asks)
    }

    /// Takes the outcome of the activation of an SSH authority. One of an earlier
    /// epoch is not told.
    pub fn ssh_activated(
        &mut self,
        epoch: WorkspaceEpoch,
        label: String,
        result: Result<(), String>,
    ) -> (effects: Effects)
        requires
            old(self).app.wf(),
        ensures
            final(self).app.wf(),
            *final(self) == (EventLoop {
                app: final(self).app,
                ssh: final(self).ssh,
                ..*old(self)
            }),
            ({
                let i = slot_from(old(self).ssh@, label@, 0);
                final(self).ssh@ == if i < old(self).ssh@.len() {
                    with_activating(old(self).ssh@, i, false)
                } else {
                    old(self).ssh@
                }
            }),
            if epoch != old(self).app.epoch {
                final(self).app == old(self).app && effects == no_effects()
            } else {
                &&& match result {
                    Ok(_) => connection_told(
                        old(self).app,
                        label@,
                        AuthorityConnectionState::Connected,
                        "SSH authority "@ + label@ + " connected."@,
                        final(self).app,
                    ),
                    Err(error) => connection_told(
                        old(self).app,
                        label@,
                        AuthorityConnectionState::Disconnected,
                        "SSH authority "@ + label@ + " failed: "@ + error@,
                        final(self).app,
                    ),
                }
                &&& effects == Effects {
                    start_language_service: result is Ok && selected_ssh_label(
                        old(self).app,
                    ) is Some && selected_ssh_label(old(self).app)->0@ == label@,
                    ..no_effects()
                }
            },
    {
        let i: usize = self.find_slot(&label);
        if i < self.ssh.len() {
            self.set_activating(i, false);
        }
        if epoch != self.app.epoch {
            return Effects::none();
        }
        match result {
            Ok(_) => {
                let text = join3("SSH authority ", label.as_str(), " connected.");
                self.app.set_authority_connection(
                    &label,
                    AuthorityConnectionState::Connected,
                    text,
                )
            },
            Err(error) => {
                let text = join4("SSH authority ", label.as_str(), " failed: ", error.as_str());
                self.app.set_authority_connection(
                    &label,
                    AuthorityConnectionState::Disconnected,
                    text,
                )
            },
        }
    }

    fn save_request(&self, action: &Action) -> (data: Option<SaveRequestData>)
        ensures
            match data {
                Some(d) => asks_save(self.app, *action) && asked_save(self.app, *action, d),
                None => !asks_save(self.app, *action),
            },
    {
        match action {
            Action::Save => {
                let id = match self.app.current_doc {
                    Some(id) => id,
                    None => return None,
                };
                let i: usize = self.app.find_buffer(id);
                if i >= self.app.buffers.len() {
                    return None;
                }
                let buffer = &self.app.buffers[i];
                match buffer.path_state() {
                    BufferPathState::Saved(path) => Some(
                        SaveRequestData {
                            epoch: self.app.epoch,
                            doc_id: id,
                            revision: buffer.revision(),
                            path: path.clone(),
                            content: buffer.text(),
                        },
                    ),
                    _ => None,
                }
            },
            Action::SaveAsOverlayConfirm => match &self.app.overlay {
                Overlay::SaveAs { path, doc_id, .. } => {
                    let target = trim(path.as_str());
                    if target.as_str().unicode_len() == 0 {
                        return None;
                    }
                    let i: usize = self.app.find_buffer(*doc_id);
                    let (revision, content): (DocumentRevision, String) = if i
                        < self.app.buffers.len() {
                        (self.app.buffers[i].revision(), self.app.buffers[i].text())
                    } else {
                        (DocumentRevision(0), String::new())
                    };
                    Some(
                        SaveRequestData {
                            epoch: self.app.epoch,
                            doc_id: *doc_id,
                            revision,
                            path: target,
                            content,
                        },
                    )
                },
                _ => None,
            },
            _ => None,
        }
    }

    fn plan_save(&mut self, action: &Action) -> (save: Option<SaveRequestData>)
        ensures
            *final(self) == (EventLoop { saves: final(self).saves, ..*old(self) }),
            save_planned(*old(self), *action, final(self).saves, save),
    {
        match self.save_request(action) {
            Some(data) => {
                let ghost d = data;
                let save = self.saves.on_request(data);
                assert(asked_save(old(self).app, *action, d));
                save
            },
            None => None,
        }
    }

    fn plan_read(&mut self, action: &Action) -> (read: Option<(String, WorkspaceEpoch)>)
        ensures
            *final(self) == (EventLoop { files: final(self).files, ..*old(self) }),
            read_planned(*old(self), *action, final(self).files, read),
    {
        match action {
            Action::RequestProjectFile { path } => {
                let epoch = self.app.epoch;
                if self.files.on_request(path.clone(), epoch) {
                    Some((path.clone(), epoch))
                } else {
                    None
                }
            },
            _ => None,
        }
    }

    fn follow_passphrase(&mut self) -> (activate: Option<(String, Option<Secret>)>)
        requires
            old(self).app.wf(),
        ensures
            final(self).app.wf(),
            *final(self) == (EventLoop {
                app: final(self).app,
                ssh: final(self).ssh,
                ..*old(self)
            }),
            passphrase_followed(
                old(self).app,
                old(self).ssh@,
                final(self).app,
                final(self).ssh@,
                activate,
            ),
    {
        let (label, passphrase): (String, Secret) = match self.app.take_submitted_ssh_passphrase() {
            Some(taken) => taken,
            None => return None,
        };
        let i: usize = self.find_slot(&label);
        if i < self.ssh.len() && !self.ssh[i].activating {
            self.tell_connecting(&label);
            self.set_activating(i, true);
            Some((label, Some(passphrase)))
        } else {
            None
        }
    }

    fn follow_revocation(&mut self, label: Option<String>) -> (disconnect: Option<(String, bool)>)
        requires
            old(self).app.wf(),
        ensures
            final(self).app.wf(),
            *final(self) == (EventLoop {
                app: final(self).app,
                ssh: final(self).ssh,
                ..*old(self)
            }),
            revocation_followed(
                label,
                old(self).app,
                old(self).ssh@,
                final(self).app,
                final(self).ssh@,
                disconnect,
            ),
    {
        let label = match label {
            Some(label) => label,
            None => return None,
        };
        let text = join3("SSH authority ", label.as_str(), " disconnected.");
        let _ = self.app.set_authority_connection(
            &label,
            AuthorityConnectionState::Disconnected,
            text,
        );
        let i: usize = self.find_slot(&label);
        if i < self.ssh.len() {
            let activating = self.ssh[i].activating;
            self.set_activating(i, false);
            Some((label, activating))
        } else {
            None
        }
    }

    fn follow_selection(&mut self) -> (activate: Option<(String, Option<Secret>)>)
        requires
            old(self).app.wf(),
        ensures
            final(self).app.wf(),
            *final(self) == (EventLoop {
                app: final(self).app,
                ssh: final(self).ssh,
                ..*old(self)
            }),
            selection_followed(
                old(self).app,
                old(self).ssh@,
                final(self).app,
                final(self).ssh@,
                activate,
            ),
    {
        if self.app.current_trust() != TrustLevel::Trusted {
            return None;
        }
        let label = match self.app.current_ssh_authority_label() {
            Some(label) => label,
            None => return None,
        };
        let i: usize = self.find_slot(&label);
        if i >= self.ssh.len() || self.ssh[i].activating {
            return None;
        }
        let k: usize = self.app.find_ssh(&label);
        if k < self.app.ssh_authorities.len() && self.app.ssh_authorities[k].is_connected() {
            return None;
        }
        if self.ssh[i].passphrase_required {
            self.app.prompt_ssh_passphrase(label);
            None
        } else {
            self.tell_connecting(&label);
            self.set_activating(i, true);
            Some((label, None))
        }
    }

    /// Does an action, and says what is to be started for it.
    pub fn act(&mut self, action: Action) -> (step: LoopStep)
        requires
            old(self).app.wf(),
            old(self).app.editable(),
            action_fits(old(self).app, action),
        ensures
            final(self).app.wf(),
            acted(*old(self), action, *final(self), step),
    {
        let mut step = LoopStep::nothing();
        let quits = match &action {
            Action::Quit => true,
            _ => false,
        };
        if quits {
            step.quit = true;
            return step;
        }
        let ghost asked = action;
        step.save = self.plan_save(&action);
        step.read = self.plan_read(&action);
        let opens_terminal = match &action {
            Action::OpenTerminal => true,
            _ => false,
        };
        let submits = match &action {
            Action::SshPassphraseSubmit => true,
            _ => false,
        };
        let revokes = match &action {
            Action::RevokeTrust => true,
            _ => false,
        };
        let selects = match &action {
            Action::GrantTrust => true,
            Action::CycleAuthority => true,
            _ => false,
        };
        let label = self.app.current_ssh_authority_label();
        step.effects = self.app.apply_action(action);
        let ghost mid = self.app;
        if opens_terminal {
            step.terminal = self.next_terminal();
        }
        if submits {
            step.activate = self.follow_passphrase();
        }
        if revokes {
            step.disconnect = self.follow_revocation(label);
        }
        if selects {
            step.activate = self.follow_selection();
        }
        assert(acted_through(*old(self), asked, mid, *self, step));
        step
    }
}

/// While one terminal is being started, no other is.
pub proof fn terminals_start_one_at_a_time(
    before: EventLoop,
    action: Action,
    after: EventLoop,
    step: LoopStep,
)
    requires
        acted(before, action, after, step),
        before.terminal_launch_in_flight,
    ensures
        step.terminal is None,
        after.terminal_launch_in_flight,
{
    if action != Action::Quit {
        let mid = choose|mid: App| #[trigger] acted_through(before, action, mid, after, step);
        assert(acted_through(before, action, mid, after, step));
    }
}

proof fn lemma_ssh_state_from(states: Seq<AuthorityState>, label: Seq<char>, i: int)
    requires
        0 <= i <= states.len(),
    ensures
        i <= ssh_state_from(states, label, i) <= states.len(),
    decreases states.len() - i,
{
    if i < states.len() {
        lemma_ssh_state_from(states, label, i + 1);
    }
}

/// An SSH authority is activated only while it is trusted or with a passphrase that
/// was typed for it, and not while it is being activated.
pub proof fn activations_are_asked_for(
    before: EventLoop,
    action: Action,
    after: EventLoop,
    step: LoopStep,
)
    requires
        acted(before, action, after, step),
        step.activate is Some,
    ensures
        action == Action::SshPassphraseSubmit || trust_of(after.app) == TrustLevel::Trusted,
        ({
            let i = slot_from(before.ssh@, (step.activate->0).0@, 0);
            i < before.ssh@.len() && !before.ssh@[i].activating
        }),
{
    let mid = choose|mid: App| #[trigger] acted_through(before, action, mid, after, step);
    assert(acted_through(before, action, mid, after, step));
    if action != Action::SshPassphraseSubmit {
        lemma_ssh_state_from(mid.authorities@, selected_ssh_label(mid)->0@, 0);
    }
}

/// Saving writes the text that is shown, as it is, to the file of its document and for
/// the revision that it is at: at once, or, while a save of the same document is in
/// flight, in place of any other that waits. The text itself does not change.
pub proof fn saving_writes_the_text_shown(
    before: EventLoop,
    after: EventLoop,
    step: LoopStep,
    i: int,
    path: String,
)
    requires
        acted(before, Action::Save, after, step),
        is_shown(before.app, i),
        before.app.buffers@[i]@.path_state == BufferPathState::Saved(path),
    ensures
        ({
            let b = before.app.buffers@[i]@;
            let asked = SaveRequestData {
                epoch: before.app.epoch,
                doc_id: b.id,
                revision: b.revision,
                path,
                content: if step.save is Some {
                    (step.save->0).content
                } else {
                    after.saves@.pending[b.id.0].content
                },
            };
            &&& asked.content@ == b.text
            &&& !before.saves@.in_flight.dom().contains(b.id.0) ==> step.save == Some(asked)
                && after.saves@.in_flight.dom().contains(b.id.0)
            &&& before.saves@.in_flight.dom().contains(b.id.0) ==> step.save is None
                && after.saves@.pending.dom().contains(b.id.0) && after.saves@.pending[b.id.0]
                == asked
        }),
        after.app.buffers == before.app.buffers,
{
    let mid = choose|mid: App| #[trigger] acted_through(before, Action::Save, mid, after, step);
    assert(acted_through(before, Action::Save, mid, after, step));
    lemma_shown(before.app, i);
    let data = choose|data: SaveRequestData| #[trigger]
        asked_save(before.app, Action::Save, data) && (after.saves@, step.save) == save_requested(
            before.saves@,
            data,
        );
    assert(asked_save(before.app, Action::Save, data));
}

/// Saving under a path that was typed writes the text of the document that it was asked
/// for to that path, the white space around it apart; without a path nothing is saved.
pub proof fn saving_under_a_path_writes_the_document(
    before: EventLoop,
    after: EventLoop,
    step: LoopStep,
    i: int,
    typed: String,
)
    requires
        acted(before, Action::SaveAsOverlayConfirm, after, step),
        before.app.overlay matches Overlay::SaveAs { path, doc_id, .. } && path == typed && doc_id
            == before.app.buffers@[i]@.id,
        0 <= i < before.app.buffers@.len(),
        forall|j: int|
            0 <= j < i ==> (#[trigger] before.app.buffers@[j])@.id
                != before.app.buffers@[i]@.id,
        !before.saves@.in_flight.dom().contains(before.app.buffers@[i]@.id.0),
    ensures
        trimmed(typed@).len() == 0 ==> step.save is None,
        trimmed(typed@).len() > 0 ==> (step.save matches Some(data) && data.path@ == trimmed(typed@)
            && data.content@ == before.app.buffers@[i]@.text && data.revision
            == before.app.buffers@[i]@.revision && data.doc_id == before.app.buffers@[i]@.id),
        after.app.buffers == before.app.buffers,
{
    let action = Action::SaveAsOverlayConfirm;
    let mid = choose|mid: App| #[trigger] acted_through(before, action, mid, after, step);
    assert(acted_through(before, action, mid, after, step));
    lemma_buffer_from(before.app.buffers@, before.app.buffers@[i]@.id, 0);
    if trimmed(typed@).len() > 0 {
        let data = choose|data: SaveRequestData| #[trigger]
            asked_save(before.app, action, data) && (after.saves@, step.save) == save_requested(
                before.saves@,
                data,
            );
        assert(asked_save(before.app, action, data));
    }
}

/// No other action saves anything.
pub proof fn nothing_else_saves(
    before: EventLoop,
    action: Action,
    after: EventLoop,
    step: LoopStep,
)
    requires
        acted(before, action, after, step),
        action != Action::Save,
        action != Action::SaveAsOverlayConfirm,
    ensures
        step.save is None,
        after.saves@ == before.saves@,
{
    if action != Action::Quit {
        let mid = choose|mid: App| #[trigger] acted_through(before, action, mid, after, step);
        assert(acted_through(before, action, mid, after, step));
    }
}

/// A file of the project is read as it was asked for: at once where none is being read,
/// else it waits in place of any other that waits.
pub proof fn asked_files_are_read(
    before: EventLoop,
    path: String,
    after: EventLoop,
    step: LoopStep,
)
    requires
        acted(before, Action::RequestProjectFile { path }, after, step),
    ensures
        before.files.in_flight is None ==> step.read == Some((path, before.app.epoch))
            && after.files.in_flight == Some((path, before.app.epoch)),
        before.files.in_flight is Some ==> step.read is None && after.files.pending == Some(
            (path, before.app.epoch),
        ) && after.files.in_flight == before.files.in_flight,
{
    let action = Action::RequestProjectFile { path };
    let mid = choose|mid: App| #[trigger] acted_through(before, action, mid, after, step);
    assert(acted_through(before, action, mid, after, step));
}

/// A file that was read and that is waited for is shown with what was read; one that
/// nobody waits for changes nothing. The file that waits is read next.
pub proof fn awaited_files_are_shown(
    before: EventLoop,
    path: String,
    content: String,
    after: EventLoop,
    effects: Effects,
    read: Option<(String, WorkspaceEpoch)>,
)
    requires
        file_read(before, path, Some(content), before.app.epoch, after, effects, read),
        before.app.layout.tabs().editor_tabs.len() < usize::MAX,
    ensures
        before.files.in_flight == Some((path, before.app.epoch)) ==> {
            &&& after.app.current_doc is Some
            &&& after.app.focus == Landmark::Editor
            &&& (forall|i: int|
                0 <= i < before.app.buffers@.len() ==> !has_file(
                    (#[trigger] before.app.buffers@[i])@,
                    path@,
                )) ==> after.app.buffers@.last()@.text == content@
            &&& before.files.pending matches Some(next) ==> (next.1 == before.app.epoch ==> read
                == Some(next) && after.files.in_flight == Some(next))
            &&& before.files.pending is None ==> read is None && after.files.in_flight is None
        },
        before.files.in_flight is None ==> after.app == before.app,
{
    if before.files.in_flight == Some((path, before.app.epoch)) {
        read_files_are_shown(before.app, path, content, after.app, effects);
    }
}

/// The text that is highlighted is the one that is shown, at its revision, and one at a
/// time: nothing is started while another is in flight or its highlights are held.
pub proof fn highlighting_takes_the_text_shown(
    before: EventLoop,
    after: EventLoop,
    request: Option<SyntaxRequest>,
    i: int,
)
    requires
        syntax_dispatched(before, after, request),
        is_shown(before.app, i),
    ensures
        ({
            let b = before.app.buffers@[i]@;
            let held = before.app.syntax.highlights@.contains_key(b.id.0)
                && before.app.syntax.highlights@[b.id.0].0 == b.revision;
            &&& before.syntax.in_flight is Some || held ==> request is None && after.syntax
                == before.syntax
            &&& before.syntax.in_flight is None && !held ==> (request matches Some(r)
                && r.new_text@ == b.text && r.revision == b.revision && r.doc_id == b.id
                && r.language == b.language && r.epoch == before.app.epoch)
                && after.syntax.in_flight == Some((b.id, b.revision))
        }),
        after.app == before.app,
{
    lemma_shown(before.app, i);
}

/// A passphrase that was typed goes to the activation of the authority that it was
/// typed for, and to nothing else: it is not kept afterwards.
pub proof fn passphrases_reach_their_authority(
    before: EventLoop,
    after: EventLoop,
    step: LoopStep,
    label: String,
    passphrase: Secret,
    invoker: Landmark,
    i: int,
)
    requires
        acted(before, Action::SshPassphraseSubmit, after, step),
        before.app.overlay == (Overlay::SshPassphrase {
            authority_label: label,
            passphrase,
            invoker,
        }),
        0 <= i < before.ssh@.len(),
        before.ssh@[i].label@ == label@,
        forall|j: int| 0 <= j < i ==> (#[trigger] before.ssh@[j]).label@ != label@,
    ensures
        after.app.submitted_ssh_passphrase is None,
        after.app.overlay is Closed,
        before.ssh@[i].activating ==> step.activate is None,
        !before.ssh@[i].activating ==> step.activate == Some((label, Some(passphrase)))
            && after.ssh@[i].activating,
        forall|j: int|
            0 <= j < before.ssh@.len() && j != i ==> #[trigger] after.ssh@[j] == before.ssh@[j],
{
    let action = Action::SshPassphraseSubmit;
    let mid = choose|mid: App| #[trigger] acted_through(before, action, mid, after, step);
    assert(acted_through(before, action, mid, after, step));
    lemma_slot_at(before.ssh@, label@, i, 0);
}

proof fn lemma_slot_at(slots: Seq<SshSlot>, label: Seq<char>, at: int, i: int)
    requires
        0 <= i <= at < slots.len(),
        slots[at].label@ == label,
        forall|j: int| 0 <= j < at ==> (#[trigger] slots[j]).label@ != label,
    ensures
        slot_from(slots, label, i) == at,
    decreases at - i,
{
    if i < at {
        assert(slots[i].label@ != label);
        lemma_slot_at(slots, label, at, i + 1);
    }
}

/// Revoking trust in an authority that is reached over SSH disconnects that one, and no
/// other, and gives up its activation.
pub proof fn revoking_disconnects(
    before: EventLoop,
    after: EventLoop,
    step: LoopStep,
    label: String,
    i: int,
)
    requires
        acted(before, Action::RevokeTrust, after, step),
        selected_ssh_label(before.app) == Some(label),
        0 <= i < before.ssh@.len(),
        before.ssh@[i].label@ == label@,
        forall|j: int| 0 <= j < i ==> (#[trigger] before.ssh@[j]).label@ != label@,
    ensures
        step.disconnect == Some((label, before.ssh@[i].activating)),
        !after.ssh@[i].activating,
        step.activate is None,
        forall|j: int|
            0 <= j < before.ssh@.len() && j != i ==> #[trigger] after.ssh@[j] == before.ssh@[j],
{
    let action = Action::RevokeTrust;
    let mid = choose|mid: App| #[trigger] acted_through(before, action, mid, after, step);
    assert(acted_through(before, action, mid, after, step));
    lemma_slot_at(before.ssh@, label@, i, 0);
}

/// To quit is to end the run, and no other action ends it.
pub proof fn only_quitting_ends_the_run(
    before: EventLoop,
    action: Action,
    after: EventLoop,
    step: LoopStep,
)
    requires
        acted(before, action, after, step),
    ensures
        step.quit <==> action == Action::Quit,
        step.quit ==> after == before,
{
    if action != Action::Quit {
        let mid = choose|mid: App| #[trigger] acted_through(before, action, mid, after, step);
        assert(acted_through(before, action, mid, after, step));
    }
}

/// The highlights that come for the text that a document has now are kept with it, with
/// their revision, and nothing else changes; those for an older text or of an earlier
/// workspace are dropped.
pub proof fn highlights_are_kept_for_the_text(
    before: App,
    doc_id: DocumentId,
    revision: DocumentRevision,
    epoch: WorkspaceEpoch,
    spans: Vec<HighlightSpan>,
    has_tree: bool,
    source: String,
    after: App,
)
    requires
        syntax_taken(before, doc_id, revision, epoch, spans, has_tree, source, after),
    ensures
        epoch != before.epoch ==> after == before,
        !has_buffer(before, doc_id) ==> after == before,
        has_buffer(before, doc_id) && epoch == before.epoch && before.buffers@[buffer_at(
            before,
            doc_id,
        )]@.revision == revision ==> after.syntax.highlights@.contains_key(doc_id.0)
            && after.syntax.highlights@[doc_id.0] == (revision, spans)
            && after.syntax.retained@[doc_id.0] == (revision, has_tree, source),
        has_buffer(before, doc_id) && before.buffers@[buffer_at(before, doc_id)]@.revision
            != revision ==> after == before,
        forall|other: u128|
            other != doc_id.0 ==> #[trigger] after.syntax.highlights@.contains_key(other)
                == before.syntax.highlights@.contains_key(other) && (
            before.syntax.highlights@.contains_key(other) ==> after.syntax.highlights@[other]
                == before.syntax.highlights@[other]),
        after.buffers == before.buffers,
        after.layout == before.layout,
        after.status == before.status,
{
}

} // verus!
