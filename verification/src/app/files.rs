//! The project pane, opening files and saving them.
use vstd::prelude::*;

use super::editing::is_shown;
use super::status::StatusMessage;
use super::{
    buffer_at, has_buffer, lemma_buffer_from, no_effects, App, Effects, FollowUp, Overlay,
    PendingDefinition, ProjectTreeSnapshot,
};
use crate::buffer::{fresh_buffer, Buffer, BufferView};
use crate::document::{
    backing, language_of_path, BufferPathState, DocumentId, DocumentRevision, Language,
    WorkspaceEpoch,
};
use crate::layout::{
    current_tab, opened_documents_are_shown, tabs_with, tabs_with_current, EditorTabState,
    Landmark,
};
use crate::path::{path_equal, same_path};

verus! {

/// The row that is selected once there are so many entries.
pub open spec fn row_within(row: u16, entries: usize) -> u16 {
    if entries > 0 && row >= entries {
        (entries - 1) as u16
    } else {
        row
    }
}

fn keep_row(row: u16, entries: usize) -> (r: u16)
    ensures
        r == row_within(row, entries),
{
    if entries > 0 && row as usize >= entries {
        (entries - 1) as u16
    } else {
        row
    }
}

/// The row after the selection was moved: it stays within the entries.
pub open spec fn row_moved(row: u16, delta: i32, entries: usize) -> u16 {
    let wanted = row + delta;
    if wanted < 0 {
        0
    } else if wanted >= entries {
        (entries - 1) as u16
    } else {
        wanted as u16
    }
}

/// The project pane once a tree is there or is gone.
pub open spec fn project_updated(p: ProjectTreeSnapshot, tree: Option<usize>) -> ProjectTreeSnapshot {
    ProjectTreeSnapshot {
        tree,
        loading: false,
        selected_row: match tree {
            Some(n) => row_within(p.selected_row, n),
            None => p.selected_row,
        },
        ..p
    }
}

/// What became of the rows when a directory was opened or closed: where the entry
/// that was selected is now, where the directory is, and how many entries are
/// visible.
#[derive(Clone, Copy, Debug, PartialEq, Eq, Structural)]
pub struct Toggled {
    pub selection_row: Option<usize>,
    pub directory_row: Option<usize>,
    pub visible: usize,
}

/// The row that is selected after a directory was opened or closed: the entry that
/// was selected, else the directory, else a row that is still there.
pub open spec fn row_after_toggle(row: u16, t: Toggled) -> u16 {
    match (t.selection_row, t.directory_row) {
        (Some(r), _) => r as u16,
        (None, Some(r)) => r as u16,
        (None, None) => row_within(row, t.visible),
    }
}

/// Whether a buffer has the file of a path.
pub open spec fn has_file(b: BufferView, path: Seq<char>) -> bool {
    match backing(b.path_state) {
        Some(p) => path_equal(p@, path),
        None => false,
    }
}

/// The first buffer of a file, from index `i` on; the number of buffers if there is
/// none.
pub open spec fn file_buffer_from(buffers: Seq<Buffer>, path: Seq<char>, i: int) -> int
    decreases buffers.len() - i,
{
    if i >= buffers.len() {
        buffers.len() as int
    } else if has_file(buffers[i]@, path) {
        i
    } else {
        file_buffer_from(buffers, path, i + 1)
    }
}

/// Whether a definition waits for the file of a path.
pub open spec fn definition_waits(pending: Option<PendingDefinition>, path: Seq<char>) -> bool {
    pending is Some && path_equal(pending->0.path@, path)
}

/// A file that was read is shown: in the buffer that it has already, or in a new
/// one, which is clean.
pub open spec fn file_opened(
    before: App,
    path: String,
    content: Seq<char>,
    after: App,
    effects: Effects,
) -> bool {
    let i = file_buffer_from(before.buffers@, path@, 0);
    let waits = definition_waits(before.pending_definition, path@);
    &&& after == App {
        buffers: after.buffers,
        layout: after.layout,
        current_doc: after.current_doc,
        focus: Landmark::Editor,
        status: if i < before.buffers@.len() {
            StatusMessage::Focused(path)
        } else {
            StatusMessage::Opened(path)
        },
        pending_definition: if waits {
            None
        } else {
            before.pending_definition
        },
        ..before
    }
    &&& after.current_doc is Some
    &&& after.layout.geometry() == before.layout.geometry()
    &&& after.layout.tabs() == tabs_with(before.layout.tabs(), after.current_doc->0)
    &&& if i < before.buffers@.len() {
        after.buffers == before.buffers && after.current_doc->0 == before.buffers@[i]@.id
    } else {
        &&& after.buffers@ == before.buffers@.push(after.buffers@.last())
        &&& after.buffers@.last()@ == fresh_buffer(
            after.current_doc->0,
            language_of_path(path@),
            content,
            DocumentRevision(0),
            BufferPathState::Saved(path),
            false,
            Some(DocumentRevision(0)),
        )
    }
    &&& effects == Effects {
        follow_up: if waits {
            FollowUp::PlaceDefinition(before.pending_definition->0.range)
        } else {
            FollowUp::Nothing
        },
        ..no_effects()
    }
}

/// What becomes of a file that was read, or could not be.
pub open spec fn file_loaded(
    before: App,
    path: String,
    content: Option<String>,
    epoch: WorkspaceEpoch,
    after: App,
    effects: Effects,
) -> bool {
    if epoch != before.epoch {
        after == before && effects == no_effects()
    } else {
        match content {
            Some(text) => file_opened(before, path, text@, after, effects),
            None => after == App { status: StatusMessage::OpenFailed(path), ..before } && effects
                == no_effects(),
        }
    }
}

/// Whether a document has a file that it is saved to.
pub open spec fn has_saved_path(app: App, id: DocumentId) -> bool {
    exists|i: int|
        0 <= i < app.buffers@.len() && (#[trigger] app.buffers@[i])@.id == id
            && app.buffers@[i]@.path_state is Saved
}

/// What saving begins with: a prompt for a path where the document has no file of
/// its own.
pub open spec fn save_begun(before: App, after: App) -> bool {
    match before.current_doc {
        None => after == before,
        Some(id) => if has_saved_path(before, id) {
            after == App { status: StatusMessage::Saving, ..before }
        } else {
            &&& after == App {
                overlay: after.overlay,
                status: StatusMessage::SaveAsPrompt,
                ..before
            }
            &&& after.overlay matches Overlay::SaveAs { path, invoker, doc_id } && path@.len() == 0
                && invoker == before.focus && doc_id == id
        },
    }
}

/// What a finished save does: only the text of the current revision makes the
/// buffer clean and gives it its file.
pub open spec fn save_finished(
    before: App,
    doc_id: DocumentId,
    revision: DocumentRevision,
    path: String,
    success: bool,
    epoch: WorkspaceEpoch,
    after: App,
    effects: Effects,
) -> bool {
    let i = buffer_at(before, doc_id);
    if epoch != before.epoch || !has_buffer(before, doc_id) {
        after == before && effects == no_effects()
    } else if !success {
        after == App { status: StatusMessage::SaveFailed(path), ..before } && effects
            == no_effects()
    } else if before.buffers@[i]@.revision != revision {
        after == App { status: StatusMessage::SaveStale, ..before } && effects == no_effects()
    } else {
        &&& after == App {
            buffers: after.buffers,
            status: StatusMessage::Saved(path),
            ..before
        }
        &&& after.buffers@ == before.buffers@.update(i, after.buffers@[i])
        &&& after.buffers@[i]@ == BufferView {
            dirty: false,
            last_checkpointed_revision: Some(revision),
            path_state: BufferPathState::Saved(path),
            ..before.buffers@[i]@
        }
        &&& effects == Effects { ack_save: Some((doc_id, revision)), ..no_effects() }
    }
}

/// A save of another revision than the current one leaves the document dirty, with
/// the file that it had.
pub proof fn stale_saves_leave_documents_dirty(
    before: App,
    doc_id: DocumentId,
    revision: DocumentRevision,
    path: String,
    success: bool,
    epoch: WorkspaceEpoch,
    after: App,
    effects: Effects,
)
    requires
        save_finished(before, doc_id, revision, path, success, epoch, after, effects),
        has_buffer(before, doc_id),
        before.buffers@[buffer_at(before, doc_id)]@.revision != revision || !success,
    ensures
        after.buffers == before.buffers,
        effects.ack_save is None,
{
}

impl App {
    /// Takes note of the project tree, unless it is of another epoch.
    pub fn update_project(&mut self, tree: Option<usize>, epoch: WorkspaceEpoch)
        ensures
            *final(self) == if epoch == old(self).epoch {
                App { project: project_updated(old(self).project, tree), ..*old(self) }
            } else {
                *old(self)
            },
    {
        if epoch != self.epoch {
            return ;
        }
        self.project.tree = tree;
        self.project.loading = false;
        if let Some(n) = tree {
            self.project.selected_row = keep_row(self.project.selected_row, n);
        }
    }

    /// Moves the selection of the project pane.
    pub fn move_project_selection(&mut self, delta: i32)
        requires
            old(self).wf(),
            i32::MIN <= old(self).project.selected_row + delta <= i32::MAX,
        ensures
            final(self).wf(),
            *final(self) == match old(self).project.tree {
                Some(n) => if n > 0 {
                    App {
                        project: ProjectTreeSnapshot {
                            selected_row: row_moved(old(self).project.selected_row, delta, n),
                            ..old(self).project
                        },
                        ..*old(self)
                    }
                } else {
                    *old(self)
                },
                None => *old(self),
            },
    {
        if let Some(n) = self.project.tree {
            if n > 0 {
                let wanted: i32 = self.project.selected_row as i32 + delta;
                let row: i32 = if wanted < 0 {
                    0
                } else if wanted >= n as i32 {
                    (n - 1) as i32
                } else {
                    wanted
                };
                self.project.selected_row = #[verifier::truncate]
                (row as u16);
            }
        }
    }

    /// Takes note that a directory was opened or closed. The selection stays on its
    /// entry if that is still visible.
    pub fn project_dir_toggled(&mut self, t: Toggled)
        requires
            t.visible <= i32::MAX,
        ensures
            *final(self) == if old(self).project.tree is Some {
                App {
                    project: ProjectTreeSnapshot {
                        tree: Some(t.visible),
                        selected_row: row_after_toggle(old(self).project.selected_row, t),
                        ..old(self).project
                    },
                    ..*old(self)
                }
            } else {
                *old(self)
            },
    {
        if self.project.tree.is_some() {
            self.project.selected_row = match t.selection_row {
                Some(r) => #[verifier::truncate]
                (r as u16),
                None => match t.directory_row {
                    Some(r) => #[verifier::truncate]
                    (r as u16),
                    None => keep_row(self.project.selected_row, t.visible),
                },
            };
            self.project.tree = Some(t.visible);
        }
    }

    fn find_file(&self, path: &String) -> (i: usize)
        ensures
            i == file_buffer_from(self.buffers@, path@, 0),
            i <= self.buffers@.len(),
    {
        let mut i: usize = 0;
        while i < self.buffers.len()
            invariant
                i <= self.buffers@.len(),
                file_buffer_from(self.buffers@, path@, 0) == file_buffer_from(
                    self.buffers@,
                    path@,
                    i as int,
                ),
            decreases self.buffers@.len() - i,
        {
            let same = match self.buffers[i].path() {
                Some(p) => same_path(p.as_str(), path.as_str()),
                None => false,
            };
            if same {
                return i;
            }
            i += 1;
        }
        i
    }

    /// Shows a file that was read, or says that it could not be.
    pub fn project_file_loaded(
        &mut self,
        path: String,
        content: Option<String>,
        epoch: WorkspaceEpoch,
    ) -> (effects: Effects)
        requires
            old(self).wf(),
        ensures
            final(self).wf(),
            file_loaded(*old(self), path, content, epoch, *final(self), effects),
    {
        let mut effects = Effects::none();
        if epoch != self.epoch {
            return effects;
        }
        let text = match content {
            None => {
                self.status = StatusMessage::OpenFailed(path);
                return effects;
            },
            Some(text) => text,
        };
        let waits = match &self.pending_definition {
            Some(pending) => same_path(pending.path.as_str(), path.as_str()),
            None => false,
        };
        if waits {
            if let Some(pending) = self.pending_definition.take() {
                effects.follow_up = FollowUp::PlaceDefinition(pending.range);
            }
        }
        let i: usize = self.find_file(&path);
        let id: DocumentId = if i < self.buffers.len() {
            let id = self.buffers[i].id();
            self.status = StatusMessage::Focused(path);
            id
        } else {
            let id = DocumentId::new();
            let language = Language::from_path(path.as_str());
            let ghost buffers = self.buffers@;
            let buffer = Buffer::restore_clean(
                id,
                language,
                text.as_str(),
                DocumentRevision(0),
                BufferPathState::Saved(path.clone()),
            );
            self.buffers.push(buffer);
            assert(self.buffers@ =~= buffers.push(self.buffers@.last()));
            self.status = StatusMessage::Opened(path);
            id
        };
        self.layout.open_or_focus_editor(id);
        self.current_doc = Some(id);
        self.focus = Landmark::Editor;
        effects
    }

    /// Selects a definition in the document that was opened for it, if its place was
    /// found.
    pub fn place_definition(&mut self, span: Option<(usize, usize)>)
        requires
            old(self).wf(),
        ensures
            final(self).wf(),
            match span {
                Some((start, end)) => {
                    &&& *final(self) == (App {
                        layout: final(self).layout,
                        status: StatusMessage::DefinitionOpened,
                        ..*old(self)
                    })
                    &&& final(self).layout.geometry() == old(self).layout.geometry()
                    &&& final(self).layout.tabs() == tabs_with_current(
                        old(self).layout.tabs(),
                        (EditorTabState {
                            cursor_byte: end,
                            selection_anchor: Some(start),
                            ..current_tab(old(self).layout.tabs())
                        }),
                    )
                },
                None => *final(self) == *old(self),
            },
    {
        if let Some((start, end)) = span {
            self.layout.set_editor_selection(start, end);
            self.status = StatusMessage::DefinitionOpened;
        }
    }

    /// The file of a definition that is to be opened, once.
    pub fn take_pending_definition_open(&mut self) -> (path: Option<String>)
        ensures
            path == old(self).pending_definition_open,
            *final(self) == (App { pending_definition_open: None, ..*old(self) }),
    {
        self.pending_definition_open.take()
    }

    fn is_saved(&self, id: DocumentId) -> (yes: bool)
        ensures
            yes == has_saved_path(*self, id),
    {
        for i in 0..self.buffers.len()
            invariant
                forall|j: int|
                    0 <= j < i ==> !((#[trigger] self.buffers@[j])@.id == id
                        && self.buffers@[j]@.path_state is Saved),
        {
            let saved = match self.buffers[i].path_state() {
                BufferPathState::Saved(_) => true,
                _ => false,
            };
            if self.buffers[i].id() == id && saved {
                return true;
            }
        }
        false
    }

    /// Begins to save the document that is shown.
    pub fn begin_save(&mut self)
        requires
            old(self).wf(),
        ensures
            final(self).wf(),
            save_begun(*old(self), *final(self)),
    {
        if let Some(id) = self.current_doc {
            if self.is_saved(id) {
                self.status = StatusMessage::Saving;
            } else {
                self.overlay = Overlay::SaveAs {
                    path: String::new(),
                    invoker: self.focus,
                    doc_id: id,
                };
                self.status = StatusMessage::SaveAsPrompt;
            }
        }
    }

    /// Takes note that a save is finished.
    pub fn save_completed(
        &mut self,
        doc_id: DocumentId,
        revision: DocumentRevision,
        path: String,
        success: bool,
        epoch: WorkspaceEpoch,
    ) -> (effects: Effects)
        requires
            old(self).wf(),
        ensures
            final(self).wf(),
            save_finished(
                *old(self),
                doc_id,
                revision,
                path,
                success,
                epoch,
                *final(self),
                effects,
            ),
    {
        let mut effects = Effects::none();
        if epoch != self.epoch {
            return effects;
        }
        let i: usize = self.find_buffer(doc_id);
        if i >= self.buffers.len() {
            return effects;
        }
        if !success {
            self.status = StatusMessage::SaveFailed(path);
        } else if self.buffers[i].revision() != revision {
            self.status = StatusMessage::SaveStale;
        } else {
            let ghost buffers = self.buffers@;
            self.buffers[i].mark_clean(revision);
            self.buffers[i].set_path_state(BufferPathState::Saved(path.clone()));
            assert(self.buffers@ =~= buffers.update(i as int, self.buffers@[i as int]));
            self.status = StatusMessage::Saved(path);
            effects.ack_save = Some((doc_id, revision));
        }
        effects
    }
}

/// A file that was read is shown: the active tab is its document, which has the file.
/// A document that was open already keeps its text, saved or not; a new one has the
/// text that was read and is clean. No document is closed or changed.
pub proof fn read_files_are_shown(
    before: App,
    path: String,
    content: String,
    after: App,
    effects: Effects,
)
    requires
        file_loaded(before, path, Some(content), before.epoch, after, effects),
        before.layout.tabs().editor_tabs.len() < usize::MAX,
    ensures
        after.focus == Landmark::Editor,
        after.current_doc == Some(
            after.layout.tabs().editor_tabs[after.layout.tabs().active_editor_tab as int].doc_id,
        ),
        forall|i: int|
            0 <= i < before.buffers@.len() ==> #[trigger] after.buffers@[i] == before.buffers@[i],
        (exists|i: int|
            0 <= i < before.buffers@.len() && has_file((#[trigger] before.buffers@[i])@, path@))
            ==> after.buffers@.len() == before.buffers@.len() && exists|i: int|
            0 <= i < before.buffers@.len() && has_file((#[trigger] before.buffers@[i])@, path@)
                && after.current_doc == Some(before.buffers@[i]@.id),
        (forall|i: int|
            0 <= i < before.buffers@.len() ==> !has_file((#[trigger] before.buffers@[i])@, path@))
            ==> after.buffers@.len() == before.buffers@.len() + 1 && after.buffers@.last()@.text
            == content@ && !after.buffers@.last()@.dirty && after.buffers@.last()@.path_state
            == BufferPathState::Saved(path) && after.current_doc == Some(
            after.buffers@.last()@.id,
        ),
{
    lemma_file_buffer(before.buffers@, path@, 0);
    opened_documents_are_shown(before.layout.tabs(), after.current_doc->0);
    let i = file_buffer_from(before.buffers@, path@, 0);
    if i < before.buffers@.len() {
        assert(has_file(before.buffers@[i]@, path@));
    }
}

proof fn lemma_file_buffer(buffers: Seq<Buffer>, path: Seq<char>, i: int)
    requires
        0 <= i <= buffers.len(),
    ensures
        i <= file_buffer_from(buffers, path, i) <= buffers.len(),
        file_buffer_from(buffers, path, i) < buffers.len() ==> has_file(
            buffers[file_buffer_from(buffers, path, i)]@,
            path,
        ),
        forall|j: int|
            i <= j < file_buffer_from(buffers, path, i) ==> !has_file((#[trigger] buffers[j])@, path),
    decreases buffers.len() - i,
{
    if i < buffers.len() && !has_file(buffers[i]@, path) {
        lemma_file_buffer(buffers, path, i + 1);
    }
}

/// A save that succeeded for the revision that a document is at makes it clean and gives
/// it the file that it was saved to, and the journal is told of exactly that revision;
/// its text, its revision and the other documents stay. A save that failed or that was
/// of another revision changes no document.
pub proof fn saves_clean_the_saved_revision(
    before: App,
    doc_id: DocumentId,
    revision: DocumentRevision,
    path: String,
    success: bool,
    after: App,
    effects: Effects,
    i: int,
)
    requires
        save_finished(before, doc_id, revision, path, success, before.epoch, after, effects),
        0 <= i < before.buffers@.len(),
        before.buffers@[i]@.id == doc_id,
        forall|j: int| 0 <= j < i ==> (#[trigger] before.buffers@[j])@.id != doc_id,
    ensures
        success && before.buffers@[i]@.revision == revision ==> {
            &&& !after.buffers@[i]@.dirty
            &&& after.buffers@[i]@.text == before.buffers@[i]@.text
            &&& after.buffers@[i]@.revision == before.buffers@[i]@.revision
            &&& after.buffers@[i]@.path_state == BufferPathState::Saved(path)
            &&& effects.ack_save == Some((doc_id, revision))
        },
        !success || before.buffers@[i]@.revision != revision ==> after.buffers == before.buffers
            && effects.ack_save is None,
        forall|j: int|
            0 <= j < before.buffers@.len() && j != i ==> #[trigger] after.buffers@[j]
                == before.buffers@[j],
{
    lemma_buffer_from(before.buffers@, doc_id, 0);
}

/// Saving asks for a path exactly where the document that is shown has no file of its
/// own; nothing is changed by it but what is shown.
pub proof fn saving_asks_for_a_missing_path(before: App, after: App, i: int)
    requires
        save_begun(before, after),
        is_shown(before, i),
        forall|j: int|
            0 <= j < before.buffers@.len() && (#[trigger] before.buffers@[j])@.id
                == before.buffers@[i]@.id ==> j == i,
    ensures
        before.buffers@[i]@.path_state is Saved ==> after.overlay == before.overlay,
        !(before.buffers@[i]@.path_state is Saved) ==> (after.overlay matches Overlay::SaveAs {
            path,
            doc_id,
            invoker,
        } && path@.len() == 0 && doc_id == before.buffers@[i]@.id && invoker == before.focus),
        after.buffers == before.buffers,
        after.layout == before.layout,
        after.focus == before.focus,
{
}

/// The selected row stays among the entries: it moves by as many rows as it is told to,
/// and no further than the first and the last.
pub proof fn rows_move_as_told(row: u16, delta: i32, entries: usize)
    requires
        0 < entries <= 65536,
        row < entries,
    ensures
        row_moved(row, delta, entries) < entries,
        0 <= row + delta < entries ==> row_moved(row, delta, entries) == row + delta,
        row + delta < 0 ==> row_moved(row, delta, entries) == 0,
        row + delta >= entries ==> row_moved(row, delta, entries) == entries - 1,
        row_within(row, entries) == row,
{
}

/// When a directory is opened or closed, the entry that was selected stays selected
/// where it is still visible, else the directory is; a tree that shrank keeps the
/// selection among its rows.
pub proof fn selections_follow_their_entry(row: u16, t: Toggled, entries: usize)
    requires
        0 < t.visible <= 65536,
        t.selection_row matches Some(r) ==> r < t.visible,
        t.directory_row matches Some(r) ==> r < t.visible,
        0 < entries <= 65536,
    ensures
        t.selection_row matches Some(r) ==> row_after_toggle(row, t) == r,
        t.selection_row is None ==> (t.directory_row matches Some(r) ==> row_after_toggle(row, t)
            == r),
        row_after_toggle(row, t) < t.visible,
        row_within(row, entries) < entries,
        row < entries ==> row_within(row, entries) == row,
{
}

} // verus!
