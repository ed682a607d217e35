//! What the user interface and the input mapping see of the workbench.
use vstd::prelude::*;

use super::overlay::item_text;
use super::services::{summary, total_count, ServiceLevel};
use super::status::{status_text, KindNames};
use super::{
    buffer_at, buffer_of, has_buffer, lemma_buffer_from, selected_authority, trust_of, App,
    AuthorityState, CompletionCandidate, Overlay, PaletteItem, ProblemDiagnostic, Problems, ProjectTreeSnapshot, PtySessionState,
    TrustLevel,
};
use crate::action::HighlightSpan;
use crate::buffer::BufferView;
use crate::document::{
    buffer_title, BufferPathState, DocumentId, DocumentRevision, Language, WorkspaceEpoch,
};
use crate::layout::{EditorTabState, Landmark, WorkbenchLayout};
use crate::protocol::lsp::LspPosition;
use crate::words::{join2, join3};

verus! {

/// An open tab with its document.
#[derive(Debug, PartialEq, Eq)]
pub struct EditorTabSnapshot {
    pub id: DocumentId,
    pub revision: DocumentRevision,
    pub title: String,
    pub path_label: String,
    pub language: Language,
    pub text: String,
    pub dirty: bool,
    pub cursor_byte: usize,
    pub selection: Option<(usize, usize)>,
    pub scroll_line: u16,
    /// The highlights of this revision, if they are held.
    pub highlights: Vec<HighlightSpan>,
}

/// Whether two tabs are the same.
pub open spec fn same_tab(a: EditorTabSnapshot, b: EditorTabSnapshot) -> bool {
    &&& a == EditorTabSnapshot { highlights: a.highlights, ..b }
    &&& a.highlights@ == b.highlights@
}

fn copy_spans(spans: &Vec<HighlightSpan>) -> (copy: Vec<HighlightSpan>)
    ensures
        copy@ == spans@,
{
    let mut copy: Vec<HighlightSpan> = Vec::new();
    for i in 0..spans.len()
        invariant
            copy@ == spans@.take(i as int),
    {
        copy.push(spans[i]);
        assert(spans@.take(i + 1) =~= spans@.take(i as int).push(spans@[i as int]));
    }
    assert(spans@.take(spans@.len() as int) =~= spans@);
    copy
}

impl Clone for EditorTabSnapshot {
    fn clone(&self) -> (copy: Self)
        ensures
            same_tab(copy, *self),
    {
        EditorTabSnapshot {
            title: self.title.clone(),
            path_label: self.path_label.clone(),
            text: self.text.clone(),
            highlights: copy_spans(&self.highlights),
            ..*self
        }
    }
}

#[derive(Debug, PartialEq, Eq)]
pub struct CompletionCandidateSnapshot {
    pub label: String,
    pub detail: Option<String>,
}

/// What is open on top. Of a passphrase only the length is seen.
#[derive(Debug, PartialEq, Eq)]
#[allow(inconsistent_fields)]
pub enum OverlaySnapshot {
    Closed,
    TrustReview {
        workspace_root: String,
        authority_label: String,
        trust: TrustLevel,
        capabilities: Vec<String>,
        focused_grant: bool,
        invoker: Landmark,
    },
    CommandPalette { query: String, items: Vec<String>, selected: usize, invoker: Landmark },
    SaveAs { path: String, invoker: Landmark },
    RenameInput { new_name: String, invoker: Landmark },
    SshPassphrase { authority_label: String, length: usize, invoker: Landmark },
    Completion {
        position: LspPosition,
        candidates: Vec<CompletionCandidateSnapshot>,
        selected: usize,
        invoker: Landmark,
    },
    Hover { document: String, invoker: Landmark },
}

#[derive(Debug, PartialEq, Eq)]
pub struct StatusSnapshot {
    pub view: String,
    pub branch: Option<String>,
    pub problems: usize,
    pub service: ServiceLevel,
    pub message: Option<String>,
    pub line: usize,
    pub column: usize,
}

#[derive(Clone, Copy, Debug, PartialEq, Eq, Structural)]
pub enum TerminalViewState {
    Absent,
    Starting,
    Running,
    Exited,
    Lost,
}

impl Default for TerminalViewState {
    fn default() -> (state: Self)
        ensures
            state == TerminalViewState::Absent,
    {
        TerminalViewState::Absent
    }
}

#[derive(Debug, PartialEq, Eq)]
pub struct TerminalSnapshot {
    pub state: TerminalViewState,
    pub captured: bool,
    pub authority_label: String,
}

pub struct AppSnapshot {
    pub epoch: WorkspaceEpoch,
    pub layout: WorkbenchLayout,
    pub focus: Landmark,
    pub overlay: OverlaySnapshot,
    pub authorities: Vec<AuthorityState>,
    pub current_authority_idx: usize,
    pub current_trust: TrustLevel,
    pub current_buffer: Option<EditorTabSnapshot>,
    pub open_editor_tabs: Vec<EditorTabSnapshot>,
    pub active_editor_tab: usize,
    pub project: ProjectTreeSnapshot,
    pub status: StatusSnapshot,
    pub terminal: TerminalSnapshot,
    pub journal_lagging: bool,
    pub workspace_root: String,
    pub workspace_name: String,
    pub diagnostics: Vec<ProblemDiagnostic>,
}

impl Clone for ProblemDiagnostic {
    fn clone(&self) -> (copy: Self)
        ensures
            copy == *self,
    {
        ProblemDiagnostic {
            uri: self.uri.clone(),
            message: self.message.clone(),
            source: match &self.source {
                Some(source) => Some(source.clone()),
                None => None,
            },
            ..*self
        }
    }
}

/// How the path of a document is shown.
pub open spec fn path_text(state: BufferPathState) -> Seq<char> {
    match state {
        BufferPathState::Saved(path) => path@,
        BufferPathState::Recovered { original } => "Recovered · "@ + original@,
        BufferPathState::Untitled { suggested_name } => "<"@ + suggested_name@ + ">"@,
    }
}

/// The highlights of a revision of a document: none unless they are held.
pub open spec fn highlights_of(app: App, id: DocumentId, revision: DocumentRevision) -> Seq<
    HighlightSpan,
> {
    if app.syntax.highlights@.contains_key(id.0) && app.syntax.highlights@[id.0].0 == revision {
        app.syntax.highlights@[id.0].1@
    } else {
        Seq::empty()
    }
}

/// What is seen of a tab whose document is open.
pub open spec fn is_tab_snapshot(
    app: App,
    tab: EditorTabState,
    b: BufferView,
    s: EditorTabSnapshot,
) -> bool {
    &&& s.id == tab.doc_id
    &&& s.revision == b.revision
    &&& s.title@ == buffer_title(b.path_state)
    &&& s.path_label@ == path_text(b.path_state)
    &&& s.language == b.language
    &&& s.text@ == b.text
    &&& s.dirty == b.dirty
    &&& s.cursor_byte == tab.cursor_byte
    &&& s.selection == match tab.selection_anchor {
        Some(anchor) => Some((anchor, tab.cursor_byte)),
        None => None,
    }
    &&& s.scroll_line == tab.scroll_line
    &&& s.highlights@ == highlights_of(app, tab.doc_id, b.revision)
}

/// Which of the first `k` tabs are seen: those whose documents are open.
pub open spec fn seen_tabs(app: App, k: int) -> Seq<int>
    decreases k,
{
    if k <= 0 {
        Seq::empty()
    } else if has_buffer(app, app.layout.editor_tabs@[k - 1].doc_id) {
        seen_tabs(app, k - 1).push(k - 1)
    } else {
        seen_tabs(app, k - 1)
    }
}

/// Whether the open tabs are seen, in their order.
pub open spec fn tabs_seen(app: App, k: int, open: Seq<EditorTabSnapshot>) -> bool {
    let seen = seen_tabs(app, k);
    &&& open.len() == seen.len()
    &&& forall|i: int|
        0 <= i < seen.len() ==> is_tab_snapshot(
            app,
            app.layout.editor_tabs@[#[trigger] seen[i]],
            buffer_of(app, app.layout.editor_tabs@[seen[i]].doc_id),
            open[i],
        )
}

/// The first tab of a document, from index `i` on; their number if there is none.
pub open spec fn seen_from(open: Seq<EditorTabSnapshot>, id: DocumentId, i: int) -> int
    decreases open.len() - i,
{
    if i >= open.len() {
        open.len() as int
    } else if open[i].id == id {
        i
    } else {
        seen_from(open, id, i + 1)
    }
}

/// Whether a tab is the one of the document that is shown.
pub open spec fn current_seen(
    app: App,
    open: Seq<EditorTabSnapshot>,
    current: Option<EditorTabSnapshot>,
) -> bool {
    match app.current_doc {
        Some(id) => {
            let i = seen_from(open, id, 0);
            if i < open.len() {
                current is Some && same_tab(current->0, open[i])
            } else {
                current is None
            }
        },
        None => current is None,
    }
}

/// What is seen of what is on top.
pub open spec fn overlay_seen(overlay: Overlay, current_trust: TrustLevel, s: OverlaySnapshot) -> bool {
    match overlay {
        Overlay::Closed => s == OverlaySnapshot::Closed,
        Overlay::TrustReview { focused_grant, invoker, workspace_root, authority_label } => {
            &&& s matches OverlaySnapshot::TrustReview {
                workspace_root: root,
                authority_label: label,
                trust,
                capabilities,
                focused_grant: focused,
                invoker: from,
            }
            &&& root == workspace_root
            &&& label == authority_label
            &&& trust == current_trust
            &&& capabilities@.len() == 3
            &&& capabilities@[0]@ == "execution"@
            &&& capabilities@[1]@ == "git"@
            &&& capabilities@[2]@ == "terminal"@
            &&& focused == focused_grant
            &&& from == invoker
        },
        Overlay::CommandPalette { query, items, selected, invoker } => {
            &&& s matches OverlaySnapshot::CommandPalette {
                query: q,
                items: lines,
                selected: at,
                invoker: from,
            }
            &&& q == query
            &&& lines@.len() == items@.len()
            &&& forall|i: int| 0 <= i < items@.len() ==> (#[trigger] lines@[i])@ == item_text(
                items@[i],
            )
            &&& at == selected
            &&& from == invoker
        },
        Overlay::SaveAs { path, invoker, .. } => s == (OverlaySnapshot::SaveAs { path, invoker }),
        Overlay::RenameInput { new_name, invoker, .. } => s == (OverlaySnapshot::RenameInput {
            new_name,
            invoker,
        }),
        Overlay::SshPassphrase { authority_label, passphrase, invoker } => s == (
        OverlaySnapshot::SshPassphrase {
            authority_label,
            length: passphrase@.len() as usize,
            invoker,
        }),
        Overlay::Completion { position, candidates, selected, invoker, .. } => {
            &&& s matches OverlaySnapshot::Completion {
                position: place,
                candidates: offers,
                selected: at,
                invoker: from,
            }
            &&& place == position
            &&& offers@ == candidates@.map_values(|c: CompletionCandidate| offer(c))
            &&& at == selected
            &&& from == invoker
        },
        Overlay::Hover { document, invoker } => s == (OverlaySnapshot::Hover {
            document,
            invoker,
        }),
    }
}

/// What is seen of a completion.
pub open spec fn offer(c: CompletionCandidate) -> CompletionCandidateSnapshot {
    CompletionCandidateSnapshot { label: c.label, detail: c.detail }
}

/// What is seen of the terminal: it takes what is typed only while it runs.
pub open spec fn terminal_seen(app: App, s: TerminalSnapshot) -> bool {
    &&& s.state == if app.terminal.starting {
        TerminalViewState::Starting
    } else {
        match app.terminal.session {
            Some(PtySessionState::Running) => TerminalViewState::Running,
            Some(PtySessionState::Exited) => TerminalViewState::Exited,
            Some(PtySessionState::Lost) => TerminalViewState::Lost,
            None => TerminalViewState::Absent,
        }
    }
    &&& s.captured == (app.terminal.capture && s.state == TerminalViewState::Running)
    &&& s.authority_label@ == match selected_authority(app) {
        Some(a) => a.label@,
        None => Seq::empty(),
    }
}

/// What is seen of the status line.
pub open spec fn status_seen(app: App, names: KindNames, s: StatusSnapshot) -> bool {
    let text = status_text(app.status, names);
    &&& s.view@ == "editor"@
    &&& s.branch is None
    &&& s.problems == total_count(app.services.counts@)
    &&& s.service == summary(app.services.states@)
    &&& if text.len() == 0 {
        s.message is None
    } else {
        s.message is Some && (s.message->0)@ == text
    }
    &&& s.line == 1
    &&& s.column == 1
}

/// The problems of all services, one after the other.
pub open spec fn all_problems(found: Seq<Problems>) -> Seq<ProblemDiagnostic>
    decreases found.len(),
{
    if found.len() == 0 {
        Seq::empty()
    } else {
        all_problems(found.drop_last()) + found.last().entries@
    }
}

/// What is seen of the workbench.
pub open spec fn is_snapshot(app: App, names: KindNames, s: AppSnapshot) -> bool {
    &&& s.epoch == app.epoch
    &&& s.layout.geometry() == app.layout.geometry()
    &&& s.layout.tabs() == app.layout.tabs()
    &&& s.focus == app.focus
    &&& overlay_seen(app.overlay, trust_of(app), s.overlay)
    &&& s.authorities@ == app.authorities@
    &&& s.current_authority_idx == app.current_authority
    &&& s.current_trust == trust_of(app)
    &&& current_seen(app, s.open_editor_tabs@, s.current_buffer)
    &&& tabs_seen(app, app.layout.editor_tabs@.len() as int, s.open_editor_tabs@)
    &&& s.active_editor_tab == app.layout.active_editor_tab
    &&& s.project == app.project
    &&& status_seen(app, names, s.status)
    &&& terminal_seen(app, s.terminal)
    &&& s.journal_lagging == (!app.journal.checkpoints@.is_empty()
        || !app.journal.compactions@.is_empty())
    &&& s.workspace_root == app.workspace_root
    &&& s.workspace_name == app.workspace_name
    &&& s.diagnostics@ == all_problems(app.services.diagnostics@)
}

fn path_label(state: &BufferPathState) -> (label: String)
    ensures
        label@ == path_text(*state),
{
    match state {
        BufferPathState::Saved(path) => path.clone(),
        BufferPathState::Recovered { original } => join2("Recovered · ", original.as_str()),
        BufferPathState::Untitled { suggested_name } => join3("<", suggested_name.as_str(), ">"),
    }
}

fn item_lines(items: &Vec<PaletteItem>) -> (lines: Vec<String>)
    ensures
        lines@.len() == items@.len(),
        forall|i: int| 0 <= i < items@.len() ==> (#[trigger] lines@[i])@ == item_text(items@[i]),
{
    let mut lines: Vec<String> = Vec::new();
    for i in 0..items.len()
        invariant
            lines@.len() == i,
            forall|j: int| 0 <= j < i ==> (#[trigger] lines@[j])@ == item_text(items@[j]),
    {
        lines.push(items[i].text().to_owned());
    }
    lines
}

fn offers(candidates: &Vec<CompletionCandidate>) -> (seen: Vec<CompletionCandidateSnapshot>)
    ensures
        seen@ == candidates@.map_values(|c: CompletionCandidate| offer(c)),
{
    let mut seen: Vec<CompletionCandidateSnapshot> = Vec::new();
    for i in 0..candidates.len()
        invariant
            seen@ == candidates@.take(i as int).map_values(|c: CompletionCandidate| offer(c)),
    {
        seen.push(
            CompletionCandidateSnapshot {
                label: candidates[i].label.clone(),
                detail: match &candidates[i].detail {
                    Some(detail) => Some(detail.clone()),
                    None => None,
                },
            },
        );
        assert(seen@ =~= candidates@.take(i + 1).map_values(|c: CompletionCandidate| offer(c)));
    }
    assert(candidates@.take(candidates@.len() as int) =~= candidates@);
    seen
}

fn see_overlay(overlay: &Overlay, trust: TrustLevel) -> (s: OverlaySnapshot)
    ensures
        overlay_seen(*overlay, trust, s),
{
    match overlay {
        Overlay::Closed => OverlaySnapshot::Closed,
        Overlay::TrustReview { focused_grant, invoker, workspace_root, authority_label } => {
            let mut capabilities: Vec<String> = Vec::new();
            capabilities.push("execution".to_owned());
            capabilities.push("git".to_owned());
            capabilities.push("terminal".to_owned());
            OverlaySnapshot::TrustReview {
                workspace_root: workspace_root.clone(),
                authority_label: authority_label.clone(),
                trust,
                capabilities,
                focused_grant: *focused_grant,
                invoker: *invoker,
            }
        },
        Overlay::CommandPalette { query, items, selected, invoker } =>
            OverlaySnapshot::CommandPalette {
            query: query.clone(),
            items: item_lines(items),
            selected: *selected,
            invoker: *invoker,
        },
        Overlay::SaveAs { path, invoker, .. } => OverlaySnapshot::SaveAs {
            path: path.clone(),
            invoker: *invoker,
        },
        Overlay::RenameInput { new_name, invoker, .. } => OverlaySnapshot::RenameInput {
            new_name: new_name.clone(),
            invoker: *invoker,
        },
        Overlay::SshPassphrase { authority_label, passphrase, invoker } =>
            OverlaySnapshot::SshPassphrase {
            authority_label: authority_label.clone(),
            length: passphrase.as_str().unicode_len(),
            invoker: *invoker,
        },
        Overlay::Completion { position, candidates, selected, invoker, .. } =>
            OverlaySnapshot::Completion {
            position: *position,
            candidates: offers(candidates),
            selected: *selected,
            invoker: *invoker,
        },
        Overlay::Hover { document, invoker } => OverlaySnapshot::Hover {
            document: document.clone(),
            invoker: *invoker,
        },
    }
}

impl App {
    fn see_tab(&self, tab: EditorTabState, i: usize) -> (s: EditorTabSnapshot)
        requires
            i < self.buffers@.len(),
        ensures
            is_tab_snapshot(*self, tab, self.buffers@[i as int]@, s),
    {
        let buffer = &self.buffers[i];
        let revision = buffer.revision();
        EditorTabSnapshot {
            id: tab.doc_id,
            revision,
            title: buffer.path_state().display_name(),
            path_label: path_label(buffer.path_state()),
            language: buffer.language(),
            text: buffer.text(),
            dirty: buffer.is_dirty(),
            cursor_byte: tab.cursor_byte,
            selection: match tab.selection_anchor {
                Some(anchor) => Some((anchor, tab.cursor_byte)),
                None => None,
            },
            scroll_line: tab.scroll_line,
            highlights: self.highlights_of(tab.doc_id, revision),
        }
    }

    /// The highlights of a revision of a document, if they are held.
    fn highlights_of(&self, id: DocumentId, revision: DocumentRevision) -> (spans: Vec<
        HighlightSpan,
    >)
        ensures
            spans@ == highlights_of(*self, id, revision),
    {
        broadcast use vstd::std_specs::hash::group_hash_axioms;

        match self.syntax.highlights.get(&id.0) {
            Some(held) => if held.0 == revision {
                copy_spans(&held.1)
            } else {
                Vec::new()
            },
            None => Vec::new(),
        }
    }

    fn see_tabs(&self) -> (open: Vec<EditorTabSnapshot>)
        ensures
            tabs_seen(*self, self.layout.editor_tabs@.len() as int, open@),
    {
        let mut open: Vec<EditorTabSnapshot> = Vec::new();
        for k in 0..self.layout.editor_tabs.len()
            invariant
                tabs_seen(*self, k as int, open@),
        {
            let tab: EditorTabState = self.layout.editor_tabs[k];
            let i: usize = self.find_buffer(tab.doc_id);
            if i < self.buffers.len() {
                let ghost before = open@;
                let ghost seen = seen_tabs(*self, k as int);
                open.push(self.see_tab(tab, i));
                let ghost now = seen_tabs(*self, k + 1);
                assert(now == seen.push(k as int));
                assert forall|j: int| 0 <= j < now.len() implies is_tab_snapshot(
                    *self,
                    self.layout.editor_tabs@[#[trigger] now[j]],
                    buffer_of(*self, self.layout.editor_tabs@[now[j]].doc_id),
                    open@[j],
                ) by {
                    if j < seen.len() {
                        assert(now[j] == seen[j]);
                        assert(open@[j] == before[j]);
                    }
                }
            }
        }
        open
    }

    fn see_current(&self, open: &Vec<EditorTabSnapshot>) -> (current: Option<EditorTabSnapshot>)
        ensures
            current_seen(*self, open@, current),
    {
        let id = match self.current_doc {
            Some(id) => id,
            None => return None,
        };
        let mut i: usize = 0;
        while i < open.len()
            invariant
                i <= open@.len(),
                self.current_doc == Some(id),
                seen_from(open@, id, 0) == seen_from(open@, id, i as int),
            decreases open@.len() - i,
        {
            if open[i].id == id {
                return Some(open[i].clone());
            }
            i += 1;
        }
        None
    }

    fn see_terminal(&self) -> (s: TerminalSnapshot)
        ensures
            terminal_seen(*self, s),
    {
        let state = if self.terminal.starting {
            TerminalViewState::Starting
        } else {
            match self.terminal.session {
                Some(PtySessionState::Running) => TerminalViewState::Running,
                Some(PtySessionState::Exited) => TerminalViewState::Exited,
                Some(PtySessionState::Lost) => TerminalViewState::Lost,
                None => TerminalViewState::Absent,
            }
        };
        TerminalSnapshot {
            state,
            captured: self.terminal.capture && state == TerminalViewState::Running,
            authority_label: if self.current_authority < self.authorities.len() {
                self.authorities[self.current_authority].label.clone()
            } else {
                String::new()
            },
        }
    }

    fn see_status(&self, names: &KindNames) -> (s: StatusSnapshot)
        ensures
            status_seen(*self, *names, s),
    {
        let text = self.status.text(names);
        StatusSnapshot {
            view: "editor".to_owned(),
            branch: None,
            problems: self.normalized_diagnostic_count(),
            service: self.language_service_summary(),
            message: if text.as_str().unicode_len() == 0 {
                None
            } else {
                Some(text)
            },
            line: 1,
            column: 1,
        }
    }

    fn see_problems(&self) -> (found: Vec<ProblemDiagnostic>)
        ensures
            found@ == all_problems(self.services.diagnostics@),
    {
        let mut found: Vec<ProblemDiagnostic> = Vec::new();
        assert(found@ =~= all_problems(self.services.diagnostics@.take(0)));
        for i in 0..self.services.diagnostics.len()
            invariant
                found@ == all_problems(self.services.diagnostics@.take(i as int)),
        {
            let entries = &self.services.diagnostics[i].entries;
            let ghost before = found@;
            for j in 0..entries.len()
                invariant
                    found@ == before + entries@.take(j as int),
            {
                found.push(entries[j].clone());
                assert(found@ =~= before + entries@.take(j + 1));
            }
            assert(entries@.take(entries@.len() as int) =~= entries@);
            assert(self.services.diagnostics@.take(i + 1).drop_last()
                =~= self.services.diagnostics@.take(i as int));
        }
        assert(self.services.diagnostics@.take(self.services.diagnostics@.len() as int)
            =~= self.services.diagnostics@);
        found
    }

    /// What the user interface and the input mapping see of the workbench.
    pub fn snapshot(&self, names: &KindNames) -> (s: AppSnapshot)
        ensures
            is_snapshot(*self, *names, s),
    {
        let open_editor_tabs = self.see_tabs();
        let current_trust = self.current_trust();
        let mut authorities: Vec<AuthorityState> = Vec::new();
        for i in 0..self.authorities.len()
            invariant
                authorities@ == self.authorities@.take(i as int),
        {
            authorities.push(self.authorities[i].clone());
            assert(authorities@ =~= self.authorities@.take(i + 1));
        }
        assert(authorities@ =~= self.authorities@);
        let current_buffer = self.see_current(&open_editor_tabs);
        AppSnapshot {
            epoch: self.epoch,
            layout: self.layout.clone(),
            focus: self.focus,
            overlay: see_overlay(&self.overlay, current_trust),
            authorities,
            current_authority_idx: self.current_authority,
            current_trust,
            current_buffer,
            open_editor_tabs,
            active_editor_tab: self.layout.active_editor_tab,
            project: self.project,
            status: self.see_status(names),
            terminal: self.see_terminal(),
            journal_lagging: !self.journal.checkpoints.is_empty()
                || !self.journal.compactions.is_empty(),
            workspace_root: self.workspace_root.clone(),
            workspace_name: self.workspace_name.clone(),
            diagnostics: self.see_problems(),
        }
    }
}

/// What is shown of the document in front is what it holds: its text, its revision,
/// whether it is saved, and the cursor, selection and scrolling of its tab.
pub proof fn shown_documents_are_as_they_are(app: App, names: KindNames, s: AppSnapshot)
    requires
        is_snapshot(app, names, s),
        s.current_buffer is Some,
    ensures
        ({
            let shown = s.current_buffer->0;
            &&& Some(shown.id) == app.current_doc
            &&& exists|i: int, t: int|
                0 <= i < app.buffers@.len() && 0 <= t < app.layout.editor_tabs@.len() && (
                #[trigger] app.buffers@[i])@.id == shown.id && shown.text@ == app.buffers@[i]@.text
                    && shown.revision == app.buffers@[i]@.revision && shown.dirty
                    == app.buffers@[i]@.dirty && (#[trigger] app.layout.editor_tabs@[t]).doc_id
                    == shown.id && shown.cursor_byte == app.layout.editor_tabs@[t].cursor_byte
                    && shown.scroll_line == app.layout.editor_tabs@[t].scroll_line && (
                app.layout.editor_tabs@[t].selection_anchor matches Some(a) ==> shown.selection
                    == Some((a, shown.cursor_byte))) && (
                app.layout.editor_tabs@[t].selection_anchor is None ==> shown.selection is None)
        }),
{
    let id = app.current_doc->0;
    let open = s.open_editor_tabs@;
    let n = app.layout.editor_tabs@.len() as int;
    lemma_seen_from(open, id, 0);
    let at = seen_from(open, id, 0);
    lemma_seen_tabs(app, n);
    let t = seen_tabs(app, n)[at];
    assert(is_tab_snapshot(
        app,
        app.layout.editor_tabs@[t],
        buffer_of(app, app.layout.editor_tabs@[t].doc_id),
        open[at],
    ));
    lemma_buffer_from(app.buffers@, app.layout.editor_tabs@[t].doc_id, 0);
    let i = buffer_at(app, app.layout.editor_tabs@[t].doc_id);
    assert(app.buffers@[i]@.id == id);
}

proof fn lemma_seen_from(open: Seq<EditorTabSnapshot>, id: DocumentId, i: int)
    requires
        0 <= i <= open.len(),
    ensures
        i <= seen_from(open, id, i) <= open.len(),
        seen_from(open, id, i) < open.len() ==> open[seen_from(open, id, i)].id == id,
    decreases open.len() - i,
{
    if i < open.len() && open[i].id != id {
        lemma_seen_from(open, id, i + 1);
    }
}

proof fn lemma_seen_tabs(app: App, k: int)
    requires
        0 <= k <= app.layout.editor_tabs@.len(),
    ensures
        forall|i: int|
            0 <= i < seen_tabs(app, k).len() ==> 0 <= #[trigger] seen_tabs(app, k)[i] < k
                && has_buffer(app, app.layout.editor_tabs@[seen_tabs(app, k)[i]].doc_id),
    decreases k,
{
    if k > 0 {
        lemma_seen_tabs(app, k - 1);
    }
}

/// The terminal is shown to take what is typed only while it runs and takes it, and the
/// trust that is shown is that of the selected authority.
pub proof fn shown_terminals_are_as_they_are(app: App, names: KindNames, s: AppSnapshot)
    requires
        app.wf(),
        is_snapshot(app, names, s),
    ensures
        s.terminal.captured ==> app.terminal.capture && app.terminal.session == Some(
            PtySessionState::Running,
        ) && !app.terminal.starting,
        app.terminal.capture && app.terminal.session == Some(PtySessionState::Running)
            && !app.terminal.starting ==> s.terminal.captured,
        s.current_trust == app.authorities@[app.current_authority as int].trust,
        s.focus == app.focus,
        s.overlay == OverlaySnapshot::Closed <==> app.overlay is Closed,
{
}

/// Every problem of every service is shown, in the order in which the services and then
/// the problems were found.
pub proof fn all_problems_are_shown(found: Seq<Problems>, more: Problems, i: int, j: int)
    ensures
        all_problems(found.push(more)) == all_problems(found) + more.entries@,
        0 <= i < found.len() && 0 <= j < found[i].entries@.len() ==> all_problems(found).contains(
            found[i].entries@[j],
        ),
        all_problems(Seq::<Problems>::empty()).len() == 0,
    decreases found.len(),
{
    assert(found.push(more).drop_last() =~= found);
    if 0 <= i < found.len() && 0 <= j < found[i].entries@.len() {
        let front = found.drop_last();
        let all = all_problems(found);
        if i < front.len() {
            all_problems_are_shown(front, more, i, j);
            let k = choose|k: int|
                0 <= k < all_problems(front).len() && all_problems(front)[k]
                    == found[i].entries@[j];
            assert(all[k] == found[i].entries@[j]);
        } else {
            assert(all[all_problems(front).len() + j] == found[i].entries@[j]);
        }
    }
}

/// Highlights are shown only for the revision that they were made for.
pub proof fn shown_highlights_fit_the_revision(
    app: App,
    id: DocumentId,
    revision: DocumentRevision,
)
    ensures
        app.syntax.highlights@.contains_key(id.0) && app.syntax.highlights@[id.0].0 == revision
            ==> highlights_of(app, id, revision) == app.syntax.highlights@[id.0].1@,
        !app.syntax.highlights@.contains_key(id.0) || app.syntax.highlights@[id.0].0 != revision
            ==> highlights_of(app, id, revision).len() == 0,
{
}

} // verus!
