//! The state that outlives a run: what is kept of the workbench, and the workbench
//! that is made of it.
use std::collections::HashMap;

use vstd::prelude::*;

use super::status::StatusMessage;
use super::{
    buffer_from, lemma_buffer_from, rows_fit, App, AuthorityConnectionState, AuthorityKind,
    AuthorityState, LanguageServices, LspGrantRecord, Overlay, ProjectTreeSnapshot,
    RetainedJournal, SyntaxState, TerminalState, TrustLevel,
};
use crate::action::HighlightSpan;
use crate::buffer::{fresh_buffer, Buffer, BufferView, CheckpointPayload};
use crate::document::{
    backing, BufferPathState, DocumentId, DocumentRevision, Language, WorkspaceEpoch,
};
use crate::layout::{
    default_geometry, first_tab_of, no_tabs, EditorTabState, Landmark, TabChoice, WorkbenchLayout,
};
use crate::text::str_eq;

verus! {

/// A document that the journal still had.
#[derive(Debug, PartialEq, Eq)]
pub struct RecoveredBuffer {
    pub id: DocumentId,
    pub revision: DocumentRevision,
    pub content: String,
    pub path: Option<String>,
    pub language: Language,
}

/// What the journal still had when it was opened.
#[derive(Debug, PartialEq, Eq)]
pub struct Recovery {
    pub buffers: Vec<RecoveredBuffer>,
}

impl Default for Recovery {
    fn default() -> (r: Self)
        ensures
            r.buffers@ == Seq::<RecoveredBuffer>::empty(),
    {
        Recovery { buffers: Vec::new() }
    }
}

/// What is kept of a tab. The content is read back from its file before the tab is
/// restored.
#[derive(Debug, PartialEq, Eq)]
pub struct TabMetadata {
    pub id: DocumentId,
    pub path: Option<String>,
    pub last_known_revision: DocumentRevision,
    pub cursor_byte: usize,
    pub scroll_top_line: usize,
    pub selection_start_byte: Option<usize>,
    pub selection_end_byte: Option<usize>,
    pub content: Option<String>,
    pub language: Language,
}

/// What is kept of an authority.
#[derive(Debug, PartialEq, Eq)]
pub struct TrustRecord {
    pub workspace_root: String,
    pub authority: String,
    pub kind: String,
    pub level: String,
}

/// Everything that is kept.
pub struct AppState {
    pub version: u32,
    pub epoch: WorkspaceEpoch,
    pub layout: WorkbenchLayout,
    pub tabs: Vec<TabMetadata>,
    pub current_tab: Option<DocumentId>,
    pub focus: String,
    pub trust: Vec<TrustRecord>,
    pub lsp_grants: Vec<LspGrantRecord>,
}

impl Clone for LspGrantRecord {
    fn clone(&self) -> (copy: Self)
        ensures
            copy == *self,
    {
        LspGrantRecord {
            workspace_root: self.workspace_root.clone(),
            authority: self.authority.clone(),
            config_digest: self.config_digest.clone(),
        }
    }
}

/// The name that a landmark is kept under.
pub open spec fn landmark_name(landmark: Landmark) -> Seq<char> {
    match landmark {
        Landmark::Toolbar => "Toolbar"@,
        Landmark::Authority => "Authority"@,
        Landmark::LeftStripe => "LeftStripe"@,
        Landmark::PrimaryPane => "PrimaryPane"@,
        Landmark::Editor => "Editor"@,
        Landmark::ContextPane => "ContextPane"@,
        Landmark::RightStripe => "RightStripe"@,
        Landmark::BottomPane => "BottomPane"@,
        Landmark::StatusBar => "StatusBar"@,
    }
}

/// The landmark that is kept under a name; the editor for every other name.
pub open spec fn landmark_of(name: Seq<char>) -> Landmark {
    if name == "Toolbar"@ {
        Landmark::Toolbar
    } else if name == "Authority"@ {
        Landmark::Authority
    } else if name == "LeftStripe"@ {
        Landmark::LeftStripe
    } else if name == "PrimaryPane"@ {
        Landmark::PrimaryPane
    } else if name == "ContextPane"@ {
        Landmark::ContextPane
    } else if name == "RightStripe"@ {
        Landmark::RightStripe
    } else if name == "BottomPane"@ {
        Landmark::BottomPane
    } else if name == "StatusBar"@ {
        Landmark::StatusBar
    } else {
        Landmark::Editor
    }
}

proof fn lemma_landmark_words()
    ensures
        "Toolbar"@.len() == 7 && "Toolbar"@[0] == 'T',
        "Authority"@.len() == 9 && "Authority"@[0] == 'A',
        "LeftStripe"@.len() == 10 && "LeftStripe"@[0] == 'L',
        "PrimaryPane"@.len() == 11 && "PrimaryPane"@[0] == 'P',
        "Editor"@.len() == 6 && "Editor"@[0] == 'E',
        "ContextPane"@.len() == 11 && "ContextPane"@[0] == 'C',
        "RightStripe"@.len() == 11 && "RightStripe"@[0] == 'R',
        "BottomPane"@.len() == 10 && "BottomPane"@[0] == 'B',
        "StatusBar"@.len() == 9 && "StatusBar"@[0] == 'S',
{
    reveal_strlit("Toolbar");
    reveal_strlit("Authority");
    reveal_strlit("LeftStripe");
    reveal_strlit("PrimaryPane");
    reveal_strlit("Editor");
    reveal_strlit("ContextPane");
    reveal_strlit("RightStripe");
    reveal_strlit("BottomPane");
    reveal_strlit("StatusBar");
}

/// A focus that was kept is the one that comes back.
pub proof fn kept_focus_comes_back(landmark: Landmark)
    ensures
        landmark_of(landmark_name(landmark)) == landmark,
{
    lemma_landmark_words();
}

/// The name of the focus of a state, given the one that was kept: the editor has it
/// if none was.
pub fn focus_or_default(kept: Option<String>) -> (name: String)
    ensures
        kept is Some ==> name == kept->0,
        kept is None ==> name@ == landmark_name(Landmark::Editor),
{
    match kept {
        Some(name) => name,
        None => "Editor".to_owned(),
    }
}

fn name_of_landmark(landmark: Landmark) -> (name: &'static str)
    ensures
        name@ == landmark_name(landmark),
{
    match landmark {
        Landmark::Toolbar => "Toolbar",
        Landmark::Authority => "Authority",
        Landmark::LeftStripe => "LeftStripe",
        Landmark::PrimaryPane => "PrimaryPane",
        Landmark::Editor => "Editor",
        Landmark::ContextPane => "ContextPane",
        Landmark::RightStripe => "RightStripe",
        Landmark::BottomPane => "BottomPane",
        Landmark::StatusBar => "StatusBar",
    }
}

fn landmark_named(name: &str) -> (landmark: Landmark)
    ensures
        landmark == landmark_of(name@),
{
    if str_eq(name, "Toolbar") {
        Landmark::Toolbar
    } else if str_eq(name, "Authority") {
        Landmark::Authority
    } else if str_eq(name, "LeftStripe") {
        Landmark::LeftStripe
    } else if str_eq(name, "PrimaryPane") {
        Landmark::PrimaryPane
    } else if str_eq(name, "ContextPane") {
        Landmark::ContextPane
    } else if str_eq(name, "RightStripe") {
        Landmark::RightStripe
    } else if str_eq(name, "BottomPane") {
        Landmark::BottomPane
    } else if str_eq(name, "StatusBar") {
        Landmark::StatusBar
    } else {
        Landmark::Editor
    }
}

/// The word that a kind of authority is kept under.
pub open spec fn kind_name(kind: AuthorityKind) -> Seq<char> {
    match kind {
        AuthorityKind::Local => "local"@,
        AuthorityKind::Ssh => "ssh"@,
        AuthorityKind::DevContainer => "dev_container"@,
    }
}

/// The kind of authority that is kept under a word; local for every other word.
pub open spec fn kind_of(word: Seq<char>) -> AuthorityKind {
    if word == "ssh"@ {
        AuthorityKind::Ssh
    } else if word == "dev_container"@ {
        AuthorityKind::DevContainer
    } else {
        AuthorityKind::Local
    }
}

/// The word that a level of trust is kept under.
pub open spec fn level_name(level: TrustLevel) -> Seq<char> {
    match level {
        TrustLevel::Trusted => "trusted"@,
        TrustLevel::InspectOnly => "inspect_only"@,
    }
}

/// The level of trust that is kept under a word; no trust for every other word.
pub open spec fn level_of(word: Seq<char>) -> TrustLevel {
    if word == "trusted"@ {
        TrustLevel::Trusted
    } else {
        TrustLevel::InspectOnly
    }
}

/// What is kept of an authority under a workspace.
pub open spec fn is_trust_record(a: AuthorityState, root: String, record: TrustRecord) -> bool {
    &&& record.workspace_root == root
    &&& record.authority == a.label
    &&& record.kind@ == kind_name(a.kind)
    &&& record.level@ == level_name(a.trust)
}

/// The authority that is made of what was kept of it. Only a local one is
/// connected from the start.
pub open spec fn restored_authority(record: TrustRecord) -> AuthorityState {
    AuthorityState {
        kind: kind_of(record.kind@),
        label: record.authority,
        trust: level_of(record.level@),
        connection: if kind_of(record.kind@) == AuthorityKind::Local {
            AuthorityConnectionState::Connected
        } else {
            AuthorityConnectionState::Disconnected
        },
    }
}

/// An authority comes back with its kind, its label and the trust that it had, and
/// with no connection to another host.
pub proof fn kept_authority_comes_back(a: AuthorityState, root: String, record: TrustRecord)
    requires
        is_trust_record(a, root, record),
    ensures
        restored_authority(record).kind == a.kind,
        restored_authority(record).label == a.label,
        restored_authority(record).trust == a.trust,
        a.kind != AuthorityKind::Local ==> restored_authority(record).connection
            == AuthorityConnectionState::Disconnected,
{
    reveal_strlit("local");
    reveal_strlit("ssh");
    reveal_strlit("dev_container");
    reveal_strlit("trusted");
    reveal_strlit("inspect_only");
    assert("local"@.len() == 5 && "ssh"@.len() == 3 && "dev_container"@.len() == 13);
    assert("trusted"@.len() == 7 && "inspect_only"@.len() == 12);
}

/// The local authority that there is if none was kept.
pub open spec fn is_host(a: AuthorityState) -> bool {
    &&& a.kind == AuthorityKind::Local
    &&& a.label@ == "host"@
    &&& a.trust == TrustLevel::InspectOnly
    &&& a.connection == AuthorityConnectionState::Connected
}

fn host() -> (a: AuthorityState)
    ensures
        is_host(a),
{
    AuthorityState {
        kind: AuthorityKind::Local,
        label: "host".to_owned(),
        trust: TrustLevel::InspectOnly,
        connection: AuthorityConnectionState::Connected,
    }
}

fn restore_authority(record: &TrustRecord) -> (a: AuthorityState)
    ensures
        a == restored_authority(*record),
{
    let kind = if str_eq(record.kind.as_str(), "ssh") {
        AuthorityKind::Ssh
    } else if str_eq(record.kind.as_str(), "dev_container") {
        AuthorityKind::DevContainer
    } else {
        AuthorityKind::Local
    };
    AuthorityState {
        kind,
        label: record.authority.clone(),
        trust: if str_eq(record.level.as_str(), "trusted") {
            TrustLevel::Trusted
        } else {
            TrustLevel::InspectOnly
        },
        connection: if kind == AuthorityKind::Local {
            AuthorityConnectionState::Connected
        } else {
            AuthorityConnectionState::Disconnected
        },
    }
}

/// Whether a buffer was made of what the journal had of a document.
pub open spec fn is_recovered_as(r: RecoveredBuffer, b: BufferView) -> bool {
    &&& match r.path {
        Some(path) => b.path_state == BufferPathState::Recovered { original: path },
        None => b.path_state matches BufferPathState::Untitled { suggested_name }
            && suggested_name@ == "recovered"@,
    }
    &&& b == fresh_buffer(
        r.id,
        r.language,
        r.content@,
        r.revision,
        b.path_state,
        true,
        Some(r.revision),
    )
}

/// The content that a tab is restored with.
pub open spec fn tab_content(t: TabMetadata) -> Seq<char> {
    match t.content {
        Some(content) => content@,
        None => Seq::empty(),
    }
}

/// Whether a buffer was made of what was kept of a tab.
pub open spec fn is_reopened_as(t: TabMetadata, b: BufferView) -> bool {
    &&& match t.path {
        Some(path) => b.path_state == BufferPathState::Saved(path),
        None => b.path_state matches BufferPathState::Untitled { suggested_name }
            && suggested_name@ == "untitled"@,
    }
    &&& b == fresh_buffer(
        t.id,
        t.language,
        tab_content(t),
        t.last_known_revision,
        b.path_state,
        false,
        Some(t.last_known_revision),
    )
}

/// The document that there is if nothing else is open.
pub open spec fn is_welcome(b: BufferView) -> bool {
    &&& b.path_state matches BufferPathState::Untitled { suggested_name } && suggested_name@
        == "untitled"@
    &&& b == fresh_buffer(
        b.id,
        Language::PlainText,
        "fn main() {}\n"@,
        DocumentRevision(0),
        b.path_state,
        false,
        None,
    )
}

/// Whether a document is among those that were recovered or reopened already.
pub open spec fn id_taken(
    recovered: Seq<RecoveredBuffer>,
    tabs: Seq<TabMetadata>,
    kept: Seq<int>,
    id: DocumentId,
) -> bool {
    ||| exists|j: int| 0 <= j < recovered.len() && (#[trigger] recovered[j]).id == id
    ||| exists|j: int| 0 <= j < kept.len() && tabs[#[trigger] kept[j]].id == id
}

/// Which of the first `k` tabs are reopened: those whose document is not there yet
/// and whose file, if they have one, could be read.
pub open spec fn reopened(
    recovered: Seq<RecoveredBuffer>,
    tabs: Seq<TabMetadata>,
    k: int,
) -> Seq<int>
    decreases k,
{
    if k <= 0 {
        Seq::empty()
    } else {
        let before = reopened(recovered, tabs, k - 1);
        let t = tabs[k - 1];
        if id_taken(recovered, tabs, before, t.id) || (t.path is Some && t.content is None) {
            before
        } else {
            before.push(k - 1)
        }
    }
}

/// Whether the buffers are those of the recovered documents and, after them, of the
/// tabs that are reopened.
pub open spec fn holds_documents(
    recovered: Seq<RecoveredBuffer>,
    tabs: Seq<TabMetadata>,
    kept: Seq<int>,
    buffers: Seq<Buffer>,
) -> bool {
    &&& buffers.len() == recovered.len() + kept.len()
    &&& forall|i: int|
        0 <= i < recovered.len() ==> is_recovered_as(
            #[trigger] recovered[i],
            buffers[i]@,
        )
    &&& forall|i: int|
        0 <= i < kept.len() ==> is_reopened_as(
            tabs[#[trigger] kept[i]],
            buffers[recovered.len() + i]@,
        )
}

/// Which buffers there are at the start: those of the recovered documents and of
/// the tabs that are reopened, or one to begin with.
pub open spec fn buffers_restored(
    recovered: Seq<RecoveredBuffer>,
    tabs: Seq<TabMetadata>,
    buffers: Seq<Buffer>,
) -> bool {
    let kept = reopened(recovered, tabs, tabs.len() as int);
    if recovered.len() + kept.len() == 0 {
        buffers.len() == 1 && is_welcome(buffers[0]@)
    } else {
        holds_documents(recovered, tabs, kept, buffers)
    }
}

/// A tab at the start of its document.
pub open spec fn fresh_tab(id: DocumentId) -> EditorTabState {
    EditorTabState { doc_id: id, scroll_line: 0, cursor_byte: 0, selection_anchor: None }
}

/// The tabs of the first `k` recovered documents, one each.
pub open spec fn recovered_tabs(recovered: Seq<RecoveredBuffer>, k: int) -> Seq<EditorTabState>
    decreases k,
{
    if k <= 0 {
        Seq::empty()
    } else {
        let before = recovered_tabs(recovered, k - 1);
        let id = recovered[k - 1].id;
        if first_tab_of(before, id, 0) < before.len() {
            before
        } else {
            before.push(fresh_tab(id))
        }
    }
}

/// The tabs of the recovered documents, then the first `k` tabs that were kept and
/// whose documents are open.
pub open spec fn shown_tabs(
    recovered: Seq<RecoveredBuffer>,
    tabs: Seq<TabMetadata>,
    buffers: Seq<Buffer>,
    k: int,
) -> Seq<EditorTabState>
    decreases k,
{
    if k <= 0 {
        recovered_tabs(recovered, recovered.len() as int)
    } else {
        let before = shown_tabs(recovered, tabs, buffers, k - 1);
        let t = tabs[k - 1];
        if buffer_from(buffers, t.id, 0) < buffers.len() && first_tab_of(before, t.id, 0)
            >= before.len() {
            before.push(
                EditorTabState {
                    doc_id: t.id,
                    scroll_line: t.scroll_top_line as u16,
                    cursor_byte: t.cursor_byte,
                    selection_anchor: t.selection_start_byte,
                },
            )
        } else {
            before
        }
    }
}

/// The document that is shown at the start: the one that was shown if it is open,
/// else the first that was recovered, else the first.
pub open spec fn restored_current(
    kept: Option<DocumentId>,
    recovered: Seq<RecoveredBuffer>,
    buffers: Seq<Buffer>,
) -> DocumentId {
    if kept is Some && buffer_from(buffers, kept->0, 0) < buffers.len() {
        kept->0
    } else if recovered.len() > 0 {
        recovered[0].id
    } else {
        buffers[0]@.id
    }
}

/// The tabs at the start.
pub open spec fn restored_tabs(before: TabChoice, shown: Seq<EditorTabState>, current: DocumentId) ->
    TabChoice {
    let i = first_tab_of(shown, current, 0);
    TabChoice {
        editor_tabs: if shown.len() == 0 {
            seq![fresh_tab(current)]
        } else {
            shown
        },
        active_editor_tab: if i < shown.len() {
            i as usize
        } else {
            0
        },
        ..before
    }
}

/// A workbench in which nothing has happened yet.
pub open spec fn is_idle(app: App, max_diagnostics: usize) -> bool {
    &&& app.current_authority == 0
    &&& app.overlay == Overlay::Closed
    &&& app.status == StatusMessage::Empty
    &&& app.workspace_name@ == "workspace"@
    &&& app.project == ProjectTreeSnapshot {
        tree: None,
        loading: true,
        scroll: 0,
        selected_row: 0,
    }
    &&& app.terminal == TerminalState {
        session: None,
        starting: false,
        launch_id: 0,
        capture: false,
    }
    &&& app.journal.checkpoints@ == Map::<u128, CheckpointPayload>::empty()
    &&& app.journal.compactions@ == Map::<u128, DocumentRevision>::empty()
    &&& app.syntax.highlights@ == Map::<u128, (DocumentRevision, Vec<HighlightSpan>)>::empty()
    &&& app.syntax.retained@ == Map::<u128, (DocumentRevision, bool, String)>::empty()
    &&& app.services.states@.len() == 0
    &&& app.services.counts@.len() == 0
    &&& app.services.servers@.len() == 0
    &&& app.services.serialized@.len() == 0
    &&& app.services.sessions@.len() == 0
    &&& app.services.diagnostics@.len() == 0
    &&& app.services.max_diagnostics == max_diagnostics
    &&& app.local_authority is None
    &&& app.ssh_authorities@.len() == 0
    &&& app.submitted_ssh_passphrase is None
    &&& app.pending_definition is None
    &&& app.pending_definition_open is None
}

/// The workbench that is made of what was kept and of what the journal still had.
pub open spec fn state_restored(
    state: AppState,
    recovery: Recovery,
    max_diagnostics: usize,
    app: App,
) -> bool {
    let recovered = recovery.buffers@;
    let current = restored_current(state.current_tab, recovered, app.buffers@);
    &&& is_idle(app, max_diagnostics)
    &&& app.epoch == state.epoch
    &&& buffers_restored(recovered, state.tabs@, app.buffers@)
    &&& app.current_doc == Some(current)
    &&& app.layout.geometry() == state.layout.geometry()
    &&& app.layout.tabs() == restored_tabs(
        state.layout.tabs(),
        shown_tabs(recovered, state.tabs@, app.buffers@, state.tabs@.len() as int),
        current,
    )
    &&& if state.trust@.len() == 0 {
        app.authorities@.len() == 1 && is_host(app.authorities@[0])
    } else {
        app.authorities@ == state.trust@.map_values(|t: TrustRecord| restored_authority(t))
    }
    &&& app.lsp_grants == state.lsp_grants
    &&& app.workspace_root@ == if state.trust@.len() == 0 {
        "/workspace"@
    } else {
        state.trust@[0].workspace_root@
    }
    &&& app.focus == landmark_of(state.focus@)
}

/// The workbench of a first run, with what the journal still had.
pub open spec fn recovered_app(recovery: Recovery, max_diagnostics: usize, app: App) -> bool {
    &&& is_idle(app, max_diagnostics)
    &&& app.epoch == WorkspaceEpoch(0)
    &&& buffers_restored(recovery.buffers@, Seq::empty(), app.buffers@)
    &&& app.current_doc == Some(app.buffers@[0]@.id)
    &&& app.layout.geometry() == default_geometry()
    &&& app.layout.tabs() == TabChoice {
        editor_tabs: seq![fresh_tab(app.buffers@[0]@.id)],
        ..no_tabs()
    }
    &&& app.authorities@.len() == 1
    &&& is_host(app.authorities@[0])
    &&& app.lsp_grants@.len() == 0
    &&& app.workspace_root@ == "/workspace"@
    &&& app.focus == Landmark::Editor
}

/// What is kept of a tab.
pub open spec fn kept_tab(tab: EditorTabState, b: BufferView) -> TabMetadata {
    TabMetadata {
        id: tab.doc_id,
        path: backing(b.path_state),
        last_known_revision: b.revision,
        cursor_byte: tab.cursor_byte,
        scroll_top_line: tab.scroll_line as usize,
        selection_start_byte: tab.selection_anchor,
        selection_end_byte: Some(tab.cursor_byte),
        content: None,
        language: b.language,
    }
}

/// What is kept of the first `k` tabs: of those whose documents are open.
pub open spec fn kept_tabs(tabs: Seq<EditorTabState>, buffers: Seq<Buffer>, k: int) -> Seq<
    TabMetadata,
>
    decreases k,
{
    if k <= 0 {
        Seq::empty()
    } else {
        let before = kept_tabs(tabs, buffers, k - 1);
        let i = buffer_from(buffers, tabs[k - 1].doc_id, 0);
        if i < buffers.len() {
            before.push(kept_tab(tabs[k - 1], buffers[i]@))
        } else {
            before
        }
    }
}

/// What is kept of a workbench.
pub open spec fn is_state_of(app: App, state: AppState) -> bool {
    &&& state.version == 1
    &&& state.epoch == app.epoch
    &&& state.layout.geometry() == app.layout.geometry()
    &&& state.layout.tabs() == app.layout.tabs()
    &&& state.tabs@ == kept_tabs(
        app.layout.editor_tabs@,
        app.buffers@,
        app.layout.editor_tabs@.len() as int,
    )
    &&& state.current_tab == app.current_doc
    &&& state.focus@ == landmark_name(app.focus)
    &&& state.trust@.len() == app.authorities@.len()
    &&& forall|i: int|
        0 <= i < app.authorities@.len() ==> is_trust_record(
            #[trigger] app.authorities@[i],
            app.workspace_root,
            state.trust@[i],
        )
    &&& state.lsp_grants@ == app.lsp_grants@
}

/// What is kept at the end of a run comes back in the next one: the epoch, the
/// focus, the sizes of the panes, the grants, the workspace, and each authority
/// with its trust.
pub proof fn kept_state_comes_back(
    before: App,
    state: AppState,
    recovery: Recovery,
    max_diagnostics: usize,
    after: App,
)
    requires
        before.wf(),
        is_state_of(before, state),
        state_restored(state, recovery, max_diagnostics, after),
    ensures
        after.epoch == before.epoch,
        after.focus == before.focus,
        after.layout.geometry() == before.layout.geometry(),
        after.lsp_grants@ == before.lsp_grants@,
        after.workspace_root@ == before.workspace_root@,
        after.authorities@.len() == before.authorities@.len(),
        forall|i: int|
            0 <= i < before.authorities@.len() ==> {
                let a = #[trigger] after.authorities@[i];
                &&& a.kind == before.authorities@[i].kind
                &&& a.label == before.authorities@[i].label
                &&& a.trust == before.authorities@[i].trust
            },
{
    kept_focus_comes_back(before.focus);
    assert forall|i: int| 0 <= i < before.authorities@.len() implies {
        let a = #[trigger] after.authorities@[i];
        &&& a.kind == before.authorities@[i].kind
        &&& a.label == before.authorities@[i].label
        &&& a.trust == before.authorities@[i].trust
    } by {
        kept_authority_comes_back(
            before.authorities@[i],
            before.workspace_root,
            state.trust@[i],
        );
    }
    assert(is_trust_record(before.authorities@[0], before.workspace_root, state.trust@[0]));
}

/// A document that was recovered is not replaced by what was kept of its tab.
pub proof fn recovered_documents_stay(
    recovered: Seq<RecoveredBuffer>,
    tabs: Seq<TabMetadata>,
    buffers: Seq<Buffer>,
    i: int,
)
    requires
        buffers_restored(recovered, tabs, buffers),
        0 <= i < recovered.len(),
    ensures
        i < buffers.len(),
        is_recovered_as(recovered[i], buffers[i]@),
        forall|j: int|
            recovered.len() <= j < buffers.len() ==> (#[trigger] buffers[j])@.id
                != recovered[i].id,
{
    let kept = reopened(recovered, tabs, tabs.len() as int);
    lemma_kept_are_new(recovered, tabs, tabs.len() as int);
    assert forall|j: int| recovered.len() <= j < buffers.len() implies (
    #[trigger] buffers[j])@.id != recovered[i].id by {
        let t = tabs[kept[j - recovered.len()]];
        assert(is_reopened_as(t, buffers[recovered.len() + (j - recovered.len())]@));
    }
}

proof fn lemma_kept_are_new(recovered: Seq<RecoveredBuffer>, tabs: Seq<TabMetadata>, k: int)
    requires
        0 <= k <= tabs.len(),
    ensures
        forall|i: int, j: int|
            0 <= i < recovered.len() && 0 <= j < reopened(recovered, tabs, k).len()
                ==> tabs[#[trigger] reopened(recovered, tabs, k)[j]].id != (
            #[trigger] recovered[i]).id,
    decreases k,
{
    if k > 0 {
        lemma_kept_are_new(recovered, tabs, k - 1);
    }
}

proof fn lemma_first_tab(tabs: Seq<EditorTabState>, id: DocumentId, i: int)
    requires
        0 <= i <= tabs.len(),
    ensures
        i <= first_tab_of(tabs, id, i) <= tabs.len(),
        first_tab_of(tabs, id, i) < tabs.len() ==> tabs[first_tab_of(tabs, id, i)].doc_id == id,
        forall|j: int|
            i <= j < first_tab_of(tabs, id, i) ==> (#[trigger] tabs[j]).doc_id != id,
    decreases tabs.len() - i,
{
    if i < tabs.len() && tabs[i].doc_id != id {
        lemma_first_tab(tabs, id, i + 1);
    }
}

/// Whether a document has a tab.
pub open spec fn has_tab(tabs: Seq<EditorTabState>, id: DocumentId) -> bool {
    exists|j: int| 0 <= j < tabs.len() && (#[trigger] tabs[j]).doc_id == id
}

/// Whether no document has two tabs.
pub open spec fn tabs_differ(tabs: Seq<EditorTabState>) -> bool {
    forall|a: int, b: int|
        0 <= a < b < tabs.len() ==> (#[trigger] tabs[a]).doc_id != (#[trigger] tabs[b]).doc_id
}

proof fn lemma_recovered_tabs(recovered: Seq<RecoveredBuffer>, k: int)
    requires
        0 <= k <= recovered.len(),
    ensures
        tabs_differ(recovered_tabs(recovered, k)),
        forall|i: int| 0 <= i < k ==> has_tab(recovered_tabs(recovered, k), (
        #[trigger] recovered[i]).id),
    decreases k,
{
    if k > 0 {
        lemma_recovered_tabs(recovered, k - 1);
        let before = recovered_tabs(recovered, k - 1);
        let now = recovered_tabs(recovered, k);
        let id = recovered[k - 1].id;
        lemma_first_tab(before, id, 0);
        assert forall|i: int| 0 <= i < k implies has_tab(now, (#[trigger] recovered[i]).id) by {
            if i < k - 1 {
                let j = choose|j: int|
                    0 <= j < before.len() && (#[trigger] before[j]).doc_id == recovered[i].id;
                assert(now[j].doc_id == recovered[i].id);
            } else if now.len() > before.len() {
                assert(now[before.len() as int].doc_id == id);
            } else {
                assert(now[first_tab_of(before, id, 0)].doc_id == id);
            }
        }
    }
}

/// Every recovered document has a tab, even if its file is gone, and no document
/// has two.
pub proof fn recovered_documents_are_shown(
    recovered: Seq<RecoveredBuffer>,
    tabs: Seq<TabMetadata>,
    buffers: Seq<Buffer>,
    k: int,
)
    requires
        0 <= k <= tabs.len(),
    ensures
        tabs_differ(shown_tabs(recovered, tabs, buffers, k)),
        forall|i: int| 0 <= i < recovered.len() ==> has_tab(
            shown_tabs(recovered, tabs, buffers, k),
            (#[trigger] recovered[i]).id,
        ),
    decreases k,
{
    if k <= 0 {
        lemma_recovered_tabs(recovered, recovered.len() as int);
    } else {
        recovered_documents_are_shown(recovered, tabs, buffers, k - 1);
        let before = shown_tabs(recovered, tabs, buffers, k - 1);
        let now = shown_tabs(recovered, tabs, buffers, k);
        lemma_first_tab(before, tabs[k - 1].id, 0);
        assert forall|i: int| 0 <= i < recovered.len() implies has_tab(now, (
        #[trigger] recovered[i]).id) by {
            let j = choose|j: int|
                0 <= j < before.len() && (#[trigger] before[j]).doc_id == recovered[i].id;
            assert(now[j].doc_id == recovered[i].id);
        }
    }
}

fn buffer_place(buffers: &Vec<Buffer>, id: DocumentId) -> (i: usize)
    ensures
        i == buffer_from(buffers@, id, 0),
        i <= buffers@.len(),
{
    let mut i: usize = 0;
    while i < buffers.len()
        invariant
            i <= buffers@.len(),
            buffer_from(buffers@, id, 0) == buffer_from(buffers@, id, i as int),
        decreases buffers@.len() - i,
    {
        if buffers[i].id() == id {
            return i;
        }
        i += 1;
    }
    i
}

fn tab_place(tabs: &Vec<EditorTabState>, id: DocumentId) -> (i: usize)
    ensures
        i == first_tab_of(tabs@, id, 0),
        i <= tabs@.len(),
{
    let mut i: usize = 0;
    while i < tabs.len()
        invariant
            i <= tabs@.len(),
            first_tab_of(tabs@, id, 0) == first_tab_of(tabs@, id, i as int),
        decreases tabs@.len() - i,
    {
        if tabs[i].doc_id == id {
            return i;
        }
        i += 1;
    }
    i
}

fn recover_buffer(r: &RecoveredBuffer) -> (b: Buffer)
    ensures
        b.wf(),
        is_recovered_as(*r, b@),
{
    let path_state = match &r.path {
        Some(path) => BufferPathState::Recovered { original: path.clone() },
        None => BufferPathState::Untitled { suggested_name: "recovered".to_owned() },
    };
    Buffer::recover(r.id, r.language, r.content.as_str(), r.revision, path_state)
}

fn reopen_tab(t: &TabMetadata) -> (b: Buffer)
    ensures
        b.wf(),
        is_reopened_as(*t, b@),
{
    let path_state = match &t.path {
        Some(path) => BufferPathState::Saved(path.clone()),
        None => BufferPathState::Untitled { suggested_name: "untitled".to_owned() },
    };
    match &t.content {
        Some(content) => Buffer::restore_clean(
            t.id,
            t.language,
            content.as_str(),
            t.last_known_revision,
            path_state,
        ),
        None => {
            proof {
                reveal_strlit("");
            }
            assert(""@ =~= Seq::<char>::empty());
            Buffer::restore_clean(t.id, t.language, "", t.last_known_revision, path_state)
        },
    }
}

proof fn lemma_taken(
    recovered: Seq<RecoveredBuffer>,
    tabs: Seq<TabMetadata>,
    kept: Seq<int>,
    buffers: Seq<Buffer>,
    id: DocumentId,
)
    requires
        holds_documents(recovered, tabs, kept, buffers),
    ensures
        id_taken(recovered, tabs, kept, id) == (buffer_from(buffers, id, 0) < buffers.len()),
{
    lemma_buffer_from(buffers, id, 0);
    let i = buffer_from(buffers, id, 0);
    if i < buffers.len() {
        if i < recovered.len() {
            assert(is_recovered_as(recovered[i], buffers[i]@));
        } else {
            let j = i - recovered.len();
            assert(is_reopened_as(tabs[kept[j]], buffers[recovered.len() + j]@));
        }
    } else {
        assert forall|j: int| 0 <= j < recovered.len() implies (#[trigger] recovered[j]).id
            != id by {
            assert(is_recovered_as(recovered[j], buffers[j]@));
        }
        assert forall|j: int| 0 <= j < kept.len() implies tabs[#[trigger] kept[j]].id != id by {
            assert(is_reopened_as(tabs[kept[j]], buffers[recovered.len() + j]@));
        }
    }
}

fn restore_buffers(recovered: &Vec<RecoveredBuffer>, tabs: &Vec<TabMetadata>) -> (buffers: Vec<
    Buffer,
>)
    ensures
        buffers@.len() > 0,
        forall|i: int| 0 <= i < buffers@.len() ==> (#[trigger] buffers@[i]).wf(),
        buffers_restored(recovered@, tabs@, buffers@),
{
    let mut buffers: Vec<Buffer> = Vec::new();
    for i in 0..recovered.len()
        invariant
            buffers@.len() == i,
            forall|j: int| 0 <= j < i ==> (#[trigger] buffers@[j]).wf(),
            forall|j: int| 0 <= j < i ==> is_recovered_as(#[trigger] recovered@[j], buffers@[j]@),
    {
        buffers.push(recover_buffer(&recovered[i]));
    }
    assert(holds_documents(recovered@, tabs@, reopened(recovered@, tabs@, 0), buffers@));
    for k in 0..tabs.len()
        invariant
            forall|j: int| 0 <= j < buffers@.len() ==> (#[trigger] buffers@[j]).wf(),
            holds_documents(
                recovered@,
                tabs@,
                reopened(recovered@, tabs@, k as int),
                buffers@,
            ),
    {
        let ghost kept = reopened(recovered@, tabs@, k as int);
        let ghost before = buffers@;
        let t = &tabs[k];
        proof {
            lemma_taken(recovered@, tabs@, kept, buffers@, t.id);
        }
        let there = buffer_place(&buffers, t.id) < buffers.len();
        let unread = t.path.is_some() && t.content.is_none();
        if !there && !unread {
            buffers.push(reopen_tab(t));
            let ghost now = reopened(recovered@, tabs@, k + 1);
            assert(now == kept.push(k as int));
            assert forall|i: int| 0 <= i < recovered@.len() implies is_recovered_as(
                #[trigger] recovered@[i],
                buffers@[i]@,
            ) by {
                assert(buffers@[i] == before[i]);
            }
            assert forall|i: int| 0 <= i < now.len() implies is_reopened_as(
                tabs@[#[trigger] now[i]],
                buffers@[recovered@.len() + i]@,
            ) by {
                if i < kept.len() {
                    assert(now[i] == kept[i]);
                    assert(buffers@[recovered@.len() + i] == before[recovered@.len() + i]);
                }
            }
        }
    }
    if buffers.len() == 0 {
        buffers.push(Buffer::new(DocumentId::new(), Language::PlainText, "fn main() {}\n"));
    }
    buffers
}

fn restore_tabs(
    recovered: &Vec<RecoveredBuffer>,
    tabs: &Vec<TabMetadata>,
    buffers: &Vec<Buffer>,
) -> (shown: Vec<EditorTabState>)
    ensures
        shown@ == shown_tabs(recovered@, tabs@, buffers@, tabs@.len() as int),
{
    let mut shown: Vec<EditorTabState> = Vec::new();
    assert(shown@ =~= recovered_tabs(recovered@, 0));
    for k in 0..recovered.len()
        invariant
            shown@ == recovered_tabs(recovered@, k as int),
    {
        let id = recovered[k].id;
        if tab_place(&shown, id) >= shown.len() {
            shown.push(
                EditorTabState {
                    doc_id: id,
                    scroll_line: 0,
                    cursor_byte: 0,
                    selection_anchor: None,
                },
            );
        }
    }
    for k in 0..tabs.len()
        invariant
            shown@ == shown_tabs(recovered@, tabs@, buffers@, k as int),
    {
        let t = &tabs[k];
        if buffer_place(buffers, t.id) < buffers.len() && tab_place(&shown, t.id) >= shown.len() {
            let scroll_line: u16 = #[verifier::truncate]
            (t.scroll_top_line as u16);
            shown.push(
                EditorTabState {
                    doc_id: t.id,
                    scroll_line,
                    cursor_byte: t.cursor_byte,
                    selection_anchor: t.selection_start_byte,
                },
            );
        }
    }
    shown
}

/// Whether a layout can be worked with: its rows and columns can be counted.
pub fn layout_fits(layout: &WorkbenchLayout) -> (yes: bool)
    ensures
        yes == (layout.wf() && rows_fit(layout.geometry())),
{
    let rows: u32 = layout.toolbar_h as u32 + layout.authority_h as u32 + layout.status_h as u32;
    rows + layout.bottom_header_h as u32 + 4 <= 65535 && layout.status_h <= layout.height
        && layout.status_h as u32 + layout.bottom_height as u32 <= 65535 && 4
        + layout.left_width as u32 <= 65535 && 4 + layout.context_width as u32 <= 65535 && rows + 5
        <= 65535 && layout.status_h <= 20
}

impl App {
    fn idle(
        epoch: WorkspaceEpoch,
        layout: WorkbenchLayout,
        buffers: Vec<Buffer>,
        current: DocumentId,
        max_diagnostics: usize,
    ) -> (app: Self)
        ensures
            is_idle(app, max_diagnostics),
            app.epoch == epoch,
            app.layout == layout,
            app.buffers == buffers,
            app.current_doc == Some(current),
            app.authorities@.len() == 1,
            is_host(app.authorities@[0]),
            app.focus == Landmark::Editor,
            app.workspace_root@ == "/workspace"@,
            app.lsp_grants@.len() == 0,
    {
        let mut authorities: Vec<AuthorityState> = Vec::new();
        authorities.push(host());
        App {
            epoch,
            layout,
            buffers,
            current_doc: Some(current),
            authorities,
            current_authority: 0,
            focus: Landmark::Editor,
            overlay: Overlay::Closed,
            status: StatusMessage::Empty,
            workspace_root: "/workspace".to_owned(),
            workspace_name: "workspace".to_owned(),
            project: ProjectTreeSnapshot { tree: None, loading: true, scroll: 0, selected_row: 0 },
            terminal: TerminalState {
                session: None,
                starting: false,
                launch_id: 0,
                capture: false,
            },
            journal: RetainedJournal { checkpoints: HashMap::new(), compactions: HashMap::new() },
            syntax: SyntaxState { highlights: HashMap::new(), retained: HashMap::new() },
            lsp_grants: Vec::new(),
            services: LanguageServices {
                states: Vec::new(),
                counts: Vec::new(),
                servers: Vec::new(),
                serialized: Vec::new(),
                sessions: Vec::new(),
                diagnostics: Vec::new(),
                max_diagnostics,
            },
            local_authority: None,
            ssh_authorities: Vec::new(),
            submitted_ssh_passphrase: None,
            pending_definition: None,
            pending_definition_open: None,
        }
    }

    /// The workbench of a first run, with what the journal still had.
    pub fn new_from_recovery(recovery: Recovery, max_diagnostics: usize) -> (app: Self)
        ensures
            app.wf(),
            recovered_app(recovery, max_diagnostics, app),
    {
        let tabs: Vec<TabMetadata> = Vec::new();
        assert(tabs@ =~= Seq::empty());
        let buffers = restore_buffers(&recovery.buffers, &tabs);
        let current = buffers[0].id();
        let mut layout = WorkbenchLayout::default();
        layout.open_or_focus_editor(current);
        assert(layout.tabs().editor_tabs =~= seq![fresh_tab(current)]);
        App::idle(WorkspaceEpoch(0), layout, buffers, current, max_diagnostics)
    }

    /// The workbench that is made of what was kept and of what the journal still
    /// had. Documents of the journal come first.
    pub fn restore_state(state: AppState, recovery: Recovery, max_diagnostics: usize) -> (app: Self)
        requires
            state.layout.wf(),
            rows_fit(state.layout.geometry()),
        ensures
            app.wf(),
            state_restored(state, recovery, max_diagnostics, app),
    {
        let buffers = restore_buffers(&recovery.buffers, &state.tabs);
        let kept: Option<DocumentId> = match state.current_tab {
            Some(id) => if buffer_place(&buffers, id) < buffers.len() {
                Some(id)
            } else {
                None
            },
            None => None,
        };
        let current: DocumentId = match kept {
            Some(id) => id,
            None => if recovery.buffers.len() > 0 {
                recovery.buffers[0].id
            } else {
                buffers[0].id()
            },
        };
        let shown = restore_tabs(&recovery.buffers, &state.tabs, &buffers);
        let place: usize = tab_place(&shown, current);
        let count: usize = shown.len();
        let mut layout = state.layout;
        layout.editor_tabs = shown;
        layout.active_editor_tab = if place < count {
            place
        } else {
            0
        };
        if count == 0 {
            layout.open_or_focus_editor(current);
            assert(layout.tabs().editor_tabs =~= seq![fresh_tab(current)]);
        }
        let focus = landmark_named(state.focus.as_str());
        let mut app = App::idle(state.epoch, layout, buffers, current, max_diagnostics);
        app.focus = focus;
        app.lsp_grants = state.lsp_grants;
        if state.trust.len() > 0 {
            let mut authorities: Vec<AuthorityState> = Vec::new();
            for i in 0..state.trust.len()
                invariant
                    authorities@ == state.trust@.take(i as int).map_values(
                        |t: TrustRecord| restored_authority(t),
                    ),
            {
                authorities.push(restore_authority(&state.trust[i]));
                assert(authorities@ =~= state.trust@.take(i + 1).map_values(
                    |t: TrustRecord| restored_authority(t),
                ));
            }
            assert(state.trust@.take(state.trust@.len() as int) =~= state.trust@);
            app.authorities = authorities;
            app.workspace_root = state.trust[0].workspace_root.clone();
        }
        app
    }

    /// What is kept of the workbench at the end of a run.
    pub fn to_state(&self) -> (state: AppState)
        ensures
            is_state_of(*self, state),
    {
        let mut trust: Vec<TrustRecord> = Vec::new();
        for i in 0..self.authorities.len()
            invariant
                trust@.len() == i,
                forall|j: int|
                    0 <= j < i ==> is_trust_record(
                        #[trigger] self.authorities@[j],
                        self.workspace_root,
                        trust@[j],
                    ),
        {
            let a = &self.authorities[i];
            trust.push(
                TrustRecord {
                    workspace_root: self.workspace_root.clone(),
                    authority: a.label.clone(),
                    kind: match a.kind {
                        AuthorityKind::Local => "local".to_owned(),
                        AuthorityKind::Ssh => "ssh".to_owned(),
                        AuthorityKind::DevContainer => "dev_container".to_owned(),
                    },
                    level: match a.trust {
                        TrustLevel::Trusted => "trusted".to_owned(),
                        TrustLevel::InspectOnly => "inspect_only".to_owned(),
                    },
                },
            );
        }
        let mut tabs: Vec<TabMetadata> = Vec::new();
        assert(tabs@ =~= kept_tabs(self.layout.editor_tabs@, self.buffers@, 0));
        for k in 0..self.layout.editor_tabs.len()
            invariant
                tabs@ == kept_tabs(self.layout.editor_tabs@, self.buffers@, k as int),
        {
            let tab: EditorTabState = self.layout.editor_tabs[k];
            let i: usize = buffer_place(&self.buffers, tab.doc_id);
            if i < self.buffers.len() {
                let buffer = &self.buffers[i];
                tabs.push(
                    TabMetadata {
                        id: tab.doc_id,
                        path: match buffer.path() {
                            Some(path) => Some(path.clone()),
                            None => None,
                        },
                        last_known_revision: buffer.revision(),
                        cursor_byte: tab.cursor_byte,
                        scroll_top_line: tab.scroll_line as usize,
                        selection_start_byte: tab.selection_anchor,
                        selection_end_byte: Some(tab.cursor_byte),
                        content: None,
                        language: buffer.language(),
                    },
                );
            }
        }
        let mut lsp_grants: Vec<LspGrantRecord> = Vec::new();
        for i in 0..self.lsp_grants.len()
            invariant
                lsp_grants@ == self.lsp_grants@.take(i as int),
        {
            lsp_grants.push(self.lsp_grants[i].clone());
            assert(lsp_grants@ =~= self.lsp_grants@.take(i + 1));
        }
        assert(lsp_grants@ =~= self.lsp_grants@);
        AppState {
            version: 1,
            epoch: self.epoch,
            layout: self.layout.clone(),
            tabs,
            current_tab: self.current_doc,
            focus: name_of_landmark(self.focus).to_owned(),
            trust,
            lsp_grants,
        }
    }
}

/// What is kept of an open document names it and says where its file is, which revision
/// it had, and where its cursor, its selection and its first line were.
pub proof fn kept_tabs_say_where_the_cursor_was(
    tabs: Seq<EditorTabState>,
    buffers: Seq<Buffer>,
    k: int,
    i: int,
    b: int,
)
    requires
        0 <= i < k <= tabs.len(),
        0 <= b < buffers.len(),
        buffers[b]@.id == tabs[i].doc_id,
        forall|j: int| 0 <= j < b ==> (#[trigger] buffers[j])@.id != tabs[i].doc_id,
    ensures
        exists|j: int|
            0 <= j < kept_tabs(tabs, buffers, k).len() && {
                let t = #[trigger] kept_tabs(tabs, buffers, k)[j];
                &&& t.id == tabs[i].doc_id
                &&& t.cursor_byte == tabs[i].cursor_byte
                &&& t.scroll_top_line == tabs[i].scroll_line
                &&& t.selection_start_byte == tabs[i].selection_anchor
                &&& t.path == backing(buffers[b]@.path_state)
                &&& t.last_known_revision == buffers[b]@.revision
                &&& t.language == buffers[b]@.language
            },
    decreases k,
{
    if i < k - 1 {
        kept_tabs_say_where_the_cursor_was(tabs, buffers, k - 1, i, b);
        let before = kept_tabs(tabs, buffers, k - 1);
        let j = choose|j: int|
            0 <= j < before.len() && {
                let t = #[trigger] before[j];
                &&& t.id == tabs[i].doc_id
                &&& t.cursor_byte == tabs[i].cursor_byte
                &&& t.scroll_top_line == tabs[i].scroll_line
                &&& t.selection_start_byte == tabs[i].selection_anchor
                &&& t.path == backing(buffers[b]@.path_state)
                &&& t.last_known_revision == buffers[b]@.revision
                &&& t.language == buffers[b]@.language
            };
        assert(kept_tabs(tabs, buffers, k)[j] == before[j]);
    } else {
        lemma_buffer_from(buffers, tabs[i].doc_id, 0);
        let before = kept_tabs(tabs, buffers, k - 1);
        assert(kept_tabs(tabs, buffers, k)[before.len() as int] == kept_tab(tabs[i], buffers[b]@));
    }
}

/// A tab that was kept comes back with its cursor, its selection and its first line,
/// where its document is open and has no tab of its own already.
pub proof fn kept_tabs_come_back(
    recovered: Seq<RecoveredBuffer>,
    tabs: Seq<TabMetadata>,
    buffers: Seq<Buffer>,
    k: int,
    i: int,
)
    requires
        0 <= i < k <= tabs.len(),
        exists|b: int| 0 <= b < buffers.len() && (#[trigger] buffers[b])@.id == tabs[i].id,
        forall|j: int| 0 <= j < recovered.len() ==> (#[trigger] recovered[j]).id != tabs[i].id,
        forall|j: int| 0 <= j < i ==> (#[trigger] tabs[j]).id != tabs[i].id,
        tabs[i].scroll_top_line <= u16::MAX,
    ensures
        exists|j: int|
            0 <= j < shown_tabs(recovered, tabs, buffers, k).len() && {
                let t = #[trigger] shown_tabs(recovered, tabs, buffers, k)[j];
                &&& t.doc_id == tabs[i].id
                &&& t.cursor_byte == tabs[i].cursor_byte
                &&& t.scroll_line == tabs[i].scroll_top_line
                &&& t.selection_anchor == tabs[i].selection_start_byte
            },
    decreases k,
{
    let before = shown_tabs(recovered, tabs, buffers, k - 1);
    let now = shown_tabs(recovered, tabs, buffers, k);
    if i < k - 1 {
        kept_tabs_come_back(recovered, tabs, buffers, k - 1, i);
        let j = choose|j: int|
            0 <= j < before.len() && {
                let t = #[trigger] before[j];
                &&& t.doc_id == tabs[i].id
                &&& t.cursor_byte == tabs[i].cursor_byte
                &&& t.scroll_line == tabs[i].scroll_top_line
                &&& t.selection_anchor == tabs[i].selection_start_byte
            };
        assert(now[j] == before[j]);
    } else {
        lemma_buffer_from(buffers, tabs[i].id, 0);
        lemma_tabs_of_others(recovered, tabs, buffers, k - 1, tabs[i].id);
        lemma_first_tab(before, tabs[i].id, 0);
        assert(now[before.len() as int].doc_id == tabs[i].id);
    }
}

/// No tab is shown for a document that is neither recovered nor among the kept tabs.
proof fn lemma_tabs_of_others(
    recovered: Seq<RecoveredBuffer>,
    tabs: Seq<TabMetadata>,
    buffers: Seq<Buffer>,
    k: int,
    id: DocumentId,
)
    requires
        0 <= k <= tabs.len(),
        forall|j: int| 0 <= j < recovered.len() ==> (#[trigger] recovered[j]).id != id,
        forall|j: int| 0 <= j < k ==> (#[trigger] tabs[j]).id != id,
    ensures
        forall|j: int|
            0 <= j < shown_tabs(recovered, tabs, buffers, k).len() ==> (#[trigger] shown_tabs(
                recovered,
                tabs,
                buffers,
                k,
            )[j]).doc_id != id,
    decreases k,
{
    if k > 0 {
        lemma_tabs_of_others(recovered, tabs, buffers, k - 1, id);
    } else {
        lemma_recovered_of_others(recovered, recovered.len() as int, id);
    }
}

proof fn lemma_recovered_of_others(recovered: Seq<RecoveredBuffer>, k: int, id: DocumentId)
    requires
        0 <= k <= recovered.len(),
        forall|j: int| 0 <= j < recovered.len() ==> (#[trigger] recovered[j]).id != id,
    ensures
        forall|j: int|
            0 <= j < recovered_tabs(recovered, k).len() ==> (#[trigger] recovered_tabs(
                recovered,
                k,
            )[j]).doc_id != id,
    decreases k,
{
    if k > 0 {
        lemma_recovered_of_others(recovered, k - 1, id);
        assert(recovered[k - 1].id != id);
    }
}

/// A recovered document has the text and the revision that the journal had of it and is
/// not saved; a reopened one has the text of its file and is saved.
pub proof fn restored_documents_hold_their_text(
    r: RecoveredBuffer,
    t: TabMetadata,
    b: BufferView,
)
    ensures
        is_recovered_as(r, b) ==> b.id == r.id && b.text == r.content@ && b.revision == r.revision
            && b.dirty && b.language == r.language && (r.path matches Some(p) ==> backing(
            b.path_state,
        ) == Some(p)),
        is_reopened_as(t, b) ==> b.id == t.id && (t.content matches Some(c) ==> b.text == c@)
            && b.revision == t.last_known_revision && !b.dirty && b.language == t.language && (
        t.path matches Some(p) ==> b.path_state == BufferPathState::Saved(p)),
{
}

/// The document that was shown is shown again if it is open; else one that was
/// recovered, before any other.
pub proof fn shown_document_comes_back(
    kept: Option<DocumentId>,
    recovered: Seq<RecoveredBuffer>,
    buffers: Seq<Buffer>,
)
    ensures
        kept matches Some(id) ==> ((exists|b: int|
            0 <= b < buffers.len() && (#[trigger] buffers[b])@.id == id) ==> restored_current(
            kept,
            recovered,
            buffers,
        ) == id),
        kept is None && recovered.len() > 0 ==> restored_current(kept, recovered, buffers)
            == recovered[0].id,
        kept is None && recovered.len() == 0 ==> restored_current(kept, recovered, buffers)
            == buffers[0]@.id,
{
    if let Some(id) = kept {
        lemma_buffer_from(buffers, id, 0);
    }
}

/// The focus, the kinds and the levels are kept under the words that name them.
pub proof fn kept_words_name_what_they_keep()
    ensures
        landmark_name(Landmark::Toolbar) == "Toolbar"@,
        landmark_name(Landmark::Authority) == "Authority"@,
        landmark_name(Landmark::LeftStripe) == "LeftStripe"@,
        landmark_name(Landmark::PrimaryPane) == "PrimaryPane"@,
        landmark_name(Landmark::Editor) == "Editor"@,
        landmark_name(Landmark::ContextPane) == "ContextPane"@,
        landmark_name(Landmark::RightStripe) == "RightStripe"@,
        landmark_name(Landmark::BottomPane) == "BottomPane"@,
        landmark_name(Landmark::StatusBar) == "StatusBar"@,
        kind_name(AuthorityKind::Local) == "local"@,
        kind_name(AuthorityKind::Ssh) == "ssh"@,
        kind_name(AuthorityKind::DevContainer) == "dev_container"@,
        level_name(TrustLevel::Trusted) == "trusted"@,
        level_name(TrustLevel::InspectOnly) == "inspect_only"@,
        forall|word: Seq<char>| #[trigger] level_of(word) == TrustLevel::Trusted ==> word == "trusted"@,
{
}

} // verus!
