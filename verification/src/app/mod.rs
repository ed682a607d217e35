//! The workbench: open documents, focus, overlays, terminals, trust and language
//! services, and how each action changes them.
use std::collections::HashMap;

use vstd::prelude::*;

use crate::action::HighlightSpan;
use crate::authority::local::LocalAuthority;
use crate::authority::ssh::SshAuthority;
use crate::buffer::{Buffer, BufferView, CheckpointPayload};
use crate::config::LanguageServerConfig;
use crate::document::{DocumentId, DocumentRevision, WorkspaceEpoch};
use crate::layout::{Geometry, Landmark, WorkbenchLayout};
use crate::lsp::{LanguageServiceState, SupervisorKey};
use crate::protocol::lsp::{LspContext, LspPosition, LspRange};
use crate::secret::Secret;

pub mod authorities;
pub mod completion;
pub mod dispatch;
pub mod editing;
pub mod events;
pub mod files;
pub mod journal;
pub mod overlay;
pub mod payload;
pub mod persist;
pub mod rename;
pub mod requests;
pub mod services;
pub mod session;
pub mod snapshot;
pub mod start;
pub mod status;
pub mod terminal;
pub mod trust;

use self::status::StatusMessage;

verus! {

#[derive(Clone, Copy, Debug, PartialEq, Eq, Structural)]
pub enum TrustLevel {
    Trusted,
    InspectOnly,
}

#[derive(Clone, Copy, Debug, PartialEq, Eq, Structural)]
pub enum AuthorityKind {
    Local,
    Ssh,
    DevContainer,
}

#[derive(Clone, Copy, Debug, PartialEq, Eq, Structural)]
pub enum AuthorityConnectionState {
    Disconnected,
    Connecting,
    Connected,
    Lost,
}

impl Default for AuthorityConnectionState {
    fn default() -> (state: Self)
        ensures
            state == AuthorityConnectionState::Disconnected,
    {
        AuthorityConnectionState::Disconnected
    }
}

/// An authority as the workbench shows it.
#[derive(Debug, PartialEq, Eq)]
pub struct AuthorityState {
    pub kind: AuthorityKind,
    pub label: String,
    pub trust: TrustLevel,
    pub connection: AuthorityConnectionState,
}

impl Clone for AuthorityState {
    fn clone(&self) -> (copy: Self)
        ensures
            copy == *self,
    {
        AuthorityState { label: self.label.clone(), ..*self }
    }
}

#[derive(Clone, Copy, Debug, PartialEq, Eq, Structural)]
pub enum PtySessionState {
    Running,
    Exited,
    Lost,
}

/// The terminal: its session if there is one, whether one is being started, under
/// which number, and whether it gets what is typed.
#[derive(Clone, Copy, Debug, PartialEq, Eq, Structural)]
pub struct TerminalState {
    pub session: Option<PtySessionState>,
    pub starting: bool,
    pub launch_id: u64,
    pub capture: bool,
}

/// The project pane: how many entries are visible once the tree is there, how far
/// it is scrolled, and which row is selected.
#[derive(Clone, Copy, Debug, PartialEq, Eq, Structural)]
pub struct ProjectTreeSnapshot {
    pub tree: Option<usize>,
    pub loading: bool,
    pub scroll: u16,
    pub selected_row: u16,
}

impl Default for ProjectTreeSnapshot {
    fn default() -> (p: Self)
        ensures
            p == (ProjectTreeSnapshot { tree: None, loading: false, scroll: 0, selected_row: 0 }),
    {
        ProjectTreeSnapshot { tree: None, loading: false, scroll: 0, selected_row: 0 }
    }
}

/// A completion that a language server offers.
#[derive(Debug, PartialEq, Eq)]
pub struct CompletionCandidate {
    pub label: String,
    pub detail: Option<String>,
    pub replacement: String,
}

/// A definition whose file is still to be opened.
#[derive(Debug, PartialEq, Eq)]
pub struct PendingDefinition {
    pub path: String,
    pub range: LspRange,
}

/// A server configuration that may be run by an authority on a workspace.
#[derive(Debug, PartialEq, Eq)]
pub struct LspGrantRecord {
    pub workspace_root: String,
    pub authority: String,
    pub config_digest: String,
}

/// A command of the palette.
#[derive(Clone, Copy, Debug, PartialEq, Eq, Structural)]
pub enum PaletteItem {
    ReviewTrust,
    RevokeTrust,
}

/// What is open on top of the workbench, with what had the focus before.
#[derive(Debug, PartialEq, Eq)]
#[allow(inconsistent_fields)]
pub enum Overlay {
    Closed,
    TrustReview {
        focused_grant: bool,
        invoker: Landmark,
        workspace_root: String,
        authority_label: String,
    },
    CommandPalette {
        query: String,
        items: Vec<PaletteItem>,
        selected: usize,
        invoker: Landmark,
    },
    SaveAs { path: String, invoker: Landmark, doc_id: DocumentId },
    /// A rename; `preparation` names what the server prepared for it.
    RenameInput {
        document_id: DocumentId,
        key: SupervisorKey,
        context: LspContext,
        position: LspPosition,
        preparation: u64,
        new_name: String,
        invoker: Landmark,
    },
    SshPassphrase { authority_label: String, passphrase: Secret, invoker: Landmark },
    Completion {
        document_id: DocumentId,
        revision: DocumentRevision,
        position: LspPosition,
        candidates: Vec<CompletionCandidate>,
        selected: usize,
        invoker: Landmark,
    },
    Hover { document: String, invoker: Landmark },
}

/// Whether the selection of a list on top is one of its entries.
pub open spec fn overlay_wf(overlay: Overlay) -> bool {
    match overlay {
        Overlay::CommandPalette { items, selected, .. } => items@.len() == 0 || selected
            < items@.len(),
        Overlay::Completion { candidates, selected, .. } => candidates@.len() == 0 || selected
            < candidates@.len(),
        _ => true,
    }
}

/// A change of a document that a language server is told of.
#[derive(Debug, PartialEq, Eq)]
pub struct LspChange {
    pub context: LspContext,
    pub uri: String,
    pub version: i32,
    pub text: String,
}

/// A session with a language server for one document.
#[derive(Debug, PartialEq, Eq)]
pub struct LspSession {
    pub key: SupervisorKey,
    pub document_id: DocumentId,
    pub context: LspContext,
    /// The latest change that could not be handed over yet.
    pub pending_change: Option<LspChange>,
    pub config_digest: String,
}

#[derive(Clone, Copy, Debug, PartialEq, Eq, Structural)]
pub enum NormalizedDiagnosticSeverity {
    Error,
    Warning,
    Information,
    Hint,
}

#[derive(Debug, PartialEq, Eq)]
pub struct ProblemDiagnostic {
    pub document_id: DocumentId,
    pub uri: String,
    pub range: LspRange,
    pub severity: Option<NormalizedDiagnosticSeverity>,
    pub message: String,
    pub source: Option<String>,
}

/// The problems that one service found in one document.
#[derive(Debug, PartialEq, Eq)]
pub struct Problems {
    pub key: SupervisorKey,
    pub document_id: DocumentId,
    pub entries: Vec<ProblemDiagnostic>,
}

/// What the workbench knows of its language services.
pub struct LanguageServices {
    pub states: Vec<(SupervisorKey, LanguageServiceState)>,
    pub counts: Vec<(SupervisorKey, usize)>,
    pub servers: Vec<LanguageServerConfig>,
    /// The serialized form of each server, which its grants are bound to.
    pub serialized: Vec<Vec<u8>>,
    pub sessions: Vec<LspSession>,
    pub diagnostics: Vec<Problems>,
    /// The most diagnostics that one service may report.
    pub max_diagnostics: usize,
}

/// Checkpoints and saved revisions that the journal could not take yet, the latest
/// of each document.
pub struct RetainedJournal {
    pub checkpoints: HashMap<u128, CheckpointPayload>,
    pub compactions: HashMap<u128, DocumentRevision>,
}

/// The highlights of each document with their revision, and the revision
/// and text that were parsed last, with whether that gave a syntax tree.
pub struct SyntaxState {
    pub highlights: HashMap<u128, (DocumentRevision, Vec<HighlightSpan>)>,
    pub retained: HashMap<u128, (DocumentRevision, bool, String)>,
}

pub struct App {
    pub epoch: WorkspaceEpoch,
    pub layout: WorkbenchLayout,
    pub buffers: Vec<Buffer>,
    pub current_doc: Option<DocumentId>,
    pub authorities: Vec<AuthorityState>,
    pub current_authority: usize,
    pub focus: Landmark,
    pub overlay: Overlay,
    pub status: StatusMessage,
    pub workspace_root: String,
    pub workspace_name: String,
    pub project: ProjectTreeSnapshot,
    pub terminal: TerminalState,
    pub journal: RetainedJournal,
    pub syntax: SyntaxState,
    pub lsp_grants: Vec<LspGrantRecord>,
    pub services: LanguageServices,
    pub local_authority: Option<LocalAuthority>,
    pub ssh_authorities: Vec<SshAuthority>,
    pub submitted_ssh_passphrase: Option<(String, Secret)>,
    pub pending_definition: Option<PendingDefinition>,
    pub pending_definition_open: Option<String>,
}

/// What a language server is asked for.
#[derive(Clone, Copy, Debug, PartialEq, Eq, Structural)]
pub enum LspProviderKind {
    Completion,
    Hover,
    Definition,
    RenamePreparation,
    Rename,
}

/// What has to be found out before an action is complete.
#[derive(Debug, PartialEq, Eq)]
pub enum FollowUp {
    Nothing,
    /// Where the selected completion goes in its document.
    PlaceCompletion,
    /// Where a definition is in the document that was opened for it.
    PlaceDefinition(LspRange),
    /// What became of the rows when a directory was opened or closed.
    ToggleDir(String),
    /// Where the cursor is, for a request to a language server.
    AskServer(LspProviderKind),
    /// Whether the session of a rename takes it.
    SendRename,
}

/// What has to be done outside the workbench for an action.
#[derive(Debug, PartialEq, Eq)]
pub struct Effects {
    /// The terminal session that there was is ended.
    pub end_terminal: bool,
    pub terminal_input: Option<Vec<u8>>,
    /// The rows and columns that the terminal has now.
    pub terminal_size: Option<(u16, u16)>,
    /// The sessions with language servers that there were are ended.
    pub end_lsp_sessions: bool,
    pub start_language_service: bool,
    pub queue_lsp_change: bool,
    pub checkpoint: Option<CheckpointPayload>,
    pub ack_save: Option<(DocumentId, DocumentRevision)>,
    pub follow_up: FollowUp,
}

/// Nothing to be done.
pub open spec fn no_effects() -> Effects {
    Effects {
        end_terminal: false,
        terminal_input: None,
        terminal_size: None,
        end_lsp_sessions: false,
        start_language_service: false,
        queue_lsp_change: false,
        checkpoint: None,
        ack_save: None,
        follow_up: FollowUp::Nothing,
    }
}

impl Effects {
    pub fn none() -> (effects: Self)
        ensures
            effects == no_effects(),
    {
        Effects {
            end_terminal: false,
            terminal_input: None,
            terminal_size: None,
            end_lsp_sessions: false,
            start_language_service: false,
            queue_lsp_change: false,
            checkpoint: None,
            ack_save: None,
            follow_up: FollowUp::Nothing,
        }
    }
}

/// The first buffer of a document, from index `i` on; the number of buffers if
/// there is none.
pub open spec fn buffer_from(buffers: Seq<Buffer>, id: DocumentId, i: int) -> int
    decreases buffers.len() - i,
{
    if i >= buffers.len() {
        buffers.len() as int
    } else if buffers[i]@.id == id {
        i
    } else {
        buffer_from(buffers, id, i + 1)
    }
}

/// The place of the buffer of a document.
pub open spec fn buffer_at(app: App, id: DocumentId) -> int {
    buffer_from(app.buffers@, id, 0)
}

/// Whether a document has a buffer.
pub open spec fn has_buffer(app: App, id: DocumentId) -> bool {
    buffer_at(app, id) < app.buffers@.len()
}

/// What the buffer of a document holds.
pub open spec fn buffer_of(app: App, id: DocumentId) -> BufferView {
    app.buffers@[buffer_at(app, id)]@
}

pub proof fn lemma_buffer_from(buffers: Seq<Buffer>, id: DocumentId, i: int)
    requires
        0 <= i <= buffers.len(),
    ensures
        i <= buffer_from(buffers, id, i) <= buffers.len(),
        buffer_from(buffers, id, i) < buffers.len() ==> buffers[buffer_from(
            buffers,
            id,
            i,
        )]@.id == id,
        forall|j: int|
            i <= j < buffer_from(buffers, id, i) ==> (#[trigger] buffers[j])@.id != id,
    decreases buffers.len() - i,
{
    if i < buffers.len() && buffers[i]@.id != id {
        lemma_buffer_from(buffers, id, i + 1);
    }
}

/// The authority that is selected, if there is one.
pub open spec fn selected_authority(app: App) -> Option<AuthorityState> {
    if app.current_authority < app.authorities@.len() {
        Some(app.authorities@[app.current_authority as int])
    } else {
        None
    }
}

/// The trust in the selected authority; none without one.
pub open spec fn trust_of(app: App) -> TrustLevel {
    match selected_authority(app) {
        Some(a) => a.trust,
        None => TrustLevel::InspectOnly,
    }
}

/// The first SSH authority with a label, from index `i` on; their number if there
/// is none.
pub open spec fn ssh_from(authorities: Seq<SshAuthority>, label: Seq<char>, i: int) -> int
    decreases authorities.len() - i,
{
    if i >= authorities.len() {
        authorities.len() as int
    } else if authorities[i].base.label@ == label {
        i
    } else {
        ssh_from(authorities, label, i + 1)
    }
}

/// The place of the SSH authority that is selected; their number if none is.
pub open spec fn selected_ssh(app: App) -> int {
    match selected_authority(app) {
        Some(a) => if a.kind == AuthorityKind::Ssh {
            ssh_from(app.ssh_authorities@, a.label@, 0)
        } else {
            app.ssh_authorities@.len() as int
        },
        None => app.ssh_authorities@.len() as int,
    }
}

/// Whether the rows above and below the panes leave room on the smallest screen.
pub open spec fn rows_fit(g: Geometry) -> bool {
    g.toolbar_h + g.authority_h + g.status_h + 5 <= u16::MAX && g.status_h <= 20
}

/// The next number of a terminal launch.
pub open spec fn next_launch(id: u64) -> u64 {
    if id < u64::MAX {
        (id + 1) as u64
    } else {
        0
    }
}

impl App {
    /// Whether the parts are in order: the layout fits, each buffer has one ledger
    /// per server, and the servers have their serialized forms.
    pub open spec fn wf(&self) -> bool {
        &&& self.layout.wf()
        &&& forall|i: int| 0 <= i < self.buffers@.len() ==> (#[trigger] self.buffers@[i]).wf()
        &&& self.services.serialized@.len() == self.services.servers@.len()
        &&& self.project.tree is Some ==> self.project.tree->0 <= i32::MAX
        &&& overlay_wf(self.overlay)
        &&& rows_fit(self.layout.geometry())
        &&& self.current_authority < self.authorities@.len()
    }

    /// Whether every buffer can take another edit.
    pub open spec fn editable(&self) -> bool {
        forall|i: int|
            0 <= i < self.buffers@.len() ==> (#[trigger] self.buffers@[i])@.revision.0 < u64::MAX
    }

    /// Whether every buffer can take another edit.
    pub fn can_edit(&self) -> (yes: bool)
        ensures
            yes == self.editable(),
    {
        for i in 0..self.buffers.len()
            invariant
                forall|j: int|
                    0 <= j < i ==> (#[trigger] self.buffers@[j])@.revision.0 < u64::MAX,
        {
            if self.buffers[i].revision().0 == 0xffff_ffff_ffff_ffff {
                return false;
            }
        }
        true
    }

    /// The place of the buffer of a document.
    pub(crate) fn find_buffer(&self, id: DocumentId) -> (i: usize)
        ensures
            i == buffer_at(*self, id),
            i <= self.buffers@.len(),
            i < self.buffers@.len() ==> self.buffers@[i as int]@.id == id,
    {
        let mut i: usize = 0;
        while i < self.buffers.len()
            invariant
                i <= self.buffers@.len(),
                buffer_at(*self, id) == buffer_from(self.buffers@, id, i as int),
            decreases self.buffers@.len() - i,
        {
            if self.buffers[i].id() == id {
                return i;
            }
            i += 1;
        }
        i
    }

    /// The place of the SSH authority with a label.
    pub(crate) fn find_ssh(&self, label: &String) -> (i: usize)
        ensures
            i == ssh_from(self.ssh_authorities@, label@, 0),
            i <= self.ssh_authorities@.len(),
    {
        let mut i: usize = 0;
        while i < self.ssh_authorities.len()
            invariant
                i <= self.ssh_authorities@.len(),
                ssh_from(self.ssh_authorities@, label@, 0) == ssh_from(
                    self.ssh_authorities@,
                    label@,
                    i as int,
                ),
            decreases self.ssh_authorities@.len() - i,
        {
            if self.ssh_authorities[i].base.label == *label {
                return i;
            }
            i += 1;
        }
        i
    }

    /// The place of the SSH authority that is selected.
    pub(crate) fn current_ssh_authority(&self) -> (i: usize)
        ensures
            i == selected_ssh(*self),
            i <= self.ssh_authorities@.len(),
    {
        if self.current_authority < self.authorities.len() {
            let current = &self.authorities[self.current_authority];
            if current.kind == AuthorityKind::Ssh {
                return self.find_ssh(&current.label);
            }
        }
        self.ssh_authorities.len()
    }

    /// The trust in the selected authority.
    pub fn current_trust(&self) -> (trust: TrustLevel)
        ensures
            trust == trust_of(*self),
    {
        if self.current_authority < self.authorities.len() {
            self.authorities[self.current_authority].trust
        } else {
            TrustLevel::InspectOnly
        }
    }

    pub fn workspace_root(&self) -> (root: &str)
        ensures
            root@ == self.workspace_root@,
    {
        self.workspace_root.as_str()
    }

    /// Whether a terminal is being started.
    pub fn terminal_start_in_flight(&self) -> (yes: bool)
        ensures
            yes == self.terminal.starting,
    {
        self.terminal.starting
    }
}

} // verus!
