//! Everything that a user or a finished piece of work asks of the workbench.
use vstd::prelude::*;

use crate::document::{DocumentId, DocumentRevision, WorkspaceEpoch};
use crate::edit::TextEdit;
use crate::layout::Landmark;

verus! {

/// A part of a text that is shown in a style of its own.
#[derive(Clone, Copy, Debug, PartialEq, Eq, Structural)]
pub struct HighlightSpan {
    pub start_byte: usize,
    pub end_byte: usize,
    /// The number of the style.
    pub style: u32,
}

#[derive(Debug, PartialEq, Eq)]
#[allow(inconsistent_fields)]
pub enum Action {
    CycleLandmarkForward,
    CycleLandmarkBackward,
    FocusLandmark(Landmark),
    CycleAuthority,
    /// The next control of what is open on top.
    NextControl,
    PrevControl,
    ActivateFocused,
    /// A tool of the left stripe, counted from one.
    ActivateLeftTool(u8),
    OpenCommandPalette,
    PaletteInput(char),
    PaletteBackspace,
    EditorInsert(char),
    EditorPaste(String),
    EditorDeleteBackward,
    EditorMoveCursor { line_delta: i32, col_delta: i32, extend_selection: bool },
    EditorSetCursor { byte: usize },
    EditorSetSelection { anchor: usize, cursor: usize },
    EditorPage { up: bool, extend: bool },
    MouseDown { x: u16, y: u16, button: u8 },
    MouseDrag { x: u16, y: u16 },
    MouseUp,
    Wheel { landmark: Landmark, lines: i32 },
    OpenTerminal,
    TerminalInput(Vec<u8>),
    ReleaseTerminalCapture,
    CloseTerminal,
    TerminalResize { width: u16, height: u16 },
    Quit,
    ReviewTrust,
    /// Counts only while the grant of a trust review is focused.
    GrantTrust,
    RevokeTrust,
    CancelModal,
    SshPassphraseInput(char),
    SshPassphraseBackspace,
    SshPassphraseSubmit,
    JournalAck { doc_id: DocumentId, revision: DocumentRevision, epoch: WorkspaceEpoch },
    ApplySyntaxHighlights {
        doc_id: DocumentId,
        revision: DocumentRevision,
        spans: Vec<HighlightSpan>,
        epoch: WorkspaceEpoch,
    },
    /// A project tree with so many visible entries, or none.
    UpdateProjectState { tree: Option<usize>, epoch: WorkspaceEpoch },
    ProjectMoveSelection { delta: i32 },
    ProjectActivateSelected,
    ProjectToggleDir { path: String },
    RequestProjectFile { path: String },
    ProjectFileLoaded { path: String, content: Option<String>, epoch: WorkspaceEpoch },
    Save,
    SaveAsOverlayInput(char),
    SaveAsOverlayBackspace,
    SaveAsOverlayConfirm,
    SaveAsOverlayCancel,
    RenameOverlayInput(char),
    RenameOverlayBackspace,
    RenameOverlayConfirm,
    RenameOverlayCancel,
    SaveCompleted {
        doc_id: DocumentId,
        revision: DocumentRevision,
        path: String,
        success: bool,
        epoch: WorkspaceEpoch,
    },
    ApplyBufferEdit { doc_id: DocumentId, expected_rev: DocumentRevision, edit: TextEdit },
    RequestCompletion,
    RequestHover,
    RequestDefinition,
    RequestRename,
}

} // verus!
