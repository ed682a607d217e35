//! What each key stands for.
use vstd::prelude::*;
use vstd::utf8::*;

use super::crossterm_adapter::{alt_tool, command_k, with_command, KeyCode, KeyEvent};
use crate::action::Action;
use crate::app::dispatch::action_applied;
use crate::app::editing::{
    columns_lead_their_way, cursor_target, deleting_removes_one_cluster,
    deleting_removes_the_selection, is_shown, lemma_shown, lines_lead_their_way, moved_lines,
    moving_keeps_everything_else, typed_text_stands_at_the_cursor,
};
use crate::app::snapshot::{AppSnapshot, OverlaySnapshot};
use crate::app::{App, Effects, Overlay, TrustLevel};
use crate::coordinate::{belongs_to_line, lines_cut, plain_breaks, snapped, starts_cluster};
use crate::layout::{editor_rect, EditorTabState, Landmark};
use crate::rope::{lemma_line_breaks_monotonic, line_breaks_before, line_count};

verus! {

/// The entry of the project tree that is selected, with its path.
#[derive(Debug, PartialEq, Eq)]
pub struct SelectedEntry {
    pub path: String,
    pub is_dir: bool,
}

/// What a key stands for while something is open on top.
pub open spec fn modal_action(k: KeyEvent, overlay: OverlaySnapshot) -> Option<Action> {
    match overlay {
        OverlaySnapshot::Closed => None,
        OverlaySnapshot::TrustReview { focused_grant, trust, .. } => match k.code {
            KeyCode::Tab => Some(Action::NextControl),
            KeyCode::BackTab => Some(Action::PrevControl),
            KeyCode::Enter => if !focused_grant {
                Some(Action::CancelModal)
            } else if trust == TrustLevel::Trusted {
                Some(Action::RevokeTrust)
            } else {
                Some(Action::GrantTrust)
            },
            KeyCode::Esc => Some(Action::CancelModal),
            _ => None,
        },
        OverlaySnapshot::SshPassphrase { .. } => match k.code {
            KeyCode::Char(c) => Some(Action::SshPassphraseInput(c)),
            KeyCode::Backspace => Some(Action::SshPassphraseBackspace),
            KeyCode::Enter => Some(Action::SshPassphraseSubmit),
            KeyCode::Esc => Some(Action::CancelModal),
            _ => None,
        },
        OverlaySnapshot::CommandPalette { .. } => match k.code {
            KeyCode::Tab => Some(Action::NextControl),
            KeyCode::Down => Some(Action::NextControl),
            KeyCode::BackTab => Some(Action::PrevControl),
            KeyCode::Up => Some(Action::PrevControl),
            KeyCode::Enter => Some(Action::ActivateFocused),
            KeyCode::Backspace => Some(Action::PaletteBackspace),
            KeyCode::Esc => Some(Action::CancelModal),
            KeyCode::Char(c) => Some(Action::PaletteInput(c)),
            _ => None,
        },
        OverlaySnapshot::RenameInput { .. } => match k.code {
            KeyCode::Char(c) => Some(Action::RenameOverlayInput(c)),
            KeyCode::Backspace => Some(Action::RenameOverlayBackspace),
            KeyCode::Enter => Some(Action::RenameOverlayConfirm),
            KeyCode::Esc => Some(Action::RenameOverlayCancel),
            _ => None,
        },
        OverlaySnapshot::Completion { .. } => match k.code {
            KeyCode::Tab => Some(Action::NextControl),
            KeyCode::Down => Some(Action::NextControl),
            KeyCode::BackTab => Some(Action::PrevControl),
            KeyCode::Up => Some(Action::PrevControl),
            KeyCode::Enter => Some(Action::ActivateFocused),
            KeyCode::Esc => Some(Action::CancelModal),
            _ => None,
        },
        OverlaySnapshot::Hover { .. } => match k.code {
            KeyCode::Esc => Some(Action::CancelModal),
            KeyCode::Enter => Some(Action::CancelModal),
            _ => None,
        },
        OverlaySnapshot::SaveAs { .. } => match k.code {
            KeyCode::Char(c) => Some(Action::SaveAsOverlayInput(c)),
            KeyCode::Backspace => Some(Action::SaveAsOverlayBackspace),
            KeyCode::Enter => Some(Action::SaveAsOverlayConfirm),
            KeyCode::Esc => Some(Action::SaveAsOverlayCancel),
            _ => None,
        },
    }
}

/// What a character stands for in the workbench: a shortcut if the right keys are
/// held, else text for the editor.
pub open spec fn char_action(k: KeyEvent, c: char, focus: Landmark) -> Option<Action> {
    if alt_tool(k) is Some {
        Some(Action::ActivateLeftTool(alt_tool(k)->0))
    } else if command_k(k) {
        Some(Action::OpenCommandPalette)
    } else if (c == 's' || c == 'S') && with_command(k) {
        Some(Action::Save)
    } else if c == ' ' && with_command(k) {
        Some(Action::RequestCompletion)
    } else if (c == 'h' || c == 'H') && with_command(k) && k.modifiers.shift {
        Some(Action::RequestHover)
    } else if focus == Landmark::Editor {
        Some(Action::EditorInsert(c))
    } else {
        None
    }
}

/// What the Enter key stands for in the workbench.
pub open spec fn enter_action(focus: Landmark, has_tree: bool, entry: Option<SelectedEntry>) ->
    Option<Action> {
    if focus == Landmark::Authority {
        Some(Action::ReviewTrust)
    } else if focus == Landmark::PrimaryPane {
        match entry {
            Some(e) if has_tree => if e.is_dir {
                Some(Action::ProjectToggleDir { path: e.path })
            } else {
                Some(Action::RequestProjectFile { path: e.path })
            },
            _ => None,
        }
    } else {
        Some(Action::ActivateFocused)
    }
}

/// What an arrow up or down stands for in the workbench.
pub open spec fn line_action(focus: Landmark, delta: i32, extend: bool) -> Action {
    if focus == Landmark::PrimaryPane {
        Action::ProjectMoveSelection { delta }
    } else {
        Action::EditorMoveCursor { line_delta: delta, col_delta: 0, extend_selection: extend }
    }
}

pub const BACK: i32 = -1;

pub const FORTH: i32 = 1;

/// What a key stands for in the workbench, with nothing on top.
pub open spec fn workbench_action(
    k: KeyEvent,
    s: AppSnapshot,
    entry: Option<SelectedEntry>,
) -> Option<Action> {
    let shift = k.modifiers.shift;
    match k.code {
        KeyCode::F(n) => if n == 6 && shift {
            Some(Action::CycleLandmarkBackward)
        } else if n == 6 {
            Some(Action::CycleLandmarkForward)
        } else if n == 7 {
            Some(Action::CycleAuthority)
        } else if n == 12 {
            Some(Action::RequestDefinition)
        } else if n == 2 {
            Some(Action::RequestRename)
        } else {
            None
        },
        KeyCode::Tab => Some(Action::NextControl),
        KeyCode::BackTab => Some(Action::PrevControl),
        KeyCode::Char(c) => char_action(k, c, s.focus),
        KeyCode::Esc => Some(Action::CancelModal),
        KeyCode::Enter => enter_action(s.focus, s.project.tree is Some, entry),
        KeyCode::Backspace => if s.focus == Landmark::Editor {
            Some(Action::EditorDeleteBackward)
        } else {
            None
        },
        KeyCode::Up => Some(line_action(s.focus, BACK, shift)),
        KeyCode::Down => Some(line_action(s.focus, FORTH, shift)),
        KeyCode::Left => Some(
            Action::EditorMoveCursor { line_delta: 0, col_delta: BACK, extend_selection: shift },
        ),
        KeyCode::Right => Some(
            Action::EditorMoveCursor { line_delta: 0, col_delta: FORTH, extend_selection: shift },
        ),
        KeyCode::PageUp => Some(Action::EditorPage { up: true, extend: shift }),
        KeyCode::PageDown => Some(Action::EditorPage { up: false, extend: shift }),
        _ => None,
    }
}

/// The bytes that a terminal gets for a key, before those of Alt. With Control a
/// character of ASCII stands for its lowest five bits.
pub open spec fn plain_key_bytes(k: KeyEvent) -> Option<Seq<u8>> {
    match k.code {
        KeyCode::Char(c) => if !k.modifiers.control {
            Some(encode_utf8(seq![c]))
        } else if c as u32 <= 0x7f {
            Some(seq![(c as u32 % 32) as u8])
        } else {
            None
        },
        KeyCode::Enter => Some(seq![0x0du8]),
        KeyCode::Backspace => Some(seq![0x7fu8]),
        KeyCode::Tab => Some(seq![0x09u8]),
        KeyCode::BackTab => Some(seq![0x1bu8, 0x5bu8, 0x5au8]),
        KeyCode::Up => Some(seq![0x1bu8, 0x5bu8, 0x41u8]),
        KeyCode::Down => Some(seq![0x1bu8, 0x5bu8, 0x42u8]),
        KeyCode::Right => Some(seq![0x1bu8, 0x5bu8, 0x43u8]),
        KeyCode::Left => Some(seq![0x1bu8, 0x5bu8, 0x44u8]),
        KeyCode::Home => Some(seq![0x1bu8, 0x5bu8, 0x48u8]),
        KeyCode::End => Some(seq![0x1bu8, 0x5bu8, 0x46u8]),
        KeyCode::Delete => Some(seq![0x1bu8, 0x5bu8, 0x33u8, 0x7eu8]),
        KeyCode::PageUp => Some(seq![0x1bu8, 0x5bu8, 0x35u8, 0x7eu8]),
        KeyCode::PageDown => Some(seq![0x1bu8, 0x5bu8, 0x36u8, 0x7eu8]),
        _ => None,
    }
}

/// The bytes that a terminal gets for a key: an escape first if Alt is held.
pub open spec fn terminal_bytes(k: KeyEvent) -> Option<Seq<u8>> {
    match plain_key_bytes(k) {
        Some(bytes) => if k.modifiers.alt {
            Some(seq![0x1bu8] + bytes)
        } else {
            Some(bytes)
        },
        None => None,
    }
}

/// Whether an action sends some bytes to the terminal.
pub open spec fn sends(action: Option<Action>, bytes: Option<Seq<u8>>) -> bool {
    match bytes {
        Some(b) => action matches Some(Action::TerminalInput(sent)) && sent@ == b,
        None => action is None,
    }
}

/// What a key stands for: first for what is on top, then for the terminal while it
/// takes what is typed, then for the workbench.
pub open spec fn key_mapped(
    k: KeyEvent,
    s: AppSnapshot,
    entry: Option<SelectedEntry>,
    action: Option<Action>,
) -> bool {
    if s.overlay != OverlaySnapshot::Closed {
        action == modal_action(k, s.overlay)
    } else if k.code == KeyCode::Char('`') && with_command(k) {
        action == Some(Action::OpenTerminal)
    } else if s.terminal.captured && k.code == KeyCode::Esc {
        action == Some(Action::ReleaseTerminalCapture)
    } else if s.terminal.captured {
        sends(action, terminal_bytes(k))
    } else {
        action == workbench_action(k, s, entry)
    }
}

/// A key grants trust only while the grant of a trust review is focused.
pub proof fn keys_grant_only_a_focused_grant(
    k: KeyEvent,
    s: AppSnapshot,
    entry: Option<SelectedEntry>,
)
    requires
        key_mapped(k, s, entry, Some(Action::GrantTrust)),
    ensures
        k.code == KeyCode::Enter,
        s.overlay matches OverlaySnapshot::TrustReview { focused_grant, trust, .. }
            && focused_grant && trust != TrustLevel::Trusted,
{
}

/// Whether an action changes a document, moves in it or types into a terminal.
pub open spec fn reaches_below(action: Action) -> bool {
    match action {
        Action::EditorInsert(_) => true,
        Action::EditorPaste(_) => true,
        Action::EditorDeleteBackward => true,
        Action::EditorMoveCursor { .. } => true,
        Action::EditorSetCursor { .. } => true,
        Action::EditorSetSelection { .. } => true,
        Action::EditorPage { .. } => true,
        Action::ApplyBufferEdit { .. } => true,
        Action::TerminalInput(_) => true,
        _ => false,
    }
}

/// No key reaches the editor or the terminal past what is open on top.
pub proof fn keys_stay_on_top(
    k: KeyEvent,
    s: AppSnapshot,
    entry: Option<SelectedEntry>,
    action: Action,
)
    requires
        s.overlay != OverlaySnapshot::Closed,
        key_mapped(k, s, entry, Some(action)),
    ensures
        !reaches_below(action),
{
}

/// While the terminal takes what is typed, no key reaches the editor.
pub proof fn captured_keys_stay_in_the_terminal(
    k: KeyEvent,
    s: AppSnapshot,
    entry: Option<SelectedEntry>,
    action: Action,
)
    requires
        s.terminal.captured,
        key_mapped(k, s, entry, Some(action)),
    ensures
        reaches_below(action) ==> action is TerminalInput,
{
}

/// Whether the editor takes the keys: nothing is on top, the terminal does not take what
/// is typed, and the editor has the focus.
pub open spec fn editor_takes_keys(s: AppSnapshot) -> bool {
    s.overlay == OverlaySnapshot::Closed && !s.terminal.captured && s.focus == Landmark::Editor
}

/// The tab that is active.
pub open spec fn active_tab(app: App) -> EditorTabState {
    app.layout.tabs().editor_tabs[app.layout.tabs().active_editor_tab as int]
}

/// Whether a document is shown in the active tab, with a text that can be counted.
pub open spec fn edits_document_at(app: App, i: int) -> bool {
    &&& is_shown(app, i)
    &&& app.layout.tabs().active_editor_tab < app.layout.tabs().editor_tabs.len()
    &&& encode_utf8(app.buffers@[i]@.text).len() < usize::MAX
}

/// Left never moves the cursor forward and Right never moves it back. From a place where
/// the cursor stands, Left leads to the start of the last cluster before it, and stays
/// only at the start of the text; Right leads over the first cluster that starts at or
/// behind it, and stays only where none does. Neither changes a text. With Shift what is
/// passed over is selected, without it nothing is.
pub proof fn left_and_right_move_by_clusters(
    k: KeyEvent,
    s: AppSnapshot,
    entry: Option<SelectedEntry>,
    action: Option<Action>,
    before: App,
    after: App,
    effects: Effects,
    i: int,
)
    requires
        s.overlay == OverlaySnapshot::Closed,
        !s.terminal.captured,
        k.code == KeyCode::Left || k.code == KeyCode::Right,
        key_mapped(k, s, entry, action),
        edits_document_at(before, i),
    ensures
        action matches Some(a) && (a matches Action::EditorMoveCursor {
            line_delta,
            col_delta,
            extend_selection,
        } && line_delta == 0 && (k.code == KeyCode::Left ==> col_delta < 0) && (k.code
            == KeyCode::Right ==> col_delta > 0) && extend_selection == k.modifiers.shift),
        lines_cut(encode_utf8(before.buffers@[i]@.text)) && action_applied(
            before,
            action->0,
            after,
            effects,
        ) ==> {
            let bytes = encode_utf8(before.buffers@[i]@.text);
            let c = snapped(bytes, active_tab(before).cursor_byte as int);
            let r = active_tab(after).cursor_byte as int;
            &&& after.buffers == before.buffers
            &&& k.code == KeyCode::Left ==> r <= c
            &&& k.code == KeyCode::Left && (exists|q: int| #[trigger]
                starts_cluster(bytes, q) && q < c) ==> r < c && starts_cluster(bytes, r)
                && forall|q: int| #[trigger] starts_cluster(bytes, q) && q < c ==> q <= r
            &&& k.code == KeyCode::Left && c == 0 ==> r == 0
            &&& k.code == KeyCode::Right ==> c <= r
            &&& k.code == KeyCode::Right && (exists|q: int| #[trigger]
                starts_cluster(bytes, q) && c <= q) ==> c < r && (starts_cluster(bytes, r) || r
                == bytes.len())
            &&& k.code == KeyCode::Right && starts_cluster(bytes, c) ==> forall|q: int| #[trigger]
                starts_cluster(bytes, q) && c < q ==> r <= q
            &&& !k.modifiers.shift ==> active_tab(after).selection_anchor is None
            &&& k.modifiers.shift ==> active_tab(after).selection_anchor is Some
            &&& k.modifiers.shift && active_tab(before).selection_anchor is None
                ==> active_tab(after).selection_anchor == Some(c as usize)
        },
{
    let text = before.buffers@[i]@.text;
    let bytes = encode_utf8(text);
    encode_utf8_valid_utf8(text);
    let cursor = active_tab(before).cursor_byte;
    lemma_shown(before, i);
    let col_delta: i32 = if k.code == KeyCode::Left {
        BACK
    } else {
        FORTH
    };
    let r = cursor_target(bytes, cursor as int, 0, col_delta);
    columns_lead_their_way(bytes, cursor, col_delta, r);
    if lines_cut(bytes) && action_applied(before, action->0, after, effects) {
        moving_keeps_everything_else(before, r, k.modifiers.shift, after, i, active_tab(before));
    }
}

/// In the editor, Up leads to the line before and Down to the line behind, and at the
/// first and last line they stay on it; PageUp and PageDown do so by the rows of the
/// editor between its borders, at least one. None of them changes a text.
pub proof fn up_and_down_move_by_lines(
    k: KeyEvent,
    s: AppSnapshot,
    entry: Option<SelectedEntry>,
    action: Option<Action>,
    before: App,
    after: App,
    effects: Effects,
    i: int,
    rows: int,
    delta: int,
    from: int,
    to: int,
)
    requires
        editor_takes_keys(s),
        key_mapped(k, s, entry, action),
        edits_document_at(before, i),
        rows == editor_rect(before.layout.geometry()).height,
        k.code == KeyCode::Up ==> delta == -1,
        k.code == KeyCode::Down ==> delta == 1,
        k.code == KeyCode::PageUp ==> delta == -(if rows > 2 { rows - 2 } else { 1 }),
        k.code == KeyCode::PageDown ==> delta == (if rows > 2 { rows - 2 } else { 1 }),
        k.code == KeyCode::Up || k.code == KeyCode::Down || k.code == KeyCode::PageUp || k.code
            == KeyCode::PageDown,
        ({
            let bytes = encode_utf8(before.buffers@[i]@.text);
            &&& from == line_breaks_before(
                bytes,
                snapped(bytes, active_tab(before).cursor_byte as int),
            )
            &&& from + delta < 0 ==> to == 0
            &&& from + delta >= line_count(bytes) ==> to == line_count(bytes) - 1
            &&& 0 <= from + delta < line_count(bytes) ==> to == from + delta
        }),
    ensures
        action is Some,
        lines_cut(encode_utf8(before.buffers@[i]@.text)) && action_applied(
            before,
            action->0,
            after,
            effects,
        ) ==> {
            let bytes = encode_utf8(before.buffers@[i]@.text);
            let r = active_tab(after).cursor_byte as int;
            &&& after.buffers == before.buffers
            &&& belongs_to_line(bytes, r, to)
            &&& plain_breaks(bytes) ==> line_breaks_before(bytes, r) == to
            &&& !k.modifiers.shift ==> active_tab(after).selection_anchor is None
            &&& k.modifiers.shift ==> active_tab(after).selection_anchor is Some
        },
{
    let text = before.buffers@[i]@.text;
    let bytes = encode_utf8(text);
    encode_utf8_valid_utf8(text);
    let cursor = active_tab(before).cursor_byte;
    lemma_shown(before, i);
    lemma_line_breaks_monotonic(bytes, 0, bytes.len() as int);
    let r = moved_lines(bytes, snapped(bytes, cursor as int), delta);
    lines_lead_their_way(bytes, cursor, delta, from, to, r);
    if lines_cut(bytes) && action_applied(before, action->0, after, effects) {
        moving_keeps_everything_else(before, r, k.modifiers.shift, after, i, active_tab(before));
    }
}

/// With the project pane focused, Up and Down move the selected row by one and keep it
/// among the rows; neither moves the cursor or changes a text.
pub proof fn up_and_down_choose_a_row(
    k: KeyEvent,
    s: AppSnapshot,
    entry: Option<SelectedEntry>,
    action: Option<Action>,
    before: App,
    after: App,
    effects: Effects,
    rows: usize,
)
    requires
        s.overlay == OverlaySnapshot::Closed,
        !s.terminal.captured,
        s.focus == Landmark::PrimaryPane,
        k.code == KeyCode::Up || k.code == KeyCode::Down,
        key_mapped(k, s, entry, action),
        before.project.tree == Some(rows),
        0 < rows <= 65536,
        before.project.selected_row < rows,
    ensures
        action is Some,
        action_applied(before, action->0, after, effects) ==> {
            let row = before.project.selected_row;
            &&& after.layout == before.layout
            &&& after.buffers == before.buffers
            &&& k.code == KeyCode::Up && row > 0 ==> after.project.selected_row == row - 1
            &&& k.code == KeyCode::Up && row == 0 ==> after.project.selected_row == 0
            &&& k.code == KeyCode::Down && row + 1 < rows ==> after.project.selected_row == row + 1
            &&& k.code == KeyCode::Down && row + 1 == rows ==> after.project.selected_row == row
        },
{
}

/// A character that is typed into the editor stands in the text at the cursor, which
/// stands behind it afterwards.
pub proof fn typed_characters_reach_the_text(
    k: KeyEvent,
    s: AppSnapshot,
    entry: Option<SelectedEntry>,
    action: Option<Action>,
    before: App,
    after: App,
    effects: Effects,
    i: int,
    c: char,
)
    requires
        editor_takes_keys(s),
        k.code == KeyCode::Char(c),
        !k.modifiers.control && !k.modifiers.command && !k.modifiers.alt,
        key_mapped(k, s, entry, action),
        edits_document_at(before, i),
        before.editable(),
        active_tab(before).cursor_byte <= encode_utf8(before.buffers@[i]@.text).len(),
        is_char_boundary(
            encode_utf8(before.buffers@[i]@.text),
            active_tab(before).cursor_byte as int,
        ),
        active_tab(before).cursor_byte + encode_utf8(seq![c]).len() <= usize::MAX,
    ensures
        action == Some(Action::EditorInsert(c)),
        action_applied(before, action->0, after, effects) ==> {
            let bytes = encode_utf8(before.buffers@[i]@.text);
            let cur = active_tab(before).cursor_byte as int;
            &&& encode_utf8(after.buffers@[i]@.text) == bytes.take(cur) + encode_utf8(seq![c])
                + bytes.skip(cur)
            &&& active_tab(after).cursor_byte == cur + encode_utf8(seq![c]).len()
        },
{
    if action_applied(before, action->0, after, effects) {
        typed_text_stands_at_the_cursor(
            before,
            seq![c],
            after,
            effects,
            i,
            active_tab(before).cursor_byte,
        );
    }
}

/// Backspace in the editor takes away what is selected, whichever of its ends is the
/// cursor, and otherwise the last cluster before the cursor; it adds nothing.
pub proof fn backspace_takes_away(
    k: KeyEvent,
    s: AppSnapshot,
    entry: Option<SelectedEntry>,
    action: Option<Action>,
    before: App,
    after: App,
    effects: Effects,
    i: int,
    lo: int,
    hi: int,
)
    requires
        editor_takes_keys(s),
        k.code == KeyCode::Backspace,
        key_mapped(k, s, entry, action),
        edits_document_at(before, i),
        before.editable(),
        ({
            let bytes = encode_utf8(before.buffers@[i]@.text);
            let c = snapped(bytes, active_tab(before).cursor_byte as int);
            match active_tab(before).selection_anchor {
                Some(anchor) => {
                    let a = snapped(bytes, anchor as int);
                    lo < hi && ((a == lo && c == hi) || (a == hi && c == lo))
                },
                None => hi == c && starts_cluster(bytes, lo) && lo < c && forall|q: int| #[trigger]
                    starts_cluster(bytes, q) && q < c ==> q <= lo,
            }
        }),
    ensures
        action is Some,
        lines_cut(encode_utf8(before.buffers@[i]@.text)) && action_applied(
            before,
            action->0,
            after,
            effects,
        ) ==> {
            let bytes = encode_utf8(before.buffers@[i]@.text);
            &&& encode_utf8(after.buffers@[i]@.text) == bytes.take(lo) + bytes.skip(hi)
            &&& active_tab(after).cursor_byte == lo
            &&& active_tab(after).selection_anchor is None
        },
{
    if lines_cut(encode_utf8(before.buffers@[i]@.text)) && action_applied(
        before,
        action->0,
        after,
        effects,
    ) {
        match active_tab(before).selection_anchor {
            Some(anchor) => deleting_removes_the_selection(
                before,
                after,
                effects,
                i,
                active_tab(before),
                anchor,
                lo,
                hi,
            ),
            None => {
                deleting_removes_one_cluster(before, after, effects, i, active_tab(before), hi);
                let at = active_tab(after).cursor_byte as int;
                let bytes = encode_utf8(before.buffers@[i]@.text);
                assert(starts_cluster(bytes, at) && starts_cluster(bytes, lo));
            },
        }
    }
}

/// While the terminal takes what is typed, a character goes to it as it is encoded, and
/// behind an escape if Alt is held. With Control a character of ASCII goes as one of
/// the first 32 codes, so that a letter goes as its place in the alphabet, in either
/// case. The arrows go as the escape sequences of their letters.
pub proof fn terminals_get_the_keys(
    k: KeyEvent,
    s: AppSnapshot,
    entry: Option<SelectedEntry>,
    action: Option<Action>,
)
    requires
        s.overlay == OverlaySnapshot::Closed,
        s.terminal.captured,
        key_mapped(k, s, entry, action),
        !(k.code == KeyCode::Char('`') && (k.modifiers.control || k.modifiers.command)),
    ensures
        k.code == KeyCode::Esc ==> action == Some(Action::ReleaseTerminalCapture),
        k.code matches KeyCode::Char(c) ==> (!k.modifiers.control && !k.modifiers.alt ==> (
        action matches Some(Action::TerminalInput(sent)) && sent@ == encode_utf8(seq![c]))),
        k.code matches KeyCode::Char(c) ==> (!k.modifiers.control && k.modifiers.alt ==> (
        action matches Some(Action::TerminalInput(sent)) && sent@ == seq![27u8] + encode_utf8(
            seq![c],
        ))),
        k.code matches KeyCode::Char(c) ==> (k.modifiers.control && !k.modifiers.alt && (('a' <= c
            && c <= 'z') || ('A' <= c && c <= 'Z')) ==> (action matches Some(
            Action::TerminalInput(sent),
        ) && sent@.len() == 1 && sent@[0] == (if c as u32 >= 97 {
            c as u32 - 96
        } else {
            c as u32 - 64
        }))),
        !k.modifiers.alt && (k.code == KeyCode::Up || k.code == KeyCode::Down || k.code
            == KeyCode::Right || k.code == KeyCode::Left) ==> (action matches Some(
            Action::TerminalInput(sent),
        ) && sent@.len() == 3 && sent@[0] == 27 && sent@[1] == 0x5b && (k.code == KeyCode::Up
            ==> sent@[2] == 0x41) && (k.code == KeyCode::Down ==> sent@[2] == 0x42) && (k.code
            == KeyCode::Right ==> sent@[2] == 0x43) && (k.code == KeyCode::Left ==> sent@[2]
            == 0x44)),
        !k.modifiers.alt && (k.code == KeyCode::Enter || k.code == KeyCode::Backspace || k.code
            == KeyCode::Tab) ==> (action matches Some(Action::TerminalInput(sent)) && sent@.len()
            == 1 && (k.code == KeyCode::Enter ==> sent@[0] == 13) && (k.code == KeyCode::Backspace
            ==> sent@[0] == 127) && (k.code == KeyCode::Tab ==> sent@[0] == 9)),
{
}

/// What is typed into a text on top is added to its end, and Backspace takes its last
/// character away: in the palette, in the path to save under and in the new name. Escape
/// closes what is on top and gives the focus back to where it was.
pub proof fn keys_edit_the_text_on_top(
    k: KeyEvent,
    s: AppSnapshot,
    entry: Option<SelectedEntry>,
    action: Option<Action>,
    before: App,
    after: App,
    effects: Effects,
)
    requires
        key_mapped(k, s, entry, action),
        s.overlay is CommandPalette <==> before.overlay is CommandPalette,
        s.overlay is SaveAs <==> before.overlay is SaveAs,
        s.overlay is RenameInput <==> before.overlay is RenameInput,
        s.overlay is Closed <==> before.overlay is Closed,
        action is Some ==> action_applied(before, action->0, after, effects),
    ensures
        k.code is Char ==> (before.overlay matches Overlay::CommandPalette { query, invoker, .. }
            ==> action is Some && (after.overlay matches Overlay::CommandPalette {
            query: q,
            invoker: i,
            ..
        } && q@ == query@.push(k.code->Char_0) && i == invoker)),
        k.code is Char ==> (before.overlay matches Overlay::SaveAs { path, invoker, doc_id }
            ==> action is Some && (after.overlay matches Overlay::SaveAs {
            path: p,
            invoker: i,
            doc_id: d,
        } && p@ == path@.push(k.code->Char_0) && i == invoker && d == doc_id)),
        k.code is Char ==> (before.overlay matches Overlay::RenameInput {
            document_id,
            new_name,
            position,
            ..
        } ==> action is Some && (after.overlay matches Overlay::RenameInput {
            document_id: d,
            new_name: n,
            position: p,
            ..
        } && n@ == new_name@.push(k.code->Char_0) && d == document_id && p == position)),
        k.code == KeyCode::Backspace ==> (before.overlay matches Overlay::CommandPalette {
            query,
            ..
        } ==> (after.overlay matches Overlay::CommandPalette { query: q, .. } && (query@.len() > 0
            ==> q@ == query@.take(query@.len() - 1)) && (query@.len() == 0 ==> q@.len() == 0))),
        k.code == KeyCode::Backspace ==> (before.overlay matches Overlay::SaveAs { path, .. } ==> (
        after.overlay matches Overlay::SaveAs { path: p, .. } && (path@.len() > 0 ==> p@
            == path@.take(path@.len() - 1)) && (path@.len() == 0 ==> p@.len() == 0))),
        k.code == KeyCode::Backspace ==> (before.overlay matches Overlay::RenameInput {
            new_name,
            ..
        } ==> (after.overlay matches Overlay::RenameInput { new_name: n, .. } && (new_name@.len()
            > 0 ==> n@ == new_name@.take(new_name@.len() - 1)) && (new_name@.len() == 0 ==> n@.len()
            == 0))),
        k.code == KeyCode::Esc ==> (before.overlay matches Overlay::CommandPalette { invoker, .. }
            ==> after.overlay is Closed && after.focus == invoker),
        k.code == KeyCode::Esc ==> (before.overlay matches Overlay::SaveAs { invoker, .. }
            ==> after.overlay is Closed && after.focus == invoker),
        k.code == KeyCode::Esc ==> (before.overlay matches Overlay::RenameInput { invoker, .. }
            ==> after.overlay is Closed && after.focus == invoker),
        !(before.overlay is Closed) && (k.code is Char || k.code == KeyCode::Backspace || k.code
            == KeyCode::Esc) && action is Some ==> after.buffers == before.buffers && after.layout
            == before.layout,
{
    if let Overlay::CommandPalette { query, .. } = before.overlay {
        if query@.len() > 0 {
            assert(query@.drop_last() =~= query@.take(query@.len() - 1));
        }
    }
    if let Overlay::SaveAs { path, .. } = before.overlay {
        if path@.len() > 0 {
            assert(path@.drop_last() =~= path@.take(path@.len() - 1));
        }
    }
    if let Overlay::RenameInput { new_name, .. } = before.overlay {
        if new_name@.len() > 0 {
            assert(new_name@.drop_last() =~= new_name@.take(new_name@.len() - 1));
        }
    }
}

/// Down and Tab go one entry further in a list on top, Up and Shift-Tab one back, and
/// past its ends they go round.
pub proof fn keys_step_through_a_list(
    k: KeyEvent,
    s: AppSnapshot,
    entry: Option<SelectedEntry>,
    action: Option<Action>,
    before: App,
    after: App,
    effects: Effects,
)
    requires
        key_mapped(k, s, entry, action),
        s.overlay is CommandPalette <==> before.overlay is CommandPalette,
        s.overlay is Completion <==> before.overlay is Completion,
        k.code == KeyCode::Down || k.code == KeyCode::Tab || k.code == KeyCode::Up || k.code
            == KeyCode::BackTab,
        before.wf(),
        action is Some ==> action_applied(before, action->0, after, effects),
    ensures
        before.overlay matches Overlay::CommandPalette { items, selected, .. } ==> (items@.len() > 0
            ==> action is Some && (after.overlay matches Overlay::CommandPalette {
            items: same,
            selected: now,
            ..
        } && same == items && steps_round(k, selected as int, items@.len() as int, now as int))),
        before.overlay matches Overlay::Completion { candidates, selected, .. } ==> (
        candidates@.len() > 0 ==> action is Some && (after.overlay matches Overlay::Completion {
            candidates: same,
            selected: now,
            ..
        } && same == candidates && steps_round(
            k,
            selected as int,
            candidates@.len() as int,
            now as int,
        ))),
{
    if let Overlay::CommandPalette { items, .. } = before.overlay {
        assert(items@.len() == items.len());
    }
    if let Overlay::Completion { candidates, .. } = before.overlay {
        assert(candidates@.len() == candidates.len());
    }
}

/// Whether a key leads from one entry of a list to another.
pub open spec fn steps_round(k: KeyEvent, from: int, len: int, to: int) -> bool {
    &&& (k.code == KeyCode::Down || k.code == KeyCode::Tab) && from + 1 < len ==> to == from + 1
    &&& (k.code == KeyCode::Down || k.code == KeyCode::Tab) && from + 1 == len ==> to == 0
    &&& (k.code == KeyCode::Up || k.code == KeyCode::BackTab) && from > 0 ==> to == from - 1
    &&& (k.code == KeyCode::Up || k.code == KeyCode::BackTab) && from == 0 ==> to == len - 1
}

fn map_modal_key(k: KeyEvent, overlay: &OverlaySnapshot) -> (action: Option<Action>)
    ensures
        action == modal_action(k, *overlay),
{
    match overlay {
        OverlaySnapshot::Closed => None,
        OverlaySnapshot::TrustReview { focused_grant, trust, .. } => match k.code {
            KeyCode::Tab => Some(Action::NextControl),
            KeyCode::BackTab => Some(Action::PrevControl),
            KeyCode::Enter => if !*focused_grant {
                Some(Action::CancelModal)
            } else if *trust == TrustLevel::Trusted {
                Some(Action::RevokeTrust)
            } else {
                Some(Action::GrantTrust)
            },
            KeyCode::Esc => Some(Action::CancelModal),
            _ => None,
        },
        OverlaySnapshot::SshPassphrase { .. } => match k.code {
            KeyCode::Char(c) => Some(Action::SshPassphraseInput(c)),
            KeyCode::Backspace => Some(Action::SshPassphraseBackspace),
            KeyCode::Enter => Some(Action::SshPassphraseSubmit),
            KeyCode::Esc => Some(Action::CancelModal),
            _ => None,
        },
        OverlaySnapshot::CommandPalette { .. } => match k.code {
            KeyCode::Tab | KeyCode::Down => Some(Action::NextControl),
            KeyCode::BackTab | KeyCode::Up => Some(Action::PrevControl),
            KeyCode::Enter => Some(Action::ActivateFocused),
            KeyCode::Backspace => Some(Action::PaletteBackspace),
            KeyCode::Esc => Some(Action::CancelModal),
            KeyCode::Char(c) => Some(Action::PaletteInput(c)),
            _ => None,
        },
        OverlaySnapshot::RenameInput { .. } => match k.code {
            KeyCode::Char(c) => Some(Action::RenameOverlayInput(c)),
            KeyCode::Backspace => Some(Action::RenameOverlayBackspace),
            KeyCode::Enter => Some(Action::RenameOverlayConfirm),
            KeyCode::Esc => Some(Action::RenameOverlayCancel),
            _ => None,
        },
        OverlaySnapshot::Completion { .. } => match k.code {
            KeyCode::Tab | KeyCode::Down => Some(Action::NextControl),
            KeyCode::BackTab | KeyCode::Up => Some(Action::PrevControl),
            KeyCode::Enter => Some(Action::ActivateFocused),
            KeyCode::Esc => Some(Action::CancelModal),
            _ => None,
        },
        OverlaySnapshot::Hover { .. } => match k.code {
            KeyCode::Esc | KeyCode::Enter => Some(Action::CancelModal),
            _ => None,
        },
        OverlaySnapshot::SaveAs { .. } => match k.code {
            KeyCode::Char(c) => Some(Action::SaveAsOverlayInput(c)),
            KeyCode::Backspace => Some(Action::SaveAsOverlayBackspace),
            KeyCode::Enter => Some(Action::SaveAsOverlayConfirm),
            KeyCode::Esc => Some(Action::SaveAsOverlayCancel),
            _ => None,
        },
    }
}

fn map_char(k: KeyEvent, c: char, focus: Landmark) -> (action: Option<Action>)
    requires
        k.code == KeyCode::Char(c),
    ensures
        action == char_action(k, c, focus),
{
    let command = k.modifiers.control || k.modifiers.command;
    if k.modifiers.alt && c == '1' {
        Some(Action::ActivateLeftTool(1))
    } else if k.modifiers.alt && c == '2' {
        Some(Action::ActivateLeftTool(2))
    } else if k.modifiers.alt && c == '3' {
        Some(Action::ActivateLeftTool(3))
    } else if k.modifiers.alt && c == '4' {
        Some(Action::ActivateLeftTool(4))
    } else if (c == 'k' || c == 'K') && command {
        Some(Action::OpenCommandPalette)
    } else if (c == 's' || c == 'S') && command {
        Some(Action::Save)
    } else if c == ' ' && command {
        Some(Action::RequestCompletion)
    } else if (c == 'h' || c == 'H') && command && k.modifiers.shift {
        Some(Action::RequestHover)
    } else if focus == Landmark::Editor {
        Some(Action::EditorInsert(c))
    } else {
        None
    }
}

fn map_enter(focus: Landmark, has_tree: bool, entry: &Option<SelectedEntry>) -> (action: Option<
    Action,
>)
    ensures
        action == enter_action(focus, has_tree, *entry),
{
    if focus == Landmark::Authority {
        Some(Action::ReviewTrust)
    } else if focus == Landmark::PrimaryPane {
        match entry {
            Some(e) => if !has_tree {
                None
            } else if e.is_dir {
                Some(Action::ProjectToggleDir { path: e.path.clone() })
            } else {
                Some(Action::RequestProjectFile { path: e.path.clone() })
            },
            None => None,
        }
    } else {
        Some(Action::ActivateFocused)
    }
}

fn map_line(focus: Landmark, delta: i32, extend: bool) -> (action: Action)
    ensures
        action == line_action(focus, delta, extend),
{
    if focus == Landmark::PrimaryPane {
        Action::ProjectMoveSelection { delta }
    } else {
        Action::EditorMoveCursor { line_delta: delta, col_delta: 0, extend_selection: extend }
    }
}

fn map_workbench_key(k: KeyEvent, s: &AppSnapshot, entry: &Option<SelectedEntry>) -> (action: Option<
    Action,
>)
    ensures
        action == workbench_action(k, *s, *entry),
{
    let shift = k.modifiers.shift;
    match k.code {
        KeyCode::F(n) => if n == 6 && shift {
            Some(Action::CycleLandmarkBackward)
        } else if n == 6 {
            Some(Action::CycleLandmarkForward)
        } else if n == 7 {
            Some(Action::CycleAuthority)
        } else if n == 12 {
            Some(Action::RequestDefinition)
        } else if n == 2 {
            Some(Action::RequestRename)
        } else {
            None
        },
        KeyCode::Tab => Some(Action::NextControl),
        KeyCode::BackTab => Some(Action::PrevControl),
        KeyCode::Char(c) => map_char(k, c, s.focus),
        KeyCode::Esc => Some(Action::CancelModal),
        KeyCode::Enter => map_enter(s.focus, s.project.tree.is_some(), entry),
        KeyCode::Backspace => if s.focus == Landmark::Editor {
            Some(Action::EditorDeleteBackward)
        } else {
            None
        },
        KeyCode::Up => Some(map_line(s.focus, BACK, shift)),
        KeyCode::Down => Some(map_line(s.focus, FORTH, shift)),
        KeyCode::Left => Some(
            Action::EditorMoveCursor { line_delta: 0, col_delta: BACK, extend_selection: shift },
        ),
        KeyCode::Right => Some(
            Action::EditorMoveCursor { line_delta: 0, col_delta: FORTH, extend_selection: shift },
        ),
        KeyCode::PageUp => Some(Action::EditorPage { up: true, extend: shift }),
        KeyCode::PageDown => Some(Action::EditorPage { up: false, extend: shift }),
        _ => None,
    }
}

/// What a key stands for, with the entry of the project tree that is selected.
pub fn map_key(k: KeyEvent, snapshot: &AppSnapshot, entry: &Option<SelectedEntry>) -> (
action: Option<Action>)
    ensures
        key_mapped(k, *snapshot, *entry, action),
{
    match &snapshot.overlay {
        OverlaySnapshot::Closed => {},
        overlay => return map_modal_key(k, overlay),
    }
    if k.code == KeyCode::Char('`') && (k.modifiers.control || k.modifiers.command) {
        return Some(Action::OpenTerminal);
    }
    if snapshot.terminal.captured {
        if k.code == KeyCode::Esc {
            return Some(Action::ReleaseTerminalCapture);
        }
        return match terminal_key_bytes(k) {
            Some(bytes) => Some(Action::TerminalInput(bytes)),
            None => None,
        };
    }
    map_workbench_key(k, snapshot, entry)
}

fn push_escape(bytes: &mut Vec<u8>, last: u8)
    ensures
        final(bytes)@ == old(bytes)@ + seq![0x1bu8, 0x5bu8, last],
{
    bytes.push(0x1b);
    bytes.push(0x5b);
    bytes.push(last);
    assert(bytes@ =~= old(bytes)@ + seq![0x1bu8, 0x5bu8, last]);
}

fn push_tilde_escape(bytes: &mut Vec<u8>, digit: u8)
    ensures
        final(bytes)@ == old(bytes)@ + seq![0x1bu8, 0x5bu8, digit, 0x7eu8],
{
    bytes.push(0x1b);
    bytes.push(0x5b);
    bytes.push(digit);
    bytes.push(0x7e);
    assert(bytes@ =~= old(bytes)@ + seq![0x1bu8, 0x5bu8, digit, 0x7eu8]);
}

/// The bytes that a terminal gets for a key.
pub fn terminal_key_bytes(k: KeyEvent) -> (bytes: Option<Vec<u8>>)
    ensures
        match terminal_bytes(k) {
            Some(b) => bytes is Some && (bytes->0)@ == b,
            None => bytes is None,
        },
{
    let mut bytes: Vec<u8> = Vec::new();
    if k.modifiers.alt {
        bytes.push(0x1b);
    }
    let ghost start = bytes@;
    assert(k.modifiers.alt ==> start =~= seq![0x1bu8]);
    match k.code {
        KeyCode::Char(c) => {
            if k.modifiers.control {
                if c as u32 <= 0x7f {
                    bytes.push((c as u32 % 32) as u8);
                } else {
                    return None;
                }
            } else {
                let mut text = String::new();
                text.push(c);
                assert(text@ =~= seq![c]);
                let encoded: &[u8] = text.as_str().as_bytes();
                for i in 0..encoded.len()
                    invariant
                        bytes@ == start + encoded@.take(i as int),
                {
                    bytes.push(encoded[i]);
                    assert(bytes@ =~= start + encoded@.take(i + 1));
                }
                assert(encoded@.take(encoded@.len() as int) =~= encoded@);
            }
        },
        KeyCode::Enter => bytes.push(0x0d),
        KeyCode::Backspace => bytes.push(0x7f),
        KeyCode::Tab => bytes.push(0x09),
        KeyCode::BackTab => push_escape(&mut bytes, 0x5a),
        KeyCode::Up => push_escape(&mut bytes, 0x41),
        KeyCode::Down => push_escape(&mut bytes, 0x42),
        KeyCode::Right => push_escape(&mut bytes, 0x43),
        KeyCode::Left => push_escape(&mut bytes, 0x44),
        KeyCode::Home => push_escape(&mut bytes, 0x48),
        KeyCode::End => push_escape(&mut bytes, 0x46),
        KeyCode::Delete => push_tilde_escape(&mut bytes, 0x33),
        KeyCode::PageUp => push_tilde_escape(&mut bytes, 0x35),
        KeyCode::PageDown => push_tilde_escape(&mut bytes, 0x36),
        _ => return None,
    }
    assert(bytes@ =~= start + plain_key_bytes(k)->0);
    assert(Seq::<u8>::empty() + plain_key_bytes(k)->0 =~= plain_key_bytes(k)->0);
    Some(bytes)
}

/// The keys of the workbench, with nothing on top and the terminal not taking what is
/// typed: F6 moves the focus on and with Shift back, F7 chooses the next authority, F12
/// asks for the definition and F2 for a rename; Control or Command with `s` saves, with
/// a space asks for completions and with Shift and `h` for a hover.
pub proof fn workbench_keys_ask_for_what_they_name(
    k: KeyEvent,
    s: AppSnapshot,
    entry: Option<SelectedEntry>,
    action: Option<Action>,
)
    requires
        s.overlay == OverlaySnapshot::Closed,
        !s.terminal.captured,
        key_mapped(k, s, entry, action),
    ensures
        k.code == KeyCode::F(6) && !k.modifiers.shift ==> action == Some(
            Action::CycleLandmarkForward,
        ),
        k.code == KeyCode::F(6) && k.modifiers.shift ==> action == Some(
            Action::CycleLandmarkBackward,
        ),
        k.code == KeyCode::F(7) ==> action == Some(Action::CycleAuthority),
        k.code == KeyCode::F(12) ==> action == Some(Action::RequestDefinition),
        k.code == KeyCode::F(2) ==> action == Some(Action::RequestRename),
        k.code == KeyCode::Esc ==> action == Some(Action::CancelModal),
        !k.modifiers.alt && (k.modifiers.control || k.modifiers.command) && k.code == KeyCode::Char(
            's',
        ) ==> action == Some(Action::Save),
        !k.modifiers.alt && (k.modifiers.control || k.modifiers.command) && k.code == KeyCode::Char(
            ' ',
        ) ==> action == Some(Action::RequestCompletion),
        !k.modifiers.alt && (k.modifiers.control || k.modifiers.command) && k.modifiers.shift && (
        k.code == KeyCode::Char('h') || k.code == KeyCode::Char('H')) ==> action == Some(
            Action::RequestHover,
        ),
        (k.modifiers.control || k.modifiers.command) && k.code == KeyCode::Char('`') ==> action
            == Some(Action::OpenTerminal),
        k.code == KeyCode::Enter && s.focus == Landmark::Authority ==> action == Some(
            Action::ReviewTrust,
        ),
        k.code == KeyCode::Enter && s.focus == Landmark::PrimaryPane && s.project.tree is Some ==> (
        entry matches Some(e) ==> (e.is_dir ==> action == Some(
            Action::ProjectToggleDir { path: e.path },
        )) && (!e.is_dir ==> action == Some(Action::RequestProjectFile { path: e.path }))),
        k.code is Char && s.focus != Landmark::Editor ==> !(action matches Some(
            Action::EditorInsert(_),
        )),
        k.code == KeyCode::Backspace && s.focus != Landmark::Editor ==> action is None,
{
}

/// In a review of trust, Enter does what is focused: it grants where there is no trust
/// yet, revokes where there is, and else only closes; Escape closes. A passphrase takes
/// what is typed, and Enter submits it.
pub proof fn review_keys_do_what_is_focused(
    k: KeyEvent,
    s: AppSnapshot,
    entry: Option<SelectedEntry>,
    action: Option<Action>,
)
    requires
        key_mapped(k, s, entry, action),
    ensures
        s.overlay matches OverlaySnapshot::TrustReview { focused_grant, trust, .. } ==> {
            &&& k.code == KeyCode::Enter && !focused_grant ==> action == Some(Action::CancelModal)
            &&& k.code == KeyCode::Enter && focused_grant && trust == TrustLevel::InspectOnly
                ==> action == Some(Action::GrantTrust)
            &&& k.code == KeyCode::Enter && focused_grant && trust == TrustLevel::Trusted ==> action
                == Some(Action::RevokeTrust)
            &&& k.code == KeyCode::Esc ==> action == Some(Action::CancelModal)
            &&& k.code == KeyCode::Tab ==> action == Some(Action::NextControl)
            &&& k.code is Char ==> action is None
        },
        s.overlay is SshPassphrase ==> {
            &&& k.code matches KeyCode::Char(c) ==> action == Some(Action::SshPassphraseInput(c))
            &&& k.code == KeyCode::Backspace ==> action == Some(Action::SshPassphraseBackspace)
            &&& k.code == KeyCode::Enter ==> action == Some(Action::SshPassphraseSubmit)
            &&& k.code == KeyCode::Esc ==> action == Some(Action::CancelModal)
        },
        s.overlay is SaveAs && k.code == KeyCode::Enter ==> action == Some(
            Action::SaveAsOverlayConfirm,
        ),
        s.overlay is RenameInput && k.code == KeyCode::Enter ==> action == Some(
            Action::RenameOverlayConfirm,
        ),
        (s.overlay is CommandPalette || s.overlay is Completion) && k.code == KeyCode::Enter
            ==> action == Some(Action::ActivateFocused),
        s.overlay is Hover && (k.code == KeyCode::Enter || k.code == KeyCode::Esc) ==> action
            == Some(Action::CancelModal),
{
}

} // verus!
