//! From an event to the actions it stands for.
use vstd::prelude::*;
use vstd::utf8::encode_utf8;

use super::crossterm_adapter::{
    alt_tool, as_key, as_mouse, as_paste, as_resize, command_k, is_alt_tool, is_command_k, is_f6,
    is_shift_f6, Event, KeyCode, KeyEvent,
};
use super::keyboard::{key_mapped, map_key, reaches_below, SelectedEntry};
use super::mouse::{map_mouse, mouse_action};
use crate::action::Action;
use crate::app::snapshot::{AppSnapshot, OverlaySnapshot};
use crate::layout::Landmark;

verus! {

/// One action or none.
pub open spec fn at_most_one(action: Option<Action>) -> Seq<Action> {
    match action {
        Some(a) => seq![a],
        None => Seq::empty(),
    }
}

/// Whether a key quits. It does not while the terminal takes what is typed.
pub open spec fn quits(k: KeyEvent, s: AppSnapshot) -> bool {
    !s.terminal.captured && k.modifiers.control && (k.code == KeyCode::Char('c') || k.code
        == KeyCode::Char('q'))
}

/// What the shortcuts that hold everywhere add to what a key stands for.
pub open spec fn everywhere(k: KeyEvent, action: Option<Action>) -> Seq<Action> {
    let shift = k.modifiers.shift;
    let forward = if k.code == KeyCode::F(6) && !shift && action is None {
        seq![Action::CycleLandmarkForward]
    } else {
        Seq::empty()
    };
    let backward = if k.code == KeyCode::F(6) && shift && action != Some(
        Action::CycleLandmarkBackward,
    ) {
        seq![Action::CycleLandmarkBackward]
    } else {
        Seq::empty()
    };
    let tool = match alt_tool(k) {
        Some(n) => seq![Action::ActivateLeftTool(n)],
        None => Seq::empty(),
    };
    let palette = if command_k(k) {
        seq![Action::OpenCommandPalette]
    } else {
        Seq::empty()
    };
    forward + backward + tool + palette
}

/// The actions that a key stands for.
pub open spec fn key_handled(
    k: KeyEvent,
    s: AppSnapshot,
    entry: Option<SelectedEntry>,
    action: Option<Action>,
    out: Seq<Action>,
) -> bool {
    key_mapped(k, s, entry, action) && out == at_most_one(action) + everywhere(k, action)
}

/// The actions that an event stands for. A paste goes where typing goes: to the
/// terminal while it takes what is typed, else to the editor if that has the focus.
pub open spec fn event_handled(
    event: Event,
    s: AppSnapshot,
    entry: Option<SelectedEntry>,
    out: Seq<Action>,
) -> bool {
    match event {
        Event::Paste(text) => if s.terminal.captured {
            out.len() == 1 && (out[0] matches Action::TerminalInput(bytes) && bytes@
                == encode_utf8(text@))
        } else if s.focus == Landmark::Editor {
            out == seq![Action::EditorPaste(text)]
        } else {
            out == Seq::<Action>::empty()
        },
        Event::Resize(width, height) => out == seq![Action::TerminalResize { width, height }],
        Event::Key(k) => if quits(k, s) {
            out == seq![Action::Quit]
        } else {
            exists|action: Option<Action>| key_handled(k, s, entry, action, out)
        },
        Event::Mouse(m) => out == at_most_one(mouse_action(m, s)),
        Event::FocusGained => out == Seq::<Action>::empty(),
        Event::FocusLost => out == Seq::<Action>::empty(),
    }
}

/// While the terminal takes what is typed, neither a key nor a paste quits or
/// reaches the editor.
pub proof fn captured_input_stays_in_the_terminal(
    event: Event,
    s: AppSnapshot,
    entry: Option<SelectedEntry>,
    out: Seq<Action>,
    i: int,
)
    requires
        s.terminal.captured,
        !(event is Mouse),
        event_handled(event, s, entry, out),
        0 <= i < out.len(),
    ensures
        out[i] != Action::Quit,
        reaches_below(out[i]) ==> out[i] is TerminalInput,
{
    if let Event::Key(k) = event {
        let action = choose|action: Option<Action>| key_handled(k, s, entry, action, out);
        assert(key_handled(k, s, entry, action, out));
    }
}

/// No key types into the editor or the terminal past what is open on top.
pub proof fn keys_are_kept_on_top(
    k: KeyEvent,
    s: AppSnapshot,
    entry: Option<SelectedEntry>,
    out: Seq<Action>,
    i: int,
)
    requires
        s.overlay != OverlaySnapshot::Closed,
        event_handled(Event::Key(k), s, entry, out),
        0 <= i < out.len(),
    ensures
        !reaches_below(out[i]),
{
    if !quits(k, s) {
        let action = choose|action: Option<Action>| key_handled(k, s, entry, action, out);
        assert(key_handled(k, s, entry, action, out));
    }
}

/// The bytes of a text.
fn into_bytes(text: &str) -> (bytes: Vec<u8>)
    ensures
        bytes@ == encode_utf8(text@),
{
    let encoded: &[u8] = text.as_bytes();
    let mut bytes: Vec<u8> = Vec::new();
    for i in 0..encoded.len()
        invariant
            bytes@ == encoded@.take(i as int),
    {
        bytes.push(encoded[i]);
        assert(bytes@ =~= encoded@.take(i + 1));
    }
    assert(encoded@.take(encoded@.len() as int) =~= encoded@);
    bytes
}

/// The actions that an event stands for, with the entry of the project tree that is
/// selected.
pub fn handle_event(event: Event, snapshot: &AppSnapshot, entry: &Option<SelectedEntry>) -> (
out: Vec<Action>)
    requires
        snapshot.layout.wf(),
    ensures
        event_handled(event, *snapshot, *entry, out@),
{
    let mut out: Vec<Action> = Vec::new();
    assert(out@ =~= Seq::empty());
    if let Some(text) = as_paste(&event) {
        if snapshot.terminal.captured {
            out.push(Action::TerminalInput(into_bytes(text.as_str())));
        } else if snapshot.focus == Landmark::Editor {
            out.push(Action::EditorPaste(text));
            assert(out@ =~= seq![Action::EditorPaste(text)]);
        }
        return out;
    }
    if let Some((width, height)) = as_resize(&event) {
        out.push(Action::TerminalResize { width, height });
        assert(out@ =~= seq![Action::TerminalResize { width, height }]);
        return out;
    }
    if let Some(m) = as_mouse(&event) {
        let action = map_mouse(m, snapshot);
        if let Some(a) = action {
            out.push(a);
        }
        assert(out@ =~= at_most_one(mouse_action(m, *snapshot)));
        return out;
    }
    let k = match as_key(&event) {
        Some(k) => k,
        None => return out,
    };
    if !snapshot.terminal.captured && k.modifiers.control && (k.code == KeyCode::Char('c')
        || k.code == KeyCode::Char('q')) {
        out.push(Action::Quit);
        assert(out@ =~= seq![Action::Quit]);
        return out;
    }
    let action = map_key(k, snapshot, entry);
    let ghost mapped = action;
    let back = match &action {
        Some(Action::CycleLandmarkBackward) => true,
        _ => false,
    };
    if let Some(a) = action {
        out.push(a);
    }
    if is_f6(&event) && !is_shift_f6(&event) && out.len() == 0 {
        out.push(Action::CycleLandmarkForward);
    }
    if is_shift_f6(&event) && !back {
        out.push(Action::CycleLandmarkBackward);
    }
    if let Some(n) = is_alt_tool(&event) {
        out.push(Action::ActivateLeftTool(n));
    }
    if is_command_k(&event) {
        out.push(Action::OpenCommandPalette);
    }
    assert(out@ =~= at_most_one(mapped) + everywhere(k, mapped));
    assert(key_handled(k, *snapshot, *entry, mapped, out@));
    out
}

/// Control with `c` or `q` quits, and nothing else of the keyboard does, unless the
/// terminal takes what is typed.
pub proof fn two_keys_quit(k: KeyEvent, s: AppSnapshot, entry: Option<SelectedEntry>, out: Seq<Action>)
    requires
        event_handled(Event::Key(k), s, entry, out),
    ensures
        !s.terminal.captured && k.modifiers.control && (k.code == KeyCode::Char('c') || k.code
            == KeyCode::Char('q')) ==> out == seq![Action::Quit],
        out.contains(Action::Quit) ==> !s.terminal.captured && k.modifiers.control && (k.code
            == KeyCode::Char('c') || k.code == KeyCode::Char('q')),
{
    if !quits(k, s) {
        let action = choose|action: Option<Action>| key_handled(k, s, entry, action, out);
        assert(key_handled(k, s, entry, action, out));
        if out.contains(Action::Quit) {
            let i = choose|i: int| 0 <= i < out.len() && out[i] == Action::Quit;
            assert(out[i] == Action::Quit);
        }
    }
}

/// A paste goes where typing goes, whole: to the terminal while it takes what is typed,
/// to the editor if that has the focus, and nowhere otherwise. A new size of the screen
/// is handed on as it is.
pub proof fn pastes_go_where_typing_goes(
    text: String,
    width: u16,
    height: u16,
    s: AppSnapshot,
    entry: Option<SelectedEntry>,
    out: Seq<Action>,
)
    ensures
        event_handled(Event::Paste(text), s, entry, out) && s.terminal.captured ==> out.len() == 1
            && (out[0] matches Action::TerminalInput(bytes) && bytes@ == encode_utf8(text@)),
        event_handled(Event::Paste(text), s, entry, out) && !s.terminal.captured && s.focus
            == Landmark::Editor ==> out == seq![Action::EditorPaste(text)],
        event_handled(Event::Paste(text), s, entry, out) && !s.terminal.captured && s.focus
            != Landmark::Editor ==> out.len() == 0,
        event_handled(Event::Resize(width, height), s, entry, out) ==> out == seq![
            Action::TerminalResize { width, height },
        ],
{
}

/// The shortcuts that hold everywhere hold whatever is open: F6 moves the focus, with
/// Shift backwards, Alt with a number from one to four chooses that tool, and Control or
/// Command with `k` opens the palette.
pub proof fn shortcuts_hold_everywhere(
    k: KeyEvent,
    s: AppSnapshot,
    entry: Option<SelectedEntry>,
    out: Seq<Action>,
)
    requires
        event_handled(Event::Key(k), s, entry, out),
        !(k.modifiers.control && (k.code == KeyCode::Char('c') || k.code == KeyCode::Char('q'))),
    ensures
        k.code == KeyCode::F(6) && !k.modifiers.shift && s.overlay == OverlaySnapshot::Closed
            && !s.terminal.captured ==> out.contains(Action::CycleLandmarkForward),
        k.code == KeyCode::F(6) && k.modifiers.shift ==> out.contains(
            Action::CycleLandmarkBackward,
        ),
        k.modifiers.alt && k.code == KeyCode::Char('1') ==> out.contains(
            Action::ActivateLeftTool(1),
        ),
        k.modifiers.alt && k.code == KeyCode::Char('2') ==> out.contains(
            Action::ActivateLeftTool(2),
        ),
        k.modifiers.alt && k.code == KeyCode::Char('3') ==> out.contains(
            Action::ActivateLeftTool(3),
        ),
        k.modifiers.alt && k.code == KeyCode::Char('4') ==> out.contains(
            Action::ActivateLeftTool(4),
        ),
        (k.modifiers.control || k.modifiers.command) && (k.code == KeyCode::Char('k') || k.code
            == KeyCode::Char('K')) ==> out.contains(Action::OpenCommandPalette),
{
    let action = choose|action: Option<Action>| key_handled(k, s, entry, action, out);
    assert(key_handled(k, s, entry, action, out));
    let head = at_most_one(action);
    let tail = everywhere(k, action);
    assert(out == head + tail);
    if head.len() > 0 {
        assert(out[0] == head[0]);
    }
    assert forall|x: Action| tail.contains(x) implies out.contains(x) by {
        let i = choose|i: int| 0 <= i < tail.len() && tail[i] == x;
        assert(out[head.len() + i] == x);
    }
    if tail.len() > 0 {
        assert(tail.contains(tail[0]));
        assert(tail.contains(tail.last()));
    }
}

} // verus!
