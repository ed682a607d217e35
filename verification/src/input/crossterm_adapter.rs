//! The events of the terminal, as far as they are told apart.
use vstd::prelude::*;

verus! {

#[derive(Clone, Copy, Debug, PartialEq, Eq, Structural)]
pub enum KeyCode {
    Char(char),
    F(u8),
    Enter,
    Backspace,
    Tab,
    BackTab,
    Up,
    Down,
    Left,
    Right,
    Home,
    End,
    Delete,
    PageUp,
    PageDown,
    Esc,
    Other,
}

#[derive(Clone, Copy, Debug, PartialEq, Eq, Structural)]
pub struct KeyModifiers {
    pub shift: bool,
    pub control: bool,
    pub alt: bool,
    pub command: bool,
}

#[derive(Clone, Copy, Debug, PartialEq, Eq, Structural)]
pub struct KeyEvent {
    pub code: KeyCode,
    pub modifiers: KeyModifiers,
}

#[derive(Clone, Copy, Debug, PartialEq, Eq, Structural)]
pub enum MouseButton {
    Left,
    Right,
    Middle,
}

#[derive(Clone, Copy, Debug, PartialEq, Eq, Structural)]
pub enum MouseEventKind {
    Down(MouseButton),
    Up(MouseButton),
    Drag(MouseButton),
    Moved,
    ScrollDown,
    ScrollUp,
    ScrollLeft,
    ScrollRight,
}

#[derive(Clone, Copy, Debug, PartialEq, Eq, Structural)]
pub struct MouseEvent {
    pub kind: MouseEventKind,
    pub column: u16,
    pub row: u16,
}

#[derive(Debug, PartialEq, Eq)]
pub enum Event {
    Key(KeyEvent),
    Mouse(MouseEvent),
    Paste(String),
    Resize(u16, u16),
    FocusGained,
    FocusLost,
}

/// The tool that is chosen by holding Alt and typing its number.
pub open spec fn alt_tool(k: KeyEvent) -> Option<u8> {
    if !k.modifiers.alt {
        None
    } else if k.code == KeyCode::Char('1') {
        Some(1)
    } else if k.code == KeyCode::Char('2') {
        Some(2)
    } else if k.code == KeyCode::Char('3') {
        Some(3)
    } else if k.code == KeyCode::Char('4') {
        Some(4)
    } else {
        None
    }
}

/// Whether a key is pressed together with Control or Command.
pub open spec fn with_command(k: KeyEvent) -> bool {
    k.modifiers.control || k.modifiers.command
}

/// Whether a key opens the command palette.
pub open spec fn command_k(k: KeyEvent) -> bool {
    (k.code == KeyCode::Char('k') || k.code == KeyCode::Char('K')) && with_command(k)
}

pub fn is_f6(event: &Event) -> (yes: bool)
    ensures
        yes == (event matches Event::Key(k) && k.code == KeyCode::F(6)),
{
    match event {
        Event::Key(k) => k.code == KeyCode::F(6),
        _ => false,
    }
}

pub fn is_shift_f6(event: &Event) -> (yes: bool)
    ensures
        yes == (event matches Event::Key(k) && k.code == KeyCode::F(6) && k.modifiers.shift),
{
    match event {
        Event::Key(k) => k.code == KeyCode::F(6) && k.modifiers.shift,
        _ => false,
    }
}

pub fn is_alt_tool(event: &Event) -> (tool: Option<u8>)
    ensures
        tool == match event {
            Event::Key(k) => alt_tool(*k),
            _ => None,
        },
{
    match event {
        Event::Key(k) => {
            if k.modifiers.alt {
                match k.code {
                    KeyCode::Char('1') => Some(1),
                    KeyCode::Char('2') => Some(2),
                    KeyCode::Char('3') => Some(3),
                    KeyCode::Char('4') => Some(4),
                    _ => None,
                }
            } else {
                None
            }
        },
        _ => None,
    }
}

pub fn is_command_k(event: &Event) -> (yes: bool)
    ensures
        yes == (event matches Event::Key(k) && command_k(*k)),
{
    match event {
        Event::Key(k) => (k.code == KeyCode::Char('k') || k.code == KeyCode::Char('K')) && (
        k.modifiers.control || k.modifiers.command),
        _ => false,
    }
}

pub fn as_key(event: &Event) -> (key: Option<KeyEvent>)
    ensures
        key == match event {
            Event::Key(k) => Some(*k),
            _ => None,
        },
{
    match event {
        Event::Key(k) => Some(*k),
        _ => None,
    }
}

pub fn as_mouse(event: &Event) -> (mouse: Option<MouseEvent>)
    ensures
        mouse == match event {
            Event::Mouse(m) => Some(*m),
            _ => None,
        },
{
    match event {
        Event::Mouse(m) => Some(*m),
        _ => None,
    }
}

pub fn as_paste(event: &Event) -> (text: Option<String>)
    ensures
        text == match event {
            Event::Paste(t) => Some(*t),
            _ => None,
        },
{
    match event {
        Event::Paste(t) => Some(t.clone()),
        _ => None,
    }
}

pub fn as_resize(event: &Event) -> (size: Option<(u16, u16)>)
    ensures
        size == match event {
            Event::Resize(width, height) => Some((*width, *height)),
            _ => None,
        },
{
    match event {
        Event::Resize(width, height) => Some((*width, *height)),
        _ => None,
    }
}

} // verus!
