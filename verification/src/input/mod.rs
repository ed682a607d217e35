//! From keys, the mouse and pastes to actions. Nothing is kept here: what has the
//! focus and what is on top is read from a snapshot.
pub mod crossterm_adapter;
pub mod handler;
pub mod keyboard;
pub mod mouse;

pub use self::crossterm_adapter::{is_alt_tool, is_command_k, is_f6, is_shift_f6};
pub use self::handler::handle_event;
