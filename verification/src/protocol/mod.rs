//! The framed protocol between the workbench and the remote helper.
pub mod dispatcher;
pub mod frame;
pub mod fs;
pub mod lsp;
pub mod message;
pub mod process;
pub mod pty;
pub mod request;
pub mod response;
