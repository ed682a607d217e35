//! The helper that runs on a remote machine and serves one editor.
pub mod lsp;
pub mod service;
