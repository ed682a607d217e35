//! State machines, protocol rules and text coordinates of the Hermito
//! terminal workbench.
pub mod action;
pub mod app;
pub mod authority;
pub mod buffer;
pub mod coalesce;
pub mod config;
pub mod coordinate;
pub mod document;
pub mod edit;
pub mod encoding;
pub mod event_loop;
pub mod first_run;
pub mod input;
pub mod json;
pub mod layout;
pub mod lsp;
pub mod path;
pub mod protocol;
pub mod remote;
pub mod rope;
pub mod secret;
pub mod text;
pub mod words;
