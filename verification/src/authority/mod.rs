//! Authorities: the places where files are read and programs are run, and what
//! they may do.
use vstd::prelude::*;

use crate::document;
use crate::protocol::request::{EnvironmentEpoch, WorkspaceEpoch};
use crate::protocol::response::{RemoteError, RemoteErrorCode};
use crate::words::{
    decimal, decimal_text, join2, join3, join4, path_quoted, quoted, quoted_path, quoted_text,
};

pub mod base;
pub mod edit_task;
pub mod launch;
pub mod local;
pub mod remote_edit;
pub mod ssh;
pub mod transaction;
pub mod tuf_verifier;
pub mod types;

verus! {

/// Why the members of a workspace edit clash or could not be written.
#[derive(Debug, PartialEq, Eq)]
#[allow(inconsistent_fields)]
pub enum EditConflict {
    DuplicatePrecondition { path: String },
    DuplicateTarget { path: String },
    DuplicateRemoteTarget { path: String },
    /// The originals could not be set aside.
    NotPreserved { error: String },
    NotCommitted { path: String, error: String },
    /// The original of a remote change could not be read.
    NotStaged { path: String, error: String },
    /// A remote change could not be written; what could not be put back then.
    RemoteWrite { path: String, error: String, rollback_failures: Vec<(String, String)> },
}

/// What is wrong with the files of this machine.
#[derive(Debug, PartialEq, Eq)]
pub enum IoFault {
    /// A file that is to be overwritten is not there.
    TargetMissing,
    NoStdin,
    NoStdout,
    Other(String),
}

/// Which answer a request waits for.
#[derive(Clone, Copy, Debug, PartialEq, Eq, Structural)]
pub enum Awaited {
    FileRead,
    FileWrite,
    Original,
    Replacement,
    Process,
}

/// What is wrong with what another side says.
#[derive(Debug, PartialEq, Eq)]
#[allow(inconsistent_fields)]
pub enum ProtocolFault {
    /// A language server has another version or digest than it must have.
    VersionMismatch { expected: String, actual: String },
    ResponseMismatch,
    UnexpectedResponse(Awaited),
    /// The reason is given by the connection.
    Other(String),
}

/// What is wrong with a connection over SSH.
#[derive(Debug, PartialEq, Eq)]
pub enum SshFault {
    RootNotAbsolute,
    AlreadyConnected,
    NotConnected,
    SpawnCancelled,
    /// The helper answered with an error.
    Remote(RemoteError),
    Other(String),
}

/// Why an authority refuses a request.
#[derive(Debug, PartialEq, Eq)]
#[allow(inconsistent_fields)]
pub enum AuthorityError {
    InspectOnly,
    PathEscapesRoot(String),
    MissingDocumentRevision,
    StaleEpoch {
        expected_workspace: WorkspaceEpoch,
        actual_workspace: WorkspaceEpoch,
        expected_environment: EnvironmentEpoch,
        actual_environment: EnvironmentEpoch,
    },
    OutputLimit { limit: usize },
    InputLimit { limit: usize },
    Io(IoFault),
    Pty(String),
    Process(String),
    Ssh(SshFault),
    Verification(String),
    Protocol(ProtocolFault),
    UnsupportedExecutionContext,
    LspEditConflict(EditConflict),
    MissingLspEditPrecondition { path: String },
    LspEditPreconditionMismatch {
        path: String,
        expected: document::DocumentRevision,
        actual: document::DocumentRevision,
    },
    LspEditPreconditionContextMismatch { path: String },
}

/// A number in round brackets after a name.
pub open spec fn tagged(name: Seq<char>, n: u64) -> Seq<char> {
    name + "("@ + decimal(n as nat) + ")"@
}

fn tagged_text(name: &str, n: u64) -> (text: String)
    ensures
        text@ == tagged(name@, n),
{
    let digits = decimal_text(n);
    join4(name, "(", digits.as_str(), ")")
}

/// The failures of putting originals back, from index `i` on: each path with its
/// error, with commas between them.
pub open spec fn failures_text(failures: Seq<(String, String)>, i: int) -> Seq<char>
    decreases failures.len() - i,
{
    if i < 0 || i >= failures.len() {
        Seq::empty()
    } else {
        let one = path_quoted(failures[i].0@) + ": "@ + failures[i].1@;
        if i + 1 < failures.len() {
            one + ", "@ + failures_text(failures, i + 1)
        } else {
            one
        }
    }
}

fn join_failures(failures: &Vec<(String, String)>, i: usize) -> (text: String)
    requires
        i <= failures@.len(),
    ensures
        text@ == failures_text(failures@, i as int),
    decreases failures@.len() - i,
{
    if i >= failures.len() {
        return String::new();
    }
    let path = quoted_path(failures[i].0.as_str());
    let one = join3(path.as_str(), ": ", failures[i].1.as_str());
    if i < failures.len() - 1 {
        let rest = join_failures(failures, i + 1);
        join3(one.as_str(), ", ", rest.as_str())
    } else {
        one
    }
}

/// What a conflict says.
pub open spec fn conflict_text(conflict: EditConflict) -> Seq<char> {
    match conflict {
        EditConflict::DuplicatePrecondition { path } =>
            "duplicate host workspace edit precondition: "@ + path_quoted(path@),
        EditConflict::DuplicateTarget { path } => "duplicate workspace edit target: "@
            + path_quoted(path@),
        EditConflict::DuplicateRemoteTarget { path } =>
            "duplicate remote workspace edit target: "@ + path_quoted(path@),
        EditConflict::NotPreserved { error } =>
            "failed to preserve originals before workspace edit: "@ + error@,
        EditConflict::NotCommitted { path, error } => "failed to commit workspace edit for "@
            + path_quoted(path@) + ": "@ + error@,
        EditConflict::NotStaged { path, error } =>
            "failed to stage remote workspace edit for "@ + path_quoted(path@) + ": "@ + error@,
        EditConflict::RemoteWrite { path, error, rollback_failures } => {
            let failed = "remote workspace edit failed for "@ + path_quoted(path@) + ": "@
                + error@;
            if rollback_failures@.len() == 0 {
                failed
            } else {
                failed + "; rollback failures: "@ + failures_text(rollback_failures@, 0)
            }
        },
    }
}

impl EditConflict {
    pub fn text(&self) -> (text: String)
        ensures
            text@ == conflict_text(*self),
    {
        match self {
            EditConflict::DuplicatePrecondition { path } => {
                let path = quoted_path(path.as_str());
                join2("duplicate host workspace edit precondition: ", path.as_str())
            },
            EditConflict::DuplicateTarget { path } => {
                let path = quoted_path(path.as_str());
                join2("duplicate workspace edit target: ", path.as_str())
            },
            EditConflict::DuplicateRemoteTarget { path } => {
                let path = quoted_path(path.as_str());
                join2("duplicate remote workspace edit target: ", path.as_str())
            },
            EditConflict::NotPreserved { error } => join2(
                "failed to preserve originals before workspace edit: ",
                error.as_str(),
            ),
            EditConflict::NotCommitted { path, error } => {
                let path = quoted_path(path.as_str());
                join4(
                    "failed to commit workspace edit for ",
                    path.as_str(),
                    ": ",
                    error.as_str(),
                )
            },
            EditConflict::NotStaged { path, error } => {
                let path = quoted_path(path.as_str());
                join4(
                    "failed to stage remote workspace edit for ",
                    path.as_str(),
                    ": ",
                    error.as_str(),
                )
            },
            EditConflict::RemoteWrite { path, error, rollback_failures } => {
                let path = quoted_path(path.as_str());
                let failed = join4(
                    "remote workspace edit failed for ",
                    path.as_str(),
                    ": ",
                    error.as_str(),
                );
                if rollback_failures.len() == 0 {
                    return failed;
                }
                let rest = join_failures(rollback_failures, 0);
                join3(failed.as_str(), "; rollback failures: ", rest.as_str())
            },
        }
    }
}

/// What is said of the files of this machine.
pub open spec fn io_text(fault: IoFault) -> Seq<char> {
    match fault {
        IoFault::TargetMissing => "target does not exist"@,
        IoFault::NoStdin => "failed to take stdin for lsp"@,
        IoFault::NoStdout => "failed to take stdout for lsp"@,
        IoFault::Other(text) => text@,
    }
}

impl IoFault {
    pub fn text(&self) -> (text: String)
        ensures
            text@ == io_text(*self),
    {
        match self {
            IoFault::TargetMissing => "target does not exist".to_owned(),
            IoFault::NoStdin => "failed to take stdin for lsp".to_owned(),
            IoFault::NoStdout => "failed to take stdout for lsp".to_owned(),
            IoFault::Other(text) => text.clone(),
        }
    }
}

/// What is said of an answer that is not the awaited one.
pub open spec fn unexpected_text(awaited: Awaited) -> Seq<char> {
    match awaited {
        Awaited::FileRead => "unexpected file-read response"@,
        Awaited::FileWrite => "unexpected file-write response"@,
        Awaited::Original => "unexpected prevalidated workspace file-read response"@,
        Awaited::Replacement => "unexpected prevalidated workspace file-write response"@,
        Awaited::Process => "unexpected process response"@,
    }
}

/// The words that mark a server of another version or digest than it must have.
pub open spec fn mismatch_mark() -> Seq<char> {
    "LSP_VERSION_MISMATCH:"@
}

/// What is said of another side.
pub open spec fn protocol_text(fault: ProtocolFault) -> Seq<char> {
    match fault {
        ProtocolFault::VersionMismatch { expected, actual } => mismatch_mark() + " expected "@
            + quoted(expected@) + ", actual "@ + quoted(actual@),
        ProtocolFault::ResponseMismatch => "remote response identity does not match its request"@,
        ProtocolFault::UnexpectedResponse(awaited) => unexpected_text(awaited),
        ProtocolFault::Other(text) => text@,
    }
}

impl ProtocolFault {
    pub fn text(&self) -> (text: String)
        ensures
            text@ == protocol_text(*self),
    {
        match self {
            ProtocolFault::VersionMismatch { expected, actual } => {
                let expected = quoted_text(expected.as_str());
                let actual = quoted_text(actual.as_str());
                let mut text = join3("LSP_VERSION_MISMATCH:", " expected ", expected.as_str());
                text.push_str(", actual ");
                text.push_str(actual.as_str());
                text
            },
            ProtocolFault::ResponseMismatch =>
                "remote response identity does not match its request".to_owned(),
            ProtocolFault::UnexpectedResponse(awaited) => match awaited {
                Awaited::FileRead => "unexpected file-read response".to_owned(),
                Awaited::FileWrite => "unexpected file-write response".to_owned(),
                Awaited::Original =>
                    "unexpected prevalidated workspace file-read response".to_owned(),
                Awaited::Replacement =>
                    "unexpected prevalidated workspace file-write response".to_owned(),
                Awaited::Process => "unexpected process response".to_owned(),
            },
            ProtocolFault::Other(text) => text.clone(),
        }
    }
}

/// The name of an error code.
pub open spec fn code_name(code: RemoteErrorCode) -> Seq<char> {
    match code {
        RemoteErrorCode::InvalidRequest => "InvalidRequest"@,
        RemoteErrorCode::PermissionDenied => "PermissionDenied"@,
        RemoteErrorCode::NotFound => "NotFound"@,
        RemoteErrorCode::Cancelled => "Cancelled"@,
        RemoteErrorCode::TimedOut => "TimedOut"@,
        RemoteErrorCode::OutputLimit => "OutputLimit"@,
        RemoteErrorCode::StaleEpoch => "StaleEpoch"@,
        RemoteErrorCode::Internal => "Internal"@,
    }
}

fn code_text(code: RemoteErrorCode) -> (text: &'static str)
    ensures
        text@ == code_name(code),
{
    match code {
        RemoteErrorCode::InvalidRequest => "InvalidRequest",
        RemoteErrorCode::PermissionDenied => "PermissionDenied",
        RemoteErrorCode::NotFound => "NotFound",
        RemoteErrorCode::Cancelled => "Cancelled",
        RemoteErrorCode::TimedOut => "TimedOut",
        RemoteErrorCode::OutputLimit => "OutputLimit",
        RemoteErrorCode::StaleEpoch => "StaleEpoch",
        RemoteErrorCode::Internal => "Internal",
    }
}

/// What is said of a connection over SSH.
pub open spec fn ssh_text(fault: SshFault) -> Seq<char> {
    match fault {
        SshFault::RootNotAbsolute => "remote Linux root must be absolute"@,
        SshFault::AlreadyConnected => "remote helper is already connected"@,
        SshFault::NotConnected => "remote helper is not connected"@,
        SshFault::SpawnCancelled => "PTY spawn cancelled"@,
        SshFault::Remote(error) => code_name(error.code) + ": "@ + error.message@,
        SshFault::Other(text) => text@,
    }
}

impl SshFault {
    pub fn text(&self) -> (text: String)
        ensures
            text@ == ssh_text(*self),
    {
        match self {
            SshFault::RootNotAbsolute => "remote Linux root must be absolute".to_owned(),
            SshFault::AlreadyConnected => "remote helper is already connected".to_owned(),
            SshFault::NotConnected => "remote helper is not connected".to_owned(),
            SshFault::SpawnCancelled => "PTY spawn cancelled".to_owned(),
            SshFault::Remote(error) => join3(
                code_text(error.code),
                ": ",
                error.message.as_str(),
            ),
            SshFault::Other(text) => text.clone(),
        }
    }
}

/// What an error says.
pub open spec fn error_text(error: AuthorityError) -> Seq<char> {
    match error {
        AuthorityError::InspectOnly =>
            "authority is inspect only; explicit execution trust is required"@,
        AuthorityError::PathEscapesRoot(path) => "authority path escapes workspace root: "@ + path@,
        AuthorityError::MissingDocumentRevision =>
            "document file request requires a document revision"@,
        AuthorityError::StaleEpoch {
            expected_workspace,
            actual_workspace,
            expected_environment,
            actual_environment,
        } => "stale authority epoch: workspace "@ + tagged("WorkspaceEpoch"@, actual_workspace.0)
            + "/"@ + tagged("WorkspaceEpoch"@, expected_workspace.0) + ", environment "@ + tagged(
            "EnvironmentEpoch"@,
            actual_environment.0,
        ) + "/"@ + tagged("EnvironmentEpoch"@, expected_environment.0),
        AuthorityError::OutputLimit { limit } => "authority output exceeds limit "@ + decimal(
            limit as nat,
        ),
        AuthorityError::InputLimit { limit } => "authority input exceeds limit "@ + decimal(
            limit as nat,
        ),
        AuthorityError::Io(fault) => "authority I/O failed: "@ + io_text(fault),
        AuthorityError::Pty(text) => "PTY failed: "@ + text@,
        AuthorityError::Process(text) => "process failed: "@ + text@,
        AuthorityError::Ssh(fault) => "SSH transport failed: "@ + ssh_text(fault),
        AuthorityError::Verification(text) => "remote helper verification failed: "@ + text@,
        AuthorityError::Protocol(fault) => "remote protocol failed: "@ + protocol_text(fault),
        AuthorityError::UnsupportedExecutionContext =>
            "devcontainer lsp execution context is unsupported until phase 5 adapter"@,
        AuthorityError::LspEditConflict(conflict) => "lsp workspace edit conflict: "@
            + conflict_text(conflict),
        AuthorityError::MissingLspEditPrecondition { path } =>
            "LSP workspace edit is missing a validated host precondition for "@ + path_quoted(
            path@,
        ),
        AuthorityError::LspEditPreconditionMismatch { path, expected, actual } =>
            "LSP workspace edit precondition revision mismatch for "@ + path_quoted(path@)
            + ": expected "@ + tagged("DocumentRevision"@, expected.0) + ", actual "@ + tagged(
            "DocumentRevision"@,
            actual.0,
        ),
        AuthorityError::LspEditPreconditionContextMismatch { path } =>
            "LSP workspace edit host precondition context mismatch for "@ + path_quoted(path@),
    }
}

impl AuthorityError {
    pub fn text(&self) -> (text: String)
        ensures
            text@ == error_text(*self),
    {
        match self {
            AuthorityError::InspectOnly =>
                "authority is inspect only; explicit execution trust is required".to_owned(),
            AuthorityError::PathEscapesRoot(path) => join2(
                "authority path escapes workspace root: ",
                path.as_str(),
            ),
            AuthorityError::MissingDocumentRevision =>
                "document file request requires a document revision".to_owned(),
            AuthorityError::StaleEpoch {
                expected_workspace,
                actual_workspace,
                expected_environment,
                actual_environment,
            } => {
                let mut text = "stale authority epoch: workspace ".to_owned();
                text.push_str(tagged_text("WorkspaceEpoch", actual_workspace.0).as_str());
                text.push_str("/");
                text.push_str(tagged_text("WorkspaceEpoch", expected_workspace.0).as_str());
                text.push_str(", environment ");
                text.push_str(tagged_text("EnvironmentEpoch", actual_environment.0).as_str());
                text.push_str("/");
                text.push_str(tagged_text("EnvironmentEpoch", expected_environment.0).as_str());
                text
            },
            AuthorityError::OutputLimit { limit } => {
                let limit = decimal_text(*limit as u64);
                join2("authority output exceeds limit ", limit.as_str())
            },
            AuthorityError::InputLimit { limit } => {
                let limit = decimal_text(*limit as u64);
                join2("authority input exceeds limit ", limit.as_str())
            },
            AuthorityError::Io(fault) => {
                let text = fault.text();
                join2("authority I/O failed: ", text.as_str())
            },
            AuthorityError::Pty(text) => join2("PTY failed: ", text.as_str()),
            AuthorityError::Process(text) => join2("process failed: ", text.as_str()),
            AuthorityError::Ssh(fault) => {
                let text = fault.text();
                join2("SSH transport failed: ", text.as_str())
            },
            AuthorityError::Verification(text) => join2(
                "remote helper verification failed: ",
                text.as_str(),
            ),
            AuthorityError::Protocol(fault) => {
                let text = fault.text();
                join2("remote protocol failed: ", text.as_str())
            },
            AuthorityError::UnsupportedExecutionContext =>
                "devcontainer lsp execution context is unsupported until phase 5 adapter".to_owned(),
            AuthorityError::LspEditConflict(conflict) => {
                let text = conflict.text();
                join2("lsp workspace edit conflict: ", text.as_str())
            },
            AuthorityError::MissingLspEditPrecondition { path } => {
                let path = quoted_path(path.as_str());
                join2(
                    "LSP workspace edit is missing a validated host precondition for ",
                    path.as_str(),
                )
            },
            AuthorityError::LspEditPreconditionMismatch { path, expected, actual } => {
                let path = quoted_path(path.as_str());
                let expected = tagged_text("DocumentRevision", expected.0);
                let actual = tagged_text("DocumentRevision", actual.0);
                let mut text = join4(
                    "LSP workspace edit precondition revision mismatch for ",
                    path.as_str(),
                    ": expected ",
                    expected.as_str(),
                );
                text.push_str(", actual ");
                text.push_str(actual.as_str());
                text
            },
            AuthorityError::LspEditPreconditionContextMismatch { path } => {
                let path = quoted_path(path.as_str());
                join2(
                    "LSP workspace edit host precondition context mismatch for ",
                    path.as_str(),
                )
            },
        }
    }
}

} // verus!
