//! What the status bar says.
use vstd::prelude::*;

use super::{AuthorityConnectionState, AuthorityKind, LspProviderKind};
use crate::words::{decimal, decimal_text, holds_text, join2, join3, join4, stands_at};

verus! {

/// What the status bar says.
#[derive(Debug, PartialEq, Eq)]
#[allow(inconsistent_fields)]
pub enum StatusMessage {
    Empty,
    NoSshAuthority,
    AuthoritySelected { label: String, connection: AuthorityConnectionState },
    CompletionInserted(String),
    CompletionDiscarded,
    TerminalBlocked,
    SshNotConnected,
    TerminalStarting(AuthorityKind),
    TerminalInputFailed(String),
    CaptureReleased,
    ExecutionGranted,
    ExecutionRevoked,
    PassphraseSubmitted,
    Opening(String),
    Focused(String),
    Opened(String),
    DefinitionOpened,
    OpenFailed(String),
    SaveAsPrompt,
    Saving,
    SaveCancelled,
    Saved(String),
    SaveFailed(String),
    SaveStale,
    RenameNeedsName,
    RenameUnavailable,
    RenameNeedsBuffer,
    RenameStale,
    Renaming,
    RenameCancelled,
    QueueBusy,
    RequestNeedsDocument,
    ServiceUnavailable,
    ServiceNotReady,
    RequestNeedsBuffer,
    RequestNoLedger,
    RequestStale,
    RequestBadCursor,
    LspHostUnavailable(String),
    EditMalformed,
    EditNoLedger,
    EditNoDocument,
    EditApplied,
    EditRejected,
    EditFailed,
    EditNoAuthority,
    ProviderFailed { kind: LspProviderKind, error: String },
    CompletionEmpty,
    CompletionCount(usize),
    HoverAvailable,
    HoverEmpty,
    DefinitionOpening,
    DefinitionUnopenable,
    DefinitionEmpty,
    ProviderResponse(LspProviderKind),
    ProviderEmpty(LspProviderKind),
    RenamePrompt,
    RenameNotHere,
    RenameNoChanges,
    RenameApplied,
    RenameRejected,
    RenameFailed(String),
    RenameNoAuthority,
    SshSelected,
    PassphrasePrompt,
    ConnectionNews(String),
    AuthorityDisconnected,
    Bootstrapping,
    AuthorityConnected,
    TransportLost,
    TerminalResizeFailed(String),
    TerminalRunning(String),
    TerminalFailed(String),
}

/// The names that the user interface has for the kinds of authorities.
#[derive(Debug, PartialEq, Eq)]
pub struct KindNames {
    pub local: String,
    pub ssh: String,
    pub dev_container: String,
}

/// The name of a kind of authority.
pub open spec fn kind_word(names: KindNames, kind: AuthorityKind) -> Seq<char> {
    match kind {
        AuthorityKind::Local => names.local@,
        AuthorityKind::Ssh => names.ssh@,
        AuthorityKind::DevContainer => names.dev_container@,
    }
}

impl KindNames {
    /// The name of a kind of authority.
    pub fn of(&self, kind: AuthorityKind) -> (name: &String)
        ensures
            name@ == kind_word(*self, kind),
    {
        match kind {
            AuthorityKind::Local => &self.local,
            AuthorityKind::Ssh => &self.ssh,
            AuthorityKind::DevContainer => &self.dev_container,
        }
    }
}

/// The word for the state of a connection.
pub open spec fn connection_word(connection: AuthorityConnectionState) -> Seq<char> {
    match connection {
        AuthorityConnectionState::Disconnected => "disconnected"@,
        AuthorityConnectionState::Connecting => "connecting"@,
        AuthorityConnectionState::Connected => "connected"@,
        AuthorityConnectionState::Lost => "lost"@,
    }
}

fn connection_name(connection: AuthorityConnectionState) -> (name: &'static str)
    ensures
        name@ == connection_word(connection),
{
    match connection {
        AuthorityConnectionState::Disconnected => "disconnected",
        AuthorityConnectionState::Connecting => "connecting",
        AuthorityConnectionState::Connected => "connected",
        AuthorityConnectionState::Lost => "lost",
    }
}

/// The word for a request to a language server.
pub open spec fn provider_word(kind: LspProviderKind) -> Seq<char> {
    match kind {
        LspProviderKind::Completion => "Completion"@,
        LspProviderKind::Hover => "Hover"@,
        LspProviderKind::Definition => "Definition"@,
        LspProviderKind::RenamePreparation => "Rename"@,
        LspProviderKind::Rename => "Rename"@,
    }
}

fn provider_name(kind: LspProviderKind) -> (name: &'static str)
    ensures
        name@ == provider_word(kind),
{
    match kind {
        LspProviderKind::Completion => "Completion",
        LspProviderKind::Hover => "Hover",
        LspProviderKind::Definition => "Definition",
        LspProviderKind::RenamePreparation => "Rename",
        LspProviderKind::Rename => "Rename",
    }
}

/// The text of the status bar.
pub open spec fn status_text(status: StatusMessage, names: KindNames) -> Seq<char> {
    match status {
        StatusMessage::Empty => ""@,
        StatusMessage::NoSshAuthority => "No configured SSH authority."@,
        StatusMessage::AuthoritySelected { label, connection } => label@ + " authority selected ("@ + connection_word(connection) + ")."@,
        StatusMessage::CompletionInserted(label) => "Completion inserted: "@ + label@ + "."@,
        StatusMessage::CompletionDiscarded => "Completion discarded because its editor context changed."@,
        StatusMessage::TerminalBlocked => "Terminal blocked: current authority is INSPECT ONLY."@,
        StatusMessage::SshNotConnected => "SSH helper is not connected. Activate this authority before opening a terminal."@,
        StatusMessage::TerminalStarting(kind) => "Starting "@ + kind_word(names, kind) + " terminal…"@,
        StatusMessage::TerminalInputFailed(error) => error@,
        StatusMessage::CaptureReleased => "Terminal capture released."@,
        StatusMessage::ExecutionGranted => "Execution granted for current authority."@,
        StatusMessage::ExecutionRevoked => "Execution revoked. Now INSPECT ONLY."@,
        StatusMessage::PassphraseSubmitted => "SSH passphrase submitted."@,
        StatusMessage::Opening(path) => "Opening "@ + path@ + "…"@,
        StatusMessage::Focused(path) => "Focused "@ + path@,
        StatusMessage::Opened(path) => "Opened "@ + path@,
        StatusMessage::DefinitionOpened => "Definition opened."@,
        StatusMessage::OpenFailed(path) => "Failed to open "@ + path@,
        StatusMessage::SaveAsPrompt => "Save As: type path, Enter to save, Esc to cancel"@,
        StatusMessage::Saving => "Saving…"@,
        StatusMessage::SaveCancelled => "Save cancelled"@,
        StatusMessage::Saved(path) => "Saved "@ + path@,
        StatusMessage::SaveFailed(path) => "Save failed: "@ + path@,
        StatusMessage::SaveStale => "Save stale (concurrent edit); left dirty"@,
        StatusMessage::RenameNeedsName => "Rename requires a non-empty name."@,
        StatusMessage::RenameUnavailable => "Language service is unavailable for rename."@,
        StatusMessage::RenameNeedsBuffer => "Rename requires the selected buffer."@,
        StatusMessage::RenameStale => "Rename discarded because its document snapshot is stale."@,
        StatusMessage::Renaming => "Renaming…"@,
        StatusMessage::RenameCancelled => "Rename cancelled."@,
        StatusMessage::QueueBusy => "Language request queue is busy."@,
        StatusMessage::RequestNeedsDocument => "Language request requires an open document."@,
        StatusMessage::ServiceUnavailable => "Language service is unavailable for the selected document."@,
        StatusMessage::ServiceNotReady => "Language service is not ready for requests."@,
        StatusMessage::RequestNeedsBuffer => "Language request requires the selected buffer."@,
        StatusMessage::RequestNoLedger => "Language request has no current document ledger."@,
        StatusMessage::RequestStale => "Language request discarded because its document snapshot is stale."@,
        StatusMessage::RequestBadCursor => "Language request cursor is not a valid text position."@,
        StatusMessage::LspHostUnavailable(error) => "LSP host unavailable: "@ + error@,
        StatusMessage::EditMalformed => "workspace edit is malformed"@,
        StatusMessage::EditNoLedger => "workspace edit has no current document ledger"@,
        StatusMessage::EditNoDocument => "workspace edit document is unavailable"@,
        StatusMessage::EditApplied => "Workspace edit applied."@,
        StatusMessage::EditRejected => "Workspace edit was rejected by the authority."@,
        StatusMessage::EditFailed => "Workspace edit apply failed."@,
        StatusMessage::EditNoAuthority => "Workspace edit authority is unavailable."@,
        StatusMessage::ProviderFailed { kind, error } => provider_word(kind) + " request failed: "@ + error@,
        StatusMessage::CompletionEmpty => "Completion returned no candidates."@,
        StatusMessage::CompletionCount(n) => "Completion: "@ + decimal(n as nat) + " candidates."@,
        StatusMessage::HoverAvailable => "Hover details available."@,
        StatusMessage::HoverEmpty => "Hover returned no displayable details."@,
        StatusMessage::DefinitionOpening => "Opening definition…"@,
        StatusMessage::DefinitionUnopenable => "Definition target cannot be opened by this workspace."@,
        StatusMessage::DefinitionEmpty => "Definition returned no location."@,
        StatusMessage::ProviderResponse(kind) => provider_word(kind) + " response received."@,
        StatusMessage::ProviderEmpty(kind) => provider_word(kind) + " returned no result."@,
        StatusMessage::RenamePrompt => "Rename: type a new name, Enter to confirm, Esc to cancel."@,
        StatusMessage::RenameNotHere => "Rename is unavailable at the cursor."@,
        StatusMessage::RenameNoChanges => "Rename returned no changes."@,
        StatusMessage::RenameApplied => "Rename applied."@,
        StatusMessage::RenameRejected => "Rename was rejected by the authority."@,
        StatusMessage::RenameFailed(error) => "Rename apply failed: "@ + error@,
        StatusMessage::RenameNoAuthority => "Rename apply failed: authority is unavailable."@,
        StatusMessage::SshSelected => "SSH authority selected in INSPECT ONLY mode. Accept its host key before granting execution."@,
        StatusMessage::PassphrasePrompt => "Enter the selected SSH key passphrase."@,
        StatusMessage::ConnectionNews(text) => text@,
        StatusMessage::AuthorityDisconnected => "Authority disconnected."@,
        StatusMessage::Bootstrapping => "Authority bootstrap in progress…"@,
        StatusMessage::AuthorityConnected => "Authority connected."@,
        StatusMessage::TransportLost => "Authority transport Lost – request a new terminal session."@,
        StatusMessage::TerminalResizeFailed(error) => "Terminal resize failed during startup: "@ + error@,
        StatusMessage::TerminalRunning(label) => label@ + " terminal running. Esc releases capture."@,
        StatusMessage::TerminalFailed(message) => "Terminal failed: "@ + message@,
    }
}

impl StatusMessage {
    /// The text of the status bar; empty while there is nothing to say.
    pub fn text(&self, names: &KindNames) -> (text: String)
        ensures
            text@ == status_text(*self, *names),
    {
        match self {
            StatusMessage::Empty => "".to_owned(),
            StatusMessage::NoSshAuthority => "No configured SSH authority.".to_owned(),
            StatusMessage::AuthoritySelected { label, connection } => join4(label.as_str(), " authority selected (", connection_name(*connection), ")."),
            StatusMessage::CompletionInserted(label) => join3("Completion inserted: ", label.as_str(), "."),
            StatusMessage::CompletionDiscarded => "Completion discarded because its editor context changed.".to_owned(),
            StatusMessage::TerminalBlocked => "Terminal blocked: current authority is INSPECT ONLY.".to_owned(),
            StatusMessage::SshNotConnected => "SSH helper is not connected. Activate this authority before opening a terminal.".to_owned(),
            StatusMessage::TerminalStarting(kind) => join3("Starting ", names.of(*kind).as_str(), " terminal…"),
            StatusMessage::TerminalInputFailed(error) => error.clone(),
            StatusMessage::CaptureReleased => "Terminal capture released.".to_owned(),
            StatusMessage::ExecutionGranted => "Execution granted for current authority.".to_owned(),
            StatusMessage::ExecutionRevoked => "Execution revoked. Now INSPECT ONLY.".to_owned(),
            StatusMessage::PassphraseSubmitted => "SSH passphrase submitted.".to_owned(),
            StatusMessage::Opening(path) => join3("Opening ", path.as_str(), "…"),
            StatusMessage::Focused(path) => join2("Focused ", path.as_str()),
            StatusMessage::Opened(path) => join2("Opened ", path.as_str()),
            StatusMessage::DefinitionOpened => "Definition opened.".to_owned(),
            StatusMessage::OpenFailed(path) => join2("Failed to open ", path.as_str()),
            StatusMessage::SaveAsPrompt => "Save As: type path, Enter to save, Esc to cancel".to_owned(),
            StatusMessage::Saving => "Saving…".to_owned(),
            StatusMessage::SaveCancelled => "Save cancelled".to_owned(),
            StatusMessage::Saved(path) => join2("Saved ", path.as_str()),
            StatusMessage::SaveFailed(path) => join2("Save failed: ", path.as_str()),
            StatusMessage::SaveStale => "Save stale (concurrent edit); left dirty".to_owned(),
            StatusMessage::RenameNeedsName => "Rename requires a non-empty name.".to_owned(),
            StatusMessage::RenameUnavailable => "Language service is unavailable for rename.".to_owned(),
            StatusMessage::RenameNeedsBuffer => "Rename requires the selected buffer.".to_owned(),
            StatusMessage::RenameStale => "Rename discarded because its document snapshot is stale.".to_owned(),
            StatusMessage::Renaming => "Renaming…".to_owned(),
            StatusMessage::RenameCancelled => "Rename cancelled.".to_owned(),
            StatusMessage::QueueBusy => "Language request queue is busy.".to_owned(),
            StatusMessage::RequestNeedsDocument => "Language request requires an open document.".to_owned(),
            StatusMessage::ServiceUnavailable => "Language service is unavailable for the selected document.".to_owned(),
            StatusMessage::ServiceNotReady => "Language service is not ready for requests.".to_owned(),
            StatusMessage::RequestNeedsBuffer => "Language request requires the selected buffer.".to_owned(),
            StatusMessage::RequestNoLedger => "Language request has no current document ledger.".to_owned(),
            StatusMessage::RequestStale => "Language request discarded because its document snapshot is stale.".to_owned(),
            StatusMessage::RequestBadCursor => "Language request cursor is not a valid text position.".to_owned(),
            StatusMessage::LspHostUnavailable(error) => join2("LSP host unavailable: ", error.as_str()),
            StatusMessage::EditMalformed => "workspace edit is malformed".to_owned(),
            StatusMessage::EditNoLedger => "workspace edit has no current document ledger".to_owned(),
            StatusMessage::EditNoDocument => "workspace edit document is unavailable".to_owned(),
            StatusMessage::EditApplied => "Workspace edit applied.".to_owned(),
            StatusMessage::EditRejected => "Workspace edit was rejected by the authority.".to_owned(),
            StatusMessage::EditFailed => "Workspace edit apply failed.".to_owned(),
            StatusMessage::EditNoAuthority => "Workspace edit authority is unavailable.".to_owned(),
            StatusMessage::ProviderFailed { kind, error } => join3(provider_name(*kind), " request failed: ", error.as_str()),
            StatusMessage::CompletionEmpty => "Completion returned no candidates.".to_owned(),
            StatusMessage::CompletionCount(n) => join3("Completion: ", decimal_text(*n as u64).as_str(), " candidates."),
            StatusMessage::HoverAvailable => "Hover details available.".to_owned(),
            StatusMessage::HoverEmpty => "Hover returned no displayable details.".to_owned(),
            StatusMessage::DefinitionOpening => "Opening definition…".to_owned(),
            StatusMessage::DefinitionUnopenable => "Definition target cannot be opened by this workspace.".to_owned(),
            StatusMessage::DefinitionEmpty => "Definition returned no location.".to_owned(),
            StatusMessage::ProviderResponse(kind) => join2(provider_name(*kind), " response received."),
            StatusMessage::ProviderEmpty(kind) => join2(provider_name(*kind), " returned no result."),
            StatusMessage::RenamePrompt => "Rename: type a new name, Enter to confirm, Esc to cancel.".to_owned(),
            StatusMessage::RenameNotHere => "Rename is unavailable at the cursor.".to_owned(),
            StatusMessage::RenameNoChanges => "Rename returned no changes.".to_owned(),
            StatusMessage::RenameApplied => "Rename applied.".to_owned(),
            StatusMessage::RenameRejected => "Rename was rejected by the authority.".to_owned(),
            StatusMessage::RenameFailed(error) => join2("Rename apply failed: ", error.as_str()),
            StatusMessage::RenameNoAuthority => "Rename apply failed: authority is unavailable.".to_owned(),
            StatusMessage::SshSelected => "SSH authority selected in INSPECT ONLY mode. Accept its host key before granting execution.".to_owned(),
            StatusMessage::PassphrasePrompt => "Enter the selected SSH key passphrase.".to_owned(),
            StatusMessage::ConnectionNews(text) => text.clone(),
            StatusMessage::AuthorityDisconnected => "Authority disconnected.".to_owned(),
            StatusMessage::Bootstrapping => "Authority bootstrap in progress…".to_owned(),
            StatusMessage::AuthorityConnected => "Authority connected.".to_owned(),
            StatusMessage::TransportLost => "Authority transport Lost – request a new terminal session.".to_owned(),
            StatusMessage::TerminalResizeFailed(error) => join2("Terminal resize failed during startup: ", error.as_str()),
            StatusMessage::TerminalRunning(label) => join2(label.as_str(), " terminal running. Esc releases capture."),
            StatusMessage::TerminalFailed(message) => join2("Terminal failed: ", message.as_str()),
        }
    }
}

/// A message that speaks of a file, an authority, an error or a count names it.
pub proof fn messages_name_what_they_speak_of(status: StatusMessage, names: KindNames)
    ensures
        status matches StatusMessage::Opening(t) ==> holds_text(status_text(status, names), t@),
        status matches StatusMessage::Focused(t) ==> holds_text(status_text(status, names), t@),
        status matches StatusMessage::Opened(t) ==> holds_text(status_text(status, names), t@),
        status matches StatusMessage::OpenFailed(t) ==> holds_text(status_text(status, names), t@),
        status matches StatusMessage::Saved(t) ==> holds_text(status_text(status, names), t@),
        status matches StatusMessage::SaveFailed(t) ==> holds_text(status_text(status, names), t@),
        status matches StatusMessage::RenameFailed(t) ==> holds_text(
            status_text(status, names),
            t@,
        ),
        status matches StatusMessage::TerminalFailed(t) ==> holds_text(
            status_text(status, names),
            t@,
        ),
        status matches StatusMessage::ConnectionNews(t) ==> status_text(status, names) == t@,
        status matches StatusMessage::TerminalInputFailed(t) ==> status_text(status, names) == t@,
        status matches StatusMessage::LspHostUnavailable(t) ==> holds_text(
            status_text(status, names),
            t@,
        ),
        status matches StatusMessage::ProviderFailed { kind, error } ==> holds_text(
            status_text(status, names),
            error@,
        ),
        status matches StatusMessage::AuthoritySelected { label, connection } ==> holds_text(
            status_text(status, names),
            label@,
        ),
        status matches StatusMessage::CompletionInserted(t) ==> holds_text(
            status_text(status, names),
            t@,
        ),
        status matches StatusMessage::CompletionCount(n) ==> holds_text(
            status_text(status, names),
            decimal(n as nat),
        ),
        status == StatusMessage::Empty ==> status_text(status, names).len() == 0,
{
    let text = status_text(status, names);
    match status {
        StatusMessage::Opening(t) => lemma_holds(text, "Opening "@, t@),
        StatusMessage::Focused(t) => lemma_holds(text, "Focused "@, t@),
        StatusMessage::Opened(t) => lemma_holds(text, "Opened "@, t@),
        StatusMessage::OpenFailed(t) => lemma_holds(text, "Failed to open "@, t@),
        StatusMessage::Saved(t) => lemma_holds(text, "Saved "@, t@),
        StatusMessage::SaveFailed(t) => lemma_holds(text, "Save failed: "@, t@),
        StatusMessage::RenameFailed(t) => lemma_holds(text, "Rename apply failed: "@, t@),
        StatusMessage::TerminalFailed(t) => lemma_holds(text, "Terminal failed: "@, t@),
        StatusMessage::LspHostUnavailable(t) => lemma_holds(text, "LSP host unavailable: "@, t@),
        StatusMessage::ProviderFailed { kind, error } => lemma_holds(
            text,
            provider_word(kind) + " request failed: "@,
            error@,
        ),
        StatusMessage::AuthoritySelected { label, .. } => lemma_holds(text, Seq::empty(), label@),
        StatusMessage::CompletionInserted(t) => lemma_holds(text, "Completion inserted: "@, t@),
        StatusMessage::CompletionCount(n) => lemma_holds(
            text,
            "Completion: "@,
            decimal(n as nat),
        ),
        StatusMessage::Empty => {
            reveal_strlit("");
        },
        _ => {},
    }
}

/// A text that has another behind a beginning holds that other.
proof fn lemma_holds(text: Seq<char>, head: Seq<char>, part: Seq<char>)
    ensures
        text.len() >= head.len() + part.len() && text.subrange(
            head.len() as int,
            (head.len() + part.len()) as int,
        ) =~= part ==> holds_text(text, part),
{
    if text.len() >= head.len() + part.len() && text.subrange(
        head.len() as int,
        (head.len() + part.len()) as int,
    ) =~= part {
        assert(stands_at(text, part, head.len() as int));
    }
}

} // verus!
