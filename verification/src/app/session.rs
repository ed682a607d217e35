//! One session with a language server, from its start to its end. Each step is
//! decided here; what it asks for is done outside, and the outcome handed back.
use vstd::prelude::*;

use super::events::{EditRefusal, LspRuntimeEvent, ProviderAnswer, ReportedProblem};
use super::requests::{LspProviderSnapshot, LspSessionCommand};
use super::services::SendOutcome;
use super::{LspChange, LspProviderKind};
use crate::authority::{error_text, mismatch_mark, AuthorityError, ProtocolFault};
use crate::config::EffectiveLspConfig;
use crate::document::{DocumentId, DocumentRevision};
use crate::lsp::{LanguageServiceState, SupervisorKey};
use crate::protocol::lsp::{LspContext, LspPosition, TransactionalWorkspaceEdit};
use crate::words::{contains_text, holds_text, stands_at};

verus! {

/// How far a session has come.
#[derive(Debug, PartialEq, Eq)]
#[allow(inconsistent_fields)]
pub enum SessionPhase {
    Starting,
    Initializing,
    Opening,
    /// Waiting for a command.
    Idle,
    /// A change is on its way.
    Changing(LspContext),
    /// An answer is awaited.
    Asking {
        context: LspContext,
        revision: DocumentRevision,
        position: LspPosition,
        kind: LspProviderKind,
    },
    Ended,
}

/// A session for one document, with what the server is told first.
#[derive(Debug, PartialEq, Eq)]
pub struct SessionTask {
    pub key: SupervisorKey,
    pub document_id: DocumentId,
    pub context: LspContext,
    pub uri: String,
    pub language_id: String,
    pub text: String,
    /// The version or the digest that the server must have.
    pub constraint: String,
    pub phase: SessionPhase,
}

/// What became of the last step, or what is asked of the session.
#[derive(Debug, PartialEq, Eq)]
pub enum SessionNews {
    Done,
    Failed(String),
    Answered(ProviderAnswer),
    Command(LspSessionCommand),
    /// Nobody can ask anything any more.
    CommandsClosed,
}

/// What is to be done next.
#[derive(Debug, PartialEq, Eq)]
#[allow(inconsistent_fields)]
pub enum SessionStep {
    /// Start receiving, and initialize the server.
    Initialize,
    Open { uri: String, language_id: String, version: i32, text: String },
    /// Report something, and wait for a command.
    Report(LspRuntimeEvent),
    Change(LspChange),
    Ask { kind: LspProviderKind, snapshot: LspProviderSnapshot, position: LspPosition },
    Rename {
        snapshot: LspProviderSnapshot,
        preparation: u64,
        position: LspPosition,
        new_name: String,
    },
    Wait,
    /// Report a state under a context, and end.
    Fail { context: LspContext, state: LanguageServiceState },
    End,
}

/// The state of a service that could not be started.
pub open spec fn start_failure(constraint: String, message: String) -> LanguageServiceState {
    if holds_text(message@, mismatch_mark()) {
        LanguageServiceState::VersionMismatch { expected: constraint, actual: message }
    } else {
        LanguageServiceState::Failed { message }
    }
}

/// A server that has another version or digest than it must have is reported as
/// such: the text of that error is told apart from every failure without the mark.
pub proof fn mismatches_are_reported(
    constraint: String,
    expected: String,
    actual: String,
    message: String,
)
    requires
        message@ == error_text(
            AuthorityError::Protocol(ProtocolFault::VersionMismatch { expected, actual }),
        ),
    ensures
        holds_text(message@, mismatch_mark()),
        start_failure(constraint, message) == (LanguageServiceState::VersionMismatch {
            expected: constraint,
            actual: message,
        }),
{
    let head = "remote protocol failed: "@;
    let mark = mismatch_mark();
    let at = head.len() as int;
    assert(message@.subrange(at, at + mark.len()) =~= mark);
    assert(stands_at(message@, mark, at));
}

/// What is asked of the server for a command, and what is awaited then.
pub open spec fn commanded(command: LspSessionCommand) -> (SessionPhase, SessionStep) {
    match command {
        LspSessionCommand::Change(change) => (
            SessionPhase::Changing(change.context),
            SessionStep::Change(change),
        ),
        LspSessionCommand::Provider { kind, snapshot, position } => (
            SessionPhase::Asking {
                context: snapshot.context,
                revision: snapshot.revision,
                position,
                kind,
            },
            SessionStep::Ask { kind, snapshot, position },
        ),
        LspSessionCommand::Rename { snapshot, preparation, position, new_name } => (
            SessionPhase::Asking {
                context: snapshot.context,
                revision: snapshot.revision,
                position,
                kind: LspProviderKind::Rename,
            },
            SessionStep::Rename { snapshot, preparation, position, new_name },
        ),
    }
}

/// How a session goes on: what it awaits after some news, and what is to be done.
/// A failure ends it; news that it does not wait for changes nothing.
pub open spec fn next_step(task: SessionTask, news: SessionNews) -> (SessionPhase, SessionStep) {
    match (task.phase, news) {
        (SessionPhase::Starting, SessionNews::Done) => (
            SessionPhase::Initializing,
            SessionStep::Initialize,
        ),
        (SessionPhase::Starting, SessionNews::Failed(message)) => (
            SessionPhase::Ended,
            SessionStep::Fail {
                context: task.context,
                state: start_failure(task.constraint, message),
            },
        ),
        (SessionPhase::Initializing, SessionNews::Done) => (
            SessionPhase::Opening,
            SessionStep::Open {
                uri: task.uri,
                language_id: task.language_id,
                version: task.context.sent_version.0 as i32,
                text: task.text,
            },
        ),
        (SessionPhase::Initializing, SessionNews::Failed(message)) => (
            SessionPhase::Ended,
            SessionStep::Fail {
                context: task.context,
                state: LanguageServiceState::Failed { message },
            },
        ),
        (SessionPhase::Opening, SessionNews::Done) => (
            SessionPhase::Idle,
            SessionStep::Report(LspRuntimeEvent::Initialized { key: task.key }),
        ),
        (SessionPhase::Opening, SessionNews::Failed(message)) => (
            SessionPhase::Ended,
            SessionStep::Fail {
                context: task.context,
                state: LanguageServiceState::Failed { message },
            },
        ),
        (SessionPhase::Idle, SessionNews::Command(command)) => commanded(command),
        (SessionPhase::Idle, SessionNews::CommandsClosed) => (
            SessionPhase::Ended,
            SessionStep::End,
        ),
        (SessionPhase::Changing(_), SessionNews::Done) => (SessionPhase::Idle, SessionStep::Wait),
        (SessionPhase::Changing(context), SessionNews::Failed(message)) => (
            SessionPhase::Ended,
            SessionStep::Fail { context, state: LanguageServiceState::Failed { message } },
        ),
        (
            SessionPhase::Asking { context, revision, position, kind },
            SessionNews::Answered(answer),
        ) => (
            SessionPhase::Idle,
            SessionStep::Report(
                LspRuntimeEvent::ProviderResult {
                    key: task.key,
                    document_id: task.document_id,
                    context,
                    revision,
                    position,
                    kind,
                    answer,
                },
            ),
        ),
        (phase, _) => (phase, SessionStep::Wait),
    }
}

/// A session that has ended does nothing more.
pub proof fn ended_sessions_rest(task: SessionTask, news: SessionNews)
    requires
        task.phase == SessionPhase::Ended,
    ensures
        next_step(task, news) == (SessionPhase::Ended, SessionStep::Wait),
{
}

/// A document is opened at the server before anything is asked about it, and
/// readiness is reported only after that.
pub proof fn documents_are_opened_first(task: SessionTask, news: SessionNews)
    ensures
        ({
            let (_, step) = next_step(task, news);
            &&& step is Change || step is Ask || step is Rename ==> task.phase
                == SessionPhase::Idle
            &&& step == SessionStep::Report(LspRuntimeEvent::Initialized { key: task.key })
                ==> task.phase == SessionPhase::Opening && news == SessionNews::Done
            &&& next_step(task, news).0 == SessionPhase::Idle && task.phase != SessionPhase::Idle
                ==> task.phase == SessionPhase::Opening || task.phase is Changing
                || task.phase is Asking
        }),
{
}

/// The version or the digest that a server must have; nothing if it may have any.
pub open spec fn constraint_text(config: EffectiveLspConfig) -> Seq<char> {
    match (config.expected_version, config.expected_digest) {
        (Some(version), _) => version@,
        (None, Some(digest)) => digest@,
        (None, None) => Seq::empty(),
    }
}

/// The version or the digest that a server must have.
pub fn expected_constraint(config: &EffectiveLspConfig) -> (constraint: String)
    ensures
        constraint@ == constraint_text(*config),
{
    match &config.expected_version {
        Some(version) => version.clone(),
        None => match &config.expected_digest {
            Some(digest) => digest.clone(),
            None => String::new(),
        },
    }
}

/// Whether a command asks for a rename in the way of the other requests. A rename
/// has a command of its own.
pub open spec fn misplaced_rename(news: SessionNews) -> bool {
    news matches SessionNews::Command(LspSessionCommand::Provider { kind, .. }) && kind
        == LspProviderKind::Rename
}

impl SessionTask {
    /// A session that is about to be started by its authority.
    pub fn spawn_lsp_session(
        key: SupervisorKey,
        document_id: DocumentId,
        context: LspContext,
        uri: String,
        language_id: String,
        text: String,
        config: &EffectiveLspConfig,
    ) -> (task: Self)
        ensures
            task == (SessionTask {
                key,
                document_id,
                context,
                uri,
                language_id,
                text,
                constraint: task.constraint,
                phase: SessionPhase::Starting,
            }),
            task.constraint@ == constraint_text(*config),
    {
        SessionTask {
            key,
            document_id,
            context,
            uri,
            language_id,
            text,
            constraint: expected_constraint(config),
            phase: SessionPhase::Starting,
        }
    }

    fn command(&mut self, command: LspSessionCommand) -> (step: SessionStep)
        ensures
            *final(self) == (SessionTask { phase: commanded(command).0, ..*old(self) }),
            step == commanded(command).1,
    {
        match command {
            LspSessionCommand::Change(change) => {
                self.phase = SessionPhase::Changing(change.context.clone());
                SessionStep::Change(change)
            },
            LspSessionCommand::Provider { kind, snapshot, position } => {
                self.phase = SessionPhase::Asking {
                    context: snapshot.context.clone(),
                    revision: snapshot.revision,
                    position,
                    kind,
                };
                SessionStep::Ask { kind, snapshot, position }
            },
            LspSessionCommand::Rename { snapshot, preparation, position, new_name } => {
                self.phase = SessionPhase::Asking {
                    context: snapshot.context.clone(),
                    revision: snapshot.revision,
                    position,
                    kind: LspProviderKind::Rename,
                };
                SessionStep::Rename { snapshot, preparation, position, new_name }
            },
        }
    }

    /// What is to be done after some news.
    pub fn step(&mut self, news: SessionNews) -> (step: SessionStep)
        requires
            !misplaced_rename(news),
        ensures
            *final(self) == (SessionTask { phase: next_step(*old(self), news).0, ..*old(self) }),
            step == next_step(*old(self), news).1,
    {
        match (&self.phase, news) {
            (SessionPhase::Starting, SessionNews::Done) => {
                self.phase = SessionPhase::Initializing;
                SessionStep::Initialize
            },
            (SessionPhase::Starting, SessionNews::Failed(message)) => {
                self.phase = SessionPhase::Ended;
                let state = if contains_text(message.as_str(), "LSP_VERSION_MISMATCH:") {
                    LanguageServiceState::VersionMismatch {
                        expected: self.constraint.clone(),
                        actual: message,
                    }
                } else {
                    LanguageServiceState::Failed { message }
                };
                SessionStep::Fail { context: self.context.clone(), state }
            },
            (SessionPhase::Initializing, SessionNews::Done) => {
                self.phase = SessionPhase::Opening;
                let version: i32 = #[verifier::truncate]
                (self.context.sent_version.0 as i32);
                SessionStep::Open {
                    uri: self.uri.clone(),
                    language_id: self.language_id.clone(),
                    version,
                    text: self.text.clone(),
                }
            },
            (SessionPhase::Initializing, SessionNews::Failed(message)) => {
                self.phase = SessionPhase::Ended;
                SessionStep::Fail {
                    context: self.context.clone(),
                    state: LanguageServiceState::Failed { message },
                }
            },
            (SessionPhase::Opening, SessionNews::Done) => {
                self.phase = SessionPhase::Idle;
                SessionStep::Report(LspRuntimeEvent::Initialized { key: self.key.clone() })
            },
            (SessionPhase::Opening, SessionNews::Failed(message)) => {
                self.phase = SessionPhase::Ended;
                SessionStep::Fail {
                    context: self.context.clone(),
                    state: LanguageServiceState::Failed { message },
                }
            },
            (SessionPhase::Idle, SessionNews::Command(command)) => self.command(command),
            (SessionPhase::Idle, SessionNews::CommandsClosed) => {
                self.phase = SessionPhase::Ended;
                SessionStep::End
            },
            (SessionPhase::Changing(_), SessionNews::Done) => {
                self.phase = SessionPhase::Idle;
                SessionStep::Wait
            },
            (SessionPhase::Changing(context), SessionNews::Failed(message)) => {
                let context = context.clone();
                self.phase = SessionPhase::Ended;
                SessionStep::Fail { context, state: LanguageServiceState::Failed { message } }
            },
            (
                SessionPhase::Asking { context, revision, position, kind },
                SessionNews::Answered(answer),
            ) => {
                let event = LspRuntimeEvent::ProviderResult {
                    key: self.key.clone(),
                    document_id: self.document_id,
                    context: context.clone(),
                    revision: *revision,
                    position: *position,
                    kind: *kind,
                    answer,
                };
                self.phase = SessionPhase::Idle;
                SessionStep::Report(event)
            },
            _ => SessionStep::Wait,
        }
    }
}

/// What came from a server.
#[derive(Debug, PartialEq, Eq)]
#[allow(inconsistent_fields)]
pub enum Received {
    /// Nothing more can be received, or what came cannot be read.
    Broken(String),
    Exited,
    Diagnostics { uri: String, version: Option<i32>, problems: Option<Vec<ReportedProblem>> },
    WorkspaceEdit(TransactionalWorkspaceEdit),
    /// Something that was meant for an earlier version, or that needs no report.
    Other,
}

/// What is to be done with what came from a server.
#[derive(Debug, PartialEq, Eq)]
#[allow(inconsistent_fields)]
pub enum ReceiveStep {
    /// Report a loss with its reason, and end the session.
    Lose(LspRuntimeEvent, String),
    Report(LspRuntimeEvent),
    Ignore,
}

/// What is to be done with what came from a server.
pub open spec fn receive_step(
    key: SupervisorKey,
    document_id: DocumentId,
    received: Received,
    step: ReceiveStep,
) -> bool {
    match received {
        Received::Broken(detail) => step == ReceiveStep::Lose(
            LspRuntimeEvent::TransportLoss { key },
            detail,
        ),
        Received::Exited => step matches ReceiveStep::Lose(event, detail) && event == (
        LspRuntimeEvent::TransportLoss { key }) && detail@ == "language server session exited"@,
        Received::Diagnostics { uri, version, problems } => step == ReceiveStep::Report(
            LspRuntimeEvent::Diagnostics { key, document_id, uri, version, problems },
        ),
        Received::WorkspaceEdit(edit) => step == ReceiveStep::Report(
            LspRuntimeEvent::WorkspaceEdit { key, document_id, edit },
        ),
        Received::Other => step == ReceiveStep::Ignore,
    }
}

/// What is to be done with what came from a server.
pub fn receive(key: &SupervisorKey, document_id: DocumentId, received: Received) -> (
step: ReceiveStep)
    ensures
        receive_step(*key, document_id, received, step),
{
    match received {
        Received::Broken(detail) => ReceiveStep::Lose(
            LspRuntimeEvent::TransportLoss { key: key.clone() },
            detail,
        ),
        Received::Exited => ReceiveStep::Lose(
            LspRuntimeEvent::TransportLoss { key: key.clone() },
            "language server session exited".to_owned(),
        ),
        Received::Diagnostics { uri, version, problems } => ReceiveStep::Report(
            LspRuntimeEvent::Diagnostics {
                key: key.clone(),
                document_id,
                uri,
                version,
                problems,
            },
        ),
        Received::WorkspaceEdit(edit) => ReceiveStep::Report(
            LspRuntimeEvent::WorkspaceEdit { key: key.clone(), document_id, edit },
        ),
        Received::Other => ReceiveStep::Ignore,
    }
}

/// Why a workspace edit is refused at once: the workbench cannot take it now, or
/// is gone.
pub fn edit_not_taken(outcome: SendOutcome) -> (refusal: Option<EditRefusal>)
    ensures
        refusal == match outcome {
            SendOutcome::Sent => None,
            SendOutcome::Full => Some(EditRefusal::QueueBusy),
            SendOutcome::Closed => Some(EditRefusal::NoHandler),
        },
{
    match outcome {
        SendOutcome::Sent => None,
        SendOutcome::Full => Some(EditRefusal::QueueBusy),
        SendOutcome::Closed => Some(EditRefusal::NoHandler),
    }
}

/// What is asked of a session is handed to the server as it was asked, and the answer
/// is reported for the question that it answers: the same service, document, revision,
/// place and kind. The session then waits for the next command.
pub proof fn answers_belong_to_their_question(
    task: SessionTask,
    kind: LspProviderKind,
    snapshot: LspProviderSnapshot,
    position: LspPosition,
    answer: ProviderAnswer,
)
    requires
        task.phase == SessionPhase::Idle,
    ensures
        ({
            let command = LspSessionCommand::Provider { kind, snapshot, position };
            let (asking, step) = next_step(task, SessionNews::Command(command));
            let waiting = SessionTask { phase: asking, ..task };
            let (then, report) = next_step(waiting, SessionNews::Answered(answer));
            &&& step == (SessionStep::Ask { kind, snapshot, position })
            &&& then == SessionPhase::Idle
            &&& report matches SessionStep::Report(LspRuntimeEvent::ProviderResult {
                key,
                document_id,
                context,
                revision,
                position: p,
                kind: k,
                answer: a,
            }) && key == task.key && document_id == task.document_id && context
                == snapshot.context && revision == snapshot.revision && p == position && k == kind
                && a == answer
        }),
{
}

/// A rename is handed to the server with the name, the place and the preparation that
/// it was asked with, and a change as it is; what is awaited is awaited for that.
pub proof fn commands_reach_the_server(
    task: SessionTask,
    snapshot: LspProviderSnapshot,
    preparation: u64,
    position: LspPosition,
    new_name: String,
    change: LspChange,
)
    requires
        task.phase == SessionPhase::Idle,
    ensures
        ({
            let rename = LspSessionCommand::Rename { snapshot, preparation, position, new_name };
            let (_, step) = next_step(task, SessionNews::Command(rename));
            step matches SessionStep::Rename { snapshot: s, preparation: t, position: p, new_name: n }
                && s == snapshot && t == preparation && p == position && n == new_name
        }),
        ({
            let (phase, step) = next_step(
                task,
                SessionNews::Command(LspSessionCommand::Change(change)),
            );
            step == SessionStep::Change(change) && phase == SessionPhase::Changing(change.context)
        }),
{
}

/// A session that is started tells its server the document first, with its URI, its
/// language and its whole text, and says that it is ready once that is done; a failure
/// on the way is reported under its context and ends the session.
pub proof fn sessions_open_their_document(task: SessionTask, message: String)
    ensures
        task.phase == SessionPhase::Starting ==> next_step(task, SessionNews::Done).0
            == SessionPhase::Initializing && next_step(task, SessionNews::Done).1
            == SessionStep::Initialize,
        task.phase == SessionPhase::Initializing ==> (next_step(
            task,
            SessionNews::Done,
        ).1 matches SessionStep::Open { uri, language_id, text, .. } && uri == task.uri
            && language_id == task.language_id && text == task.text),
        task.phase == SessionPhase::Opening ==> (next_step(
            task,
            SessionNews::Done,
        ).1 matches SessionStep::Report(LspRuntimeEvent::Initialized { key }) && key == task.key),
        task.phase == SessionPhase::Starting || task.phase == SessionPhase::Initializing
            || task.phase == SessionPhase::Opening || task.phase is Changing ==> next_step(
            task,
            SessionNews::Failed(message),
        ).0 == SessionPhase::Ended && (next_step(
            task,
            SessionNews::Failed(message),
        ).1 matches SessionStep::Fail { state, .. } && (state matches LanguageServiceState::Failed {
            message: m,
        } ==> m == message)),
        task.phase == SessionPhase::Idle ==> next_step(task, SessionNews::CommandsClosed).1
            == SessionStep::End,
{
}

/// What comes from a server is reported for its service and document as it came; a loss
/// is reported with its reason.
pub proof fn what_comes_is_reported(
    key: SupervisorKey,
    document_id: DocumentId,
    received: Received,
    step: ReceiveStep,
)
    requires
        receive_step(key, document_id, received, step),
    ensures
        received matches Received::Broken(detail) ==> (step matches ReceiveStep::Lose(
            LspRuntimeEvent::TransportLoss { key: k },
            why,
        ) && k == key && why == detail),
        received is Exited ==> step is Lose,
        received matches Received::Diagnostics { uri, version, problems } ==> (
        step matches ReceiveStep::Report(LspRuntimeEvent::Diagnostics {
            key: k,
            document_id: d,
            uri: u,
            version: v,
            problems: p,
        }) && k == key && d == document_id && u == uri && v == version && p == problems),
        received matches Received::WorkspaceEdit(edit) ==> (step matches ReceiveStep::Report(
            LspRuntimeEvent::WorkspaceEdit { key: k, document_id: d, edit: e },
        ) && k == key && d == document_id && e == edit),
        received is Other ==> step == ReceiveStep::Ignore,
{
}

} // verus!
