//! How the language service of a document is started: the supervisor is asked, an
//! older session is superseded, the ledger starts anew, the session is activated, and
//! only then it is kept and run. What each step asks for is done outside.
use vstd::prelude::*;

use super::services::{
    next_generation, service_planned, session_from, session_opened, session_superseded,
    started_services_fit_the_document, OpenedSession, ServicePlan,
};
use super::session::{constraint_text, SessionPhase, SessionTask};
use super::{buffer_of, has_buffer, App, LanguageServices, LspSession};
use crate::config::ResolvedLanguageServerConfig;
use crate::document::DocumentId;
use crate::lsp::{KeyView, LanguageServiceState, SupervisorKey};
use crate::protocol::lsp::LspContext;

verus! {

/// How far a start has come.
#[derive(Debug, PartialEq, Eq)]
pub enum StartPhase {
    /// The supervisor is asked for the state of the service.
    Inspecting,
    /// A session that is superseded is told to the supervisor.
    Restarting,
    /// A session that was opened is told to the supervisor.
    Activating(OpenedSession),
    Ended,
}

/// The start of a language service for a document.
#[derive(Debug, PartialEq, Eq)]
pub struct StartTask {
    pub key: SupervisorKey,
    pub document_id: DocumentId,
    pub config: ResolvedLanguageServerConfig,
    pub phase: StartPhase,
}

/// What became of the last step.
#[derive(Debug, PartialEq, Eq)]
pub enum StartNews {
    /// The state of the service, as the supervisor sees it.
    Inspected(LanguageServiceState),
    Done,
    Failed(String),
}

/// What is to be done next.
#[derive(Debug, PartialEq, Eq)]
#[allow(inconsistent_fields)]
pub enum StartStep {
    Nothing,
    /// Tell the supervisor the state of the service.
    EnterState { key: SupervisorKey, state: LanguageServiceState },
    /// Ask the supervisor for the state of a service with a granted configuration.
    Inspect { key: SupervisorKey, digest: String },
    /// End a session that is superseded, and ask the supervisor for a new start.
    Restart { key: SupervisorKey, context: LspContext },
    /// Have the supervisor activate a session.
    Activate { key: SupervisorKey, context: LspContext },
    /// Run a session.
    Spawn(SessionTask),
}

/// What a start begins with.
pub open spec fn start_begun(app: App, task: Option<StartTask>, step: StartStep) -> bool {
    exists|plan: ServicePlan| #[trigger] service_planned(app, plan) && match plan {
        ServicePlan::Nothing => task is None && step == StartStep::Nothing,
        ServicePlan::NotConfigured { key } => task is None && (step matches StartStep::EnterState {
            key: k,
            state,
        } && k == key && (state matches LanguageServiceState::NotFound { detail } && detail@
            == "LSP configuration not found for document association"@)),
        ServicePlan::Start { key, document_id, config } => {
            &&& task == Some(
                StartTask { key, document_id, config, phase: StartPhase::Inspecting },
            )
            &&& step == StartStep::Inspect { key, digest: config.digest }
        },
    }
}

/// Whether a session was opened and is to be activated; without a buffer the start
/// ends.
pub open spec fn start_opened(
    before: App,
    task: StartTask,
    after: App,
    next: StartTask,
    step: StartStep,
) -> bool {
    exists|opened: Option<OpenedSession>| #[trigger]
        session_opened(before, task.key@, task.document_id, after, opened) && match opened {
            Some(o) => {
                &&& next == StartTask { phase: StartPhase::Activating(o), ..task }
                &&& step == StartStep::Activate { key: task.key, context: o.context }
            },
            None => next == (StartTask { phase: StartPhase::Ended, ..task }) && step
                == StartStep::Nothing,
        }
}

/// Whether a session was kept and is to be run.
pub open spec fn session_kept(
    before: App,
    task: StartTask,
    opened: OpenedSession,
    after: App,
    step: StartStep,
) -> bool {
    &&& after == App {
        services: LanguageServices { sessions: after.services.sessions, ..before.services },
        ..before
    }
    &&& after.services.sessions@ == before.services.sessions@.push(
        (LspSession {
            key: task.key,
            document_id: task.document_id,
            context: opened.context,
            pending_change: None,
            config_digest: task.config.digest,
        }),
    )
    &&& step matches StartStep::Spawn(session) && session == (SessionTask {
        key: task.key,
        document_id: task.document_id,
        context: opened.context,
        uri: opened.uri,
        language_id: opened.language_id,
        text: opened.text,
        constraint: session.constraint,
        phase: SessionPhase::Starting,
    }) && session.constraint@ == constraint_text(task.config.effective)
}

/// How a start goes on. It goes on only while the service is starting and the document
/// is open; a supervisor that refuses makes it fail.
pub open spec fn start_stepped(
    before: App,
    task: StartTask,
    news: StartNews,
    after: App,
    next: StartTask,
    step: StartStep,
) -> bool {
    let ended = StartTask { phase: StartPhase::Ended, ..task };
    match (task.phase, news) {
        (StartPhase::Inspecting, StartNews::Inspected(state)) => if state
            == LanguageServiceState::Starting && has_buffer(before, task.document_id) {
            let i = session_from(before.services.sessions@, task.key@, task.document_id, 0);
            if i < before.services.sessions@.len() {
                let context = before.services.sessions@[i].context;
                &&& session_superseded(before, task.key@, task.document_id, after, Some(context))
                &&& next == StartTask { phase: StartPhase::Restarting, ..task }
                &&& step == StartStep::Restart { key: task.key, context }
            } else {
                start_opened(before, task, after, next, step)
            }
        } else {
            after == before && next == ended && step == StartStep::Nothing
        },
        (StartPhase::Inspecting, StartNews::Failed(_)) => after == before && next == ended && step
            == StartStep::Nothing,
        (StartPhase::Restarting, StartNews::Done) => start_opened(before, task, after, next, step),
        (StartPhase::Restarting, StartNews::Failed(message)) => after == before && next == ended
            && step == (StartStep::EnterState {
            key: task.key,
            state: LanguageServiceState::Failed { message },
        }),
        (StartPhase::Activating(opened), StartNews::Done) => next == ended && session_kept(
            before,
            task,
            opened,
            after,
            step,
        ),
        (StartPhase::Activating(_), StartNews::Failed(message)) => after == before && next == ended
            && step == (StartStep::EnterState {
            key: task.key,
            state: LanguageServiceState::Failed { message },
        }),
        _ => after == before && next == task && step == StartStep::Nothing,
    }
}

/// A session is run only after the supervisor activated it, under the context that it
/// is kept under.
pub proof fn sessions_run_once_activated(
    before: App,
    task: StartTask,
    news: StartNews,
    after: App,
    next: StartTask,
    step: StartStep,
)
    requires
        start_stepped(before, task, news, after, next, step),
        step is Spawn,
    ensures
        task.phase is Activating,
        news == StartNews::Done,
        after.services.sessions@.last().context == step->Spawn_0.context,
        next.phase == StartPhase::Ended,
{
}

/// While a document has a session, no other one of its service is opened before that
/// one was taken away.
pub proof fn sessions_are_superseded_first(
    before: App,
    task: StartTask,
    news: StartNews,
    after: App,
    next: StartTask,
    step: StartStep,
)
    requires
        start_stepped(before, task, news, after, next, step),
        task.phase == StartPhase::Inspecting,
        session_from(before.services.sessions@, task.key@, task.document_id, 0)
            < before.services.sessions@.len(),
    ensures
        !(step is Activate),
        step is Restart ==> after.services.sessions@.len() < before.services.sessions@.len(),
        after.buffers == before.buffers,
{
    lemma_session_place(before.services.sessions@, task.key@, task.document_id, 0);
}

proof fn lemma_session_place(sessions: Seq<LspSession>, key: KeyView, document: DocumentId, i: int)
    requires
        0 <= i,
    ensures
        session_from(sessions, key, document, i) >= i || session_from(sessions, key, document, i)
            == sessions.len(),
    decreases sessions.len() - i,
{
    if i < sessions.len() {
        lemma_session_place(sessions, key, document, i + 1);
    }
}

impl App {
    /// Begins to start the language service of the document that is shown.
    pub fn begin_start(&self) -> (r: (Option<StartTask>, StartStep))
        requires
            self.wf(),
        ensures
            start_begun(*self, r.0, r.1),
    {
        let plan = self.service_plan();
        let ghost planned = plan;
        assert(service_planned(*self, planned));
        match plan {
            ServicePlan::Nothing => (None, StartStep::Nothing),
            ServicePlan::NotConfigured { key } => {
                let detail = "LSP configuration not found for document association".to_owned();
                (
                    None,
                    StartStep::EnterState { key, state: LanguageServiceState::NotFound { detail } },
                )
            },
            ServicePlan::Start { key, document_id, config } => {
                let step = StartStep::Inspect { key: key.clone(), digest: config.digest.clone() };
                (
                    Some(StartTask { key, document_id, config, phase: StartPhase::Inspecting }),
                    step,
                )
            },
        }
    }

    /// Whether the sessions of the document of a start can be counted on.
    pub fn can_start(&self, task: &StartTask) -> (fits: bool)
        ensures
            fits == (has_buffer(*self, task.document_id) ==> next_generation(
                buffer_of(*self, task.document_id),
                task.key@,
            ) <= u64::MAX),
    {
        let i: usize = self.find_buffer(task.document_id);
        if i >= self.buffers.len() {
            return true;
        }
        match self.buffers[i].lsp_ledger(
            &task.key.authority_identity,
            &task.key.execution_context,
        ) {
            Some(ledger) => ledger.session_generation < u64::MAX,
            None => true,
        }
    }

    fn start_open(&mut self, task: &mut StartTask) -> (step: StartStep)
        requires
            old(self).wf(),
            has_buffer(*old(self), old(task).document_id) ==> next_generation(
                buffer_of(*old(self), old(task).document_id),
                old(task).key@,
            ) <= u64::MAX,
        ensures
            final(self).wf(),
            start_opened(*old(self), *old(task), *final(self), *final(task), step),
    {
        let opened = self.open_session(&task.key, task.document_id);
        let ghost told = opened;
        assert(session_opened(*old(self), task.key@, task.document_id, *self, told));
        match opened {
            Some(o) => {
                let step = StartStep::Activate {
                    key: task.key.clone(),
                    context: o.context.clone(),
                };
                task.phase = StartPhase::Activating(o);
                step
            },
            None => {
                task.phase = StartPhase::Ended;
                StartStep::Nothing
            },
        }
    }

    /// Takes the outcome of the last step of a start, and says what is to be done next.
    pub fn start_lsp_session(&mut self, task: &mut StartTask, news: StartNews) -> (step: StartStep)
        requires
            old(self).wf(),
            has_buffer(*old(self), old(task).document_id) ==> next_generation(
                buffer_of(*old(self), old(task).document_id),
                old(task).key@,
            ) <= u64::MAX,
        ensures
            final(self).wf(),
            start_stepped(*old(self), *old(task), news, *final(self), *final(task), step),
    {
        let mut phase = StartPhase::Ended;
        std::mem::swap(&mut phase, &mut task.phase);
        match (phase, news) {
            (StartPhase::Inspecting, StartNews::Inspected(state)) => {
                let starting = match state {
                    LanguageServiceState::Starting => true,
                    _ => false,
                };
                if !starting || self.find_buffer(task.document_id) >= self.buffers.len() {
                    return StartStep::Nothing;
                }
                match self.supersede_session(&task.key, task.document_id) {
                    Some(context) => {
                        task.phase = StartPhase::Restarting;
                        StartStep::Restart { key: task.key.clone(), context }
                    },
                    None => {
                        assert(*self == *old(self));
                        self.start_open(task)
                    },
                }
            },
            (StartPhase::Inspecting, StartNews::Failed(_)) => StartStep::Nothing,
            (StartPhase::Restarting, StartNews::Done) => self.start_open(task),
            (StartPhase::Restarting, StartNews::Failed(message)) => StartStep::EnterState {
                key: task.key.clone(),
                state: LanguageServiceState::Failed { message },
            },
            (StartPhase::Activating(opened), StartNews::Done) => {
                self.commit_session(
                    task.key.clone(),
                    task.document_id,
                    opened.context.clone(),
                    task.config.digest.clone(),
                );
                StartStep::Spawn(
                    SessionTask::spawn_lsp_session(
                        task.key.clone(),
                        task.document_id,
                        opened.context,
                        opened.uri,
                        opened.language_id,
                        opened.text,
                        &task.config.effective,
                    ),
                )
            },
            (StartPhase::Activating(_), StartNews::Failed(message)) => StartStep::EnterState {
                key: task.key.clone(),
                state: LanguageServiceState::Failed { message },
            },
            (phase, _) => {
                task.phase = phase;
                StartStep::Nothing
            },
        }
    }
}

/// A start begins with the server that fits the document that is shown, by looking at
/// it; a document for which none is configured is said to have none, and without a
/// document nothing is done.
pub proof fn starts_begin_with_the_fitting_server(
    app: App,
    task: Option<StartTask>,
    step: StartStep,
)
    requires
        app.wf(),
        start_begun(app, task, step),
    ensures
        app.current_doc is None ==> task is None && step == StartStep::Nothing,
        task matches Some(t) ==> Some(t.document_id) == app.current_doc && t.phase
            == StartPhase::Inspecting && (step matches StartStep::Inspect { key, digest } && key
            == t.key && digest == t.config.digest) && t.key.workspace_epoch.0 == app.epoch.0,
        step matches StartStep::EnterState { state, .. } ==> task is None && state is NotFound,
        !(step is Activate) && !(step is Spawn) && !(step is Restart),
{
    let plan = choose|plan: ServicePlan| #[trigger]
        service_planned(app, plan) && match plan {
            ServicePlan::Nothing => task is None && step == StartStep::Nothing,
            ServicePlan::NotConfigured { key } => task is None && (
            step matches StartStep::EnterState { key: k, state } && k == key && (
            state matches LanguageServiceState::NotFound { detail } && detail@
                == "LSP configuration not found for document association"@)),
            ServicePlan::Start { key, document_id, config } => {
                &&& task == Some(
                    StartTask { key, document_id, config, phase: StartPhase::Inspecting },
                )
                &&& step == StartStep::Inspect { key, digest: config.digest }
            },
        };
    assert(service_planned(app, plan));
    started_services_fit_the_document(app, plan, 0);
}

/// A session that is run is kept under the same key, document, context and digest, tells
/// its server what was opened, and waits for nothing yet; every other session stays.
pub proof fn kept_sessions_are_those_that_run(
    before: App,
    task: StartTask,
    opened: OpenedSession,
    after: App,
    step: StartStep,
)
    requires
        session_kept(before, task, opened, after, step),
    ensures
        ({
            let s = after.services.sessions@.last();
            &&& after.services.sessions@.len() == before.services.sessions@.len() + 1
            &&& s.key == task.key
            &&& s.document_id == task.document_id
            &&& s.context == opened.context
            &&& s.config_digest == task.config.digest
            &&& s.pending_change is None
            &&& step matches StartStep::Spawn(run) && run.key == s.key && run.document_id
                == s.document_id && run.context == s.context && run.text == opened.text && run.uri
                == opened.uri
        }),
        forall|i: int|
            0 <= i < before.services.sessions@.len() ==> #[trigger] after.services.sessions@[i]
                == before.services.sessions@[i],
{
}

} // verus!
