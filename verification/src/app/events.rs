//! What language servers report while they run: states, problems, answers and
//! workspace edits.
use vstd::prelude::*;

use super::payload::{
    candidate_views, candidates_of, completion_candidates, completion_items,
    completions_say_what_is_listed, definition_place, definition_target, hover_document,
    hover_text,
};
use super::services::{document_uri, keyed_with, service_is_current, uri_of};
use super::status::StatusMessage;
use super::{
    buffer_at, buffer_of, has_buffer, lemma_buffer_from, App, LanguageServices, LspProviderKind,
    LspSession, NormalizedDiagnosticSeverity, Overlay, PendingDefinition, ProblemDiagnostic, Problems,
};
use crate::buffer::{ledger_of, Buffer};
use crate::document::{DocumentId, DocumentRevision};
use crate::encoding::{opt_text, url_file_path, url_path, url_serialized, url_text};
use crate::json::{json_member, Json};
use crate::layout::{
    current_tab, opened_documents_are_shown, tabs_with, tabs_with_current, EditorTabState,
    Landmark,
};
use crate::lsp::{KeyView, LanguageServiceState, LedgerView, SupervisorKey};
use crate::protocol::lsp::{
    changes_fault_from, LspContext, LspPosition, LspRange, TransactionalDocumentEdit,
    TransactionalWorkspaceEdit,
};

verus! {

/// What is known of an event besides the event: whether it comes from the current
/// session of its service, and whether its context is the one that was last sent.
#[derive(Clone, Copy, Debug, PartialEq, Eq, Structural)]
pub struct Freshness {
    pub session_current: bool,
    pub context_fresh: bool,
}

/// A problem as a server reports it, with its severity as a number.
#[derive(Debug, PartialEq, Eq)]
pub struct ReportedProblem {
    pub range: LspRange,
    pub severity: Option<i32>,
    pub message: String,
    pub source: Option<String>,
}

/// What a server answered.
#[derive(Debug, PartialEq, Eq)]
#[allow(inconsistent_fields)]
pub enum ProviderAnswer {
    Failed(String),
    /// A value. For a definition, its range where it is one, and the bytes of the
    /// range where its document is open.
    Response { payload: Json, range: Option<LspRange>, span: Option<(usize, usize)> },
    Empty,
    /// A rename is prepared under a number, or cannot be made here.
    RenamePrepared(Option<u64>),
    NotRenameable,
    /// The edit of a rename has come.
    RenameEdit,
}

/// What a language service reports.
#[derive(Debug, PartialEq, Eq)]
#[allow(inconsistent_fields)]
pub enum LspRuntimeEvent {
    State { key: SupervisorKey, state: LanguageServiceState },
    Initialized { key: SupervisorKey },
    TransportLoss { key: SupervisorKey },
    /// The time to start a service anew has come; whether its session is still the
    /// one that was lost.
    Restart { key: SupervisorKey, generation_current: bool },
    WorkspaceEdit {
        key: SupervisorKey,
        document_id: DocumentId,
        edit: TransactionalWorkspaceEdit,
    },
    ProviderResult {
        key: SupervisorKey,
        document_id: DocumentId,
        context: LspContext,
        revision: DocumentRevision,
        position: LspPosition,
        kind: LspProviderKind,
        answer: ProviderAnswer,
    },
    Diagnostics {
        key: SupervisorKey,
        document_id: DocumentId,
        uri: String,
        version: Option<i32>,
        problems: Option<Vec<ReportedProblem>>,
    },
}

/// Why a workspace edit is not made.
#[derive(Clone, Copy, Debug, PartialEq, Eq, Structural)]
pub enum EditRefusal {
    Stale,
    Malformed,
    NoLedger,
    NoDocument,
    Rejected,
    Failed,
    NoAuthority,
    QueueBusy,
    NoHandler,
}

/// The reason that a server is given.
pub open spec fn refusal_text(refusal: EditRefusal) -> Seq<char> {
    match refusal {
        EditRefusal::Stale => "workspace edit request is stale"@,
        EditRefusal::Malformed => "workspace edit is malformed"@,
        EditRefusal::NoLedger => "workspace edit has no current document ledger"@,
        EditRefusal::NoDocument => "workspace edit document is unavailable"@,
        EditRefusal::Rejected => "workspace edit was rejected by the authority"@,
        EditRefusal::Failed => "workspace edit apply failed"@,
        EditRefusal::NoAuthority => "workspace edit authority is unavailable"@,
        EditRefusal::QueueBusy => "workspace edit queue is busy"@,
        EditRefusal::NoHandler => "workspace edit handler is unavailable"@,
    }
}

impl EditRefusal {
    /// The reason that a server is given.
    pub fn text(self) -> (text: &'static str)
        ensures
            text@ == refusal_text(self),
    {
        match self {
            EditRefusal::Stale => "workspace edit request is stale",
            EditRefusal::Malformed => "workspace edit is malformed",
            EditRefusal::NoLedger => "workspace edit has no current document ledger",
            EditRefusal::NoDocument => "workspace edit document is unavailable",
            EditRefusal::Rejected => "workspace edit was rejected by the authority",
            EditRefusal::Failed => "workspace edit apply failed",
            EditRefusal::NoAuthority => "workspace edit authority is unavailable",
            EditRefusal::QueueBusy => "workspace edit queue is busy",
            EditRefusal::NoHandler => "workspace edit handler is unavailable",
        }
    }
}

/// What has to be done for an event.
#[derive(Clone, Copy, Debug, PartialEq, Eq, Structural)]
pub enum RuntimeStep {
    Nothing,
    /// The supervisor is told that the service is ready.
    MarkReady,
    /// The supervisor is told that the connection was lost.
    ObserveLoss,
    StartService,
    /// The server is told that its edit is not made.
    RefuseEdit(EditRefusal),
    /// The edit is made, by the authority that `App::edit_authority` gives.
    ApplyEdit,
    /// The edit of a rename is made, by the authority that `App::edit_authority` gives.
    ApplyRename,
}

/// What became of an edit.
#[derive(Debug, PartialEq, Eq)]
pub enum ApplyOutcome {
    Applied,
    NoChanges,
    Rejected,
    Failed(String),
    NoAuthority,
}

/// The ledger of a document for a service.
pub open spec fn service_ledger(app: App, key: KeyView, document: DocumentId) -> Option<LedgerView> {
    if has_buffer(app, document) {
        ledger_of(buffer_of(app, document).ledgers, key.authority, key.execution_context)
    } else {
        None
    }
}

/// Whether an event comes from the current session of a current service.
pub open spec fn from_current(app: App, key: KeyView, f: Freshness) -> bool {
    service_is_current(app, key) && f.session_current
}

/// What is done with a workspace edit that a server asks for.
pub open spec fn edit_verdict(
    app: App,
    key: KeyView,
    document: DocumentId,
    edit: TransactionalWorkspaceEdit,
    f: Freshness,
) -> RuntimeStep {
    if !from_current(app, key, f) {
        RuntimeStep::RefuseEdit(EditRefusal::Stale)
    } else if changes_fault_from(edit.document_changes@, 0) is Some {
        RuntimeStep::RefuseEdit(EditRefusal::Malformed)
    } else if !has_buffer(app, document) {
        RuntimeStep::RefuseEdit(EditRefusal::NoDocument)
    } else if service_ledger(app, key, document) is None {
        RuntimeStep::RefuseEdit(EditRefusal::NoLedger)
    } else if !f.context_fresh {
        RuntimeStep::RefuseEdit(EditRefusal::Stale)
    } else {
        RuntimeStep::ApplyEdit
    }
}

/// The status after a verdict on a workspace edit: what is stale is passed over in
/// silence.
pub open spec fn verdict_status(status: StatusMessage, step: RuntimeStep) -> StatusMessage {
    match step {
        RuntimeStep::RefuseEdit(EditRefusal::Malformed) => StatusMessage::EditMalformed,
        RuntimeStep::RefuseEdit(EditRefusal::NoDocument) => StatusMessage::EditNoDocument,
        RuntimeStep::RefuseEdit(EditRefusal::NoLedger) => StatusMessage::EditNoLedger,
        _ => status,
    }
}

/// Whether an answer is still wanted: it comes from the current session, and the
/// document is as it was when it was asked for.
pub open spec fn answer_wanted(
    app: App,
    key: KeyView,
    document: DocumentId,
    revision: DocumentRevision,
    f: Freshness,
) -> bool {
    from_current(app, key, f) && service_ledger(app, key, document) is Some && buffer_of(
        app,
        document,
    ).revision == revision && f.context_fresh
}

/// The first buffer with a URI, from index `i` on; the number of buffers if there is
/// none.
pub open spec fn uri_buffer_from(buffers: Seq<Buffer>, uri: Seq<char>, i: int) -> int
    decreases buffers.len() - i,
{
    if i >= buffers.len() {
        buffers.len() as int
    } else if document_uri(buffers[i]@) == uri {
        i
    } else {
        uri_buffer_from(buffers, uri, i + 1)
    }
}

/// What a definition at a range does: it is shown in the buffer at an index, if its
/// document is open there and the range is in it; else its file is opened, where
/// it has one.
pub open spec fn definition_found(
    before: App,
    i: int,
    path: Option<Seq<char>>,
    range: LspRange,
    span: Option<(usize, usize)>,
    after: App,
) -> bool {
    if i < before.buffers@.len() && span is Some {
        let id = before.buffers@[i]@.id;
        let opened = tabs_with(before.layout.tabs(), id);
        &&& after == App {
            layout: after.layout,
            current_doc: Some(id),
            focus: Landmark::Editor,
            status: StatusMessage::DefinitionOpened,
            ..before
        }
        &&& after.layout.geometry() == before.layout.geometry()
        &&& after.layout.tabs() == tabs_with_current(
            opened,
            EditorTabState {
                cursor_byte: (span->0).1,
                selection_anchor: Some((span->0).0),
                ..current_tab(opened)
            },
        )
    } else {
        match path {
            Some(p) => {
                &&& after == App {
                    pending_definition: after.pending_definition,
                    pending_definition_open: after.pending_definition_open,
                    status: StatusMessage::DefinitionOpening,
                    ..before
                }
                &&& after.pending_definition is Some
                &&& after.pending_definition->0.path@ == p
                &&& after.pending_definition->0.range == range
                &&& opt_text(after.pending_definition_open) == Some(p)
            },
            None => after == App { status: StatusMessage::DefinitionUnopenable, ..before },
        }
    }
}

/// What an answer to a definition does: nothing is found in it, or it is shown or
/// opened.
pub open spec fn definition_answered(
    before: App,
    payload: Json,
    range: Option<LspRange>,
    span: Option<(usize, usize)>,
    after: App,
) -> bool {
    let place = definition_place(payload);
    let uri = (place->0).0;
    if place is None || url_serialized(uri) is None || range is None {
        after == App { status: StatusMessage::DefinitionEmpty, ..before }
    } else {
        definition_found(
            before,
            uri_buffer_from(before.buffers@, url_serialized(uri)->0, 0),
            url_file_path(uri),
            range->0,
            span,
            after,
        )
    }
}

/// What an answer to a completion does: a list is opened, unless there is nothing
/// in it.
pub open spec fn completion_answered(
    before: App,
    document: DocumentId,
    revision: DocumentRevision,
    position: LspPosition,
    payload: Json,
    after: App,
) -> bool {
    let items = completion_items(payload);
    let found = candidates_of(items, items.len() as int);
    if found.len() == 0 {
        after == App { status: StatusMessage::CompletionEmpty, ..before }
    } else {
        &&& after == App {
            overlay: after.overlay,
            status: StatusMessage::CompletionCount(found.len() as usize),
            ..before
        }
        &&& after.overlay matches Overlay::Completion {
            document_id,
            revision: r,
            position: p,
            candidates,
            selected,
            invoker,
        } && document_id == document && r == revision && p == position && candidate_views(
            candidates@,
        ) == found && selected == 0 && invoker == before.focus
    }
}

/// What an answer to a hover does: its text is shown, if it has one.
pub open spec fn hover_answered(before: App, payload: Json, after: App) -> bool {
    match hover_text(payload) {
        Some(text) => {
            &&& after == App {
                overlay: after.overlay,
                status: StatusMessage::HoverAvailable,
                ..before
            }
            &&& after.overlay matches Overlay::Hover { document, invoker } && document@ == text
                && invoker == before.focus
        },
        None => after == App { status: StatusMessage::HoverEmpty, ..before },
    }
}

/// What a wanted answer does.
pub open spec fn answer_applied(
    before: App,
    key: SupervisorKey,
    document: DocumentId,
    context: LspContext,
    revision: DocumentRevision,
    position: LspPosition,
    kind: LspProviderKind,
    answer: ProviderAnswer,
    after: App,
    step: RuntimeStep,
) -> bool {
    &&& step == if answer is RenameEdit {
        RuntimeStep::ApplyRename
    } else {
        RuntimeStep::Nothing
    }
    &&& match answer {
        ProviderAnswer::Failed(error) => after == App {
            status: StatusMessage::ProviderFailed { kind, error },
            ..before
        },
        ProviderAnswer::Response { payload, range, span } => match kind {
            LspProviderKind::Completion => completion_answered(
                before,
                document,
                revision,
                position,
                payload,
                after,
            ),
            LspProviderKind::Hover => hover_answered(before, payload, after),
            LspProviderKind::Definition => definition_answered(before, payload, range, span, after),
            _ => after == App { status: StatusMessage::ProviderResponse(kind), ..before },
        },
        ProviderAnswer::Empty => after == App {
            status: StatusMessage::ProviderEmpty(kind),
            ..before
        },
        ProviderAnswer::RenamePrepared(Some(preparation)) => {
            &&& after == App {
                overlay: after.overlay,
                status: StatusMessage::RenamePrompt,
                ..before
            }
            &&& after.overlay matches Overlay::RenameInput {
                document_id,
                key: k,
                context: c,
                position: p,
                preparation: t,
                new_name,
                invoker,
            } && document_id == document && k == key && c == context && p == position && t
                == preparation && new_name@.len() == 0 && invoker == before.focus
        },
        ProviderAnswer::RenamePrepared(None) => after == App {
            status: StatusMessage::RenameNotHere,
            ..before
        },
        ProviderAnswer::NotRenameable => after == App {
            status: StatusMessage::RenameNoChanges,
            ..before
        },
        ProviderAnswer::RenameEdit => after == before,
    }
}

/// The severity that a number stands for.
pub open spec fn severity_of(n: i32) -> NormalizedDiagnosticSeverity {
    if n == 1 {
        NormalizedDiagnosticSeverity::Error
    } else if n == 2 {
        NormalizedDiagnosticSeverity::Warning
    } else if n == 4 {
        NormalizedDiagnosticSeverity::Hint
    } else {
        NormalizedDiagnosticSeverity::Information
    }
}

fn severity(n: i32) -> (s: NormalizedDiagnosticSeverity)
    ensures
        s == severity_of(n),
{
    if n == 1 {
        NormalizedDiagnosticSeverity::Error
    } else if n == 2 {
        NormalizedDiagnosticSeverity::Warning
    } else if n == 4 {
        NormalizedDiagnosticSeverity::Hint
    } else {
        NormalizedDiagnosticSeverity::Information
    }
}

/// A problem of a document, as it was reported.
pub open spec fn problem_of(document: DocumentId, uri: String, p: ReportedProblem) -> ProblemDiagnostic {
    ProblemDiagnostic {
        document_id: document,
        uri,
        range: p.range,
        severity: match p.severity {
            Some(n) => Some(severity_of(n)),
            None => None,
        },
        message: p.message,
        source: p.source,
    }
}

/// The first problems of a service in a document, from index `i` on; their number
/// if there are none.
pub open spec fn problems_from(all: Seq<Problems>, key: KeyView, document: DocumentId, i: int) -> int
    decreases all.len() - i,
{
    if i >= all.len() {
        all.len() as int
    } else if all[i].key@ == key && all[i].document_id == document {
        i
    } else {
        problems_from(all, key, document, i + 1)
    }
}

/// How many problems a service has found in the first `n` documents.
pub open spec fn problem_count(all: Seq<Problems>, key: KeyView, n: int) -> int
    decreases n,
{
    if n <= 0 {
        0
    } else {
        problem_count(all, key, n - 1) + if all[n - 1].key@ == key {
            all[n - 1].entries@.len() as int
        } else {
            0
        }
    }
}

/// What reported problems do: they take the place of those that the service had
/// found in the document, and the service's problems are counted anew.
pub open spec fn problems_reported(
    before: App,
    key: SupervisorKey,
    document: DocumentId,
    uri: String,
    problems: Seq<ReportedProblem>,
    after: App,
) -> bool {
    let i = problems_from(before.services.diagnostics@, key@, document, 0);
    let entry = after.services.diagnostics@[i];
    let total = problem_count(
        after.services.diagnostics@,
        key@,
        after.services.diagnostics@.len() as int,
    );
    &&& after == App {
        services: LanguageServices {
            diagnostics: after.services.diagnostics,
            counts: after.services.counts,
            ..before.services
        },
        ..before
    }
    &&& after.services.diagnostics@ == if i < before.services.diagnostics@.len() {
        before.services.diagnostics@.update(i, entry)
    } else {
        before.services.diagnostics@.push(entry)
    }
    &&& entry.key@ == key@
    &&& entry.document_id == document
    &&& entry.entries@ == problems.map_values(|p: ReportedProblem| problem_of(document, uri, p))
    &&& after.services.counts@ == keyed_with(
        before.services.counts@,
        key,
        if total <= before.services.max_diagnostics {
            total as usize
        } else {
            before.services.max_diagnostics
        },
    )
}

/// What an event does.
pub open spec fn event_applied(
    before: App,
    event: LspRuntimeEvent,
    f: Freshness,
    after: App,
    step: RuntimeStep,
) -> bool {
    match event {
        LspRuntimeEvent::State { key, state } => {
            &&& step == RuntimeStep::Nothing
            &&& if from_current(before, key@, f) {
                &&& after == App {
                    services: LanguageServices { states: after.services.states, ..before.services },
                    ..before
                }
                &&& after.services.states@ == keyed_with(before.services.states@, key, state)
            } else {
                after == before
            }
        },
        LspRuntimeEvent::Initialized { key } => after == before && step == if from_current(
            before,
            key@,
            f,
        ) {
            RuntimeStep::MarkReady
        } else {
            RuntimeStep::Nothing
        },
        LspRuntimeEvent::TransportLoss { key } => after == before && step == if service_is_current(
            before,
            key@,
        ) {
            RuntimeStep::ObserveLoss
        } else {
            RuntimeStep::Nothing
        },
        LspRuntimeEvent::Restart { key, generation_current } => after == before && step
            == if service_is_current(before, key@) && generation_current {
            RuntimeStep::StartService
        } else {
            RuntimeStep::Nothing
        },
        LspRuntimeEvent::WorkspaceEdit { key, document_id, edit } => {
            &&& step == edit_verdict(before, key@, document_id, edit, f)
            &&& after == App { status: verdict_status(before.status, step), ..before }
        },
        LspRuntimeEvent::ProviderResult {
            key,
            document_id,
            context,
            revision,
            position,
            kind,
            answer,
        } => if answer_wanted(before, key@, document_id, revision, f) {
            answer_applied(
                before,
                key,
                document_id,
                context,
                revision,
                position,
                kind,
                answer,
                after,
                step,
            )
        } else {
            after == before && step == RuntimeStep::Nothing
        },
        LspRuntimeEvent::Diagnostics { key, document_id, uri, version, problems } => {
            let ledger = service_ledger(before, key@, document_id);
            &&& step == RuntimeStep::Nothing
            &&& if from_current(before, key@, f) && ledger is Some && version == Some(
                ledger->0.sent_version,
            ) && f.context_fresh && problems is Some {
                problems_reported(before, key, document_id, uri, problems->0@, after)
            } else {
                after == before
            }
        },
    }
}

/// Whatever comes from a service that is not current, or not from its current
/// session, changes nothing and starts nothing; an edit is refused.
pub proof fn stale_events_change_nothing(
    before: App,
    event: LspRuntimeEvent,
    f: Freshness,
    after: App,
    step: RuntimeStep,
)
    requires
        event_applied(before, event, f, after, step),
        match event {
            LspRuntimeEvent::State { key, .. } => !from_current(before, key@, f),
            LspRuntimeEvent::Initialized { key } => !from_current(before, key@, f),
            LspRuntimeEvent::TransportLoss { key } => !service_is_current(before, key@),
            LspRuntimeEvent::Restart { key, .. } => !service_is_current(before, key@),
            LspRuntimeEvent::WorkspaceEdit { key, .. } => !from_current(before, key@, f),
            LspRuntimeEvent::ProviderResult { key, .. } => !from_current(before, key@, f),
            LspRuntimeEvent::Diagnostics { key, .. } => !from_current(before, key@, f),
        },
    ensures
        after == before,
        step == RuntimeStep::Nothing || step == RuntimeStep::RefuseEdit(EditRefusal::Stale),
{
}

impl App {
    /// The ledger of a document for a service: what it was last told.
    pub fn sent_context(&self, key: &SupervisorKey, document: DocumentId) -> (context: Option<
        LspContext,
    >)
        ensures
            match service_ledger(*self, key@, document) {
                Some(ledger) => context is Some && crate::lsp::is_ledger_context(
                    context->0,
                    ledger,
                ),
                None => context is None,
            },
    {
        let b: usize = self.find_buffer(document);
        if b >= self.buffers.len() {
            return None;
        }
        match self.buffers[b].lsp_ledger(&key.authority_identity, &key.execution_context) {
            Some(ledger) => Some(ledger.message_context()),
            None => None,
        }
    }

    fn sent_version(&self, key: &SupervisorKey, document: DocumentId) -> (version: Option<i32>)
        ensures
            version == match service_ledger(*self, key@, document) {
                Some(ledger) => Some(ledger.sent_version),
                None => None,
            },
    {
        let b: usize = self.find_buffer(document);
        if b >= self.buffers.len() {
            return None;
        }
        match self.buffers[b].lsp_ledger(&key.authority_identity, &key.execution_context) {
            Some(ledger) => Some(ledger.sent_version),
            None => None,
        }
    }

    fn judge_edit(
        &self,
        key: &SupervisorKey,
        document_id: DocumentId,
        edit: &TransactionalWorkspaceEdit,
        f: Freshness,
    ) -> (step: RuntimeStep)
        ensures
            step == edit_verdict(*self, key@, document_id, *edit, f),
    {
        if !self.is_current_language_service_context(key) || !f.session_current {
            return RuntimeStep::RefuseEdit(EditRefusal::Stale);
        }
        let malformed = match edit.validate() {
            Ok(()) => false,
            Err(_) => true,
        };
        if malformed {
            return RuntimeStep::RefuseEdit(EditRefusal::Malformed);
        }
        if self.find_buffer(document_id) >= self.buffers.len() {
            return RuntimeStep::RefuseEdit(EditRefusal::NoDocument);
        }
        if self.sent_version(key, document_id).is_none() {
            return RuntimeStep::RefuseEdit(EditRefusal::NoLedger);
        }
        if !f.context_fresh {
            return RuntimeStep::RefuseEdit(EditRefusal::Stale);
        }
        RuntimeStep::ApplyEdit
    }

    /// The place of the buffer that a definition is in, if it is open.
    pub fn definition_buffer(&self, payload: &Json) -> (b: Option<usize>)
        ensures
            ({
                let place = definition_place(*payload);
                let url = url_serialized((place->0).0);
                let i = uri_buffer_from(self.buffers@, url->0, 0);
                b == if place is Some && url is Some && i < self.buffers@.len() {
                    Some(i as usize)
                } else {
                    None
                }
            }),
    {
        match definition_target(payload) {
            None => None,
            Some((uri, _)) => match url_text(uri.as_str()) {
                None => None,
                Some(url) => {
                    let i: usize = self.find_uri(&url);
                    if i < self.buffers.len() {
                        Some(i)
                    } else {
                        None
                    }
                },
            },
        }
    }

    fn find_uri(&self, uri: &String) -> (i: usize)
        ensures
            i == uri_buffer_from(self.buffers@, uri@, 0),
            i <= self.buffers@.len(),
    {
        let mut i: usize = 0;
        while i < self.buffers.len()
            invariant
                i <= self.buffers@.len(),
                uri_buffer_from(self.buffers@, uri@, 0) == uri_buffer_from(
                    self.buffers@,
                    uri@,
                    i as int,
                ),
            decreases self.buffers@.len() - i,
        {
            if uri_of(&self.buffers[i]) == *uri {
                return i;
            }
            i += 1;
        }
        i
    }

    fn answer_definition(
        &mut self,
        payload: &Json,
        range: Option<LspRange>,
        span: Option<(usize, usize)>,
    )
        requires
            old(self).wf(),
        ensures
            final(self).wf(),
            definition_answered(*old(self), *payload, range, span, *final(self)),
    {
        let uri: String = match definition_target(payload) {
            Some((uri, _)) => uri,
            None => {
                self.status = StatusMessage::DefinitionEmpty;
                return ;
            },
        };
        let url: String = match url_text(uri.as_str()) {
            Some(url) => url,
            None => {
                self.status = StatusMessage::DefinitionEmpty;
                return ;
            },
        };
        let range: LspRange = match range {
            Some(range) => range,
            None => {
                self.status = StatusMessage::DefinitionEmpty;
                return ;
            },
        };
        let i: usize = self.find_uri(&url);
        self.show_definition(i, url_path(uri.as_str()), range, span);
    }

    /// Shows a definition in the buffer at an index, or opens its file.
    pub fn show_definition(
        &mut self,
        i: usize,
        path: Option<String>,
        range: LspRange,
        span: Option<(usize, usize)>,
    )
        requires
            old(self).wf(),
        ensures
            final(self).wf(),
            definition_found(*old(self), i as int, opt_text(path), range, span, *final(self)),
    {
        if i < self.buffers.len() {
            if let Some((start, end)) = span {
                let id = self.buffers[i].id();
                self.layout.open_or_focus_editor(id);
                self.current_doc = Some(id);
                self.layout.set_editor_selection(start, end);
                self.focus = Landmark::Editor;
                self.status = StatusMessage::DefinitionOpened;
                return ;
            }
        }
        match path {
            Some(path) => {
                self.pending_definition = Some(PendingDefinition { path: path.clone(), range });
                self.pending_definition_open = Some(path);
                self.status = StatusMessage::DefinitionOpening;
            },
            None => {
                self.status = StatusMessage::DefinitionUnopenable;
            },
        }
    }

    fn answer_completion(
        &mut self,
        document_id: DocumentId,
        revision: DocumentRevision,
        position: LspPosition,
        payload: &Json,
    )
        requires
            old(self).wf(),
        ensures
            final(self).wf(),
            completion_answered(
                *old(self),
                document_id,
                revision,
                position,
                *payload,
                *final(self),
            ),
    {
        let candidates = completion_candidates(payload);
        assert(candidate_views(candidates@).len() == candidates@.len());
        if candidates.len() == 0 {
            self.status = StatusMessage::CompletionEmpty;
        } else {
            let count: usize = candidates.len();
            self.overlay = Overlay::Completion {
                document_id,
                revision,
                position,
                candidates,
                selected: 0,
                invoker: self.focus,
            };
            self.status = StatusMessage::CompletionCount(count);
        }
    }

    fn apply_answer(
        &mut self,
        key: SupervisorKey,
        document_id: DocumentId,
        context: LspContext,
        revision: DocumentRevision,
        position: LspPosition,
        kind: LspProviderKind,
        answer: ProviderAnswer,
    ) -> (step: RuntimeStep)
        requires
            old(self).wf(),
        ensures
            final(self).wf(),
            answer_applied(
                *old(self),
                key,
                document_id,
                context,
                revision,
                position,
                kind,
                answer,
                *final(self),
                step,
            ),
    {
        match answer {
            ProviderAnswer::Failed(error) => {
                self.status = StatusMessage::ProviderFailed { kind, error };
                RuntimeStep::Nothing
            },
            ProviderAnswer::Response { payload, range, span } => {
                match kind {
                    LspProviderKind::Completion => {
                        self.answer_completion(document_id, revision, position, &payload);
                    },
                    LspProviderKind::Hover => {
                        match hover_document(&payload) {
                            Some(document) => {
                                self.overlay = Overlay::Hover { document, invoker: self.focus };
                                self.status = StatusMessage::HoverAvailable;
                            },
                            None => {
                                self.status = StatusMessage::HoverEmpty;
                            },
                        }
                    },
                    LspProviderKind::Definition => {
                        self.answer_definition(&payload, range, span);
                    },
                    _ => {
                        self.status = StatusMessage::ProviderResponse(kind);
                    },
                }
                RuntimeStep::Nothing
            },
            ProviderAnswer::Empty => {
                self.status = StatusMessage::ProviderEmpty(kind);
                RuntimeStep::Nothing
            },
            ProviderAnswer::RenamePrepared(Some(preparation)) => {
                self.overlay = Overlay::RenameInput {
                    document_id,
                    key,
                    context,
                    position,
                    preparation,
                    new_name: String::new(),
                    invoker: self.focus,
                };
                self.status = StatusMessage::RenamePrompt;
                RuntimeStep::Nothing
            },
            ProviderAnswer::RenamePrepared(None) => {
                self.status = StatusMessage::RenameNotHere;
                RuntimeStep::Nothing
            },
            ProviderAnswer::NotRenameable => {
                self.status = StatusMessage::RenameNoChanges;
                RuntimeStep::Nothing
            },
            ProviderAnswer::RenameEdit => RuntimeStep::ApplyRename,
        }
    }

    fn find_problems(&self, key: &SupervisorKey, document: DocumentId) -> (i: usize)
        ensures
            i == problems_from(self.services.diagnostics@, key@, document, 0),
            i <= self.services.diagnostics@.len(),
    {
        let mut i: usize = 0;
        while i < self.services.diagnostics.len()
            invariant
                i <= self.services.diagnostics@.len(),
                problems_from(self.services.diagnostics@, key@, document, 0) == problems_from(
                    self.services.diagnostics@,
                    key@,
                    document,
                    i as int,
                ),
            decreases self.services.diagnostics@.len() - i,
        {
            if self.services.diagnostics[i].document_id == document
                && self.services.diagnostics[i].key.same(key) {
                return i;
            }
            i += 1;
        }
        i
    }

    fn report_problems(
        &mut self,
        key: SupervisorKey,
        document_id: DocumentId,
        uri: String,
        problems: Vec<ReportedProblem>,
    )
        requires
            old(self).wf(),
        ensures
            final(self).wf(),
            problems_reported(*old(self), key, document_id, uri, problems@, *final(self)),
    {
        let ghost reported = problems@;
        let mut entries: Vec<ProblemDiagnostic> = Vec::new();
        for p in it: problems
            invariant
                it.seq() == reported,
                entries@.len() == it.index(),
                forall|j: int|
                    0 <= j < it.index() ==> #[trigger] entries@[j] == problem_of(
                        document_id,
                        uri,
                        reported[j],
                    ),
        {
            entries.push(
                ProblemDiagnostic {
                    document_id,
                    uri: uri.clone(),
                    range: p.range,
                    severity: match p.severity {
                        Some(n) => Some(severity(n)),
                        None => None,
                    },
                    message: p.message,
                    source: p.source,
                },
            );
        }
        assert(entries@ =~= reported.map_values(
            |p: ReportedProblem| problem_of(document_id, uri, p),
        ));
        let i: usize = self.find_problems(&key, document_id);
        let ghost before = self.services.diagnostics@;
        let found = Problems { key: key.clone(), document_id, entries };
        if i < self.services.diagnostics.len() {
            self.services.diagnostics.set(i, found);
        } else {
            self.services.diagnostics.push(found);
        }
        let mut count: usize = 0;
        let ghost all = self.services.diagnostics@;
        for n in 0..self.services.diagnostics.len()
            invariant
                all == self.services.diagnostics@,
                0 <= problem_count(all, key@, n as int),
                count == if problem_count(all, key@, n as int) <= usize::MAX {
                    problem_count(all, key@, n as int)
                } else {
                    usize::MAX as int
                },
        {
            if self.services.diagnostics[n].key.same(&key) {
                count = count.saturating_add(self.services.diagnostics[n].entries.len());
            }
        }
        self.record_language_diagnostic_count(key, count);
    }

    /// Takes an event of a language service over. What is not from the current
    /// session of a current service changes nothing.
    pub fn apply_lsp_runtime_event(&mut self, event: LspRuntimeEvent, f: Freshness) -> (step:
        RuntimeStep)
        requires
            old(self).wf(),
        ensures
            final(self).wf(),
            event_applied(*old(self), event, f, *final(self), step),
    {
        match event {
            LspRuntimeEvent::State { key, state } => {
                if self.is_current_language_service_context(&key) && f.session_current {
                    self.record_language_service_state(key, state);
                }
                RuntimeStep::Nothing
            },
            LspRuntimeEvent::Initialized { key } => {
                if self.is_current_language_service_context(&key) && f.session_current {
                    RuntimeStep::MarkReady
                } else {
                    RuntimeStep::Nothing
                }
            },
            LspRuntimeEvent::TransportLoss { key } => {
                if self.is_current_language_service_context(&key) {
                    RuntimeStep::ObserveLoss
                } else {
                    RuntimeStep::Nothing
                }
            },
            LspRuntimeEvent::Restart { key, generation_current } => {
                if self.is_current_language_service_context(&key) && generation_current {
                    RuntimeStep::StartService
                } else {
                    RuntimeStep::Nothing
                }
            },
            LspRuntimeEvent::WorkspaceEdit { key, document_id, edit } => {
                let step = self.judge_edit(&key, document_id, &edit, f);
                match step {
                    RuntimeStep::RefuseEdit(EditRefusal::Malformed) => {
                        self.status = StatusMessage::EditMalformed;
                    },
                    RuntimeStep::RefuseEdit(EditRefusal::NoDocument) => {
                        self.status = StatusMessage::EditNoDocument;
                    },
                    RuntimeStep::RefuseEdit(EditRefusal::NoLedger) => {
                        self.status = StatusMessage::EditNoLedger;
                    },
                    _ => {},
                }
                step
            },
            LspRuntimeEvent::ProviderResult {
                key,
                document_id,
                context,
                revision,
                position,
                kind,
                answer,
            } => {
                let b: usize = self.find_buffer(document_id);
                let wanted = self.is_current_language_service_context(&key) && f.session_current
                    && self.sent_version(&key, document_id).is_some() && b < self.buffers.len()
                    && self.buffers[b].revision() == revision && f.context_fresh;
                if wanted {
                    self.apply_answer(
                        key,
                        document_id,
                        context,
                        revision,
                        position,
                        kind,
                        answer,
                    )
                } else {
                    RuntimeStep::Nothing
                }
            },
            LspRuntimeEvent::Diagnostics { key, document_id, uri, version, problems } => {
                let current = self.is_current_language_service_context(&key) && f.session_current;
                let sent = self.sent_version(&key, document_id);
                let matching = match (sent, version) {
                    (Some(a), Some(b)) => a == b,
                    _ => false,
                };
                if current && matching && f.context_fresh {
                    if let Some(problems) = problems {
                        self.report_problems(key, document_id, uri, problems);
                    }
                }
                RuntimeStep::Nothing
            },
        }
    }

    /// Takes note that a service could not be marked as ready.
    pub fn ready_failed(&mut self, key: SupervisorKey, message: String)
        ensures
            *final(self) == (App {
                services: LanguageServices {
                    states: final(self).services.states,
                    ..old(self).services
                },
                ..*old(self)
            }),
            final(self).services.states@ == keyed_with(
                old(self).services.states@,
                key,
                LanguageServiceState::Failed { message },
            ),
    {
        self.record_language_service_state(key, LanguageServiceState::Failed { message });
    }

    /// Takes the sessions of a service away whose connection was lost and that is to
    /// be started anew.
    pub fn drop_sessions_of(&mut self, key: &SupervisorKey)
        ensures
            *final(self) == (App {
                services: LanguageServices {
                    sessions: final(self).services.sessions,
                    ..old(self).services
                },
                ..*old(self)
            }),
            final(self).services.sessions@ == sessions_without(
                old(self).services.sessions@,
                key@,
                old(self).services.sessions@.len() as int,
            ),
    {
        let ghost before = self.services.sessions@;
        let mut all: Vec<LspSession> = Vec::new();
        std::mem::swap(&mut self.services.sessions, &mut all);
        let mut kept: Vec<LspSession> = Vec::new();
        assert(kept@ =~= Seq::<LspSession>::empty());
        for session in it: all
            invariant
                it.seq() == before,
                kept@ == sessions_without(before, key@, it.index() as int),
        {
            if !session.key.same(key) {
                kept.push(session);
            }
        }
        self.services.sessions = kept;
    }

    /// Says what became of a workspace edit, and what the server is told.
    pub fn workspace_edit_applied(&mut self, outcome: &ApplyOutcome) -> (refusal: Option<
        EditRefusal,
    >)
        ensures
            *final(self) == (App {
                status: match *outcome {
                    ApplyOutcome::Applied => StatusMessage::EditApplied,
                    ApplyOutcome::NoChanges => StatusMessage::EditApplied,
                    ApplyOutcome::Rejected => StatusMessage::EditRejected,
                    ApplyOutcome::Failed(_) => StatusMessage::EditFailed,
                    ApplyOutcome::NoAuthority => StatusMessage::EditNoAuthority,
                },
                ..*old(self)
            }),
            refusal == match *outcome {
                ApplyOutcome::Applied => None,
                ApplyOutcome::NoChanges => None,
                ApplyOutcome::Rejected => Some(EditRefusal::Rejected),
                ApplyOutcome::Failed(_) => Some(EditRefusal::Failed),
                ApplyOutcome::NoAuthority => Some(EditRefusal::NoAuthority),
            },
    {
        match outcome {
            ApplyOutcome::Applied => {
                self.status = StatusMessage::EditApplied;
                None
            },
            ApplyOutcome::NoChanges => {
                self.status = StatusMessage::EditApplied;
                None
            },
            ApplyOutcome::Rejected => {
                self.status = StatusMessage::EditRejected;
                Some(EditRefusal::Rejected)
            },
            ApplyOutcome::Failed(_) => {
                self.status = StatusMessage::EditFailed;
                Some(EditRefusal::Failed)
            },
            ApplyOutcome::NoAuthority => {
                self.status = StatusMessage::EditNoAuthority;
                Some(EditRefusal::NoAuthority)
            },
        }
    }

    /// Says what became of a rename.
    pub fn rename_applied(&mut self, outcome: ApplyOutcome)
        ensures
            *final(self) == (App {
                status: match outcome {
                    ApplyOutcome::Applied => StatusMessage::RenameApplied,
                    ApplyOutcome::NoChanges => StatusMessage::RenameNoChanges,
                    ApplyOutcome::Rejected => StatusMessage::RenameRejected,
                    ApplyOutcome::Failed(error) => StatusMessage::RenameFailed(error),
                    ApplyOutcome::NoAuthority => StatusMessage::RenameNoAuthority,
                },
                ..*old(self)
            }),
    {
        self.status = match outcome {
            ApplyOutcome::Applied => StatusMessage::RenameApplied,
            ApplyOutcome::NoChanges => StatusMessage::RenameNoChanges,
            ApplyOutcome::Rejected => StatusMessage::RenameRejected,
            ApplyOutcome::Failed(error) => StatusMessage::RenameFailed(error),
            ApplyOutcome::NoAuthority => StatusMessage::RenameNoAuthority,
        };
    }
}

/// The first `n` sessions without those of a service.
pub open spec fn sessions_without(sessions: Seq<LspSession>, key: KeyView, n: int) -> Seq<LspSession>
    decreases n,
{
    if n <= 0 {
        Seq::empty()
    } else if sessions[n - 1].key@ == key {
        sessions_without(sessions, key, n - 1)
    } else {
        sessions_without(sessions, key, n - 1).push(sessions[n - 1])
    }
}

/// Reported problems take the place of those that the service had found in the document
/// before: there are as many as were reported, each with the place, the text and the
/// source that were reported and with the severity that its number stands for. The
/// problems of other services and of other documents stay.
pub proof fn reported_problems_are_shown(
    before: App,
    key: SupervisorKey,
    document: DocumentId,
    uri: String,
    problems: Seq<ReportedProblem>,
    after: App,
    i: int,
)
    requires
        problems_reported(before, key, document, uri, problems, after),
        0 <= i < problems.len(),
    ensures
        exists|k: int|
            0 <= k < after.services.diagnostics@.len() && {
                let found = #[trigger] after.services.diagnostics@[k];
                &&& found.key@ == key@
                &&& found.document_id == document
                &&& found.entries@.len() == problems.len()
                &&& found.entries@[i].message == problems[i].message
                &&& found.entries@[i].range == problems[i].range
                &&& found.entries@[i].source == problems[i].source
                &&& found.entries@[i].document_id == document
                &&& found.entries@[i].uri == uri
                &&& problems[i].severity is None ==> found.entries@[i].severity is None
                &&& problems[i].severity == Some(1i32) ==> found.entries@[i].severity == Some(
                    NormalizedDiagnosticSeverity::Error,
                )
                &&& problems[i].severity == Some(2i32) ==> found.entries@[i].severity == Some(
                    NormalizedDiagnosticSeverity::Warning,
                )
                &&& problems[i].severity == Some(3i32) ==> found.entries@[i].severity == Some(
                    NormalizedDiagnosticSeverity::Information,
                )
                &&& problems[i].severity == Some(4i32) ==> found.entries@[i].severity == Some(
                    NormalizedDiagnosticSeverity::Hint,
                )
            },
        forall|j: int|
            0 <= j < before.services.diagnostics@.len() && !((
            #[trigger] before.services.diagnostics@[j]).key@ == key@
                && before.services.diagnostics@[j].document_id == document)
                ==> after.services.diagnostics@[j] == before.services.diagnostics@[j],
        after.buffers == before.buffers,
{
    let at = problems_from(before.services.diagnostics@, key@, document, 0);
    lemma_problems_from(before.services.diagnostics@, key@, document, 0);
    assert(0 <= at < after.services.diagnostics@.len());
    let found = after.services.diagnostics@[at];
    assert(found.entries@[i] == problem_of(document, uri, problems[i]));
}

proof fn lemma_problems_from(all: Seq<Problems>, key: KeyView, document: DocumentId, i: int)
    requires
        0 <= i <= all.len(),
    ensures
        i <= problems_from(all, key, document, i) <= all.len(),
        problems_from(all, key, document, i) < all.len() ==> all[problems_from(
            all,
            key,
            document,
            i,
        )].key@ == key && all[problems_from(all, key, document, i)].document_id == document,
    decreases all.len() - i,
{
    if i < all.len() && !(all[i].key@ == key && all[i].document_id == document) {
        lemma_problems_from(all, key, document, i + 1);
    }
}

/// A workspace edit of a server is made only if it comes from the current session of a
/// current service, is well formed, and speaks of an open document that the server was
/// told and that has not moved on. Otherwise the server is told that it is not made; the
/// verdict itself changes no document.
pub proof fn only_fresh_edits_are_made(
    before: App,
    key: SupervisorKey,
    document_id: DocumentId,
    edit: TransactionalWorkspaceEdit,
    f: Freshness,
    after: App,
    step: RuntimeStep,
)
    requires
        event_applied(
            before,
            LspRuntimeEvent::WorkspaceEdit { key, document_id, edit },
            f,
            after,
            step,
        ),
    ensures
        step == RuntimeStep::ApplyEdit || step is RefuseEdit,
        step == RuntimeStep::ApplyEdit ==> {
            &&& service_is_current(before, key@)
            &&& f.session_current
            &&& f.context_fresh
            &&& exists|i: int|
                0 <= i < before.buffers@.len() && (#[trigger] before.buffers@[i])@.id == document_id
            &&& forall|j: int|
                0 <= j < edit.document_changes@.len() ==> (
                #[trigger] edit.document_changes@[j])->uri@.len() > 0
        },
        after.buffers == before.buffers,
        after.layout == before.layout,
        after.overlay == before.overlay,
{
    lemma_buffer_from(before.buffers@, document_id, 0);
    if step == RuntimeStep::ApplyEdit {
        lemma_changes_named(edit.document_changes@, 0);
        assert(before.buffers@[buffer_at(before, document_id)]@.id == document_id);
    }
}

proof fn lemma_changes_named(changes: Seq<TransactionalDocumentEdit>, i: int)
    requires
        0 <= i,
        changes_fault_from(changes, i) is None,
    ensures
        forall|j: int| i <= j < changes.len() ==> (#[trigger] changes[j])->uri@.len() > 0,
    decreases changes.len() - i,
{
    if i < changes.len() {
        lemma_changes_named(changes, i + 1);
    }
}

/// An answer that comes after its document has moved on is dropped, and so is one of
/// another session or service: neither changes anything.
pub proof fn late_answers_are_dropped(
    before: App,
    event: LspRuntimeEvent,
    f: Freshness,
    after: App,
    step: RuntimeStep,
    i: int,
)
    requires
        event_applied(before, event, f, after, step),
        event matches LspRuntimeEvent::ProviderResult { key, document_id, revision, .. } && 0 <= i
            < before.buffers@.len() && before.buffers@[i]@.id == document_id && (forall|j: int|
            0 <= j < i ==> (#[trigger] before.buffers@[j])@.id != document_id) && (
        before.buffers@[i]@.revision != revision || !f.session_current || !f.context_fresh
            || !service_is_current(before, key@)),
    ensures
        after == before,
        step == RuntimeStep::Nothing,
{
    if let LspRuntimeEvent::ProviderResult { document_id, .. } = event {
        lemma_buffer_from(before.buffers@, document_id, 0);
    }
}

/// The completions that a server lists are offered for the document and the place that
/// were asked for, all of them and in their order, with the first selected.
pub proof fn listed_completions_are_offered(
    before: App,
    document: DocumentId,
    revision: DocumentRevision,
    position: LspPosition,
    items: Vec<Json>,
    after: App,
)
    requires
        completion_answered(before, document, revision, position, Json::Array(items), after),
        items@.len() > 0,
        forall|j: int|
            0 <= j < items@.len() ==> (json_member(#[trigger] items@[j], "label"@) matches Some(
                Json::Text(_),
            )),
    ensures
        after.overlay matches Overlay::Completion {
            document_id,
            revision: r,
            position: p,
            candidates,
            selected,
            invoker,
        } && document_id == document && r == revision && p == position && selected == 0 && invoker
            == before.focus && candidates@.len() == items@.len() && forall|i: int|
            0 <= i < items@.len() ==> (json_member(items@[i], "label"@) matches Some(Json::Text(t))
                && (#[trigger] candidates@[i]).label@ == t@),
        after.buffers == before.buffers,
{
    let all = completion_items(Json::Array(items));
    assert(all == items@);
    completions_say_what_is_listed(items@, items@.len() as int);
    if let Overlay::Completion { candidates, .. } = after.overlay {
        let views = candidate_views(candidates@);
        assert(views.len() == candidates@.len());
        assert forall|i: int| 0 <= i < items@.len() implies (json_member(
            items@[i],
            "label"@,
        ) matches Some(Json::Text(t)) && (#[trigger] candidates@[i]).label@ == t@) by {
            assert(views[i] == candidates@[i]@);
            assert(json_member(items@[i], "label"@) matches Some(Json::Text(_)));
        }
    }
}

/// A definition in an open document is selected there: its document is shown and has the
/// focus, and the selection reaches from the start of the definition to its end. One in
/// another file has that file opened, and its range is kept until then.
pub proof fn definitions_are_selected(
    before: App,
    i: int,
    path: Option<Seq<char>>,
    range: LspRange,
    span: Option<(usize, usize)>,
    after: App,
)
    requires
        definition_found(before, i, path, range, span, after),
        0 <= i,
        before.layout.tabs().editor_tabs.len() < usize::MAX,
    ensures
        i < before.buffers@.len() ==> (span matches Some(s) ==> {
            let tabs = after.layout.tabs();
            let tab = tabs.editor_tabs[tabs.active_editor_tab as int];
            &&& after.current_doc == Some(before.buffers@[i]@.id)
            &&& after.focus == Landmark::Editor
            &&& tab.doc_id == before.buffers@[i]@.id
            &&& tab.selection_anchor == Some(s.0)
            &&& tab.cursor_byte == s.1
        }),
        i >= before.buffers@.len() || span is None ==> after.layout == before.layout
            && after.current_doc == before.current_doc && (path matches Some(p) ==> (
        after.pending_definition matches Some(d) && d.path@ == p && d.range == range) && (
        after.pending_definition_open matches Some(o) && o@ == p)),
        after.buffers == before.buffers,
{
    if i < before.buffers@.len() && span is Some {
        opened_documents_are_shown(before.layout.tabs(), before.buffers@[i]@.id);
    }
}

/// Dropping the sessions of a service drops all of them and no other, and keeps the
/// order of those that are left.
pub proof fn dropped_sessions_are_those_of_the_service(
    sessions: Seq<LspSession>,
    key: KeyView,
    n: int,
)
    requires
        0 <= n <= sessions.len(),
    ensures
        forall|i: int|
            0 <= i < sessions_without(sessions, key, n).len() ==> (#[trigger] sessions_without(
                sessions,
                key,
                n,
            )[i]).key@ != key,
        forall|i: int|
            0 <= i < n && (#[trigger] sessions[i]).key@ != key ==> sessions_without(
                sessions,
                key,
                n,
            ).contains(sessions[i]),
        (forall|i: int| 0 <= i < n ==> (#[trigger] sessions[i]).key@ != key) ==> sessions_without(
            sessions,
            key,
            n,
        ) == sessions.take(n),
    decreases n,
{
    if n > 0 {
        dropped_sessions_are_those_of_the_service(sessions, key, n - 1);
        let before = sessions_without(sessions, key, n - 1);
        let now = sessions_without(sessions, key, n);
        assert forall|i: int| 0 <= i < n && (#[trigger] sessions[i]).key@ != key implies now.contains(
            sessions[i],
        ) by {
            if i < n - 1 {
                let j = choose|j: int| 0 <= j < before.len() && before[j] == sessions[i];
                assert(now[j] == sessions[i]);
            } else {
                assert(now[before.len() as int] == sessions[i]);
            }
        }
        assert(sessions[n - 1] == sessions[n - 1]);
        if forall|i: int| 0 <= i < n ==> (#[trigger] sessions[i]).key@ != key {
            assert(now =~= sessions.take(n));
        }
    } else {
        assert(sessions.take(0) =~= Seq::empty());
    }
}

/// An answer does what was asked for: a hover shows its text, a prepared rename asks for
/// the new name where it was prepared, a failure is said with its reason, and the edit of
/// a rename is made. None of them changes a text by itself.
pub proof fn answers_do_what_was_asked(
    before: App,
    key: SupervisorKey,
    document: DocumentId,
    context: LspContext,
    revision: DocumentRevision,
    position: LspPosition,
    kind: LspProviderKind,
    answer: ProviderAnswer,
    after: App,
    step: RuntimeStep,
)
    requires
        answer_applied(
            before,
            key,
            document,
            context,
            revision,
            position,
            kind,
            answer,
            after,
            step,
        ),
    ensures
        kind == LspProviderKind::Hover ==> (answer matches ProviderAnswer::Response { payload, .. }
            ==> (json_member(payload, "contents"@) matches Some(Json::Text(t)) ==> (
        after.overlay matches Overlay::Hover { document: d, invoker } && d@ == t@ && invoker
            == before.focus))),
        answer matches ProviderAnswer::RenamePrepared(Some(n)) ==> (
        after.overlay matches Overlay::RenameInput {
            document_id,
            position: p,
            preparation,
            new_name,
            invoker,
            ..
        } && document_id == document && p == position && preparation == n && new_name@.len() == 0
            && invoker == before.focus),
        answer matches ProviderAnswer::Failed(error) ==> after.status
            == (StatusMessage::ProviderFailed { kind, error }) && after.overlay == before.overlay,
        answer is RenameEdit <==> step == RuntimeStep::ApplyRename,
        after.buffers == before.buffers,
{
}

} // verus!
