//! Requests to language servers: completions, hover texts, definitions and
//! renames.
use vstd::prelude::*;

use super::services::{document_uri, keyed, service_is_current, session_from, uri_of, SendOutcome};
use super::status::StatusMessage;
use super::{
    buffer_at, buffer_of, has_buffer, lemma_buffer_from, no_effects, App, Effects, FollowUp,
    LspChange, LspProviderKind, LspSession, Overlay,
};
use crate::buffer::{ledger_of, lemma_ledger_from};
use crate::document::{DocumentId, DocumentRevision};
use crate::lsp::{is_ledger_context, LanguageServiceState, LspDocumentLedger, SupervisorKey};
use crate::protocol::lsp::{LspContext, LspPosition};
use crate::words::{trim, trimmed};

use super::editing::{cursor_of, is_shown, lemma_shown};

verus! {

/// A document and its language server as they are when a request is made.
#[derive(Debug, PartialEq, Eq)]
pub struct LspProviderSnapshot {
    pub context: LspContext,
    pub uri: String,
    pub revision: DocumentRevision,
    pub ledger: LspDocumentLedger,
    pub config_digest: String,
    pub service_state: LanguageServiceState,
}

/// What a session is asked to do.
#[derive(Debug, PartialEq, Eq)]
#[allow(inconsistent_fields)]
pub enum LspSessionCommand {
    Change(LspChange),
    Provider { kind: LspProviderKind, snapshot: LspProviderSnapshot, position: LspPosition },
    Rename {
        snapshot: LspProviderSnapshot,
        preparation: u64,
        position: LspPosition,
        new_name: String,
    },
}

/// The first session for a document with a current service, from index `i` on; the
/// number of sessions if there is none.
pub open spec fn current_session_from(app: App, document: DocumentId, i: int) -> int
    decreases app.services.sessions@.len() - i,
{
    if i >= app.services.sessions@.len() {
        app.services.sessions@.len() as int
    } else if app.services.sessions@[i].document_id == document && service_is_current(
        app,
        app.services.sessions@[i].key@,
    ) {
        i
    } else {
        current_session_from(app, document, i + 1)
    }
}

/// Why no request can be made for the document that is shown.
pub open spec fn provider_fault(app: App) -> Option<StatusMessage> {
    match app.current_doc {
        None => Some(StatusMessage::RequestNeedsDocument),
        Some(id) => {
            let i = current_session_from(app, id, 0);
            let s = app.services.sessions@[i];
            let b = buffer_of(app, id);
            let ledger = ledger_of(b.ledgers, s.key@.authority, s.key@.execution_context);
            if i >= app.services.sessions@.len() {
                Some(StatusMessage::ServiceUnavailable)
            } else if keyed(app.services.states@, s.key@) != Some(LanguageServiceState::Ready) {
                Some(StatusMessage::ServiceNotReady)
            } else if !has_buffer(app, id) {
                Some(StatusMessage::RequestNeedsBuffer)
            } else if ledger is None {
                Some(StatusMessage::RequestNoLedger)
            } else if ledger->0.revision != b.revision {
                Some(StatusMessage::RequestStale)
            } else {
                None
            }
        },
    }
}

/// Whether a snapshot shows a document and its server as they are.
pub open spec fn is_snapshot(
    app: App,
    document: DocumentId,
    s: LspSession,
    snapshot: LspProviderSnapshot,
) -> bool {
    let b = buffer_of(app, document);
    let ledger = ledger_of(b.ledgers, s.key@.authority, s.key@.execution_context);
    &&& ledger == Some(snapshot.ledger@)
    &&& is_ledger_context(snapshot.context, snapshot.ledger@)
    &&& snapshot.uri@ == document_uri(b)
    &&& snapshot.revision == snapshot.ledger.revision
    &&& snapshot.config_digest == s.config_digest
}

/// What is asked of the session for the document that is shown.
pub open spec fn provider_asked(
    app: App,
    kind: LspProviderKind,
    position: LspPosition,
    command: (usize, LspSessionCommand),
) -> bool {
    let id = app.current_doc->0;
    let i = current_session_from(app, id, 0);
    &&& command.0 == i
    &&& command.1 matches LspSessionCommand::Provider { kind: k, snapshot, position: p } && k
        == kind && p == position && is_snapshot(app, id, app.services.sessions@[i], snapshot)
        && snapshot.service_state == LanguageServiceState::Ready
}

/// Why a rename cannot be sent: no name, no session, no buffer, or a document that
/// has moved on since the rename was prepared.
pub open spec fn rename_fault(
    app: App,
    document_id: DocumentId,
    key: SupervisorKey,
    context: LspContext,
    new_name: Seq<char>,
) -> Option<StatusMessage> {
    let b = buffer_of(app, document_id);
    let ledger = ledger_of(b.ledgers, key@.authority, key@.execution_context);
    if trimmed(new_name).len() == 0 {
        Some(StatusMessage::RenameNeedsName)
    } else if session_from(app.services.sessions@, key@, document_id, 0)
        >= app.services.sessions@.len() {
        Some(StatusMessage::RenameUnavailable)
    } else if !has_buffer(app, document_id) {
        Some(StatusMessage::RenameNeedsBuffer)
    } else if ledger is None || ledger->0.revision != b.revision || !is_ledger_context(
        context,
        ledger->0,
    ) {
        Some(StatusMessage::RenameStale)
    } else {
        None
    }
}

/// What confirming a rename does: it is sent, or the status says why not.
pub open spec fn rename_confirmed(before: App, after: App, effects: Effects) -> bool {
    match before.overlay {
        Overlay::RenameInput { document_id, key, context, new_name, .. } => match rename_fault(
            before,
            document_id,
            key,
            context,
            new_name@,
        ) {
            Some(status) => after == App { status, ..before } && effects == no_effects(),
            None => after == before && effects == Effects {
                follow_up: FollowUp::SendRename,
                ..no_effects()
            },
        },
        _ => after == before && effects == no_effects(),
    }
}

/// What a rename that can be sent asks of its session.
pub open spec fn rename_asked(app: App, command: (usize, LspSessionCommand)) -> bool {
    match app.overlay {
        Overlay::RenameInput {
            document_id,
            key,
            context,
            position,
            preparation,
            new_name,
            ..
        } => {
            let i = session_from(app.services.sessions@, key@, document_id, 0);
            &&& command.0 == i
            &&& command.1 matches LspSessionCommand::Rename {
                snapshot,
                preparation: t,
                position: p,
                new_name: n,
            } && t == preparation && p == position && n == new_name && is_snapshot(
                app,
                document_id,
                app.services.sessions@[i],
                snapshot,
            ) && snapshot.context == context && match keyed(app.services.states@, key@) {
                Some(state) => snapshot.service_state == state,
                None => snapshot.service_state matches LanguageServiceState::Failed { message }
                    && message@ == "language service state unavailable"@,
            }
        },
        _ => false,
    }
}

/// Whether a rename is open and can be sent.
pub open spec fn rename_can_be_sent(app: App) -> bool {
    match app.overlay {
        Overlay::RenameInput { document_id, key, context, new_name, .. } => rename_fault(
            app,
            document_id,
            key,
            context,
            new_name@,
        ) is None,
        _ => false,
    }
}

impl App {
    fn find_current_session(&self, document: DocumentId) -> (i: usize)
        ensures
            i == current_session_from(*self, document, 0),
            i <= self.services.sessions@.len(),
    {
        let mut i: usize = 0;
        while i < self.services.sessions.len()
            invariant
                i <= self.services.sessions@.len(),
                current_session_from(*self, document, 0) == current_session_from(
                    *self,
                    document,
                    i as int,
                ),
            decreases self.services.sessions@.len() - i,
        {
            if self.services.sessions[i].document_id == document
                && self.is_current_language_service_context(&self.services.sessions[i].key) {
                return i;
            }
            i += 1;
        }
        i
    }

    /// The place of the session and of the buffer for a request, or why none can be
    /// made.
    fn check_provider(&self) -> (r: Result<(usize, usize), StatusMessage>)
        ensures
            match provider_fault(*self) {
                Some(status) => r == Err::<(usize, usize), StatusMessage>(status),
                None => {
                    &&& r is Ok
                    &&& self.current_doc is Some
                    &&& r->Ok_0.0 == current_session_from(*self, self.current_doc->0, 0)
                    &&& r->Ok_0.0 < self.services.sessions@.len()
                    &&& r->Ok_0.1 == buffer_at(*self, self.current_doc->0)
                    &&& r->Ok_0.1 < self.buffers@.len()
                },
            },
    {
        let id = match self.current_doc {
            Some(id) => id,
            None => return Err(StatusMessage::RequestNeedsDocument),
        };
        let i: usize = self.find_current_session(id);
        if i >= self.services.sessions.len() {
            return Err(StatusMessage::ServiceUnavailable);
        }
        let key = &self.services.sessions[i].key;
        let ready = match self.language_service_state(key) {
            Some(LanguageServiceState::Ready) => true,
            _ => false,
        };
        if !ready {
            return Err(StatusMessage::ServiceNotReady);
        }
        let b: usize = self.find_buffer(id);
        if b >= self.buffers.len() {
            return Err(StatusMessage::RequestNeedsBuffer);
        }
        match self.buffers[b].lsp_ledger(&key.authority_identity, &key.execution_context) {
            None => Err(StatusMessage::RequestNoLedger),
            Some(ledger) => if ledger.revision != self.buffers[b].revision() {
                Err(StatusMessage::RequestStale)
            } else {
                Ok((i, b))
            },
        }
    }

    /// Begins a request for the document that is shown, or says why none can be made.
    pub fn begin_provider(&mut self, kind: LspProviderKind) -> (effects: Effects)
        requires
            old(self).wf(),
        ensures
            final(self).wf(),
            match provider_fault(*old(self)) {
                Some(status) => *final(self) == (App { status, ..*old(self) }) && effects
                    == no_effects(),
                None => *final(self) == *old(self) && effects == (Effects {
                    follow_up: FollowUp::AskServer(kind),
                    ..no_effects()
                }),
            },
    {
        let mut effects = Effects::none();
        match self.check_provider() {
            Err(status) => {
                self.status = status;
            },
            Ok(_) => {
                effects.follow_up = FollowUp::AskServer(kind);
            },
        }
        effects
    }

    /// The place of the buffer and the cursor that a request is made for.
    pub fn provider_place(&self) -> (place: Option<(usize, usize)>)
        ensures
            match place {
                Some((b, cursor)) => provider_fault(*self) is None && b == buffer_at(
                    *self,
                    self.current_doc->0,
                ) && b < self.buffers@.len() && cursor == cursor_of(self.layout.tabs()),
                None => provider_fault(*self) is Some,
            },
    {
        match self.check_provider() {
            Err(_) => None,
            Ok((_, b)) => {
                let cursor: usize = match self.layout.current_editor() {
                    Some(tab) => tab.cursor_byte,
                    None => 0,
                };
                Some((b, cursor))
            },
        }
    }

    /// What is asked of which session, once it is known where the cursor is.
    pub fn provider_request(&mut self, kind: LspProviderKind, position: Option<LspPosition>) -> (
    command: Option<(usize, LspSessionCommand)>)
        requires
            old(self).wf(),
        ensures
            final(self).wf(),
            match (provider_fault(*old(self)), position) {
                (Some(status), _) => *final(self) == (App { status, ..*old(self) })
                    && command is None,
                (None, None) => *final(self) == (App {
                    status: StatusMessage::RequestBadCursor,
                    ..*old(self)
                }) && command is None,
                (None, Some(p)) => *final(self) == *old(self) && command is Some
                    && provider_asked(*old(self), kind, p, command->0),
            },
    {
        let (i, b): (usize, usize) = match self.check_provider() {
            Err(status) => {
                self.status = status;
                return None;
            },
            Ok(found) => found,
        };
        let position = match position {
            Some(p) => p,
            None => {
                self.status = StatusMessage::RequestBadCursor;
                return None;
            },
        };
        let session = &self.services.sessions[i];
        match self.buffers[b].lsp_ledger(
            &session.key.authority_identity,
            &session.key.execution_context,
        ) {
            None => None,
            Some(ledger) => {
                let snapshot = LspProviderSnapshot {
                    context: ledger.message_context(),
                    uri: uri_of(&self.buffers[b]),
                    revision: ledger.revision,
                    ledger: ledger.clone(),
                    config_digest: session.config_digest.clone(),
                    service_state: LanguageServiceState::Ready,
                };
                Some((i, LspSessionCommand::Provider { kind, snapshot, position }))
            },
        }
    }

    /// Takes note of how a request went that was handed to a session.
    pub fn provider_sent(&mut self, outcome: SendOutcome)
        ensures
            *final(self) == match outcome {
                SendOutcome::Sent => *old(self),
                SendOutcome::Full => App { status: StatusMessage::QueueBusy, ..*old(self) },
                SendOutcome::Closed => App {
                    status: StatusMessage::ServiceUnavailable,
                    ..*old(self)
                },
            },
    {
        match outcome {
            SendOutcome::Sent => {},
            SendOutcome::Full => {
                self.status = StatusMessage::QueueBusy;
            },
            SendOutcome::Closed => {
                self.status = StatusMessage::ServiceUnavailable;
            },
        }
    }

    fn check_rename(
        &self,
        document_id: DocumentId,
        key: &SupervisorKey,
        context: &LspContext,
        new_name: &String,
    ) -> (r: Result<(usize, usize), StatusMessage>)
        ensures
            match rename_fault(*self, document_id, *key, *context, new_name@) {
                Some(status) => r == Err::<(usize, usize), StatusMessage>(status),
                None => {
                    &&& r is Ok
                    &&& r->Ok_0.0 == session_from(self.services.sessions@, key@, document_id, 0)
                    &&& r->Ok_0.0 < self.services.sessions@.len()
                    &&& r->Ok_0.1 == buffer_at(*self, document_id)
                    &&& r->Ok_0.1 < self.buffers@.len()
                },
            },
    {
        if trim(new_name.as_str()).as_str().is_empty() {
            return Err(StatusMessage::RenameNeedsName);
        }
        let i: usize = self.find_session(key, document_id);
        if i >= self.services.sessions.len() {
            return Err(StatusMessage::RenameUnavailable);
        }
        let b: usize = self.find_buffer(document_id);
        if b >= self.buffers.len() {
            return Err(StatusMessage::RenameNeedsBuffer);
        }
        match self.buffers[b].lsp_ledger(&key.authority_identity, &key.execution_context) {
            None => Err(StatusMessage::RenameStale),
            Some(ledger) => if ledger.revision != self.buffers[b].revision()
                || !ledger.matches_context(context) {
                Err(StatusMessage::RenameStale)
            } else {
                Ok((i, b))
            },
        }
    }

    /// Confirms a rename, or says why it cannot be sent.
    pub fn confirm_rename(&mut self) -> (effects: Effects)
        requires
            old(self).wf(),
        ensures
            final(self).wf(),
            rename_confirmed(*old(self), *final(self), effects),
    {
        let mut effects = Effects::none();
        let checked: Result<(usize, usize), StatusMessage> = match &self.overlay {
            Overlay::RenameInput { document_id, key, context, new_name, .. } => self.check_rename(
                *document_id,
                key,
                context,
                new_name,
            ),
            _ => return effects,
        };
        match checked {
            Err(status) => {
                self.status = status;
            },
            Ok(_) => {
                effects.follow_up = FollowUp::SendRename;
            },
        }
        effects
    }

    /// What a rename asks of which session.
    pub fn rename_request(&self) -> (command: Option<(usize, LspSessionCommand)>)
        ensures
            match command {
                Some(c) => rename_can_be_sent(*self) && rename_asked(*self, c),
                None => !rename_can_be_sent(*self),
            },
    {
        match &self.overlay {
            Overlay::RenameInput {
                document_id,
                key,
                context,
                position,
                preparation,
                new_name,
                ..
            } => match self.check_rename(*document_id, key, context, new_name) {
                Err(_) => None,
                Ok((i, b)) => match self.buffers[b].lsp_ledger(
                    &key.authority_identity,
                    &key.execution_context,
                ) {
                    None => None,
                    Some(ledger) => {
                        proof {
                            lemma_session_key(
                                self.services.sessions@,
                                key@,
                                *document_id,
                                0,
                            );
                        }
                        let service_state = match self.language_service_state(key) {
                            Some(state) => state.clone(),
                            None => LanguageServiceState::Failed {
                                message: "language service state unavailable".to_owned(),
                            },
                        };
                        let snapshot = LspProviderSnapshot {
                            context: context.clone(),
                            uri: uri_of(&self.buffers[b]),
                            revision: ledger.revision,
                            ledger: ledger.clone(),
                            config_digest: self.services.sessions[i].config_digest.clone(),
                            service_state,
                        };
                        Some(
                            (
                                i,
                                LspSessionCommand::Rename {
                                    snapshot,
                                    preparation: *preparation,
                                    position: *position,
                                    new_name: new_name.clone(),
                                },
                            ),
                        )
                    },
                },
            },
            _ => None,
        }
    }

    /// Takes note of how a rename went that was handed to its session.
    pub fn rename_sent(&mut self, outcome: SendOutcome)
        ensures
            *final(self) == match (old(self).overlay, outcome) {
                (Overlay::RenameInput { invoker, .. }, SendOutcome::Sent) => App {
                    focus: invoker,
                    overlay: Overlay::Closed,
                    status: StatusMessage::Renaming,
                    ..*old(self)
                },
                (_, SendOutcome::Sent) => *old(self),
                (_, SendOutcome::Full) => App { status: StatusMessage::QueueBusy, ..*old(self) },
                (_, SendOutcome::Closed) => App {
                    status: StatusMessage::RenameUnavailable,
                    ..*old(self)
                },
            },
    {
        match outcome {
            SendOutcome::Sent => {
                let invoker = match &self.overlay {
                    Overlay::RenameInput { invoker, .. } => *invoker,
                    _ => return ,
                };
                self.focus = invoker;
                self.overlay = Overlay::Closed;
                self.status = StatusMessage::Renaming;
            },
            SendOutcome::Full => {
                self.status = StatusMessage::QueueBusy;
            },
            SendOutcome::Closed => {
                self.status = StatusMessage::RenameUnavailable;
            },
        }
    }
}

proof fn lemma_session_key(
    sessions: Seq<LspSession>,
    key: crate::lsp::KeyView,
    document: DocumentId,
    i: int,
)
    requires
        0 <= i <= sessions.len(),
    ensures
        i <= session_from(sessions, key, document, i) <= sessions.len(),
        session_from(sessions, key, document, i) < sessions.len() ==> sessions[session_from(
            sessions,
            key,
            document,
            i,
        )].key@ == key,
    decreases sessions.len() - i,
{
    if i < sessions.len() && !(sessions[i].key@ == key && sessions[i].document_id == document) {
        lemma_session_key(sessions, key, document, i + 1);
    }
}

/// A request shows its server the document that is shown, as it is: it goes to a session
/// for that document whose service is ready, with what is asked for and where, and for
/// the revision and text that the server was told last, which are those of the document.
pub proof fn requests_show_the_document_as_it_is(
    app: App,
    kind: LspProviderKind,
    position: LspPosition,
    command: (usize, LspSessionCommand),
    i: int,
)
    requires
        provider_fault(app) is None,
        provider_asked(app, kind, position, command),
        is_shown(app, i),
    ensures
        command.0 < app.services.sessions@.len(),
        ({
            let s = app.services.sessions@[command.0 as int];
            &&& Some(s.document_id) == app.current_doc
            &&& service_is_current(app, s.key@)
            &&& keyed(app.services.states@, s.key@) == Some(LanguageServiceState::Ready)
            &&& command.1 matches LspSessionCommand::Provider { kind: k, snapshot, position: p } && k
                == kind && p == position && snapshot.revision == app.buffers@[i]@.revision
                && snapshot.ledger@.authority == s.key@.authority && snapshot.ledger@.context
                == s.key@.execution_context && app.buffers@[i]@.ledgers.contains(snapshot.ledger@)
                && snapshot.uri@ == document_uri(app.buffers@[i]@) && snapshot.config_digest
                == s.config_digest
        }),
{
    lemma_shown(app, i);
    lemma_current_session(app, app.current_doc->0, 0);
    let s = app.services.sessions@[command.0 as int];
    lemma_ledger_from(
        app.buffers@[i]@.ledgers,
        s.key@.authority,
        s.key@.execution_context,
        0,
    );
}

proof fn lemma_current_session(app: App, document: DocumentId, i: int)
    requires
        0 <= i <= app.services.sessions@.len(),
    ensures
        i <= current_session_from(app, document, i) <= app.services.sessions@.len(),
        current_session_from(app, document, i) < app.services.sessions@.len()
            ==> app.services.sessions@[current_session_from(app, document, i)].document_id
            == document && service_is_current(
            app,
            app.services.sessions@[current_session_from(app, document, i)].key@,
        ),
    decreases app.services.sessions@.len() - i,
{
    if i < app.services.sessions@.len() {
        lemma_current_session(app, document, i + 1);
    }
}

/// No request is made without a document, for a document without a session, or while
/// the server was told another revision than the one that is shown.
pub proof fn requests_need_a_told_document(app: App, i: int)
    ensures
        app.current_doc is None ==> provider_fault(app) is Some,
        app.services.sessions@.len() == 0 ==> provider_fault(app) is Some,
        is_shown(app, i) && (forall|j: int|
            0 <= j < app.buffers@[i]@.ledgers.len() ==> (
            #[trigger] app.buffers@[i]@.ledgers[j]).revision != app.buffers@[i]@.revision)
            ==> provider_fault(app) is Some,
        is_shown(app, i) && (forall|j: int|
            0 <= j < app.services.sessions@.len() ==> Some(
                (#[trigger] app.services.sessions@[j]).document_id,
            ) != app.current_doc) ==> provider_fault(app) is Some,
{
    if is_shown(app, i) {
        lemma_shown(app, i);
        lemma_current_session(app, app.current_doc->0, 0);
        let k = current_session_from(app, app.current_doc->0, 0);
        let s = app.services.sessions@[k];
        lemma_ledger_from(
            app.buffers@[i]@.ledgers,
            s.key@.authority,
            s.key@.execution_context,
            0,
        );
    }
}

/// A rename asks for what was typed: the new name as it stands, at the place and with
/// the preparation that it was opened for, of the session of its document. It is not
/// sent without a name, nor once the document has moved on.
pub proof fn renames_ask_for_what_was_typed(
    app: App,
    command: (usize, LspSessionCommand),
    document_id: DocumentId,
    position: LspPosition,
    preparation: u64,
    new_name: String,
    i: int,
)
    requires
        rename_can_be_sent(app),
        rename_asked(app, command),
        app.overlay matches Overlay::RenameInput {
            document_id: d,
            position: p,
            preparation: t,
            new_name: n,
            ..
        } && d == document_id && p == position && t == preparation && n == new_name,
        0 <= i < app.buffers@.len(),
        app.buffers@[i]@.id == document_id,
        forall|j: int| 0 <= j < i ==> (#[trigger] app.buffers@[j])@.id != document_id,
    ensures
        trimmed(new_name@).len() > 0,
        command.1 matches LspSessionCommand::Rename {
            snapshot,
            preparation: t,
            position: p,
            new_name: n,
        } && t == preparation && p == position && n@ == new_name@ && snapshot.revision
            == app.buffers@[i]@.revision && snapshot.uri@ == document_uri(app.buffers@[i]@),
{
    lemma_buffer_from(app.buffers@, document_id, 0);
}

/// Confirming a rename sends it if and only if it can be sent, and otherwise says why
/// not; without a name it is never sent. The prompt stays until an answer comes.
pub proof fn renames_are_sent_only_with_a_name(
    before: App,
    after: App,
    effects: Effects,
    new_name: String,
)
    requires
        rename_confirmed(before, after, effects),
        before.overlay matches Overlay::RenameInput { new_name: n, .. } && n == new_name,
    ensures
        trimmed(new_name@).len() == 0 ==> effects.follow_up == FollowUp::Nothing && after.status
            == StatusMessage::RenameNeedsName,
        rename_can_be_sent(before) <==> effects.follow_up == FollowUp::SendRename,
        after.overlay == before.overlay,
        after.buffers == before.buffers,
{
}

} // verus!
