//! Language services: which are current, what state they are in, and the sessions
//! with their servers.
use vstd::prelude::*;

use super::editing::{is_shown, lemma_shown};
use super::{
    buffer_at, buffer_of, has_buffer, lemma_buffer_from, selected_authority, ssh_from, App,
    AuthorityConnectionState, AuthorityKind, LanguageServices, LspChange, LspSession,
};
use crate::authority::local::LOCAL_IDENTITY;
use crate::authority::ssh::SshAuthority;
use crate::buffer::{
    buffer_edited, fresh_ledger, ledger_from, ledger_of, lemma_ledger_from, Buffer, BufferView,
};
use crate::config::{
    config_digest, first_fitting_server_is_chosen, resolve_language_server, runs_in_context, server_from,
    ResolvedLanguageServerConfig,
};
use crate::document::{backing, language_name, DocumentId, Language, WorkspaceEpoch};
use crate::edit::EditView;
use crate::encoding::{file_url, file_url_of, hyphenated, opt_text, uuid_text};
use crate::lsp::{is_ledger_context, KeyView, LanguageServiceState, LedgerView, SupervisorKey};
use crate::protocol;
use crate::protocol::lsp::{AuthorityIdentity, LspContext};
use crate::protocol::request::{ContextView, EnvironmentEpoch, ExecutionContextV1};
use crate::words::join3;

verus! {

/// Whether a service is one of the selected authority as it is now.
pub open spec fn service_is_current(app: App, key: KeyView) -> bool {
    key.workspace_epoch.0 == app.epoch.0 && match selected_authority(app) {
        None => false,
        Some(a) => match a.kind {
            AuthorityKind::Local => key.authority == LOCAL_IDENTITY@ && key.environment_epoch.0
                == 0,
            AuthorityKind::Ssh => {
                let k = ssh_from(app.ssh_authorities@, a.label@, 0);
                k < app.ssh_authorities@.len() && key.authority
                    == app.ssh_authorities@[k].base.host_id@ && key.environment_epoch
                    == app.ssh_authorities@[k].base.environment_epoch
            },
            AuthorityKind::DevContainer => false,
        },
    }
}

/// The first entry under a key, from index `i` on; the number of entries if there
/// is none.
pub open spec fn keyed_from<V>(entries: Seq<(SupervisorKey, V)>, key: KeyView, i: int) -> int
    decreases entries.len() - i,
{
    if i >= entries.len() {
        entries.len() as int
    } else if entries[i].0@ == key {
        i
    } else {
        keyed_from(entries, key, i + 1)
    }
}

/// The entries with another value under a key.
pub open spec fn keyed_with<V>(
    entries: Seq<(SupervisorKey, V)>,
    key: SupervisorKey,
    value: V,
) -> Seq<(SupervisorKey, V)> {
    let i = keyed_from(entries, key@, 0);
    if i < entries.len() {
        entries.update(i, (entries[i].0, value))
    } else {
        entries.push((key, value))
    }
}

/// The value under a key.
pub open spec fn keyed<V>(entries: Seq<(SupervisorKey, V)>, key: KeyView) -> Option<V> {
    let i = keyed_from(entries, key, 0);
    if i < entries.len() {
        Some(entries[i].1)
    } else {
        None
    }
}

proof fn lemma_keyed_from<V>(entries: Seq<(SupervisorKey, V)>, key: KeyView, i: int)
    requires
        0 <= i <= entries.len(),
    ensures
        i <= keyed_from(entries, key, i) <= entries.len(),
        keyed_from(entries, key, i) < entries.len() ==> entries[keyed_from(entries, key, i)].0@
            == key,
        forall|j: int| i <= j < keyed_from(entries, key, i) ==> (#[trigger] entries[j]).0@ != key,
    decreases entries.len() - i,
{
    if i < entries.len() && entries[i].0@ != key {
        lemma_keyed_from(entries, key, i + 1);
    }
}

proof fn lemma_keyed_is<V>(entries: Seq<(SupervisorKey, V)>, key: KeyView, k: int)
    requires
        0 <= k <= entries.len(),
        k < entries.len() ==> entries[k].0@ == key,
        forall|j: int| 0 <= j < k ==> (#[trigger] entries[j]).0@ != key,
    ensures
        keyed_from(entries, key, 0) == k,
{
    lemma_keyed_from(entries, key, 0);
}

/// What is put under a key is found under it, and nothing under other keys changes.
pub proof fn keyed_values_are_found<V>(
    entries: Seq<(SupervisorKey, V)>,
    key: SupervisorKey,
    value: V,
    other: KeyView,
)
    ensures
        keyed(keyed_with(entries, key, value), key@) == Some(value),
        other != key@ ==> keyed(keyed_with(entries, key, value), other) == keyed(entries, other),
{
    let after = keyed_with(entries, key, value);
    let i = keyed_from(entries, key@, 0);
    lemma_keyed_from(entries, key@, 0);
    assert forall|j: int| 0 <= j < i implies (#[trigger] after[j]).0@ != key@ by {
        assert(after[j] == entries[j]);
    }
    lemma_keyed_is(after, key@, i);
    if other != key@ {
        let k = keyed_from(entries, other, 0);
        lemma_keyed_from(entries, other, 0);
        if k < entries.len() {
            assert forall|j: int| 0 <= j < k implies (#[trigger] after[j]).0@ != other by {
                assert(after[j].0 == entries[j].0);
            }
            assert(after[k] == entries[k]);
            lemma_keyed_is(after, other, k);
        } else {
            assert forall|j: int| 0 <= j < after.len() implies (#[trigger] after[j]).0@
                != other by {
                if j < entries.len() {
                    assert(after[j].0 == entries[j].0);
                }
            }
            lemma_keyed_is(after, other, after.len() as int);
        }
    }
}

fn find_key<V>(entries: &Vec<(SupervisorKey, V)>, key: &SupervisorKey) -> (i: usize)
    ensures
        i == keyed_from(entries@, key@, 0),
        i <= entries@.len(),
{
    let mut i: usize = 0;
    while i < entries.len()
        invariant
            i <= entries@.len(),
            keyed_from(entries@, key@, 0) == keyed_from(entries@, key@, i as int),
        decreases entries@.len() - i,
    {
        if entries[i].0.same(key) {
            return i;
        }
        i += 1;
    }
    i
}

fn put_keyed<V>(entries: &mut Vec<(SupervisorKey, V)>, key: SupervisorKey, value: V)
    ensures
        final(entries)@ == keyed_with(old(entries)@, key, value),
{
    let i: usize = find_key(entries, &key);
    if i < entries.len() {
        let held = entries[i].0.clone();
        entries.set(i, (held, value));
    } else {
        entries.push((key, value));
    }
}

/// A change in a language service that its supervisor reports.
#[derive(Debug, PartialEq, Eq)]
#[allow(inconsistent_fields)]
pub enum SupervisorEvent {
    StateChanged { key: SupervisorKey, state: LanguageServiceState },
    DiagnosticsCountChanged { key: SupervisorKey, count: usize },
}

/// The states of all services in one word, the one that needs most attention
/// first.
#[derive(Clone, Copy, Debug, PartialEq, Eq, Structural)]
pub enum ServiceLevel {
    Failed,
    VersionMismatch,
    NotFound,
    Blocked,
    Starting,
    Ready,
    Idle,
}

/// The level of a state.
pub open spec fn level_of(state: LanguageServiceState) -> ServiceLevel {
    match state {
        LanguageServiceState::Failed { .. } => ServiceLevel::Failed,
        LanguageServiceState::VersionMismatch { .. } => ServiceLevel::VersionMismatch,
        LanguageServiceState::NotFound { .. } => ServiceLevel::NotFound,
        LanguageServiceState::Blocked { .. } => ServiceLevel::Blocked,
        LanguageServiceState::Starting => ServiceLevel::Starting,
        LanguageServiceState::Ready => ServiceLevel::Ready,
    }
}

/// The order of levels: the one that needs most attention first.
pub open spec fn level_rank(level: ServiceLevel) -> int {
    match level {
        ServiceLevel::Failed => 0,
        ServiceLevel::VersionMismatch => 1,
        ServiceLevel::NotFound => 2,
        ServiceLevel::Blocked => 3,
        ServiceLevel::Starting => 4,
        ServiceLevel::Ready => 5,
        ServiceLevel::Idle => 6,
    }
}

fn rank(level: ServiceLevel) -> (n: u8)
    ensures
        n == level_rank(level),
{
    match level {
        ServiceLevel::Failed => 0,
        ServiceLevel::VersionMismatch => 1,
        ServiceLevel::NotFound => 2,
        ServiceLevel::Blocked => 3,
        ServiceLevel::Starting => 4,
        ServiceLevel::Ready => 5,
        ServiceLevel::Idle => 6,
    }
}

fn level(state: &LanguageServiceState) -> (l: ServiceLevel)
    ensures
        l == level_of(*state),
{
    match state {
        LanguageServiceState::Failed { .. } => ServiceLevel::Failed,
        LanguageServiceState::VersionMismatch { .. } => ServiceLevel::VersionMismatch,
        LanguageServiceState::NotFound { .. } => ServiceLevel::NotFound,
        LanguageServiceState::Blocked { .. } => ServiceLevel::Blocked,
        LanguageServiceState::Starting => ServiceLevel::Starting,
        LanguageServiceState::Ready => ServiceLevel::Ready,
    }
}

/// The most urgent level of several states.
pub open spec fn summary(states: Seq<(SupervisorKey, LanguageServiceState)>) -> ServiceLevel
    decreases states.len(),
{
    if states.len() == 0 {
        ServiceLevel::Idle
    } else {
        let rest = summary(states.drop_last());
        let last = level_of(states.last().1);
        if level_rank(last) < level_rank(rest) {
            last
        } else {
            rest
        }
    }
}

/// The sum of several counts, as far as a machine word can hold it.
pub open spec fn total_count(counts: Seq<(SupervisorKey, usize)>) -> int
    decreases counts.len(),
{
    if counts.len() == 0 {
        0
    } else {
        let sum = total_count(counts.drop_last()) + counts.last().1;
        if sum <= usize::MAX {
            sum
        } else {
            usize::MAX as int
        }
    }
}

/// The URL of a file, or a URI made of the identifier of a document.
pub open spec fn url_or_id(url: Option<Seq<char>>, id: DocumentId) -> Seq<char> {
    match url {
        Some(text) => text,
        None => "untitled:DocumentId("@ + hyphenated(id.0) + ")"@,
    }
}

/// The URI of a document: that of its file, or one made of its identifier.
pub open spec fn document_uri(b: BufferView) -> Seq<char> {
    url_or_id(
        match backing(b.path_state) {
            Some(path) => file_url_of(path@),
            None => None,
        },
        b.id,
    )
}

/// The URL of a file, or a URI made of the identifier of a document.
pub fn uri_or_untitled(url: Option<String>, id: DocumentId) -> (uri: String)
    ensures
        uri@ == url_or_id(opt_text(url), id),
{
    match url {
        Some(text) => text,
        None => join3("untitled:DocumentId(", uuid_text(id.0).as_str(), ")"),
    }
}

/// The URI of a document.
pub fn uri_of(buffer: &Buffer) -> (uri: String)
    ensures
        uri@ == document_uri(buffer@),
{
    let url: Option<String> = match buffer.path() {
        Some(path) => file_url(path.as_str()),
        None => None,
    };
    uri_or_untitled(url, buffer.id())
}

/// The first session of a service for a document, from index `i` on; the number of
/// sessions if there is none.
pub open spec fn session_from(
    sessions: Seq<LspSession>,
    key: KeyView,
    document: DocumentId,
    i: int,
) -> int
    decreases sessions.len() - i,
{
    if i >= sessions.len() {
        sessions.len() as int
    } else if sessions[i].key@ == key && sessions[i].document_id == document {
        i
    } else {
        session_from(sessions, key, document, i + 1)
    }
}

/// Whether a change tells a server what its ledger says of a document.
pub open spec fn is_change(change: LspChange, b: BufferView, ledger: LedgerView) -> bool {
    &&& is_ledger_context(change.context, ledger)
    &&& change.uri@ == document_uri(b)
    &&& change.version == ledger.sent_version
    &&& change.text@ == ledger.text
}

/// How a message to a session went.
#[derive(Clone, Copy, Debug, PartialEq, Eq, Structural)]
pub enum SendOutcome {
    Sent,
    Full,
    Closed,
}

/// What is to be done to start the language service of the document that is shown.
#[derive(Debug, PartialEq, Eq)]
#[allow(inconsistent_fields)]
pub enum ServicePlan {
    /// Nothing: no document, or no connection.
    Nothing,
    /// No server is configured for the document.
    NotConfigured { key: SupervisorKey },
    /// The server is to be started, by the selected authority.
    Start {
        key: SupervisorKey,
        document_id: DocumentId,
        config: ResolvedLanguageServerConfig,
    },
}

/// The identity and the environment of the selected authority for its services.
pub open spec fn service_host(app: App) -> (Seq<char>, EnvironmentEpoch) {
    match selected_authority(app) {
        Some(a) => if a.kind == AuthorityKind::Ssh {
            let k = ssh_from(app.ssh_authorities@, a.label@, 0);
            if k < app.ssh_authorities@.len() {
                (
                    app.ssh_authorities@[k].base.host_id@,
                    app.ssh_authorities@[k].base.environment_epoch,
                )
            } else {
                ("ssh"@, EnvironmentEpoch(0))
            }
        } else {
            (LOCAL_IDENTITY@, EnvironmentEpoch(0))
        },
        None => (LOCAL_IDENTITY@, EnvironmentEpoch(0)),
    }
}

/// The key of the service of a document.
pub open spec fn service_key(app: App, language: Language) -> KeyView {
    KeyView {
        workspace_epoch: protocol::request::WorkspaceEpoch(app.epoch.0),
        environment_epoch: service_host(app).1,
        authority: service_host(app).0,
        execution_context: ContextView::AuthorityRoot,
        language,
    }
}

/// Whether the selected authority is reached over SSH and not connected.
pub open spec fn waits_for_connection(app: App) -> bool {
    selected_authority(app) is Some && selected_authority(app)->0.kind == AuthorityKind::Ssh
        && selected_authority(app)->0.connection != AuthorityConnectionState::Connected
}

/// Whether there is an authority behind the selected one that can run a server.
pub open spec fn has_host(app: App) -> bool {
    match selected_authority(app) {
        Some(a) => match a.kind {
            AuthorityKind::Local => app.local_authority is Some,
            AuthorityKind::Ssh => ssh_from(app.ssh_authorities@, a.label@, 0)
                < app.ssh_authorities@.len(),
            AuthorityKind::DevContainer => false,
        },
        None => false,
    }
}

/// What is to be done to start the language service of the document that is shown.
pub open spec fn service_planned(app: App, plan: ServicePlan) -> bool {
    if app.current_doc is None || !has_buffer(app, app.current_doc->0) || waits_for_connection(
        app,
    ) {
        plan == ServicePlan::Nothing
    } else {
        let id = app.current_doc->0;
        let b = buffer_of(app, id);
        let path = match backing(b.path_state) {
            Some(p) => Some(p@),
            None => None,
        };
        let i = server_from(app.services.servers@, language_name(b.language), path, 0);
        if i >= app.services.servers@.len() {
            plan matches ServicePlan::NotConfigured { key } && key@ == service_key(app, b.language)
        } else if !has_host(app) {
            plan == ServicePlan::Nothing
        } else {
            plan matches ServicePlan::Start { key, document_id, config } && key@ == service_key(
                app,
                b.language,
            ) && document_id == id && config.id == app.services.servers@[i].id && runs_in_context(
                config.effective,
                app.services.servers@[i],
                ContextView::AuthorityRoot,
            ) && config.digest@ == config_digest(app.services.serialized@[i]@)
        }
    }
}

/// What a server is told when a session is opened for a document.
#[derive(Debug, PartialEq, Eq)]
pub struct OpenedSession {
    pub context: LspContext,
    pub uri: String,
    pub language_id: String,
    pub text: String,
}

/// The number of the next session of a document with a server.
pub open spec fn next_generation(b: BufferView, key: KeyView) -> int {
    match ledger_of(b.ledgers, key.authority, key.execution_context) {
        Some(l) => l.session_generation + 1,
        None => 1,
    }
}

/// Whether the session of a service for a document was taken away.
pub open spec fn session_superseded(
    before: App,
    key: KeyView,
    document: DocumentId,
    after: App,
    context: Option<LspContext>,
) -> bool {
    let i = session_from(before.services.sessions@, key, document, 0);
    &&& after == App {
        services: LanguageServices { sessions: after.services.sessions, ..before.services },
        ..before
    }
    &&& if i < before.services.sessions@.len() {
        &&& context == Some(before.services.sessions@[i].context)
        &&& after.services.sessions@ == before.services.sessions@.remove(i)
    } else {
        context is None && after.services.sessions == before.services.sessions
    }
}

/// Whether a session of a service was opened for a document: its ledger starts anew,
/// and the text is told as it is.
pub open spec fn session_opened(
    before: App,
    key: KeyView,
    document: DocumentId,
    after: App,
    opened: Option<OpenedSession>,
) -> bool {
    &&& after == App { buffers: after.buffers, ..before }
    &&& if has_buffer(before, document) {
        let i = buffer_at(before, document);
        let b = before.buffers@[i]@;
        let ledger = fresh_ledger(
            b,
            key.authority,
            key.execution_context,
            next_generation(b, key) as u64,
            before.epoch,
            key.environment_epoch,
        );
        let j = ledger_from(b.ledgers, key.authority, key.execution_context, 0);
        &&& opened is Some
        &&& is_ledger_context(opened->0.context, ledger)
        &&& opened->0.uri@ == document_uri(b)
        &&& opened->0.language_id@ == language_name(b.language)
        &&& opened->0.text@ == b.text
        &&& after.buffers@ == before.buffers@.update(i, after.buffers@[i])
        &&& after.buffers@[i]@ == (BufferView {
            ledgers: if j < b.ledgers.len() {
                b.ledgers.update(j, ledger)
            } else {
                b.ledgers.push(ledger)
            },
            ..b
        })
    } else {
        opened is None && after == before
    }
}

impl App {
    /// Whether a service is one of the selected authority as it is now.
    pub fn is_current_language_service_context(&self, key: &SupervisorKey) -> (yes: bool)
        ensures
            yes == service_is_current(*self, key@),
    {
        if key.workspace_epoch.0 != self.epoch.0 {
            return false;
        }
        if self.current_authority >= self.authorities.len() {
            return false;
        }
        let current = &self.authorities[self.current_authority];
        match current.kind {
            AuthorityKind::Local => crate::text::str_eq(
                key.authority_identity.0.as_str(),
                LOCAL_IDENTITY,
            ) && key.environment_epoch.0 == 0,
            AuthorityKind::Ssh => {
                let k: usize = self.find_ssh(&current.label);
                k < self.ssh_authorities.len() && key.authority_identity.0
                    == self.ssh_authorities[k].base.host_id && key.environment_epoch
                    == self.ssh_authorities[k].base.environment_epoch
            },
            AuthorityKind::DevContainer => false,
        }
    }

    /// Takes note of the state of a service.
    pub fn record_language_service_state(&mut self, key: SupervisorKey, state: LanguageServiceState)
        ensures
            *final(self) == (App {
                services: LanguageServices {
                    states: final(self).services.states,
                    ..old(self).services
                },
                ..*old(self)
            }),
            final(self).services.states@ == keyed_with(old(self).services.states@, key, state),
    {
        put_keyed(&mut self.services.states, key, state);
    }

    /// Takes note of how many problems a service found, no more than may be.
    pub fn record_language_diagnostic_count(&mut self, key: SupervisorKey, count: usize)
        ensures
            *final(self) == (App {
                services: LanguageServices {
                    counts: final(self).services.counts,
                    ..old(self).services
                },
                ..*old(self)
            }),
            final(self).services.counts@ == keyed_with(
                old(self).services.counts@,
                key,
                if count <= old(self).services.max_diagnostics {
                    count
                } else {
                    old(self).services.max_diagnostics
                },
            ),
    {
        let bounded: usize = if count <= self.services.max_diagnostics {
            count
        } else {
            self.services.max_diagnostics
        };
        put_keyed(&mut self.services.counts, key, bounded);
    }

    /// Takes note of a change in a service, unless it is not a current one.
    pub fn apply_language_service_event(&mut self, event: SupervisorEvent)
        ensures
            match event {
                SupervisorEvent::StateChanged { key, state } => if service_is_current(
                    *old(self),
                    key@,
                ) {
                    &&& *final(self) == (App {
                        services: LanguageServices {
                            states: final(self).services.states,
                            ..old(self).services
                        },
                        ..*old(self)
                    })
                    &&& final(self).services.states@ == keyed_with(
                        old(self).services.states@,
                        key,
                        state,
                    )
                } else {
                    *final(self) == *old(self)
                },
                SupervisorEvent::DiagnosticsCountChanged { key, count } => if service_is_current(
                    *old(self),
                    key@,
                ) {
                    &&& *final(self) == (App {
                        services: LanguageServices {
                            counts: final(self).services.counts,
                            ..old(self).services
                        },
                        ..*old(self)
                    })
                    &&& final(self).services.counts@ == keyed_with(
                        old(self).services.counts@,
                        key,
                        if count <= old(self).services.max_diagnostics {
                            count
                        } else {
                            old(self).services.max_diagnostics
                        },
                    )
                } else {
                    *final(self) == *old(self)
                },
            },
    {
        match event {
            SupervisorEvent::StateChanged { key, state } => {
                if self.is_current_language_service_context(&key) {
                    self.record_language_service_state(key, state);
                }
            },
            SupervisorEvent::DiagnosticsCountChanged { key, count } => {
                if self.is_current_language_service_context(&key) {
                    self.record_language_diagnostic_count(key, count);
                }
            },
        }
    }

    /// The state of a service.
    pub fn language_service_state(&self, key: &SupervisorKey) -> (state: Option<
        &LanguageServiceState,
    >)
        ensures
            match state {
                Some(s) => keyed(self.services.states@, key@) == Some(*s),
                None => keyed(self.services.states@, key@) is None,
            },
    {
        let i: usize = find_key(&self.services.states, key);
        if i < self.services.states.len() {
            Some(&self.services.states[i].1)
        } else {
            None
        }
    }

    /// The states of all services in one word.
    pub fn language_service_summary(&self) -> (l: ServiceLevel)
        ensures
            l == summary(self.services.states@),
    {
        let mut worst = ServiceLevel::Idle;
        for i in 0..self.services.states.len()
            invariant
                worst == summary(self.services.states@.take(i as int)),
        {
            let next = level(&self.services.states[i].1);
            if rank(next) < rank(worst) {
                worst = next;
            }
            assert(self.services.states@.take(i + 1).drop_last() =~= self.services.states@.take(
                i as int,
            ));
        }
        assert(self.services.states@.take(self.services.states@.len() as int)
            =~= self.services.states@);
        worst
    }

    /// The number of problems that all services found.
    pub fn normalized_diagnostic_count(&self) -> (n: usize)
        ensures
            n == total_count(self.services.counts@),
    {
        let mut n: usize = 0;
        for i in 0..self.services.counts.len()
            invariant
                n == total_count(self.services.counts@.take(i as int)),
        {
            n = n.saturating_add(self.services.counts[i].1);
            assert(self.services.counts@.take(i + 1).drop_last() =~= self.services.counts@.take(
                i as int,
            ));
        }
        assert(self.services.counts@.take(self.services.counts@.len() as int)
            =~= self.services.counts@);
        n
    }

    /// The place of the session of a service for a document.
    pub(crate) fn find_session(&self, key: &SupervisorKey, document: DocumentId) -> (i: usize)
        ensures
            i == session_from(self.services.sessions@, key@, document, 0),
            i <= self.services.sessions@.len(),
    {
        let mut i: usize = 0;
        while i < self.services.sessions.len()
            invariant
                i <= self.services.sessions@.len(),
                session_from(self.services.sessions@, key@, document, 0) == session_from(
                    self.services.sessions@,
                    key@,
                    document,
                    i as int,
                ),
            decreases self.services.sessions@.len() - i,
        {
            if self.services.sessions[i].document_id == document && self.services.sessions[i].key.same(
                key,
            ) {
                return i;
            }
            i += 1;
        }
        i
    }

    /// What is to be done to start the language service of the document that is
    /// shown.
    pub fn service_plan(&self) -> (plan: ServicePlan)
        requires
            self.wf(),
        ensures
            service_planned(*self, plan),
    {
        let document_id = match self.current_doc {
            Some(id) => id,
            None => return ServicePlan::Nothing,
        };
        let b: usize = self.find_buffer(document_id);
        if b >= self.buffers.len() {
            return ServicePlan::Nothing;
        }
        let current = &self.authorities[self.current_authority];
        if current.kind == AuthorityKind::Ssh && current.connection
            != AuthorityConnectionState::Connected {
            return ServicePlan::Nothing;
        }
        let k: usize = self.find_ssh(&current.label);
        let over_ssh = current.kind == AuthorityKind::Ssh;
        let (identity, environment_epoch): (String, EnvironmentEpoch) = if over_ssh {
            if k < self.ssh_authorities.len() {
                (
                    self.ssh_authorities[k].base.host_id.clone(),
                    self.ssh_authorities[k].base.environment_epoch,
                )
            } else {
                ("ssh".to_owned(), EnvironmentEpoch(0))
            }
        } else {
            (LOCAL_IDENTITY.to_owned(), EnvironmentEpoch(0))
        };
        let language = self.buffers[b].language();
        let key = SupervisorKey::new(
            protocol::request::WorkspaceEpoch(self.epoch.0),
            environment_epoch,
            AuthorityIdentity(identity),
            ExecutionContextV1::AuthorityRoot,
            language,
        );
        match resolve_language_server(
            &self.services.servers,
            &self.services.serialized,
            language.as_str(),
            self.buffers[b].path(),
            &ExecutionContextV1::AuthorityRoot,
        ) {
            None => ServicePlan::NotConfigured { key },
            Some(config) => {
                let host = match current.kind {
                    AuthorityKind::Local => self.local_authority.is_some(),
                    AuthorityKind::Ssh => k < self.ssh_authorities.len(),
                    AuthorityKind::DevContainer => false,
                };
                if host {
                    ServicePlan::Start { key, document_id, config }
                } else {
                    ServicePlan::Nothing
                }
            },
        }
    }

    /// Takes the session of a service for a document away, which a new one is to
    /// follow, and gives its context.
    pub fn supersede_session(&mut self, key: &SupervisorKey, document: DocumentId) -> (context:
        Option<LspContext>)
        ensures
            session_superseded(*old(self), key@, document, *final(self), context),
    {
        let i: usize = self.find_session(key, document);
        if i < self.services.sessions.len() {
            let session = self.services.sessions.remove(i);
            Some(session.context)
        } else {
            None
        }
    }

    /// Opens a session of a service for a document: the ledger starts anew, and the
    /// server is told the text as it is. Without a buffer nothing is opened.
    pub fn open_session(&mut self, key: &SupervisorKey, document: DocumentId) -> (opened: Option<
        OpenedSession,
    >)
        requires
            old(self).wf(),
            has_buffer(*old(self), document) ==> next_generation(
                buffer_of(*old(self), document),
                key@,
            ) <= u64::MAX,
        ensures
            final(self).wf(),
            session_opened(*old(self), key@, document, *final(self), opened),
    {
        let i: usize = self.find_buffer(document);
        if i >= self.buffers.len() {
            return None;
        }
        let ghost buffers = self.buffers@;
        let epoch: WorkspaceEpoch = self.epoch;
        let uri = uri_of(&self.buffers[i]);
        let language_id = self.buffers[i].language().as_str().to_owned();
        let ledger = self.buffers[i].reset_lsp_session(
            key.authority_identity.clone(),
            key.execution_context.clone(),
            epoch,
            key.environment_epoch,
        );
        assert(self.buffers@ =~= buffers.update(i as int, self.buffers@[i as int]));
        let context = ledger.message_context();
        Some(OpenedSession { context, uri, language_id, text: ledger.text })
    }

    /// Keeps a session that was opened.
    pub fn commit_session(
        &mut self,
        key: SupervisorKey,
        document_id: DocumentId,
        context: LspContext,
        config_digest: String,
    )
        ensures
            *final(self) == (App {
                services: LanguageServices {
                    sessions: final(self).services.sessions,
                    ..old(self).services
                },
                ..*old(self)
            }),
            final(self).services.sessions@ == old(self).services.sessions@.push(
                (LspSession {
                    key,
                    document_id,
                    context,
                    pending_change: None,
                    config_digest,
                }),
            ),
    {
        self.services.sessions.push(
            LspSession { key, document_id, context, pending_change: None, config_digest },
        );
    }

    /// The change that the session at a place has to be told of, if its document has
    /// a ledger for it.
    pub fn change_for(&self, session: usize) -> (change: Option<LspChange>)
        requires
            session < self.services.sessions@.len(),
        ensures
            ({
                let s = self.services.sessions@[session as int];
                let b = buffer_of(*self, s.document_id);
                let ledger = ledger_of(b.ledgers, s.key@.authority, s.key@.execution_context);
                if self.current_doc == Some(s.document_id) && has_buffer(*self, s.document_id)
                    && ledger is Some {
                    change is Some && is_change(change->0, b, ledger->0)
                } else {
                    change is None
                }
            }),
    {
        let s = &self.services.sessions[session];
        let shown = match self.current_doc {
            Some(id) => id == s.document_id,
            None => false,
        };
        if !shown {
            return None;
        }
        let i: usize = self.find_buffer(s.document_id);
        if i >= self.buffers.len() {
            return None;
        }
        match self.buffers[i].lsp_ledger(&s.key.authority_identity, &s.key.execution_context) {
            None => None,
            Some(ledger) => Some(
                LspChange {
                    context: ledger.message_context(),
                    uri: uri_of(&self.buffers[i]),
                    version: ledger.sent_version,
                    text: ledger.text.clone(),
                },
            ),
        }
    }

    fn set_pending_change(&mut self, session: usize, pending_change: Option<LspChange>)
        requires
            session < old(self).services.sessions@.len(),
        ensures
            *final(self) == (App {
                services: LanguageServices {
                    sessions: final(self).services.sessions,
                    ..old(self).services
                },
                ..*old(self)
            }),
            final(self).services.sessions@ == old(self).services.sessions@.update(
                session as int,
                (LspSession {
                    pending_change,
                    ..old(self).services.sessions@[session as int]
                }),
            ),
    {
        let ghost before = self.services.sessions@;
        self.services.sessions[session].pending_change = pending_change;
        assert(self.services.sessions@ =~= before.update(
            session as int,
            (LspSession { pending_change, ..before[session as int] }),
        ));
    }

    /// Takes note of how a change went that was handed to a session: one that it had
    /// no room for waits, in place of an older one.
    pub fn change_handed_over(&mut self, session: usize, change: LspChange, outcome: SendOutcome)
        requires
            session < old(self).services.sessions@.len(),
        ensures
            *final(self) == (App {
                services: LanguageServices {
                    sessions: final(self).services.sessions,
                    ..old(self).services
                },
                ..*old(self)
            }),
            final(self).services.sessions@ == match outcome {
                SendOutcome::Sent => old(self).services.sessions@,
                SendOutcome::Full => old(self).services.sessions@.update(
                    session as int,
                    (LspSession {
                        pending_change: Some(change),
                        ..old(self).services.sessions@[session as int]
                    }),
                ),
                SendOutcome::Closed => old(self).services.sessions@.update(
                    session as int,
                    (LspSession {
                        pending_change: None,
                        ..old(self).services.sessions@[session as int]
                    }),
                ),
            },
    {
        match outcome {
            SendOutcome::Sent => {},
            SendOutcome::Full => self.set_pending_change(session, Some(change)),
            SendOutcome::Closed => self.set_pending_change(session, None),
        }
    }

    /// Takes note of whether a change that waited could be handed over.
    pub fn pending_change_offered(&mut self, session: usize, taken: bool)
        requires
            session < old(self).services.sessions@.len(),
        ensures
            *final(self) == (App {
                services: LanguageServices {
                    sessions: final(self).services.sessions,
                    ..old(self).services
                },
                ..*old(self)
            }),
            final(self).services.sessions@ == if taken {
                old(self).services.sessions@.update(
                    session as int,
                    (LspSession {
                        pending_change: None,
                        ..old(self).services.sessions@[session as int]
                    }),
                )
            } else {
                old(self).services.sessions@
            },
    {
        if taken {
            self.set_pending_change(session, None);
        }
    }
}

/// The states of all services are summed up by one of them, and none needs more
/// attention than that one: a failure counts before a mismatch of versions, then what
/// was not found, what is blocked, what starts, and what is ready.
pub proof fn summaries_show_the_most_urgent_state(
    states: Seq<(SupervisorKey, LanguageServiceState)>,
)
    ensures
        states.len() == 0 ==> summary(states) == ServiceLevel::Idle,
        states.len() > 0 ==> exists|i: int|
            0 <= i < states.len() && summary(states) == level_of((#[trigger] states[i]).1),
        forall|i: int|
            0 <= i < states.len() ==> level_rank(summary(states)) <= level_rank(
                level_of((#[trigger] states[i]).1),
            ),
        (exists|i: int| 0 <= i < states.len() && (#[trigger] states[i]).1 is Failed) ==> summary(
            states,
        ) == ServiceLevel::Failed,
        (forall|i: int| 0 <= i < states.len() ==> (#[trigger] states[i]).1 is Ready) && states.len()
            > 0 ==> summary(states) == ServiceLevel::Ready,
        summary(states) == ServiceLevel::Ready ==> forall|i: int|
            0 <= i < states.len() ==> (#[trigger] states[i]).1 is Ready,
        summary(states) == ServiceLevel::Starting ==> forall|i: int|
            0 <= i < states.len() ==> (#[trigger] states[i]).1 is Ready || states[i].1 is Starting,
    decreases states.len(),
{
    if states.len() > 0 {
        let front = states.drop_last();
        summaries_show_the_most_urgent_state(front);
        let n = states.len() - 1;
        assert forall|i: int| 0 <= i < states.len() implies level_rank(summary(states))
            <= level_rank(level_of((#[trigger] states[i]).1)) by {
            if i < n {
                assert(front[i] == states[i]);
            }
        }
        if front.len() > 0 {
            let i = choose|i: int|
                0 <= i < front.len() && summary(front) == level_of((#[trigger] front[i]).1);
            assert(states[i] == front[i]);
        }
        assert(states[n] == states.last());
    }
}

/// The diagnostics of all services are counted together: the counts of two lists of
/// services add up, as far as a machine word can hold the sum.
pub proof fn counts_add_up(counts: Seq<(SupervisorKey, usize)>, one: (SupervisorKey, usize))
    ensures
        total_count(Seq::<(SupervisorKey, usize)>::empty()) == 0,
        total_count(counts) + one.1 <= usize::MAX ==> total_count(counts.push(one)) == total_count(
            counts,
        ) + one.1,
        total_count(counts) + one.1 > usize::MAX ==> total_count(counts.push(one)) == usize::MAX,
{
    assert(counts.push(one).drop_last() =~= counts);
}

/// A service counts only while the workspace, the authority and its environment are
/// those that it was started for.
pub proof fn services_end_with_their_epoch(app: App, key: KeyView)
    requires
        app.wf(),
        service_is_current(app, key),
    ensures
        key.workspace_epoch.0 == app.epoch.0,
        app.authorities@[app.current_authority as int].kind != AuthorityKind::DevContainer,
        app.authorities@[app.current_authority as int].kind == AuthorityKind::Local
            ==> key.authority == LOCAL_IDENTITY@ && key.environment_epoch.0 == 0,
        app.authorities@[app.current_authority as int].kind == AuthorityKind::Ssh ==> exists|k: int|
            0 <= k < app.ssh_authorities@.len() && (
            #[trigger] app.ssh_authorities@[k]).base.label@
                == app.authorities@[app.current_authority as int].label@ && key.authority
                == app.ssh_authorities@[k].base.host_id@ && key.environment_epoch
                == app.ssh_authorities@[k].base.environment_epoch,
{
    let a = app.authorities@[app.current_authority as int];
    lemma_ssh_from(app.ssh_authorities@, a.label@, 0);
}

proof fn lemma_ssh_from(authorities: Seq<SshAuthority>, label: Seq<char>, i: int)
    requires
        0 <= i <= authorities.len(),
    ensures
        i <= ssh_from(authorities, label, i) <= authorities.len(),
        ssh_from(authorities, label, i) < authorities.len() ==> authorities[ssh_from(
            authorities,
            label,
            i,
        )].base.label@ == label,
    decreases authorities.len() - i,
{
    if i < authorities.len() && authorities[i].base.label@ != label {
        lemma_ssh_from(authorities, label, i + 1);
    }
}

/// A session tells its server the text of the document as it is, under its URI and
/// language, and under a number that is higher than that of the session before; the
/// ledger of that server starts anew with the same text and revision. The ledgers of
/// other servers, the text and the other documents stay.
pub proof fn opened_sessions_tell_the_text(
    before: App,
    key: KeyView,
    document: DocumentId,
    after: App,
    opened: Option<OpenedSession>,
    i: int,
    j: int,
)
    requires
        session_opened(before, key, document, after, opened),
        0 <= i < before.buffers@.len(),
        before.buffers@[i]@.id == document,
        forall|n: int| 0 <= n < i ==> (#[trigger] before.buffers@[n])@.id != document,
        0 <= j < before.buffers@[i]@.ledgers.len(),
    ensures
        opened matches Some(o) && o.text@ == before.buffers@[i]@.text && o.uri@ == document_uri(
            before.buffers@[i]@,
        ),
        after.buffers@[i]@.text == before.buffers@[i]@.text,
        after.buffers@[i]@.revision == before.buffers@[i]@.revision,
        after.buffers@[i]@.dirty == before.buffers@[i]@.dirty,
        !(before.buffers@[i]@.ledgers[j].authority == key.authority
            && before.buffers@[i]@.ledgers[j].context == key.execution_context)
            ==> after.buffers@[i]@.ledgers[j] == before.buffers@[i]@.ledgers[j],
        ledger_of(after.buffers@[i]@.ledgers, key.authority, key.execution_context) matches Some(l)
            && l.text == before.buffers@[i]@.text && l.revision == before.buffers@[i]@.revision
            && l.sent_version == 0,
        ledger_of(
            before.buffers@[i]@.ledgers,
            key.authority,
            key.execution_context,
        ) matches Some(old_ledger) ==> (old_ledger.session_generation < u64::MAX ==> (ledger_of(
            after.buffers@[i]@.ledgers,
            key.authority,
            key.execution_context,
        ) matches Some(l) && l.session_generation == old_ledger.session_generation + 1)),
{
    lemma_buffer_from(before.buffers@, document, 0);
    let b = before.buffers@[i]@;
    let now = after.buffers@[i]@.ledgers;
    lemma_ledger_from(b.ledgers, key.authority, key.execution_context, 0);
    let at = ledger_from(b.ledgers, key.authority, key.execution_context, 0);
    assert forall|n: int| 0 <= n < at implies !((#[trigger] now[n]).authority == key.authority
        && now[n].context == key.execution_context) by {
        assert(now[n] == b.ledgers[n]);
    }
    assert(now[at].authority == key.authority && now[at].context == key.execution_context);
    lemma_ledger_from(now, key.authority, key.execution_context, 0);
    assert(ledger_from(now, key.authority, key.execution_context, 0) == at);
}

/// Superseding a session takes away that session and hands out its context; the other
/// sessions stay in their order.
pub proof fn superseding_takes_one_session(
    before: App,
    key: KeyView,
    document: DocumentId,
    after: App,
    context: Option<LspContext>,
)
    requires
        session_superseded(before, key, document, after, context),
    ensures
        (forall|i: int|
            0 <= i < before.services.sessions@.len() ==> !((
            #[trigger] before.services.sessions@[i]).key@ == key
                && before.services.sessions@[i].document_id == document)) ==> context is None
            && after.services.sessions@ == before.services.sessions@,
        context matches Some(c) ==> after.services.sessions@.len()
            == before.services.sessions@.len() - 1 && exists|i: int|
            0 <= i < before.services.sessions@.len() && (
            #[trigger] before.services.sessions@[i]).key@ == key
                && before.services.sessions@[i].document_id == document
                && before.services.sessions@[i].context == c && after.services.sessions@
                == before.services.sessions@.remove(i),
        context is None ==> after.services.sessions@ == before.services.sessions@,
        after.buffers == before.buffers,
{
    lemma_session_from(before.services.sessions@, key, document, 0);
    let i = session_from(before.services.sessions@, key, document, 0);
    if i < before.services.sessions@.len() {
        assert(before.services.sessions@[i].key@ == key);
    }
}

proof fn lemma_session_from(
    sessions: Seq<LspSession>,
    key: KeyView,
    document: DocumentId,
    i: int,
)
    requires
        0 <= i <= sessions.len(),
    ensures
        i <= session_from(sessions, key, document, i) <= sessions.len(),
        session_from(sessions, key, document, i) < sessions.len() ==> sessions[session_from(
            sessions,
            key,
            document,
            i,
        )].key@ == key && sessions[session_from(sessions, key, document, i)].document_id
            == document,
    decreases sessions.len() - i,
{
    if i < sessions.len() && !(sessions[i].key@ == key && sessions[i].document_id == document) {
        lemma_session_from(sessions, key, document, i + 1);
    }
}

/// The service that is started is that of the document that is shown: under its
/// language, the epoch of the workspace and the identity of the selected authority, with
/// the first configured server that fits it. Without a document, or while a connection
/// is waited for, none is.
pub proof fn started_services_fit_the_document(app: App, plan: ServicePlan, i: int)
    requires
        app.wf(),
        service_planned(app, plan),
    ensures
        app.current_doc is None ==> plan == ServicePlan::Nothing,
        plan matches ServicePlan::Start { key, document_id, config } ==> {
            &&& app.current_doc == Some(document_id)
            &&& key.workspace_epoch.0 == app.epoch.0
            &&& app.authorities@[app.current_authority as int].kind == AuthorityKind::Local
                ==> key.authority_identity.0@ == LOCAL_IDENTITY@ && key.environment_epoch.0 == 0
            &&& is_shown(app, i) ==> key.language == app.buffers@[i]@.language
            &&& exists|n: int|
                0 <= n < app.services.servers@.len() && config.id == (
                #[trigger] app.services.servers@[n]).id && config.digest@ == config_digest(
                    app.services.serialized@[n]@,
                )
        },
{
    if let ServicePlan::Start { key, document_id, config } = plan {
        let id = app.current_doc->0;
        let b = buffer_of(app, id);
        let path = match backing(b.path_state) {
            Some(p) => Some(p@),
            None => None,
        };
        first_fitting_server_is_chosen(
            app.services.servers@,
            language_name(b.language),
            path,
            0,
        );
        let n = server_from(app.services.servers@, language_name(b.language), path, 0);
        assert(config.id == app.services.servers@[n].id);
        assert(key.authority_identity.0@ == key@.authority);
        if is_shown(app, i) {
            lemma_shown(app, i);
        }
    }
}

/// A change tells a server the whole text that its ledger holds of a document, under the
/// URI of the document and the version that the ledger is at. After an edit that is the
/// new text and the next version.
pub proof fn changes_tell_the_whole_text(
    change: LspChange,
    b: BufferView,
    edit: EditView,
    epoch: WorkspaceEpoch,
    j: int,
)
    requires
        0 <= j < b.ledgers.len(),
        is_change(
            change,
            buffer_edited(b, edit, epoch),
            buffer_edited(b, edit, epoch).ledgers[j],
        ),
    ensures
        change.text@ == buffer_edited(b, edit, epoch).text,
        change.uri@ == document_uri(b),
        b.ledgers[j].sent_version < i32::MAX ==> change.version == b.ledgers[j].sent_version + 1,
        change.context.authority_identity.0@ == b.ledgers[j].authority,
        change.context.session_generation.0 == b.ledgers[j].session_generation,
        change.context.workspace_epoch.0 == epoch.0,
{
}

/// Opening a session for a document leaves every other document as it is, and tells the
/// server the language of that document.
pub proof fn opened_sessions_leave_other_documents(
    before: App,
    key: KeyView,
    document: DocumentId,
    after: App,
    opened: Option<OpenedSession>,
    k: int,
)
    requires
        session_opened(before, key, document, after, opened),
        0 <= k < before.buffers@.len(),
        before.buffers@[k]@.id != document,
    ensures
        after.buffers@.len() == before.buffers@.len(),
        after.buffers@[k] == before.buffers@[k],
        opened is Some <==> has_buffer(before, document),
        opened matches Some(o) ==> o.language_id@ == language_name(
            before.buffers@[buffer_at(before, document)]@.language,
        ),
{
    crate::app::lemma_buffer_from(before.buffers@, document, 0);
}

} // verus!
