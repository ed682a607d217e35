//! What the workbench keeps of its language servers: ledgers of what was sent,
//! keys of services and their states.
use vstd::prelude::*;

use crate::document::{DocumentRevision, Language, WorkspaceEpoch};
use crate::protocol;
use crate::protocol::lsp::{AuthorityIdentity, LspContext, SentVersion, SessionGeneration};
use crate::protocol::request::{ContextView, EnvironmentEpoch, ExecutionContextV1};

verus! {

/// What one language server was told of one document.
#[derive(Debug, PartialEq, Eq)]
pub struct LspDocumentLedger {
    pub authority_identity: AuthorityIdentity,
    pub context: ExecutionContextV1,
    pub revision: DocumentRevision,
    pub sent_version: i32,
    pub session_generation: u64,
    pub workspace_epoch: WorkspaceEpoch,
    pub environment_epoch: EnvironmentEpoch,
    pub text: String,
}

/// What a ledger says.
pub struct LedgerView {
    pub authority: Seq<char>,
    pub context: ContextView,
    pub revision: DocumentRevision,
    pub sent_version: i32,
    pub session_generation: u64,
    pub workspace_epoch: WorkspaceEpoch,
    pub environment_epoch: EnvironmentEpoch,
    pub text: Seq<char>,
}

impl View for LspDocumentLedger {
    type V = LedgerView;

    open spec fn view(&self) -> LedgerView {
        LedgerView {
            authority: self.authority_identity.0@,
            context: self.context@,
            revision: self.revision,
            sent_version: self.sent_version,
            session_generation: self.session_generation,
            workspace_epoch: self.workspace_epoch,
            environment_epoch: self.environment_epoch,
            text: self.text@,
        }
    }
}

impl Clone for LspDocumentLedger {
    fn clone(&self) -> (copy: Self)
        ensures
            copy == *self,
    {
        LspDocumentLedger {
            authority_identity: self.authority_identity.clone(),
            context: self.context.clone(),
            text: self.text.clone(),
            ..*self
        }
    }
}

/// The context of the messages that a ledger stands for.
pub open spec fn is_ledger_context(context: LspContext, ledger: LedgerView) -> bool {
    &&& context.workspace_epoch.0 == ledger.workspace_epoch.0
    &&& context.environment_epoch == ledger.environment_epoch
    &&& context.document_revision == Some(
        protocol::request::DocumentRevision(ledger.revision.0),
    )
    &&& context.sent_version.0 == sent_version_bits(ledger.sent_version)
    &&& context.session_generation.0 == ledger.session_generation
    &&& context.execution_context@ == ledger.context
    &&& context.authority_identity.0@ == ledger.authority
}

/// A sent version as the unsigned number of the protocol.
pub open spec fn sent_version_bits(version: i32) -> u64 {
    if version >= 0 {
        version as u64
    } else {
        (version + 0x1_0000_0000_0000_0000) as u64
    }
}

fn version_bits(version: i32) -> (n: u64)
    ensures
        n == sent_version_bits(version),
{
    if version >= 0 {
        version as u64
    } else {
        let magnitude: u64 = (-(version as i64)) as u64;
        0xffff_ffff_ffff_ffff - magnitude + 1
    }
}

impl LspDocumentLedger {
    /// The context of the messages that the ledger stands for.
    pub fn message_context(&self) -> (context: LspContext)
        ensures
            is_ledger_context(context, self@),
            context.execution_context == self.context,
            context.authority_identity == self.authority_identity,
    {
        LspContext {
            workspace_epoch: protocol::request::WorkspaceEpoch(self.workspace_epoch.0),
            environment_epoch: self.environment_epoch,
            document_revision: Some(protocol::request::DocumentRevision(self.revision.0)),
            sent_version: SentVersion(version_bits(self.sent_version)),
            session_generation: SessionGeneration(self.session_generation),
            execution_context: self.context.clone(),
            authority_identity: self.authority_identity.clone(),
        }
    }

    /// Whether a message context is the one that the ledger stands for.
    pub fn matches_context(&self, context: &LspContext) -> (same: bool)
        ensures
            same == is_ledger_context(*context, self@),
    {
        let revision = match context.document_revision {
            Some(r) => r.0 == self.revision.0,
            None => false,
        };
        context.workspace_epoch.0 == self.workspace_epoch.0 && context.environment_epoch
            == self.environment_epoch && revision && context.sent_version.0 == version_bits(
            self.sent_version,
        ) && context.session_generation.0 == self.session_generation
            && context.execution_context.same(&self.context) && context.authority_identity.0
            == self.authority_identity.0
    }
}

/// Which language server serves what: one per workspace, environment, authority,
/// context and language.
#[derive(Debug, PartialEq, Eq)]
pub struct SupervisorKey {
    pub workspace_epoch: protocol::request::WorkspaceEpoch,
    pub environment_epoch: EnvironmentEpoch,
    pub authority_identity: AuthorityIdentity,
    pub execution_context: ExecutionContextV1,
    pub language: Language,
}

/// What a key says.
pub struct KeyView {
    pub workspace_epoch: protocol::request::WorkspaceEpoch,
    pub environment_epoch: EnvironmentEpoch,
    pub authority: Seq<char>,
    pub execution_context: ContextView,
    pub language: Language,
}

impl View for SupervisorKey {
    type V = KeyView;

    open spec fn view(&self) -> KeyView {
        KeyView {
            workspace_epoch: self.workspace_epoch,
            environment_epoch: self.environment_epoch,
            authority: self.authority_identity.0@,
            execution_context: self.execution_context@,
            language: self.language,
        }
    }
}

impl Clone for SupervisorKey {
    fn clone(&self) -> (copy: Self)
        ensures
            copy == *self,
    {
        SupervisorKey {
            authority_identity: self.authority_identity.clone(),
            execution_context: self.execution_context.clone(),
            ..*self
        }
    }
}

impl SupervisorKey {
    pub fn new(
        workspace_epoch: protocol::request::WorkspaceEpoch,
        environment_epoch: EnvironmentEpoch,
        authority_identity: AuthorityIdentity,
        execution_context: ExecutionContextV1,
        language: Language,
    ) -> (key: Self)
        ensures
            key == (SupervisorKey {
                workspace_epoch,
                environment_epoch,
                authority_identity,
                execution_context,
                language,
            }),
    {
        SupervisorKey {
            workspace_epoch,
            environment_epoch,
            authority_identity,
            execution_context,
            language,
        }
    }

    /// Whether two keys are the same.
    pub fn same(&self, other: &Self) -> (same: bool)
        ensures
            same == (self@ == other@),
    {
        self.workspace_epoch == other.workspace_epoch && self.environment_epoch
            == other.environment_epoch && self.authority_identity.0 == other.authority_identity.0
            && self.execution_context.same(&other.execution_context) && self.language
            == other.language
    }
}

/// The state of a language server.
#[derive(Debug, PartialEq, Eq)]
pub enum LanguageServiceState {
    Blocked { reason: String },
    NotFound { detail: String },
    VersionMismatch { expected: String, actual: String },
    Starting,
    Ready,
    Failed { message: String },
}

impl Clone for LanguageServiceState {
    fn clone(&self) -> (copy: Self)
        ensures
            copy == *self,
    {
        match self {
            LanguageServiceState::Blocked { reason } => LanguageServiceState::Blocked {
                reason: reason.clone(),
            },
            LanguageServiceState::NotFound { detail } => LanguageServiceState::NotFound {
                detail: detail.clone(),
            },
            LanguageServiceState::VersionMismatch { expected, actual } =>
                LanguageServiceState::VersionMismatch {
                expected: expected.clone(),
                actual: actual.clone(),
            },
            LanguageServiceState::Starting => LanguageServiceState::Starting,
            LanguageServiceState::Ready => LanguageServiceState::Ready,
            LanguageServiceState::Failed { message } => LanguageServiceState::Failed {
                message: message.clone(),
            },
        }
    }
}

/// The context of a message says of a document exactly what its ledger says: which
/// revision and version the server was told, under which session, in which epochs and
/// context, and through which authority.
pub proof fn contexts_say_what_the_ledger_says(context: LspContext, ledger: LedgerView)
    requires
        is_ledger_context(context, ledger),
    ensures
        context.document_revision matches Some(r) && r.0 == ledger.revision.0,
        ledger.sent_version >= 0 ==> context.sent_version.0 == ledger.sent_version,
        context.session_generation.0 == ledger.session_generation,
        context.workspace_epoch.0 == ledger.workspace_epoch.0,
        context.environment_epoch.0 == ledger.environment_epoch.0,
        context.authority_identity.0@ == ledger.authority,
        context.execution_context@ == ledger.context,
{
}

} // verus!
