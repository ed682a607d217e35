//! Language server traffic over the wire, and the checks on it.
use vstd::prelude::*;
use vstd::utf8::encode_utf8;

use crate::json::Json;
use crate::protocol::request::{
    any_nul, has_nul, holds_char, DocumentRevision, EnvironmentEpoch, ExecutionContextV1,
    WorkspaceEpoch,
};
use crate::words::{join2, join4};

verus! {

#[derive(Clone, Copy, Debug, PartialEq, Eq, Hash, Structural)]
pub struct SentVersion(pub u64);

#[derive(Clone, Copy, Debug, PartialEq, Eq, Hash, Structural)]
pub struct SessionGeneration(pub u64);

#[derive(Debug, PartialEq, Eq, Hash)]
pub struct AuthorityIdentity(pub String);

impl Clone for AuthorityIdentity {
    fn clone(&self) -> (copy: Self)
        ensures
            copy == *self,
    {
        AuthorityIdentity(self.0.clone())
    }
}

/// What all messages of one language server session are tagged with.
#[derive(Debug, PartialEq, Eq, Hash)]
pub struct LspContext {
    pub workspace_epoch: WorkspaceEpoch,
    pub environment_epoch: EnvironmentEpoch,
    pub document_revision: Option<DocumentRevision>,
    pub sent_version: SentVersion,
    pub session_generation: SessionGeneration,
    pub execution_context: ExecutionContextV1,
    pub authority_identity: AuthorityIdentity,
}

impl Clone for LspContext {
    fn clone(&self) -> (copy: Self)
        ensures
            copy == *self,
    {
        LspContext {
            execution_context: self.execution_context.clone(),
            authority_identity: self.authority_identity.clone(),
            ..*self
        }
    }
}

/// Why language server traffic is refused.
#[derive(Debug, PartialEq, Eq)]
pub enum LspProtocolError {
    EmptyAuthorityIdentity,
    EmptyLanguageId,
    EmptyMethod,
    EmptyRequestId,
    EmptyDocumentUri,
    InvalidField { field: String, reason: String },
    ExceedsBound { field: String },
}

/// What a refusal says.
pub enum LspFault {
    EmptyAuthorityIdentity,
    EmptyLanguageId,
    EmptyMethod,
    EmptyRequestId,
    EmptyDocumentUri,
    InvalidField { field: Seq<char>, reason: Seq<char> },
    ExceedsBound { field: Seq<char> },
}

impl View for LspProtocolError {
    type V = LspFault;

    open spec fn view(&self) -> LspFault {
        match self {
            LspProtocolError::EmptyAuthorityIdentity => LspFault::EmptyAuthorityIdentity,
            LspProtocolError::EmptyLanguageId => LspFault::EmptyLanguageId,
            LspProtocolError::EmptyMethod => LspFault::EmptyMethod,
            LspProtocolError::EmptyRequestId => LspFault::EmptyRequestId,
            LspProtocolError::EmptyDocumentUri => LspFault::EmptyDocumentUri,
            LspProtocolError::InvalidField { field, reason } => LspFault::InvalidField {
                field: field@,
                reason: reason@,
            },
            LspProtocolError::ExceedsBound { field } => LspFault::ExceedsBound { field: field@ },
        }
    }
}

/// The words of a refusal.
pub open spec fn fault_text(fault: LspFault) -> Seq<char> {
    match fault {
        LspFault::EmptyAuthorityIdentity => "empty authority identity"@,
        LspFault::EmptyLanguageId => "empty language id"@,
        LspFault::EmptyMethod => "empty method"@,
        LspFault::EmptyRequestId => "empty request id"@,
        LspFault::EmptyDocumentUri => "empty document uri"@,
        LspFault::InvalidField { field, reason } => "invalid field "@ + field + ": "@ + reason,
        LspFault::ExceedsBound { field } => "value exceeds protocol bound for "@ + field,
    }
}

impl LspProtocolError {
    pub fn text(&self) -> (text: String)
        ensures
            text@ == fault_text(self@),
    {
        match self {
            LspProtocolError::EmptyAuthorityIdentity => "empty authority identity".to_owned(),
            LspProtocolError::EmptyLanguageId => "empty language id".to_owned(),
            LspProtocolError::EmptyMethod => "empty method".to_owned(),
            LspProtocolError::EmptyRequestId => "empty request id".to_owned(),
            LspProtocolError::EmptyDocumentUri => "empty document uri".to_owned(),
            LspProtocolError::InvalidField { field, reason } => join4(
                "invalid field ",
                field.as_str(),
                ": ",
                reason.as_str(),
            ),
            LspProtocolError::ExceedsBound { field } => join2(
                "value exceeds protocol bound for ",
                field.as_str(),
            ),
        }
    }
}

/// Whether a check ended as the fault that it looks for says.
pub open spec fn checked(r: Result<(), LspProtocolError>, fault: Option<LspFault>) -> bool {
    match fault {
        None => r is Ok,
        Some(f) => r is Err && r->Err_0@ == f,
    }
}

fn invalid_field(field: &str, reason: &str) -> (e: LspProtocolError)
    ensures
        e@ == (LspFault::InvalidField { field: field@, reason: reason@ }),
{
    LspProtocolError::InvalidField { field: field.to_owned(), reason: reason.to_owned() }
}

fn exceeds_bound(field: &str) -> (e: LspProtocolError)
    ensures
        e@ == (LspFault::ExceedsBound { field: field@ }),
{
    LspProtocolError::ExceedsBound { field: field.to_owned() }
}

pub open spec fn context_fault(context: LspContext) -> Option<LspFault> {
    if context.authority_identity.0@.len() == 0 {
        Some(LspFault::EmptyAuthorityIdentity)
    } else {
        None
    }
}

impl LspContext {
    /// What the context says, by value.
    pub open spec fn equals(&self, other: &Self) -> bool {
        &&& self.workspace_epoch == other.workspace_epoch
        &&& self.environment_epoch == other.environment_epoch
        &&& self.document_revision == other.document_revision
        &&& self.sent_version == other.sent_version
        &&& self.session_generation == other.session_generation
        &&& self.execution_context@ == other.execution_context@
        &&& self.authority_identity.0@ == other.authority_identity.0@
    }

    /// Whether two contexts are the same.
    pub fn same(&self, other: &Self) -> (same: bool)
        ensures
            same == self.equals(other),
    {
        let revisions = match (self.document_revision, other.document_revision) {
            (None, None) => true,
            (Some(a), Some(b)) => a == b,
            _ => false,
        };
        self.workspace_epoch == other.workspace_epoch && self.environment_epoch
            == other.environment_epoch && revisions && self.sent_version == other.sent_version
            && self.session_generation == other.session_generation && self.execution_context.same(
            &other.execution_context,
        ) && self.authority_identity.0 == other.authority_identity.0
    }

    /// Checks that the context names an authority.
    pub fn validate(&self) -> (r: Result<(), LspProtocolError>)
        ensures
            checked(r, context_fault(*self)),
    {
        if self.authority_identity.0.as_str().is_empty() {
            return Err(LspProtocolError::EmptyAuthorityIdentity);
        }
        Ok(())
    }
}

/// How a language server is started.
#[derive(Debug, PartialEq, Eq)]
pub struct LspServerConfig {
    pub language_id: String,
    pub program: String,
    pub args: Vec<String>,
    pub cwd: String,
}

pub open spec fn server_config_fault(config: LspServerConfig) -> Option<LspFault> {
    if config.language_id@.len() == 0 {
        Some(LspFault::EmptyLanguageId)
    } else if config.program@.len() == 0 {
        Some(LspFault::InvalidField { field: "program"@, reason: "must not be empty"@ })
    } else if config.cwd@.len() == 0 {
        Some(LspFault::InvalidField { field: "cwd"@, reason: "must not be empty"@ })
    } else if has_nul(config.program@) || has_nul(config.cwd@) || (exists|i: int|
        0 <= i < config.args@.len() && has_nul(#[trigger] config.args@[i]@)) || has_nul(
        config.language_id@,
    ) {
        Some(LspFault::InvalidField { field: "server_config"@, reason: "contains NUL"@ })
    } else {
        None
    }
}

impl LspServerConfig {
    /// Checks that language, program and directory are given and nothing holds NUL.
    pub fn validate(&self) -> (r: Result<(), LspProtocolError>)
        ensures
            checked(r, server_config_fault(*self)),
    {
        if self.language_id.as_str().is_empty() {
            return Err(LspProtocolError::EmptyLanguageId);
        }
        if self.program.as_str().is_empty() {
            return Err(invalid_field("program", "must not be empty"));
        }
        if self.cwd.as_str().is_empty() {
            return Err(invalid_field("cwd", "must not be empty"));
        }
        if holds_char(self.program.as_str(), '\0') || holds_char(self.cwd.as_str(), '\0')
            || any_nul(&self.args) || holds_char(self.language_id.as_str(), '\0') {
            return Err(invalid_field("server_config", "contains NUL"));
        }
        Ok(())
    }
}

/// The identifier of a JSON-RPC request.
#[derive(Debug, PartialEq, Eq, Hash)]
pub enum LspRequestId {
    Number(i64),
    String(String),
}

/// What a request identifier says.
pub enum RequestIdView {
    Number(i64),
    String(Seq<char>),
}

impl View for LspRequestId {
    type V = RequestIdView;

    open spec fn view(&self) -> RequestIdView {
        match self {
            LspRequestId::Number(n) => RequestIdView::Number(*n),
            LspRequestId::String(s) => RequestIdView::String(s@),
        }
    }
}

impl Clone for LspRequestId {
    fn clone(&self) -> (copy: Self)
        ensures
            copy == *self,
    {
        match self {
            LspRequestId::Number(n) => LspRequestId::Number(*n),
            LspRequestId::String(s) => LspRequestId::String(s.clone()),
        }
    }
}

/// The longest request identifier and method name, in bytes.
pub const MAX_NAME_BYTES: usize = 256;

/// The longest replacement text of one edit, in bytes.
pub const MAX_EDIT_BYTES: usize = 4194304;

pub open spec fn request_id_fault(id: LspRequestId) -> Option<LspFault> {
    match id {
        LspRequestId::Number(_) => None,
        LspRequestId::String(s) => if s@.len() == 0 {
            Some(LspFault::EmptyRequestId)
        } else if encode_utf8(s@).len() > MAX_NAME_BYTES {
            Some(LspFault::ExceedsBound { field: "id"@ })
        } else {
            None
        },
    }
}

impl LspRequestId {
    /// Whether two identifiers are the same.
    pub fn same(&self, other: &Self) -> (same: bool)
        ensures
            same == (self@ == other@),
    {
        match (self, other) {
            (LspRequestId::Number(a), LspRequestId::Number(b)) => *a == *b,
            (LspRequestId::String(a), LspRequestId::String(b)) => *a == *b,
            _ => false,
        }
    }

    /// Checks that a text identifier has 1 to 256 bytes.
    pub fn validate(&self) -> (r: Result<(), LspProtocolError>)
        ensures
            checked(r, request_id_fault(*self)),
    {
        if let LspRequestId::String(s) = self {
            if s.as_str().is_empty() {
                return Err(LspProtocolError::EmptyRequestId);
            }
            if s.as_str().as_bytes().len() > MAX_NAME_BYTES {
                return Err(exceeds_bound("id"));
            }
        }
        Ok(())
    }
}

pub open spec fn method_fault(method: Seq<char>) -> Option<LspFault> {
    if method.len() == 0 {
        Some(LspFault::EmptyMethod)
    } else if encode_utf8(method).len() > MAX_NAME_BYTES {
        Some(LspFault::ExceedsBound { field: "method"@ })
    } else {
        None
    }
}

fn validate_method(method: &str) -> (r: Result<(), LspProtocolError>)
    ensures
        checked(r, method_fault(method@)),
{
    if method.is_empty() {
        return Err(LspProtocolError::EmptyMethod);
    }
    if method.as_bytes().len() > MAX_NAME_BYTES {
        return Err(exceeds_bound("method"));
    }
    Ok(())
}

#[derive(Debug, PartialEq, Eq)]
pub struct LspJsonRpcRequest {
    pub id: LspRequestId,
    pub method: String,
    pub params: Option<Json>,
}

pub open spec fn rpc_request_fault(request: LspJsonRpcRequest) -> Option<LspFault> {
    if method_fault(request.method@) is Some {
        method_fault(request.method@)
    } else {
        request_id_fault(request.id)
    }
}

impl LspJsonRpcRequest {
    /// Checks the method name and then the identifier.
    pub fn validate(&self) -> (r: Result<(), LspProtocolError>)
        ensures
            checked(r, rpc_request_fault(*self)),
    {
        match validate_method(self.method.as_str()) {
            Err(e) => Err(e),
            Ok(()) => self.id.validate(),
        }
    }
}

#[derive(Debug, PartialEq, Eq)]
pub struct LspJsonRpcError {
    pub code: i32,
    pub message: String,
    pub data: Option<Json>,
}

#[derive(Debug, PartialEq, Eq)]
pub struct LspJsonRpcResponse {
    pub id: LspRequestId,
    pub result: Option<Json>,
    pub error: Option<LspJsonRpcError>,
}

pub open spec fn rpc_response_fault(response: LspJsonRpcResponse) -> Option<LspFault> {
    if request_id_fault(response.id) is Some {
        request_id_fault(response.id)
    } else if response.result is None && response.error is None {
        Some(
            LspFault::InvalidField { field: "result_or_error"@, reason: "one must be present"@ },
        )
    } else {
        None
    }
}

impl LspJsonRpcResponse {
    /// Checks the identifier, and that a result or an error is there.
    pub fn validate(&self) -> (r: Result<(), LspProtocolError>)
        ensures
            checked(r, rpc_response_fault(*self)),
    {
        match self.id.validate() {
            Err(e) => return Err(e),
            Ok(()) => {},
        }
        if self.result.is_none() && self.error.is_none() {
            return Err(invalid_field("result_or_error", "one must be present"));
        }
        Ok(())
    }
}

#[derive(Debug, PartialEq, Eq)]
pub struct LspJsonRpcNotification {
    pub method: String,
    pub params: Option<Json>,
}

impl LspJsonRpcNotification {
    /// Checks the method name.
    pub fn validate(&self) -> (r: Result<(), LspProtocolError>)
        ensures
            checked(r, method_fault(self.method@)),
    {
        validate_method(self.method.as_str())
    }
}

#[derive(Clone, Copy, Debug, PartialEq, Eq, Hash, Structural)]
pub struct LspPosition {
    pub line: u32,
    pub character: u32,
}

#[derive(Clone, Copy, Debug, PartialEq, Eq, Hash, Structural)]
pub struct LspRange {
    pub start: LspPosition,
    pub end: LspPosition,
}

#[derive(Debug, PartialEq, Eq)]
pub struct LspTextEdit {
    pub range: LspRange,
    pub new_text: String,
}

#[derive(Debug, PartialEq, Eq)]
pub struct LspDiagnostic {
    pub range: LspRange,
    pub severity: Option<u8>,
    pub code: Option<Json>,
    pub source: Option<String>,
    pub message: String,
    pub tags: Option<Vec<i32>>,
}

pub open spec fn diagnostic_fault(diagnostic: LspDiagnostic) -> Option<LspFault> {
    if diagnostic.message@.len() == 0 {
        Some(
            LspFault::InvalidField {
                field: "message"@,
                reason: "diagnostic message must not be empty"@,
            },
        )
    } else {
        None
    }
}

impl LspDiagnostic {
    /// Checks that there is a message.
    pub fn validate(&self) -> (r: Result<(), LspProtocolError>)
        ensures
            checked(r, diagnostic_fault(*self)),
    {
        if self.message.as_str().is_empty() {
            return Err(invalid_field("message", "diagnostic message must not be empty"));
        }
        Ok(())
    }
}

/// Changes to one document, with the versions that they were made for.
#[derive(Debug, PartialEq, Eq)]
pub enum TransactionalDocumentEdit {
    TextDocument {
        uri: String,
        expected_revision: Option<DocumentRevision>,
        expected_lsp_version: Option<SentVersion>,
        edits: Vec<LspTextEdit>,
    },
}

/// Changes to several documents, to be made together or not at all.
#[derive(Debug, PartialEq, Eq)]
pub struct TransactionalWorkspaceEdit {
    pub document_changes: Vec<TransactionalDocumentEdit>,
}

/// The first text of a list, from index `i` on, that is too long.
pub open spec fn edits_fault_from(edits: Seq<LspTextEdit>, i: int) -> Option<LspFault>
    decreases edits.len() - i,
{
    if i >= edits.len() {
        None
    } else if encode_utf8(edits[i].new_text@).len() > MAX_EDIT_BYTES {
        Some(LspFault::ExceedsBound { field: "edit_text"@ })
    } else {
        edits_fault_from(edits, i + 1)
    }
}

pub open spec fn document_edit_fault(change: TransactionalDocumentEdit) -> Option<LspFault> {
    match change {
        TransactionalDocumentEdit::TextDocument { uri, edits, .. } => if uri@.len() == 0 {
            Some(LspFault::EmptyDocumentUri)
        } else {
            edits_fault_from(edits@, 0)
        },
    }
}

/// The first fault of a list of document changes, from index `i` on.
pub open spec fn changes_fault_from(changes: Seq<TransactionalDocumentEdit>, i: int) -> Option<
    LspFault,
>
    decreases changes.len() - i,
{
    if i >= changes.len() {
        None
    } else if document_edit_fault(changes[i]) is Some {
        document_edit_fault(changes[i])
    } else {
        changes_fault_from(changes, i + 1)
    }
}

fn validate_edits(edits: &Vec<LspTextEdit>) -> (r: Result<(), LspProtocolError>)
    ensures
        checked(r, edits_fault_from(edits@, 0)),
{
    let mut i: usize = 0;
    while i < edits.len()
        invariant
            i <= edits@.len(),
            edits_fault_from(edits@, 0) == edits_fault_from(edits@, i as int),
        decreases edits@.len() - i,
    {
        if edits[i].new_text.as_str().as_bytes().len() > MAX_EDIT_BYTES {
            return Err(exceeds_bound("edit_text"));
        }
        i += 1;
    }
    Ok(())
}

impl TransactionalWorkspaceEdit {
    /// Checks that every document is named and no replacement text is too long.
    pub fn validate(&self) -> (r: Result<(), LspProtocolError>)
        ensures
            checked(r, changes_fault_from(self.document_changes@, 0)),
    {
        let mut i: usize = 0;
        while i < self.document_changes.len()
            invariant
                i <= self.document_changes@.len(),
                changes_fault_from(self.document_changes@, 0) == changes_fault_from(
                    self.document_changes@,
                    i as int,
                ),
            decreases self.document_changes@.len() - i,
        {
            match &self.document_changes[i] {
                TransactionalDocumentEdit::TextDocument { uri, edits, .. } => {
                    if uri.as_str().is_empty() {
                        return Err(LspProtocolError::EmptyDocumentUri);
                    }
                    match validate_edits(edits) {
                        Err(e) => return Err(e),
                        Ok(()) => {},
                    }
                },
            }
            i += 1;
        }
        Ok(())
    }
}

/// The edits of one document as a language server lists them, with the document
/// version that it saw.
#[derive(Debug, PartialEq, Eq)]
pub struct ServerDocumentEdit {
    pub uri: String,
    pub version: Option<i32>,
    pub edits: Vec<LspTextEdit>,
}

/// One step of a workspace edit that a language server lists in order.
#[derive(Debug, PartialEq, Eq)]
pub enum ServerOperation {
    Edit(ServerDocumentEdit),
    Resource,
}

/// The document changes of a workspace edit that a language server sends.
#[derive(Debug, PartialEq, Eq)]
pub enum ServerDocumentChanges {
    Edits(Vec<ServerDocumentEdit>),
    Operations(Vec<ServerOperation>),
}

/// A workspace edit as a language server sends it. The document changes take
/// precedence over the plain map of changes.
#[derive(Debug, PartialEq, Eq)]
pub struct ServerWorkspaceEdit {
    pub document_changes: Option<ServerDocumentChanges>,
    pub changes: Option<Vec<(String, Vec<LspTextEdit>)>>,
}

/// Whether a document edit was taken over from a server as it is.
pub open spec fn taken_over(out: TransactionalDocumentEdit, edit: ServerDocumentEdit) -> bool {
    out == document_edit_of(edit)
}

/// What keeps one step from being taken over: a negative version, or a step that
/// creates, renames or deletes a file.
pub open spec fn operation_fault(operation: ServerOperation) -> Option<LspFault> {
    match operation {
        ServerOperation::Edit(edit) => if edit.version is Some && edit.version->0 < 0 {
            Some(
                LspFault::InvalidField {
                    field: "textDocument.version"@,
                    reason: "must not be negative"@,
                },
            )
        } else {
            None
        },
        ServerOperation::Resource => Some(
            LspFault::InvalidField {
                field: "documentChanges"@,
                reason: "workspace resource operations are unsupported"@,
            },
        ),
    }
}

/// The steps of a workspace edit: its document changes, or, where it has none, its
/// plain map of changes.
pub open spec fn server_operations(edit: ServerWorkspaceEdit) -> Seq<ServerOperation> {
    match edit.document_changes {
        Some(ServerDocumentChanges::Edits(edits)) => edits@.map_values(
            |e: ServerDocumentEdit| ServerOperation::Edit(e),
        ),
        Some(ServerDocumentChanges::Operations(operations)) => operations@,
        None => match edit.changes {
            Some(changes) => changes@.map_values(
                |c: (String, Vec<LspTextEdit>)|
                    ServerOperation::Edit(
                        ServerDocumentEdit { uri: c.0, version: None, edits: c.1 },
                    ),
            ),
            None => Seq::empty(),
        },
    }
}

/// The fault of the first step, from index `i` on, that cannot be taken over.
pub open spec fn operations_fault_from(operations: Seq<ServerOperation>, i: int) -> Option<LspFault>
    decreases operations.len() - i,
{
    if i >= operations.len() {
        None
    } else if operation_fault(operations[i]) is Some {
        operation_fault(operations[i])
    } else {
        operations_fault_from(operations, i + 1)
    }
}

/// Whether the steps were taken over one by one.
pub open spec fn all_taken_over(
    out: Seq<TransactionalDocumentEdit>,
    operations: Seq<ServerOperation>,
) -> bool {
    &&& out.len() == operations.len()
    &&& forall|i: int|
        0 <= i < out.len() ==> (#[trigger] operations[i]) is Edit && taken_over(
            out[i],
            operations[i]->Edit_0,
        )
}

/// A document edit as it is taken over from a server.
pub open spec fn document_edit_of(edit: ServerDocumentEdit) -> TransactionalDocumentEdit {
    TransactionalDocumentEdit::TextDocument {
        uri: edit.uri,
        expected_revision: None,
        expected_lsp_version: match edit.version {
            Some(v) => Some(SentVersion(v as u64)),
            None => None,
        },
        edits: edit.edits,
    }
}

/// The document edits that a workspace edit of a server is taken over as, or why it
/// is refused.
pub open spec fn server_edit(edit: ServerWorkspaceEdit) -> Result<
    Seq<TransactionalDocumentEdit>,
    LspFault,
> {
    let operations = server_operations(edit);
    let changes = operations.map_values(|o: ServerOperation| document_edit_of(o->Edit_0));
    match operations_fault_from(operations, 0) {
        Some(f) => Err(f),
        None => match changes_fault_from(changes, 0) {
            Some(f) => Err(f),
            None => Ok(changes),
        },
    }
}

/// Whether a change is to a document with a URI, for a version of it, by a list of text
/// edits.
pub open spec fn edits_document(
    change: TransactionalDocumentEdit,
    document: String,
    version: Option<i32>,
    text_edits: Vec<LspTextEdit>,
) -> bool {
    change matches TransactionalDocumentEdit::TextDocument {
        uri,
        expected_revision,
        expected_lsp_version,
        edits,
    } && uri == document && edits == text_edits && expected_revision is None
        && expected_lsp_version is Some == version is Some && (version is Some
        ==> (expected_lsp_version->0).0 == version->0)
}

/// No step of a list that is taken over has a fault.
proof fn lemma_no_operation_fault(operations: Seq<ServerOperation>, i: int)
    requires
        0 <= i,
    ensures
        operations_fault_from(operations, i) is None <==> forall|j: int|
            i <= j < operations.len() ==> operation_fault(#[trigger] operations[j]) is None,
    decreases operations.len() - i,
{
    if i < operations.len() {
        lemma_no_operation_fault(operations, i + 1);
        assert(operations[i] == operations[i]);
        if operation_fault(operations[i]) is None && operations_fault_from(operations, i + 1) is None {
            assert forall|j: int| i <= j < operations.len() implies operation_fault(
                #[trigger] operations[j],
            ) is None by {}
        }
    }
}

/// No text of a list without a fault is too long.
proof fn lemma_no_edit_fault(edits: Seq<LspTextEdit>, i: int)
    requires
        0 <= i,
    ensures
        edits_fault_from(edits, i) is None <==> forall|j: int|
            i <= j < edits.len() ==> encode_utf8((#[trigger] edits[j]).new_text@).len()
                <= MAX_EDIT_BYTES,
    decreases edits.len() - i,
{
    if i < edits.len() {
        lemma_no_edit_fault(edits, i + 1);
        assert(edits[i] == edits[i]);
    }
}

/// No change of a list without a fault has one.
proof fn lemma_no_change_fault(changes: Seq<TransactionalDocumentEdit>, i: int)
    requires
        0 <= i,
    ensures
        changes_fault_from(changes, i) is None <==> forall|j: int|
            i <= j < changes.len() ==> document_edit_fault(#[trigger] changes[j]) is None,
    decreases changes.len() - i,
{
    if i < changes.len() {
        lemma_no_change_fault(changes, i + 1);
        assert(changes[i] == changes[i]);
    }
}

/// A workspace edit that is taken over is taken over in full: there are as many changes
/// as the server lists, and the change at each place has the URI, the version and the
/// text edits that the server lists at that place. The document changes count before
/// the plain map of changes, and a step that is no text edit is never left out.
pub proof fn server_edits_are_taken_over_in_full(
    edit: ServerWorkspaceEdit,
    changes: Seq<TransactionalDocumentEdit>,
)
    requires
        server_edit(edit) == Ok::<Seq<TransactionalDocumentEdit>, LspFault>(changes),
    ensures
        edit.document_changes matches Some(ServerDocumentChanges::Edits(edits)) ==> {
            &&& changes.len() == edits@.len()
            &&& forall|i: int|
                0 <= i < edits@.len() ==> {
                    &&& (#[trigger] changes[i])->uri == edits@[i].uri
                    &&& changes[i]->edits == edits@[i].edits
                    &&& changes[i]->expected_revision is None
                    &&& edits@[i].version is None ==> changes[i]->expected_lsp_version is None
                    &&& edits@[i].version matches Some(v) ==> (
                    changes[i]->expected_lsp_version matches Some(kept) && kept.0 == v)
                }
        },
        edit.document_changes matches Some(ServerDocumentChanges::Operations(operations)) ==> {
            &&& changes.len() == operations@.len()
            &&& forall|i: int|
                0 <= i < operations@.len() ==> (operations@[i] matches ServerOperation::Edit(e) && {
                    &&& (#[trigger] changes[i])->uri == e.uri
                    &&& changes[i]->edits == e.edits
                    &&& changes[i]->expected_revision is None
                    &&& e.version is None ==> changes[i]->expected_lsp_version is None
                    &&& e.version matches Some(v) ==> (
                    changes[i]->expected_lsp_version matches Some(kept) && kept.0 == v)
                })
        },
        edit.document_changes is None ==> (edit.changes matches Some(listed) ==> {
            &&& changes.len() == listed@.len()
            &&& forall|i: int|
                0 <= i < listed@.len() ==> {
                    &&& (#[trigger] changes[i])->uri == listed@[i].0
                    &&& changes[i]->edits == listed@[i].1
                    &&& changes[i]->expected_revision is None
                    &&& changes[i]->expected_lsp_version is None
                }
        }),
        edit.document_changes is None && edit.changes is None ==> changes.len() == 0,
{
    let operations = server_operations(edit);
    lemma_no_operation_fault(operations, 0);
    assert forall|i: int| 0 <= i < operations.len() implies (#[trigger] operations[i]) is Edit
        && edits_document(
        changes[i],
        operations[i]->Edit_0.uri,
        operations[i]->Edit_0.version,
        operations[i]->Edit_0.edits,
    ) by {
        assert(operation_fault(operations[i]) is None);
        assert(changes[i] == document_edit_of(operations[i]->Edit_0));
    }
    assert forall|i: int| 0 <= i < operations.len() implies (#[trigger] changes[i]) == changes[i]
        && operations[i] is Edit by {}
    match edit.document_changes {
        Some(ServerDocumentChanges::Edits(edits)) => {
            assert forall|i: int| 0 <= i < edits@.len() implies edits_document(
                #[trigger] changes[i],
                edits@[i].uri,
                edits@[i].version,
                edits@[i].edits,
            ) by {
                assert(operations[i] == ServerOperation::Edit(edits@[i]));
            }
        },
        Some(ServerDocumentChanges::Operations(listed)) => {},
        None => match edit.changes {
            Some(listed) => {
                assert forall|i: int| 0 <= i < listed@.len() implies edits_document(
                    #[trigger] changes[i],
                    listed@[i].0,
                    None,
                    listed@[i].1,
                ) by {
                    assert(operations[i]->Edit_0.uri == listed@[i].0);
                }
            },
            None => {},
        },
    }
}

/// Whether a listed edit of a document can be taken over: the document is named, its
/// version is not negative, and no text is too long.
pub open spec fn is_fit(edit: ServerDocumentEdit) -> bool {
    &&& edit.uri@.len() > 0
    &&& edit.version is Some ==> edit.version->0 >= 0
    &&& forall|j: int|
        0 <= j < edit.edits@.len() ==> encode_utf8((#[trigger] edit.edits@[j]).new_text@).len()
            <= 4194304
}

/// A listed edit that is fit has no fault, and no other.
proof fn lemma_fit(edit: ServerDocumentEdit)
    ensures
        is_fit(edit) <==> operation_fault(ServerOperation::Edit(edit)) is None
            && document_edit_fault(document_edit_of(edit)) is None,
{
    lemma_no_edit_fault(edit.edits@, 0);
}

/// A workspace edit is taken over if and only if each edit that the server lists is fit
/// and no step creates, renames or deletes a file: one unfit edit, at whatever place,
/// refuses the whole.
pub proof fn fit_server_edits_are_taken_over(edit: ServerWorkspaceEdit)
    ensures
        edit.document_changes matches Some(ServerDocumentChanges::Edits(edits)) ==> (server_edit(
            edit,
        ) is Ok <==> forall|i: int| 0 <= i < edits@.len() ==> is_fit(#[trigger] edits@[i])),
        edit.document_changes matches Some(ServerDocumentChanges::Operations(operations)) ==> (
        server_edit(edit) is Ok <==> forall|i: int|
            0 <= i < operations@.len() ==> (#[trigger] operations@[i]) is Edit && is_fit(
                operations@[i]->Edit_0,
            )),
        edit.document_changes is None ==> (edit.changes matches Some(listed) ==> (server_edit(
            edit,
        ) is Ok <==> forall|i: int|
            0 <= i < listed@.len() ==> is_fit(
                ServerDocumentEdit {
                    uri: (#[trigger] listed@[i]).0,
                    version: None,
                    edits: listed@[i].1,
                },
            ))),
        edit.document_changes is None && edit.changes is None ==> server_edit(edit) is Ok,
{
    let operations = server_operations(edit);
    let changes = operations.map_values(|o: ServerOperation| document_edit_of(o->Edit_0));
    lemma_no_operation_fault(operations, 0);
    lemma_no_change_fault(changes, 0);
    assert forall|i: int| 0 <= i < operations.len() implies ((#[trigger] operations[i]) is Edit
        && is_fit(operations[i]->Edit_0) <==> operation_fault(operations[i]) is None
        && document_edit_fault(changes[i]) is None) by {
        if operations[i] is Edit {
            lemma_fit(operations[i]->Edit_0);
        }
    }
    let fit = forall|i: int|
        0 <= i < operations.len() ==> (#[trigger] operations[i]) is Edit && is_fit(
            operations[i]->Edit_0,
        );
    if fit {
        assert forall|i: int| 0 <= i < operations.len() implies operation_fault(
            #[trigger] operations[i],
        ) is None by {}
        assert forall|i: int| 0 <= i < changes.len() implies document_edit_fault(
            #[trigger] changes[i],
        ) is None by {
            assert(operations[i] is Edit);
        }
        assert(server_edit(edit) is Ok);
    }
    if server_edit(edit) is Ok {
        assert forall|i: int| 0 <= i < operations.len() implies (#[trigger] operations[i]) is Edit
            && is_fit(operations[i]->Edit_0) by {
            assert(operation_fault(operations[i]) is None);
            assert(document_edit_fault(changes[i]) is None);
        }
    }
    match edit.document_changes {
        Some(ServerDocumentChanges::Edits(edits)) => {
            assert forall|i: int| 0 <= i < edits@.len() implies (#[trigger] operations[i])
                == ServerOperation::Edit(edits@[i]) by {}
            if fit {
                assert forall|i: int| 0 <= i < edits@.len() implies is_fit(#[trigger] edits@[i]) by {
                    assert(operations[i] == ServerOperation::Edit(edits@[i]));
                }
            }
            if forall|i: int| 0 <= i < edits@.len() ==> is_fit(#[trigger] edits@[i]) {
                assert(fit);
            }
        },
        Some(ServerDocumentChanges::Operations(listed)) => {},
        None => match edit.changes {
            Some(listed) => {
                let one = |i: int|
                    ServerDocumentEdit { uri: listed@[i].0, version: None, edits: listed@[i].1 };
                assert forall|i: int| 0 <= i < listed@.len() implies (#[trigger] operations[i])
                    == ServerOperation::Edit(one(i)) by {}
                if fit {
                    assert forall|i: int| 0 <= i < listed@.len() implies is_fit(
                        ServerDocumentEdit {
                            uri: (#[trigger] listed@[i]).0,
                            version: None,
                            edits: listed@[i].1,
                        },
                    ) by {
                        assert(operations[i] == ServerOperation::Edit(one(i)));
                    }
                } else {
                    let i = choose|i: int|
                        0 <= i < operations.len() && !((#[trigger] operations[i]) is Edit && is_fit(
                            operations[i]->Edit_0,
                        ));
                    assert(operations[i] == ServerOperation::Edit(one(i)));
                    assert(listed@[i] == listed@[i]);
                }
            },
            None => {},
        },
    }
}

fn document_edit(edit: ServerDocumentEdit) -> (r: Result<
    TransactionalDocumentEdit,
    LspProtocolError,
>)
    ensures
        match operation_fault(ServerOperation::Edit(edit)) {
            None => r is Ok && taken_over(r->Ok_0, edit),
            Some(f) => r is Err && r->Err_0@ == f,
        },
{
    let expected_lsp_version: Option<SentVersion> = match edit.version {
        None => None,
        Some(v) => {
            if v < 0 {
                return Err(invalid_field("textDocument.version", "must not be negative"));
            }
            Some(SentVersion(v as u64))
        },
    };
    Ok(
        TransactionalDocumentEdit::TextDocument {
            uri: edit.uri,
            expected_revision: None,
            expected_lsp_version,
            edits: edit.edits,
        },
    )
}

fn take_over(operations: Vec<ServerOperation>) -> (r: Result<
    Vec<TransactionalDocumentEdit>,
    LspProtocolError,
>)
    ensures
        match operations_fault_from(operations@, 0) {
            None => r is Ok && all_taken_over(r->Ok_0@, operations@),
            Some(f) => r is Err && r->Err_0@ == f,
        },
{
    let mut out: Vec<TransactionalDocumentEdit> = Vec::new();
    let ghost all = operations@;
    for operation in it: operations
        invariant
            it.seq() == all,
            all_taken_over(out@, all.take(it.index())),
            operations_fault_from(all, 0) == operations_fault_from(all, it.index()),
    {
        let ghost i = it.index();
        assert(operation == all[i]);
        match operation {
            ServerOperation::Resource => {
                return Err(
                    invalid_field(
                        "documentChanges",
                        "workspace resource operations are unsupported",
                    ),
                );
            },
            ServerOperation::Edit(edit) => {
                match document_edit(edit) {
                    Err(e) => return Err(e),
                    Ok(change) => {
                        out.push(change);
                        proof {
                            let t = all.take(i + 1);
                            assert forall|j: int| 0 <= j < out@.len() implies (#[trigger] t[j]) is Edit
                                && taken_over(out@[j], t[j]->Edit_0) by {
                                if j < i {
                                    assert(all.take(i)[j] == t[j]);
                                }
                            }
                        }
                    },
                }
            },
        }
    }
    assert(all.take(all.len() as int) =~= all);
    Ok(out)
}

impl TransactionalWorkspaceEdit {
    /// Takes over a workspace edit of a language server. A negative document version
    /// and a step that creates, renames or deletes a file are refused, and so is
    /// what `validate` refuses.
    pub fn try_from(edit: ServerWorkspaceEdit) -> (r: Result<Self, LspProtocolError>)
        ensures
            match server_edit(edit) {
                Err(f) => r is Err && r->Err_0@ == f,
                Ok(changes) => r is Ok && r->Ok_0.document_changes@ == changes,
            },
            r is Ok ==> (edit.document_changes matches Some(ServerDocumentChanges::Edits(edits))
                ==> r->Ok_0.document_changes@.len() == edits@.len() && forall|i: int|
                0 <= i < edits@.len() ==> edits_document(
                    #[trigger] r->Ok_0.document_changes@[i],
                    edits@[i].uri,
                    edits@[i].version,
                    edits@[i].edits,
                )),
            r is Ok ==> (edit.document_changes matches Some(
                ServerDocumentChanges::Operations(operations),
            ) ==> r->Ok_0.document_changes@.len() == operations@.len() && forall|i: int|
                0 <= i < operations@.len() ==> operations@[i] is Edit && edits_document(
                    #[trigger] r->Ok_0.document_changes@[i],
                    operations@[i]->Edit_0.uri,
                    operations@[i]->Edit_0.version,
                    operations@[i]->Edit_0.edits,
                )),
            r is Ok && edit.document_changes is None ==> (edit.changes matches Some(changes)
                ==> r->Ok_0.document_changes@.len() == changes@.len() && forall|i: int|
                0 <= i < changes@.len() ==> edits_document(
                    #[trigger] r->Ok_0.document_changes@[i],
                    changes@[i].0,
                    None,
                    changes@[i].1,
                )),
            edit.document_changes is None && edit.changes is None ==> r is Ok
                && r->Ok_0.document_changes@.len() == 0,
    {
        let ghost steps = server_operations(edit);
        proof {
            if let Ok(changes) = server_edit(edit) {
                server_edits_are_taken_over_in_full(edit, changes);
            }
        }
        let operations: Vec<ServerOperation> = match edit.document_changes {
            Some(ServerDocumentChanges::Operations(operations)) => operations,
            Some(ServerDocumentChanges::Edits(edits)) => {
                let mut operations: Vec<ServerOperation> = Vec::new();
                let ghost all = edits@;
                for e in it: edits
                    invariant
                        it.seq() == all,
                        operations@.len() == it.index(),
                        forall|j: int|
                            0 <= j < it.index() ==> operations@[j] == ServerOperation::Edit(all[j]),
                {
                    operations.push(ServerOperation::Edit(e));
                }
                assert(operations@ =~= steps);
                operations
            },
            None => {
                let changes: Vec<(String, Vec<LspTextEdit>)> = match edit.changes {
                    Some(changes) => changes,
                    None => Vec::new(),
                };
                let mut operations: Vec<ServerOperation> = Vec::new();
                let ghost all = changes@;
                for c in it: changes
                    invariant
                        it.seq() == all,
                        operations@.len() == it.index(),
                        forall|j: int|
                            0 <= j < it.index() ==> operations@[j] == ServerOperation::Edit(
                                (ServerDocumentEdit {
                                    uri: all[j].0,
                                    version: None,
                                    edits: all[j].1,
                                }),
                            ),
                {
                    operations.push(
                        ServerOperation::Edit(
                            ServerDocumentEdit { uri: c.0, version: None, edits: c.1 },
                        ),
                    );
                }
                assert(operations@ =~= steps);
                operations
            },
        };
        let document_changes = match take_over(operations) {
            Ok(changes) => changes,
            Err(e) => return Err(e),
        };
        assert(document_changes@ =~= steps.map_values(
            |o: ServerOperation| document_edit_of(o->Edit_0),
        ));
        let transactional = TransactionalWorkspaceEdit { document_changes };
        match transactional.validate() {
            Err(e) => Err(e),
            Ok(()) => Ok(transactional),
        }
    }
}

#[derive(Debug, PartialEq, Eq)]
#[allow(inconsistent_fields)]
pub enum LspV1 {
    Start { context: LspContext, config: LspServerConfig },
    Started { context: LspContext, capabilities: Json },
    Shutdown { context: LspContext },
    Exited { context: LspContext, exit_code: Option<i32> },
    JsonRpcRequest { context: LspContext, payload: LspJsonRpcRequest },
    JsonRpcResponse { context: LspContext, payload: LspJsonRpcResponse },
    JsonRpcNotification { context: LspContext, payload: LspJsonRpcNotification },
    PublishDiagnostics {
        context: LspContext,
        uri: String,
        version: Option<i32>,
        diagnostics: Vec<LspDiagnostic>,
    },
    WorkspaceEdit {
        context: LspContext,
        request_id: LspRequestId,
        edit: TransactionalWorkspaceEdit,
    },
    WorkspaceEditResult {
        context: LspContext,
        request_id: LspRequestId,
        applied: bool,
        reason: Option<String>,
    },
}

/// The context of a message.
pub open spec fn lsp_context(message: LspV1) -> LspContext {
    match message {
        LspV1::Start { context, .. } => context,
        LspV1::Started { context, .. } => context,
        LspV1::Shutdown { context } => context,
        LspV1::Exited { context, .. } => context,
        LspV1::JsonRpcRequest { context, .. } => context,
        LspV1::JsonRpcResponse { context, .. } => context,
        LspV1::JsonRpcNotification { context, .. } => context,
        LspV1::PublishDiagnostics { context, .. } => context,
        LspV1::WorkspaceEdit { context, .. } => context,
        LspV1::WorkspaceEditResult { context, .. } => context,
    }
}

/// The fault of the first diagnostic, from index `i` on, that has one.
pub open spec fn diagnostics_fault_from(diagnostics: Seq<LspDiagnostic>, i: int) -> Option<LspFault>
    decreases diagnostics.len() - i,
{
    if i >= diagnostics.len() {
        None
    } else if diagnostic_fault(diagnostics[i]) is Some {
        diagnostic_fault(diagnostics[i])
    } else {
        diagnostics_fault_from(diagnostics, i + 1)
    }
}

/// What is wrong with a message: its context first, then what it carries.
pub open spec fn lsp_message_fault(message: LspV1) -> Option<LspFault> {
    if context_fault(lsp_context(message)) is Some {
        context_fault(lsp_context(message))
    } else {
        match message {
            LspV1::Start { config, .. } => server_config_fault(config),
            LspV1::JsonRpcRequest { payload, .. } => rpc_request_fault(payload),
            LspV1::JsonRpcResponse { payload, .. } => rpc_response_fault(payload),
            LspV1::JsonRpcNotification { payload, .. } => method_fault(payload.method@),
            LspV1::PublishDiagnostics { uri, diagnostics, .. } => if uri@.len() == 0 {
                Some(LspFault::EmptyDocumentUri)
            } else {
                diagnostics_fault_from(diagnostics@, 0)
            },
            LspV1::WorkspaceEdit { edit, .. } => changes_fault_from(edit.document_changes@, 0),
            _ => None,
        }
    }
}

impl LspV1 {
    pub fn context(&self) -> (context: &LspContext)
        ensures
            *context == lsp_context(*self),
    {
        match self {
            LspV1::Start { context, .. } => context,
            LspV1::Started { context, .. } => context,
            LspV1::Shutdown { context } => context,
            LspV1::Exited { context, .. } => context,
            LspV1::JsonRpcRequest { context, .. } => context,
            LspV1::JsonRpcResponse { context, .. } => context,
            LspV1::JsonRpcNotification { context, .. } => context,
            LspV1::PublishDiagnostics { context, .. } => context,
            LspV1::WorkspaceEdit { context, .. } => context,
            LspV1::WorkspaceEditResult { context, .. } => context,
        }
    }

    /// Checks the context and what the message carries.
    pub fn validate(&self) -> (r: Result<(), LspProtocolError>)
        ensures
            checked(r, lsp_message_fault(*self)),
    {
        match self.context().validate() {
            Err(e) => return Err(e),
            Ok(()) => {},
        }
        match self {
            LspV1::Start { config, .. } => config.validate(),
            LspV1::JsonRpcRequest { payload, .. } => payload.validate(),
            LspV1::JsonRpcResponse { payload, .. } => payload.validate(),
            LspV1::JsonRpcNotification { payload, .. } => payload.validate(),
            LspV1::PublishDiagnostics { uri, diagnostics, .. } => {
                if uri.as_str().is_empty() {
                    return Err(LspProtocolError::EmptyDocumentUri);
                }
                let mut i: usize = 0;
                while i < diagnostics.len()
                    invariant
                        i <= diagnostics@.len(),
                        diagnostics_fault_from(diagnostics@, 0) == diagnostics_fault_from(
                            diagnostics@,
                            i as int,
                        ),
                        checked(
                            Ok(()),
                            lsp_message_fault(*self),
                        ) == (diagnostics_fault_from(diagnostics@, 0) is None),
                        lsp_message_fault(*self) == diagnostics_fault_from(diagnostics@, 0),
                    decreases diagnostics@.len() - i,
                {
                    match diagnostics[i].validate() {
                        Err(e) => return Err(e),
                        Ok(()) => {},
                    }
                    i += 1;
                }
                Ok(())
            },
            LspV1::WorkspaceEdit { edit, .. } => edit.validate(),
            _ => Ok(()),
        }
    }
}

/// A request is in order if and only if its method has 1 to 256 bytes and its identifier
/// is a number or a text of 1 to 256 bytes; a response needs such an identifier and a
/// result or an error, and a notification such a method.
pub proof fn messages_are_checked_for_their_names(
    request: LspJsonRpcRequest,
    response: LspJsonRpcResponse,
    method: Seq<char>,
)
    ensures
        method_fault(method) is None <==> method.len() > 0 && encode_utf8(method).len() <= 256,
        rpc_request_fault(request) is None <==> request.method@.len() > 0 && encode_utf8(
            request.method@,
        ).len() <= 256 && (request.id matches LspRequestId::String(s) ==> s@.len() > 0
            && encode_utf8(s@).len() <= 256),
        rpc_response_fault(response) is None <==> (response.result is Some
            || response.error is Some) && (response.id matches LspRequestId::String(s) ==> s@.len()
            > 0 && encode_utf8(s@).len() <= 256),
{
}

/// A server can be started if and only if its language, its program and its directory
/// are named and nothing of it holds NUL; a context needs an authority and a diagnostic
/// a message.
pub proof fn configurations_are_checked(
    config: LspServerConfig,
    context: LspContext,
    diagnostic: LspDiagnostic,
)
    ensures
        server_config_fault(config) is None <==> config.language_id@.len() > 0
            && config.program@.len() > 0 && config.cwd@.len() > 0 && !config.language_id@.contains(
            '\0',
        ) && !config.program@.contains('\0') && !config.cwd@.contains('\0') && (forall|i: int|
            0 <= i < config.args@.len() ==> !(#[trigger] config.args@[i])@.contains('\0')),
        context_fault(context) is None <==> context.authority_identity.0@.len() > 0,
        diagnostic_fault(diagnostic) is None <==> diagnostic.message@.len() > 0,
{
    if forall|i: int|
        0 <= i < config.args@.len() ==> !(#[trigger] config.args@[i])@.contains('\0') {
        assert forall|i: int| 0 <= i < config.args@.len() implies !has_nul(
            #[trigger] config.args@[i]@,
        ) by {
            assert(!config.args@[i]@.contains('\0'));
        }
    } else {
        let i = choose|i: int|
            0 <= i < config.args@.len() && (#[trigger] config.args@[i])@.contains('\0');
        assert(has_nul(config.args@[i]@));
    }
}

/// A message is taken if and only if its context and all that it carries are taken: of
/// diagnostics each one, and the document that they belong to.
pub proof fn messages_are_checked_whole(message: LspV1)
    ensures
        lsp_context(message).authority_identity.0@.len() == 0 ==> lsp_message_fault(message)
            is Some,
        message matches LspV1::PublishDiagnostics { uri, diagnostics, .. } ==> (lsp_message_fault(
            message,
        ) is None <==> lsp_context(message).authority_identity.0@.len() > 0 && uri@.len() > 0 && (
        forall|i: int|
            0 <= i < diagnostics@.len() ==> (#[trigger] diagnostics@[i]).message@.len() > 0)),
        message matches LspV1::JsonRpcNotification { payload, .. } && payload.method@.len() == 0
            ==> lsp_message_fault(message) is Some,
        message matches LspV1::JsonRpcRequest { payload, .. } && payload.method@.len() == 0
            ==> lsp_message_fault(message) is Some,
        message matches LspV1::JsonRpcResponse { payload, .. } && payload.result is None
            && payload.error is None ==> lsp_message_fault(message) is Some,
        message matches LspV1::Start { config, .. } && config.program@.len() == 0
            ==> lsp_message_fault(message) is Some,
{
    if let LspV1::PublishDiagnostics { diagnostics, .. } = message {
        lemma_diagnostics_fault(diagnostics@, 0);
    }
}

proof fn lemma_diagnostics_fault(diagnostics: Seq<LspDiagnostic>, i: int)
    requires
        0 <= i <= diagnostics.len(),
    ensures
        diagnostics_fault_from(diagnostics, i) is None <==> forall|k: int|
            i <= k < diagnostics.len() ==> (#[trigger] diagnostics[k]).message@.len() > 0,
    decreases diagnostics.len() - i,
{
    if i < diagnostics.len() {
        lemma_diagnostics_fault(diagnostics, i + 1);
        assert(diagnostic_fault(diagnostics[i]) is None <==> diagnostics[i].message@.len() > 0);
    }
}

/// Two contexts are the same only where they agree in every tag, in the place and in the
/// authority; a context is the same as itself.
pub proof fn contexts_are_told_apart(a: LspContext, b: LspContext)
    ensures
        a.equals(&a),
        a.equals(&b) == b.equals(&a),
        a.workspace_epoch != b.workspace_epoch ==> !a.equals(&b),
        a.environment_epoch != b.environment_epoch ==> !a.equals(&b),
        a.document_revision != b.document_revision ==> !a.equals(&b),
        a.sent_version != b.sent_version ==> !a.equals(&b),
        a.session_generation != b.session_generation ==> !a.equals(&b),
        a.execution_context@ != b.execution_context@ ==> !a.equals(&b),
        a.authority_identity.0@ != b.authority_identity.0@ ==> !a.equals(&b),
{
}

} // verus!
