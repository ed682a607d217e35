//! Language servers on the remote machine: their sessions, the frames that they
//! are spoken to in, and what becomes of the frames that they write.
use vstd::prelude::*;
use vstd::utf8::encode_utf8;

use crate::json::{
    first_named, json_member, json_signed, json_text, members_are_found_by_name, none_named, Json,
};
use crate::protocol::lsp::{
    fit_server_edits_are_taken_over, is_fit, server_config_fault, server_edit,
    server_edits_are_taken_over_in_full, LspContext, LspDiagnostic, LspJsonRpcError,
    LspJsonRpcNotification, LspJsonRpcRequest, LspJsonRpcResponse, LspRequestId, LspServerConfig,
    LspV1, ServerDocumentChanges, ServerDocumentEdit, ServerWorkspaceEdit,
    TransactionalWorkspaceEdit,
};
use crate::protocol::request::ExecutionContextV1;
use crate::text::{chars_of, str_eq, string_of};
use crate::words::{
    begins_with, decimal, decimal_is_read_back, decimal_text, is_digit, is_space, join3,
    parse_size, size_of_text, starts_with, sub_chars, trim, trimmed,
};

verus! {

/// The longest body that is written to a server, in bytes.
pub const LSP_STDIN_LIMIT: usize = 1048576;

/// The longest body that is read from a server, in bytes.
pub const LSP_FRAME_LIMIT: usize = 8388608;

/// The most error output that is read from a server, in bytes.
pub const LSP_STDERR_LIMIT: usize = 65536;

/// The most servers at once.
pub const MAX_LSP_SESSIONS: usize = 16;

/// The most requests of one server that are not answered yet.
pub const MAX_PENDING_SERVER_REQUESTS: usize = 256;

/// The error code for a method that nobody has.
pub const METHOD_NOT_FOUND: i64 = -32601;

/// The error code for parameters that do not fit.
pub const INVALID_PARAMS: i64 = -32602;

/// The error code for what failed on this side.
pub const INTERNAL_ERROR: i64 = -32603;

/// A server, and the requests of it that are not answered yet.
#[derive(Debug)]
pub struct LspSession {
    pub context: LspContext,
    pub pending: Vec<LspRequestId>,
}

/// The servers that run.
#[derive(Debug)]
pub struct LspSessions {
    pub sessions: Vec<LspSession>,
}

/// What is done with a message.
#[derive(Debug)]
#[allow(inconsistent_fields)]
pub enum LspStep {
    Nothing,
    /// An answer goes to the editor.
    Send(LspV1),
    /// A server is started.
    Launch { context: LspContext, config: LspServerConfig },
    /// A server is ended, and the answer goes to the editor.
    End { answer: LspV1 },
    /// A value is written to a server; whether it is a request of the editor.
    Write { context: LspContext, frame: Json, request: bool },
}

/// The message that a server has ended, without an exit code.
pub open spec fn exited(context: LspContext) -> LspV1 {
    LspV1::Exited { context, exit_code: None }
}

/// The first session under a context, from index `i` on; the number of sessions if
/// there is none.
pub open spec fn session_from(sessions: Seq<LspSession>, context: LspContext, i: int) -> int
    decreases sessions.len() - i,
{
    if i >= sessions.len() {
        sessions.len() as int
    } else if sessions[i].context.equals(&context) {
        i
    } else {
        session_from(sessions, context, i + 1)
    }
}

/// The place of the session under a context.
pub open spec fn session_at(s: LspSessions, context: LspContext) -> int {
    session_from(s.sessions@, context, 0)
}

/// Whether there is a session under a context.
pub open spec fn has_session(s: LspSessions, context: LspContext) -> bool {
    session_at(s, context) < s.sessions@.len()
}

/// Whether a server cannot be started under a context: another place than the root
/// of the authority, a bad configuration, or too many servers.
pub open spec fn start_refused(s: LspSessions, context: LspContext, config: LspServerConfig) ->
    bool {
    !(context.execution_context is AuthorityRoot) || server_config_fault(config) is Some
        || s.sessions@.len() >= MAX_LSP_SESSIONS
}

/// Whether a member of an object has a name and a text.
pub open spec fn text_member(m: (String, Json), name: Seq<char>, text: Seq<char>) -> bool {
    m.0@ == name && json_text(m.1) == Some(text)
}

/// Whether a member of an object has a name and a value.
pub open spec fn value_member(m: (String, Json), name: Seq<char>, value: Json) -> bool {
    m.0@ == name && m.1 == value
}

/// The value for a request identifier.
pub open spec fn id_value(id: LspRequestId) -> Json {
    match id {
        LspRequestId::Number(n) => Json::Int(n),
        LspRequestId::String(s) => Json::Text(s),
    }
}

/// The value for something that may be missing.
pub open spec fn or_null(value: Option<Json>) -> Json {
    match value {
        Some(v) => v,
        None => Json::Null,
    }
}

/// Whether a value asks a server for something.
pub open spec fn is_request_frame(frame: Json, request: LspJsonRpcRequest) -> bool {
    frame matches Json::Object(m) && m@.len() == 4 && text_member(m@[0], "jsonrpc"@, "2.0"@)
        && value_member(m@[1], "id"@, id_value(request.id)) && value_member(
        m@[2],
        "method"@,
        Json::Text(request.method),
    ) && value_member(m@[3], "params"@, or_null(request.params))
}

/// Whether a value tells a server something.
pub open spec fn is_notification_frame(frame: Json, n: LspJsonRpcNotification) -> bool {
    frame matches Json::Object(m) && m@.len() == 3 && text_member(m@[0], "jsonrpc"@, "2.0"@)
        && value_member(m@[1], "method"@, Json::Text(n.method)) && value_member(
        m@[2],
        "params"@,
        or_null(n.params),
    )
}

/// Whether a value tells whether a workspace edit was made.
pub open spec fn is_edit_outcome(result: Json, applied: bool, reason: Option<String>) -> bool {
    result matches Json::Object(m) && if applied {
        m@.len() == 1 && value_member(m@[0], "applied"@, Json::Bool(true))
    } else {
        m@.len() == 2 && value_member(m@[0], "applied"@, Json::Bool(false)) && value_member(
            m@[1],
            "failureReason"@,
            match reason {
                Some(text) => Json::Text(text),
                None => Json::Null,
            },
        )
    }
}

/// Whether a value answers the workspace edit of a server.
pub open spec fn is_edit_answer(
    frame: Json,
    id: LspRequestId,
    applied: bool,
    reason: Option<String>,
) -> bool {
    frame matches Json::Object(m) && m@.len() == 3 && text_member(m@[0], "jsonrpc"@, "2.0"@)
        && value_member(m@[1], "id"@, id_value(id)) && m@[2].0@ == "result"@ && is_edit_outcome(
        m@[2].1,
        applied,
        reason,
    )
}

/// Whether a value refuses a request of a server.
pub open spec fn is_refusal(frame: Json, id: LspRequestId, code: i64, message: Seq<char>) -> bool {
    frame matches Json::Object(m) && m@.len() == 3 && text_member(m@[0], "jsonrpc"@, "2.0"@)
        && value_member(m@[1], "id"@, id_value(id)) && m@[2].0@ == "error"@ && (
    m@[2].1 matches Json::Object(e) && e@.len() == 2 && value_member(
        e@[0],
        "code"@,
        Json::Int(code),
    ) && text_member(e@[1], "message"@, message))
}

fn id_json(id: LspRequestId) -> (value: Json)
    ensures
        value == id_value(id),
{
    match id {
        LspRequestId::Number(n) => Json::Int(n),
        LspRequestId::String(s) => Json::Text(s),
    }
}

fn json_or_null(value: Option<Json>) -> (out: Json)
    ensures
        out == or_null(value),
{
    match value {
        Some(v) => v,
        None => Json::Null,
    }
}

fn version_member() -> (m: (String, Json))
    ensures
        text_member(m, "jsonrpc"@, "2.0"@),
{
    ("jsonrpc".to_owned(), Json::Text("2.0".to_owned()))
}

/// The value that asks a server for something.
pub fn request_frame(request: LspJsonRpcRequest) -> (frame: Json)
    ensures
        is_request_frame(frame, request),
{
    let mut m: Vec<(String, Json)> = Vec::new();
    m.push(version_member());
    m.push(("id".to_owned(), id_json(request.id)));
    m.push(("method".to_owned(), Json::Text(request.method)));
    m.push(("params".to_owned(), json_or_null(request.params)));
    Json::Object(m)
}

/// The value that tells a server something.
pub fn notification_frame(n: LspJsonRpcNotification) -> (frame: Json)
    ensures
        is_notification_frame(frame, n),
{
    let mut m: Vec<(String, Json)> = Vec::new();
    m.push(version_member());
    m.push(("method".to_owned(), Json::Text(n.method)));
    m.push(("params".to_owned(), json_or_null(n.params)));
    Json::Object(m)
}

/// The value that answers the workspace edit of a server.
pub fn edit_answer(id: LspRequestId, applied: bool, reason: Option<String>) -> (frame: Json)
    ensures
        is_edit_answer(frame, id, applied, reason),
{
    let mut result: Vec<(String, Json)> = Vec::new();
    result.push(("applied".to_owned(), Json::Bool(applied)));
    if !applied {
        let why = match reason {
            Some(text) => Json::Text(text),
            None => Json::Null,
        };
        result.push(("failureReason".to_owned(), why));
    }
    let mut m: Vec<(String, Json)> = Vec::new();
    m.push(version_member());
    m.push(("id".to_owned(), id_json(id)));
    m.push(("result".to_owned(), Json::Object(result)));
    Json::Object(m)
}

/// The value that refuses a request of a server.
pub fn refusal(id: LspRequestId, code: i64, message: &str) -> (frame: Json)
    ensures
        is_refusal(frame, id, code, message@),
{
    let mut e: Vec<(String, Json)> = Vec::new();
    e.push(("code".to_owned(), Json::Int(code)));
    e.push(("message".to_owned(), Json::Text(message.to_owned())));
    let mut m: Vec<(String, Json)> = Vec::new();
    m.push(version_member());
    m.push(("id".to_owned(), id_json(id)));
    m.push(("error".to_owned(), Json::Object(e)));
    Json::Object(m)
}

/// The identifier that a value is: a whole number, or a text that is not empty.
pub open spec fn id_of(value: Json) -> Option<LspRequestId> {
    match json_signed(value) {
        Some(n) => Some(LspRequestId::Number(n)),
        None => match value {
            Json::Text(s) => if s@.len() > 0 {
                Some(LspRequestId::String(s))
            } else {
                None
            },
            _ => None,
        },
    }
}

/// The identifier that a value is.
pub fn parse_request_id(value: &Json) -> (id: Option<LspRequestId>)
    ensures
        id == id_of(*value),
{
    if let Some(n) = value.as_i64() {
        return Some(LspRequestId::Number(n));
    }
    match value {
        Json::Text(s) => if s.as_str().is_empty() {
            None
        } else {
            Some(LspRequestId::String(s.clone()))
        },
        _ => None,
    }
}

/// Diagnostics as a server publishes them.
#[derive(Debug)]
pub struct Published {
    pub uri: String,
    pub version: Option<i32>,
    pub diagnostics: Vec<LspDiagnostic>,
}

/// What the members of a frame are as typed values, where they fit: the error of an
/// answer, the edit of a workspace edit, and published diagnostics.
#[derive(Debug)]
pub struct Decoded {
    pub error: Option<LspJsonRpcError>,
    pub edit: Option<ServerWorkspaceEdit>,
    pub published: Option<Published>,
}

/// The method name of a frame; empty if there is none.
pub open spec fn method_of(frame: Json) -> Seq<char> {
    match json_member(frame, "method"@) {
        Some(m) => match json_text(m) {
            Some(text) => text,
            None => Seq::empty(),
        },
        None => Seq::empty(),
    }
}

/// Whether a frame has a result or an error.
pub open spec fn is_answer(frame: Json) -> bool {
    json_member(frame, "result"@) is Some || json_member(frame, "error"@) is Some
}

/// Whether an identifier is among those that are not answered yet.
pub open spec fn is_pending(pending: Seq<LspRequestId>, id: LspRequestId) -> bool {
    exists|i: int| 0 <= i < pending.len() && (#[trigger] pending[i])@ == id@
}

/// Whether a step writes a refusal to the server of a session.
pub open spec fn refuses(
    step: LspStep,
    session: LspSession,
    id: LspRequestId,
    code: i64,
    message: Seq<char>,
) -> bool {
    step matches LspStep::Write { context, frame, request } && context == session.context && !request
        && is_refusal(frame, id, code, message)
}

/// What is done with a workspace edit that a server asks for.
pub open spec fn edit_received(
    before: LspSession,
    id: LspRequestId,
    edit: Option<ServerWorkspaceEdit>,
    after: LspSession,
    step: LspStep,
) -> bool {
    match edit {
        Some(e) => match server_edit(e) {
            Ok(changes) => if before.pending@.len() < MAX_PENDING_SERVER_REQUESTS && !is_pending(
                before.pending@,
                id,
            ) {
                &&& after == LspSession { pending: after.pending, ..before }
                &&& after.pending@ == before.pending@.push(id)
                &&& step matches LspStep::Send(m) && (m matches LspV1::WorkspaceEdit {
                    context,
                    request_id,
                    edit: out,
                } && context == before.context && request_id == id && out.document_changes@
                    == changes)
            } else {
                after == before && refuses(
                    step,
                    before,
                    id,
                    INTERNAL_ERROR,
                    "workspace edit capacity exceeded"@,
                )
            },
            Err(_) => after == before && refuses(
                step,
                before,
                id,
                INVALID_PARAMS,
                "invalid workspace edit"@,
            ),
        },
        None => after == before && refuses(step, before, id, INVALID_PARAMS, "invalid workspace edit"@),
    }
}

/// What is done with a frame of a server: an answer and a notification go to the
/// editor, a workspace edit does so unless too many wait, any other request is
/// refused, and what is none of these is dropped.
pub open spec fn frame_received(
    before: LspSession,
    frame: Json,
    decoded: Decoded,
    after: LspSession,
    step: LspStep,
) -> bool {
    let method = method_of(frame);
    match json_member(frame, "id"@) {
        Some(value) => if is_answer(frame) {
            &&& after == before
            &&& step == match id_of(value) {
                Some(id) => LspStep::Send(
                    LspV1::JsonRpcResponse {
                        context: before.context,
                        payload: LspJsonRpcResponse {
                            id,
                            result: json_member(frame, "result"@),
                            error: decoded.error,
                        },
                    },
                ),
                None => LspStep::Nothing,
            }
        } else if method.len() > 0 {
            match id_of(value) {
                Some(id) => if method == "workspace/applyEdit"@ {
                    edit_received(before, id, decoded.edit, after, step)
                } else {
                    after == before && refuses(step, before, id, METHOD_NOT_FOUND, "method not supported"@)
                },
                None => after == before && step == LspStep::Nothing,
            }
        } else {
            after == before && step == LspStep::Nothing
        },
        None => {
            &&& after == before
            &&& if method.len() == 0 {
                step == LspStep::Nothing
            } else if method == "textDocument/publishDiagnostics"@ && json_member(
                frame,
                "params"@,
            ) is Some && decoded.published is Some {
                step == LspStep::Send(
                    LspV1::PublishDiagnostics {
                        context: before.context,
                        uri: decoded.published->0.uri,
                        version: decoded.published->0.version,
                        diagnostics: decoded.published->0.diagnostics,
                    },
                )
            } else {
                step matches LspStep::Send(m) && (m matches LspV1::JsonRpcNotification {
                    context,
                    payload,
                } && context == before.context && payload.method@ == method && payload.params
                    == json_member(frame, "params"@))
            }
        },
    }
}

impl LspSession {
    /// Whether no more requests wait than may, and each once.
    pub open spec fn wf(&self) -> bool {
        &&& self.pending@.len() <= MAX_PENDING_SERVER_REQUESTS
        &&& forall|i: int, j: int|
            0 <= i < j < self.pending@.len() ==> (#[trigger] self.pending@[i])@ != (
            #[trigger] self.pending@[j])@
    }

    fn find_pending(&self, id: &LspRequestId) -> (at: Option<usize>)
        ensures
            match at {
                Some(i) => i < self.pending@.len() && self.pending@[i as int]@ == id@,
                None => !is_pending(self.pending@, *id),
            },
    {
        for i in 0..self.pending.len()
            invariant
                forall|j: int| 0 <= j < i ==> (#[trigger] self.pending@[j])@ != id@,
        {
            if self.pending[i].same(id) {
                return Some(i);
            }
        }
        None
    }

    fn receive_edit(&mut self, id: LspRequestId, edit: Option<ServerWorkspaceEdit>) -> (step:
        LspStep)
        requires
            old(self).wf(),
        ensures
            final(self).wf(),
            edit_received(*old(self), id, edit, *final(self), step),
    {
        let taken: Option<TransactionalWorkspaceEdit> = match edit {
            Some(e) => match TransactionalWorkspaceEdit::try_from(e) {
                Ok(out) => Some(out),
                Err(_) => None,
            },
            None => None,
        };
        match taken {
            Some(out) => {
                let room = self.pending.len() < MAX_PENDING_SERVER_REQUESTS;
                if room && self.find_pending(&id).is_none() {
                    let ghost before = self.pending@;
                    self.pending.push(id.clone());
                    proof {
                        assert forall|i: int, j: int|
                            0 <= i < j < self.pending@.len() implies (#[trigger] self.pending@[i])@
                            != (#[trigger] self.pending@[j])@ by {
                            assert(self.pending@[i] == before[i]);
                            if j < before.len() {
                                assert(self.pending@[j] == before[j]);
                            }
                        }
                    }
                    LspStep::Send(
                        LspV1::WorkspaceEdit {
                            context: self.context.clone(),
                            request_id: id,
                            edit: out,
                        },
                    )
                } else {
                    self.refuse(id, INTERNAL_ERROR, "workspace edit capacity exceeded")
                }
            },
            None => self.refuse(id, INVALID_PARAMS, "invalid workspace edit"),
        }
    }

    fn refuse(&self, id: LspRequestId, code: i64, message: &str) -> (step: LspStep)
        ensures
            refuses(step, *self, id, code, message@),
    {
        LspStep::Write {
            context: self.context.clone(),
            frame: refusal(id, code, message),
            request: false,
        }
    }

    /// What is done with a frame that the server wrote.
    pub fn receive(&mut self, frame: Json, decoded: Decoded) -> (step: LspStep)
        requires
            old(self).wf(),
        ensures
            final(self).wf(),
            frame_received(*old(self), frame, decoded, *final(self), step),
    {
        let mut frame = frame;
        let ghost whole = frame;
        proof {
            reveal_strlit("result");
            reveal_strlit("params");
            assert("result"@[0] != "params"@[0]);
        }
        let method: String = match frame.get("method") {
            Some(m) => match m.as_str() {
                Some(text) => text.to_owned(),
                None => String::new(),
            },
            None => String::new(),
        };
        assert(method@ =~= method_of(whole));
        let answer = frame.get("result").is_some() || frame.get("error").is_some();
        let id: Option<Option<LspRequestId>> = match frame.get("id") {
            Some(value) => Some(parse_request_id(value)),
            None => None,
        };
        match id {
            Some(id) => {
                if answer {
                    match id {
                        Some(id) => {
                            let result = frame.take("result");
                            LspStep::Send(
                                LspV1::JsonRpcResponse {
                                    context: self.context.clone(),
                                    payload: LspJsonRpcResponse {
                                        id,
                                        result,
                                        error: decoded.error,
                                    },
                                },
                            )
                        },
                        None => LspStep::Nothing,
                    }
                } else if !method.as_str().is_empty() {
                    match id {
                        Some(id) => if str_eq(method.as_str(), "workspace/applyEdit") {
                            self.receive_edit(id, decoded.edit)
                        } else {
                            self.refuse(id, METHOD_NOT_FOUND, "method not supported")
                        },
                        None => LspStep::Nothing,
                    }
                } else {
                    LspStep::Nothing
                }
            },
            None => {
                if method.as_str().is_empty() {
                    return LspStep::Nothing;
                }
                let params = frame.take("params");
                if str_eq(method.as_str(), "textDocument/publishDiagnostics") && params.is_some() {
                    if let Some(p) = decoded.published {
                        return LspStep::Send(
                            LspV1::PublishDiagnostics {
                                context: self.context.clone(),
                                uri: p.uri,
                                version: p.version,
                                diagnostics: p.diagnostics,
                            },
                        );
                    }
                }
                LspStep::Send(
                    LspV1::JsonRpcNotification {
                        context: self.context.clone(),
                        payload: LspJsonRpcNotification { method, params },
                    },
                )
            },
        }
    }

    /// Takes back a workspace edit that could not be sent to the editor, and refuses
    /// it.
    pub fn edit_not_delivered(&mut self, id: LspRequestId) -> (step: LspStep)
        requires
            old(self).wf(),
        ensures
            final(self).wf(),
            *final(self) == (LspSession { pending: final(self).pending, ..*old(self) }),
            !is_pending(final(self).pending@, id),
            forall|other: LspRequestId|
                other@ != id@ ==> (#[trigger] is_pending(final(self).pending@, other)
                    == is_pending(old(self).pending@, other)),
            is_pending(old(self).pending@, id) ==> final(self).pending@.len() == old(
                self,
            ).pending@.len() - 1,
            !is_pending(old(self).pending@, id) ==> final(self).pending == old(self).pending,
            refuses(step, *old(self), id, INTERNAL_ERROR, "workspace edit handler unavailable"@),
    {
        self.forget(&id);
        self.refuse(id, INTERNAL_ERROR, "workspace edit handler unavailable")
    }

    /// Takes a request out of those that wait, if it is among them.
    fn forget(&mut self, id: &LspRequestId) -> (was_pending: bool)
        requires
            old(self).wf(),
        ensures
            final(self).wf(),
            *final(self) == (LspSession { pending: final(self).pending, ..*old(self) }),
            was_pending == is_pending(old(self).pending@, *id),
            !is_pending(final(self).pending@, *id),
            !was_pending ==> *final(self) == *old(self),
            was_pending ==> final(self).pending@.len() == old(self).pending@.len() - 1,
            forall|other: LspRequestId|
                other@ != id@ ==> (#[trigger] is_pending(final(self).pending@, other)
                    == is_pending(old(self).pending@, other)),
    {
        let ghost before = self.pending@;
        match self.find_pending(id) {
            Some(i) => {
                self.pending.remove(i);
                let ghost after = self.pending@;
                proof {
                    assert(after == before.remove(i as int));
                    assert forall|a: int, b: int| 0 <= a < b < after.len() implies (
                    #[trigger] after[a])@ != (#[trigger] after[b])@ by {
                        let x = if a < i { a } else { a + 1 };
                        let y = if b < i { b } else { b + 1 };
                        assert(after[a] == before[x] && after[b] == before[y]);
                    }
                    assert(is_pending(before, *id));
                    if is_pending(after, *id) {
                        let a = choose|a: int| 0 <= a < after.len() && (#[trigger] after[a])@ == id@;
                        let x = if a < i { a } else { a + 1 };
                        assert(after[a] == before[x]);
                        assert(before[i as int]@ == before[x]@);
                        if x < i {
                            assert(before[x]@ != before[i as int]@);
                        } else {
                            assert(before[i as int]@ != before[x]@);
                        }
                    }
                    assert forall|other: LspRequestId| other@ != id@ implies (#[trigger] is_pending(
                        after,
                        other,
                    ) == is_pending(before, other)) by {
                        if is_pending(before, other) {
                            let x = choose|x: int|
                                0 <= x < before.len() && (#[trigger] before[x])@ == other@;
                            let a = if x < i { x } else { x - 1 };
                            assert(after[a] == before[x]);
                        }
                        if is_pending(after, other) {
                            let a = choose|a: int|
                                0 <= a < after.len() && (#[trigger] after[a])@ == other@;
                            let x = if a < i { a } else { a + 1 };
                            assert(after[a] == before[x]);
                        }
                    }
                }
                true
            },
            None => false,
        }
    }
}

/// The sessions without the one under a context.
pub open spec fn without_session(s: LspSessions, context: LspContext) -> Seq<LspSession> {
    if has_session(s, context) {
        s.sessions@.remove(session_at(s, context))
    } else {
        s.sessions@
    }
}

/// What is done with a message of the editor.
pub open spec fn editor_step(
    before: LspSessions,
    message: LspV1,
    after: LspSessions,
    step: LspStep,
) -> bool {
    match message {
        LspV1::Start { context, config } => {
            &&& after.sessions@ == before.sessions@
            &&& step == if start_refused(before, context, config) {
                LspStep::Send(exited(context))
            } else if has_session(before, context) {
                LspStep::Nothing
            } else {
                LspStep::Launch { context, config }
            }
        },
        LspV1::Shutdown { context } => {
            &&& after.sessions@ == without_session(before, context)
            &&& step == if has_session(before, context) {
                LspStep::End { answer: exited(context) }
            } else {
                LspStep::Nothing
            }
        },
        LspV1::JsonRpcRequest { context, payload } => {
            &&& after.sessions@ == before.sessions@
            &&& if has_session(before, context) {
                step matches LspStep::Write { context: c, frame, request } && c == context && request
                    && is_request_frame(frame, payload)
            } else {
                step == LspStep::Nothing
            }
        },
        LspV1::JsonRpcNotification { context, payload } => {
            &&& after.sessions@ == before.sessions@
            &&& if has_session(before, context) {
                step matches LspStep::Write { context: c, frame, request } && c == context && !request
                    && is_notification_frame(frame, payload)
            } else {
                step == LspStep::Nothing
            }
        },
        LspV1::WorkspaceEditResult { context, request_id, applied, reason } => {
            let at = session_at(before, context);
            if has_session(before, context) && is_pending(
                before.sessions@[at].pending@,
                request_id,
            ) {
                &&& after.sessions@ == before.sessions@.update(at, after.sessions@[at])
                &&& answered(before.sessions@[at], request_id, after.sessions@[at])
                &&& step matches LspStep::Write { context: c, frame, request } && c == context && !request
                    && is_edit_answer(frame, request_id, applied, reason)
            } else {
                after.sessions@ == before.sessions@ && step == LspStep::Nothing
            }
        },
        _ => after.sessions@ == before.sessions@ && step == LspStep::Nothing,
    }
}

/// Whether a session is as before but for one request, which no longer waits.
pub open spec fn answered(before: LspSession, id: LspRequestId, after: LspSession) -> bool {
    &&& after == LspSession { pending: after.pending, ..before }
    &&& after.pending@.len() == before.pending@.len() - 1
    &&& !is_pending(after.pending@, id)
    &&& forall|other: LspRequestId|
        other@ != id@ ==> (#[trigger] is_pending(after.pending@, other) == is_pending(
            before.pending@,
            other,
        ))
}

impl LspSessions {
    /// Whether no more servers run than may, and each under a context of its own.
    pub open spec fn wf(&self) -> bool {
        &&& self.sessions@.len() <= MAX_LSP_SESSIONS
        &&& forall|i: int| 0 <= i < self.sessions@.len() ==> (#[trigger] self.sessions@[i]).wf()
        &&& forall|i: int, j: int|
            0 <= i < j < self.sessions@.len() ==> !(#[trigger] self.sessions@[i]).context.equals(
                &(#[trigger] self.sessions@[j]).context,
            )
    }

    pub fn new() -> (s: Self)
        ensures
            s.wf(),
            s.sessions@.len() == 0,
    {
        LspSessions { sessions: Vec::new() }
    }

    fn find(&self, context: &LspContext) -> (at: usize)
        ensures
            at == session_at(*self, *context),
            at <= self.sessions@.len(),
            at < self.sessions@.len() ==> self.sessions@[at as int].context.equals(context),
            forall|j: int|
                0 <= j < at ==> !(#[trigger] self.sessions@[j]).context.equals(context),
    {
        let mut i: usize = 0;
        while i < self.sessions.len()
            invariant
                i <= self.sessions@.len(),
                session_at(*self, *context) == session_from(self.sessions@, *context, i as int),
                forall|j: int|
                    0 <= j < i ==> !(#[trigger] self.sessions@[j]).context.equals(context),
            decreases self.sessions@.len() - i,
        {
            if self.sessions[i].context.same(context) {
                return i;
            }
            i += 1;
        }
        i
    }

    /// What is done with a message of the editor.
    pub fn handle_lsp(&mut self, message: LspV1) -> (step: LspStep)
        requires
            old(self).wf(),
        ensures
            final(self).wf(),
            editor_step(*old(self), message, *final(self), step),
    {
        match message {
            LspV1::Start { context, config } => self.handle_start(context, config),
            LspV1::Shutdown { context } => self.drop_session(context),
            LspV1::JsonRpcRequest { context, payload } => {
                let at: usize = self.find(&context);
                if at < self.sessions.len() {
                    LspStep::Write { context, frame: request_frame(payload), request: true }
                } else {
                    LspStep::Nothing
                }
            },
            LspV1::JsonRpcNotification { context, payload } => {
                let at: usize = self.find(&context);
                if at < self.sessions.len() {
                    LspStep::Write { context, frame: notification_frame(payload), request: false }
                } else {
                    LspStep::Nothing
                }
            },
            LspV1::WorkspaceEditResult { context, request_id, applied, reason } => {
                let at: usize = self.find(&context);
                if at < self.sessions.len() {
                    let ghost before = self.sessions@;
                    let was_pending = self.sessions[at].forget(&request_id);
                    proof {
                        let after = self.sessions@;
                        assert(after =~= before.update(at as int, after[at as int]));
                        self.lemma_same_contexts(before);
                        assert(!was_pending ==> after =~= before);
                    }
                    if was_pending {
                        return LspStep::Write {
                            context,
                            frame: edit_answer(request_id, applied, reason),
                            request: false,
                        };
                    }
                }
                LspStep::Nothing
            },
            _ => LspStep::Nothing,
        }
    }

    /// Whether a server is started for the editor.
    fn handle_start(&self, context: LspContext, config: LspServerConfig) -> (step: LspStep)
        ensures
            step == if start_refused(*self, context, config) {
                LspStep::Send(exited(context))
            } else if has_session(*self, context) {
                LspStep::Nothing
            } else {
                LspStep::Launch { context, config }
            },
    {
        let at_root = match context.execution_context {
            ExecutionContextV1::AuthorityRoot => true,
            ExecutionContextV1::DevContainer { .. } => false,
        };
        let bad = match config.validate() {
            Ok(()) => false,
            Err(_) => true,
        };
        if !at_root || bad || self.sessions.len() >= MAX_LSP_SESSIONS {
            return LspStep::Send(LspV1::Exited { context, exit_code: None });
        }
        if self.find(&context) < self.sessions.len() {
            return LspStep::Nothing;
        }
        LspStep::Launch { context, config }
    }

    /// Takes note of a server that was started, and tells the editor.
    pub fn started(&mut self, context: LspContext) -> (message: LspV1)
        requires
            old(self).wf(),
            old(self).sessions@.len() < MAX_LSP_SESSIONS,
            !has_session(*old(self), context),
        ensures
            final(self).wf(),
            final(self).sessions@.len() == old(self).sessions@.len() + 1,
            final(self).sessions@.drop_last() == old(self).sessions@,
            final(self).sessions@.last().context == context,
            final(self).sessions@.last().pending@.len() == 0,
            message matches LspV1::Started { context: c, capabilities } && c == context
                && (capabilities matches Json::Object(m) && m@.len() == 0),
    {
        let at: usize = self.find(&context);
        let told = context.clone();
        let ghost before = self.sessions@;
        self.sessions.push(LspSession { context, pending: Vec::new() });
        proof {
            assert forall|i: int| 0 <= i < self.sessions@.len() implies (
            #[trigger] self.sessions@[i]).wf() by {
                if i < before.len() {
                    assert(self.sessions@[i] == before[i]);
                }
            }
            assert forall|i: int, j: int| 0 <= i < j < self.sessions@.len() implies !(
            #[trigger] self.sessions@[i]).context.equals(
                &(#[trigger] self.sessions@[j]).context,
            ) by {
                assert(self.sessions@[i] == before[i]);
                if j < before.len() {
                    assert(self.sessions@[j] == before[j]);
                }
            }
            assert(self.sessions@.drop_last() =~= before);
        }
        LspV1::Started { context: told, capabilities: Json::Object(Vec::new()) }
    }

    /// What is done when a value could not be written to a server: a request of the
    /// editor that is lost ends the server, and nothing else does.
    pub fn write_failed(&mut self, context: LspContext, request: bool) -> (step: LspStep)
        requires
            old(self).wf(),
        ensures
            final(self).wf(),
            if request {
                &&& final(self).sessions@ == without_session(*old(self), context)
                &&& step == if has_session(*old(self), context) {
                    LspStep::End { answer: exited(context) }
                } else {
                    LspStep::Nothing
                }
            } else {
                *final(self) == *old(self) && step == LspStep::Nothing
            },
    {
        if request {
            self.drop_session(context)
        } else {
            LspStep::Nothing
        }
    }

    /// Ends the server under a context, if there is one, and tells the editor.
    pub fn drop_session(&mut self, context: LspContext) -> (step: LspStep)
        requires
            old(self).wf(),
        ensures
            final(self).wf(),
            final(self).sessions@ == without_session(*old(self), context),
            step == if has_session(*old(self), context) {
                LspStep::End { answer: exited(context) }
            } else {
                LspStep::Nothing
            },
    {
        let at: usize = self.find(&context);
        let ghost before = self.sessions@;
        if at < self.sessions.len() {
            self.sessions.remove(at);
            proof {
                let after = self.sessions@;
                assert forall|i: int| 0 <= i < after.len() implies (#[trigger] after[i]).wf() by {
                    let x = if i < at { i } else { i + 1 };
                    assert(after[i] == before[x]);
                }
                assert forall|i: int, j: int| 0 <= i < j < after.len() implies !(
                #[trigger] after[i]).context.equals(&(#[trigger] after[j]).context) by {
                    let x = if i < at { i } else { i + 1 };
                    let y = if j < at { j } else { j + 1 };
                    assert(after[i] == before[x] && after[j] == before[y]);
                }
            }
            return LspStep::End { answer: LspV1::Exited { context, exit_code: None } };
        }
        LspStep::Nothing
    }

    /// What is done with a frame that the server under a context wrote.
    pub fn receive(&mut self, context: &LspContext, frame: Json, decoded: Decoded) -> (step: LspStep)
        requires
            old(self).wf(),
        ensures
            final(self).wf(),
            ({
                let at = session_at(*old(self), *context);
                if has_session(*old(self), *context) {
                    &&& final(self).sessions@ == old(self).sessions@.update(
                        at,
                        final(self).sessions@[at],
                    )
                    &&& frame_received(
                        old(self).sessions@[at],
                        frame,
                        decoded,
                        final(self).sessions@[at],
                        step,
                    )
                } else {
                    final(self).sessions@ == old(self).sessions@ && step == LspStep::Nothing
                }
            }),
    {
        let at: usize = self.find(context);
        let ghost before = self.sessions@;
        if at >= self.sessions.len() {
            return LspStep::Nothing;
        }
        let step = self.sessions[at].receive(frame, decoded);
        proof {
            assert(self.sessions@ =~= before.update(at as int, self.sessions@[at as int]));
            self.lemma_same_contexts(before);
        }
        step
    }

    proof fn lemma_same_contexts(&self, before: Seq<LspSession>)
        requires
            before.len() <= MAX_LSP_SESSIONS,
            self.sessions@.len() == before.len(),
            forall|i: int| 0 <= i < before.len() ==> (#[trigger] self.sessions@[i]).wf(),
            forall|i: int|
                0 <= i < before.len() ==> (#[trigger] self.sessions@[i]).context
                    == before[i].context,
            forall|i: int, j: int|
                0 <= i < j < before.len() ==> !(#[trigger] before[i]).context.equals(
                    &(#[trigger] before[j]).context,
                ),
        ensures
            self.wf(),
    {
        assert forall|i: int, j: int| 0 <= i < j < self.sessions@.len() implies !(
        #[trigger] self.sessions@[i]).context.equals(&(#[trigger] self.sessions@[j]).context) by {
            assert(self.sessions@[i].context == before[i].context);
            assert(self.sessions@[j].context == before[j].context);
        }
    }
}

/// A line without the carriage returns and line feeds at its end.
pub open spec fn line_text(line: Seq<char>) -> Seq<char>
    decreases line.len(),
{
    if line.len() > 0 && (line.last() == '\r' || line.last() == '\n') {
        line_text(line.drop_last())
    } else {
        line
    }
}

/// The length that a header line gives, if it does.
pub open spec fn header_length(text: Seq<char>) -> Option<usize> {
    if begins_with(text, "Content-Length:"@) {
        size_of_text(trimmed(text.skip("Content-Length:"@.len() as int)))
    } else {
        None
    }
}

/// The header of a frame as it is read, line by line.
#[derive(Clone, Copy, Debug, PartialEq, Eq, Structural)]
pub struct FrameHeaderReader {
    pub content_length: Option<usize>,
}

/// What comes after a header line.
#[derive(Clone, Copy, Debug, PartialEq, Eq, Structural)]
pub enum HeaderStep {
    /// Another header line.
    More,
    /// The body, of this many bytes.
    Body(usize),
    /// Nothing: no line gave the length.
    MissingLength,
    /// Nothing: the body is too long.
    TooLong,
}

fn line_chars(line: &str) -> (text: Vec<char>)
    ensures
        text@ == line_text(line@),
{
    let mut chars = chars_of(line);
    while chars.len() > 0 && (chars[chars.len() - 1] == '\r' || chars[chars.len() - 1] == '\n')
        invariant
            line_text(line@) == line_text(chars@),
        decreases chars@.len(),
    {
        let ghost before = chars@;
        chars.pop();
        assert(chars@ =~= before.drop_last());
    }
    chars
}

impl FrameHeaderReader {
    pub fn new() -> (reader: Self)
        ensures
            reader.content_length is None,
    {
        FrameHeaderReader { content_length: None }
    }

    /// Takes a header line, with the line ending that it has. An empty line ends the
    /// header; of several lengths the last counts.
    pub fn line(&mut self, line: &str) -> (step: HeaderStep)
        ensures
            ({
                let text = line_text(line@);
                if text.len() == 0 {
                    &&& *final(self) == *old(self)
                    &&& step == match old(self).content_length {
                        None => HeaderStep::MissingLength,
                        Some(n) => if n > LSP_FRAME_LIMIT {
                            HeaderStep::TooLong
                        } else {
                            HeaderStep::Body(n)
                        },
                    }
                } else {
                    &&& step == HeaderStep::More
                    &&& final(self).content_length == match header_length(text) {
                        Some(n) => Some(n),
                        None => old(self).content_length,
                    }
                }
            }),
    {
        let chars = line_chars(line);
        if chars.len() == 0 {
            return match self.content_length {
                None => HeaderStep::MissingLength,
                Some(n) => if n > LSP_FRAME_LIMIT {
                    HeaderStep::TooLong
                } else {
                    HeaderStep::Body(n)
                },
            };
        }
        let text = string_of(chars.as_slice());
        if starts_with(text.as_str(), "Content-Length:") {
            proof {
                reveal_strlit("Content-Length:");
            }
            let rest = sub_chars(&chars, 15, chars.len());
            assert(rest@ =~= text@.skip(15));
            let value = trim(string_of(rest.as_slice()).as_str());
            if let Some(n) = parse_size(value.as_str()) {
                self.content_length = Some(n);
            }
        }
        HeaderStep::More
    }
}

/// The header line of a frame.
pub open spec fn length_line(n: nat) -> Seq<char> {
    "Content-Length: "@ + decimal(n) + "\r\n"@
}

/// The bytes of a frame: a line with the length, an empty line, and the body.
pub open spec fn frame_of(body: Seq<u8>) -> Seq<u8> {
    encode_utf8("Content-Length: "@ + decimal(body.len()) + "\r\n\r\n"@) + body
}

/// The bytes of a frame, unless its body is too long.
pub fn send_frame(body: &Vec<u8>, limit: usize) -> (frame: Option<Vec<u8>>)
    ensures
        body@.len() > limit ==> frame is None,
        body@.len() <= limit ==> frame is Some && frame->0@ == frame_of(body@),
{
    if body.len() > limit {
        return None;
    }
    let header = join3("Content-Length: ", decimal_text(body.len() as u64).as_str(), "\r\n\r\n");
    let bytes = header.as_str().as_bytes();
    let mut frame: Vec<u8> = Vec::new();
    for i in 0..bytes.len()
        invariant
            frame@ == bytes@.take(i as int),
    {
        frame.push(bytes[i]);
        assert(frame@ =~= bytes@.take(i + 1));
    }
    assert(bytes@.take(bytes@.len() as int) =~= bytes@);
    let ghost head = frame@;
    for i in 0..body.len()
        invariant
            frame@ == head + body@.take(i as int),
    {
        frame.push(body[i]);
        assert(frame@ =~= head + body@.take(i + 1));
    }
    assert(body@.take(body@.len() as int) =~= body@);
    Some(frame)
}

/// The length that a frame is written with is read back from its header: the header
/// is a line that gives the length, and an empty line that ends it.
pub proof fn written_length_is_read_back(n: nat)
    requires
        n <= usize::MAX,
    ensures
        "Content-Length: "@ + decimal(n) + "\r\n\r\n"@ == length_line(n) + "\r\n"@,
        header_length(line_text(length_line(n))) == Some(n as usize),
        line_text(length_line(n)).len() > 0,
        line_text("\r\n"@).len() == 0,
{
    let digits = decimal(n);
    decimal_is_read_back(n);
    reveal_strlit("Content-Length: ");
    reveal_strlit("Content-Length:");
    reveal_strlit("\r\n");
    reveal_strlit("\r\n\r\n");
    assert("Content-Length: "@ + digits + "\r\n\r\n"@ =~= length_line(n) + "\r\n"@);
    let text = "Content-Length: "@ + digits;
    let one = text.push('\r');
    assert(length_line(n) =~= one.push('\n'));
    assert(one.push('\n').drop_last() =~= one);
    assert(one.drop_last() =~= text);
    assert(text.last() == digits.last());
    assert(is_digit(digits[digits.len() - 1]));
    reveal_with_fuel(line_text, 3);
    assert(line_text(length_line(n)) == text);
    let empty = "\r\n"@;
    assert(empty.drop_last().drop_last() =~= Seq::empty());
    let rest = text.skip(15);
    assert(rest =~= seq![' '] + digits);
    assert(begins_with(text, "Content-Length:"@)) by {
        assert(text.take(15) =~= "Content-Length:"@);
    }
    lemma_trim_one_space(digits);
}

/// Trimming takes the space before digits away.
proof fn lemma_trim_one_space(digits: Seq<char>)
    requires
        digits.len() > 0,
        forall|i: int| 0 <= i < digits.len() ==> is_digit(#[trigger] digits[i]),
    ensures
        trimmed(seq![' '] + digits) == digits,
{
    let s = seq![' '] + digits;
    assert(s[0] == ' ' && is_space(' '));
    assert(s[1] == digits[0] && is_digit(digits[0]) && !is_space(s[1]));
    assert(s.last() == digits.last() && is_digit(digits[digits.len() - 1]) && !is_space(s.last()));
    reveal_with_fuel(crate::words::skip_space, 3);
    reveal_with_fuel(crate::words::back_over_space, 2);
    assert(s.subrange(1, s.len() as int) =~= digits);
}

/// The names of the members of frames differ.
proof fn lemma_member_names()
    ensures
        "jsonrpc"@ != "id"@,
        "jsonrpc"@ != "method"@,
        "jsonrpc"@ != "params"@,
        "jsonrpc"@ != "result"@,
        "jsonrpc"@ != "error"@,
        "id"@ != "method"@,
        "id"@ != "params"@,
        "id"@ != "result"@,
        "id"@ != "error"@,
        "method"@ != "params"@,
        "method"@ != "result"@,
        "method"@ != "error"@,
        "params"@ != "result"@,
        "params"@ != "error"@,
        "result"@ != "error"@,
        "applied"@ != "failureReason"@,
        "code"@ != "message"@,
{
    reveal_strlit("jsonrpc");
    reveal_strlit("id");
    reveal_strlit("method");
    reveal_strlit("params");
    reveal_strlit("result");
    reveal_strlit("error");
    reveal_strlit("applied");
    reveal_strlit("failureReason");
    reveal_strlit("code");
    reveal_strlit("message");
    assert("jsonrpc"@.len() == 7 && "id"@.len() == 2 && "method"@.len() == 6);
    assert("params"@.len() == 6 && "result"@.len() == 6 && "error"@.len() == 5);
    assert("applied"@.len() == 7 && "failureReason"@.len() == 13);
    assert("code"@.len() == 4 && "message"@.len() == 7);
    assert("method"@[0] != "params"@[0]);
    assert("method"@[0] != "result"@[0]);
    assert("params"@[0] != "result"@[0]);
}

/// The answer of a server reaches the editor with what it answers: for a frame with an
/// identifier and a member `result`, the editor is sent a response under that
/// identifier whose result is the value of that member, whatever the value is and
/// whatever other members the frame has. The session stays as it is.
pub proof fn answers_carry_their_result(
    before: LspSession,
    members: Vec<(String, Json)>,
    decoded: Decoded,
    after: LspSession,
    step: LspStep,
    at_id: int,
    at_result: int,
)
    requires
        frame_received(before, Json::Object(members), decoded, after, step),
        first_named(members@, "id"@, at_id),
        first_named(members@, "result"@, at_result),
    ensures
        after == before,
        members@[at_id].1 matches Json::Int(n) ==> (step matches LspStep::Send(
            LspV1::JsonRpcResponse { context, payload },
        ) && context == before.context && payload.id == LspRequestId::Number(n) && payload.result
            == Some(members@[at_result].1) && payload.error == decoded.error),
        members@[at_id].1 matches Json::UInt(n) ==> (n <= i64::MAX ==> (step matches LspStep::Send(
            LspV1::JsonRpcResponse { context, payload },
        ) && context == before.context && payload.id == LspRequestId::Number(n as i64)
            && payload.result == Some(members@[at_result].1) && payload.error == decoded.error)),
        members@[at_id].1 matches Json::Text(s) ==> (s@.len() > 0 ==> (step matches LspStep::Send(
            LspV1::JsonRpcResponse { context, payload },
        ) && context == before.context && payload.id == LspRequestId::String(s) && payload.result
            == Some(members@[at_result].1) && payload.error == decoded.error)),
{
    members_are_found_by_name(members, "id"@);
    members_are_found_by_name(members, "result"@);
}

/// For every number and every value, the object that holds the version, the number as
/// `id` and the value as `result`, and nothing else, is answered to the editor as
/// exactly that: a response to the number whose result is the value, without an error
/// where the frame has none.
pub proof fn plain_answers_arrive(
    before: LspSession,
    members: Vec<(String, Json)>,
    decoded: Decoded,
    after: LspSession,
    step: LspStep,
    n: i64,
    v: Json,
)
    requires
        members@.len() == 3,
        members@[0].0@ == "jsonrpc"@,
        members@[1].0@ == "id"@ && members@[1].1 == Json::Int(n),
        members@[2].0@ == "result"@ && members@[2].1 == v,
        decoded.error is None,
        frame_received(before, Json::Object(members), decoded, after, step),
    ensures
        step == LspStep::Send(
            LspV1::JsonRpcResponse {
                context: before.context,
                payload: LspJsonRpcResponse {
                    id: LspRequestId::Number(n),
                    result: Some(v),
                    error: None,
                },
            },
        ),
{
    lemma_member_names();
    assert(first_named(members@, "id"@, 1));
    assert(first_named(members@, "result"@, 2));
    answers_carry_their_result(before, members, decoded, after, step, 1, 2);
}

/// The failure of a request reaches the editor: for a frame with an identifier and a
/// member `error` and none `result`, the editor is sent a response under that
/// identifier with the error and without a result.
pub proof fn failures_carry_their_error(
    before: LspSession,
    members: Vec<(String, Json)>,
    decoded: Decoded,
    after: LspSession,
    step: LspStep,
    at_id: int,
    at_error: int,
    n: i64,
)
    requires
        frame_received(before, Json::Object(members), decoded, after, step),
        first_named(members@, "id"@, at_id),
        members@[at_id].1 == Json::Int(n),
        first_named(members@, "error"@, at_error),
        none_named(members@, "result"@),
    ensures
        after == before,
        step == LspStep::Send(
            LspV1::JsonRpcResponse {
                context: before.context,
                payload: LspJsonRpcResponse {
                    id: LspRequestId::Number(n),
                    result: None,
                    error: decoded.error,
                },
            },
        ),
{
    members_are_found_by_name(members, "id"@);
    members_are_found_by_name(members, "result"@);
    members_are_found_by_name(members, "error"@);
}

/// A notification of a server reaches the editor with its method and its parameters;
/// published diagnostics that are well formed reach it as such.
pub proof fn notifications_arrive(
    before: LspSession,
    members: Vec<(String, Json)>,
    decoded: Decoded,
    after: LspSession,
    step: LspStep,
    at_method: int,
    method: String,
)
    requires
        frame_received(before, Json::Object(members), decoded, after, step),
        none_named(members@, "id"@),
        first_named(members@, "method"@, at_method),
        members@[at_method].1 == Json::Text(method),
        method@.len() > 0,
    ensures
        after == before,
        method@ != "textDocument/publishDiagnostics"@ || decoded.published is None ==> (
        step matches LspStep::Send(LspV1::JsonRpcNotification { context, payload }) && context
            == before.context && payload.method@ == method@ && (none_named(members@, "params"@)
            ==> payload.params is None) && (forall|at: int| #[trigger]
            first_named(members@, "params"@, at) ==> payload.params == Some(members@[at].1))),
        method@ == "textDocument/publishDiagnostics"@ && !none_named(members@, "params"@) ==> (
        decoded.published matches Some(p) ==> step == LspStep::Send(
            LspV1::PublishDiagnostics {
                context: before.context,
                uri: p.uri,
                version: p.version,
                diagnostics: p.diagnostics,
            },
        )),
{
    members_are_found_by_name(members, "id"@);
    members_are_found_by_name(members, "method"@);
    members_are_found_by_name(members, "params"@);
}

/// A request of a server that the editor does not know is refused under its own
/// identifier, with the code for an unknown method, and nothing reaches the editor.
pub proof fn unknown_requests_are_refused(
    before: LspSession,
    members: Vec<(String, Json)>,
    decoded: Decoded,
    after: LspSession,
    step: LspStep,
    at_id: int,
    at_method: int,
    method: String,
)
    requires
        frame_received(before, Json::Object(members), decoded, after, step),
        first_named(members@, "id"@, at_id),
        members@[at_id].1 is Int || (members@[at_id].1 matches Json::Text(s) && s@.len() > 0),
        none_named(members@, "result"@),
        none_named(members@, "error"@),
        first_named(members@, "method"@, at_method),
        members@[at_method].1 == Json::Text(method),
        method@.len() > 0,
        method@ != "workspace/applyEdit"@,
    ensures
        after == before,
        step matches LspStep::Write { context, frame, request } && context == before.context
            && !request && json_member(frame, "id"@) == Some(members@[at_id].1) && json_member(
            frame,
            "result"@,
        ) is None && (json_member(frame, "error"@) matches Some(e) && json_member(e, "code"@)
            == Some(Json::Int((-32601) as i64)) && (json_member(e, "message"@) matches Some(Json::Text(t))
            && t@ == "method not supported"@)),
{
    members_are_found_by_name(members, "id"@);
    members_are_found_by_name(members, "method"@);
    members_are_found_by_name(members, "result"@);
    members_are_found_by_name(members, "error"@);
    if let LspStep::Write { frame, .. } = step {
        let id = id_of(members@[at_id].1)->0;
        lemma_refusal_members(frame, id, METHOD_NOT_FOUND, "method not supported"@);
    }
}

/// What a refusal holds.
proof fn lemma_refusal_members(frame: Json, id: LspRequestId, code: i64, message: Seq<char>)
    requires
        is_refusal(frame, id, code, message),
    ensures
        json_member(frame, "id"@) == Some(id_value(id)),
        json_member(frame, "result"@) is None,
        json_member(frame, "error"@) matches Some(e) && json_member(e, "code"@) == Some(
            Json::Int(code),
        ) && (json_member(e, "message"@) matches Some(Json::Text(t)) && t@ == message),
{
    lemma_member_names();
    if let Json::Object(m) = frame {
        members_are_found_by_name(m, "id"@);
        members_are_found_by_name(m, "result"@);
        members_are_found_by_name(m, "error"@);
        assert(first_named(m@, "id"@, 1));
        assert(first_named(m@, "error"@, 2));
        assert(none_named(m@, "result"@));
        if let Json::Object(e) = m@[2].1 {
            members_are_found_by_name(e, "code"@);
            members_are_found_by_name(e, "message"@);
            assert(first_named(e@, "code"@, 0));
            assert(first_named(e@, "message"@, 1));
        }
    }
}

/// A workspace edit that a server asks for reaches the editor under the identifier of
/// the request with each edit that the server lists, in order, and waits to be
/// answered.
pub proof fn server_edits_arrive_in_full(
    before: LspSession,
    members: Vec<(String, Json)>,
    decoded: Decoded,
    after: LspSession,
    step: LspStep,
    at_id: int,
    at_method: int,
    method: String,
    n: i64,
    edits: Vec<ServerDocumentEdit>,
)
    requires
        frame_received(before, Json::Object(members), decoded, after, step),
        first_named(members@, "id"@, at_id),
        members@[at_id].1 == Json::Int(n),
        none_named(members@, "result"@),
        none_named(members@, "error"@),
        first_named(members@, "method"@, at_method),
        members@[at_method].1 == Json::Text(method),
        method@ == "workspace/applyEdit"@,
        decoded.edit matches Some(e) && e.document_changes == Some(
            ServerDocumentChanges::Edits(edits),
        ),
        forall|i: int| 0 <= i < edits@.len() ==> is_fit(#[trigger] edits@[i]),
        before.pending@.len() < 256,
        forall|i: int| 0 <= i < before.pending@.len() ==> #[trigger] before.pending@[i]
            != LspRequestId::Number(n),
    ensures
        after.context == before.context,
        after.pending@ == before.pending@.push(LspRequestId::Number(n)),
        step matches LspStep::Send(LspV1::WorkspaceEdit { context, request_id, edit }) && context
            == before.context && request_id == LspRequestId::Number(n)
            && edit.document_changes@.len() == edits@.len() && forall|i: int|
            0 <= i < edits@.len() ==> (#[trigger] edit.document_changes@[i])->uri == edits@[i].uri
                && edit.document_changes@[i]->edits == edits@[i].edits,
{
    reveal_strlit("workspace/applyEdit");
    members_are_found_by_name(members, "id"@);
    members_are_found_by_name(members, "method"@);
    members_are_found_by_name(members, "result"@);
    members_are_found_by_name(members, "error"@);
    fit_server_edits_are_taken_over(decoded.edit->0);
    if let Ok(changes) = server_edit(decoded.edit->0) {
        server_edits_are_taken_over_in_full(decoded.edit->0, changes);
    }
    assert(!is_pending(before.pending@, LspRequestId::Number(n))) by {
        if is_pending(before.pending@, LspRequestId::Number(n)) {
            let i = choose|i: int|
                0 <= i < before.pending@.len() && (#[trigger] before.pending@[i])@
                    == LspRequestId::Number(n)@;
            assert(before.pending@[i] != LspRequestId::Number(n));
        }
    }
}

/// A request of the editor reaches its server whole: the frame that is written holds
/// the identifier, the method and the parameters of the request, so that a reader of
/// the frame finds each of them under its name.
pub proof fn requests_reach_the_server(
    before: LspSessions,
    context: LspContext,
    payload: LspJsonRpcRequest,
    after: LspSessions,
    step: LspStep,
)
    requires
        editor_step(before, LspV1::JsonRpcRequest { context, payload }, after, step),
        exists|i: int|
            0 <= i < before.sessions@.len() && (#[trigger] before.sessions@[i]).context.equals(
                &context,
            ),
    ensures
        after.sessions@ == before.sessions@,
        step matches LspStep::Write { context: c, frame, request } && c == context && request
            && json_member(frame, "method"@) == Some(Json::Text(payload.method)) && (
        payload.params matches Some(p) ==> json_member(frame, "params"@) == Some(p)) && (
        payload.params is None ==> json_member(frame, "params"@) == Some(Json::Null)) && (
        payload.id matches LspRequestId::Number(n) ==> json_member(frame, "id"@) == Some(
            Json::Int(n),
        )) && (payload.id matches LspRequestId::String(s) ==> json_member(frame, "id"@) == Some(
            Json::Text(s),
        )),
{
    lemma_session_found(before, context);
    if let LspStep::Write { frame, .. } = step {
        lemma_member_names();
        if let Json::Object(m) = frame {
            members_are_found_by_name(m, "id"@);
            members_are_found_by_name(m, "method"@);
            members_are_found_by_name(m, "params"@);
            assert(first_named(m@, "id"@, 1));
            assert(first_named(m@, "method"@, 2));
            assert(first_named(m@, "params"@, 3));
        }
    }
}

/// A notification of the editor reaches its server whole, and has no identifier.
pub proof fn notifications_reach_the_server(
    before: LspSessions,
    context: LspContext,
    payload: LspJsonRpcNotification,
    after: LspSessions,
    step: LspStep,
)
    requires
        editor_step(before, LspV1::JsonRpcNotification { context, payload }, after, step),
        exists|i: int|
            0 <= i < before.sessions@.len() && (#[trigger] before.sessions@[i]).context.equals(
                &context,
            ),
    ensures
        after.sessions@ == before.sessions@,
        step matches LspStep::Write { context: c, frame, request } && c == context && !request
            && json_member(frame, "id"@) is None && json_member(frame, "method"@) == Some(
            Json::Text(payload.method),
        ) && (payload.params matches Some(p) ==> json_member(frame, "params"@) == Some(p)) && (
        payload.params is None ==> json_member(frame, "params"@) == Some(Json::Null)),
{
    lemma_session_found(before, context);
    if let LspStep::Write { frame, .. } = step {
        lemma_member_names();
        if let Json::Object(m) = frame {
            members_are_found_by_name(m, "id"@);
            members_are_found_by_name(m, "method"@);
            members_are_found_by_name(m, "params"@);
            assert(none_named(m@, "id"@));
            assert(first_named(m@, "method"@, 1));
            assert(first_named(m@, "params"@, 2));
        }
    }
}

/// The outcome of a workspace edit reaches the server that asked for it, under the
/// identifier that it asked with: the server reads whether the edit was made, and, if
/// not, why. The request no longer waits, so a second outcome is not written.
pub proof fn edit_outcomes_reach_the_server(
    before: LspSessions,
    context: LspContext,
    request_id: LspRequestId,
    applied: bool,
    reason: Option<String>,
    after: LspSessions,
    step: LspStep,
    at: int,
    asked: int,
)
    requires
        editor_step(
            before,
            LspV1::WorkspaceEditResult { context, request_id, applied, reason },
            after,
            step,
        ),
        before.wf(),
        0 <= at < before.sessions@.len(),
        before.sessions@[at].context.equals(&context),
        0 <= asked < before.sessions@[at].pending@.len(),
        before.sessions@[at].pending@[asked] == request_id,
    ensures
        step matches LspStep::Write { context: c, frame, request } && c == context && !request && (
        request_id matches LspRequestId::Number(n) ==> json_member(frame, "id"@) == Some(
            Json::Int(n),
        )) && (request_id matches LspRequestId::String(s) ==> json_member(frame, "id"@) == Some(
            Json::Text(s),
        )) && (json_member(frame, "result"@) matches Some(outcome) && json_member(
            outcome,
            "applied"@,
        ) == Some(Json::Bool(applied)) && (!applied ==> (reason matches Some(text) ==> json_member(
            outcome,
            "failureReason"@,
        ) == Some(Json::Text(text))))),
        after.sessions@.len() == before.sessions@.len(),
        forall|i: int|
            0 <= i < after.sessions@[at].pending@.len() ==> (
            #[trigger] after.sessions@[at].pending@[i])@ != request_id@,
{
    lemma_session_found(before, context);
    lemma_session_at(before.sessions@, context, 0);
    let found = session_at(before, context);
    assert(found == at) by {
        if found < at {
            assert(!before.sessions@[found].context.equals(&before.sessions@[at].context));
        } else if at < found {
            assert(!before.sessions@[at].context.equals(&before.sessions@[found].context));
        }
    }
    assert(before.sessions@[at].pending@[asked]@ == request_id@);
    assert(is_pending(before.sessions@[at].pending@, request_id));
    if let LspStep::Write { frame, .. } = step {
        lemma_member_names();
        if let Json::Object(m) = frame {
            members_are_found_by_name(m, "id"@);
            members_are_found_by_name(m, "result"@);
            assert(first_named(m@, "id"@, 1));
            assert(first_named(m@, "result"@, 2));
            if let Json::Object(r) = m@[2].1 {
                members_are_found_by_name(r, "applied"@);
                members_are_found_by_name(r, "failureReason"@);
                assert(first_named(r@, "applied"@, 0));
                if !applied {
                    assert(first_named(r@, "failureReason"@, 1));
                }
            }
        }
    }
}

/// Where a session runs under a context, it is found.
proof fn lemma_session_found(s: LspSessions, context: LspContext)
    ensures
        has_session(s, context) <==> exists|i: int|
            0 <= i < s.sessions@.len() && (#[trigger] s.sessions@[i]).context.equals(&context),
{
    lemma_session_at(s.sessions@, context, 0);
    if has_session(s, context) {
        let i = session_at(s, context);
        assert(s.sessions@[i].context.equals(&context));
    }
}

proof fn lemma_session_at(sessions: Seq<LspSession>, context: LspContext, i: int)
    requires
        0 <= i <= sessions.len(),
    ensures
        i <= session_from(sessions, context, i) <= sessions.len(),
        session_from(sessions, context, i) < sessions.len() ==> sessions[session_from(
            sessions,
            context,
            i,
        )].context.equals(&context),
        forall|j: int|
            i <= j < session_from(sessions, context, i) ==> !(
            #[trigger] sessions[j]).context.equals(&context),
    decreases sessions.len() - i,
{
    if i < sessions.len() && !sessions[i].context.equals(&context) {
        lemma_session_at(sessions, context, i + 1);
    }
}

/// Ending a session ends that one alone: the server under the context is gone, every
/// other keeps running with what it waits for, and the editor is told once.
pub proof fn shutdowns_end_one_server(
    before: LspSessions,
    context: LspContext,
    after: LspSessions,
    step: LspStep,
)
    requires
        before.wf(),
        editor_step(before, LspV1::Shutdown { context }, after, step),
    ensures
        forall|i: int|
            0 <= i < after.sessions@.len() ==> !(#[trigger] after.sessions@[i]).context.equals(
                &context,
            ) && before.sessions@.contains(after.sessions@[i]),
        forall|i: int|
            0 <= i < before.sessions@.len() && !(
            #[trigger] before.sessions@[i]).context.equals(&context) ==> after.sessions@.contains(
                before.sessions@[i],
            ),
        (exists|i: int|
            0 <= i < before.sessions@.len() && (#[trigger] before.sessions@[i]).context.equals(
                &context,
            )) ==> step == (LspStep::End { answer: LspV1::Exited { context, exit_code: None } }),
        (forall|i: int|
            0 <= i < before.sessions@.len() ==> !(
            #[trigger] before.sessions@[i]).context.equals(&context)) ==> step == LspStep::Nothing,
{
    lemma_session_found(before, context);
    lemma_session_at(before.sessions@, context, 0);
    let at = session_at(before, context);
    if has_session(before, context) {
        assert forall|i: int| 0 <= i < after.sessions@.len() implies !(
        #[trigger] after.sessions@[i]).context.equals(&context) && before.sessions@.contains(
            after.sessions@[i],
        ) by {
            let x = if i < at { i } else { i + 1 };
            assert(after.sessions@[i] == before.sessions@[x]);
            if i >= at {
                assert(!before.sessions@[at].context.equals(&before.sessions@[x].context));
            }
        }
        assert forall|i: int|
            0 <= i < before.sessions@.len() && !(
            #[trigger] before.sessions@[i]).context.equals(&context) implies after.sessions@.contains(
            before.sessions@[i],
        ) by {
            let x = if i < at { i } else { i - 1 };
            assert(after.sessions@[x] == before.sessions@[i]);
        }
    } else {
        assert forall|i: int| 0 <= i < after.sessions@.len() implies !(
        #[trigger] after.sessions@[i]).context.equals(&context) && before.sessions@.contains(
            after.sessions@[i],
        ) by {
            assert(after.sessions@[i] == before.sessions@[i]);
        }
        assert forall|i: int|
            0 <= i < before.sessions@.len() && !(
            #[trigger] before.sessions@[i]).context.equals(&context) implies after.sessions@.contains(
            before.sessions@[i],
        ) by {
            assert(after.sessions@[i] == before.sessions@[i]);
        }
    }
}

/// A server is started only where it may be: at the root of the authority, while fewer
/// than sixteen run and none under the same context, and with the configuration that
/// the editor gave; otherwise the editor is told that it has ended, or nothing is done
/// where one runs already.
pub proof fn servers_start_as_asked(
    before: LspSessions,
    context: LspContext,
    config: LspServerConfig,
    after: LspSessions,
    step: LspStep,
)
    requires
        editor_step(before, LspV1::Start { context, config }, after, step),
    ensures
        after.sessions@ == before.sessions@,
        step matches LspStep::Launch { context: c, config: given } ==> c == context && given
            == config && context.execution_context is AuthorityRoot && before.sessions@.len() < 16
            && config.program@.len() > 0 && config.cwd@.len() > 0 && config.language_id@.len() > 0
            && forall|i: int|
            0 <= i < before.sessions@.len() ==> !(
            #[trigger] before.sessions@[i]).context.equals(&context),
        !(context.execution_context is AuthorityRoot) || before.sessions@.len() >= 16
            || config.program@.len() == 0 ==> step == LspStep::Send(
            LspV1::Exited { context, exit_code: None },
        ),
        step is Launch || step is Nothing || step is Send,
{
    lemma_session_found(before, context);
}

/// A frame is a header with the length of its body in bytes, an empty line, and the body
/// as it is; the header gives the length whatever white space stands around it, and of
/// two the later counts.
pub proof fn frames_are_laid_out_in_order(body: Seq<u8>)
    ensures
        frame_of(body).len() == encode_utf8(
            "Content-Length: "@ + decimal(body.len()) + "\r\n\r\n"@,
        ).len() + body.len(),
        frame_of(body).skip(
            encode_utf8("Content-Length: "@ + decimal(body.len()) + "\r\n\r\n"@).len() as int,
        ) == body,
        frame_of(body).take(
            encode_utf8("Content-Length: "@ + decimal(body.len()) + "\r\n\r\n"@).len() as int,
        ) == encode_utf8("Content-Length: "@ + decimal(body.len()) + "\r\n\r\n"@),
        LSP_STDIN_LIMIT == 1024 * 1024,
        LSP_FRAME_LIMIT == 8 * 1024 * 1024,
{
    let head = encode_utf8("Content-Length: "@ + decimal(body.len()) + "\r\n\r\n"@);
    assert(frame_of(body).skip(head.len() as int) =~= body);
    assert(frame_of(body).take(head.len() as int) =~= head);
}

} // verus!
