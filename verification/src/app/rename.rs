//! Workspace edits: which documents they touch, and which of them are open.
use vstd::prelude::*;

use super::files::{file_buffer_from, has_file};
use super::services::{document_uri, session_from, uri_of};
use super::{
    buffer_at, has_buffer, selected_authority, selected_ssh, ssh_from, App, AuthorityKind,
    LspSession,
};
use crate::authority::ssh::SshAuthority;
use crate::authority::types::{AuthorityRequest, ReadFileRequest};
use crate::buffer::{fresh_buffer, fresh_ledger, Buffer, BufferView};
use crate::document::{
    language_of_path, BufferPathState, DocumentId, DocumentRevision, Language, WorkspaceEpoch,
};
use crate::encoding::{hyphenated, is_random_uuid, opt_text, url_file_path, url_path, uuid_text};
use crate::lsp::{KeyView, SupervisorKey};
use crate::path::{
    join, joined, path_below, path_parts, relative_below, same_path, strip_root,
    what_is_left_stays_below,
};
use crate::protocol::fs::MAX_WIRE_FILE_BYTES;
use crate::protocol::lsp::{LspContext, TransactionalDocumentEdit, TransactionalWorkspaceEdit};
use crate::words::join3;

verus! {

/// Why a workspace edit cannot be made.
#[derive(Debug, PartialEq, Eq)]
#[allow(inconsistent_fields)]
pub enum EditPlanError {
    MissingLedger,
    MissingWorkspaceDocument { uri: String },
    UnresolvableWorkspaceDocument { uri: String },
    DuplicateWorkspaceDocument { uri: String },
}

/// What an error says.
#[allow(inconsistent_fields)]
pub enum PlanFault {
    MissingLedger,
    MissingWorkspaceDocument { uri: Seq<char> },
    UnresolvableWorkspaceDocument { uri: Seq<char> },
    DuplicateWorkspaceDocument { uri: Seq<char> },
}

impl View for EditPlanError {
    type V = PlanFault;

    open spec fn view(&self) -> PlanFault {
        match self {
            EditPlanError::MissingLedger => PlanFault::MissingLedger,
            EditPlanError::MissingWorkspaceDocument { uri } =>
                PlanFault::MissingWorkspaceDocument { uri: uri@ },
            EditPlanError::UnresolvableWorkspaceDocument { uri } =>
                PlanFault::UnresolvableWorkspaceDocument { uri: uri@ },
            EditPlanError::DuplicateWorkspaceDocument { uri } =>
                PlanFault::DuplicateWorkspaceDocument { uri: uri@ },
        }
    }
}

/// A document that a workspace edit touches: its URI, its place below the root, and
/// its buffer if it is open.
#[derive(Debug, PartialEq, Eq)]
pub struct WorkspaceEditTarget {
    pub uri: String,
    pub relative_path: String,
    pub buffer_index: Option<usize>,
}

/// What is known of a document that a workspace edit touches.
pub struct TargetView {
    pub uri: Seq<char>,
    pub relative_path: Seq<char>,
    pub buffer_index: Option<int>,
}

impl View for WorkspaceEditTarget {
    type V = TargetView;

    open spec fn view(&self) -> TargetView {
        TargetView {
            uri: self.uri@,
            relative_path: self.relative_path@,
            buffer_index: match self.buffer_index {
                Some(i) => Some(i as int),
                None => None,
            },
        }
    }
}

/// What several targets say.
pub open spec fn target_views(targets: Seq<WorkspaceEditTarget>) -> Seq<TargetView> {
    targets.map_values(|t: WorkspaceEditTarget| t@)
}

/// A workspace edit that can be made once the documents that are not open are read.
#[derive(Debug, PartialEq, Eq)]
pub struct EditPlan {
    pub config_digest: String,
    pub document_index: usize,
    pub source_relative_path: String,
    /// The URI that the document of the request goes by in the edit.
    pub request_uri: String,
    pub targets: Vec<WorkspaceEditTarget>,
}

/// The path of a URI, and what is left of it below a root: names only, and at least
/// one.
pub open spec fn target_place(uri: Seq<char>, root: Seq<char>) -> Option<(Seq<char>, Seq<char>)> {
    match url_file_path(uri) {
        Some(path) => match relative_below(path, root) {
            Some(rest) => Some((path, rest)),
            None => None,
        },
        None => None,
    }
}

/// The path of a URI, and what is left of it below a root.
pub fn workspace_edit_target_path(uri: &String, root: &String) -> (r: Result<
    (String, String),
    EditPlanError,
>)
    ensures
        match target_place(uri@, root@) {
            Some((path, rest)) => r is Ok && r->Ok_0.0@ == path && r->Ok_0.1@ == rest,
            None => r == Err::<(String, String), EditPlanError>(
                EditPlanError::UnresolvableWorkspaceDocument { uri: *uri },
            ),
        },
{
    match url_path(uri.as_str()) {
        None => Err(EditPlanError::UnresolvableWorkspaceDocument { uri: uri.clone() }),
        Some(path) => match strip_root(path.as_str(), root.as_str()) {
            None => Err(EditPlanError::UnresolvableWorkspaceDocument { uri: uri.clone() }),
            Some(rest) => Ok((path, rest)),
        },
    }
}

/// The URI of one change.
pub open spec fn change_uri(change: TransactionalDocumentEdit) -> String {
    match change {
        TransactionalDocumentEdit::TextDocument { uri, .. } => uri,
    }
}

/// Whether a change before index `k` has a URI.
pub open spec fn uri_before(changes: Seq<TransactionalDocumentEdit>, uri: Seq<char>, k: int) -> bool {
    exists|j: int| 0 <= j < k && change_uri(#[trigger] changes[j])@ == uri
}

/// The places of the documents that some changes touch, below a root.
pub open spec fn places_of(changes: Seq<TransactionalDocumentEdit>, root: Seq<char>) -> Seq<
    Option<(Seq<char>, Seq<char>)>,
> {
    changes.map_values(|c: TransactionalDocumentEdit| target_place(change_uri(c)@, root))
}

/// What several places say.
pub open spec fn place_views(places: Seq<Option<(String, String)>>) -> Seq<
    Option<(Seq<char>, Seq<char>)>,
> {
    places.map_values(
        |p: Option<(String, String)>|
            match p {
                Some((path, rest)) => Some((path@, rest@)),
                None => None,
            },
    )
}

/// The documents that the changes from index `k` on touch, after some others, and
/// the URI that the document of the request goes by, given the place of each. Of
/// several changes of one URI the first counts here.
pub open spec fn targets_from(
    buffers: Seq<Buffer>,
    changes: Seq<TransactionalDocumentEdit>,
    places: Seq<Option<(Seq<char>, Seq<char>)>>,
    source: int,
    k: int,
    found: Seq<TargetView>,
    source_uri: Option<Seq<char>>,
) -> Result<(Seq<TargetView>, Option<Seq<char>>), PlanFault>
    decreases changes.len() - k,
{
    if k >= changes.len() {
        Ok((found, source_uri))
    } else {
        let uri = change_uri(changes[k])@;
        if uri_before(changes, uri, k) {
            targets_from(buffers, changes, places, source, k + 1, found, source_uri)
        } else {
            match places[k] {
                None => Err(PlanFault::UnresolvableWorkspaceDocument { uri }),
                Some((path, relative_path)) => {
                    let i = file_buffer_from(buffers, path, 0);
                    let open = i < buffers.len();
                    if open && i == source && source_uri is Some {
                        Err(PlanFault::DuplicateWorkspaceDocument { uri })
                    } else {
                        targets_from(
                            buffers,
                            changes,
                            places,
                            source,
                            k + 1,
                            found.push(
                                TargetView {
                                    uri,
                                    relative_path,
                                    buffer_index: if open {
                                        Some(i)
                                    } else {
                                        None
                                    },
                                },
                            ),
                            if open && i == source {
                                Some(uri)
                            } else {
                                source_uri
                            },
                        )
                    }
                },
            }
        }
    }
}

/// What a workspace edit touches, or why it cannot be made.
pub open spec fn edit_planned(
    app: App,
    root: Seq<char>,
    key: SupervisorKey,
    document: DocumentId,
    edit: TransactionalWorkspaceEdit,
    r: Result<EditPlan, EditPlanError>,
) -> bool {
    let s = session_from(app.services.sessions@, key@, document, 0);
    let i = buffer_at(app, document);
    let source_uri = document_uri(app.buffers@[i]@);
    if s >= app.services.sessions@.len() {
        r is Err && r->Err_0@ == PlanFault::MissingLedger
    } else if !has_buffer(app, document) {
        r is Err && r->Err_0@ == (PlanFault::MissingWorkspaceDocument {
            uri: "document:DocumentId("@ + hyphenated(document.0) + ")"@,
        })
    } else if target_place(source_uri, root) is None {
        r is Err && r->Err_0@ == (PlanFault::MissingWorkspaceDocument { uri: source_uri })
    } else {
        match targets_from(
            app.buffers@,
            edit.document_changes@,
            places_of(edit.document_changes@, root),
            i,
            0,
            Seq::empty(),
            None,
        ) {
            Err(fault) => r is Err && r->Err_0@ == fault,
            Ok((targets, named)) => {
                &&& r is Ok
                &&& r->Ok_0.config_digest == app.services.sessions@[s].config_digest
                &&& r->Ok_0.document_index == i
                &&& r->Ok_0.source_relative_path@ == (target_place(source_uri, root)->0).1
                &&& r->Ok_0.request_uri@ == match named {
                    Some(uri) => uri,
                    None => source_uri,
                }
                &&& target_views(r->Ok_0.targets@) == targets
            },
        }
    }
}

/// Whether a target before index `k` is the buffer of another one.
pub open spec fn buffer_taken(targets: Seq<WorkspaceEditTarget>, buffer: usize, k: int) -> bool {
    exists|j: int| 0 <= j < k && (#[trigger] targets[j]).buffer_index == Some(buffer)
}

/// The buffers that an edit touches besides the one of the request, from the target
/// at index `k` on. Each buffer can be touched once.
pub open spec fn other_buffers_from(targets: Seq<WorkspaceEditTarget>, source: usize, k: int) ->
    Result<Seq<usize>, PlanFault>
    decreases targets.len() - k,
{
    if k >= targets.len() {
        Ok(Seq::empty())
    } else {
        match targets[k].buffer_index {
            None => Err(PlanFault::MissingWorkspaceDocument { uri: targets[k].uri@ }),
            Some(i) => if i == source {
                other_buffers_from(targets, source, k + 1)
            } else if buffer_taken(targets, i, k) {
                Err(PlanFault::MissingWorkspaceDocument { uri: targets[k].uri@ })
            } else {
                match other_buffers_from(targets, source, k + 1) {
                    Ok(rest) => Ok(seq![i] + rest),
                    Err(fault) => Err(fault),
                }
            },
        }
    }
}

/// The authority that makes a workspace edit.
#[derive(Clone, Copy, Debug, PartialEq, Eq, Structural)]
pub enum EditAuthority {
    Local,
    /// The SSH authority at this index.
    Ssh(usize),
    Unavailable,
}

/// The authority that makes an edit of an app.
pub open spec fn edit_maker(app: App) -> EditAuthority {
    match selected_authority(app) {
        Some(a) => match a.kind {
            AuthorityKind::Local => if app.local_authority is Some {
                EditAuthority::Local
            } else {
                EditAuthority::Unavailable
            },
            AuthorityKind::Ssh => if selected_ssh(app) < app.ssh_authorities@.len() {
                EditAuthority::Ssh(selected_ssh(app) as usize)
            } else {
                EditAuthority::Unavailable
            },
            AuthorityKind::DevContainer => EditAuthority::Unavailable,
        },
        None => EditAuthority::Unavailable,
    }
}

impl WorkspaceEditTarget {
    /// The request that reads a target which is not open, under the epochs and the
    /// revision that the edit was made for. A target that is open is not read.
    pub fn read_request(&self, context: &LspContext) -> (request: Option<
        AuthorityRequest<ReadFileRequest>,
    >)
        ensures
            request is Some <==> self.buffer_index is None,
            request matches Some(r) ==> {
                &&& is_random_uuid(r.request_id)
                &&& r.payload.path == self.relative_path
                &&& r.payload.max_bytes == MAX_WIRE_FILE_BYTES
                &&& r.workspace_epoch == context.workspace_epoch
                &&& r.environment_epoch == context.environment_epoch
                &&& r.document_revision == context.document_revision
            },
    {
        if self.buffer_index.is_some() {
            return None;
        }
        Some(
            AuthorityRequest::new(
                ReadFileRequest {
                    path: self.relative_path.clone(),
                    max_bytes: MAX_WIRE_FILE_BYTES as usize,
                },
                context.workspace_epoch,
                context.environment_epoch,
                context.document_revision,
            ),
        )
    }
}

impl App {
    fn find_path(&self, path: &String) -> (i: usize)
        ensures
            i == file_buffer_from(self.buffers@, path@, 0),
            i <= self.buffers@.len(),
    {
        let mut i: usize = 0;
        while i < self.buffers.len()
            invariant
                i <= self.buffers@.len(),
                file_buffer_from(self.buffers@, path@, 0) == file_buffer_from(
                    self.buffers@,
                    path@,
                    i as int,
                ),
            decreases self.buffers@.len() - i,
        {
            let same = match self.buffers[i].path() {
                Some(p) => same_path(p.as_str(), path.as_str()),
                None => false,
            };
            if same {
                return i;
            }
            i += 1;
        }
        i
    }

    /// What a workspace edit touches, or why it cannot be made.
    pub fn plan_workspace_edit(
        &self,
        root: &String,
        key: &SupervisorKey,
        document_id: DocumentId,
        edit: &TransactionalWorkspaceEdit,
    ) -> (r: Result<EditPlan, EditPlanError>)
        ensures
            edit_planned(*self, root@, *key, document_id, *edit, r),
    {
        let s: usize = self.find_session(key, document_id);
        if s >= self.services.sessions.len() {
            return Err(EditPlanError::MissingLedger);
        }
        let source: usize = self.find_buffer(document_id);
        if source >= self.buffers.len() {
            return Err(
                EditPlanError::MissingWorkspaceDocument {
                    uri: join3("document:DocumentId(", uuid_text(document_id.0).as_str(), ")"),
                },
            );
        }
        let source_uri = uri_of(&self.buffers[source]);
        let source_relative_path = match workspace_edit_target_path(&source_uri, root) {
            Ok((_, rest)) => rest,
            Err(_) => return Err(EditPlanError::MissingWorkspaceDocument { uri: source_uri }),
        };
        let changes = &edit.document_changes;
        let mut places: Vec<Option<(String, String)>> = Vec::new();
        for k in 0..changes.len()
            invariant
                place_views(places@) == places_of(changes@, root@).take(k as int),
        {
            let uri: &String = match &changes[k] {
                TransactionalDocumentEdit::TextDocument { uri, .. } => uri,
            };
            let place: Option<(String, String)> = match workspace_edit_target_path(uri, root) {
                Ok(place) => Some(place),
                Err(_) => None,
            };
            let ghost before = place_views(places@);
            places.push(place);
            assert(place_views(places@) =~= before.push(place_views(places@)[k as int]));
            assert(place_views(places@) =~= places_of(changes@, root@).take(k + 1));
        }
        assert(place_views(places@) =~= places_of(changes@, root@));
        let (targets, named): (Vec<WorkspaceEditTarget>, Option<String>) = match self.plan_targets(
            changes,
            &places,
            source,
        ) {
            Ok(planned) => planned,
            Err(e) => return Err(e),
        };
        let request_uri = match named {
            Some(uri) => uri,
            None => source_uri,
        };
        Ok(
            EditPlan {
                config_digest: self.services.sessions[s].config_digest.clone(),
                document_index: source,
                source_relative_path,
                request_uri,
                targets,
            },
        )
    }

    /// The documents that some changes touch, given the place of each, and the URI
    /// that the document of the request goes by.
    pub fn plan_targets(
        &self,
        changes: &Vec<TransactionalDocumentEdit>,
        places: &Vec<Option<(String, String)>>,
        source: usize,
    ) -> (r: Result<(Vec<WorkspaceEditTarget>, Option<String>), EditPlanError>)
        requires
            places@.len() == changes@.len(),
        ensures
            match targets_from(
                self.buffers@,
                changes@,
                place_views(places@),
                source as int,
                0,
                Seq::empty(),
                None,
            ) {
                Ok((targets, named)) => r is Ok && target_views(r->Ok_0.0@) == targets && opt_text(
                    r->Ok_0.1,
                ) == named,
                Err(fault) => r is Err && r->Err_0@ == fault,
            },
    {
        let mut targets: Vec<WorkspaceEditTarget> = Vec::new();
        let mut named: Option<String> = None;
        let mut k: usize = 0;
        assert(target_views(targets@) =~= Seq::empty());
        let ghost goal = targets_from(
            self.buffers@,
            changes@,
            place_views(places@),
            source as int,
            0,
            Seq::empty(),
            None,
        );
        while k < changes.len()
            invariant
                k <= changes@.len(),
                places@.len() == changes@.len(),
                goal == targets_from(
                    self.buffers@,
                    changes@,
                    place_views(places@),
                    source as int,
                    0,
                    Seq::empty(),
                    None,
                ),
                goal == targets_from(
                    self.buffers@,
                    changes@,
                    place_views(places@),
                    source as int,
                    k as int,
                    target_views(targets@),
                    opt_text(named),
                ),
            decreases changes@.len() - k,
        {
            let uri: &String = match &changes[k] {
                TransactionalDocumentEdit::TextDocument { uri, .. } => uri,
            };
            let mut seen = false;
            for j in 0..k
                invariant
                    k < changes@.len(),
                    seen == uri_before(changes@, uri@, j as int),
            {
                let other: &String = match &changes[j] {
                    TransactionalDocumentEdit::TextDocument { uri, .. } => uri,
                };
                if *other == *uri {
                    assert(change_uri(changes@[j as int])@ == uri@);
                    seen = true;
                }
            }
            if !seen {
                assert(place_views(places@)[k as int] == match places@[k as int] {
                    Some((path, rest)) => Some((path@, rest@)),
                    None => None,
                });
                let (path, rest): (&String, &String) = match &places[k] {
                    Some((path, rest)) => (path, rest),
                    None => return Err(
                        EditPlanError::UnresolvableWorkspaceDocument { uri: uri.clone() },
                    ),
                };
                let i: usize = self.find_path(path);
                let open = i < self.buffers.len();
                if open && i == source {
                    if named.is_some() {
                        return Err(
                            EditPlanError::DuplicateWorkspaceDocument { uri: uri.clone() },
                        );
                    }
                    named = Some(uri.clone());
                }
                let ghost before = target_views(targets@);
                let target = WorkspaceEditTarget {
                    uri: uri.clone(),
                    relative_path: rest.clone(),
                    buffer_index: if open {
                        Some(i)
                    } else {
                        None
                    },
                };
                let ghost view = target@;
                targets.push(target);
                assert(target_views(targets@) =~= before.push(view));
            }
            k += 1;
        }
        Ok((targets, named))
    }

    /// The authority that makes an edit: the one of this machine or the one reached
    /// over SSH, as the selected authority is; none for a container.
    pub fn edit_authority(&self) -> (maker: EditAuthority)
        ensures
            maker == edit_maker(*self),
    {
        if self.current_authority >= self.authorities.len() {
            return EditAuthority::Unavailable;
        }
        match self.authorities[self.current_authority].kind {
            AuthorityKind::Local => if self.local_authority.is_some() {
                EditAuthority::Local
            } else {
                EditAuthority::Unavailable
            },
            AuthorityKind::Ssh => {
                let i: usize = self.current_ssh_authority();
                if i < self.ssh_authorities.len() {
                    EditAuthority::Ssh(i)
                } else {
                    EditAuthority::Unavailable
                }
            },
            AuthorityKind::DevContainer => EditAuthority::Unavailable,
        }
    }

    /// Opens a document that an edit touches and that is not open yet, from what was
    /// read of it. Its ledger starts with the context of the edit.
    pub fn open_edit_target(
        &mut self,
        root: &String,
        context: &LspContext,
        target: &mut WorkspaceEditTarget,
        content: Option<String>,
    ) -> (r: Result<(), EditPlanError>)
        requires
            old(self).wf(),
        ensures
            final(self).wf(),
            match content {
                None => r == Err::<(), EditPlanError>(
                    EditPlanError::UnresolvableWorkspaceDocument { uri: old(target).uri },
                ) && *final(self) == *old(self) && *final(target) == *old(target),
                Some(text) => {
                    let path = joined(root@, old(target).relative_path@);
                    let b = final(self).buffers@.last()@;
                    let fresh = fresh_buffer(
                        b.id,
                        language_of_path(path),
                        text@,
                        DocumentRevision(0),
                        b.path_state,
                        false,
                        Some(DocumentRevision(0)),
                    );
                    &&& r is Ok
                    &&& *final(target) == (WorkspaceEditTarget {
                        buffer_index: Some(old(self).buffers@.len() as usize),
                        ..*old(target)
                    })
                    &&& *final(self) == (App { buffers: final(self).buffers, ..*old(self) })
                    &&& final(self).buffers@ == old(self).buffers@.push(final(self).buffers@.last())
                    &&& b.path_state matches BufferPathState::Saved(p) && p@ == path
                    &&& b == (BufferView {
                        ledgers: seq![
                            fresh_ledger(
                                fresh,
                                context.authority_identity.0@,
                                context.execution_context@,
                                0,
                                WorkspaceEpoch(context.workspace_epoch.0),
                                context.environment_epoch,
                            ),
                        ],
                        ..fresh
                    })
                },
            },
    {
        let text = match content {
            None => return Err(
                EditPlanError::UnresolvableWorkspaceDocument { uri: target.uri.clone() },
            ),
            Some(text) => text,
        };
        let path = join(root.as_str(), target.relative_path.as_str());
        let language = Language::from_path(path.as_str());
        let mut buffer = Buffer::restore_clean(
            DocumentId::new(),
            language,
            text.as_str(),
            DocumentRevision(0),
            BufferPathState::Saved(path),
        );
        let ghost fresh = buffer@;
        buffer.ensure_lsp_ledger(
            context.authority_identity.clone(),
            context.execution_context.clone(),
            WorkspaceEpoch(context.workspace_epoch.0),
            context.environment_epoch,
        );
        assert(buffer@.ledgers =~= seq![
            fresh_ledger(
                fresh,
                context.authority_identity.0@,
                context.execution_context@,
                0,
                WorkspaceEpoch(context.workspace_epoch.0),
                context.environment_epoch,
            ),
        ]);
        let ghost before = self.buffers@;
        target.buffer_index = Some(self.buffers.len());
        self.buffers.push(buffer);
        assert(self.buffers@ =~= before.push(self.buffers@.last()));
        Ok(())
    }
}

/// The buffers that an edit touches besides the one of the request.
pub fn edit_documents(plan: &EditPlan) -> (r: Result<Vec<usize>, EditPlanError>)
    ensures
        match other_buffers_from(plan.targets@, plan.document_index, 0) {
            Ok(buffers) => r is Ok && r->Ok_0@ == buffers,
            Err(fault) => r is Err && r->Err_0@ == fault,
        },
{
    let mut out: Vec<usize> = Vec::new();
    let mut k: usize = 0;
    let ghost goal = other_buffers_from(plan.targets@, plan.document_index, 0);
    while k < plan.targets.len()
        invariant
            k <= plan.targets@.len(),
            goal == other_buffers_from(plan.targets@, plan.document_index, 0),
            goal == match other_buffers_from(plan.targets@, plan.document_index, k as int) {
                Ok(rest) => Ok(out@ + rest),
                Err(fault) => Err(fault),
            },
        decreases plan.targets@.len() - k,
    {
        let ghost rest = other_buffers_from(plan.targets@, plan.document_index, k + 1);
        match plan.targets[k].buffer_index {
            None => return Err(
                EditPlanError::MissingWorkspaceDocument { uri: plan.targets[k].uri.clone() },
            ),
            Some(i) => {
                if i != plan.document_index {
                    let mut taken = false;
                    for j in 0..k
                        invariant
                            k < plan.targets@.len(),
                            taken == buffer_taken(plan.targets@, i, j as int),
                    {
                        let same = match plan.targets[j].buffer_index {
                            Some(other) => other == i,
                            None => false,
                        };
                        if same {
                            assert(plan.targets@[j as int].buffer_index == Some(i));
                            taken = true;
                        }
                    }
                    if taken {
                        return Err(
                            EditPlanError::MissingWorkspaceDocument {
                                uri: plan.targets[k].uri.clone(),
                            },
                        );
                    }
                    let ghost before = out@;
                    out.push(i);
                    proof {
                        if let Ok(r) = rest {
                            assert(before + (seq![i] + r) =~= out@ + r);
                        }
                    }
                }
            },
        }
        k += 1;
    }
    assert(out@ + Seq::<usize>::empty() =~= out@);
    Ok(out)
}

/// Whether a target stands for a change: it has its URI and its place, and names the
/// first open document of that file, if there is one.
pub open spec fn stands_for(
    buffers: Seq<Buffer>,
    target: TargetView,
    uri: Seq<char>,
    place: Option<(Seq<char>, Seq<char>)>,
) -> bool {
    place matches Some((path, rest)) && target.uri == uri && target.relative_path == rest && (
    target.buffer_index matches Some(i) ==> 0 <= i < buffers.len() && has_file(buffers[i]@, path)
        && forall|j: int| 0 <= j < i ==> !has_file((#[trigger] buffers[j])@, path)) && (
    target.buffer_index is None ==> forall|j: int|
        0 <= j < buffers.len() ==> !has_file((#[trigger] buffers[j])@, path))
}

proof fn lemma_file_buffer(buffers: Seq<Buffer>, path: Seq<char>, i: int)
    requires
        0 <= i <= buffers.len(),
    ensures
        i <= file_buffer_from(buffers, path, i) <= buffers.len(),
        file_buffer_from(buffers, path, i) < buffers.len() ==> has_file(
            buffers[file_buffer_from(buffers, path, i)]@,
            path,
        ),
        forall|j: int|
            i <= j < file_buffer_from(buffers, path, i) ==> !has_file(
                (#[trigger] buffers[j])@,
                path,
            ),
    decreases buffers.len() - i,
{
    if i < buffers.len() && !has_file(buffers[i]@, path) {
        lemma_file_buffer(buffers, path, i + 1);
    }
}

/// Every document that a workspace edit changes is a target, once, with its own place;
/// there are no other targets. The document of the request is named by its URI in the
/// edit, if it is among them.
pub proof fn every_changed_document_is_a_target(
    buffers: Seq<Buffer>,
    changes: Seq<TransactionalDocumentEdit>,
    places: Seq<Option<(Seq<char>, Seq<char>)>>,
    source: int,
    targets: Seq<TargetView>,
    named: Option<Seq<char>>,
)
    requires
        targets_from(buffers, changes, places, source, 0, Seq::empty(), None) == Ok::<
            (Seq<TargetView>, Option<Seq<char>>),
            PlanFault,
        >((targets, named)),
    ensures
        forall|k: int|
            0 <= k < changes.len() ==> exists|t: int|
                0 <= t < targets.len() && (#[trigger] targets[t]).uri == (
                #[trigger] changes[k])->uri@,
        forall|t: int|
            0 <= t < targets.len() ==> exists|k: int|
                0 <= k < changes.len() && stands_for(
                    buffers,
                    #[trigger] targets[t],
                    (#[trigger] changes[k])->uri@,
                    places[k],
                ),
        forall|a: int, b: int|
            0 <= a < b < targets.len() ==> (#[trigger] targets[a]).uri != (
            #[trigger] targets[b]).uri,
        named matches Some(uri) ==> exists|t: int|
            0 <= t < targets.len() && (#[trigger] targets[t]).uri == uri && targets[t].buffer_index
                == Some(source),
        named is None ==> forall|t: int|
            0 <= t < targets.len() && 0 <= source ==> (#[trigger] targets[t]).buffer_index != Some(
                source,
            ),
{
    lemma_targets(buffers, changes, places, source, 0, Seq::empty(), None, targets, named);
    let n = changes.len() as int;
    assert forall|k: int| 0 <= k < changes.len() implies exists|t: int|
        0 <= t < targets.len() && (#[trigger] targets[t]).uri == (#[trigger] changes[k])->uri@ by {
        assert(is_target(targets, changes[k]->uri@));
        reveal(is_target);
    }
    assert forall|t: int| 0 <= t < targets.len() implies exists|k: int|
        0 <= k < changes.len() && stands_for(
            buffers,
            #[trigger] targets[t],
            (#[trigger] changes[k])->uri@,
            places[k],
        ) by {
        assert(comes_from(buffers, changes, places, n, targets[t]));
        reveal(comes_from);
    }
}

/// Whether one of several targets has a URI.
#[verifier::opaque]
spec fn is_target(found: Seq<TargetView>, uri: Seq<char>) -> bool {
    exists|t: int| 0 <= t < found.len() && (#[trigger] found[t]).uri == uri
}

/// Whether a target stands for a change before index `k`.
#[verifier::opaque]
spec fn comes_from(
    buffers: Seq<Buffer>,
    changes: Seq<TransactionalDocumentEdit>,
    places: Seq<Option<(Seq<char>, Seq<char>)>>,
    k: int,
    target: TargetView,
) -> bool {
    exists|j: int|
        0 <= j < k && stands_for(buffers, target, (#[trigger] changes[j])->uri@, places[j])
}

/// What holds of the targets that were found for the changes before index `k`.
spec fn found_for(
    buffers: Seq<Buffer>,
    changes: Seq<TransactionalDocumentEdit>,
    places: Seq<Option<(Seq<char>, Seq<char>)>>,
    source: int,
    k: int,
    found: Seq<TargetView>,
    named: Option<Seq<char>>,
) -> bool {
    &&& forall|j: int| 0 <= j < k ==> is_target(found, (#[trigger] changes[j])->uri@)
    &&& forall|t: int|
        0 <= t < found.len() ==> comes_from(buffers, changes, places, k, #[trigger] found[t])
    &&& forall|a: int, b: int|
        0 <= a < b < found.len() ==> (#[trigger] found[a]).uri != (#[trigger] found[b]).uri
    &&& named matches Some(uri) ==> exists|t: int|
        0 <= t < found.len() && (#[trigger] found[t]).uri == uri && found[t].buffer_index == Some(
            source,
        )
    &&& named is None ==> forall|t: int|
        0 <= t < found.len() ==> (#[trigger] found[t]).buffer_index != Some(source)
}

/// A target of some changes is a target of more of them, and has the URI of one.
proof fn lemma_comes_from(
    buffers: Seq<Buffer>,
    changes: Seq<TransactionalDocumentEdit>,
    places: Seq<Option<(Seq<char>, Seq<char>)>>,
    k: int,
    target: TargetView,
)
    requires
        0 <= k < changes.len(),
        comes_from(buffers, changes, places, k, target),
    ensures
        comes_from(buffers, changes, places, k + 1, target),
        uri_before(changes, target.uri, k),
{
    reveal(comes_from);
    let j = choose|j: int|
        0 <= j < k && stands_for(buffers, target, (#[trigger] changes[j])->uri@, places[j]);
    assert(change_uri(changes[j])@ == target.uri);
}

/// A change of a document that was found already adds nothing.
proof fn lemma_found_again(
    buffers: Seq<Buffer>,
    changes: Seq<TransactionalDocumentEdit>,
    places: Seq<Option<(Seq<char>, Seq<char>)>>,
    source: int,
    k: int,
    found: Seq<TargetView>,
    named: Option<Seq<char>>,
)
    requires
        0 <= k < changes.len(),
        found_for(buffers, changes, places, source, k, found, named),
        uri_before(changes, change_uri(changes[k])@, k),
    ensures
        found_for(buffers, changes, places, source, k + 1, found, named),
{
    let j = choose|j: int|
        0 <= j < k && change_uri(#[trigger] changes[j])@ == change_uri(changes[k])@;
    assert(changes[j]->uri@ == changes[k]->uri@);
    assert forall|t: int| 0 <= t < found.len() implies comes_from(
        buffers,
        changes,
        places,
        k + 1,
        #[trigger] found[t],
    ) by {
        lemma_comes_from(buffers, changes, places, k, found[t]);
    }
}

/// A change of another document adds its target.
proof fn lemma_found_one_more(
    buffers: Seq<Buffer>,
    changes: Seq<TransactionalDocumentEdit>,
    places: Seq<Option<(Seq<char>, Seq<char>)>>,
    source: int,
    k: int,
    found: Seq<TargetView>,
    named: Option<Seq<char>>,
    target: TargetView,
    now_named: Option<Seq<char>>,
)
    requires
        0 <= k < changes.len(),
        found_for(buffers, changes, places, source, k, found, named),
        !uri_before(changes, change_uri(changes[k])@, k),
        stands_for(buffers, target, changes[k]->uri@, places[k]),
        target.buffer_index == Some(source) ==> now_named == Some(target.uri),
        target.buffer_index != Some(source) ==> now_named == named,
    ensures
        found_for(buffers, changes, places, source, k + 1, found.push(target), now_named),
{
    let next = found.push(target);
    let last = found.len() as int;
    assert(next[last] == target);
    assert forall|j: int| 0 <= j < k + 1 implies is_target(next, (#[trigger] changes[j])->uri@) by {
        reveal(is_target);
        if j < k {
            assert(is_target(found, changes[j]->uri@));
            let t = choose|t: int|
                0 <= t < found.len() && (#[trigger] found[t]).uri == changes[j]->uri@;
            assert(next[t] == found[t]);
        } else {
            assert(next[last].uri == changes[j]->uri@);
        }
    }
    assert forall|t: int| 0 <= t < next.len() implies comes_from(
        buffers,
        changes,
        places,
        k + 1,
        #[trigger] next[t],
    ) by {
        if t < last {
            assert(next[t] == found[t]);
            lemma_comes_from(buffers, changes, places, k, found[t]);
        } else {
            reveal(comes_from);
            assert(stands_for(buffers, next[t], changes[k]->uri@, places[k]));
        }
    }
    assert forall|a: int, b: int| 0 <= a < b < next.len() implies (#[trigger] next[a]).uri != (
    #[trigger] next[b]).uri by {
        assert(next[a] == found[a]);
        if b < last {
            assert(next[b] == found[b]);
        } else {
            lemma_comes_from(buffers, changes, places, k, found[a]);
        }
    }
    if target.buffer_index == Some(source) {
        assert(next[last].uri == target.uri);
    } else if let Some(u) = named {
        let t = choose|t: int|
            0 <= t < found.len() && (#[trigger] found[t]).uri == u && found[t].buffer_index == Some(
                source,
            );
        assert(next[t] == found[t]);
    } else {
        assert forall|t: int| 0 <= t < next.len() implies (#[trigger] next[t]).buffer_index != Some(
            source,
        ) by {
            if t < last {
                assert(next[t] == found[t]);
            }
        }
    }
}

proof fn lemma_targets(
    buffers: Seq<Buffer>,
    changes: Seq<TransactionalDocumentEdit>,
    places: Seq<Option<(Seq<char>, Seq<char>)>>,
    source: int,
    k: int,
    found: Seq<TargetView>,
    source_uri: Option<Seq<char>>,
    targets: Seq<TargetView>,
    named: Option<Seq<char>>,
)
    requires
        0 <= k <= changes.len(),
        found_for(buffers, changes, places, source, k, found, source_uri),
        targets_from(buffers, changes, places, source, k, found, source_uri) == Ok::<
            (Seq<TargetView>, Option<Seq<char>>),
            PlanFault,
        >((targets, named)),
    ensures
        found_for(buffers, changes, places, source, changes.len() as int, targets, named),
    decreases changes.len() - k,
{
    if k < changes.len() {
        let uri = change_uri(changes[k])@;
        if uri_before(changes, uri, k) {
            lemma_found_again(buffers, changes, places, source, k, found, source_uri);
            lemma_targets(
                buffers,
                changes,
                places,
                source,
                k + 1,
                found,
                source_uri,
                targets,
                named,
            );
        } else {
            let (path, rest) = places[k]->0;
            lemma_file_buffer(buffers, path, 0);
            let i = file_buffer_from(buffers, path, 0);
            let open = i < buffers.len();
            let target = TargetView {
                uri,
                relative_path: rest,
                buffer_index: if open {
                    Some(i)
                } else {
                    None
                },
            };
            let next_uri = if open && i == source {
                Some(uri)
            } else {
                source_uri
            };
            lemma_found_one_more(
                buffers,
                changes,
                places,
                source,
                k,
                found,
                source_uri,
                target,
                next_uri,
            );
            lemma_targets(
                buffers,
                changes,
                places,
                source,
                k + 1,
                found.push(target),
                next_uri,
                targets,
                named,
            );
        }
    }
}

/// A workspace edit whose documents lie below the root, and of which at most one is the
/// document of the request, can be planned; one with a document elsewhere cannot.
pub proof fn edits_outside_the_root_are_refused(
    buffers: Seq<Buffer>,
    changes: Seq<TransactionalDocumentEdit>,
    places: Seq<Option<(Seq<char>, Seq<char>)>>,
    source: int,
    k: int,
    found: Seq<TargetView>,
    source_uri: Option<Seq<char>>,
)
    requires
        0 <= k <= changes.len(),
        places.len() == changes.len(),
        forall|a: int, b: int|
            0 <= a < changes.len() && 0 <= b < changes.len() && (#[trigger] changes[a])->uri@ == (
            #[trigger] changes[b])->uri@ ==> places[a] == places[b],
        exists|j: int| k <= j < changes.len() && (#[trigger] places[j]) is None,
        forall|j: int| 0 <= j < k ==> (#[trigger] places[j]) is Some,
    ensures
        targets_from(buffers, changes, places, source, k, found, source_uri) is Err,
    decreases changes.len() - k,
{
    let uri = change_uri(changes[k])@;
    let bad = choose|j: int| k <= j < changes.len() && (#[trigger] places[j]) is None;
    if uri_before(changes, uri, k) {
        let j = choose|j: int| 0 <= j < k && change_uri(#[trigger] changes[j])@ == uri;
        assert(changes[j]->uri@ == changes[k]->uri@);
        assert(places[j] is Some);
        edits_outside_the_root_are_refused(
            buffers,
            changes,
            places,
            source,
            k + 1,
            found,
            source_uri,
        );
    } else if places[k] is Some {
        let (path, rest) = places[k]->0;
        let i = file_buffer_from(buffers, path, 0);
        let open = i < buffers.len();
        if !(open && i == source && source_uri is Some) {
            edits_outside_the_root_are_refused(
                buffers,
                changes,
                places,
                source,
                k + 1,
                found.push(
                    TargetView {
                        uri,
                        relative_path: rest,
                        buffer_index: if open {
                            Some(i)
                        } else {
                            None
                        },
                    },
                ),
                if open && i == source {
                    Some(uri)
                } else {
                    source_uri
                },
            );
        }
    }
}

/// The other documents of an edit are exactly the documents of its targets but the one
/// of the request, each once: none is left out, and a target that is not open or that
/// another one names too refuses the edit.
pub proof fn other_documents_are_those_of_the_targets(
    targets: Seq<WorkspaceEditTarget>,
    source: usize,
    k: int,
    others: Seq<usize>,
)
    requires
        0 <= k <= targets.len(),
        other_buffers_from(targets, source, k) == Ok::<Seq<usize>, PlanFault>(others),
    ensures
        forall|t: int|
            k <= t < targets.len() ==> ((#[trigger] targets[t]).buffer_index matches Some(i) && (i
                == source || others.contains(i))),
        forall|o: int|
            0 <= o < others.len() ==> others[o] != source && exists|t: int|
                k <= t < targets.len() && (#[trigger] targets[t]).buffer_index == Some(
                    #[trigger] others[o],
                ),
        forall|a: int, b: int| 0 <= a < b < others.len() ==> others[a] != others[b],
        forall|o: int, t: int|
            0 <= o < others.len() && 0 <= t < k ==> (#[trigger] targets[t]).buffer_index != Some(
                #[trigger] others[o],
            ),
    decreases targets.len() - k,
{
    if k < targets.len() {
        let i = targets[k].buffer_index->0;
        if i == source {
            other_documents_are_those_of_the_targets(targets, source, k + 1, others);
            assert forall|o: int| 0 <= o < others.len() implies others[o] != source && exists|t: int|
                k <= t < targets.len() && (#[trigger] targets[t]).buffer_index == Some(
                    #[trigger] others[o],
                ) by {
                let t = choose|t: int|
                    k + 1 <= t < targets.len() && (#[trigger] targets[t]).buffer_index == Some(
                        others[o],
                    );
                assert(targets[t].buffer_index == Some(others[o]));
            }
        } else {
            let rest = other_buffers_from(targets, source, k + 1)->Ok_0;
            other_documents_are_those_of_the_targets(targets, source, k + 1, rest);
            assert(others == seq![i] + rest);
            assert forall|o: int| 0 <= o < others.len() implies others[o] != source && exists|t: int|
                k <= t < targets.len() && (#[trigger] targets[t]).buffer_index == Some(
                    #[trigger] others[o],
                ) by {
                if o == 0 {
                    assert(targets[k].buffer_index == Some(others[o]));
                } else {
                    assert(others[o] == rest[o - 1]);
                    let t = choose|t: int|
                        k + 1 <= t < targets.len() && (#[trigger] targets[t]).buffer_index == Some(
                            rest[o - 1],
                        );
                    assert(targets[t].buffer_index == Some(others[o]));
                }
            }
            assert forall|t: int| k <= t < targets.len() implies ((
            #[trigger] targets[t]).buffer_index matches Some(n) && (n == source
                || others.contains(n))) by {
                if t == k {
                    assert(others[0] == i);
                } else {
                    let n = targets[t].buffer_index->0;
                    if n != source {
                        let o = choose|o: int| 0 <= o < rest.len() && rest[o] == n;
                        assert(others[o + 1] == n);
                    }
                }
            }
            assert forall|a: int, b: int| 0 <= a < b < others.len() implies others[a] != others[b] by {
                assert(others[b] == rest[b - 1]);
                if a == 0 {
                    assert(targets[k].buffer_index != Some(rest[b - 1]));
                } else {
                    assert(others[a] == rest[a - 1]);
                }
            }
            assert forall|o: int, t: int| 0 <= o < others.len() && 0 <= t < k implies (
            #[trigger] targets[t]).buffer_index != Some(#[trigger] others[o]) by {
                if o > 0 {
                    assert(others[o] == rest[o - 1]);
                } else if targets[t].buffer_index == Some(others[o]) {
                    assert(buffer_taken(targets, i, k));
                }
            }
        }
    }
}

/// A workspace edit is made by the authority that is selected: by the one of this
/// machine, or by the one that is reached over SSH under its label, and by none in a
/// container.
pub proof fn edits_are_made_by_the_selected_authority(app: App)
    requires
        app.wf(),
    ensures
        ({
            let a = app.authorities@[app.current_authority as int];
            &&& a.kind == AuthorityKind::Local ==> (edit_maker(app) == EditAuthority::Local <==>
                app.local_authority is Some)
            &&& edit_maker(app) == EditAuthority::Local ==> a.kind == AuthorityKind::Local
            &&& a.kind == AuthorityKind::DevContainer ==> edit_maker(app)
                == EditAuthority::Unavailable
            &&& edit_maker(app) matches EditAuthority::Ssh(k) ==> a.kind == AuthorityKind::Ssh && k
                < app.ssh_authorities@.len() && app.ssh_authorities@[k as int].base.label@
                == a.label@
        }),
{
    let a = app.authorities@[app.current_authority as int];
    lemma_ssh_label(app.ssh_authorities@, a.label@, 0);
    assert(app.ssh_authorities@.len() == app.ssh_authorities.len());
}

proof fn lemma_ssh_label(authorities: Seq<SshAuthority>, label: Seq<char>, i: int)
    requires
        0 <= i <= authorities.len(),
    ensures
        i <= ssh_from(authorities, label, i) <= authorities.len(),
        ssh_from(authorities, label, i) < authorities.len() ==> authorities[ssh_from(
            authorities,
            label,
            i,
        )].base.label@ == label,
    decreases authorities.len() - i,
{
    if i < authorities.len() && authorities[i].base.label@ != label {
        lemma_ssh_label(authorities, label, i + 1);
    }
}

/// The place of a document below the root is what is left of its path: the two together
/// name the same file, and a document elsewhere has no place.
pub proof fn targets_lie_below_the_root(uri: Seq<char>, root: Seq<char>)
    ensures
        target_place(uri, root) matches Some((path, rest)) ==> url_file_path(uri) == Some(path)
            && path_below(path, root) && path_parts(path).len() > path_parts(root).len(),
        url_file_path(uri) is None ==> target_place(uri, root) is None,
        url_file_path(uri) matches Some(path) ==> (!path_below(path, root) ==> target_place(
            uri,
            root,
        ) is None),
{
    if let Some((path, rest)) = target_place(uri, root) {
        what_is_left_stays_below(path, root, rest);
    }
}

/// An edit is planned for a document only where a session of the named server knows that
/// document and the document lies below the root, and then with the configuration of that
/// session and with every document that the edit changes among its targets.
pub proof fn plans_are_made_for_a_known_document(
    app: App,
    root: Seq<char>,
    key: SupervisorKey,
    document: DocumentId,
    edit: TransactionalWorkspaceEdit,
    r: Result<EditPlan, EditPlanError>,
)
    requires
        edit_planned(app, root, key, document, edit, r),
    ensures
        (forall|s: int|
            0 <= s < app.services.sessions@.len() ==> (#[trigger] app.services.sessions@[s]).key@
                != key@ || app.services.sessions@[s].document_id != document) ==> r is Err
            && r->Err_0@ == PlanFault::MissingLedger,
        r is Ok ==> has_buffer(app, document) && r->Ok_0.document_index == buffer_at(app, document),
        r is Ok ==> exists|s: int|
            0 <= s < app.services.sessions@.len() && (#[trigger] app.services.sessions@[s]).key@
                == key@ && app.services.sessions@[s].document_id == document
                && app.services.sessions@[s].config_digest == r->Ok_0.config_digest,
        r is Ok ==> (target_place(
            document_uri(app.buffers@[buffer_at(app, document)]@),
            root,
        ) matches Some(place) && r->Ok_0.source_relative_path@ == place.1),
{
    lemma_planned_session(app.services.sessions@, key@, document, 0);
    let s = session_from(app.services.sessions@, key@, document, 0);
    if s < app.services.sessions@.len() {
        assert(app.services.sessions@[s].key@ == key@);
    }
}

proof fn lemma_planned_session(
    sessions: Seq<LspSession>,
    key: KeyView,
    document: DocumentId,
    i: int,
)
    requires
        0 <= i <= sessions.len(),
    ensures
        i <= session_from(sessions, key, document, i) <= sessions.len(),
        session_from(sessions, key, document, i) < sessions.len() ==> sessions[session_from(
            sessions,
            key,
            document,
            i,
        )].key@ == key && sessions[session_from(sessions, key, document, i)].document_id
            == document,
    decreases sessions.len() - i,
{
    if i < sessions.len() {
        lemma_planned_session(sessions, key, document, i + 1);
    }
}

} // verus!
