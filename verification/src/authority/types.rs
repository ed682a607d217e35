//! Requests to an authority, and the evidence that a workspace edit fits the
//! open buffers.
use vstd::prelude::*;

use super::{AuthorityError, EditConflict};
use crate::buffer::{ledger_of, Buffer};
use crate::document;
use crate::encoding::{is_random_uuid, random_uuid};
use crate::path::{components, path_equal, path_parts, same_path, Part, PathPart};
use crate::protocol::lsp::{AuthorityIdentity, LspContext};
use crate::protocol::pty::PtySize;
use crate::protocol::request::{
    env_entry_ok, holds_char, CommandSpec, DocumentRevision, EnvironmentEpoch,
    ExecutionContextV1, WorkspaceEpoch,
};

verus! {

#[derive(Clone, Copy, Debug, PartialEq, Eq, Structural)]
pub enum AuthorityKind {
    Local,
    Ssh,
    DevContainer,
}

#[derive(Clone, Copy, Debug, PartialEq, Eq, Structural)]
pub enum AuthorityTrust {
    InspectOnly,
    ExecutionGranted,
}

/// A request with the epochs that it was made in.
#[derive(Debug)]
pub struct AuthorityRequest<T> {
    pub request_id: u128,
    pub workspace_epoch: WorkspaceEpoch,
    pub environment_epoch: EnvironmentEpoch,
    pub document_revision: Option<DocumentRevision>,
    pub payload: T,
}

/// The answer to a request, under the tags of the request.
#[derive(Debug)]
pub struct AuthorityResult<T> {
    pub request_id: u128,
    pub workspace_epoch: WorkspaceEpoch,
    pub environment_epoch: EnvironmentEpoch,
    pub document_revision: Option<DocumentRevision>,
    pub payload: T,
}

impl<T> AuthorityRequest<T> {
    /// A request under a fresh random identifier.
    pub fn new(
        payload: T,
        workspace_epoch: WorkspaceEpoch,
        environment_epoch: EnvironmentEpoch,
        document_revision: Option<DocumentRevision>,
    ) -> (request: Self)
        ensures
            is_random_uuid(request.request_id),
            request.workspace_epoch == workspace_epoch,
            request.environment_epoch == environment_epoch,
            request.document_revision == document_revision,
            request.payload == payload,
    {
        AuthorityRequest {
            request_id: random_uuid(),
            workspace_epoch,
            environment_epoch,
            document_revision,
            payload,
        }
    }

    /// The answer to the request.
    pub fn respond<U>(self, payload: U) -> (result: AuthorityResult<U>)
        ensures
            result.request_id == self.request_id,
            result.workspace_epoch == self.workspace_epoch,
            result.environment_epoch == self.environment_epoch,
            result.document_revision == self.document_revision,
            result.payload == payload,
    {
        AuthorityResult {
            request_id: self.request_id,
            workspace_epoch: self.workspace_epoch,
            environment_epoch: self.environment_epoch,
            document_revision: self.document_revision,
            payload,
        }
    }
}

#[derive(Debug)]
pub struct ReadFileRequest {
    pub path: String,
    pub max_bytes: usize,
}

#[derive(Debug)]
pub struct WriteFileRequest {
    pub path: String,
    pub bytes: Vec<u8>,
    pub create: bool,
}

#[derive(Debug)]
pub struct PtyRequest {
    pub command: CommandSpec,
    pub size: PtySize,
}

#[derive(Debug)]
pub struct ExecRequest {
    pub command: CommandSpec,
    pub stdout_limit: usize,
    pub stderr_limit: usize,
    pub timeout_ms: u64,
}

/// The value under a name after the entries before index `i` were put in, later
/// ones in place of earlier ones, and those that no program can be given left
/// out.
pub open spec fn environment_value(
    entries: Seq<(String, String)>,
    name: Seq<char>,
    i: int,
) -> Option<Seq<char>>
    decreases i,
{
    if i <= 0 {
        None
    } else if entries[i - 1].0@ == name && env_entry_ok(entries[i - 1]) {
        Some(entries[i - 1].1@)
    } else {
        environment_value(entries, name, i - 1)
    }
}

/// The first entry under a name, from index `i` on.
pub open spec fn entry_from(entries: Seq<(String, String)>, name: Seq<char>, i: int) -> int
    decreases entries.len() - i,
{
    if i >= entries.len() {
        entries.len() as int
    } else if entries[i].0@ == name {
        i
    } else {
        entry_from(entries, name, i + 1)
    }
}

/// The value that an environment gives to a name.
pub open spec fn environment_get(env: Seq<(String, String)>, name: Seq<char>) -> Option<Seq<char>> {
    let i = entry_from(env, name, 0);
    if 0 <= i < env.len() {
        Some(env[i].1@)
    } else {
        None
    }
}

/// Whether each name occurs once.
pub open spec fn names_unique(env: Seq<(String, String)>) -> bool {
    forall|i: int, j: int|
        0 <= i < j < env.len() ==> (#[trigger] env[i]).0@ != (#[trigger] env[j]).0@
}

proof fn lemma_entry_from(env: Seq<(String, String)>, name: Seq<char>, i: int)
    requires
        0 <= i <= env.len(),
    ensures
        i <= entry_from(env, name, i) <= env.len(),
        entry_from(env, name, i) < env.len() ==> env[entry_from(env, name, i)].0@ == name,
        forall|j: int| i <= j < entry_from(env, name, i) ==> (#[trigger] env[j]).0@ != name,
    decreases env.len() - i,
{
    if i < env.len() && env[i].0@ != name {
        lemma_entry_from(env, name, i + 1);
    }
}

/// The first entry under a name is the one whose index has the name and none
/// before it has.
proof fn lemma_entry_is(env: Seq<(String, String)>, name: Seq<char>, k: int)
    requires
        0 <= k <= env.len(),
        k < env.len() ==> env[k].0@ == name,
        forall|j: int| 0 <= j < k ==> (#[trigger] env[j]).0@ != name,
    ensures
        entry_from(env, name, 0) == k,
{
    lemma_entry_from(env, name, 0);
}

fn entry_ok(entry: &(String, String)) -> (ok: bool)
    ensures
        ok == env_entry_ok(*entry),
{
    !entry.0.as_str().is_empty() && !holds_char(entry.0.as_str(), '=') && !holds_char(
        entry.0.as_str(),
        '\0',
    ) && !holds_char(entry.1.as_str(), '\0')
}

/// The environment of the entries that a program can be given. Of entries under
/// one name the last counts.
pub fn allowlisted_environment(entries: Vec<(String, String)>) -> (env: Vec<(String, String)>)
    ensures
        names_unique(env@),
        forall|i: int| 0 <= i < env@.len() ==> env_entry_ok(#[trigger] env@[i]),
        forall|name: Seq<char>| #[trigger]
            environment_get(env@, name) == environment_value(
                entries@,
                name,
                entries@.len() as int,
            ),
{
    let mut env: Vec<(String, String)> = Vec::new();
    for i in 0..entries.len()
        invariant
            names_unique(env@),
            forall|k: int| 0 <= k < env@.len() ==> env_entry_ok(#[trigger] env@[k]),
            forall|name: Seq<char>| #[trigger]
                environment_get(env@, name) == environment_value(entries@, name, i as int),
    {
        if entry_ok(&entries[i]) {
            let entry = (entries[i].0.clone(), entries[i].1.clone());
            let ghost before = env@;
            let mut k: usize = 0;
            while k < env.len() && env[k].0 != entry.0
                invariant
                    env@ == before,
                    k <= env@.len(),
                    forall|j: int| 0 <= j < k ==> (#[trigger] env@[j]).0@ != entry.0@,
                decreases env@.len() - k,
            {
                k += 1;
            }
            if k < env.len() {
                env.set(k, entry);
            } else {
                env.push(entry);
            }
            proof {
                assert forall|name: Seq<char>| #[trigger]
                    environment_get(env@, name) == environment_value(
                        entries@,
                        name,
                        i + 1,
                    ) by {
                    assert(environment_get(before, name) == environment_value(
                        entries@,
                        name,
                        i as int,
                    ));
                    lemma_entry_from(before, name, 0);
                    let p = entry_from(before, name, 0);
                    if name == entry.0@ {
                        lemma_entry_is(env@, name, k as int);
                    } else if p < before.len() {
                        assert forall|j: int| 0 <= j < p implies (#[trigger] env@[j]).0@ != name by {
                            if j != k {
                                assert(env@[j] == before[j]);
                            }
                        }
                        assert(env@[p] == before[p]);
                        lemma_entry_is(env@, name, p);
                    } else {
                        assert forall|j: int| 0 <= j < env@.len() implies (
                        #[trigger] env@[j]).0@ != name by {
                            if j != k {
                                assert(env@[j] == before[j]);
                            }
                        }
                        lemma_entry_is(env@, name, env@.len() as int);
                    }
                }
                assert forall|a: int, b: int| 0 <= a < b < env@.len() implies (
                #[trigger] env@[a]).0@ != (#[trigger] env@[b]).0@ by {
                    if a != k {
                        assert(env@[a] == before[a]);
                    }
                    if b != k {
                        assert(env@[b] == before[b]);
                    }
                    if a == k {
                        if k < before.len() {
                            assert(before[a].0@ == entry.0@);
                        }
                    }
                    if b == k && k < before.len() {
                        assert(before[b].0@ == entry.0@);
                    }
                }
            }
        }
    }
    env
}

/// A workspace edit as whole new contents, without any claim on buffer
/// revisions.
#[derive(Debug)]
pub struct LspWorkspaceEditRequest {
    pub context: LspContext,
    pub config_digest: String,
    pub changes: Vec<LspDocumentChange>,
}

#[derive(Debug)]
pub struct LspDocumentChange {
    pub relative_path: String,
    pub content: Vec<u8>,
}

/// The buffer of one target of a workspace edit, and the state that the edit was
/// made for.
pub struct LspDocumentRevisionSnapshot<'a> {
    pub relative_path: String,
    pub authority_identity: AuthorityIdentity,
    pub execution_context: ExecutionContextV1,
    pub workspace_epoch: document::WorkspaceEpoch,
    pub environment_epoch: EnvironmentEpoch,
    pub revision: document::DocumentRevision,
    pub buffer: &'a Buffer,
}

/// The evidence that every target of a workspace edit is still in the state that
/// the edit was made for.
pub struct LspWorkspaceEditPreconditions<'a> {
    pub snapshots: Vec<LspDocumentRevisionSnapshot<'a>>,
}

/// The first snapshot, from index `i` on, with a path that an earlier one has
/// too.
pub open spec fn duplicate_snapshot_from(
    snapshots: Seq<LspDocumentRevisionSnapshot>,
    i: int,
) -> Option<int>
    decreases snapshots.len() - i,
{
    if i >= snapshots.len() {
        None
    } else if snapshot_before(snapshots, snapshots[i].relative_path@, i) {
        Some(i)
    } else {
        duplicate_snapshot_from(snapshots, i + 1)
    }
}

/// Whether a snapshot before index `i` has a path.
pub open spec fn snapshot_before(
    snapshots: Seq<LspDocumentRevisionSnapshot>,
    path: Seq<char>,
    i: int,
) -> bool {
    exists|j: int| 0 <= j < i && path_equal((#[trigger] snapshots[j]).relative_path@, path)
}

/// Whether a change before index `i` has a path.
pub open spec fn change_before(changes: Seq<LspDocumentChange>, path: Seq<char>, i: int) -> bool {
    exists|j: int| 0 <= j < i && path_equal((#[trigger] changes[j]).relative_path@, path)
}

/// The first snapshot of a path, from index `i` on; the number of snapshots if
/// there is none.
pub open spec fn snapshot_from(
    snapshots: Seq<LspDocumentRevisionSnapshot>,
    path: Seq<char>,
    i: int,
) -> int
    decreases snapshots.len() - i,
{
    if i >= snapshots.len() {
        snapshots.len() as int
    } else if path_equal(snapshots[i].relative_path@, path) {
        i
    } else {
        snapshot_from(snapshots, path, i + 1)
    }
}

/// What keeps a change from being made: its snapshot is of another context, has
/// no ledger, or is of another revision or epoch than the buffer and its ledger
/// are now.
pub open spec fn snapshot_fault(
    s: LspDocumentRevisionSnapshot,
    context: LspContext,
    path: String,
    authority: Seq<char>,
    workspace_epoch: WorkspaceEpoch,
    environment_epoch: EnvironmentEpoch,
) -> Option<AuthorityError> {
    if s.authority_identity.0@ != authority || s.authority_identity.0@
        != context.authority_identity.0@ || s.execution_context@ != context.execution_context@
        || s.workspace_epoch.0 != workspace_epoch.0 || s.workspace_epoch.0
        != context.workspace_epoch.0 || s.environment_epoch != environment_epoch
        || s.environment_epoch != context.environment_epoch {
        Some(AuthorityError::LspEditPreconditionContextMismatch { path })
    } else {
        match ledger_of(s.buffer@.ledgers, s.authority_identity.0@, s.execution_context@) {
            None => Some(AuthorityError::MissingLspEditPrecondition { path }),
            Some(ledger) => if s.buffer@.revision != s.revision || ledger.revision != s.revision {
                Some(
                    AuthorityError::LspEditPreconditionMismatch {
                        path,
                        expected: s.revision,
                        actual: s.buffer@.revision,
                    },
                )
            } else if ledger.workspace_epoch != s.workspace_epoch || ledger.environment_epoch
                != s.environment_epoch {
                Some(AuthorityError::LspEditPreconditionContextMismatch { path })
            } else {
                None
            },
        }
    }
}

/// What keeps the changes from index `k` on from being made.
pub open spec fn changes_refused_from(
    snapshots: Seq<LspDocumentRevisionSnapshot>,
    request: LspWorkspaceEditRequest,
    authority: Seq<char>,
    workspace_epoch: WorkspaceEpoch,
    environment_epoch: EnvironmentEpoch,
    k: int,
) -> Option<AuthorityError>
    decreases request.changes@.len() - k,
{
    if k >= request.changes@.len() {
        None
    } else {
        let path = request.changes@[k].relative_path;
        let i = snapshot_from(snapshots, path@, 0);
        if change_before(request.changes@, path@, k) {
            Some(AuthorityError::LspEditConflict(EditConflict::DuplicateTarget { path }))
        } else if !(0 <= i < snapshots.len()) {
            Some(AuthorityError::MissingLspEditPrecondition { path })
        } else {
            let fault = snapshot_fault(
                snapshots[i],
                request.context,
                path,
                authority,
                workspace_epoch,
                environment_epoch,
            );
            if fault is Some {
                fault
            } else {
                changes_refused_from(
                    snapshots,
                    request,
                    authority,
                    workspace_epoch,
                    environment_epoch,
                    k + 1,
                )
            }
        }
    }
}

/// Whether no change has the path of a snapshot.
pub open spec fn left_over(
    snapshot: LspDocumentRevisionSnapshot,
    changes: Seq<LspDocumentChange>,
) -> bool {
    !change_before(changes, snapshot.relative_path@, changes.len() as int)
}

/// The order of names: by their characters, from the first that differs.
pub open spec fn text_less(a: Seq<char>, b: Seq<char>) -> bool
    decreases a.len(),
{
    if b.len() == 0 {
        false
    } else if a.len() == 0 {
        true
    } else if a[0] != b[0] {
        (a[0] as u32) < (b[0] as u32)
    } else {
        text_less(a.drop_first(), b.drop_first())
    }
}

/// The place of a kind of path part in the order of paths.
pub open spec fn part_rank(p: Part) -> int {
    match p {
        Part::Root => 0,
        Part::Current => 1,
        Part::Parent => 2,
        Part::Name(_) => 3,
    }
}

/// The order of path parts: kinds first, names by their characters.
pub open spec fn part_less(a: Part, b: Part) -> bool {
    match (a, b) {
        (Part::Name(x), Part::Name(y)) => text_less(x, y),
        _ => part_rank(a) < part_rank(b),
    }
}

/// The order of paths: by their parts, from the first that differs.
pub open spec fn parts_less(a: Seq<Part>, b: Seq<Part>) -> bool
    decreases a.len(),
{
    if b.len() == 0 {
        false
    } else if a.len() == 0 {
        true
    } else if a[0] != b[0] {
        part_less(a[0], b[0])
    } else {
        parts_less(a.drop_first(), b.drop_first())
    }
}

fn name_less(a: &Vec<char>, b: &Vec<char>) -> (less: bool)
    ensures
        less == text_less(a@, b@),
{
    let mut i: usize = 0;
    assert(a@.skip(0) =~= a@);
    assert(b@.skip(0) =~= b@);
    while i < a.len() && i < b.len()
        invariant
            i <= a@.len(),
            i <= b@.len(),
            text_less(a@, b@) == text_less(a@.skip(i as int), b@.skip(i as int)),
        decreases a@.len() - i,
    {
        assert(a@.skip(i as int)[0] == a@[i as int]);
        assert(b@.skip(i as int)[0] == b@[i as int]);
        if a[i] != b[i] {
            return (a[i] as u32) < (b[i] as u32);
        }
        assert(a@.skip(i as int).drop_first() =~= a@.skip(i + 1));
        assert(b@.skip(i as int).drop_first() =~= b@.skip(i + 1));
        i += 1;
    }
    i < b.len()
}

fn rank(p: &PathPart) -> (n: u8)
    ensures
        n == part_rank(p@),
{
    match p {
        PathPart::Root => 0,
        PathPart::Current => 1,
        PathPart::Parent => 2,
        PathPart::Name(_) => 3,
    }
}

fn comes_before(a: &PathPart, b: &PathPart) -> (less: bool)
    ensures
        less == part_less(a@, b@),
{
    match (a, b) {
        (PathPart::Name(x), PathPart::Name(y)) => name_less(
            &crate::text::chars_of(x.as_str()),
            &crate::text::chars_of(y.as_str()),
        ),
        _ => rank(a) < rank(b),
    }
}

/// Whether a path comes before another in the order of paths.
pub fn path_comes_before(a: &str, b: &str) -> (less: bool)
    ensures
        less == parts_less(path_parts(a@), path_parts(b@)),
{
    let x = components(a);
    let y = components(b);
    let ghost p = path_parts(a@);
    let ghost q = path_parts(b@);
    let mut i: usize = 0;
    assert(p.skip(0) =~= p);
    assert(q.skip(0) =~= q);
    assert(p.len() == x@.len() && q.len() == y@.len());
    while i < x.len() && i < y.len()
        invariant
            p == path_parts(a@),
            q == path_parts(b@),
            p == crate::path::parts_view(x@),
            q == crate::path::parts_view(y@),
            p.len() == x@.len(),
            q.len() == y@.len(),
            i <= p.len(),
            i <= q.len(),
            parts_less(p, q) == parts_less(p.skip(i as int), q.skip(i as int)),
        decreases p.len() - i,
    {
        assert(p.skip(i as int)[0] == x@[i as int]@);
        assert(q.skip(i as int)[0] == y@[i as int]@);
        if !crate::path::same_part(&x[i], &y[i]) {
            return comes_before(&x[i], &y[i]);
        }
        assert(p.skip(i as int).drop_first() =~= p.skip(i + 1));
        assert(q.skip(i as int).drop_first() =~= q.skip(i + 1));
        i += 1;
    }
    i < y.len()
}

/// The smallest path, in the order of paths, of the snapshots before index `i`
/// that no change uses.
pub open spec fn least_left_over(
    snapshots: Seq<LspDocumentRevisionSnapshot>,
    changes: Seq<LspDocumentChange>,
    i: int,
) -> Option<String>
    decreases i,
{
    if i <= 0 {
        None
    } else {
        let before = least_left_over(snapshots, changes, i - 1);
        let path = snapshots[i - 1].relative_path;
        if !left_over(snapshots[i - 1], changes) {
            before
        } else {
            match before {
                Some(b) => if parts_less(path_parts(path@), path_parts(b@)) {
                    Some(path)
                } else {
                    Some(b)
                },
                None => Some(path),
            }
        }
    }
}

/// What keeps a workspace edit from being made: a path with two snapshots, a
/// change that its snapshot does not allow, or a snapshot that no change uses.
pub open spec fn edit_refusal(
    snapshots: Seq<LspDocumentRevisionSnapshot>,
    request: LspWorkspaceEditRequest,
    authority: Seq<char>,
    workspace_epoch: WorkspaceEpoch,
    environment_epoch: EnvironmentEpoch,
) -> Option<AuthorityError> {
    match duplicate_snapshot_from(snapshots, 0) {
        Some(i) => Some(
            AuthorityError::LspEditConflict(
                EditConflict::DuplicatePrecondition { path: snapshots[i].relative_path },
            ),
        ),
        None => match changes_refused_from(
            snapshots,
            request,
            authority,
            workspace_epoch,
            environment_epoch,
            0,
        ) {
            Some(e) => Some(e),
            None => match least_left_over(
                snapshots,
                request.changes@,
                snapshots.len() as int,
            ) {
                Some(path) => Some(AuthorityError::MissingLspEditPrecondition { path }),
                None => None,
            },
        },
    }
}

fn has_change(changes: &Vec<LspDocumentChange>, path: &str, n: usize) -> (found: bool)
    requires
        n <= changes@.len(),
    ensures
        found == change_before(changes@, path@, n as int),
{
    for j in 0..n
        invariant
            n <= changes@.len(),
            forall|k: int| 0 <= k < j ==> !path_equal((#[trigger] changes@[k]).relative_path@, path@),
    {
        if same_path(changes[j].relative_path.as_str(), path) {
            return true;
        }
    }
    false
}

impl<'a> LspWorkspaceEditPreconditions<'a> {
    fn has_snapshot(&self, path: &str, n: usize) -> (found: bool)
        requires
            n <= self.snapshots@.len(),
        ensures
            found == snapshot_before(self.snapshots@, path@, n as int),
    {
        for j in 0..n
            invariant
                n <= self.snapshots@.len(),
                forall|k: int|
                    0 <= k < j ==> !path_equal(
                        (#[trigger] self.snapshots@[k]).relative_path@,
                        path@,
                    ),
        {
            if same_path(self.snapshots[j].relative_path.as_str(), path) {
                return true;
            }
        }
        false
    }

    fn find_snapshot(&self, path: &str) -> (i: usize)
        ensures
            i == snapshot_from(self.snapshots@, path@, 0),
            i <= self.snapshots@.len(),
    {
        let mut i: usize = 0;
        while i < self.snapshots.len()
            invariant
                i <= self.snapshots@.len(),
                snapshot_from(self.snapshots@, path@, 0) == snapshot_from(
                    self.snapshots@,
                    path@,
                    i as int,
                ),
            decreases self.snapshots@.len() - i,
        {
            if same_path(self.snapshots[i].relative_path.as_str(), path) {
                return i;
            }
            i += 1;
        }
        i
    }

    /// Checks that every change of a workspace edit has a snapshot that still holds,
    /// that no path occurs twice, and that every snapshot belongs to a change.
    pub fn verify(
        &self,
        request: &LspWorkspaceEditRequest,
        authority_identity: &str,
        workspace_epoch: WorkspaceEpoch,
        environment_epoch: EnvironmentEpoch,
    ) -> (r: Result<(), AuthorityError>)
        ensures
            r == match edit_refusal(
                self.snapshots@,
                *request,
                authority_identity@,
                workspace_epoch,
                environment_epoch,
            ) {
                None => Ok::<(), AuthorityError>(()),
                Some(e) => Err::<(), AuthorityError>(e),
            },
    {
        let ghost refusal = edit_refusal(
            self.snapshots@,
            *request,
            authority_identity@,
            workspace_epoch,
            environment_epoch,
        );
        let mut i: usize = 0;
        while i < self.snapshots.len()
            invariant
                i <= self.snapshots@.len(),
                refusal == edit_refusal(
                    self.snapshots@,
                    *request,
                    authority_identity@,
                    workspace_epoch,
                    environment_epoch,
                ),
                duplicate_snapshot_from(self.snapshots@, 0) == duplicate_snapshot_from(
                    self.snapshots@,
                    i as int,
                ),
            decreases self.snapshots@.len() - i,
        {
            if self.has_snapshot(self.snapshots[i].relative_path.as_str(), i) {
                return Err(
                    AuthorityError::LspEditConflict(
                        EditConflict::DuplicatePrecondition {
                            path: self.snapshots[i].relative_path.clone(),
                        },
                    ),
                );
            }
            i += 1;
        }
        let mut k: usize = 0;
        while k < request.changes.len()
            invariant
                k <= request.changes@.len(),
                duplicate_snapshot_from(self.snapshots@, 0) is None,
                refusal == edit_refusal(
                    self.snapshots@,
                    *request,
                    authority_identity@,
                    workspace_epoch,
                    environment_epoch,
                ),
                changes_refused_from(
                    self.snapshots@,
                    *request,
                    authority_identity@,
                    workspace_epoch,
                    environment_epoch,
                    0,
                ) == changes_refused_from(
                    self.snapshots@,
                    *request,
                    authority_identity@,
                    workspace_epoch,
                    environment_epoch,
                    k as int,
                ),
            decreases request.changes@.len() - k,
        {
            let path = request.changes[k].relative_path.clone();
            if has_change(&request.changes, path.as_str(), k) {
                return Err(
                    AuthorityError::LspEditConflict(EditConflict::DuplicateTarget { path }),
                );
            }
            let j: usize = self.find_snapshot(path.as_str());
            if j >= self.snapshots.len() {
                return Err(AuthorityError::MissingLspEditPrecondition { path });
            }
            let s = &self.snapshots[j];
            if !crate::text::str_eq(s.authority_identity.0.as_str(), authority_identity)
                || s.authority_identity.0 != request.context.authority_identity.0
                || !s.execution_context.same(&request.context.execution_context)
                || s.workspace_epoch.0 != workspace_epoch.0 || s.workspace_epoch.0
                != request.context.workspace_epoch.0 || s.environment_epoch != environment_epoch
                || s.environment_epoch != request.context.environment_epoch {
                return Err(AuthorityError::LspEditPreconditionContextMismatch { path });
            }
            match s.buffer.lsp_ledger(&s.authority_identity, &s.execution_context) {
                None => return Err(AuthorityError::MissingLspEditPrecondition { path }),
                Some(ledger) => {
                    let actual = s.buffer.revision();
                    if actual != s.revision || ledger.revision != s.revision {
                        return Err(
                            AuthorityError::LspEditPreconditionMismatch {
                                path,
                                expected: s.revision,
                                actual,
                            },
                        );
                    }
                    if ledger.workspace_epoch != s.workspace_epoch || ledger.environment_epoch
                        != s.environment_epoch {
                        return Err(AuthorityError::LspEditPreconditionContextMismatch { path });
                    }
                },
            }
            k += 1;
        }
        let mut least: Option<String> = None;
        for n in 0..self.snapshots.len()
            invariant
                least == least_left_over(self.snapshots@, request.changes@, n as int),
        {
            let count: usize = request.changes.len();
            let path = self.snapshots[n].relative_path.as_str();
            if !has_change(&request.changes, path, count) {
                let smaller = match &least {
                    Some(b) => path_comes_before(path, b.as_str()),
                    None => true,
                };
                if smaller {
                    least = Some(self.snapshots[n].relative_path.clone());
                }
            }
        }
        match least {
            Some(path) => Err(AuthorityError::MissingLspEditPrecondition { path }),
            None => Ok(()),
        }
    }
}

/// A workspace edit is made only if every change has a snapshot of its file, and the
/// document of each is still at the revision that the edit was made for, as the server
/// was told, in the epochs and the context of the request. No file is changed twice.
pub proof fn edits_fit_every_document(
    snapshots: Seq<LspDocumentRevisionSnapshot>,
    request: LspWorkspaceEditRequest,
    authority: Seq<char>,
    workspace_epoch: WorkspaceEpoch,
    environment_epoch: EnvironmentEpoch,
    k: int,
    j: int,
)
    requires
        0 <= k <= j < request.changes@.len(),
        changes_refused_from(
            snapshots,
            request,
            authority,
            workspace_epoch,
            environment_epoch,
            k,
        ) is None,
    ensures
        exists|i: int|
            0 <= i < snapshots.len() && {
                let s = #[trigger] snapshots[i];
                &&& path_equal(s.relative_path@, request.changes@[j].relative_path@)
                &&& s.buffer@.revision == s.revision
                &&& s.authority_identity.0@ == authority
                &&& s.execution_context@ == request.context.execution_context@
                &&& s.workspace_epoch.0 == workspace_epoch.0
                &&& s.environment_epoch == environment_epoch
                &&& ledger_of(
                    s.buffer@.ledgers,
                    s.authority_identity.0@,
                    s.execution_context@,
                ) matches Some(ledger) && ledger.revision == s.revision
            },
        forall|n: int|
            0 <= n < j ==> !path_equal(
                (#[trigger] request.changes@[n]).relative_path@,
                request.changes@[j].relative_path@,
            ),
    decreases request.changes@.len() - k,
{
    let path = request.changes@[k].relative_path@;
    if k < j {
        edits_fit_every_document(
            snapshots,
            request,
            authority,
            workspace_epoch,
            environment_epoch,
            k + 1,
            j,
        );
    } else {
        lemma_snapshot_from(snapshots, path, 0);
        let i = snapshot_from(snapshots, path, 0);
        assert(path_equal(snapshots[i].relative_path@, path));
        assert forall|n: int| 0 <= n < j implies !path_equal(
            (#[trigger] request.changes@[n]).relative_path@,
            path,
        ) by {
            if path_equal(request.changes@[n].relative_path@, path) {
                assert(change_before(request.changes@, path, k));
            }
        }
    }
}

proof fn lemma_snapshot_from(
    snapshots: Seq<LspDocumentRevisionSnapshot>,
    path: Seq<char>,
    i: int,
)
    requires
        0 <= i <= snapshots.len(),
    ensures
        i <= snapshot_from(snapshots, path, i) <= snapshots.len(),
        snapshot_from(snapshots, path, i) < snapshots.len() ==> path_equal(
            snapshots[snapshot_from(snapshots, path, i)].relative_path@,
            path,
        ),
    decreases snapshots.len() - i,
{
    if i < snapshots.len() && !path_equal(snapshots[i].relative_path@, path) {
        lemma_snapshot_from(snapshots, path, i + 1);
    }
}

/// Of the entries under one name the last that a program can be given counts, and a
/// name without such an entry has no value.
pub proof fn last_entries_count(
    entries: Seq<(String, String)>,
    name: Seq<char>,
    entry: (String, String),
)
    ensures
        entry.0@ == name && entry.0@.len() > 0 && !entry.0@.contains('=') && !entry.0@.contains(
            '\0',
        ) && !entry.1@.contains('\0') ==> environment_value(
            entries.push(entry),
            name,
            (entries.len() + 1) as int,
        ) == Some(entry.1@),
        entry.0@ != name || entry.1@.contains('\0') ==> environment_value(
            entries.push(entry),
            name,
            (entries.len() + 1) as int,
        ) == environment_value(entries, name, entries.len() as int),
        environment_value(entries, name, 0) is None,
{
    lemma_environment_head(entries.push(entry), entries, name, entries.len() as int);
}

proof fn lemma_environment_head(
    a: Seq<(String, String)>,
    b: Seq<(String, String)>,
    name: Seq<char>,
    n: int,
)
    requires
        0 <= n <= a.len(),
        n <= b.len(),
        forall|j: int| 0 <= j < n ==> #[trigger] a[j] == b[j],
    ensures
        environment_value(a, name, n) == environment_value(b, name, n),
    decreases n,
{
    if n > 0 {
        assert(a[n - 1] == b[n - 1]);
        lemma_environment_head(a, b, name, n - 1);
    }
}

/// A name of an environment has the value of the first entry under it, and none if no
/// entry has that name.
pub proof fn environments_give_the_value_under_a_name(
    env: Seq<(String, String)>,
    name: Seq<char>,
    k: int,
)
    requires
        0 <= k < env.len(),
        env[k].0@ == name,
        forall|j: int| 0 <= j < k ==> (#[trigger] env[j]).0@ != name,
    ensures
        environment_get(env, name) == Some(env[k].1@),
        environment_get(env.take(k), name) is None,
{
    lemma_first_entry(env, name, k, 0);
    lemma_no_entry(env.take(k), name, 0);
}

proof fn lemma_first_entry(env: Seq<(String, String)>, name: Seq<char>, k: int, i: int)
    requires
        0 <= i <= k < env.len(),
        env[k].0@ == name,
        forall|j: int| 0 <= j < k ==> (#[trigger] env[j]).0@ != name,
    ensures
        entry_from(env, name, i) == k,
    decreases k - i,
{
    if i < k {
        lemma_first_entry(env, name, k, i + 1);
    }
}

proof fn lemma_no_entry(env: Seq<(String, String)>, name: Seq<char>, i: int)
    requires
        0 <= i <= env.len(),
        forall|j: int| 0 <= j < env.len() ==> (#[trigger] env[j]).0@ != name,
    ensures
        entry_from(env, name, i) == env.len(),
    decreases env.len() - i,
{
    if i < env.len() {
        lemma_no_entry(env, name, i + 1);
    }
}

} // verus!
