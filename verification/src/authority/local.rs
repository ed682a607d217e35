//! The authority of the machine that the editor runs on: what may be read,
//! written and run, and where.
use vstd::prelude::*;

use super::base::{epoch_fault, found, AuthorityBase};
use super::transaction::{sibling, sibling_name, StagedLspReplacement};
use super::types::{
    AuthorityKind, AuthorityRequest, AuthorityResult, AuthorityTrust, ExecRequest,
    LspDocumentChange, PtyRequest, ReadFileRequest, WriteFileRequest,
};
use super::{AuthorityError, EditConflict, IoFault};
use crate::encoding::{hex_encode, hex_text, sha256, sha256_of};
use crate::path::{
    file_name, is_below, is_name, join, joined, joined_paths_lie_below, last_name,
    names_are_their_own_part, only_names, path_below, path_equal, path_parts, same_path,
};
use crate::protocol::request::WorkspaceEpoch;

verus! {

/// The longest file that is read, in bytes.
pub const LOCAL_FILE_READ_LIMIT: usize = 16777216;

/// The identity of this machine in grants, whatever its label.
pub const LOCAL_IDENTITY: &'static str = "local";

#[derive(Debug)]
pub struct LocalAuthority {
    pub base: AuthorityBase,
}

/// A file to read: where it should be, and how much of it may come.
#[derive(Debug, PartialEq, Eq)]
pub struct ReadPlan {
    pub candidate: String,
    pub max_bytes: usize,
    /// One byte more than may come, so that a longer file shows.
    pub read_limit: u64,
}

/// A file to write: the content goes to `temp` first, which then takes the place
/// of `target`.
#[derive(Debug, PartialEq, Eq)]
pub struct WritePlan {
    pub temp: String,
    pub target: String,
}

/// The smaller of two sizes.
pub open spec fn at_most(n: usize, limit: usize) -> usize {
    if n <= limit {
        n
    } else {
        limit
    }
}

/// Why a file may not be read or written, before its path is looked at: other
/// epochs, or no document revision.
pub open spec fn file_fault<T>(a: AuthorityBase, request: AuthorityRequest<T>) -> Option<
    AuthorityError,
> {
    if epoch_fault(a, request) is Some {
        epoch_fault(a, request)
    } else if request.document_revision is None {
        Some(AuthorityError::MissingDocumentRevision)
    } else {
        None
    }
}

/// Why a program may not be run: no trust, or other epochs.
pub open spec fn run_fault<T>(a: AuthorityBase, request: AuthorityRequest<T>) -> Option<
    AuthorityError,
> {
    if a.trust != AuthorityTrust::ExecutionGranted {
        Some(AuthorityError::InspectOnly)
    } else {
        epoch_fault(a, request)
    }
}

/// The place that a write goes to, under the directory that its parent really is:
/// none if that is not below the root.
pub open spec fn write_place(root: Seq<char>, path: Seq<char>, parent: Option<Seq<char>>) -> Option<
    Seq<char>,
> {
    match (parent, last_name(joined(root, path))) {
        (Some(p), Some(name)) => if only_names(path_parts(path)) && path_below(p, root) {
            Some(joined(p, name))
        } else {
            None
        },
        _ => None,
    }
}

/// The text of an optional string.
pub open spec fn parent_text(parent: Option<String>) -> Option<Seq<char>> {
    match parent {
        Some(p) => Some(p@),
        None => None,
    }
}

/// Checks that a file may be read or written.
fn check_file<T>(base: &AuthorityBase, request: &AuthorityRequest<T>) -> (r: Result<
    (),
    AuthorityError,
>)
    ensures
        found(r, file_fault(*base, *request)),
{
    match base.validate_epochs(request) {
        Err(e) => return Err(e),
        Ok(()) => {},
    }
    if request.document_revision.is_none() {
        return Err(AuthorityError::MissingDocumentRevision);
    }
    Ok(())
}

impl LocalAuthority {
    /// The authority for a workspace whose root is given in its canonical form. It
    /// starts without trust and without grants.
    pub fn new(label: String, canonical_root: String, workspace_epoch: WorkspaceEpoch) -> (a: Self)
        ensures
            a.base.kind == AuthorityKind::Local,
            a.base.label == label,
            a.base.host_id@ == LOCAL_IDENTITY@,
            a.base.root == canonical_root,
            a.base.trust == AuthorityTrust::InspectOnly,
            a.base.workspace_epoch == workspace_epoch,
            a.base.environment_epoch.0 == 0,
            a.base.next_id == 1,
            a.base.lsp_grants@.len() == 0,
    {
        LocalAuthority {
            base: AuthorityBase {
                kind: AuthorityKind::Local,
                label,
                host_id: LOCAL_IDENTITY.to_owned(),
                root: canonical_root,
                trust: AuthorityTrust::InspectOnly,
                workspace_epoch,
                environment_epoch: crate::protocol::request::EnvironmentEpoch(0),
                next_id: 1,
                lsp_grants: Vec::new(),
            },
        }
    }

    /// The place of a file that is there, given what its path really is once every
    /// link is followed: a place outside the root is refused.
    pub fn resolve_existing(&self, path: &String, canonical: String) -> (r: Result<
        String,
        AuthorityError,
    >)
        ensures
            r == if only_names(path_parts(path@)) && path_below(canonical@, self.base.root@) {
                Ok::<String, AuthorityError>(canonical)
            } else {
                Err::<String, AuthorityError>(AuthorityError::PathEscapesRoot(*path))
            },
    {
        match self.base.resolve_relative(path) {
            Err(e) => return Err(e),
            Ok(_) => {},
        }
        if !is_below(canonical.as_str(), self.base.root.as_str()) {
            return Err(AuthorityError::PathEscapesRoot(path.clone()));
        }
        Ok(canonical)
    }

    /// The directory and the name of a file to be written, given what its parent
    /// directory really is once every link is followed.
    pub fn resolve_write(&self, path: &String, canonical_parent: Option<String>) -> (r: Result<
        (String, String),
        AuthorityError,
    >)
        ensures
            match write_place(self.base.root@, path@, parent_text(canonical_parent)) {
                Some(place) => {
                    &&& r is Ok
                    &&& r->Ok_0.0 == canonical_parent->0
                    &&& last_name(joined(self.base.root@, path@)) == Some(r->Ok_0.1@)
                    &&& place == joined(r->Ok_0.0@, r->Ok_0.1@)
                },
                None => r == Err::<(String, String), AuthorityError>(
                    AuthorityError::PathEscapesRoot(*path),
                ),
            },
    {
        let candidate = match self.base.resolve_relative(path) {
            Err(e) => return Err(e),
            Ok(p) => p,
        };
        let parent = match canonical_parent {
            Some(p) => p,
            None => return Err(AuthorityError::PathEscapesRoot(path.clone())),
        };
        if !is_below(parent.as_str(), self.base.root.as_str()) {
            return Err(AuthorityError::PathEscapesRoot(path.clone()));
        }
        match file_name(candidate.as_str()) {
            Some(name) => Ok((parent, name)),
            None => Err(AuthorityError::PathEscapesRoot(path.clone())),
        }
    }

    /// What to read for a request: the epochs and the revision are checked, and the
    /// path must stay below the root.
    pub fn begin_read(&self, request: &AuthorityRequest<ReadFileRequest>) -> (r: Result<
        ReadPlan,
        AuthorityError,
    >)
        ensures
            match file_fault(self.base, *request) {
                Some(e) => r == Err::<ReadPlan, AuthorityError>(e),
                None => if only_names(path_parts(request.payload.path@)) {
                    &&& r is Ok
                    &&& r->Ok_0.candidate@ == joined(self.base.root@, request.payload.path@)
                    &&& r->Ok_0.max_bytes == at_most(
                        request.payload.max_bytes,
                        LOCAL_FILE_READ_LIMIT,
                    )
                    &&& r->Ok_0.read_limit == r->Ok_0.max_bytes + 1
                } else {
                    r == Err::<ReadPlan, AuthorityError>(
                        AuthorityError::PathEscapesRoot(request.payload.path),
                    )
                },
            },
    {
        match check_file(&self.base, request) {
            Err(e) => return Err(e),
            Ok(()) => {},
        }
        let candidate = match self.base.resolve_relative(&request.payload.path) {
            Err(e) => return Err(e),
            Ok(p) => p,
        };
        let max_bytes: usize = if request.payload.max_bytes <= LOCAL_FILE_READ_LIMIT {
            request.payload.max_bytes
        } else {
            LOCAL_FILE_READ_LIMIT
        };
        Ok(ReadPlan { candidate, max_bytes, read_limit: max_bytes as u64 + 1 })
    }

    /// The answer to a read request, from the bytes that came. More bytes than asked
    /// for are refused.
    pub fn finish_read(
        &self,
        request: AuthorityRequest<ReadFileRequest>,
        plan: &ReadPlan,
        bytes: Vec<u8>,
    ) -> (r: Result<AuthorityResult<Vec<u8>>, AuthorityError>)
        ensures
            if bytes@.len() > plan.max_bytes {
                r == Err::<AuthorityResult<Vec<u8>>, AuthorityError>(
                    AuthorityError::OutputLimit { limit: plan.max_bytes },
                )
            } else {
                r == Ok::<AuthorityResult<Vec<u8>>, AuthorityError>(
                    AuthorityResult {
                        request_id: request.request_id,
                        workspace_epoch: request.workspace_epoch,
                        environment_epoch: request.environment_epoch,
                        document_revision: request.document_revision,
                        payload: bytes,
                    },
                )
            },
    {
        if bytes.len() > plan.max_bytes {
            return Err(AuthorityError::OutputLimit { limit: plan.max_bytes });
        }
        Ok(request.respond(bytes))
    }

    /// Where the file of a write request should be.
    pub fn begin_write(&self, request: &AuthorityRequest<WriteFileRequest>) -> (r: Result<
        String,
        AuthorityError,
    >)
        ensures
            match file_fault(self.base, *request) {
                Some(e) => r == Err::<String, AuthorityError>(e),
                None => if only_names(path_parts(request.payload.path@)) {
                    r is Ok && r->Ok_0@ == joined(self.base.root@, request.payload.path@)
                } else {
                    r == Err::<String, AuthorityError>(
                        AuthorityError::PathEscapesRoot(request.payload.path),
                    )
                },
            },
    {
        match check_file(&self.base, request) {
            Err(e) => return Err(e),
            Ok(()) => {},
        }
        self.base.resolve_relative(&request.payload.path)
    }

    /// Where the content of a write request goes, given what the parent directory
    /// really is. `id` makes the temporary name unique.
    pub fn place_write(
        &self,
        request: &AuthorityRequest<WriteFileRequest>,
        canonical_parent: Option<String>,
        id: &str,
    ) -> (r: Result<WritePlan, AuthorityError>)
        ensures
            match write_place(
                self.base.root@,
                request.payload.path@,
                parent_text(canonical_parent),
            ) {
                Some(place) => {
                    &&& r is Ok
                    &&& r->Ok_0.target@ == place
                    &&& r->Ok_0.temp@ == joined(
                        canonical_parent->0@,
                        sibling_name(
                            last_name(joined(self.base.root@, request.payload.path@))->0,
                            ".hermito-"@,
                            id@,
                        ),
                    )
                },
                None => r == Err::<WritePlan, AuthorityError>(
                    AuthorityError::PathEscapesRoot(request.payload.path),
                ),
            },
    {
        match self.resolve_write(&request.payload.path, canonical_parent) {
            Err(e) => Err(e),
            Ok((parent, name)) => Ok(
                WritePlan {
                    temp: join(parent.as_str(), sibling(name.as_str(), ".hermito-", id).as_str()),
                    target: join(parent.as_str(), name.as_str()),
                },
            ),
        }
    }

    /// Checks that a file that is to be there already is there.
    pub fn check_target(&self, request: &AuthorityRequest<WriteFileRequest>, present: bool) -> (r:
        Result<(), AuthorityError>)
        ensures
            r == if request.payload.create || present {
                Ok::<(), AuthorityError>(())
            } else {
                Err::<(), AuthorityError>(AuthorityError::Io(IoFault::TargetMissing))
            },
    {
        if !request.payload.create && !present {
            return Err(AuthorityError::Io(IoFault::TargetMissing));
        }
        Ok(())
    }

    /// The answer to a write request that was carried out: how many bytes were
    /// written.
    pub fn finish_write(&self, request: AuthorityRequest<WriteFileRequest>) -> (result:
        AuthorityResult<usize>)
        ensures
            result.request_id == request.request_id,
            result.workspace_epoch == request.workspace_epoch,
            result.environment_epoch == request.environment_epoch,
            result.document_revision == request.document_revision,
            result.payload == request.payload.bytes@.len(),
    {
        let written: usize = request.payload.bytes.len();
        request.respond(written)
    }

    /// The number of a new terminal session, if programs may be run.
    pub fn begin_pty(&mut self, request: &AuthorityRequest<PtyRequest>) -> (r: Result<
        u64,
        AuthorityError,
    >)
        ensures
            match run_fault(old(self).base, *request) {
                Some(e) => r == Err::<u64, AuthorityError>(e) && *final(self) == *old(self),
                None => {
                    &&& r == Ok::<u64, AuthorityError>(old(self).base.next_id)
                    &&& final(self).base == (AuthorityBase {
                        next_id: final(self).base.next_id,
                        ..old(self).base
                    })
                    &&& final(self).base.next_id == if old(self).base.next_id < u64::MAX {
                        old(self).base.next_id + 1
                    } else {
                        0
                    }
                },
            },
    {
        match self.base.require_execution() {
            Err(e) => return Err(e),
            Ok(()) => {},
        }
        match self.base.validate_epochs(request) {
            Err(e) => return Err(e),
            Ok(()) => {},
        }
        Ok(self.base.take_id())
    }

    /// Checks that a program may be run.
    pub fn begin_exec(&self, request: &AuthorityRequest<ExecRequest>) -> (r: Result<
        (),
        AuthorityError,
    >)
        ensures
            found(r, run_fault(self.base, *request)),
    {
        match self.base.require_execution() {
            Err(e) => return Err(e),
            Ok(()) => {},
        }
        self.base.validate_epochs(request)
    }

    /// The places of one replacement of a workspace edit, next to those that are
    /// staged already. A target that is staged already is refused.
    pub fn stage(
        &self,
        staged: &Vec<StagedLspReplacement>,
        path: &String,
        canonical_parent: Option<String>,
        id: &str,
    ) -> (r: Result<StagedLspReplacement, AuthorityError>)
        ensures
            match write_place(self.base.root@, path@, parent_text(canonical_parent)) {
                Some(place) => if target_staged(staged@, place) {
                    r == Err::<StagedLspReplacement, AuthorityError>(
                        AuthorityError::LspEditConflict(
                            EditConflict::DuplicateTarget { path: *path },
                        ),
                    )
                } else {
                    &&& r is Ok
                    &&& r->Ok_0.target@ == place
                    &&& r->Ok_0.backup is None
                    &&& r->Ok_0.temp@ == joined(
                        canonical_parent->0@,
                        sibling_name(
                            last_name(joined(self.base.root@, path@))->0,
                            ".hermito-lsp-edit-"@,
                            id@,
                        ),
                    )
                },
                None => r == Err::<StagedLspReplacement, AuthorityError>(
                    AuthorityError::PathEscapesRoot(*path),
                ),
            },
    {
        match self.resolve_write(path, canonical_parent) {
            Err(e) => Err(e),
            Ok((parent, name)) => {
                let target = join(parent.as_str(), name.as_str());
                for i in 0..staged.len()
                    invariant
                        forall|k: int|
                            0 <= k < i ==> !path_equal((#[trigger] staged@[k]).target@, target@),
                        write_place(self.base.root@, path@, parent_text(canonical_parent)) == Some(
                            target@,
                        ),
                {
                    if same_path(staged[i].target.as_str(), target.as_str()) {
                        return Err(
                            AuthorityError::LspEditConflict(
                                EditConflict::DuplicateTarget { path: path.clone() },
                            ),
                        );
                    }
                }
                let temp = join(
                    parent.as_str(),
                    sibling(name.as_str(), ".hermito-lsp-edit-", id).as_str(),
                );
                Ok(StagedLspReplacement { temp, target, backup: None })
            },
        }
    }

    /// The places of all replacements of a workspace edit, in the order of its
    /// changes, given what the parent directory of each target really is. Every path
    /// is checked before any of them is staged: the first that names no place below
    /// the root, or the place of an earlier one, is refused.
    pub fn stage_all(
        &self,
        changes: &Vec<LspDocumentChange>,
        parents: &Vec<Option<String>>,
        ids: &Vec<String>,
    ) -> (r: Result<Vec<StagedLspReplacement>, AuthorityError>)
        requires
            parents@.len() == changes@.len(),
            ids@.len() == changes@.len(),
        ensures
            match staging_fault_from(self.base.root@, changes@, parents@, 0) {
                Some(e) => r == Err::<Vec<StagedLspReplacement>, AuthorityError>(e),
                None => {
                    &&& r is Ok
                    &&& r->Ok_0@.len() == changes@.len()
                    &&& forall|i: int|
                        0 <= i < changes@.len() ==> is_staged(
                            #[trigger] r->Ok_0@[i],
                            self.base.root@,
                            changes@[i].relative_path@,
                            parents@[i],
                            ids@[i]@,
                        )
                },
            },
    {
        let ghost root = self.base.root@;
        let mut staged: Vec<StagedLspReplacement> = Vec::new();
        for k in 0..changes.len()
            invariant
                parents@.len() == changes@.len(),
                ids@.len() == changes@.len(),
                root == self.base.root@,
                staged@.len() == k,
                staging_fault_from(root, changes@, parents@, 0) == staging_fault_from(
                    root,
                    changes@,
                    parents@,
                    k as int,
                ),
                forall|i: int|
                    0 <= i < k ==> is_staged(
                        #[trigger] staged@[i],
                        root,
                        changes@[i].relative_path@,
                        parents@[i],
                        ids@[i]@,
                    ),
        {
            proof {
                let place = change_place(root, changes@, parents@, k as int);
                if place is Some {
                    let p = place->0;
                    if target_staged(staged@, p) {
                        let i = choose|i: int|
                            0 <= i < staged@.len() && path_equal(
                                (#[trigger] staged@[i]).target@,
                                p,
                            );
                        assert(change_place(root, changes@, parents@, i) == Some(
                            staged@[i].target@,
                        ));
                    }
                    if change_place_taken(root, changes@, parents@, p, k as int) {
                        let i = choose|i: int|
                            0 <= i < k && is_place(
                                #[trigger] change_place(root, changes@, parents@, i),
                                p,
                            );
                        assert(path_equal(staged@[i].target@, p));
                    }
                }
            }
            let parent: Option<String> = match &parents[k] {
                Some(p) => Some(p.clone()),
                None => None,
            };
            match self.stage(&staged, &changes[k].relative_path, parent, ids[k].as_str()) {
                Err(e) => return Err(e),
                Ok(replacement) => staged.push(replacement),
            }
        }
        Ok(staged)
    }

    /// Where the originals of a workspace edit are set aside, in the order of its
    /// changes: each next to its target.
    pub fn backup_places(
        &self,
        changes: &Vec<LspDocumentChange>,
        parents: &Vec<Option<String>>,
        ids: &Vec<String>,
    ) -> (places: Vec<String>)
        requires
            parents@.len() == changes@.len(),
            ids@.len() == changes@.len(),
        ensures
            places@.len() == changes@.len(),
            forall|i: int|
                0 <= i < changes@.len() && change_place(
                    self.base.root@,
                    changes@,
                    parents@,
                    i,
                ) is Some ==> (#[trigger] places@[i])@ == joined(
                    parents@[i]->0@,
                    sibling_name(
                        last_name(joined(self.base.root@, changes@[i].relative_path@))->0,
                        ".hermito-lsp-backup-"@,
                        ids@[i]@,
                    ),
                ),
    {
        let mut places: Vec<String> = Vec::new();
        for k in 0..changes.len()
            invariant
                parents@.len() == changes@.len(),
                ids@.len() == changes@.len(),
                places@.len() == k,
                forall|i: int|
                    0 <= i < k && change_place(
                        self.base.root@,
                        changes@,
                        parents@,
                        i,
                    ) is Some ==> (#[trigger] places@[i])@ == joined(
                        parents@[i]->0@,
                        sibling_name(
                            last_name(joined(self.base.root@, changes@[i].relative_path@))->0,
                            ".hermito-lsp-backup-"@,
                            ids@[i]@,
                        ),
                    ),
        {
            let target = join(self.base.root.as_str(), changes[k].relative_path.as_str());
            let name = match file_name(target.as_str()) {
                Some(name) => name,
                None => "file".to_owned(),
            };
            let place = match &parents[k] {
                Some(parent) => backup_place(parent.as_str(), name.as_str(), ids[k].as_str()),
                None => String::new(),
            };
            places.push(place);
        }
        places
    }
}

/// Where the change at index `i` of a workspace edit goes.
pub open spec fn change_place(
    root: Seq<char>,
    changes: Seq<LspDocumentChange>,
    parents: Seq<Option<String>>,
    i: int,
) -> Option<Seq<char>> {
    write_place(root, changes[i].relative_path@, parent_text(parents[i]))
}

/// Whether there is a place, and it is the same as `place`.
pub open spec fn is_place(found: Option<Seq<char>>, place: Seq<char>) -> bool {
    found is Some && path_equal(found->0, place)
}

/// Whether a change before index `k` goes to a place.
pub open spec fn change_place_taken(
    root: Seq<char>,
    changes: Seq<LspDocumentChange>,
    parents: Seq<Option<String>>,
    place: Seq<char>,
    k: int,
) -> bool {
    exists|i: int| 0 <= i < k && is_place(#[trigger] change_place(root, changes, parents, i), place)
}

/// The first change, from index `i` on, that cannot be staged.
pub open spec fn staging_fault_from(
    root: Seq<char>,
    changes: Seq<LspDocumentChange>,
    parents: Seq<Option<String>>,
    i: int,
) -> Option<AuthorityError>
    decreases changes.len() - i,
{
    if i < 0 || i >= changes.len() {
        None
    } else {
        let path = changes[i].relative_path;
        match change_place(root, changes, parents, i) {
            None => Some(AuthorityError::PathEscapesRoot(path)),
            Some(place) => if change_place_taken(root, changes, parents, place, i) {
                Some(AuthorityError::LspEditConflict(EditConflict::DuplicateTarget { path }))
            } else {
                staging_fault_from(root, changes, parents, i + 1)
            },
        }
    }
}

/// Whether a replacement goes to the place of a change, by way of a file next to it,
/// and nothing was set aside for it yet.
pub open spec fn is_staged(
    replacement: StagedLspReplacement,
    root: Seq<char>,
    path: Seq<char>,
    parent: Option<String>,
    id: Seq<char>,
) -> bool {
    &&& write_place(root, path, parent_text(parent)) == Some(replacement.target@)
    &&& replacement.backup is None
    &&& replacement.temp@ == joined(
        parent->0@,
        sibling_name(last_name(joined(root, path))->0, ".hermito-lsp-edit-"@, id),
    )
}

/// Whether a place is the target of a replacement that is staged already.
pub open spec fn target_staged(staged: Seq<StagedLspReplacement>, place: Seq<char>) -> bool {
    exists|i: int| 0 <= i < staged.len() && path_equal((#[trigger] staged[i]).target@, place)
}

/// Where an original is set aside: next to it, in its directory.
fn backup_place(directory: &str, name: &str, id: &str) -> (place: String)
    ensures
        place@ == joined(directory@, sibling_name(name@, ".hermito-lsp-backup-"@, id@)),
{
    join(directory, sibling(name, ".hermito-lsp-backup-", id).as_str())
}

/// The digest of an executable: the hexadecimal SHA-256 of its bytes.
pub fn executable_digest(bytes: &[u8]) -> (digest: String)
    ensures
        digest@ == hex_text(sha256_of(bytes@)),
{
    hex_encode(sha256(bytes).as_slice())
}

/// The end of a language server process, which is told once.
#[derive(Clone, Copy, Debug, PartialEq, Eq, Structural)]
pub struct LspExit {
    pub emitted: bool,
}

/// What a reader of a language server gets.
#[derive(Clone, Copy, Debug, PartialEq, Eq, Structural)]
pub enum LspExitNews {
    /// The process ended, with this exit code.
    Exited(Option<i32>),
    /// The end was told before: there is nothing more to come.
    Closed,
    /// The process runs: wait for a message or for its end.
    Wait,
    /// The end of the process can no longer be seen.
    WatcherClosed,
}

impl LspExit {
    /// What a reader gets, given how the process ended if it did. The end is told
    /// once; after that the stream is closed.
    pub fn poll(&mut self, exit: Option<Option<i32>>) -> (news: LspExitNews)
        ensures
            news == if old(self).emitted {
                LspExitNews::Closed
            } else {
                match exit {
                    Some(code) => LspExitNews::Exited(code),
                    None => LspExitNews::Wait,
                }
            },
            final(self).emitted == (old(self).emitted || exit is Some),
    {
        if self.emitted {
            return LspExitNews::Closed;
        }
        match exit {
            Some(code) => {
                self.emitted = true;
                LspExitNews::Exited(code)
            },
            None => LspExitNews::Wait,
        }
    }

    /// What a reader that waits gets when the watcher of the process changed or is
    /// gone: the end of the process, or that the watcher closed.
    pub fn watched(&mut self, gone: bool, exit: Option<Option<i32>>) -> (news: LspExitNews)
        requires
            !old(self).emitted,
        ensures
            news == if !gone && exit is Some {
                LspExitNews::Exited(exit->Some_0)
            } else {
                LspExitNews::WatcherClosed
            },
            final(self).emitted == (!gone && exit is Some),
    {
        if gone {
            return LspExitNews::WatcherClosed;
        }
        match exit {
            Some(code) => {
                self.emitted = true;
                LspExitNews::Exited(code)
            },
            None => LspExitNews::WatcherClosed,
        }
    }
}

impl LspExitNews {
    /// What the error says that a reader gets in place of a message, if it gets one.
    pub fn error_text(self) -> (out: Option<&'static str>)
        ensures
            match self {
                LspExitNews::Closed => out is Some && (out->Some_0)@ == "local lsp stream closed"@,
                LspExitNews::WatcherClosed => out is Some && (out->Some_0)@
                    == "local lsp exit watcher closed"@,
                _ => out is None,
            },
    {
        match self {
            LspExitNews::Closed => Some("local lsp stream closed"),
            LspExitNews::WatcherClosed => Some("local lsp exit watcher closed"),
            _ => None,
        }
    }
}

/// A file may be read or written only in the current epochs and with a document
/// revision, and a program may be run only with trust and in the current epochs.
pub proof fn local_requests_are_checked<T>(a: AuthorityBase, request: AuthorityRequest<T>)
    ensures
        file_fault(a, request) is None <==> request.workspace_epoch == a.workspace_epoch
            && request.environment_epoch == a.environment_epoch && request.document_revision is Some,
        run_fault(a, request) is None <==> a.trust == AuthorityTrust::ExecutionGranted
            && request.workspace_epoch == a.workspace_epoch && request.environment_epoch
            == a.environment_epoch,
        a.trust != AuthorityTrust::ExecutionGranted ==> run_fault(a, request) == Some(
            AuthorityError::InspectOnly,
        ),
{
}

/// A file that is written stays below the root, in the directory that its parent really
/// is and under the name that its path ends with; a path that leaves the root, or a
/// parent outside of it, has no place.
pub proof fn writes_stay_below_the_root(
    root: Seq<char>,
    path: Seq<char>,
    parent: Seq<char>,
    place: Seq<char>,
)
    requires
        parent.len() > 0,
        write_place(root, path, Some(parent)) == Some(place),
        is_name(last_name(joined(root, path))->0),
    ensures
        path_below(place, root),
        path_below(place, parent),
        last_name(place) == last_name(joined(root, path)),
        only_names(path_parts(path)),
        write_place(root, path, None) is None,
{
    let name = last_name(joined(root, path))->0;
    names_are_their_own_part(name);
    joined_paths_lie_below(parent, name);
    let r = path_parts(root).len() as int;
    assert(path_parts(place).take(r) =~= path_parts(parent).take(r));
}

/// An edit is staged only if each of its files has a place below the root, and no two of
/// them the same.
pub proof fn staged_files_have_their_own_places(
    root: Seq<char>,
    changes: Seq<LspDocumentChange>,
    parents: Seq<Option<String>>,
    k: int,
    j: int,
)
    requires
        0 <= k <= j < changes.len(),
        staging_fault_from(root, changes, parents, k) is None,
    ensures
        change_place(root, changes, parents, j) is Some,
        forall|i: int|
            0 <= i < j ==> !(#[trigger] change_place(root, changes, parents, i) is Some
                && path_equal(
                change_place(root, changes, parents, i)->0,
                change_place(root, changes, parents, j)->0,
            )),
    decreases j - k,
{
    if k < j {
        staged_files_have_their_own_places(root, changes, parents, k + 1, j);
    } else {
        let place = change_place(root, changes, parents, j)->0;
        assert forall|i: int| 0 <= i < j implies !(#[trigger] change_place(
            root,
            changes,
            parents,
            i,
        ) is Some && path_equal(change_place(root, changes, parents, i)->0, place)) by {
            if change_place(root, changes, parents, i) is Some && path_equal(
                change_place(root, changes, parents, i)->0,
                place,
            ) {
                assert(is_place(change_place(root, changes, parents, i), place));
                assert(change_place_taken(root, changes, parents, place, j));
            }
        }
    }
}

/// A number is cut down to a limit only where it is greater.
pub proof fn limits_cut_only_what_is_greater(n: usize, limit: usize)
    ensures
        at_most(n, limit) <= n,
        at_most(n, limit) <= limit,
        at_most(n, limit) == n || n > limit && at_most(n, limit) == limit,
{
}

} // verus!
