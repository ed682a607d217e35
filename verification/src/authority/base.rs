//! What local and remote authorities have in common: trust, epochs, grants and
//! the checks on requests.
use vstd::prelude::*;

use super::types::{
    edit_refusal, AuthorityKind, AuthorityRequest, AuthorityTrust, LspDocumentChange,
    LspDocumentRevisionSnapshot, LspWorkspaceEditPreconditions, LspWorkspaceEditRequest,
};
use super::{AuthorityError, ProtocolFault};
use crate::config::{clone_strings, EffectiveLspConfig};
use crate::path::{is_plain_relative, join, joined, only_names, path_parts};
use crate::protocol::lsp::LspContext;
use crate::protocol::request::{
    has_nul, holds_char, CommandSpec, EnvironmentEpoch, ExecutionContextV1, WorkspaceEpoch,
};
use crate::text::str_eq;
use crate::words::{
    begins_with, eq_ignoring_case, join3, same_ignoring_case, signed_decimal, signed_text, texts, trim, trimmed,
    truth_text, truth_word,
};

verus! {

/// The longest output of a version probe, in bytes.
pub const LSP_PROBE_OUTPUT_LIMIT: usize = 16384;

/// How long a version probe may take, in milliseconds.
pub const LSP_PROBE_TIMEOUT_MS: u64 = 5000;

/// The state of an authority.
#[derive(Debug)]
pub struct AuthorityBase {
    pub kind: AuthorityKind,
    pub label: String,
    pub host_id: String,
    pub root: String,
    pub trust: AuthorityTrust,
    pub workspace_epoch: WorkspaceEpoch,
    pub environment_epoch: EnvironmentEpoch,
    pub next_id: u64,
    /// The digests of the server configurations that may be run. Trust in terminals
    /// does not count here.
    pub lsp_grants: Vec<String>,
}

/// Whether a digest is among the granted ones.
pub open spec fn digest_granted(grants: Seq<String>, digest: Seq<char>) -> bool {
    exists|i: int| 0 <= i < grants.len() && (#[trigger] grants[i])@ == digest
}

/// Whether a request was made in the epochs of an authority.
pub open spec fn epoch_fault<T>(a: AuthorityBase, request: AuthorityRequest<T>) -> Option<
    AuthorityError,
> {
    if request.workspace_epoch != a.workspace_epoch || request.environment_epoch
        != a.environment_epoch {
        Some(
            AuthorityError::StaleEpoch {
                expected_workspace: a.workspace_epoch,
                actual_workspace: request.workspace_epoch,
                expected_environment: a.environment_epoch,
                actual_environment: request.environment_epoch,
            },
        )
    } else {
        None
    }
}

/// Whether a language server context is one that the authority can serve.
pub open spec fn context_served(a: AuthorityBase, context: LspContext) -> bool {
    context.execution_context@ is AuthorityRoot && context.authority_identity.0@ == a.host_id@
}

/// Why a language server may not be started, or its edit not be made: another
/// context, a configuration that is not granted, or other epochs.
pub open spec fn lsp_fault(a: AuthorityBase, context: LspContext, digest: Seq<char>) -> Option<
    AuthorityError,
> {
    if !context_served(a, context) {
        Some(AuthorityError::UnsupportedExecutionContext)
    } else if !digest_granted(a.lsp_grants@, digest) {
        Some(AuthorityError::InspectOnly)
    } else if context.workspace_epoch != a.workspace_epoch || context.environment_epoch
        != a.environment_epoch {
        Some(
            AuthorityError::StaleEpoch {
                expected_workspace: a.workspace_epoch,
                actual_workspace: context.workspace_epoch,
                expected_environment: a.environment_epoch,
                actual_environment: context.environment_epoch,
            },
        )
    } else {
        None
    }
}

/// Whether a check found the fault that it looks for.
pub open spec fn found(r: Result<(), AuthorityError>, fault: Option<AuthorityError>) -> bool {
    r == match fault {
        None => Ok::<(), AuthorityError>(()),
        Some(e) => Err::<(), AuthorityError>(e),
    }
}

impl AuthorityBase {
    pub fn grant_execution(&mut self)
        ensures
            *final(self) == (AuthorityBase {
                trust: AuthorityTrust::ExecutionGranted,
                ..*old(self)
            }),
    {
        self.trust = AuthorityTrust::ExecutionGranted;
    }

    pub fn revoke_execution(&mut self)
        ensures
            *final(self) == (AuthorityBase { trust: AuthorityTrust::InspectOnly, ..*old(self) }),
    {
        self.trust = AuthorityTrust::InspectOnly;
    }

    /// Whether a server configuration may be run: its exact digest was granted.
    pub fn is_lsp_execution_granted(&self, config_digest: &str) -> (yes: bool)
        ensures
            yes == digest_granted(self.lsp_grants@, config_digest@),
    {
        for i in 0..self.lsp_grants.len()
            invariant
                forall|k: int| 0 <= k < i ==> (#[trigger] self.lsp_grants@[k])@ != config_digest@,
        {
            if str_eq(self.lsp_grants[i].as_str(), config_digest) {
                return true;
            }
        }
        false
    }

    /// Allows a server configuration. What is granted otherwise stays.
    pub fn grant_lsp_execution(&mut self, config_digest: &str)
        ensures
            *final(self) == (AuthorityBase { lsp_grants: final(self).lsp_grants, ..*old(self) }),
            forall|d: Seq<char>| #[trigger]
                digest_granted(final(self).lsp_grants@, d) == (digest_granted(
                    old(self).lsp_grants@,
                    d,
                ) || d == config_digest@),
    {
        let ghost before = self.lsp_grants@;
        if !self.is_lsp_execution_granted(config_digest) {
            self.lsp_grants.push(config_digest.to_owned());
            proof {
                let after = self.lsp_grants@;
                assert forall|d: Seq<char>| #[trigger] digest_granted(after, d) == (digest_granted(
                    before,
                    d,
                ) || d == config_digest@) by {
                    assert(after[before.len() as int]@ == config_digest@);
                    if digest_granted(before, d) {
                        let i = choose|i: int|
                            0 <= i < before.len() && (#[trigger] before[i])@ == d;
                        assert(after[i]@ == d);
                    }
                    if digest_granted(after, d) {
                        let i = choose|i: int| 0 <= i < after.len() && (#[trigger] after[i])@ == d;
                        if i < before.len() {
                            assert(before[i]@ == d);
                        }
                    }
                }
            }
        }
    }

    /// Takes back a server configuration. What is granted otherwise stays.
    pub fn revoke_lsp_execution(&mut self, config_digest: &str)
        ensures
            *final(self) == (AuthorityBase { lsp_grants: final(self).lsp_grants, ..*old(self) }),
            forall|d: Seq<char>| #[trigger]
                digest_granted(final(self).lsp_grants@, d) == (digest_granted(
                    old(self).lsp_grants@,
                    d,
                ) && d != config_digest@),
    {
        let ghost before = self.lsp_grants@;
        let mut kept: Vec<String> = Vec::new();
        for i in 0..self.lsp_grants.len()
            invariant
                self.lsp_grants@ == before,
                forall|d: Seq<char>| #[trigger]
                    digest_granted(kept@, d) == (digest_granted(before.take(i as int), d) && d
                        != config_digest@),
        {
            let ghost earlier = kept@;
            let ghost head = before.take(i as int);
            let ghost next = before.take(i + 1);
            let keep = !str_eq(self.lsp_grants[i].as_str(), config_digest);
            if keep {
                kept.push(self.lsp_grants[i].clone());
            }
            proof {
                let x = before[i as int]@;
                assert forall|d: Seq<char>| #[trigger] digest_granted(kept@, d) == (digest_granted(
                    next,
                    d,
                ) && d != config_digest@) by {
                    assert(digest_granted(earlier, d) == (digest_granted(head, d) && d
                        != config_digest@));
                    lemma_granted_push(head, before[i as int], d);
                    assert(next =~= head.push(before[i as int]));
                    if keep {
                        lemma_granted_push(earlier, before[i as int], d);
                        assert(kept@ =~= earlier.push(before[i as int]));
                    }
                }
            }
        }
        proof {
            assert(before.take(before.len() as int) =~= before);
        }
        self.lsp_grants = kept;
    }

    /// Checks that programs may be run.
    pub fn require_execution(&self) -> (r: Result<(), AuthorityError>)
        ensures
            r == if self.trust == AuthorityTrust::ExecutionGranted {
                Ok::<(), AuthorityError>(())
            } else {
                Err::<(), AuthorityError>(AuthorityError::InspectOnly)
            },
    {
        if self.trust == AuthorityTrust::ExecutionGranted {
            Ok(())
        } else {
            Err(AuthorityError::InspectOnly)
        }
    }

    /// Checks that a request was made in the current epochs.
    pub fn validate_epochs<T>(&self, request: &AuthorityRequest<T>) -> (r: Result<
        (),
        AuthorityError,
    >)
        ensures
            found(r, epoch_fault(*self, *request)),
    {
        if request.workspace_epoch != self.workspace_epoch || request.environment_epoch
            != self.environment_epoch {
            return Err(
                AuthorityError::StaleEpoch {
                    expected_workspace: self.workspace_epoch,
                    actual_workspace: request.workspace_epoch,
                    expected_environment: self.environment_epoch,
                    actual_environment: request.environment_epoch,
                },
            );
        }
        Ok(())
    }

    /// Checks that a language server context is one that the authority can serve.
    pub fn validate_lsp_context(&self, context: &LspContext) -> (r: Result<(), AuthorityError>)
        ensures
            found(
                r,
                if context_served(*self, *context) {
                    None
                } else {
                    Some(AuthorityError::UnsupportedExecutionContext)
                },
            ),
    {
        let at_root = match context.execution_context {
            ExecutionContextV1::AuthorityRoot => true,
            _ => false,
        };
        if !at_root || context.authority_identity.0 != self.host_id {
            return Err(AuthorityError::UnsupportedExecutionContext);
        }
        Ok(())
    }

    /// Checks that a language server may be started for a context, or its edit be
    /// made: the context, then the grant of the exact configuration, then the epochs.
    pub fn start_lsp(&self, context: &LspContext, digest: &str) -> (r: Result<(), AuthorityError>)
        ensures
            found(r, lsp_fault(*self, *context, digest@)),
    {
        match self.validate_lsp_context(context) {
            Err(e) => return Err(e),
            Ok(()) => {},
        }
        if !self.is_lsp_execution_granted(digest) {
            return Err(AuthorityError::InspectOnly);
        }
        if context.workspace_epoch != self.workspace_epoch || context.environment_epoch
            != self.environment_epoch {
            return Err(
                AuthorityError::StaleEpoch {
                    expected_workspace: self.workspace_epoch,
                    actual_workspace: context.workspace_epoch,
                    expected_environment: self.environment_epoch,
                    actual_environment: context.environment_epoch,
                },
            );
        }
        Ok(())
    }

    /// The place below the root that a relative path names. A path that is absolute
    /// or leaves the root is refused.
    pub fn resolve_relative(&self, path: &String) -> (r: Result<String, AuthorityError>)
        ensures
            match r {
                Ok(p) => only_names(path_parts(path@)) && p@ == joined(self.root@, path@),
                Err(e) => !only_names(path_parts(path@)) && e == AuthorityError::PathEscapesRoot(
                    *path,
                ),
            },
    {
        if !is_plain_relative(path.as_str()) {
            return Err(AuthorityError::PathEscapesRoot(path.clone()));
        }
        Ok(join(self.root.as_str(), path.as_str()))
    }

    /// The place of an executable: an absolute path as it is, another one below the
    /// root.
    pub fn resolve_lsp_executable(&self, executable: &str) -> (p: String)
        ensures
            p@ == joined(self.root@, executable@),
    {
        join(self.root.as_str(), executable)
    }

    /// The next session number.
    pub fn take_id(&mut self) -> (id: u64)
        ensures
            id == old(self).next_id,
            *final(self) == (AuthorityBase {
                next_id: if old(self).next_id < u64::MAX {
                    (old(self).next_id + 1) as u64
                } else {
                    0
                },
                ..*old(self)
            }),
    {
        let id: u64 = self.next_id;
        self.next_id = self.next_id.wrapping_add(1);
        id
    }
}

proof fn lemma_granted_push(grants: Seq<String>, last: String, d: Seq<char>)
    ensures
        digest_granted(grants.push(last), d) == (digest_granted(grants, d) || last@ == d),
{
    let all = grants.push(last);
    if digest_granted(grants, d) {
        let i = choose|i: int| 0 <= i < grants.len() && (#[trigger] grants[i])@ == d;
        assert(all[i]@ == d);
    }
    assert(all[grants.len() as int]@ == last@);
    if digest_granted(all, d) {
        let i = choose|i: int| 0 <= i < all.len() && (#[trigger] all[i])@ == d;
        if i < grants.len() {
            assert(grants[i]@ == d);
        }
    }
}

/// What a probe left behind: its exit code, whether output was cut off, and the
/// output as text.
#[derive(Debug)]
pub struct ProbeOutput {
    pub exit_code: Option<i32>,
    pub stdout_truncated: bool,
    pub stderr_truncated: bool,
    pub stdout: String,
    pub stderr: String,
}

/// Whether a probe ended well and nothing was cut off.
pub open spec fn probe_usable(p: ProbeOutput) -> bool {
    p.exit_code == Some(0i32) && !p.stdout_truncated && !p.stderr_truncated
}

/// The version that a usable probe tells: what it wrote, without the white space
/// around it; what it wrote as errors if that is empty.
pub open spec fn probed_version(p: ProbeOutput) -> Seq<char> {
    if trimmed(p.stdout@).len() == 0 {
        trimmed(p.stderr@)
    } else {
        trimmed(p.stdout@)
    }
}

pub fn is_usable(p: &ProbeOutput) -> (yes: bool)
    ensures
        yes == probe_usable(*p),
{
    let zero = match p.exit_code {
        Some(code) => code == 0,
        None => false,
    };
    zero && !p.stdout_truncated && !p.stderr_truncated
}

/// The text for an exit code.
pub open spec fn exit_words(code: Option<i32>) -> Seq<char> {
    match code {
        Some(n) => "Some("@ + signed_decimal(n as int) + ")"@,
        None => "None"@,
    }
}

/// The text that stands for the version of a probe that failed.
pub open spec fn probe_failure(p: ProbeOutput) -> Seq<char> {
    "probe failed (exit "@ + exit_words(p.exit_code) + ", stdout truncated "@ + truth_word(
        p.stdout_truncated,
    ) + ", stderr truncated "@ + truth_word(p.stderr_truncated) + ")"@
}

fn probe_failure_text(p: &ProbeOutput) -> (text: String)
    ensures
        text@ == probe_failure(*p),
{
    let mut text = "probe failed (exit ".to_owned();
    let exit: String = match p.exit_code {
        Some(n) => join3("Some(", signed_text(n).as_str(), ")"),
        None => "None".to_owned(),
    };
    text.push_str(exit.as_str());
    text.push_str(", stdout truncated ");
    text.push_str(truth_text(p.stdout_truncated));
    text.push_str(", stderr truncated ");
    text.push_str(truth_text(p.stderr_truncated));
    text.push_str(")");
    text
}

/// The version that a probe stands for.
pub open spec fn version_told(p: ProbeOutput) -> Seq<char> {
    if probe_usable(p) {
        probed_version(p)
    } else {
        probe_failure(p)
    }
}

/// Whether an error names a version or digest that was expected and another one
/// that was found.
pub open spec fn is_mismatch(e: AuthorityError, expected: Seq<char>, actual: Seq<char>) -> bool {
    e matches AuthorityError::Protocol(ProtocolFault::VersionMismatch { expected: x, actual: y }) && x@
        == expected && y@ == actual
}

/// Checks the version that a probe tells.
pub fn check_version(p: &ProbeOutput, expected: &String) -> (r: Result<(), AuthorityError>)
    ensures
        r is Ok <==> version_told(*p) == expected@,
        r is Err ==> is_mismatch(r->Err_0, expected@, version_told(*p)),
{
    let actual: String = if is_usable(p) {
        let out = trim(p.stdout.as_str());
        if out.as_str().is_empty() {
            trim(p.stderr.as_str())
        } else {
            out
        }
    } else {
        probe_failure_text(p)
    };
    if actual != *expected {
        return Err(AuthorityError::Protocol(ProtocolFault::VersionMismatch { expected: expected.clone(), actual }));
    }
    Ok(())
}

/// Checks the digest of an executable, whatever the case of its letters. An empty
/// one never fits.
pub fn check_digest(actual: String, expected: &String) -> (r: Result<(), AuthorityError>)
    ensures
        r is Ok <==> actual@.len() > 0 && same_ignoring_case(actual@, expected@),
        r is Err ==> is_mismatch(r->Err_0, expected@, actual@),
{
    if actual.as_str().is_empty() || !eq_ignoring_case(actual.as_str(), expected.as_str()) {
        return Err(AuthorityError::Protocol(ProtocolFault::VersionMismatch { expected: expected.clone(), actual }));
    }
    Ok(())
}

/// The arguments of a version probe: those of the configuration, else one.
pub open spec fn probe_args(config: EffectiveLspConfig) -> Seq<Seq<char>> {
    match config.version_probe_args {
        Some(args) => texts(args@),
        None => seq!["--version"@],
    }
}

/// Whether a command runs a program with arguments at the root, with a language
/// for its messages as its whole environment.
pub open spec fn is_probe(
    command: CommandSpec,
    program: Seq<char>,
    args: Seq<Seq<char>>,
    root: Seq<char>,
    lang: Seq<char>,
) -> bool {
    &&& command.program@ == program
    &&& texts(command.args@) == args
    &&& command.cwd@ == root
    &&& command.env@.len() == if has_nul(lang) {
        0int
    } else {
        1int
    }
    &&& !has_nul(lang) ==> command.env@[0].0@ == "LANG"@ && command.env@[0].1@ == lang
}

/// The environment that tells a program the language of its messages.
pub fn lang_environment(lang: &str) -> (env: Vec<(String, String)>)
    ensures
        env@.len() == if has_nul(lang@) {
            0int
        } else {
            1int
        },
        !has_nul(lang@) ==> env@[0].0@ == "LANG"@ && env@[0].1@ == lang@,
{
    let mut env: Vec<(String, String)> = Vec::new();
    if !holds_char(lang, '\0') {
        env.push(("LANG".to_owned(), lang.to_owned()));
    }
    env
}

impl AuthorityBase {
    /// The command that asks an executable for its version.
    pub fn version_probe(&self, config: &EffectiveLspConfig, executable: &str, lang: &str) -> (
    command: CommandSpec)
        ensures
            is_probe(command, executable@, probe_args(*config), self.root@, lang@),
    {
        let args: Vec<String> = match &config.version_probe_args {
            Some(given) => clone_strings(given),
            None => {
                let mut args: Vec<String> = Vec::new();
                args.push("--version".to_owned());
                args
            },
        };
        assert(texts(args@) =~= probe_args(*config));
        CommandSpec {
            program: executable.to_owned(),
            args,
            cwd: self.root.clone(),
            env: lang_environment(lang),
        }
    }

    /// The command that runs a language server: the executable with the configured
    /// arguments at the root, with a language for its messages and a terminal that can
    /// do nothing as its whole environment.
    pub fn server_command(&self, config: &EffectiveLspConfig, executable: &str, lang: &str) -> (
    command: CommandSpec)
        ensures
            command.program@ == executable@,
            command.args@ == config.args@,
            command.cwd == self.root,
            command.env@.len() == if has_nul(lang@) {
                1int
            } else {
                2int
            },
            !has_nul(lang@) ==> command.env@[0].0@ == "LANG"@ && command.env@[0].1@ == lang@,
            command.env@.last().0@ == "TERM"@,
            command.env@.last().1@ == "dumb"@,
    {
        let mut env = lang_environment(lang);
        env.push(("TERM".to_owned(), "dumb".to_owned()));
        CommandSpec {
            program: executable.to_owned(),
            args: clone_strings(&config.args),
            cwd: self.root.clone(),
            env,
        }
    }

    /// Checks who asks for a workspace edit and what it was made for: the epochs of
    /// the request, then the context, the grant and the epochs of the server, then
    /// the state of every buffer.
    pub fn check_workspace_edit(
        &self,
        request: &AuthorityRequest<LspWorkspaceEditRequest>,
        preconditions: &LspWorkspaceEditPreconditions,
    ) -> (r: Result<(), AuthorityError>)
        ensures
            found(r, edit_evidence_fault(*self, *request, preconditions.snapshots@)),
    {
        match self.validate_epochs(request) {
            Err(e) => return Err(e),
            Ok(()) => {},
        }
        match self.start_lsp(&request.payload.context, request.payload.config_digest.as_str()) {
            Err(e) => return Err(e),
            Ok(()) => {},
        }
        preconditions.verify(
            &request.payload,
            self.host_id.as_str(),
            self.workspace_epoch,
            self.environment_epoch,
        )
    }

    /// Checks that a workspace edit may be made: what [`Self::check_workspace_edit`]
    /// checks, then that every path of the batch stays below the root.
    pub fn authorize_workspace_edit(
        &self,
        request: &AuthorityRequest<LspWorkspaceEditRequest>,
        preconditions: &LspWorkspaceEditPreconditions,
    ) -> (r: Result<(), AuthorityError>)
        ensures
            found(r, workspace_edit_fault(*self, *request, preconditions.snapshots@)),
            r is Ok ==> forall|i: int|
                0 <= i < request.payload.changes@.len() ==> only_names(
                    path_parts((#[trigger] request.payload.changes@[i]).relative_path@),
                ),
    {
        match self.check_workspace_edit(request, preconditions) {
            Err(e) => return Err(e),
            Ok(()) => {},
        }
        let changes = &request.payload.changes;
        for k in 0..changes.len()
            invariant
                *changes == request.payload.changes,
                edit_evidence_fault(*self, *request, preconditions.snapshots@) is None,
                path_fault_from(changes@, 0) == path_fault_from(changes@, k as int),
                forall|i: int|
                    0 <= i < k ==> only_names(
                        path_parts((#[trigger] changes@[i]).relative_path@),
                    ),
        {
            if !is_plain_relative(changes[k].relative_path.as_str()) {
                return Err(AuthorityError::PathEscapesRoot(changes[k].relative_path.clone()));
            }
        }
        Ok(())
    }
}

/// Why a workspace edit may not be made, whatever its paths are.
pub open spec fn edit_evidence_fault(
    a: AuthorityBase,
    request: AuthorityRequest<LspWorkspaceEditRequest>,
    snapshots: Seq<LspDocumentRevisionSnapshot>,
) -> Option<AuthorityError> {
    if epoch_fault(a, request) is Some {
        epoch_fault(a, request)
    } else if lsp_fault(a, request.payload.context, request.payload.config_digest@) is Some {
        lsp_fault(a, request.payload.context, request.payload.config_digest@)
    } else {
        edit_refusal(
            snapshots,
            request.payload,
            a.host_id@,
            a.workspace_epoch,
            a.environment_epoch,
        )
    }
}

/// The first path, from index `i` on, that is absolute or leaves the root.
pub open spec fn path_fault_from(changes: Seq<LspDocumentChange>, i: int) -> Option<AuthorityError>
    decreases changes.len() - i,
{
    if i < 0 || i >= changes.len() {
        None
    } else if !only_names(path_parts(changes[i].relative_path@)) {
        Some(AuthorityError::PathEscapesRoot(changes[i].relative_path))
    } else {
        path_fault_from(changes, i + 1)
    }
}

/// Why a workspace edit may not be made.
pub open spec fn workspace_edit_fault(
    a: AuthorityBase,
    request: AuthorityRequest<LspWorkspaceEditRequest>,
    snapshots: Seq<LspDocumentRevisionSnapshot>,
) -> Option<AuthorityError> {
    if edit_evidence_fault(a, request, snapshots) is Some {
        edit_evidence_fault(a, request, snapshots)
    } else {
        path_fault_from(request.payload.changes@, 0)
    }
}

/// What may be granted: one configuration does not allow another, and trust in
/// terminals allows none.
pub proof fn terminal_trust_grants_no_server(a: AuthorityBase, digest: Seq<char>)
    requires
        !digest_granted(a.lsp_grants@, digest),
    ensures
        forall|context: LspContext| #[trigger]
            lsp_fault(
                (AuthorityBase { trust: AuthorityTrust::ExecutionGranted, ..a }),
                context,
                digest,
            ) is Some,
{
}

/// A language server may be started if and only if its context is that of this authority
/// at its root, the digest of its configuration was granted, and both epochs are the
/// current ones.
pub proof fn servers_start_only_when_granted(
    a: AuthorityBase,
    context: LspContext,
    digest: Seq<char>,
)
    ensures
        lsp_fault(a, context, digest) is None <==> context.execution_context@ is AuthorityRoot
            && context.authority_identity.0@ == a.host_id@ && (exists|i: int|
            0 <= i < a.lsp_grants@.len() && (#[trigger] a.lsp_grants@[i])@ == digest)
            && context.workspace_epoch == a.workspace_epoch && context.environment_epoch
            == a.environment_epoch,
{
}

/// A request counts if and only if it was made in both epochs that are current.
pub proof fn requests_count_in_their_epochs<T>(a: AuthorityBase, request: AuthorityRequest<T>)
    ensures
        epoch_fault(a, request) is None <==> request.workspace_epoch.0 == a.workspace_epoch.0
            && request.environment_epoch.0 == a.environment_epoch.0,
{
}

/// The version that a probe tells is what it wrote, without the white space around it,
/// and what it wrote as errors only where it wrote nothing else; a probe that failed or
/// was cut off tells none of it.
pub proof fn probes_tell_what_they_wrote(p: ProbeOutput)
    ensures
        p.exit_code == Some(0i32) && !p.stdout_truncated && !p.stderr_truncated && trimmed(
            p.stdout@,
        ).len() > 0 ==> version_told(p) == trimmed(p.stdout@),
        p.exit_code == Some(0i32) && !p.stdout_truncated && !p.stderr_truncated && trimmed(
            p.stdout@,
        ).len() == 0 ==> version_told(p) == trimmed(p.stderr@),
        p.exit_code != Some(0i32) || p.stdout_truncated || p.stderr_truncated ==> version_told(p)
            == probe_failure(p) && begins_with(version_told(p), "probe failed (exit "@),
{
    let head = "probe failed (exit "@;
    assert(probe_failure(p).take(head.len() as int) =~= head);
}

/// A workspace edit may be made only if it was asked for in the current epochs by a
/// server of this authority whose configuration was granted, and if every path of it
/// stays below the root.
pub proof fn edits_are_authorized(
    a: AuthorityBase,
    request: AuthorityRequest<LspWorkspaceEditRequest>,
    snapshots: Seq<LspDocumentRevisionSnapshot>,
    i: int,
)
    requires
        workspace_edit_fault(a, request, snapshots) is None,
        0 <= i < request.payload.changes@.len(),
    ensures
        request.workspace_epoch == a.workspace_epoch,
        request.environment_epoch == a.environment_epoch,
        digest_granted(a.lsp_grants@, request.payload.config_digest@),
        request.payload.context.authority_identity.0@ == a.host_id@,
        only_names(path_parts(request.payload.changes@[i].relative_path@)),
        edit_refusal(
            snapshots,
            request.payload,
            a.host_id@,
            a.workspace_epoch,
            a.environment_epoch,
        ) is None,
{
    lemma_paths_below(request.payload.changes@, 0, i);
}

proof fn lemma_paths_below(changes: Seq<LspDocumentChange>, i: int, j: int)
    requires
        0 <= i <= j < changes.len(),
        path_fault_from(changes, i) is None,
    ensures
        only_names(path_parts(changes[j].relative_path@)),
    decreases j - i,
{
    if i < j {
        lemma_paths_below(changes, i + 1, j);
    }
}

/// A probe runs the program with its arguments in the root, and is told the language and
/// nothing else of the environment.
pub proof fn probes_run_in_the_root(
    command: CommandSpec,
    program: Seq<char>,
    args: Seq<Seq<char>>,
    root: Seq<char>,
    lang: Seq<char>,
    i: int,
)
    requires
        is_probe(command, program, args, root, lang),
        0 <= i < args.len(),
    ensures
        command.program@ == program,
        command.cwd@ == root,
        command.args@.len() == args.len(),
        command.args@[i]@ == args[i],
        forall|k: int|
            0 <= k < command.env@.len() ==> (#[trigger] command.env@[k]).0@ == "LANG"@
                && command.env@[k].1@ == lang,
        !has_nul(lang) ==> command.env@.len() == 1,
{
    assert(texts(command.args@).len() == command.args@.len());
    assert(texts(command.args@)[i] == command.args@[i]@);
}

} // verus!
