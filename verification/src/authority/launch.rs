//! How a language server is launched: nothing is looked up, asked or run before the
//! exact configuration is known to be granted, and the executable is checked before
//! it is run.
use vstd::prelude::*;

use super::base::{
    check_digest, check_version, is_mismatch, is_probe, lsp_fault, probe_args, version_told,
    AuthorityBase, ProbeOutput, LSP_PROBE_OUTPUT_LIMIT, LSP_PROBE_TIMEOUT_MS,
};
use super::types::{AuthorityRequest, ExecRequest};
use super::AuthorityError;
use crate::config::EffectiveLspConfig;
use crate::encoding::is_random_uuid;
use crate::path::joined;
use crate::protocol::lsp::LspContext;
use crate::protocol::request::CommandSpec;
use crate::words::{same_ignoring_case, texts};

verus! {

/// How far a launch has come.
#[derive(Clone, Copy, Debug, PartialEq, Eq, Structural)]
pub enum LaunchPhase {
    /// The place of the executable is resolved.
    Resolving,
    /// Its digest is found.
    Hashing,
    /// It is asked for its version.
    Probing,
    /// It may be run.
    Ready,
    Refused,
}

/// The launch of a language server that is granted.
#[derive(Debug, PartialEq, Eq)]
pub struct LaunchTask {
    pub config: EffectiveLspConfig,
    /// The language that the executable is asked for its version in.
    pub lang: String,
    pub executable: String,
    pub phase: LaunchPhase,
}

/// What became of the last step.
#[derive(Debug)]
pub enum LaunchNews {
    /// Where the executable really is.
    Resolved(String),
    Digest(String),
    Probe(ProbeOutput),
    Failed(AuthorityError),
}

/// What is to be done next.
#[derive(Debug)]
#[allow(inconsistent_fields)]
pub enum LaunchStep {
    /// Find out where the executable really is.
    Resolve { candidate: String },
    /// Find the digest of the executable.
    Digest { executable: String },
    /// Ask the executable for its version.
    Version(CommandSpec),
    /// Run it.
    Run { executable: String },
    Refuse(AuthorityError),
    Wait,
}

/// Whether a launch goes on to what comes after the digest: the version if one is
/// expected, else the server is run.
pub open spec fn after_digest(
    base: AuthorityBase,
    before: LaunchTask,
    after: LaunchTask,
    step: LaunchStep,
) -> bool {
    if before.config.expected_version is Some {
        &&& after == LaunchTask { phase: LaunchPhase::Probing, ..before }
        &&& step matches LaunchStep::Version(command) && is_probe(
            command,
            before.executable@,
            probe_args(before.config),
            base.root@,
            before.lang@,
        )
    } else {
        &&& after == LaunchTask { phase: LaunchPhase::Ready, ..before }
        &&& step == LaunchStep::Run { executable: before.executable }
    }
}

/// How a launch goes on: the executable is resolved, has the expected digest if one is
/// expected, and tells the expected version if one is expected. Anything else refuses
/// it.
pub open spec fn launch_stepped(
    base: AuthorityBase,
    before: LaunchTask,
    news: LaunchNews,
    after: LaunchTask,
    step: LaunchStep,
) -> bool {
    let refused = LaunchTask { phase: LaunchPhase::Refused, ..before };
    match (before.phase, news) {
        (LaunchPhase::Resolving, LaunchNews::Resolved(executable)) => {
            let resolved = LaunchTask { executable, ..before };
            if before.config.expected_digest is Some {
                &&& after == LaunchTask { phase: LaunchPhase::Hashing, ..resolved }
                &&& step == LaunchStep::Digest { executable }
            } else {
                after_digest(base, resolved, after, step)
            }
        },
        (LaunchPhase::Hashing, LaunchNews::Digest(actual)) => {
            let expected = before.config.expected_digest->0@;
            if actual@.len() > 0 && same_ignoring_case(actual@, expected) {
                after_digest(base, before, after, step)
            } else {
                after == refused && (step matches LaunchStep::Refuse(e) && is_mismatch(
                    e,
                    expected,
                    actual@,
                ))
            }
        },
        (LaunchPhase::Probing, LaunchNews::Probe(probe)) => {
            let expected = before.config.expected_version->0@;
            if version_told(probe) == expected {
                &&& after == LaunchTask { phase: LaunchPhase::Ready, ..before }
                &&& step == LaunchStep::Run { executable: before.executable }
            } else {
                after == refused && (step matches LaunchStep::Refuse(e) && is_mismatch(
                    e,
                    expected,
                    version_told(probe),
                ))
            }
        },
        (LaunchPhase::Ready, _) => after == before && step == LaunchStep::Wait,
        (LaunchPhase::Refused, _) => after == before && step == LaunchStep::Wait,
        (_, LaunchNews::Failed(e)) => after == refused && step == LaunchStep::Refuse(e),
        _ => after == before && step == LaunchStep::Wait,
    }
}

impl LaunchTask {
    /// Whether what is awaited is expected by the configuration.
    pub open spec fn wf(&self) -> bool {
        &&& self.phase == LaunchPhase::Hashing ==> self.config.expected_digest is Some
        &&& self.phase == LaunchPhase::Probing ==> self.config.expected_version is Some
    }
}

impl AuthorityBase {
    /// Begins to launch a language server. The context, the grant of the exact
    /// configuration and the epochs are checked before anything is looked up, asked or
    /// run.
    pub fn begin_launch(
        &self,
        context: &LspContext,
        digest: &str,
        config: EffectiveLspConfig,
        lang: String,
    ) -> (r: Result<(LaunchTask, LaunchStep), AuthorityError>)
        ensures
            match lsp_fault(*self, *context, digest@) {
                Some(e) => r == Err::<(LaunchTask, LaunchStep), AuthorityError>(e),
                None => {
                    &&& r is Ok
                    &&& r->Ok_0.0.wf()
                    &&& r->Ok_0.0.config == config
                    &&& r->Ok_0.0.lang == lang
                    &&& r->Ok_0.0.phase == LaunchPhase::Resolving
                    &&& r->Ok_0.1 matches LaunchStep::Resolve { candidate } && candidate@ == joined(
                        self.root@,
                        config.executable@,
                    )
                },
            },
    {
        match self.start_lsp(context, digest) {
            Err(e) => return Err(e),
            Ok(()) => {},
        }
        let candidate = self.resolve_lsp_executable(config.executable.as_str());
        let task = LaunchTask {
            config,
            lang,
            executable: String::new(),
            phase: LaunchPhase::Resolving,
        };
        Ok((task, LaunchStep::Resolve { candidate }))
    }

    fn past_digest(&self, task: &mut LaunchTask) -> (step: LaunchStep)
        ensures
            final(task).wf(),
            after_digest(*self, *old(task), *final(task), step),
    {
        if task.config.expected_version.is_some() {
            task.phase = LaunchPhase::Probing;
            LaunchStep::Version(
                self.version_probe(&task.config, task.executable.as_str(), task.lang.as_str()),
            )
        } else {
            task.phase = LaunchPhase::Ready;
            LaunchStep::Run { executable: task.executable.clone() }
        }
    }

    /// Takes the outcome of the last step of a launch, and says what is to be done
    /// next.
    pub fn launch_step(&self, task: &mut LaunchTask, news: LaunchNews) -> (step: LaunchStep)
        requires
            old(task).wf(),
        ensures
            final(task).wf(),
            launch_stepped(*self, *old(task), news, *final(task), step),
    {
        match task.phase {
            LaunchPhase::Resolving => match news {
                LaunchNews::Resolved(executable) => {
                    task.executable = executable;
                    if task.config.expected_digest.is_some() {
                        task.phase = LaunchPhase::Hashing;
                        LaunchStep::Digest { executable: task.executable.clone() }
                    } else {
                        self.past_digest(task)
                    }
                },
                LaunchNews::Failed(e) => {
                    task.phase = LaunchPhase::Refused;
                    LaunchStep::Refuse(e)
                },
                _ => LaunchStep::Wait,
            },
            LaunchPhase::Hashing => match news {
                LaunchNews::Digest(actual) => {
                    let checked = match &task.config.expected_digest {
                        Some(expected) => check_digest(actual, expected),
                        None => Ok(()),
                    };
                    match checked {
                        Ok(()) => self.past_digest(task),
                        Err(e) => {
                            task.phase = LaunchPhase::Refused;
                            LaunchStep::Refuse(e)
                        },
                    }
                },
                LaunchNews::Failed(e) => {
                    task.phase = LaunchPhase::Refused;
                    LaunchStep::Refuse(e)
                },
                _ => LaunchStep::Wait,
            },
            LaunchPhase::Probing => match news {
                LaunchNews::Probe(probe) => {
                    let checked = match &task.config.expected_version {
                        Some(expected) => check_version(&probe, expected),
                        None => Ok(()),
                    };
                    match checked {
                        Ok(()) => {
                            task.phase = LaunchPhase::Ready;
                            LaunchStep::Run { executable: task.executable.clone() }
                        },
                        Err(e) => {
                            task.phase = LaunchPhase::Refused;
                            LaunchStep::Refuse(e)
                        },
                    }
                },
                LaunchNews::Failed(e) => {
                    task.phase = LaunchPhase::Refused;
                    LaunchStep::Refuse(e)
                },
                _ => LaunchStep::Wait,
            },
            _ => LaunchStep::Wait,
        }
    }
}

/// The request that runs a probe on a remote machine: bounded in its output and its
/// time, under the epochs and the revision of the context of the server.
pub fn probe_request(command: CommandSpec, context: &LspContext) -> (request: AuthorityRequest<
    ExecRequest,
>)
    ensures
        is_random_uuid(request.request_id),
        request.payload == (ExecRequest {
            command,
            stdout_limit: LSP_PROBE_OUTPUT_LIMIT,
            stderr_limit: LSP_PROBE_OUTPUT_LIMIT,
            timeout_ms: LSP_PROBE_TIMEOUT_MS,
        }),
        request.workspace_epoch == context.workspace_epoch,
        request.environment_epoch == context.environment_epoch,
        request.document_revision == context.document_revision,
{
    AuthorityRequest::new(
        ExecRequest {
            command,
            stdout_limit: LSP_PROBE_OUTPUT_LIMIT,
            stderr_limit: LSP_PROBE_OUTPUT_LIMIT,
            timeout_ms: LSP_PROBE_TIMEOUT_MS,
        },
        context.workspace_epoch,
        context.environment_epoch,
        context.document_revision,
    )
}

/// A server with an expected digest and an expected version is run only after a
/// digest and a version that fit were told, and never while one is awaited.
pub proof fn servers_run_only_as_expected(
    base: AuthorityBase,
    before: LaunchTask,
    news: LaunchNews,
    after: LaunchTask,
    step: LaunchStep,
)
    requires
        before.wf(),
        launch_stepped(base, before, news, after, step),
        step is Run,
    ensures
        before.phase == LaunchPhase::Resolving ==> before.config.expected_digest is None
            && before.config.expected_version is None,
        before.phase == LaunchPhase::Hashing ==> before.config.expected_version is None && (
        news matches LaunchNews::Digest(actual) && same_ignoring_case(
            actual@,
            before.config.expected_digest->0@,
        )),
        before.phase == LaunchPhase::Probing ==> (news matches LaunchNews::Probe(probe)
            && version_told(probe) == before.config.expected_version->0@),
        before.phase != LaunchPhase::Ready,
        before.phase != LaunchPhase::Refused,
{
}

/// What is run is what was resolved and checked: the executable that the digest and the
/// version were told of.
pub proof fn checked_executables_are_run(
    base: AuthorityBase,
    before: LaunchTask,
    news: LaunchNews,
    after: LaunchTask,
    step: LaunchStep,
)
    requires
        before.wf(),
        launch_stepped(base, before, news, after, step),
    ensures
        step matches LaunchStep::Run { executable } ==> (news matches LaunchNews::Resolved(found)
            ==> executable == found) && (!(news is Resolved) ==> executable == before.executable),
        step matches LaunchStep::Digest { executable } ==> news == LaunchNews::Resolved(executable)
            && after.executable == executable,
        step matches LaunchStep::Version(command) ==> command.program@ == after.executable@
            && command.cwd@ == base.root@ && (before.config.version_probe_args is None
            ==> command.args@.len() == 1 && command.args@[0]@ == "--version"@),
        news matches LaunchNews::Failed(e) ==> (before.phase == LaunchPhase::Resolving
            || before.phase == LaunchPhase::Hashing || before.phase == LaunchPhase::Probing ==> step
            == LaunchStep::Refuse(e)),
{
    if let LaunchStep::Version(command) = step {
        assert(texts(command.args@).len() == command.args@.len());
        if before.config.version_probe_args is None {
            assert(texts(command.args@)[0] == command.args@[0]@);
        }
    }
}

} // verus!
