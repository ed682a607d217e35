//! How a configured SSH authority is activated: the host must present the configured
//! key before it is accepted, and the helper is fetched and checked, installed and run
//! only while the authority is trusted.
use vstd::prelude::*;

use super::ssh::{key_from, presented_key};
use crate::authority::base::AuthorityBase;
use crate::authority::ssh::{connected, later_epoch, SshAuthority, Transport};
use crate::authority::types::AuthorityTrust;
use crate::authority::{error_text, AuthorityError, ProtocolFault, SshFault};
use crate::config::known_hosts::HostKeyCandidate;

verus! {

/// How far an activation has come.
#[derive(Clone, Copy, Debug, PartialEq, Eq, Structural)]
pub enum ActivationPhase {
    Scanning,
    Accepting,
    Verifying,
    Installing,
    Launching,
    Connecting,
    Ended,
}

/// The activation of an authority.
#[derive(Debug, PartialEq, Eq)]
pub struct ActivationTask {
    pub host_fingerprint: String,
    pub helper_target: String,
    pub remote_helper_directory: String,
    pub phase: ActivationPhase,
}

/// What became of the last step.
#[derive(Debug)]
#[allow(inconsistent_fields)]
pub enum ActivationNews {
    /// The keys that the host presents.
    Keys(Vec<HostKeyCandidate>),
    Done,
    Failed(String),
    /// A connection was made; its generation and the reason if it was lost already.
    Connected { transport: Transport, lost: Option<(u64, String)> },
}

/// What is to be done next.
#[derive(Debug, PartialEq, Eq)]
#[allow(inconsistent_fields)]
pub enum ActivationStep {
    /// Ask the host for its keys.
    Scan,
    /// Accept the key at this index among those that the host presents.
    Accept { key: usize },
    /// Fetch the helper and check it.
    Verify { target: String },
    Install { directory: String },
    Launch,
    /// Speak to the helper, in this generation.
    Connect { generation: u64 },
    Finish { result: Result<(), String> },
    Wait,
}

/// Whether an activation ends with what an error says.
pub open spec fn ends_with(step: ActivationStep, text: Seq<char>) -> bool {
    step matches ActivationStep::Finish { result } && (result matches Err(t) && t@ == text)
}

/// The authority once a new connection is to be made: a dead one is let go, and its
/// generation counts as passed.
pub open spec fn without_dead_connection(a: SshAuthority, after: SshAuthority) -> bool {
    &&& after.transport is None
    &&& after.base == (AuthorityBase {
        environment_epoch: match a.transport {
            Some(stale) => later_epoch(a.base.environment_epoch, stale.generation),
            None => a.base.environment_epoch,
        },
        ..a.base
    })
}

/// How an activation goes on.
pub open spec fn activation_stepped(
    before: SshAuthority,
    task: ActivationTask,
    news: ActivationNews,
    after: SshAuthority,
    next: ActivationTask,
    step: ActivationStep,
) -> bool {
    let ended = ActivationTask { phase: ActivationPhase::Ended, ..task };
    match (task.phase, news) {
        (ActivationPhase::Scanning, ActivationNews::Keys(keys)) => {
            let i = key_from(keys@, task.host_fingerprint@, 0);
            &&& after == before
            &&& if i < keys@.len() {
                next == (ActivationTask { phase: ActivationPhase::Accepting, ..task }) && step
                    == (ActivationStep::Accept { key: i as usize })
            } else {
                next == ended && ends_with(
                    step,
                    "SSH host did not present configured fingerprint "@ + task.host_fingerprint@,
                )
            }
        },
        (ActivationPhase::Scanning, ActivationNews::Failed(text)) => after == before && next
            == ended && ends_with(step, text@),
        (ActivationPhase::Accepting, ActivationNews::Done) => if connected(before) {
            after == before && next == ended && ends_with(
                step,
                error_text(AuthorityError::Ssh(SshFault::AlreadyConnected)),
            )
        } else {
            &&& without_dead_connection(before, after)
            &&& if before.base.trust == AuthorityTrust::ExecutionGranted {
                next == (ActivationTask { phase: ActivationPhase::Verifying, ..task }) && step
                    == (ActivationStep::Verify { target: task.helper_target })
            } else {
                next == ended && ends_with(step, error_text(AuthorityError::InspectOnly))
            }
        },
        (ActivationPhase::Accepting, ActivationNews::Failed(text)) => after == before && next
            == ended && ends_with(step, text@),
        (ActivationPhase::Verifying, ActivationNews::Done) => after == before && next == (
        ActivationTask { phase: ActivationPhase::Installing, ..task }) && step == (
        ActivationStep::Install { directory: task.remote_helper_directory }),
        (ActivationPhase::Verifying, ActivationNews::Failed(text)) => after == before && next
            == ended && ends_with(step, error_text(AuthorityError::Verification(text))),
        (ActivationPhase::Installing, ActivationNews::Done) => after == before && next == (
        ActivationTask { phase: ActivationPhase::Launching, ..task }) && step
            == ActivationStep::Launch,
        (ActivationPhase::Installing, ActivationNews::Failed(text)) => after == before && next
            == ended && ends_with(step, error_text(AuthorityError::Verification(text))),
        (ActivationPhase::Launching, ActivationNews::Done) => after == before && next == (
        ActivationTask { phase: ActivationPhase::Connecting, ..task }) && step == (
        ActivationStep::Connect { generation: before.base.environment_epoch.0 }),
        (ActivationPhase::Launching, ActivationNews::Failed(text)) => after == before && next
            == ended && ends_with(step, error_text(AuthorityError::Ssh(SshFault::Other(text)))),
        (ActivationPhase::Connecting, ActivationNews::Connected { transport, lost }) => match lost {
            Some((generation, reason)) => {
                &&& next == ended
                &&& after == (SshAuthority {
                    base: AuthorityBase {
                        environment_epoch: later_epoch(before.base.environment_epoch, generation),
                        ..before.base
                    },
                    ..before
                })
                &&& ends_with(
                    step,
                    error_text(AuthorityError::Protocol(ProtocolFault::Other(reason))),
                )
            },
            None => {
                &&& next == ended
                &&& after == (SshAuthority { transport: Some(transport), ..before })
                &&& step == (ActivationStep::Finish { result: Ok(()) })
            },
        },
        (ActivationPhase::Connecting, ActivationNews::Failed(text)) => after == before && next
            == ended && ends_with(
            step,
            error_text(AuthorityError::Protocol(ProtocolFault::Other(text))),
        ),
        _ => after == before && next == task && step == ActivationStep::Wait,
    }
}

/// The helper is fetched only for an authority that is trusted and has no connection,
/// after the key of its host was accepted, and a key is accepted only if the host
/// presents it.
pub proof fn helpers_are_fetched_only_with_trust(
    before: SshAuthority,
    task: ActivationTask,
    news: ActivationNews,
    after: SshAuthority,
    next: ActivationTask,
    step: ActivationStep,
)
    requires
        activation_stepped(before, task, news, after, next, step),
    ensures
        step is Verify ==> task.phase == ActivationPhase::Accepting && news == ActivationNews::Done
            && before.base.trust == AuthorityTrust::ExecutionGranted && !connected(before),
        step is Install ==> task.phase == ActivationPhase::Verifying,
        step is Launch ==> task.phase == ActivationPhase::Installing,
        step is Accept ==> (news matches ActivationNews::Keys(keys) && keys@[step->key as int
        ].fingerprint@ == task.host_fingerprint@),
        step == (ActivationStep::Finish { result: Ok(()) }) ==> task.phase
            == ActivationPhase::Connecting && after.transport is Some,
{
    if step is Accept {
        if let ActivationNews::Keys(keys) = news {
            lemma_key_from(keys@, task.host_fingerprint@, 0);
            assert(keys@.len() == keys.len());
        }
    }
}

proof fn lemma_key_from(keys: Seq<HostKeyCandidate>, fingerprint: Seq<char>, i: int)
    requires
        0 <= i,
    ensures
        ({
            let k = key_from(keys, fingerprint, i);
            k < keys.len() ==> i <= k && keys[k].fingerprint@ == fingerprint
        }),
        key_from(keys, fingerprint, i) <= keys.len() || i > keys.len(),
    decreases keys.len() - i,
{
    if i < keys.len() {
        lemma_key_from(keys, fingerprint, i + 1);
    }
}

fn failed(error: AuthorityError) -> (step: ActivationStep)
    ensures
        ends_with(step, error_text(error)),
{
    ActivationStep::Finish { result: Err(error.text()) }
}

impl ActivationTask {
    /// Begins an activation: the host is asked for its keys.
    pub fn begin(
        host_fingerprint: String,
        helper_target: String,
        remote_helper_directory: String,
    ) -> (r: (Self, ActivationStep))
        ensures
            r.0 == (ActivationTask {
                host_fingerprint,
                helper_target,
                remote_helper_directory,
                phase: ActivationPhase::Scanning,
            }),
            r.1 == ActivationStep::Scan,
    {
        let task = ActivationTask {
            host_fingerprint,
            helper_target,
            remote_helper_directory,
            phase: ActivationPhase::Scanning,
        };
        (task, ActivationStep::Scan)
    }

    /// Takes the outcome of the last step, and says what is to be done next.
    pub fn step(&mut self, authority: &mut SshAuthority, news: ActivationNews) -> (step:
        ActivationStep)
        ensures
            activation_stepped(
                *old(authority),
                *old(self),
                news,
                *final(authority),
                *final(self),
                step,
            ),
    {
        match (self.phase, news) {
            (ActivationPhase::Scanning, ActivationNews::Keys(keys)) => {
                match presented_key(&keys, &self.host_fingerprint) {
                    Ok(key) => {
                        self.phase = ActivationPhase::Accepting;
                        ActivationStep::Accept { key }
                    },
                    Err(text) => {
                        self.phase = ActivationPhase::Ended;
                        ActivationStep::Finish { result: Err(text) }
                    },
                }
            },
            (ActivationPhase::Scanning, ActivationNews::Failed(text)) => {
                self.phase = ActivationPhase::Ended;
                ActivationStep::Finish { result: Err(text) }
            },
            (ActivationPhase::Accepting, ActivationNews::Done) => {
                match authority.begin_activation() {
                    Ok(()) => {
                        self.phase = ActivationPhase::Verifying;
                        ActivationStep::Verify { target: self.helper_target.clone() }
                    },
                    Err(error) => {
                        self.phase = ActivationPhase::Ended;
                        failed(error)
                    },
                }
            },
            (ActivationPhase::Accepting, ActivationNews::Failed(text)) => {
                self.phase = ActivationPhase::Ended;
                ActivationStep::Finish { result: Err(text) }
            },
            (ActivationPhase::Verifying, ActivationNews::Done) => {
                self.phase = ActivationPhase::Installing;
                ActivationStep::Install { directory: self.remote_helper_directory.clone() }
            },
            (ActivationPhase::Verifying, ActivationNews::Failed(text)) => {
                self.phase = ActivationPhase::Ended;
                failed(AuthorityError::Verification(text))
            },
            (ActivationPhase::Installing, ActivationNews::Done) => {
                self.phase = ActivationPhase::Launching;
                ActivationStep::Launch
            },
            (ActivationPhase::Installing, ActivationNews::Failed(text)) => {
                self.phase = ActivationPhase::Ended;
                failed(AuthorityError::Verification(text))
            },
            (ActivationPhase::Launching, ActivationNews::Done) => {
                self.phase = ActivationPhase::Connecting;
                ActivationStep::Connect { generation: authority.base.environment_epoch.0 }
            },
            (ActivationPhase::Launching, ActivationNews::Failed(text)) => {
                self.phase = ActivationPhase::Ended;
                failed(AuthorityError::Ssh(SshFault::Other(text)))
            },
            (ActivationPhase::Connecting, ActivationNews::Connected { transport, lost }) => {
                self.phase = ActivationPhase::Ended;
                match authority.finish_activation(transport, lost) {
                    Ok(()) => ActivationStep::Finish { result: Ok(()) },
                    Err(error) => failed(error),
                }
            },
            (ActivationPhase::Connecting, ActivationNews::Failed(text)) => {
                self.phase = ActivationPhase::Ended;
                failed(AuthorityError::Protocol(ProtocolFault::Other(text)))
            },
            _ => ActivationStep::Wait,
        }
    }
}

/// An activation goes on with what its configuration names: the helper that it verifies,
/// the directory that it installs it in, and a connection under the epoch of the
/// authority. Whatever fails ends it with an error, and no step changes the trust, the
/// root or the name of the authority.
pub proof fn activations_use_what_is_configured(
    before: SshAuthority,
    task: ActivationTask,
    news: ActivationNews,
    after: SshAuthority,
    next: ActivationTask,
    step: ActivationStep,
)
    requires
        activation_stepped(before, task, news, after, next, step),
    ensures
        after.base.trust == before.base.trust,
        after.base.root == before.base.root,
        after.base.label == before.base.label,
        after.base.host_id == before.base.host_id,
        after.base.lsp_grants == before.base.lsp_grants,
        after.base.workspace_epoch == before.base.workspace_epoch,
        next == (ActivationTask { phase: next.phase, ..task }),
        step matches ActivationStep::Verify { target } ==> target == task.helper_target,
        step matches ActivationStep::Install { directory } ==> directory
            == task.remote_helper_directory,
        step matches ActivationStep::Connect { generation } ==> generation
            == before.base.environment_epoch.0,
        news is Failed && step != ActivationStep::Wait ==> next.phase == ActivationPhase::Ended && (
        step matches ActivationStep::Finish { result } && result is Err) && after == before,
        task.phase == ActivationPhase::Connecting ==> (
        news matches ActivationNews::Connected { transport, lost } ==> (lost is None
            ==> after.transport == Some(transport) && after.base == before.base) && (lost is Some
            ==> after.transport == before.transport && (
        step matches ActivationStep::Finish { result } && result is Err))),
        step is Wait ==> after == before && next == task,
        step is Finish <==> next.phase == ActivationPhase::Ended && task.phase
            != ActivationPhase::Ended,
{
}

} // verus!
