//! Configured SSH authorities: what their configuration must hold, and which key
//! of their host is the right one.
use vstd::prelude::*;
use vstd::utf8::encode_utf8;

use crate::authority::ssh::{connected, SshAuthority};
use crate::authority::tuf_verifier::{TufPolicy, TufVerificationError, TufVerifier};
use crate::authority::types::{AuthorityKind, AuthorityTrust};
use crate::authority::{AuthorityError, SshFault};
use crate::config::known_hosts::HostKeyCandidate;
use crate::config::SshAuthorityConfig;
use crate::document::WorkspaceEpoch;
use crate::encoding::{opt_text, url_serialized, url_text};
use crate::path::{absolute, is_absolute};
use crate::protocol;
use crate::text::{chars_of, str_eq};
use crate::words::{begins_with, join2, starts_with};

verus! {

/// Why the configuration of an SSH authority is refused.
#[derive(Debug, PartialEq, Eq)]
pub enum SshConfigError {
    LabelLength,
    HostFingerprint,
    HelperTarget(String),
    TrustedRootNotAbsolute,
    DatastoreNotAbsolute,
    TargetCacheNotAbsolute,
    /// What speaks to the host refuses the host, the key or the file of known hosts.
    Bootstrap(String),
    Authority(AuthorityError),
    MetadataUrl,
    TargetsUrl,
    Policy(TufVerificationError),
}

/// Who is spoken to over SSH.
#[derive(Debug, PartialEq, Eq)]
pub struct SshTarget {
    pub host: String,
    pub port: u16,
    pub user: String,
}

/// The key that is shown to the host.
#[derive(Debug, PartialEq, Eq)]
pub struct SshIdentity {
    pub private_key: String,
    pub certificate: Option<String>,
}

/// An SSH authority that is ready to be activated.
#[derive(Debug)]
pub struct ConfiguredSshRuntime {
    pub authority: SshAuthority,
    pub target: SshTarget,
    pub identity: SshIdentity,
    pub verifier: TufVerifier,
    pub host_fingerprint: String,
    pub helper_target: String,
    pub remote_helper_directory: String,
    pub passphrase_required: bool,
}

/// The most bytes that a helper may have.
pub const MAX_HELPER_BYTES: u64 = 67_108_864;

/// Whether a helper is one of those that may be run on a remote machine.
pub open spec fn qualified_helper(target: Seq<char>) -> bool {
    target == "hermito-remote-x86_64-unknown-linux-musl"@ || target
        == "hermito-remote-aarch64-unknown-linux-musl"@
}

/// Whether a helper is one of those that may be run on a remote machine.
pub fn is_qualified_remote_helper_target(target: &str) -> (yes: bool)
    ensures
        yes == qualified_helper(target@),
{
    str_eq(target, "hermito-remote-x86_64-unknown-linux-musl") || str_eq(
        target,
        "hermito-remote-aarch64-unknown-linux-musl",
    )
}

/// Which rule on its own values a configuration breaks first: a label of 1 to 64
/// bytes, an explicit host fingerprint, a helper that may be run, absolute paths.
pub open spec fn broken_rule(config: SshAuthorityConfig) -> Option<SshConfigError> {
    let label = encode_utf8(config.label@).len();
    if label == 0 || label > 64 {
        Some(SshConfigError::LabelLength)
    } else if !begins_with(config.host_fingerprint@, "SHA256:"@) || config.host_fingerprint@.len()
        <= "SHA256:"@.len() {
        Some(SshConfigError::HostFingerprint)
    } else if !qualified_helper(config.helper_target@) {
        Some(SshConfigError::HelperTarget(config.helper_target))
    } else if !absolute(config.tuf_trusted_root@) {
        Some(SshConfigError::TrustedRootNotAbsolute)
    } else if !absolute(config.tuf_datastore@) {
        Some(SshConfigError::DatastoreNotAbsolute)
    } else if !absolute(config.tuf_target_cache@) {
        Some(SshConfigError::TargetCacheNotAbsolute)
    } else {
        None
    }
}

/// What was found out about a configuration: why its host cannot be spoken to at
/// all, its two URLs as they are written out if they are URLs, and why its policy is
/// not in order.
#[derive(Debug, PartialEq, Eq)]
pub struct SshConfigFacts {
    pub bootstrap_fault: Option<String>,
    pub metadata_url: Option<String>,
    pub targets_url: Option<String>,
    pub policy_fault: Option<&'static str>,
}

/// What was found out, with the URLs as texts.
pub struct FactsView {
    pub bootstrap_fault: Option<String>,
    pub metadata_url: Option<Seq<char>>,
    pub targets_url: Option<Seq<char>>,
    pub policy_fault: Option<&'static str>,
}

impl View for SshConfigFacts {
    type V = FactsView;

    open spec fn view(&self) -> FactsView {
        FactsView {
            bootstrap_fault: self.bootstrap_fault,
            metadata_url: opt_text(self.metadata_url),
            targets_url: opt_text(self.targets_url),
            policy_fault: self.policy_fault,
        }
    }
}

/// What is wrong with the configuration of an SSH authority, in the order in which
/// it is found out: the rules on its own values, a host that can be spoken to, an
/// absolute root, two URLs, and a policy that is in order.
pub open spec fn ssh_config_fault(config: SshAuthorityConfig, facts: FactsView) -> Option<
    SshConfigError,
> {
    if broken_rule(config) is Some {
        broken_rule(config)
    } else if facts.bootstrap_fault is Some {
        Some(SshConfigError::Bootstrap(facts.bootstrap_fault->0))
    } else if !begins_with(config.root@, "/"@) {
        Some(SshConfigError::Authority(AuthorityError::Ssh(SshFault::RootNotAbsolute)))
    } else if facts.metadata_url is None {
        Some(SshConfigError::MetadataUrl)
    } else if facts.targets_url is None {
        Some(SshConfigError::TargetsUrl)
    } else if facts.policy_fault is Some {
        Some(SshConfigError::Policy(TufVerificationError::InvalidPolicy(facts.policy_fault->0)))
    } else {
        None
    }
}

/// The authority that is made of a configuration: not connected, without trust,
/// under its label, and with helpers of a bounded size that come from the configured
/// places and are never taken from a cache offline.
pub open spec fn is_configured(
    config: SshAuthorityConfig,
    facts: FactsView,
    epoch: WorkspaceEpoch,
    r: ConfiguredSshRuntime,
) -> bool {
    let base = r.authority.base;
    let policy = r.verifier.policy;
    &&& r.authority.transport is None
    &&& base.kind == AuthorityKind::Ssh
    &&& base.label == config.label
    &&& base.host_id == config.label
    &&& base.root == config.root
    &&& base.trust == AuthorityTrust::InspectOnly
    &&& base.workspace_epoch.0 == epoch.0
    &&& base.lsp_grants@.len() == 0
    &&& policy.trusted_root == config.tuf_trusted_root
    &&& Some(policy.metadata_base_url@) == facts.metadata_url
    &&& Some(policy.targets_base_url@) == facts.targets_url
    &&& policy.datastore == config.tuf_datastore
    &&& policy.target_cache == config.tuf_target_cache
    &&& policy.offline_metadata_url is None
    &&& policy.offline_targets_url is None
    &&& !policy.allow_offline_cache
    &&& policy.max_target_bytes == MAX_HELPER_BYTES
    &&& r.target == SshTarget { host: config.host, port: config.port, user: config.user }
    &&& r.identity == SshIdentity {
        private_key: config.identity,
        certificate: config.certificate,
    }
    &&& r.host_fingerprint == config.host_fingerprint
    &&& r.helper_target == config.helper_target
    &&& r.remote_helper_directory == config.remote_helper_directory
    &&& r.passphrase_required == config.passphrase_required
}

fn check_own_rules(config: &SshAuthorityConfig) -> (r: Result<(), SshConfigError>)
    ensures
        r == match broken_rule(*config) {
            Some(e) => Err::<(), SshConfigError>(e),
            None => Ok::<(), SshConfigError>(()),
        },
{
    let label: usize = config.label.as_str().as_bytes().len();
    if label == 0 || label > 64 {
        return Err(SshConfigError::LabelLength);
    }
    let fingerprint = chars_of(config.host_fingerprint.as_str());
    let prefix = chars_of("SHA256:");
    if !starts_with(config.host_fingerprint.as_str(), "SHA256:") || fingerprint.len()
        <= prefix.len() {
        return Err(SshConfigError::HostFingerprint);
    }
    if !is_qualified_remote_helper_target(config.helper_target.as_str()) {
        return Err(SshConfigError::HelperTarget(config.helper_target.clone()));
    }
    if !is_absolute(config.tuf_trusted_root.as_str()) {
        return Err(SshConfigError::TrustedRootNotAbsolute);
    }
    if !is_absolute(config.tuf_datastore.as_str()) {
        return Err(SshConfigError::DatastoreNotAbsolute);
    }
    if !is_absolute(config.tuf_target_cache.as_str()) {
        return Err(SshConfigError::TargetCacheNotAbsolute);
    }
    Ok(())
}

/// The authority that is made of a configuration. Whether its host can be spoken to
/// at all, and whether its policy is in order, is found out outside.
pub fn configured_ssh_runtime(
    config: SshAuthorityConfig,
    epoch: WorkspaceEpoch,
    bootstrap_fault: Option<String>,
    policy_fault: Option<&'static str>,
) -> (r: Result<(String, ConfiguredSshRuntime), SshConfigError>)
    ensures
        ({
            let facts = FactsView {
                bootstrap_fault,
                metadata_url: url_serialized(config.tuf_metadata_url@),
                targets_url: url_serialized(config.tuf_targets_url@),
                policy_fault,
            };
            match ssh_config_fault(config, facts) {
                Some(e) => r == Err::<(String, ConfiguredSshRuntime), SshConfigError>(e),
                None => r is Ok && r->Ok_0.0 == config.label && is_configured(
                    config,
                    facts,
                    epoch,
                    r->Ok_0.1,
                ),
            }
        }),
{
    let facts = SshConfigFacts {
        bootstrap_fault,
        metadata_url: url_text(config.tuf_metadata_url.as_str()),
        targets_url: url_text(config.tuf_targets_url.as_str()),
        policy_fault,
    };
    configure_ssh(config, epoch, facts)
}

/// The authority that is made of a configuration, given what was found out about it.
pub fn configure_ssh(config: SshAuthorityConfig, epoch: WorkspaceEpoch, facts: SshConfigFacts) -> (r:
    Result<(String, ConfiguredSshRuntime), SshConfigError>)
    ensures
        match ssh_config_fault(config, facts@) {
            Some(e) => r == Err::<(String, ConfiguredSshRuntime), SshConfigError>(e),
            None => r is Ok && r->Ok_0.0 == config.label && is_configured(
                config,
                facts@,
                epoch,
                r->Ok_0.1,
            ),
        },
{
    if let Err(e) = check_own_rules(&config) {
        return Err(e);
    }
    if let Some(fault) = facts.bootstrap_fault {
        return Err(SshConfigError::Bootstrap(fault));
    }
    let label = config.label.clone();
    let authority = match SshAuthority::new(
        config.label,
        config.root,
        protocol::request::WorkspaceEpoch(epoch.0),
    ) {
        Ok(authority) => authority,
        Err(e) => return Err(SshConfigError::Authority(e)),
    };
    let metadata_base_url = match facts.metadata_url {
        Some(url) => url,
        None => return Err(SshConfigError::MetadataUrl),
    };
    let targets_base_url = match facts.targets_url {
        Some(url) => url,
        None => return Err(SshConfigError::TargetsUrl),
    };
    let policy = TufPolicy {
        trusted_root: config.tuf_trusted_root,
        metadata_base_url,
        targets_base_url,
        datastore: config.tuf_datastore,
        target_cache: config.tuf_target_cache,
        offline_metadata_url: None,
        offline_targets_url: None,
        allow_offline_cache: false,
        max_target_bytes: MAX_HELPER_BYTES,
    };
    let verifier = match TufVerifier::new(policy, facts.policy_fault) {
        Ok(verifier) => verifier,
        Err(e) => return Err(SshConfigError::Policy(e)),
    };
    Ok(
        (
            label,
            ConfiguredSshRuntime {
                authority,
                target: SshTarget { host: config.host, port: config.port, user: config.user },
                identity: SshIdentity {
                    private_key: config.identity,
                    certificate: config.certificate,
                },
                verifier,
                host_fingerprint: config.host_fingerprint,
                helper_target: config.helper_target,
                remote_helper_directory: config.remote_helper_directory,
                passphrase_required: config.passphrase_required,
            },
        ),
    )
}

/// The first key with a fingerprint, from index `i` on; their number if there is
/// none.
pub open spec fn key_from(keys: Seq<HostKeyCandidate>, fingerprint: Seq<char>, i: int) -> int
    decreases keys.len() - i,
{
    if i >= keys.len() {
        keys.len() as int
    } else if keys[i].fingerprint@ == fingerprint {
        i
    } else {
        key_from(keys, fingerprint, i + 1)
    }
}

/// The key of a host that has the configured fingerprint, among those that it
/// presents.
pub fn presented_key(keys: &Vec<HostKeyCandidate>, fingerprint: &String) -> (r: Result<
    usize,
    String,
>)
    ensures
        ({
            let i = key_from(keys@, fingerprint@, 0);
            if i < keys@.len() {
                r == Ok::<usize, String>(i as usize)
            } else {
                r is Err && r->Err_0@ == "SSH host did not present configured fingerprint "@
                    + fingerprint@
            }
        }),
{
    let mut i: usize = 0;
    while i < keys.len()
        invariant
            i <= keys@.len(),
            key_from(keys@, fingerprint@, 0) == key_from(keys@, fingerprint@, i as int),
        decreases keys@.len() - i,
    {
        if keys[i].fingerprint == *fingerprint {
            return Ok(i);
        }
        i += 1;
    }
    Err(join2("SSH host did not present configured fingerprint ", fingerprint.as_str()))
}

/// The key that is accepted for a host is one that it presents and that has the
/// configured fingerprint, and there is one wherever the host presents such a key.
pub proof fn presented_keys_are_found(keys: Seq<HostKeyCandidate>, fingerprint: Seq<char>, i: int)
    requires
        0 <= i <= keys.len(),
    ensures
        key_from(keys, fingerprint, i) < keys.len() ==> i <= key_from(keys, fingerprint, i)
            && keys[key_from(keys, fingerprint, i)].fingerprint@ == fingerprint,
        (exists|j: int| i <= j < keys.len() && (#[trigger] keys[j]).fingerprint@ == fingerprint)
            ==> key_from(keys, fingerprint, i) < keys.len(),
    decreases keys.len() - i,
{
    if i < keys.len() && keys[i].fingerprint@ != fingerprint {
        presented_keys_are_found(keys, fingerprint, i + 1);
    }
}

/// A configuration keeps its own rules if and only if its label has 1 to 64 bytes, its
/// fingerprint is spelled out, its helper is one of the two that may be run, and its
/// three places are absolute.
pub proof fn configurations_keep_their_rules(config: SshAuthorityConfig)
    ensures
        broken_rule(config) is None <==> 1 <= encode_utf8(config.label@).len() <= 64
            && begins_with(config.host_fingerprint@, "SHA256:"@) && config.host_fingerprint@.len()
            > 7 && (config.helper_target@ == "hermito-remote-x86_64-unknown-linux-musl"@
            || config.helper_target@ == "hermito-remote-aarch64-unknown-linux-musl"@) && absolute(
            config.tuf_trusted_root@,
        ) && absolute(config.tuf_datastore@) && absolute(config.tuf_target_cache@),
{
    reveal_strlit("SHA256:");
}

/// A configuration is taken if and only if it keeps its rules, its root is absolute, its
/// two places can be reached, and neither the start of its helper nor its policy is at
/// fault. A rule that it breaks is told first.
pub proof fn configurations_are_taken_without_fault(config: SshAuthorityConfig, facts: FactsView)
    ensures
        ssh_config_fault(config, facts) is None <==> broken_rule(config) is None
            && config.root@.len() > 0 && config.root@[0] == '/' && facts.metadata_url is Some
            && facts.targets_url is Some && facts.bootstrap_fault is None && facts.policy_fault
            is None,
        broken_rule(config) is Some ==> ssh_config_fault(config, facts) == broken_rule(config),
{
    reveal_strlit("/");
    if config.root@.len() > 0 && config.root@[0] == '/' {
        assert(config.root@.take(1) =~= "/"@);
    }
    if begins_with(config.root@, "/"@) {
        assert(config.root@.take(1)[0] == config.root@[0]);
    }
}

/// An authority is made as it was configured: it is reached, named and rooted as the
/// configuration says, it has no trust, no grant and no connection, and its helper comes
/// from the configured places alone.
pub proof fn authorities_are_made_as_configured(
    config: SshAuthorityConfig,
    facts: FactsView,
    epoch: WorkspaceEpoch,
    r: ConfiguredSshRuntime,
)
    requires
        is_configured(config, facts, epoch, r),
    ensures
        r.target.host == config.host,
        r.target.port == config.port,
        r.target.user == config.user,
        r.identity.private_key == config.identity,
        r.identity.certificate == config.certificate,
        r.host_fingerprint == config.host_fingerprint,
        r.helper_target == config.helper_target,
        r.remote_helper_directory == config.remote_helper_directory,
        r.passphrase_required == config.passphrase_required,
        r.authority.base.label == config.label,
        r.authority.base.host_id == config.label,
        r.authority.base.root == config.root,
        r.authority.base.workspace_epoch.0 == epoch.0,
        r.authority.base.trust != AuthorityTrust::ExecutionGranted,
        r.authority.base.lsp_grants@.len() == 0,
        !connected(r.authority),
        facts.metadata_url == Some(r.verifier.policy.metadata_base_url@),
        facts.targets_url == Some(r.verifier.policy.targets_base_url@),
        r.verifier.policy.offline_metadata_url is None,
        r.verifier.policy.offline_targets_url is None,
        !r.verifier.policy.allow_offline_cache,
        r.verifier.policy.trusted_root == config.tuf_trusted_root,
        r.verifier.policy.datastore == config.tuf_datastore,
        r.verifier.policy.target_cache == config.tuf_target_cache,
{
}

} // verus!
