use hermito::config::known_hosts::{HostKeyCandidate, KnownHostsError, KnownHostsStore};
use hermito::config::trust::{TrustRecords, TrustStore, TrustStoreError};
use hermito::config::{
    association_matches, default_ssh_port, effective_lsp_config, execution_context_name, load,
    lsp_config_digest, resolve_language_server, AppConfig, LanguageServerConfig,
    LanguageServerOverride, UnsupportedVersion,
};
use hermito::event_loop::ssh::{
    configure_ssh, configured_ssh_runtime, is_qualified_remote_helper_target, presented_key,
    SshConfigError, SshConfigFacts, MAX_HELPER_BYTES,
};
use hermito::authority::{AuthorityError, SshFault};
use hermito::authority::tuf_verifier::TufVerificationError;
use hermito::config::SshAuthorityConfig;
use hermito::document::WorkspaceEpoch;
use hermito::first_run::{ensure_initialized, is_first_run, KeptFiles, SetUp};
use hermito::protocol::request::{EnvironmentEpoch, ExecutionContextV1};

fn server(id: &str, associations: &[&str]) -> LanguageServerConfig {
    LanguageServerConfig {
        id: id.to_owned(),
        executable: format!("/usr/bin/{id}"),
        args: vec!["--stdio".to_owned()],
        version_probe_args: None,
        expected_version: Some("1.2".to_owned()),
        expected_digest: None,
        associations: associations.iter().map(|a| a.to_string()).collect(),
        per_context_overrides: vec![(
            "dev_container:box".to_owned(),
            LanguageServerOverride {
                executable: Some("/opt/inner".to_owned()),
                args: None,
                initialization_options: None,
            },
        )],
        initialization_options: None,
    }
}

#[test]
fn the_first_matching_server_wins() {
    let servers = vec![server("a", &["go"]), server("b", &["rust"]), server("c", &["rust"])];
    let serialized = vec![b"A".to_vec(), b"abc".to_vec(), b"C".to_vec()];
    let found = resolve_language_server(
        &servers,
        &serialized,
        "rust",
        None,
        &ExecutionContextV1::AuthorityRoot,
    )
    .unwrap();
    assert_eq!(found.id, "b");
    assert_eq!(found.effective.executable, "/usr/bin/b");
    assert_eq!(
        found.digest,
        "ba7816bf8f01cfea414140de5dae2223b00361a396177a9cb410ff61f20015ad"
    );
    assert!(resolve_language_server(
        &servers,
        &serialized,
        "python",
        None,
        &ExecutionContextV1::AuthorityRoot
    )
    .is_none());
}

#[test]
fn digests_are_lower_case_hexadecimal() {
    assert_eq!(
        lsp_config_digest(b""),
        "e3b0c44298fc1c149afbf4c8996fb92427ae41e4649b934ca495991b7852b855"
    );
}

#[test]
fn contexts_override_the_configuration() {
    let inside = ExecutionContextV1::DevContainer {
        container_id: "box".to_owned(),
        environment_epoch: EnvironmentEpoch(1),
    };
    let name = execution_context_name(&inside);
    let mut s = server("a", &["rust"]);
    s.per_context_overrides[0].0 = name;
    assert_eq!(effective_lsp_config(&s, &inside).executable, "/opt/inner");
    assert_eq!(effective_lsp_config(&s, &inside).args, vec!["--stdio"]);
    assert_eq!(
        effective_lsp_config(&s, &ExecutionContextV1::AuthorityRoot).executable,
        "/usr/bin/a"
    );
}

#[test]
fn associations_name_languages_and_files() {
    let path = "/w/src/main.rs".to_owned();
    assert!(association_matches("RUST", "rust", None));
    assert!(association_matches("*.rs", "plaintext", Some(&path)));
    assert!(association_matches("main.rs", "plaintext", Some(&path)));
    assert!(!association_matches("*.go", "plaintext", Some(&path)));
    assert!(!association_matches("*.rs", "plaintext", None));
}

#[test]
fn unknown_versions_of_the_configuration_are_refused() {
    let fresh = load(None).unwrap();
    assert_eq!((fresh.version, fresh.theme.as_str()), (1, "default"));
    let other = AppConfig {
        version: 2,
        theme: "x".to_owned(),
        ssh_authorities: vec![],
        language_servers: vec![],
    };
    assert_eq!(load(Some(other)).err(), Some(UnsupportedVersion(2)));
    assert_eq!(default_ssh_port(), 22);
}

#[test]
fn grants_are_found_after_they_are_given_and_gone_after_they_are_taken_back() {
    let none = TrustStore::load(None).unwrap();
    assert!(!TrustStore::is_granted(&none, "/w", "host"));
    let one = TrustStore::set_granted(none, "/w", "host", true);
    assert!(TrustStore::is_granted(&one, "/w", "host"));
    assert!(!TrustStore::is_granted(&one, "/w", "box"));
    assert!(!TrustStore::is_granted(&one, "/w2", "host"));
    let two = TrustStore::set_granted(one, "/w2", "box", true);
    let back = TrustStore::set_granted(two, "/w", "host", false);
    assert!(!TrustStore::is_granted(&back, "/w", "host"));
    assert!(TrustStore::is_granted(&back, "/w2", "box"));
    assert_eq!(back.records.len(), 1);
    let old = TrustRecords { version: 3, records: vec![] };
    let refused = TrustStore::load(Some(old)).err().unwrap();
    assert_eq!(refused, TrustStoreError::UnsupportedVersion(3));
    assert_eq!(refused.text(), "unsupported trust store version 3");
    assert_eq!(TrustStore::new("/c/trust.json".to_owned()).path(), "/c/trust.json");
}

const KEY: &str = "AAAAC3NzaC1lZDI1NTE5AAAAIAAB";
const FINGERPRINT: &str = "SHA256:9lw5Yqwe83nG8MmwwAMIcw3UL54FYcmHEMQWeqyQBIg";

fn candidate() -> HostKeyCandidate {
    HostKeyCandidate::parse(&format!("example.org ssh-ed25519 {KEY}")).unwrap()
}

#[test]
fn host_keys_have_the_fingerprints_of_openssh() {
    let c = candidate();
    assert_eq!(c.host_field, "example.org");
    assert_eq!(c.algorithm, "ssh-ed25519");
    assert_eq!(c.key_base64, KEY);
    assert_eq!(c.fingerprint, FINGERPRINT);
}

#[test]
fn malformed_host_keys_are_refused() {
    for line in [
        "example.org ssh-ed25519".to_owned(),
        format!("example.org ssh-dss {KEY}"),
        "example.org ssh-ed25519 ###".to_owned(),
        format!("example.org ssh-ed25519 {KEY} comment"),
    ] {
        assert_eq!(
            HostKeyCandidate::parse(&line).err(),
            Some(KnownHostsError::MalformedCandidate)
        );
    }
    let line = "h ssh-rsa k";
    assert!(HostKeyCandidate::with_key(line, Some(16384), "d").is_ok());
    assert_eq!(HostKeyCandidate::with_key(line, Some(16384), "d").unwrap().fingerprint, "SHA256:d");
    assert!(HostKeyCandidate::with_key(line, Some(16385), "d").is_err());
    assert!(HostKeyCandidate::with_key(line, None, "d").is_err());
}

#[test]
fn accepting_a_host_key_twice_changes_nothing_more() {
    let c = candidate();
    let first = KnownHostsStore::accept("# mine\n", "example.org", 2222, &c, FINGERPRINT)
        .unwrap()
        .unwrap();
    assert_eq!(first, format!("# mine\n[example.org]:2222 ssh-ed25519 {KEY}\n"));
    assert_eq!(
        KnownHostsStore::accept(&first, "example.org", 2222, &c, FINGERPRINT).unwrap(),
        None
    );
}

#[test]
fn changed_and_unexpected_host_keys_are_refused() {
    let c = candidate();
    assert_eq!(
        KnownHostsStore::accept("", "example.org", 22, &c, "SHA256:other").err(),
        Some(KnownHostsError::FingerprintMismatch)
    );
    let existing = "example.org ssh-ed25519 AAAA\n";
    assert_eq!(
        KnownHostsStore::accept(existing, "example.org", 22, &c, FINGERPRINT).err(),
        Some(KnownHostsError::HostKeyChanged("example.org".to_owned()))
    );
    assert_eq!(
        KnownHostsError::HostKeyChanged("example.org".to_owned()).text(),
        "SSH host key changed for example.org"
    );
}

#[test]
fn the_presented_key_is_the_one_with_the_fingerprint() {
    let keys = vec![
        HostKeyCandidate::with_key("h ssh-rsa k", Some(1), "one").unwrap(),
        candidate(),
    ];
    assert_eq!(presented_key(&keys, &FINGERPRINT.to_owned()), Ok(1));
    assert_eq!(
        presented_key(&keys, &"SHA256:none".to_owned()),
        Err("SSH host did not present configured fingerprint SHA256:none".to_owned())
    );
}

#[test]
fn remote_helper_target_allowlist_is_closed() {
    assert!(is_qualified_remote_helper_target(
        "hermito-remote-x86_64-unknown-linux-musl"
    ));
    assert!(is_qualified_remote_helper_target(
        "hermito-remote-aarch64-unknown-linux-musl"
    ));
    assert!(!is_qualified_remote_helper_target("hermito-remote"));
    assert!(!is_qualified_remote_helper_target(""));
}

fn ssh_config() -> SshAuthorityConfig {
    SshAuthorityConfig {
        label: "box".to_owned(),
        host: "example.org".to_owned(),
        port: 22,
        user: "me".to_owned(),
        root: "/srv/work".to_owned(),
        identity: "/home/me/.ssh/id".to_owned(),
        certificate: None,
        passphrase_required: true,
        host_fingerprint: FINGERPRINT.to_owned(),
        tuf_trusted_root: "/t/root.json".to_owned(),
        tuf_metadata_url: "https://example.org/metadata/".to_owned(),
        tuf_targets_url: "https://example.org/targets/".to_owned(),
        tuf_datastore: "/t/data".to_owned(),
        tuf_target_cache: "/t/cache".to_owned(),
        helper_target: "hermito-remote-x86_64-unknown-linux-musl".to_owned(),
        remote_helper_directory: "/tmp/helper".to_owned(),
    }
}

fn facts() -> SshConfigFacts {
    SshConfigFacts {
        bootstrap_fault: None,
        metadata_url: Some("https://example.org/m".to_owned()),
        targets_url: Some("https://example.org/t".to_owned()),
        policy_fault: None,
    }
}

#[test]
fn a_sound_configuration_makes_an_authority_without_trust() {
    let (label, runtime) =
        configured_ssh_runtime(ssh_config(), WorkspaceEpoch(5), None, None).unwrap();
    assert_eq!(label, "box");
    assert_eq!(runtime.authority.base.root, "/srv/work");
    assert_eq!(runtime.authority.base.workspace_epoch.0, 5);
    assert!(!runtime.authority.is_connected());
    assert_eq!(runtime.verifier.policy.max_target_bytes, MAX_HELPER_BYTES);
    assert_eq!(MAX_HELPER_BYTES, 64 * 1024 * 1024);
    assert!(!runtime.verifier.policy.allow_offline_cache);
    assert!(runtime.passphrase_required);
    let policy = &runtime.verifier.policy;
    assert_eq!(policy.trusted_root, "/t/root.json");
    assert_eq!(policy.datastore, "/t/data");
    assert_eq!(policy.metadata_base_url, "https://example.org/metadata/");
    assert_eq!(policy.targets_base_url, "https://example.org/targets/");
    assert_eq!(runtime.target.host, "example.org");
    assert_eq!(runtime.identity.private_key, "/home/me/.ssh/id");
}

#[test]
fn each_fault_of_an_ssh_configuration_is_told() {
    let epoch = WorkspaceEpoch(1);
    let fault = |config: SshAuthorityConfig, facts: SshConfigFacts| {
        configure_ssh(config, epoch, facts).err().unwrap()
    };
    let mut c = ssh_config();
    c.label = "x".repeat(65);
    assert_eq!(fault(c, facts()), SshConfigError::LabelLength);
    let mut c = ssh_config();
    c.label = String::new();
    assert_eq!(fault(c, facts()), SshConfigError::LabelLength);
    let mut c = ssh_config();
    c.host_fingerprint = "SHA256:".to_owned();
    assert_eq!(fault(c, facts()), SshConfigError::HostFingerprint);
    let mut c = ssh_config();
    c.helper_target = "evil".to_owned();
    assert_eq!(fault(c, facts()), SshConfigError::HelperTarget("evil".to_owned()));
    let mut c = ssh_config();
    c.tuf_trusted_root = "root".to_owned();
    assert_eq!(fault(c, facts()), SshConfigError::TrustedRootNotAbsolute);
    let mut c = ssh_config();
    c.tuf_datastore = "data".to_owned();
    assert_eq!(fault(c, facts()), SshConfigError::DatastoreNotAbsolute);
    let mut c = ssh_config();
    c.tuf_target_cache = "cache".to_owned();
    assert_eq!(fault(c, facts()), SshConfigError::TargetCacheNotAbsolute);
    let mut f = facts();
    f.bootstrap_fault = Some("no key".to_owned());
    assert_eq!(fault(ssh_config(), f), SshConfigError::Bootstrap("no key".to_owned()));
    let mut c = ssh_config();
    c.root = "work".to_owned();
    assert_eq!(
        fault(c, facts()),
        SshConfigError::Authority(AuthorityError::Ssh(SshFault::RootNotAbsolute))
    );
    let mut f = facts();
    f.metadata_url = None;
    assert_eq!(fault(ssh_config(), f), SshConfigError::MetadataUrl);
    let mut f = facts();
    f.targets_url = None;
    assert_eq!(fault(ssh_config(), f), SshConfigError::TargetsUrl);
    let mut f = facts();
    f.policy_fault = Some("too large");
    assert_eq!(
        fault(ssh_config(), f),
        SshConfigError::Policy(TufVerificationError::InvalidPolicy("too large"))
    );
    let mut c = ssh_config();
    c.tuf_metadata_url = "not a url".to_owned();
    assert_eq!(
        configured_ssh_runtime(c, epoch, None, None).err(),
        Some(SshConfigError::MetadataUrl)
    );
}

#[test]
fn a_first_run_writes_what_is_missing_once() {
    assert!(is_first_run(false));
    let before = KeptFiles { config: true, state: false, journal: false };
    assert_eq!(
        ensure_initialized(before),
        SetUp { write_config: false, write_state: true, write_journal: true }
    );
    let after = KeptFiles { config: true, state: true, journal: true };
    assert_eq!(
        ensure_initialized(after),
        SetUp { write_config: false, write_state: false, write_journal: false }
    );
}
