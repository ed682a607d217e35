//! The configuration of the user: authorities and language servers.
use vstd::prelude::*;

use crate::encoding::{hex_encode, hex_text, sha256, sha256_of};
use crate::path::{extension, file_name, last_name, path_extension};
use crate::protocol::request::{ContextView, ExecutionContextV1};
use crate::text::{chars_of, str_eq};
use crate::words::{
    begins_with, chars_eq_ignoring_case, eq_ignoring_case, join2, same_ignoring_case, starts_with,
    sub_chars,
};

pub mod known_hosts;
pub mod trust;

verus! {

/// The configuration file.
#[derive(Debug)]
pub struct AppConfig {
    pub version: u32,
    pub theme: String,
    pub ssh_authorities: Vec<SshAuthorityConfig>,
    pub language_servers: Vec<LanguageServerConfig>,
}

/// A machine that is reached over SSH, and where its helper comes from.
#[derive(Debug)]
pub struct SshAuthorityConfig {
    pub label: String,
    pub host: String,
    pub port: u16,
    pub user: String,
    pub root: String,
    pub identity: String,
    pub certificate: Option<String>,
    pub passphrase_required: bool,
    pub host_fingerprint: String,
    pub tuf_trusted_root: String,
    pub tuf_metadata_url: String,
    pub tuf_targets_url: String,
    pub tuf_datastore: String,
    pub tuf_target_cache: String,
    pub helper_target: String,
    pub remote_helper_directory: String,
}

/// A language server: how it is run, and for what. The initialization options
/// are JSON text.
#[derive(Debug)]
pub struct LanguageServerConfig {
    pub id: String,
    pub executable: String,
    pub args: Vec<String>,
    pub version_probe_args: Option<Vec<String>>,
    pub expected_version: Option<String>,
    pub expected_digest: Option<String>,
    pub associations: Vec<String>,
    /// What differs in a context, under the name of that context; each name once.
    pub per_context_overrides: Vec<(String, LanguageServerOverride)>,
    pub initialization_options: Option<String>,
}

/// What differs of a language server in one context.
#[derive(Debug)]
pub struct LanguageServerOverride {
    pub executable: Option<String>,
    pub args: Option<Vec<String>>,
    pub initialization_options: Option<String>,
}

/// A language server as it is run in one context.
#[derive(Debug, PartialEq, Eq)]
pub struct EffectiveLspConfig {
    pub executable: String,
    pub args: Vec<String>,
    pub version_probe_args: Option<Vec<String>>,
    pub expected_version: Option<String>,
    pub expected_digest: Option<String>,
    pub initialization_options: Option<String>,
}

/// A language server chosen for a document, with the digest that grants are bound
/// to.
#[derive(Debug, PartialEq, Eq)]
pub struct ResolvedLanguageServerConfig {
    pub id: String,
    pub effective: EffectiveLspConfig,
    pub digest: String,
}

pub const CONFIG_VERSION: u32 = 1;

pub const DEFAULT_SSH_PORT: u16 = 22;

/// The port of an SSH authority that names none.
pub fn default_ssh_port() -> (port: u16)
    ensures
        port == 22,
{
    DEFAULT_SSH_PORT
}

/// A configuration of another version than this one.
#[derive(Clone, Copy, Debug, PartialEq, Eq, Structural)]
pub struct UnsupportedVersion(pub u32);

impl AppConfig {
    /// The configuration that is written on the first run.
    pub fn default_first_run() -> (config: Self)
        ensures
            config.version == 1,
            config.theme@ == "default"@,
            config.ssh_authorities@.len() == 0,
            config.language_servers@.len() == 0,
    {
        AppConfig {
            version: CONFIG_VERSION,
            theme: "default".to_owned(),
            ssh_authorities: Vec::new(),
            language_servers: Vec::new(),
        }
    }
}

/// The configuration that was read: the one of the first run if there is no
/// file, and else that of the file, if its version is known.
pub fn load(file: Option<AppConfig>) -> (r: Result<AppConfig, UnsupportedVersion>)
    ensures
        match file {
            None => r is Ok && r->Ok_0.version == 1 && r->Ok_0.theme@ == "default"@
                && r->Ok_0.ssh_authorities@.len() == 0 && r->Ok_0.language_servers@.len() == 0,
            Some(config) => r == if config.version == 1 {
                Ok::<AppConfig, UnsupportedVersion>(config)
            } else {
                Err::<AppConfig, UnsupportedVersion>(UnsupportedVersion(config.version))
            },
        },
{
    match file {
        None => Ok(AppConfig::default_first_run()),
        Some(config) => {
            if config.version != CONFIG_VERSION {
                return Err(UnsupportedVersion(config.version));
            }
            Ok(config)
        },
    }
}

/// The digest of a serialized server configuration: SHA-256 in lower case
/// hexadecimal.
pub open spec fn config_digest(serialized: Seq<u8>) -> Seq<char> {
    hex_text(sha256_of(serialized))
}

/// The digest of a serialized server configuration.
pub fn lsp_config_digest(serialized: &[u8]) -> (digest: String)
    ensures
        digest@ == config_digest(serialized@),
{
    hex_encode(sha256(serialized).as_slice())
}

/// A copy of several strings.
pub fn clone_strings(v: &Vec<String>) -> (out: Vec<String>)
    ensures
        out@ == v@,
{
    let mut out: Vec<String> = Vec::new();
    for i in 0..v.len()
        invariant
            out@ == v@.take(i as int),
    {
        out.push(v[i].clone());
        assert(out@ =~= v@.take(i + 1));
    }
    assert(out@ =~= v@);
    out
}

/// A copy of an optional string.
pub fn clone_text(s: &Option<String>) -> (out: Option<String>)
    ensures
        out == *s,
{
    match s {
        Some(t) => Some(t.clone()),
        None => None,
    }
}

/// The strings of an optional list.
pub open spec fn opt_strings(v: Option<Vec<String>>) -> Option<Seq<String>> {
    match v {
        Some(s) => Some(s@),
        None => None,
    }
}

fn clone_opt_strings(v: &Option<Vec<String>>) -> (out: Option<Vec<String>>)
    ensures
        opt_strings(out) == opt_strings(*v),
{
    match v {
        Some(s) => Some(clone_strings(s)),
        None => None,
    }
}

/// Whether a server is run as its configuration says, without any override.
pub open spec fn runs_as_configured(e: EffectiveLspConfig, s: LanguageServerConfig) -> bool {
    &&& e.executable == s.executable
    &&& e.args@ == s.args@
    &&& opt_strings(e.version_probe_args) == opt_strings(s.version_probe_args)
    &&& e.expected_version == s.expected_version
    &&& e.expected_digest == s.expected_digest
    &&& e.initialization_options == s.initialization_options
}

/// The server as its configuration says, without any override.
pub fn effective_lsp_config_from_spec(server: &LanguageServerConfig) -> (e: EffectiveLspConfig)
    ensures
        runs_as_configured(e, *server),
{
    EffectiveLspConfig {
        executable: server.executable.clone(),
        args: clone_strings(&server.args),
        version_probe_args: clone_opt_strings(&server.version_probe_args),
        expected_version: clone_text(&server.expected_version),
        expected_digest: clone_text(&server.expected_digest),
        initialization_options: clone_text(&server.initialization_options),
    }
}

/// The name of an execution context in the configuration.
pub open spec fn context_name(context: ContextView) -> Seq<char> {
    match context {
        ContextView::AuthorityRoot => "authority-root"@,
        ContextView::DevContainer { container_id, .. } => "dev-container:"@ + container_id,
    }
}

/// The name of an execution context in the configuration.
pub fn execution_context_name(context: &ExecutionContextV1) -> (name: String)
    ensures
        name@ == context_name(context@),
{
    match context {
        ExecutionContextV1::AuthorityRoot => "authority-root".to_owned(),
        ExecutionContextV1::DevContainer { container_id, .. } => join2(
            "dev-container:",
            container_id.as_str(),
        ),
    }
}

/// The override under a name, from index `i` on.
pub open spec fn override_from(
    overrides: Seq<(String, LanguageServerOverride)>,
    name: Seq<char>,
    i: int,
) -> Option<LanguageServerOverride>
    decreases overrides.len() - i,
{
    if i >= overrides.len() {
        None
    } else if overrides[i].0@ == name {
        Some(overrides[i].1)
    } else {
        override_from(overrides, name, i + 1)
    }
}

/// Whether a server is run as its configuration says for a context: what the
/// override of the context gives comes before what the server gives.
pub open spec fn runs_in_context(
    e: EffectiveLspConfig,
    s: LanguageServerConfig,
    context: ContextView,
) -> bool {
    match override_from(s.per_context_overrides@, context_name(context), 0) {
        None => runs_as_configured(e, s),
        Some(o) => {
            &&& e.executable == match o.executable {
                Some(x) => x,
                None => s.executable,
            }
            &&& e.args@ == match o.args {
                Some(x) => x@,
                None => s.args@,
            }
            &&& opt_strings(e.version_probe_args) == opt_strings(s.version_probe_args)
            &&& e.expected_version == s.expected_version
            &&& e.expected_digest == s.expected_digest
            &&& e.initialization_options == match o.initialization_options {
                Some(x) => Some(x),
                None => s.initialization_options,
            }
        },
    }
}

/// The server as it is run in a context.
pub fn effective_lsp_config(server: &LanguageServerConfig, context: &ExecutionContextV1) -> (e:
    EffectiveLspConfig)
    ensures
        runs_in_context(e, *server, context@),
{
    let name = execution_context_name(context);
    let mut e = effective_lsp_config_from_spec(server);
    let mut i: usize = 0;
    while i < server.per_context_overrides.len()
        invariant
            name@ == context_name(context@),
            i <= server.per_context_overrides@.len(),
            runs_as_configured(e, *server),
            override_from(server.per_context_overrides@, name@, 0) == override_from(
                server.per_context_overrides@,
                name@,
                i as int,
            ),
        decreases server.per_context_overrides@.len() - i,
    {
        let entry = &server.per_context_overrides[i];
        if entry.0 == name {
            if let Some(x) = &entry.1.executable {
                e.executable = x.clone();
            }
            if let Some(x) = &entry.1.args {
                e.args = clone_strings(x);
            }
            if let Some(x) = &entry.1.initialization_options {
                e.initialization_options = Some(x.clone());
            }
            return e;
        }
        i += 1;
    }
    e
}

/// Whether an association fits a document: the language, the extension after
/// `*.` or `.`, both in any case of the letters, or the file name.
pub open spec fn association_fits(
    association: Seq<char>,
    language: Seq<char>,
    path: Option<Seq<char>>,
) -> bool {
    ||| same_ignoring_case(association, language)
    ||| path is Some && path_extension(path->0) is Some && {
        let ext = path_extension(path->0)->0;
        ||| begins_with(association, "*."@) && same_ignoring_case(association.skip(2), ext)
        ||| begins_with(association, "."@) && same_ignoring_case(association.skip(1), ext)
    }
    ||| path is Some && last_name(path->0) == Some(association)
}

/// The optional text of an optional reference.
pub open spec fn opt_ref_text(s: Option<&String>) -> Option<Seq<char>> {
    match s {
        Some(t) => Some(t@),
        None => None,
    }
}

/// Whether what follows the first `n` characters is an extension.
fn rest_is(association: &str, n: usize, ext: &str) -> (yes: bool)
    requires
        n <= association@.len(),
    ensures
        yes == same_ignoring_case(association@.skip(n as int), ext@),
{
    let chars = chars_of(association);
    let len: usize = chars.len();
    let rest = sub_chars(&chars, n, len);
    assert(rest@ =~= association@.skip(n as int));
    chars_eq_ignoring_case(&rest, &chars_of(ext))
}

/// Whether an association fits a document.
pub fn association_matches(association: &str, language: &str, path: Option<&String>) -> (yes: bool)
    ensures
        yes == association_fits(association@, language@, opt_ref_text(path)),
{
    if eq_ignoring_case(association, language) {
        return true;
    }
    let path = match path {
        Some(path) => path,
        None => return false,
    };
    proof {
        reveal_strlit("*.");
        reveal_strlit(".");
    }
    if let Some(ext) = extension(path.as_str()) {
        if starts_with(association, "*.") && rest_is(association, 2, ext.as_str()) {
            return true;
        }
        if starts_with(association, ".") && rest_is(association, 1, ext.as_str()) {
            return true;
        }
    }
    match file_name(path.as_str()) {
        Some(name) => str_eq(association, name.as_str()),
        None => false,
    }
}

/// Whether one of the associations of a server fits a document.
pub open spec fn server_fits(
    server: LanguageServerConfig,
    language: Seq<char>,
    path: Option<Seq<char>>,
) -> bool {
    exists|j: int|
        0 <= j < server.associations@.len() && association_fits(
            #[trigger] server.associations@[j]@,
            language,
            path,
        )
}

/// The first server, from index `i` on, that fits a document; the number of
/// servers if none does.
pub open spec fn server_from(
    servers: Seq<LanguageServerConfig>,
    language: Seq<char>,
    path: Option<Seq<char>>,
    i: int,
) -> int
    decreases servers.len() - i,
{
    if i >= servers.len() {
        servers.len() as int
    } else if server_fits(servers[i], language, path) {
        i
    } else {
        server_from(servers, language, path, i + 1)
    }
}

fn any_association(server: &LanguageServerConfig, language: &str, path: Option<&String>) -> (yes:
    bool)
    ensures
        yes == server_fits(*server, language@, opt_ref_text(path)),
{
    for j in 0..server.associations.len()
        invariant
            forall|k: int|
                0 <= k < j ==> !association_fits(
                    #[trigger] server.associations@[k]@,
                    language@,
                    opt_ref_text(path),
                ),
    {
        if association_matches(server.associations[j].as_str(), language, path) {
            assert(association_fits(
                server.associations@[j as int]@,
                language@,
                opt_ref_text(path),
            ));
            return true;
        }
    }
    false
}

/// The server of a document: the first one in the order of the configuration with
/// an association that fits. Beside each server stands its serialized effective
/// configuration for the context, from which the digest is taken.
pub fn resolve_language_server(
    servers: &Vec<LanguageServerConfig>,
    serialized: &Vec<Vec<u8>>,
    language: &str,
    path: Option<&String>,
    context: &ExecutionContextV1,
) -> (r: Option<ResolvedLanguageServerConfig>)
    requires
        serialized@.len() == servers@.len(),
    ensures
        ({
            let i = server_from(servers@, language@, opt_ref_text(path), 0);
            match r {
                None => i >= servers@.len(),
                Some(found) => {
                    &&& 0 <= i < servers@.len()
                    &&& found.id == servers@[i].id
                    &&& runs_in_context(found.effective, servers@[i], context@)
                    &&& found.digest@ == config_digest(serialized@[i]@)
                },
            }
        }),
{
    let mut i: usize = 0;
    while i < servers.len()
        invariant
            i <= servers@.len(),
            serialized@.len() == servers@.len(),
            server_from(servers@, language@, opt_ref_text(path), 0) == server_from(
                servers@,
                language@,
                opt_ref_text(path),
                i as int,
            ),
        decreases servers@.len() - i,
    {
        if any_association(&servers[i], language, path) {
            return Some(
                ResolvedLanguageServerConfig {
                    id: servers[i].id.clone(),
                    effective: effective_lsp_config(&servers[i], context),
                    digest: lsp_config_digest(serialized[i].as_slice()),
                },
            );
        }
        i += 1;
    }
    None
}

/// The server of a document is the first in the order of the configuration that fits
/// it; there is none only where no server fits.
pub proof fn first_fitting_server_is_chosen(
    servers: Seq<LanguageServerConfig>,
    language: Seq<char>,
    path: Option<Seq<char>>,
    i: int,
)
    requires
        0 <= i <= servers.len(),
    ensures
        i <= server_from(servers, language, path, i) <= servers.len(),
        server_from(servers, language, path, i) < servers.len() ==> exists|j: int|
            0 <= j < servers[server_from(servers, language, path, i)].associations@.len()
                && association_fits(
                #[trigger] servers[server_from(servers, language, path, i)].associations@[j]@,
                language,
                path,
            ),
        forall|k: int, j: int|
            #![trigger servers[k].associations@[j]]
            i <= k < server_from(servers, language, path, i) && 0 <= j
                < servers[k].associations@.len() ==> !association_fits(
                servers[k].associations@[j]@,
                language,
                path,
            ),
    decreases servers.len() - i,
{
    if i < servers.len() && !server_fits(servers[i], language, path) {
        first_fitting_server_is_chosen(servers, language, path, i + 1);
    }
}

/// An association fits a document by its language, by the extension of its file after
/// `*.` or `.`, in either case of the letters, and by the name of its file. A document
/// without a file is fitted by its language alone.
pub proof fn associations_fit_in_three_ways(
    association: Seq<char>,
    language: Seq<char>,
    path: Seq<char>,
    ext: Seq<char>,
    name: Seq<char>,
)
    ensures
        association_fits(language, language, Some(path)),
        association_fits(language, language, None),
        association_fits(association, language, None) <==> same_ignoring_case(
            association,
            language,
        ),
        path_extension(path) == Some(ext) ==> association_fits("*."@ + ext, language, Some(path)),
        path_extension(path) == Some(ext) ==> association_fits("."@ + ext, language, Some(path)),
        last_name(path) == Some(name) ==> association_fits(name, language, Some(path)),
        association_fits(association, language, Some(path)) ==> same_ignoring_case(
            association,
            language,
        ) || last_name(path) == Some(association) || (path_extension(path) matches Some(e) && (
        begins_with(association, "*."@) || begins_with(association, "."@))),
{
    reveal_strlit("*.");
    reveal_strlit(".");
    let star = "*."@ + ext;
    let dot = "."@ + ext;
    assert(star.take(2) =~= "*."@);
    assert(star.skip(2) =~= ext);
    assert(dot.take(1) =~= "."@);
    assert(dot.skip(1) =~= ext);
}

/// The override under the name of a context counts before what the server says, each
/// value by itself; what it does not give, and what no override can give, is what the
/// server says.
pub proof fn overrides_count_first(
    e: EffectiveLspConfig,
    s: LanguageServerConfig,
    context: ContextView,
    at: int,
)
    requires
        runs_in_context(e, s, context),
        0 <= at < s.per_context_overrides@.len(),
        s.per_context_overrides@[at].0@ == context_name(context),
        forall|j: int|
            0 <= j < at ==> (#[trigger] s.per_context_overrides@[j]).0@ != context_name(context),
    ensures
        ({
            let o = s.per_context_overrides@[at].1;
            &&& o.executable matches Some(x) ==> e.executable == x
            &&& o.executable is None ==> e.executable == s.executable
            &&& o.args matches Some(x) ==> e.args@ == x@
            &&& o.args is None ==> e.args@ == s.args@
            &&& o.initialization_options matches Some(x) ==> e.initialization_options == Some(x)
            &&& o.initialization_options is None ==> e.initialization_options
                == s.initialization_options
            &&& e.expected_version == s.expected_version
            &&& e.expected_digest == s.expected_digest
        }),
{
    lemma_override_at(s.per_context_overrides@, context_name(context), at, 0);
}

proof fn lemma_override_at(
    overrides: Seq<(String, LanguageServerOverride)>,
    name: Seq<char>,
    at: int,
    i: int,
)
    requires
        0 <= i <= at < overrides.len(),
        overrides[at].0@ == name,
        forall|j: int| 0 <= j < at ==> (#[trigger] overrides[j]).0@ != name,
    ensures
        override_from(overrides, name, i) == Some(overrides[at].1),
    decreases at - i,
{
    if i < at {
        assert(overrides[i].0@ != name);
        lemma_override_at(overrides, name, at, i + 1);
    }
}

/// Without an override under the name of a context, a server is run as it is
/// configured.
pub proof fn servers_run_as_configured_elsewhere(
    e: EffectiveLspConfig,
    s: LanguageServerConfig,
    context: ContextView,
)
    requires
        runs_in_context(e, s, context),
        forall|j: int|
            0 <= j < s.per_context_overrides@.len() ==> (
            #[trigger] s.per_context_overrides@[j]).0@ != context_name(context),
    ensures
        e.executable == s.executable,
        e.args@ == s.args@,
        e.initialization_options == s.initialization_options,
        e.expected_version == s.expected_version,
        e.expected_digest == s.expected_digest,
{
    lemma_no_override(s.per_context_overrides@, context_name(context), 0);
}

proof fn lemma_no_override(
    overrides: Seq<(String, LanguageServerOverride)>,
    name: Seq<char>,
    i: int,
)
    requires
        0 <= i <= overrides.len(),
        forall|j: int| 0 <= j < overrides.len() ==> (#[trigger] overrides[j]).0@ != name,
    ensures
        override_from(overrides, name, i) is None,
    decreases overrides.len() - i,
{
    if i < overrides.len() {
        assert(overrides[i].0@ != name);
        lemma_no_override(overrides, name, i + 1);
    }
}

/// An extension is associated in either case of its letters.
pub proof fn extensions_fit_in_either_case(
    given: Seq<char>,
    ext: Seq<char>,
    language: Seq<char>,
    path: Seq<char>,
)
    requires
        path_extension(path) == Some(ext),
        same_ignoring_case(given, ext),
    ensures
        association_fits("*."@ + given, language, Some(path)),
        association_fits("."@ + given, language, Some(path)),
{
    reveal_strlit("*.");
    reveal_strlit(".");
    let star = "*."@ + given;
    let dot = "."@ + given;
    assert(star.take(2) =~= "*."@);
    assert(star.skip(2) =~= given);
    assert(dot.take(1) =~= "."@);
    assert(dot.skip(1) =~= given);
}

} // verus!
