//! Downloads that are checked before they are used: how much may come, where it
//! is kept, and whether what is kept is still what was checked.
use vstd::prelude::*;

use super::ssh::copy_bytes;
use crate::encoding::{hex_encode, hex_text, sha256, sha256_of};
use crate::path::{join, joined};
use crate::text::{chars_of, string_of};
use crate::words::{
    decimal, decimal_text, join2, join3, join4, path_quoted, quoted, quoted_path, quoted_text,
};

verus! {

#[derive(Debug, PartialEq, Eq)]
pub struct VerifiedTarget {
    pub name: String,
    pub path: String,
    pub length: u64,
    pub sha256_hex: String,
}

#[derive(Debug, PartialEq, Eq)]
#[allow(inconsistent_fields)]
pub enum TufVerificationError {
    InvalidPolicy(&'static str),
    Role { role: &'static str, detail: String },
    Metadata { online: String, offline: Option<String> },
    TargetName(String),
    TargetMissing(String),
    Target { name: String, detail: String },
    TargetTooLarge { name: String, limit: u64 },
    HashMismatch {
        path: String,
        expected_length: u64,
        actual_length: u64,
        expected_sha256: String,
        actual_sha256: String,
    },
    Io(String),
}

/// An optional text as it is shown for inspection.
pub open spec fn shown_option(text: Option<String>) -> Seq<char> {
    match text {
        Some(t) => "Some("@ + quoted(t@) + ")"@,
        None => "None"@,
    }
}

fn show_option(text: &Option<String>) -> (out: String)
    ensures
        out@ == shown_option(*text),
{
    match text {
        Some(t) => {
            let inner = quoted_text(t.as_str());
            join3("Some(", inner.as_str(), ")")
        },
        None => "None".to_owned(),
    }
}

/// What an error says.
pub open spec fn tuf_error_text(error: TufVerificationError) -> Seq<char> {
    match error {
        TufVerificationError::InvalidPolicy(fault) => "invalid TUF policy: "@ + fault@,
        TufVerificationError::Role { role, detail } => "TUF "@ + role@ + " verification failed: "@
            + detail@,
        TufVerificationError::Metadata { online, offline } =>
            "TUF metadata verification failed online: "@ + online@ + "; offline: "@ + shown_option(
            offline,
        ),
        TufVerificationError::TargetName(fault) => "invalid TUF target name: "@ + fault@,
        TufVerificationError::TargetMissing(name) => "TUF target not found: "@ + name@,
        TufVerificationError::Target { name, detail } => "TUF target "@ + name@
            + " verification failed: "@ + detail@,
        TufVerificationError::TargetTooLarge { name, limit } => "TUF target "@ + name@
            + " exceeds byte limit "@ + decimal(limit as nat),
        TufVerificationError::HashMismatch {
            path,
            expected_length,
            actual_length,
            expected_sha256,
            actual_sha256,
        } => "verified target changed at "@ + path_quoted(path@) + ": length "@ + decimal(
            actual_length as nat,
        ) + "/"@ + decimal(expected_length as nat) + ", sha256 "@ + actual_sha256@ + "/"@
            + expected_sha256@,
        TufVerificationError::Io(fault) => "TUF storage I/O failed: "@ + fault@,
    }
}

impl TufVerificationError {
    pub fn text(&self) -> (text: String)
        ensures
            text@ == tuf_error_text(*self),
    {
        match self {
            TufVerificationError::InvalidPolicy(fault) => join2("invalid TUF policy: ", fault),
            TufVerificationError::Role { role, detail } => join4(
                "TUF ",
                role,
                " verification failed: ",
                detail.as_str(),
            ),
            TufVerificationError::Metadata { online, offline } => {
                let offline = show_option(offline);
                join4(
                    "TUF metadata verification failed online: ",
                    online.as_str(),
                    "; offline: ",
                    offline.as_str(),
                )
            },
            TufVerificationError::TargetName(fault) => join2(
                "invalid TUF target name: ",
                fault.as_str(),
            ),
            TufVerificationError::TargetMissing(name) => join2(
                "TUF target not found: ",
                name.as_str(),
            ),
            TufVerificationError::Target { name, detail } => join4(
                "TUF target ",
                name.as_str(),
                " verification failed: ",
                detail.as_str(),
            ),
            TufVerificationError::TargetTooLarge { name, limit } => {
                let limit = decimal_text(*limit);
                join4("TUF target ", name.as_str(), " exceeds byte limit ", limit.as_str())
            },
            TufVerificationError::HashMismatch {
                path,
                expected_length,
                actual_length,
                expected_sha256,
                actual_sha256,
            } => {
                let path = quoted_path(path.as_str());
                let mut text = join3("verified target changed at ", path.as_str(), ": length ");
                text.push_str(decimal_text(*actual_length).as_str());
                text.push_str("/");
                text.push_str(decimal_text(*expected_length).as_str());
                text.push_str(", sha256 ");
                text.push_str(actual_sha256.as_str());
                text.push_str("/");
                text.push_str(expected_sha256.as_str());
                text
            },
            TufVerificationError::Io(fault) => join2("TUF storage I/O failed: ", fault.as_str()),
        }
    }
}

/// Where downloads come from, what they are trusted by, what bounds them and where
/// they are kept.
#[derive(Debug, PartialEq, Eq)]
pub struct TufPolicy {
    pub trusted_root: String,
    pub metadata_base_url: String,
    pub targets_base_url: String,
    pub datastore: String,
    pub target_cache: String,
    pub offline_metadata_url: Option<String>,
    pub offline_targets_url: Option<String>,
    pub allow_offline_cache: bool,
    pub max_target_bytes: u64,
}

/// Downloads under a policy.
#[derive(Debug, PartialEq, Eq)]
pub struct TufVerifier {
    pub policy: TufPolicy,
}

impl TufVerifier {
    /// Takes over a policy, unless something is wrong with it.
    pub fn new(policy: TufPolicy, fault: Option<&'static str>) -> (r: Result<
        Self,
        TufVerificationError,
    >)
        ensures
            r == match fault {
                Some(text) => Err::<Self, TufVerificationError>(
                    TufVerificationError::InvalidPolicy(text),
                ),
                None => Ok::<Self, TufVerificationError>(TufVerifier { policy }),
            },
    {
        match fault {
            Some(text) => Err(TufVerificationError::InvalidPolicy(text)),
            None => Ok(TufVerifier { policy }),
        }
    }
}

/// The character that stands for another one in a file name.
pub open spec fn safe_char(c: char) -> char {
    if 'a' <= c <= 'z' || 'A' <= c <= 'Z' || '0' <= c <= '9' || c == '-' || c == '_' || c == '.' {
        c
    } else {
        '_'
    }
}

/// A name with every character that is not a letter, a digit, `-`, `_` or `.` of
/// ASCII replaced by `_`.
pub open spec fn safe_name(name: Seq<char>) -> Seq<char> {
    name.map_values(|c: char| safe_char(c))
}

/// A name that can stand in a file name.
pub fn sanitize_name(name: &str) -> (safe: String)
    ensures
        safe@ == safe_name(name@),
{
    let chars = chars_of(name);
    let mut out: Vec<char> = Vec::new();
    for i in 0..chars.len()
        invariant
            chars@ == name@,
            out@.len() == i,
            forall|k: int| 0 <= k < i ==> #[trigger] out@[k] == safe_char(chars@[k]),
    {
        let c = chars[i];
        if ('a' <= c && c <= 'z') || ('A' <= c && c <= 'Z') || ('0' <= c && c <= '9') || c == '-'
            || c == '_' || c == '.' {
            out.push(c);
        } else {
            out.push('_');
        }
    }
    assert(out@ =~= safe_name(name@));
    string_of(out.as_slice())
}

/// A safe name never leaves the directory that it is put in, and making it safe
/// again changes nothing.
pub proof fn safe_names_stay_in_place(name: Seq<char>)
    ensures
        !safe_name(name).contains('/'),
        !safe_name(name).contains('\0'),
        safe_name(safe_name(name)) == safe_name(name),
        safe_name(name).len() == name.len(),
{
    assert forall|i: int| 0 <= i < name.len() implies #[trigger] safe_name(name)[i] != '/'
        && safe_name(name)[i] != '\0' by {}
    assert(safe_name(safe_name(name)) =~= safe_name(name));
}

/// The offline copies that are tried when the metadata could not be loaded online, or
/// the reason why there are none to try.
pub open spec fn offline_choice(policy: TufPolicy, online: String) -> Result<
    (String, String),
    TufVerificationError,
> {
    if !policy.allow_offline_cache {
        Err(TufVerificationError::Metadata { online, offline: None })
    } else {
        match (policy.offline_metadata_url, policy.offline_targets_url) {
            (None, _) => Err(TufVerificationError::InvalidPolicy("offline metadata URL missing")),
            (Some(_), None) => Err(
                TufVerificationError::InvalidPolicy("offline targets URL missing"),
            ),
            (Some(m), Some(t)) => Ok((m, t)),
        }
    }
}

/// What to do when the metadata could not be loaded online: the offline copies, or
/// the reason why there are none to try.
pub fn offline_sources(policy: &TufPolicy, online_error: String) -> (r: Result<
    (String, String),
    TufVerificationError,
>)
    ensures
        r == offline_choice(*policy, online_error),
{
    if !policy.allow_offline_cache {
        return Err(TufVerificationError::Metadata { online: online_error, offline: None });
    }
    match &policy.offline_metadata_url {
        None => Err(TufVerificationError::InvalidPolicy("offline metadata URL missing")),
        Some(metadata) => match &policy.offline_targets_url {
            None => Err(TufVerificationError::InvalidPolicy("offline targets URL missing")),
            Some(targets) => Ok((metadata.clone(), targets.clone())),
        },
    }
}

/// Where a download goes before it is checked. `id` makes the name unique.
pub fn temporary_place(policy: &TufPolicy, target_name: &str, id: &str) -> (place: String)
    ensures
        place@ == joined(
            policy.target_cache@,
            "."@ + safe_name(target_name@) + "."@ + id@ + ".tmp"@,
        ),
{
    let mut name = join3(".", sanitize_name(target_name).as_str(), ".");
    name.push_str(id);
    name.push_str(".tmp");
    join(policy.target_cache.as_str(), name.as_str())
}

/// Where a download with a digest is kept.
pub open spec fn kept_place(cache: Seq<char>, name: Seq<char>, sha256_hex: Seq<char>) -> Seq<char> {
    joined(cache, safe_name(name) + "-"@ + sha256_hex)
}

/// Where a download with a digest is kept.
pub fn final_place(policy: &TufPolicy, target_name: &str, sha256_hex: &str) -> (place: String)
    ensures
        place@ == kept_place(policy.target_cache@, target_name@, sha256_hex@),
{
    let name = join3(sanitize_name(target_name).as_str(), "-", sha256_hex);
    join(policy.target_cache.as_str(), name.as_str())
}

/// The length of a download with another chunk, unless it is more than may come.
pub fn count_chunk(policy: &TufPolicy, target_name: &String, length: u64, chunk: u64) -> (r:
    Result<u64, TufVerificationError>)
    ensures
        r == if length + chunk <= policy.max_target_bytes {
            Ok::<u64, TufVerificationError>((length + chunk) as u64)
        } else {
            Err::<u64, TufVerificationError>(
                TufVerificationError::TargetTooLarge {
                    name: *target_name,
                    limit: policy.max_target_bytes,
                },
            )
        },
{
    match length.checked_add(chunk) {
        Some(total) => if total <= policy.max_target_bytes {
            Ok(total)
        } else {
            Err(
                TufVerificationError::TargetTooLarge {
                    name: target_name.clone(),
                    limit: policy.max_target_bytes,
                },
            )
        },
        None => Err(
            TufVerificationError::TargetTooLarge {
                name: target_name.clone(),
                limit: policy.max_target_bytes,
            },
        ),
    }
}

/// Checks that a file is what it is expected to be: its length and its SHA-256
/// digest.
pub fn verify_file(
    path: &String,
    content: &[u8],
    expected_length: u64,
    expected_sha256: &String,
) -> (r: Result<(), TufVerificationError>)
    ensures
        r is Ok <==> content@.len() == expected_length && hex_text(sha256_of(content@))
            == expected_sha256@,
        r is Err ==> (r->Err_0 matches TufVerificationError::HashMismatch {
            path: p,
            expected_length: el,
            actual_length: al,
            expected_sha256: es,
            actual_sha256: xs,
        } && p == *path && el == expected_length && al == content@.len() && es == *expected_sha256
            && xs@ == hex_text(sha256_of(content@))),
{
    let actual = hex_encode(sha256(content).as_slice());
    check_file(path, content.len() as u64, actual, expected_length, expected_sha256)
}

/// Checks the length and the SHA-256 digest of a file against those that are
/// expected.
pub fn check_file(
    path: &String,
    actual_length: u64,
    actual_sha256: String,
    expected_length: u64,
    expected_sha256: &String,
) -> (r: Result<(), TufVerificationError>)
    ensures
        if actual_length == expected_length && actual_sha256@ == expected_sha256@ {
            r is Ok
        } else {
            r == Err::<(), TufVerificationError>(
                TufVerificationError::HashMismatch {
                    path: *path,
                    expected_length,
                    actual_length,
                    expected_sha256: *expected_sha256,
                    actual_sha256,
                },
            )
        },
{
    if actual_length != expected_length || actual_sha256 != *expected_sha256 {
        return Err(
            TufVerificationError::HashMismatch {
                path: path.clone(),
                expected_length,
                actual_length,
                expected_sha256: expected_sha256.clone(),
                actual_sha256,
            },
        );
    }
    Ok(())
}

/// How far a download has come.
#[derive(Clone, Copy, Debug, PartialEq, Eq, Structural)]
pub enum VerifyPhase {
    ReadingRoot,
    MakingDatastore,
    MakingCache,
    LoadingOnline,
    LoadingOffline,
    Finding,
    Creating,
    Receiving,
    Writing,
    Syncing,
    /// Looking whether something is kept in the place of the download.
    Looking,
    /// Checking what is kept there.
    Checking,
    /// Removing what is kept there, since it has changed.
    Clearing,
    LookingAgain,
    Moving,
    Dropping,
    /// Checking what is in the place of the download in the end.
    Rechecking,
    Ended,
}

/// A download of one target under a policy.
#[derive(Debug, PartialEq, Eq)]
pub struct VerifyTask {
    pub name: String,
    /// Where the download goes before it is checked.
    pub temp: String,
    /// What has come of it.
    pub content: Vec<u8>,
    /// Why the metadata could not be loaded online.
    pub online_error: String,
    /// The digest of the download and its place, once it is complete.
    pub sha256_hex: String,
    pub place: String,
    pub phase: VerifyPhase,
}

/// What became of the last step.
#[derive(Debug, PartialEq, Eq)]
pub enum VerifyNews {
    Done,
    Failed(String),
    /// The name of the target is no name.
    BadName(String),
    /// There is no such target.
    Missing,
    Chunk(Vec<u8>),
    /// All has come.
    End,
    /// Whether a file is there.
    Present(bool),
    /// What a file holds.
    Content(Vec<u8>),
}

/// What is to be done next.
#[derive(Debug, PartialEq, Eq)]
#[allow(inconsistent_fields)]
pub enum VerifyStep {
    ReadRoot { path: String },
    MakeDirectory { path: String },
    /// Load and verify the metadata from a source.
    Load { metadata: String, targets: String },
    Find { name: String },
    Create { path: String },
    Receive,
    Append(Vec<u8>),
    Sync,
    Look { path: String },
    Read { path: String },
    Remove { path: String },
    Rename { from: String, to: String },
    /// Remove a file, if one is named, and end.
    Finish { remove: Option<String>, result: Result<VerifiedTarget, TufVerificationError> },
    Wait,
}

/// Whether a file with what has come so far exists that nobody else refers to.
pub open spec fn holds_temp(phase: VerifyPhase) -> bool {
    match phase {
        VerifyPhase::Receiving => true,
        VerifyPhase::Writing => true,
        VerifyPhase::Syncing => true,
        VerifyPhase::Looking => true,
        VerifyPhase::Checking => true,
        VerifyPhase::Clearing => true,
        VerifyPhase::LookingAgain => true,
        VerifyPhase::Moving => true,
        VerifyPhase::Dropping => true,
        _ => false,
    }
}

/// A download that ends with an error: what has come of it is removed.
pub open spec fn given_up(task: VerifyTask, error: TufVerificationError) -> VerifyStep {
    VerifyStep::Finish {
        remove: if holds_temp(task.phase) {
            Some(task.temp)
        } else {
            None
        },
        result: Err(error),
    }
}

/// Whether a file holds what has come.
pub open spec fn is_download(task: VerifyTask, content: Seq<u8>) -> bool {
    content.len() == task.content@.len() && hex_text(sha256_of(content)) == task.sha256_hex@
}

/// How a download goes on after some news, where that follows from the texts that it
/// holds already.
pub open spec fn verify_next(policy: TufPolicy, task: VerifyTask, news: VerifyNews) -> (
    VerifyPhase,
    VerifyStep,
) {
    match (task.phase, news) {
        (VerifyPhase::ReadingRoot, VerifyNews::Done) => (
            VerifyPhase::MakingDatastore,
            VerifyStep::MakeDirectory { path: policy.datastore },
        ),
        (VerifyPhase::ReadingRoot, VerifyNews::Failed(detail)) => (
            VerifyPhase::Ended,
            given_up(task, TufVerificationError::Role { role: "root", detail }),
        ),
        (VerifyPhase::MakingDatastore, VerifyNews::Done) => (
            VerifyPhase::MakingCache,
            VerifyStep::MakeDirectory { path: policy.target_cache },
        ),
        (VerifyPhase::MakingCache, VerifyNews::Done) => (
            VerifyPhase::LoadingOnline,
            VerifyStep::Load {
                metadata: policy.metadata_base_url,
                targets: policy.targets_base_url,
            },
        ),
        (VerifyPhase::LoadingOnline, VerifyNews::Done) => (
            VerifyPhase::Finding,
            VerifyStep::Find { name: task.name },
        ),
        (VerifyPhase::LoadingOnline, VerifyNews::Failed(online)) => match offline_choice(
            policy,
            online,
        ) {
            Ok((metadata, targets)) => (
                VerifyPhase::LoadingOffline,
                VerifyStep::Load { metadata, targets },
            ),
            Err(error) => (VerifyPhase::Ended, given_up(task, error)),
        },
        (VerifyPhase::LoadingOffline, VerifyNews::Done) => (
            VerifyPhase::Finding,
            VerifyStep::Find { name: task.name },
        ),
        (VerifyPhase::LoadingOffline, VerifyNews::Failed(offline)) => (
            VerifyPhase::Ended,
            given_up(
                task,
                TufVerificationError::Metadata { online: task.online_error, offline: Some(offline) },
            ),
        ),
        (VerifyPhase::Finding, VerifyNews::Done) => (
            VerifyPhase::Creating,
            VerifyStep::Create { path: task.temp },
        ),
        (VerifyPhase::Finding, VerifyNews::BadName(fault)) => (
            VerifyPhase::Ended,
            given_up(task, TufVerificationError::TargetName(fault)),
        ),
        (VerifyPhase::Finding, VerifyNews::Missing) => (
            VerifyPhase::Ended,
            given_up(task, TufVerificationError::TargetMissing(task.name)),
        ),
        (VerifyPhase::Finding, VerifyNews::Failed(detail)) => (
            VerifyPhase::Ended,
            given_up(task, TufVerificationError::Target { name: task.name, detail }),
        ),
        (VerifyPhase::Creating, VerifyNews::Done) => (VerifyPhase::Receiving, VerifyStep::Receive),
        (VerifyPhase::Receiving, VerifyNews::Chunk(chunk)) => if task.content@.len() + chunk@.len()
            <= policy.max_target_bytes {
            (VerifyPhase::Writing, VerifyStep::Append(chunk))
        } else {
            (
                VerifyPhase::Ended,
                given_up(
                    task,
                    TufVerificationError::TargetTooLarge {
                        name: task.name,
                        limit: policy.max_target_bytes,
                    },
                ),
            )
        },
        (VerifyPhase::Receiving, VerifyNews::Failed(detail)) => (
            VerifyPhase::Ended,
            given_up(task, TufVerificationError::Target { name: task.name, detail }),
        ),
        (VerifyPhase::Receiving, VerifyNews::End) => (VerifyPhase::Syncing, VerifyStep::Sync),
        (VerifyPhase::Writing, VerifyNews::Done) => (VerifyPhase::Receiving, VerifyStep::Receive),
        (VerifyPhase::Looking, VerifyNews::Present(present)) => if present {
            (VerifyPhase::Checking, VerifyStep::Read { path: task.place })
        } else {
            (VerifyPhase::LookingAgain, VerifyStep::Look { path: task.place })
        },
        (VerifyPhase::Checking, VerifyNews::Content(content)) => if is_download(task, content@) {
            (VerifyPhase::LookingAgain, VerifyStep::Look { path: task.place })
        } else {
            (VerifyPhase::Clearing, VerifyStep::Remove { path: task.place })
        },
        (VerifyPhase::Checking, VerifyNews::Failed(_)) => (
            VerifyPhase::Clearing,
            VerifyStep::Remove { path: task.place },
        ),
        (VerifyPhase::Clearing, VerifyNews::Done) => (
            VerifyPhase::LookingAgain,
            VerifyStep::Look { path: task.place },
        ),
        (VerifyPhase::LookingAgain, VerifyNews::Present(present)) => if present {
            (VerifyPhase::Dropping, VerifyStep::Remove { path: task.temp })
        } else {
            (VerifyPhase::Moving, VerifyStep::Rename { from: task.temp, to: task.place })
        },
        (VerifyPhase::Moving, VerifyNews::Done) => (
            VerifyPhase::Rechecking,
            VerifyStep::Read { path: task.place },
        ),
        (VerifyPhase::Dropping, VerifyNews::Done) => (
            VerifyPhase::Rechecking,
            VerifyStep::Read { path: task.place },
        ),
        (VerifyPhase::Rechecking, VerifyNews::Failed(fault)) => (
            VerifyPhase::Ended,
            VerifyStep::Finish {
                remove: Some(task.place),
                result: Err(TufVerificationError::Io(fault)),
            },
        ),
        (VerifyPhase::Ended, _) => (VerifyPhase::Ended, VerifyStep::Wait),
        (_, VerifyNews::Failed(fault)) => (
            VerifyPhase::Ended,
            given_up(task, TufVerificationError::Io(fault)),
        ),
        (phase, _) => (phase, VerifyStep::Wait),
    }
}

/// How a download goes on after some news. Once all has come, its digest and its
/// place are known; what is in its place in the end is checked before it is handed
/// out, and removed if it does not fit.
pub open spec fn verify_stepped(
    policy: TufPolicy,
    before: VerifyTask,
    news: VerifyNews,
    after: VerifyTask,
    step: VerifyStep,
) -> bool {
    let (phase, next) = verify_next(policy, before, news);
    match (before.phase, news) {
        (VerifyPhase::Syncing, VerifyNews::Done) => {
            let digest = hex_text(sha256_of(before.content@));
            &&& after == VerifyTask {
                sha256_hex: after.sha256_hex,
                place: after.place,
                phase: VerifyPhase::Looking,
                ..before
            }
            &&& after.sha256_hex@ == digest
            &&& after.place@ == kept_place(policy.target_cache@, before.name@, digest)
            &&& step == VerifyStep::Look { path: after.place }
        },
        (VerifyPhase::Rechecking, VerifyNews::Content(content)) => {
            &&& after == VerifyTask { phase: VerifyPhase::Ended, ..before }
            &&& if is_download(before, content@) {
                step == (VerifyStep::Finish {
                    remove: None,
                    result: Ok(
                        VerifiedTarget {
                            name: before.name,
                            path: before.place,
                            length: before.content@.len() as u64,
                            sha256_hex: before.sha256_hex,
                        },
                    ),
                })
            } else {
                step matches VerifyStep::Finish { remove, result } && remove == Some(before.place)
                    && (result matches Err(TufVerificationError::HashMismatch {
                    path,
                    expected_length,
                    actual_length,
                    expected_sha256,
                    actual_sha256,
                }) && path == before.place && expected_length == before.content@.len()
                    && actual_length == content@.len() && expected_sha256 == before.sha256_hex
                    && actual_sha256@ == hex_text(sha256_of(content@)))
            }
        },
        (VerifyPhase::Receiving, VerifyNews::Chunk(chunk)) => {
            &&& step == next
            &&& after == VerifyTask { content: after.content, phase, ..before }
            &&& after.content@ == if phase == VerifyPhase::Writing {
                before.content@ + chunk@
            } else {
                before.content@
            }
        },
        (VerifyPhase::LoadingOnline, VerifyNews::Failed(online)) => {
            &&& step == next
            &&& after == VerifyTask { phase, online_error: online, ..before }
        },
        _ => step == next && after == VerifyTask { phase, ..before },
    }
}

/// A target is handed out only if what is in its place was read after the download
/// was put there, and has the length and the digest of what came.
pub proof fn handed_out_targets_were_checked(
    policy: TufPolicy,
    before: VerifyTask,
    news: VerifyNews,
    after: VerifyTask,
    step: VerifyStep,
    target: VerifiedTarget,
)
    requires
        verify_stepped(policy, before, news, after, step),
        step matches VerifyStep::Finish { result: Ok(t), .. } && t == target,
    ensures
        before.phase == VerifyPhase::Rechecking,
        news matches VerifyNews::Content(content) && is_download(before, content@),
        target.path == before.place,
        target.sha256_hex == before.sha256_hex,
{
}

/// Whatever goes wrong, no unfinished download is left behind, and nothing is left in
/// the place of a target that does not fit.
pub proof fn failed_downloads_are_removed(
    policy: TufPolicy,
    before: VerifyTask,
    news: VerifyNews,
    after: VerifyTask,
    step: VerifyStep,
)
    requires
        verify_stepped(policy, before, news, after, step),
        step matches VerifyStep::Finish { result: Err(_), .. },
    ensures
        after.phase == VerifyPhase::Ended,
        holds_temp(before.phase) ==> step->remove == Some(before.temp),
        before.phase == VerifyPhase::Rechecking ==> step->remove == Some(before.place),
{
}

impl TufVerifier {
    /// Begins a download: the trusted root is read first. `id` makes the name of the
    /// file unique that takes what comes.
    pub fn verify_target(&self, target_name: String, id: &str) -> (r: (VerifyTask, VerifyStep))
        ensures
            r.0.name == target_name,
            r.0.temp@ == joined(
                self.policy.target_cache@,
                "."@ + safe_name(target_name@) + "."@ + id@ + ".tmp"@,
            ),
            r.0.content@.len() == 0,
            r.0.phase == VerifyPhase::ReadingRoot,
            r.1 == (VerifyStep::ReadRoot { path: self.policy.trusted_root }),
    {
        let temp = temporary_place(&self.policy, target_name.as_str(), id);
        let task = VerifyTask {
            name: target_name,
            temp,
            content: Vec::new(),
            online_error: String::new(),
            sha256_hex: String::new(),
            place: String::new(),
            phase: VerifyPhase::ReadingRoot,
        };
        (task, VerifyStep::ReadRoot { path: self.policy.trusted_root.clone() })
    }

    /// Takes the outcome of the last step, and says what is to be done next.
    pub fn step(&self, task: &mut VerifyTask, news: VerifyNews) -> (step: VerifyStep)
        requires
            old(task).content@.len() <= self.policy.max_target_bytes,
        ensures
            verify_stepped(self.policy, *old(task), news, *final(task), step),
            final(task).content@.len() <= self.policy.max_target_bytes,
    {
        match news {
            VerifyNews::Done => self.go_on(task),
            VerifyNews::Failed(fault) => self.fail(task, fault),
            VerifyNews::BadName(fault) => {
                if task.phase == VerifyPhase::Finding {
                    task.phase = VerifyPhase::Ended;
                    return give_up(task, false, TufVerificationError::TargetName(fault));
                }
                VerifyStep::Wait
            },
            VerifyNews::Missing => {
                if task.phase == VerifyPhase::Finding {
                    task.phase = VerifyPhase::Ended;
                    let name = task.name.clone();
                    return give_up(task, false, TufVerificationError::TargetMissing(name));
                }
                VerifyStep::Wait
            },
            VerifyNews::Chunk(chunk) => {
                if task.phase != VerifyPhase::Receiving {
                    return VerifyStep::Wait;
                }
                match count_chunk(
                    &self.policy,
                    &task.name,
                    task.content.len() as u64,
                    chunk.len() as u64,
                ) {
                    Ok(_) => {
                        let mut more = copy_bytes(&chunk);
                        task.content.append(&mut more);
                        task.phase = VerifyPhase::Writing;
                        VerifyStep::Append(chunk)
                    },
                    Err(error) => {
                        task.phase = VerifyPhase::Ended;
                        give_up(task, true, error)
                    },
                }
            },
            VerifyNews::End => {
                if task.phase == VerifyPhase::Receiving {
                    task.phase = VerifyPhase::Syncing;
                    return VerifyStep::Sync;
                }
                VerifyStep::Wait
            },
            VerifyNews::Present(present) => match task.phase {
                VerifyPhase::Looking => {
                    if present {
                        task.phase = VerifyPhase::Checking;
                        VerifyStep::Read { path: task.place.clone() }
                    } else {
                        task.phase = VerifyPhase::LookingAgain;
                        VerifyStep::Look { path: task.place.clone() }
                    }
                },
                VerifyPhase::LookingAgain => {
                    if present {
                        task.phase = VerifyPhase::Dropping;
                        VerifyStep::Remove { path: task.temp.clone() }
                    } else {
                        task.phase = VerifyPhase::Moving;
                        VerifyStep::Rename { from: task.temp.clone(), to: task.place.clone() }
                    }
                },
                _ => VerifyStep::Wait,
            },
            VerifyNews::Content(content) => match task.phase {
                VerifyPhase::Checking => {
                    if self.check(task, &content).is_ok() {
                        task.phase = VerifyPhase::LookingAgain;
                        VerifyStep::Look { path: task.place.clone() }
                    } else {
                        task.phase = VerifyPhase::Clearing;
                        VerifyStep::Remove { path: task.place.clone() }
                    }
                },
                VerifyPhase::Rechecking => {
                    task.phase = VerifyPhase::Ended;
                    match self.check(task, &content) {
                        Ok(()) => VerifyStep::Finish {
                            remove: None,
                            result: Ok(
                                VerifiedTarget {
                                    name: task.name.clone(),
                                    path: task.place.clone(),
                                    length: task.content.len() as u64,
                                    sha256_hex: task.sha256_hex.clone(),
                                },
                            ),
                        },
                        Err(error) => VerifyStep::Finish {
                            remove: Some(task.place.clone()),
                            result: Err(error),
                        },
                    }
                },
                _ => VerifyStep::Wait,
            },
        }
    }

    fn check(&self, task: &VerifyTask, content: &Vec<u8>) -> (r: Result<(), TufVerificationError>)
        ensures
            r is Ok <==> is_download(*task, content@),
            r is Err ==> (r->Err_0 matches TufVerificationError::HashMismatch {
                path: p,
                expected_length: el,
                actual_length: al,
                expected_sha256: es,
                actual_sha256: xs,
            } && p == task.place && el == task.content@.len() && al == content@.len() && es
                == task.sha256_hex && xs@ == hex_text(sha256_of(content@))),
    {
        verify_file(
            &task.place,
            content.as_slice(),
            task.content.len() as u64,
            &task.sha256_hex,
        )
    }

    /// What is to be done after a step that went well.
    fn go_on(&self, task: &mut VerifyTask) -> (step: VerifyStep)
        ensures
            verify_stepped(self.policy, *old(task), VerifyNews::Done, *final(task), step),
            final(task).content == old(task).content,
    {
        match task.phase {
            VerifyPhase::ReadingRoot => {
                task.phase = VerifyPhase::MakingDatastore;
                VerifyStep::MakeDirectory { path: self.policy.datastore.clone() }
            },
            VerifyPhase::MakingDatastore => {
                task.phase = VerifyPhase::MakingCache;
                VerifyStep::MakeDirectory { path: self.policy.target_cache.clone() }
            },
            VerifyPhase::MakingCache => {
                task.phase = VerifyPhase::LoadingOnline;
                VerifyStep::Load {
                    metadata: self.policy.metadata_base_url.clone(),
                    targets: self.policy.targets_base_url.clone(),
                }
            },
            VerifyPhase::LoadingOnline | VerifyPhase::LoadingOffline => {
                task.phase = VerifyPhase::Finding;
                VerifyStep::Find { name: task.name.clone() }
            },
            VerifyPhase::Finding => {
                task.phase = VerifyPhase::Creating;
                VerifyStep::Create { path: task.temp.clone() }
            },
            VerifyPhase::Creating | VerifyPhase::Writing => {
                task.phase = VerifyPhase::Receiving;
                VerifyStep::Receive
            },
            VerifyPhase::Syncing => {
                task.sha256_hex = hex_encode(sha256(task.content.as_slice()).as_slice());
                task.place = final_place(
                    &self.policy,
                    task.name.as_str(),
                    task.sha256_hex.as_str(),
                );
                task.phase = VerifyPhase::Looking;
                VerifyStep::Look { path: task.place.clone() }
            },
            VerifyPhase::Clearing => {
                task.phase = VerifyPhase::LookingAgain;
                VerifyStep::Look { path: task.place.clone() }
            },
            VerifyPhase::Moving | VerifyPhase::Dropping => {
                task.phase = VerifyPhase::Rechecking;
                VerifyStep::Read { path: task.place.clone() }
            },
            _ => VerifyStep::Wait,
        }
    }

    /// What is to be done after a step that failed.
    fn fail(&self, task: &mut VerifyTask, fault: String) -> (step: VerifyStep)
        ensures
            verify_stepped(self.policy, *old(task), VerifyNews::Failed(fault), *final(task), step),
            final(task).content == old(task).content,
    {
        match task.phase {
            VerifyPhase::Ended => VerifyStep::Wait,
            VerifyPhase::ReadingRoot => {
                task.phase = VerifyPhase::Ended;
                give_up(
                    task,
                    false,
                    TufVerificationError::Role { role: "root", detail: fault },
                )
            },
            VerifyPhase::LoadingOnline => {
                task.online_error = fault.clone();
                match offline_sources(&self.policy, fault) {
                    Ok((metadata, targets)) => {
                        task.phase = VerifyPhase::LoadingOffline;
                        VerifyStep::Load { metadata, targets }
                    },
                    Err(error) => {
                        task.phase = VerifyPhase::Ended;
                        give_up(task, false, error)
                    },
                }
            },
            VerifyPhase::LoadingOffline => {
                task.phase = VerifyPhase::Ended;
                let online = task.online_error.clone();
                give_up(
                    task,
                    false,
                    TufVerificationError::Metadata { online, offline: Some(fault) },
                )
            },
            VerifyPhase::Finding | VerifyPhase::Receiving => {
                let temp = task.phase == VerifyPhase::Receiving;
                task.phase = VerifyPhase::Ended;
                let name = task.name.clone();
                give_up(task, temp, TufVerificationError::Target { name, detail: fault })
            },
            VerifyPhase::Checking => {
                task.phase = VerifyPhase::Clearing;
                VerifyStep::Remove { path: task.place.clone() }
            },
            VerifyPhase::Rechecking => {
                task.phase = VerifyPhase::Ended;
                VerifyStep::Finish {
                    remove: Some(task.place.clone()),
                    result: Err(TufVerificationError::Io(fault)),
                }
            },
            VerifyPhase::MakingDatastore | VerifyPhase::MakingCache | VerifyPhase::Creating => {
                task.phase = VerifyPhase::Ended;
                give_up(task, false, TufVerificationError::Io(fault))
            },
            _ => {
                task.phase = VerifyPhase::Ended;
                give_up(task, true, TufVerificationError::Io(fault))
            },
        }
    }
}

fn give_up(task: &VerifyTask, temp: bool, error: TufVerificationError) -> (step: VerifyStep)
    ensures
        step == (VerifyStep::Finish {
            remove: if temp {
                Some(task.temp)
            } else {
                None
            },
            result: Err(error),
        }),
{
    VerifyStep::Finish {
        remove: if temp {
            Some(task.temp.clone())
        } else {
            None
        },
        result: Err(error),
    }
}

/// A download takes its metadata and its targets from the places that the policy names,
/// first the online ones; the offline ones only after those failed, and only where the
/// policy allows it.
pub proof fn downloads_come_from_the_named_places(
    policy: TufPolicy,
    before: VerifyTask,
    news: VerifyNews,
    after: VerifyTask,
    step: VerifyStep,
)
    requires
        verify_stepped(policy, before, news, after, step),
    ensures
        step matches VerifyStep::Load { metadata, targets } ==> (before.phase
            == VerifyPhase::MakingCache && metadata == policy.metadata_base_url && targets
            == policy.targets_base_url) || (before.phase == VerifyPhase::LoadingOnline
            && news is Failed && policy.allow_offline_cache && policy.offline_metadata_url == Some(
            metadata,
        ) && policy.offline_targets_url == Some(targets)),
        step matches VerifyStep::Find { name } ==> name == before.name && (before.phase
            == VerifyPhase::LoadingOnline || before.phase == VerifyPhase::LoadingOffline) && news
            == VerifyNews::Done,
        step matches VerifyStep::Create { path } ==> path == before.temp && before.phase
            == VerifyPhase::Finding && news == VerifyNews::Done,
{
}

/// What comes is kept whole and in order, and never more than the policy allows: each
/// piece is written behind what came before, or the download is given up.
pub proof fn downloads_are_kept_whole(
    policy: TufPolicy,
    before: VerifyTask,
    chunk: Vec<u8>,
    after: VerifyTask,
    step: VerifyStep,
)
    requires
        before.phase == VerifyPhase::Receiving,
        verify_stepped(policy, before, VerifyNews::Chunk(chunk), after, step),
    ensures
        before.content@.len() + chunk@.len() <= policy.max_target_bytes ==> step
            == VerifyStep::Append(chunk) && after.content@ == before.content@ + chunk@,
        before.content@.len() + chunk@.len() > policy.max_target_bytes ==> (
        step matches VerifyStep::Finish { remove, result } && remove == Some(before.temp)
            && result is Err),
{
}

} // verus!
