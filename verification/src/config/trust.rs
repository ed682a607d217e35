//! The record of which authorities may run programs for which workspaces.
use vstd::prelude::*;

use crate::words::{decimal, decimal_text, join2, join3};

verus! {

/// Why the record cannot be read or written.
#[derive(Debug, PartialEq, Eq)]
pub enum TrustStoreError {
    UnsupportedVersion(u32),
    Permissions(String),
    Io(String),
    Json(String),
}

/// What an error says.
pub open spec fn trust_error_text(error: TrustStoreError) -> Seq<char> {
    match error {
        TrustStoreError::UnsupportedVersion(version) => "unsupported trust store version "@
            + decimal(version as nat),
        TrustStoreError::Permissions(text) => "trust store permissions failed: "@ + text@,
        TrustStoreError::Io(text) => "trust store I/O failed: "@ + text@,
        TrustStoreError::Json(text) => "trust store encoding failed: "@ + text@,
    }
}

impl TrustStoreError {
    pub fn text(&self) -> (text: String)
        ensures
            text@ == trust_error_text(*self),
    {
        match self {
            TrustStoreError::UnsupportedVersion(version) => {
                let version = decimal_text(*version as u64);
                join2("unsupported trust store version ", version.as_str())
            },
            TrustStoreError::Permissions(text) => join2(
                "trust store permissions failed: ",
                text.as_str(),
            ),
            TrustStoreError::Io(text) => join2("trust store I/O failed: ", text.as_str()),
            TrustStoreError::Json(text) => join2("trust store encoding failed: ", text.as_str()),
        }
    }
}

/// The stored grants. Each key occurs once.
#[derive(Debug)]
pub struct TrustRecords {
    pub version: u32,
    pub records: Vec<(String, bool)>,
}

/// Where the grants are stored.
#[derive(Debug)]
pub struct TrustStore {
    path: String,
}

/// What the records say: the value under each key, the first one counting.
pub open spec fn granted_from(records: Seq<(String, bool)>, key: Seq<char>, i: int) -> bool
    decreases records.len() - i,
{
    if i >= records.len() {
        false
    } else if records[i].0@ == key {
        records[i].1
    } else {
        granted_from(records, key, i + 1)
    }
}

/// Whether a grant is recorded under a key.
pub open spec fn granted(records: TrustRecords, key: Seq<char>) -> bool {
    granted_from(records.records@, key, 0)
}

/// The key of a workspace and an authority: one line each.
pub open spec fn record_key_of(workspace_root: Seq<char>, authority_id: Seq<char>) -> Seq<char> {
    workspace_root + "\n"@ + authority_id
}

/// Workspaces without a line feed in their path and their authorities do not share
/// a key.
pub proof fn record_keys_differ(
    root: Seq<char>,
    id: Seq<char>,
    other_root: Seq<char>,
    other_id: Seq<char>,
)
    requires
        !root.contains('\n'),
        !other_root.contains('\n'),
        record_key_of(root, id) == record_key_of(other_root, other_id),
    ensures
        root == other_root,
        id == other_id,
{
    reveal_strlit("\n");
    let a = record_key_of(root, id);
    let b = record_key_of(other_root, other_id);
    assert(a[root.len() as int] == '\n');
    assert(b[other_root.len() as int] == '\n');
    if root.len() < other_root.len() {
        assert(b[root.len() as int] == other_root[root.len() as int]);
    } else if other_root.len() < root.len() {
        assert(a[other_root.len() as int] == root[other_root.len() as int]);
    }
    assert(root =~= a.take(root.len() as int));
    assert(other_root =~= b.take(root.len() as int));
    assert(id =~= a.skip((root.len() + 1) as int));
    assert(other_id =~= b.skip((root.len() + 1) as int));
}

fn record_key(workspace_root: &str, authority_id: &str) -> (key: String)
    ensures
        key@ == record_key_of(workspace_root@, authority_id@),
{
    join3(workspace_root, "\n", authority_id)
}

proof fn lemma_granted_absent(records: Seq<(String, bool)>, key: Seq<char>, i: int)
    requires
        0 <= i <= records.len(),
        forall|j: int| i <= j < records.len() ==> (#[trigger] records[j]).0@ != key,
    ensures
        !granted_from(records, key, i),
    decreases records.len() - i,
{
    if i < records.len() {
        lemma_granted_absent(records, key, i + 1);
    }
}

/// The records without those under a key.
pub open spec fn without_key(records: Seq<(String, bool)>, key: Seq<char>) -> Seq<(String, bool)>
    decreases records.len(),
{
    if records.len() == 0 {
        Seq::empty()
    } else if records.last().0@ == key {
        without_key(records.drop_last(), key)
    } else {
        without_key(records.drop_last(), key).push(records.last())
    }
}

/// Whether there is a record under a key.
pub open spec fn has_key(records: Seq<(String, bool)>, key: Seq<char>) -> bool {
    exists|j: int| 0 <= j < records.len() && (#[trigger] records[j]).0@ == key
}

/// Taking out the records under one key leaves none of them, and leaves what the
/// records say of every other key.
proof fn lemma_without_key(records: Seq<(String, bool)>, removed: Seq<char>, key: Seq<char>)
    ensures
        key == removed ==> !has_key(without_key(records, removed), key),
        key != removed ==> has_key(without_key(records, removed), key) == has_key(records, key),
        key != removed ==> granted_from(without_key(records, removed), key, 0) == granted_from(
            records,
            key,
            0,
        ),
    decreases records.len(),
{
    if records.len() > 0 {
        let front = records.drop_last();
        let last = records.last();
        lemma_without_key(front, removed, key);
        lemma_granted_last(front, last, key);
        assert(records =~= front.push(last));
        lemma_has_key_push(front, last, key);
        if last.0@ != removed {
            lemma_granted_last(without_key(front, removed), last, key);
            lemma_has_key_push(without_key(front, removed), last, key);
        }
        if !has_key(front, key) {
            lemma_granted_absent(front, key, 0);
        }
    }
}

proof fn lemma_has_key_push(records: Seq<(String, bool)>, last: (String, bool), key: Seq<char>)
    ensures
        has_key(records.push(last), key) == (has_key(records, key) || last.0@ == key),
{
    let all = records.push(last);
    if has_key(records, key) {
        let j = choose|j: int| 0 <= j < records.len() && (#[trigger] records[j]).0@ == key;
        assert(all[j].0@ == key);
    }
    if last.0@ == key {
        assert(all[records.len() as int].0@ == key);
    }
    if has_key(all, key) {
        let j = choose|j: int| 0 <= j < all.len() && (#[trigger] all[j]).0@ == key;
        if j < records.len() {
            assert(records[j].0@ == key);
        }
    }
}

/// An entry at the end counts only if there is none before it.
proof fn lemma_granted_last(records: Seq<(String, bool)>, last: (String, bool), key: Seq<char>)
    ensures
        granted_from(records.push(last), key, 0) == if has_key(records, key) {
            granted_from(records, key, 0)
        } else {
            last.0@ == key && last.1
        },
{
    lemma_granted_last_from(records, last, key, 0);
}

proof fn lemma_granted_last_from(
    records: Seq<(String, bool)>,
    last: (String, bool),
    key: Seq<char>,
    i: int,
)
    requires
        0 <= i <= records.len(),
        forall|j: int| 0 <= j < i ==> (#[trigger] records[j]).0@ != key,
    ensures
        granted_from(records.push(last), key, i) == if has_key(records, key) {
            granted_from(records, key, i)
        } else {
            last.0@ == key && last.1
        },
    decreases records.len() - i,
{
    let all = records.push(last);
    if i < records.len() {
        assert(all[i] == records[i]);
        if records[i].0@ != key {
            lemma_granted_last_from(records, last, key, i + 1);
        }
    } else {
        assert(all[i] == last);
        assert(!granted_from(all, key, i + 1));
    }
}

impl TrustStore {
    pub fn new(path: String) -> (store: Self)
        ensures
            store.location() == path,
    {
        TrustStore { path }
    }

    pub closed spec fn location(&self) -> String {
        self.path
    }

    pub fn path(&self) -> (path: &String)
        ensures
            *path == self.location(),
    {
        &self.path
    }

    /// The records that were read: none if there is no file, and else those of the
    /// file, if its version is known.
    pub fn load(file: Option<TrustRecords>) -> (r: Result<TrustRecords, TrustStoreError>)
        ensures
            match file {
                None => r is Ok && r->Ok_0.version == 1 && r->Ok_0.records@.len() == 0,
                Some(records) => r == if records.version == 1 {
                    Ok::<TrustRecords, TrustStoreError>(records)
                } else {
                    Err::<TrustRecords, TrustStoreError>(TrustStoreError::UnsupportedVersion(records.version))
                },
            },
    {
        match file {
            None => Ok(TrustRecords { version: 1, records: Vec::new() }),
            Some(records) => {
                if records.version != 1 {
                    return Err(TrustStoreError::UnsupportedVersion(records.version));
                }
                Ok(records)
            },
        }
    }

    /// Whether an authority may run programs for a workspace.
    pub fn is_granted(records: &TrustRecords, workspace_root: &str, authority_id: &str) -> (yes:
        bool)
        ensures
            yes == granted(*records, record_key_of(workspace_root@, authority_id@)),
    {
        let key = record_key(workspace_root, authority_id);
        let mut i: usize = 0;
        while i < records.records.len()
            invariant
                i <= records.records@.len(),
                granted_from(records.records@, key@, 0) == granted_from(
                    records.records@,
                    key@,
                    i as int,
                ),
                key@ == record_key_of(workspace_root@, authority_id@),
            decreases records.records@.len() - i,
        {
            if records.records[i].0 == key {
                return records.records[i].1;
            }
            i += 1;
        }
        false
    }

    /// The records to be written after a grant was given or taken back. What they say
    /// of every other key stays.
    pub fn set_granted(
        records: TrustRecords,
        workspace_root: &str,
        authority_id: &str,
        allow: bool,
    ) -> (new: TrustRecords)
        ensures
            new.version == 1,
            granted(new, record_key_of(workspace_root@, authority_id@)) == allow,
            forall|key: Seq<char>|
                key != record_key_of(workspace_root@, authority_id@) ==> #[trigger] granted(
                    new,
                    key,
                ) == granted(records, key),
    {
        let key = record_key(workspace_root, authority_id);
        let ghost all = records.records@;
        let mut kept: Vec<(String, bool)> = Vec::new();
        for i in 0..records.records.len()
            invariant
                all == records.records@,
                kept@ == without_key(all.take(i as int), key@),
        {
            assert(all.take(i + 1).drop_last() =~= all.take(i as int));
            if records.records[i].0 != key {
                let entry = (records.records[i].0.clone(), records.records[i].1);
                kept.push(entry);
            }
        }
        assert(all.take(all.len() as int) =~= all);
        let ghost without = kept@;
        if allow {
            kept.push((key.clone(), true));
        }
        let new = TrustRecords { version: 1, records: kept };
        proof {
            lemma_without_key(all, key@, key@);
            lemma_granted_absent(without, key@, 0);
            if allow {
                lemma_granted_last(without, new.records@.last(), key@);
                assert(new.records@ =~= without.push(new.records@.last()));
            }
            assert forall|k: Seq<char>| k != key@ implies #[trigger] granted(new, k) == granted(
                records,
                k,
            ) by {
                lemma_without_key(all, key@, k);
                if allow {
                    lemma_granted_last(without, new.records@.last(), k);
                    if !has_key(without, k) {
                        lemma_granted_absent(without, k, 0);
                    }
                }
            }
        }
        new
    }
}

/// A grant counts if and only if the first record of its key says so: nothing is granted
/// without a record.
pub proof fn grants_need_a_record(records: TrustRecords, key: Seq<char>)
    ensures
        granted(records, key) ==> exists|i: int|
            0 <= i < records.records@.len() && (#[trigger] records.records@[i]).0@ == key
                && records.records@[i].1,
        (forall|i: int|
            0 <= i < records.records@.len() ==> (#[trigger] records.records@[i]).0@ != key)
            ==> !granted(records, key),
        records.records@.len() == 1 && records.records@[0].0@ == key ==> granted(records, key)
            == records.records@[0].1,
{
    lemma_granted_by(records.records@, key, 0);
    if forall|i: int|
        0 <= i < records.records@.len() ==> (#[trigger] records.records@[i]).0@ != key {
        lemma_granted_absent(records.records@, key, 0);
    }
    reveal_with_fuel(granted_from, 2);
}

proof fn lemma_granted_by(records: Seq<(String, bool)>, key: Seq<char>, i: int)
    requires
        0 <= i <= records.len(),
    ensures
        granted_from(records, key, i) ==> exists|j: int|
            i <= j < records.len() && (#[trigger] records[j]).0@ == key && records[j].1,
    decreases records.len() - i,
{
    if i < records.len() {
        lemma_granted_by(records, key, i + 1);
        if records[i].0@ == key && records[i].1 {
            assert(records[i].0@ == key);
        }
    }
}

} // verus!
