//! Identity, revision, language and path of a document.
use vstd::prelude::*;

use crate::encoding::{is_random_uuid, random_uuid};
use crate::path::{extension, file_name, last_name, path_extension};
use crate::words::{ascii_lower_text, eq_ignoring_case, join2, same_ignoring_case};

verus! {

/// Stable identifier of a document across renames, reloads and recovery: the
/// 128 bits of a UUID.
#[derive(Clone, Copy, PartialEq, Eq, Hash, PartialOrd, Ord, Debug, Structural)]
pub struct DocumentId(pub u128);

impl DocumentId {
    /// A fresh random identifier.
    pub fn new() -> (id: Self)
        ensures
            is_random_uuid(id.0),
    {
        DocumentId(random_uuid())
    }

    pub fn from_uuid(uuid: u128) -> (id: Self)
        ensures
            id == DocumentId(uuid),
    {
        DocumentId(uuid)
    }

    pub fn as_uuid(&self) -> (uuid: &u128)
        ensures
            *uuid == self.0,
    {
        &self.0
    }
}

impl Default for DocumentId {
    /// A fresh random identifier.
    fn default() -> (id: Self)
        ensures
            is_random_uuid(id.0),
    {
        Self::new()
    }
}

/// Revision of a document. It starts at zero and grows by one with every change.
#[derive(Clone, Copy, PartialEq, Eq, Hash, PartialOrd, Ord, Debug, Structural)]
pub struct DocumentRevision(pub u64);

impl DocumentRevision {
    pub fn new(v: u64) -> (revision: Self)
        ensures
            revision == DocumentRevision(v),
    {
        DocumentRevision(v)
    }

    pub fn increment(self) -> (next: Self)
        requires
            self.0 < u64::MAX,
        ensures
            next.0 == self.0 + 1,
    {
        DocumentRevision(self.0 + 1)
    }
}

impl Default for DocumentRevision {
    fn default() -> (revision: Self)
        ensures
            revision == DocumentRevision(0),
    {
        DocumentRevision(0)
    }
}

/// Epoch of a workspace. Results are tagged with the epoch of their request, and
/// those of another epoch are discarded.
#[derive(Clone, Copy, PartialEq, Eq, Hash, Debug, Structural)]
pub struct WorkspaceEpoch(pub u64);

impl WorkspaceEpoch {
    pub fn new(v: u64) -> (epoch: Self)
        ensures
            epoch == WorkspaceEpoch(v),
    {
        WorkspaceEpoch(v)
    }

    pub fn increment(self) -> (next: Self)
        requires
            self.0 < u64::MAX,
        ensures
            next.0 == self.0 + 1,
    {
        WorkspaceEpoch(self.0 + 1)
    }
}

impl Default for WorkspaceEpoch {
    fn default() -> (epoch: Self)
        ensures
            epoch == WorkspaceEpoch(0),
    {
        WorkspaceEpoch(0)
    }
}

/// The language of a document.
#[derive(Clone, Copy, PartialEq, Eq, Hash, Debug, Structural)]
pub enum Language {
    Rust,
    TypeScript,
    JavaScript,
    Go,
    Python,
    PlainText,
}

impl Default for Language {
    fn default() -> (language: Self)
        ensures
            language == Language::PlainText,
    {
        Language::PlainText
    }
}

/// The language that a file extension stands for, in any case of its letters.
pub open spec fn language_of_extension(ext: Seq<char>) -> Language {
    if same_ignoring_case(ext, "rs"@) {
        Language::Rust
    } else if same_ignoring_case(ext, "ts"@) || same_ignoring_case(ext, "mts"@)
        || same_ignoring_case(ext, "cts"@) || same_ignoring_case(ext, "tsx"@) {
        Language::TypeScript
    } else if same_ignoring_case(ext, "js"@) || same_ignoring_case(ext, "mjs"@)
        || same_ignoring_case(ext, "cjs"@) || same_ignoring_case(ext, "jsx"@) {
        Language::JavaScript
    } else if same_ignoring_case(ext, "go"@) {
        Language::Go
    } else if same_ignoring_case(ext, "py"@) || same_ignoring_case(ext, "pyi"@) {
        Language::Python
    } else {
        Language::PlainText
    }
}

/// The language of the file that a path names.
pub open spec fn language_of_path(path: Seq<char>) -> Language {
    match path_extension(path) {
        Some(ext) => language_of_extension(ext),
        None => Language::PlainText,
    }
}

/// The name of a language in the language server protocol.
pub open spec fn language_name(language: Language) -> Seq<char> {
    match language {
        Language::Rust => "rust"@,
        Language::TypeScript => "typescript"@,
        Language::JavaScript => "javascript"@,
        Language::Go => "go"@,
        Language::Python => "python"@,
        Language::PlainText => "plaintext"@,
    }
}

impl Language {
    /// The language of the file that a path names; plain text for unknown
    /// extensions.
    pub fn from_path(path: &str) -> (language: Self)
        ensures
            language == language_of_path(path@),
    {
        let ext = match extension(path) {
            Some(ext) => ext,
            None => return Language::PlainText,
        };
        let e = ext.as_str();
        if eq_ignoring_case(e, "rs") {
            Language::Rust
        } else if eq_ignoring_case(e, "ts") || eq_ignoring_case(e, "mts") || eq_ignoring_case(
            e,
            "cts",
        ) || eq_ignoring_case(e, "tsx") {
            Language::TypeScript
        } else if eq_ignoring_case(e, "js") || eq_ignoring_case(e, "mjs") || eq_ignoring_case(
            e,
            "cjs",
        ) || eq_ignoring_case(e, "jsx") {
            Language::JavaScript
        } else if eq_ignoring_case(e, "go") {
            Language::Go
        } else if eq_ignoring_case(e, "py") || eq_ignoring_case(e, "pyi") {
            Language::Python
        } else {
            Language::PlainText
        }
    }

    pub fn as_str(&self) -> (name: &'static str)
        ensures
            name@ == language_name(*self),
    {
        match self {
            Language::Rust => "rust",
            Language::TypeScript => "typescript",
            Language::JavaScript => "javascript",
            Language::Go => "go",
            Language::Python => "python",
            Language::PlainText => "plaintext",
        }
    }
}

/// Where the text of a buffer comes from.
#[derive(Debug, PartialEq, Eq)]
pub enum BufferPathState {
    /// A file on disk.
    Saved(String),
    /// No file yet.
    Untitled { suggested_name: String },
    /// A file that is gone; its unsaved text was kept in the journal.
    Recovered { original: String },
}

impl Clone for BufferPathState {
    fn clone(&self) -> (copy: Self)
        ensures
            copy == *self,
    {
        match self {
            BufferPathState::Saved(path) => BufferPathState::Saved(path.clone()),
            BufferPathState::Untitled { suggested_name } => BufferPathState::Untitled {
                suggested_name: suggested_name.clone(),
            },
            BufferPathState::Recovered { original } => BufferPathState::Recovered {
                original: original.clone(),
            },
        }
    }
}

/// The file name of a path, or a stand-in.
pub open spec fn name_or_file(path: Seq<char>) -> Seq<char> {
    match last_name(path) {
        Some(name) => name,
        None => "file"@,
    }
}

/// The name under which a buffer is shown.
pub open spec fn buffer_title(state: BufferPathState) -> Seq<char> {
    match state {
        BufferPathState::Saved(path) => name_or_file(path@),
        BufferPathState::Untitled { suggested_name } => suggested_name@,
        BufferPathState::Recovered { original } => "Recovered · "@ + name_or_file(original@),
    }
}

/// The path that a buffer has or had.
pub open spec fn backing(state: BufferPathState) -> Option<String> {
    match state {
        BufferPathState::Saved(path) => Some(path),
        BufferPathState::Untitled { .. } => None,
        BufferPathState::Recovered { original } => Some(original),
    }
}

fn file_name_or_default(path: &str) -> (name: String)
    ensures
        name@ == name_or_file(path@),
{
    match file_name(path) {
        Some(name) => name,
        None => "file".to_owned(),
    }
}

impl BufferPathState {
    /// The name under which the buffer is shown.
    pub fn display_name(&self) -> (name: String)
        ensures
            name@ == buffer_title(*self),
    {
        match self {
            BufferPathState::Saved(path) => file_name_or_default(path.as_str()),
            BufferPathState::Untitled { suggested_name } => suggested_name.clone(),
            BufferPathState::Recovered { original } => join2(
                "Recovered · ",
                file_name_or_default(original.as_str()).as_str(),
            ),
        }
    }

    /// The path that the buffer has or had.
    pub fn backing_path(&self) -> (path: Option<&String>)
        ensures
            match path {
                Some(p) => backing(*self) == Some(*p),
                None => backing(*self) is None,
            },
    {
        match self {
            BufferPathState::Saved(path) => Some(path),
            BufferPathState::Recovered { original } => Some(original),
            BufferPathState::Untitled { .. } => None,
        }
    }
}

/// A selection, by the byte offsets of its ends.
#[derive(Clone, Copy, PartialEq, Eq, Debug, Structural)]
pub struct Selection {
    /// The fixed end.
    pub anchor: usize,
    /// The end that moves.
    pub cursor: usize,
}

impl Default for Selection {
    fn default() -> (selection: Self)
        ensures
            selection == (Selection { anchor: 0, cursor: 0 }),
    {
        Selection { anchor: 0, cursor: 0 }
    }
}

impl Selection {
    pub fn new(byte: usize) -> (selection: Self)
        ensures
            selection == (Selection { anchor: byte, cursor: byte }),
    {
        Selection { anchor: byte, cursor: byte }
    }

    pub fn is_empty(&self) -> (empty: bool)
        ensures
            empty == (self.anchor == self.cursor),
    {
        self.anchor == self.cursor
    }

    /// The ends in ascending order.
    pub fn range(&self) -> (r: (usize, usize))
        ensures
            r.0 <= r.1,
            r == (self.anchor, self.cursor) || r == (self.cursor, self.anchor),
    {
        if self.anchor <= self.cursor {
            (self.anchor, self.cursor)
        } else {
            (self.cursor, self.anchor)
        }
    }
}

/// The language of a file follows from its extension, whatever the case of its letters.
pub proof fn languages_follow_the_extension(ext: Seq<char>, other: Seq<char>)
    ensures
        same_ignoring_case(ext, other) ==> language_of_extension(ext) == language_of_extension(
            other,
        ),
        language_of_extension(ext) == Language::Rust <==> same_ignoring_case(ext, "rs"@),
        same_ignoring_case(ext, "py"@) || same_ignoring_case(ext, "pyi"@) ==> language_of_extension(
            ext,
        ) == Language::Python,
        same_ignoring_case(ext, "go"@) ==> language_of_extension(ext) == Language::Go,
        same_ignoring_case(ext, "ts"@) || same_ignoring_case(ext, "tsx"@) || same_ignoring_case(
            ext,
            "mts"@,
        ) || same_ignoring_case(ext, "cts"@) ==> language_of_extension(ext) == Language::TypeScript,
        same_ignoring_case(ext, "js"@) || same_ignoring_case(ext, "jsx"@) || same_ignoring_case(
            ext,
            "mjs"@,
        ) || same_ignoring_case(ext, "cjs"@) ==> language_of_extension(ext) == Language::JavaScript,
{
    lemma_extensions_differ();
}

proof fn lemma_extensions_differ()
    ensures
        ascii_lower_text("rs"@) == "rs"@,
        ascii_lower_text("ts"@) == "ts"@,
        ascii_lower_text("mts"@) == "mts"@,
        ascii_lower_text("cts"@) == "cts"@,
        ascii_lower_text("tsx"@) == "tsx"@,
        ascii_lower_text("js"@) == "js"@,
        ascii_lower_text("mjs"@) == "mjs"@,
        ascii_lower_text("cjs"@) == "cjs"@,
        ascii_lower_text("jsx"@) == "jsx"@,
        ascii_lower_text("go"@) == "go"@,
        ascii_lower_text("py"@) == "py"@,
        ascii_lower_text("pyi"@) == "pyi"@,
        "rs"@[0] == 'r' && "ts"@[0] == 't' && "mts"@[0] == 'm' && "cts"@[0] == 'c' && "tsx"@[0] == 't',
        "js"@[0] == 'j' && "mjs"@[0] == 'm' && "cjs"@[0] == 'c' && "jsx"@[0] == 'j',
        "go"@[0] == 'g' && "py"@[0] == 'p' && "pyi"@[0] == 'p',
        "mts"@[1] == 't' && "mjs"@[1] == 'j' && "cts"@[1] == 't' && "cjs"@[1] == 'j',
{
    reveal_strlit("rs");
    reveal_strlit("ts");
    reveal_strlit("mts");
    reveal_strlit("cts");
    reveal_strlit("tsx");
    reveal_strlit("js");
    reveal_strlit("mjs");
    reveal_strlit("cjs");
    reveal_strlit("jsx");
    reveal_strlit("go");
    reveal_strlit("py");
    reveal_strlit("pyi");
    assert(ascii_lower_text("rs"@) =~= "rs"@);
    assert(ascii_lower_text("ts"@) =~= "ts"@);
    assert(ascii_lower_text("mts"@) =~= "mts"@);
    assert(ascii_lower_text("cts"@) =~= "cts"@);
    assert(ascii_lower_text("tsx"@) =~= "tsx"@);
    assert(ascii_lower_text("js"@) =~= "js"@);
    assert(ascii_lower_text("mjs"@) =~= "mjs"@);
    assert(ascii_lower_text("cjs"@) =~= "cjs"@);
    assert(ascii_lower_text("jsx"@) =~= "jsx"@);
    assert(ascii_lower_text("go"@) =~= "go"@);
    assert(ascii_lower_text("py"@) =~= "py"@);
    assert(ascii_lower_text("pyi"@) =~= "pyi"@);
}

} // verus!
