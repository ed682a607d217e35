//! The text of an open document, its revision and what language servers know of
//! it.
use ropey::Rope;
use vstd::prelude::*;
use vstd::utf8::*;

use crate::document::{
    backing, BufferPathState, DocumentId, DocumentRevision, Language, WorkspaceEpoch,
};
use crate::edit::{edit_end, edit_start, edited, lemma_edit_range, EditView, TextEdit};
use crate::lsp::{LedgerView, LspDocumentLedger};
use crate::protocol::lsp::AuthorityIdentity;
use crate::protocol::request::{ContextView, EnvironmentEpoch, ExecutionContextV1};
use crate::rope::{prev_char_boundary, rope_chars, rope_remove, rope_text};
use crate::text::{
    byte_offset, lemma_boundary_is_byte_offset, lemma_byte_offset_monotonic, lemma_encode_split,
};

verus! {

/// An edit was made for another revision than the current one.
#[derive(Clone, Copy, Debug, PartialEq, Eq, Structural)]
pub struct StaleRevision;

/// The whole text of a document at a revision, for the journal.
#[derive(Debug, PartialEq, Eq)]
pub struct CheckpointPayload {
    pub doc_id: DocumentId,
    pub revision: DocumentRevision,
    pub content: String,
    pub language: Language,
    pub path: Option<String>,
    pub epoch: WorkspaceEpoch,
}

impl Clone for CheckpointPayload {
    fn clone(&self) -> (copy: Self)
        ensures
            copy == *self,
    {
        let path: Option<String> = match &self.path {
            Some(p) => Some(p.clone()),
            None => None,
        };
        CheckpointPayload { content: self.content.clone(), path, ..*self }
    }
}

/// The text of an open document. Its revision grows by one with every change;
/// it is dirty while the text is not saved at its revision.
pub struct Buffer {
    id: DocumentId,
    revision: DocumentRevision,
    rope: Rope,
    language: Language,
    path_state: BufferPathState,
    dirty: bool,
    last_checkpointed_revision: Option<DocumentRevision>,
    lsp_ledgers: Vec<LspDocumentLedger>,
}

/// What a buffer holds.
pub struct BufferView {
    pub id: DocumentId,
    pub revision: DocumentRevision,
    pub text: Seq<char>,
    pub language: Language,
    pub path_state: BufferPathState,
    pub dirty: bool,
    pub last_checkpointed_revision: Option<DocumentRevision>,
    pub ledgers: Seq<LedgerView>,
}

/// What several ledgers say.
pub open spec fn ledger_views(ledgers: Seq<LspDocumentLedger>) -> Seq<LedgerView> {
    ledgers.map_values(|l: LspDocumentLedger| l@)
}

impl View for Buffer {
    type V = BufferView;

    closed spec fn view(&self) -> BufferView {
        BufferView {
            id: self.id,
            revision: self.revision,
            text: rope_chars(self.rope),
            language: self.language,
            path_state: self.path_state,
            dirty: self.dirty,
            last_checkpointed_revision: self.last_checkpointed_revision,
            ledgers: ledger_views(self.lsp_ledgers@),
        }
    }
}

/// The first ledger, from index `i` on, of an authority and a context; the number
/// of ledgers if there is none.
pub open spec fn ledger_from(
    ledgers: Seq<LedgerView>,
    authority: Seq<char>,
    context: ContextView,
    i: int,
) -> int
    decreases ledgers.len() - i,
{
    if i >= ledgers.len() {
        ledgers.len() as int
    } else if ledgers[i].authority == authority && ledgers[i].context == context {
        i
    } else {
        ledger_from(ledgers, authority, context, i + 1)
    }
}

/// The ledger of an authority and a context.
pub open spec fn ledger_of(
    ledgers: Seq<LedgerView>,
    authority: Seq<char>,
    context: ContextView,
) -> Option<LedgerView> {
    let i = ledger_from(ledgers, authority, context, 0);
    if i < ledgers.len() {
        Some(ledgers[i])
    } else {
        None
    }
}

/// Whether there is at most one ledger for each authority and context.
pub open spec fn ledgers_unique(ledgers: Seq<LedgerView>) -> bool {
    forall|i: int, j: int|
        0 <= i < j < ledgers.len() ==> !((#[trigger] ledgers[i]).authority == (
        #[trigger] ledgers[j]).authority && ledgers[i].context == ledgers[j].context)
}

pub proof fn lemma_ledger_from(
    ledgers: Seq<LedgerView>,
    authority: Seq<char>,
    context: ContextView,
    i: int,
)
    requires
        0 <= i <= ledgers.len(),
    ensures
        i <= ledger_from(ledgers, authority, context, i) <= ledgers.len(),
        ({
            let k = ledger_from(ledgers, authority, context, i);
            k < ledgers.len() ==> ledgers[k].authority == authority && ledgers[k].context == context
        }),
        forall|j: int|
            i <= j < ledger_from(ledgers, authority, context, i) ==> !((
            #[trigger] ledgers[j]).authority == authority && ledgers[j].context == context),
    decreases ledgers.len() - i,
{
    if i < ledgers.len() && !(ledgers[i].authority == authority && ledgers[i].context == context) {
        lemma_ledger_from(ledgers, authority, context, i + 1);
    }
}

/// A ledger after an edit: it describes the new revision and text, and one more
/// version was sent.
pub open spec fn ledger_advanced(
    ledger: LedgerView,
    revision: DocumentRevision,
    epoch: WorkspaceEpoch,
    text: Seq<char>,
) -> LedgerView {
    LedgerView {
        revision,
        sent_version: if ledger.sent_version < i32::MAX {
            (ledger.sent_version + 1) as i32
        } else {
            i32::MAX
        },
        workspace_epoch: epoch,
        text,
        ..ledger
    }
}

/// A buffer after an edit: the text is edited, the revision grows by one, the
/// buffer is dirty, and every ledger moves on with it.
pub open spec fn buffer_edited(b: BufferView, edit: EditView, epoch: WorkspaceEpoch) -> BufferView {
    let revision = DocumentRevision((b.revision.0 + 1) as u64);
    let text = edited(b.text, edit);
    BufferView {
        revision,
        text,
        dirty: true,
        ledgers: b.ledgers.map_values(
            |l: LedgerView| ledger_advanced(l, revision, epoch, text),
        ),
        ..b
    }
}

/// A new ledger of a buffer.
pub open spec fn fresh_ledger(
    b: BufferView,
    authority: Seq<char>,
    context: ContextView,
    generation: u64,
    workspace_epoch: WorkspaceEpoch,
    environment_epoch: EnvironmentEpoch,
) -> LedgerView {
    LedgerView {
        authority,
        context,
        revision: b.revision,
        sent_version: 0,
        session_generation: generation,
        workspace_epoch,
        environment_epoch,
        text: b.text,
    }
}

/// A buffer that holds a text without changes.
pub open spec fn fresh_buffer(
    id: DocumentId,
    language: Language,
    text: Seq<char>,
    revision: DocumentRevision,
    path_state: BufferPathState,
    dirty: bool,
    checkpointed: Option<DocumentRevision>,
) -> BufferView {
    BufferView {
        id,
        revision,
        text,
        language,
        path_state,
        dirty,
        last_checkpointed_revision: checkpointed,
        ledgers: Seq::empty(),
    }
}

/// The next version number; the highest stays.
fn next_version(version: i32) -> (next: i32)
    ensures
        next == if version < i32::MAX {
            version + 1
        } else {
            i32::MAX as int
        },
{
    if version < 0x7fff_ffff {
        version + 1
    } else {
        version
    }
}

impl Buffer {
    /// Whether there is at most one ledger for each authority and context.
    pub open spec fn wf(&self) -> bool {
        ledgers_unique(self@.ledgers)
    }

    /// A new buffer without a file, clean, at revision zero.
    pub fn new(id: DocumentId, language: Language, initial_content: &str) -> (b: Self)
        ensures
            b.wf(),
            b@.path_state matches BufferPathState::Untitled { suggested_name }
                && suggested_name@ == "untitled"@,
            b@ == fresh_buffer(
                id,
                language,
                initial_content@,
                DocumentRevision(0),
                b@.path_state,
                false,
                None,
            ),
    {
        let b = Buffer {
            id,
            revision: DocumentRevision(0),
            rope: Rope::from_str(initial_content),
            language,
            path_state: BufferPathState::Untitled { suggested_name: "untitled".to_owned() },
            dirty: false,
            last_checkpointed_revision: None,
            lsp_ledgers: Vec::new(),
        };
        assert(b@.ledgers =~= Seq::empty());
        b
    }

    /// A buffer that shows what is on disk.
    pub fn restore_clean(
        id: DocumentId,
        language: Language,
        content: &str,
        revision: DocumentRevision,
        path_state: BufferPathState,
    ) -> (b: Self)
        ensures
            b.wf(),
            b@ == fresh_buffer(
                id,
                language,
                content@,
                revision,
                path_state,
                false,
                Some(revision),
            ),
    {
        let b = Buffer {
            id,
            revision,
            rope: Rope::from_str(content),
            language,
            path_state,
            dirty: false,
            last_checkpointed_revision: Some(revision),
            lsp_ledgers: Vec::new(),
        };
        assert(b@.ledgers =~= Seq::empty());
        b
    }

    /// A buffer with the text of a journal checkpoint. It is dirty, so that closing
    /// it offers to save.
    pub fn from_checkpoint(payload: CheckpointPayload, path_state: BufferPathState) -> (b: Self)
        ensures
            b.wf(),
            b@ == fresh_buffer(
                payload.doc_id,
                payload.language,
                payload.content@,
                payload.revision,
                path_state,
                true,
                Some(payload.revision),
            ),
    {
        let b = Buffer {
            id: payload.doc_id,
            revision: payload.revision,
            rope: Rope::from_str(payload.content.as_str()),
            language: payload.language,
            path_state,
            dirty: true,
            last_checkpointed_revision: Some(payload.revision),
            lsp_ledgers: Vec::new(),
        };
        assert(b@.ledgers =~= Seq::empty());
        b
    }

    /// A dirty buffer with a text that the journal kept.
    pub fn recover(
        id: DocumentId,
        language: Language,
        content: &str,
        revision: DocumentRevision,
        path_state: BufferPathState,
    ) -> (b: Self)
        ensures
            b.wf(),
            b@ == fresh_buffer(
                id,
                language,
                content@,
                revision,
                path_state,
                true,
                Some(revision),
            ),
    {
        let path: Option<String> = match path_state.backing_path() {
            Some(p) => Some(p.clone()),
            None => None,
        };
        let payload = CheckpointPayload {
            doc_id: id,
            revision,
            content: content.to_owned(),
            language,
            path,
            epoch: WorkspaceEpoch(0),
        };
        Self::from_checkpoint(payload, path_state)
    }

    pub fn id(&self) -> (id: DocumentId)
        ensures
            id == self@.id,
    {
        self.id
    }

    pub fn revision(&self) -> (revision: DocumentRevision)
        ensures
            revision == self@.revision,
    {
        self.revision
    }

    pub fn language(&self) -> (language: Language)
        ensures
            language == self@.language,
    {
        self.language
    }

    /// The path that the buffer has or had.
    pub fn path(&self) -> (path: Option<&String>)
        ensures
            match path {
                Some(p) => backing(self@.path_state) == Some(*p),
                None => backing(self@.path_state) is None,
            },
    {
        self.path_state.backing_path()
    }

    pub fn path_state(&self) -> (state: &BufferPathState)
        ensures
            *state == self@.path_state,
    {
        &self.path_state
    }

    pub fn set_path_state(&mut self, state: BufferPathState)
        ensures
            final(self)@ == (BufferView { path_state: state, ..old(self)@ }),
    {
        self.path_state = state;
    }

    /// Gives the buffer a file, or takes it away. The text stays as it is.
    pub fn set_path(&mut self, path: Option<String>)
        ensures
            final(self)@ == (BufferView { path_state: final(self)@.path_state, ..old(self)@ }),
            match path {
                Some(p) => final(self)@.path_state == BufferPathState::Saved(p),
                None => final(self)@.path_state matches BufferPathState::Untitled {
                    suggested_name,
                } && suggested_name@ == "untitled"@,
            },
    {
        self.path_state = match path {
            Some(p) => BufferPathState::Saved(p),
            None => BufferPathState::Untitled { suggested_name: "untitled".to_owned() },
        };
    }

    pub fn is_dirty(&self) -> (dirty: bool)
        ensures
            dirty == self@.dirty,
    {
        self.dirty
    }

    pub fn last_checkpointed_revision(&self) -> (revision: Option<DocumentRevision>)
        ensures
            revision == self@.last_checkpointed_revision,
    {
        self.last_checkpointed_revision
    }

    /// Takes note that the text of a revision was saved. Another revision than the
    /// current one changes nothing.
    pub fn mark_clean(&mut self, at: DocumentRevision)
        ensures
            final(self)@ == if at == old(self)@.revision {
                BufferView { dirty: false, last_checkpointed_revision: Some(at), ..old(self)@ }
            } else {
                old(self)@
            },
    {
        if at == self.revision {
            self.dirty = false;
            self.last_checkpointed_revision = Some(at);
        }
    }

    /// Takes note that the journal holds the text of a revision. The buffer stays
    /// dirty.
    pub fn record_last_checkpoint(&mut self, at: DocumentRevision)
        ensures
            final(self)@ == if at == old(self)@.revision {
                BufferView { last_checkpointed_revision: Some(at), ..old(self)@ }
            } else {
                old(self)@
            },
    {
        if at == self.revision {
            self.last_checkpointed_revision = Some(at);
        }
    }

    pub fn rope(&self) -> (rope: &Rope)
        ensures
            rope_chars(*rope) == self@.text,
    {
        &self.rope
    }

    /// A copy of the text.
    pub fn text(&self) -> (text: String)
        ensures
            text@ == self@.text,
    {
        rope_text(&self.rope)
    }

    /// A copy of the rope, for work in the background.
    pub fn snapshot_rope(&self) -> (rope: Rope)
        ensures
            rope_chars(rope) == self@.text,
    {
        self.rope.clone()
    }

    /// The character index of a byte offset that is a boundary.
    fn char_index(&self, byte: usize) -> (i: usize)
        requires
            byte <= encode_utf8(self@.text).len(),
            is_char_boundary(encode_utf8(self@.text), byte as int),
        ensures
            i <= self@.text.len(),
            byte_offset(self@.text, i as int) == byte,
    {
        let i: usize = self.rope.byte_to_char(byte);
        proof {
            let text = self@.text;
            let k = lemma_boundary_is_byte_offset(text, byte as int);
            if k < i {
                lemma_byte_offset_monotonic(text, k, i as int);
            } else if i < k {
                lemma_byte_offset_monotonic(text, i + 1, k);
            }
        }
        i
    }

    /// Edits the text, if the edit was made for the current revision. The offsets
    /// are clamped to the text and moved back to character boundaries. The new
    /// revision comes with the whole new text, for the journal.
    pub fn apply_edit(
        &mut self,
        expected: DocumentRevision,
        edit: TextEdit,
        epoch: WorkspaceEpoch,
    ) -> (r: Result<(DocumentRevision, CheckpointPayload), StaleRevision>)
        requires
            expected == old(self)@.revision ==> expected.0 < u64::MAX,
        ensures
            r is Ok <==> expected == old(self)@.revision,
            match r {
                Ok((revision, payload)) => {
                    let new = buffer_edited(old(self)@, edit@, epoch);
                    &&& final(self)@ == new
                    &&& revision == new.revision
                    &&& payload.doc_id == new.id
                    &&& payload.revision == new.revision
                    &&& payload.content@ == new.text
                    &&& payload.language == new.language
                    &&& payload.path == backing(new.path_state)
                    &&& payload.epoch == epoch
                },
                Err(_) => final(self)@ == old(self)@,
            },
            old(self).wf() ==> final(self).wf(),
    {
        broadcast use encode_utf8_valid_utf8;

        if expected != self.revision {
            return Err(StaleRevision);
        }
        let ghost text = self@.text;
        let ghost bytes = encode_utf8(text);
        let len: usize = self.rope.len_bytes();
        let clamped: usize = if edit.start_byte <= len { edit.start_byte } else { len };
        let clamped_end: usize = if edit.old_end_byte <= len { edit.old_end_byte } else { len };
        let last: usize = if clamped_end >= clamped { clamped_end } else { clamped };
        let start: usize = prev_char_boundary(&self.rope, clamped);
        let floor: usize = prev_char_boundary(&self.rope, last);
        let old_end: usize = if floor >= start { floor } else { start };
        proof {
            lemma_edit_range(text, edit@);
            assert(start == edit_start(bytes, edit@));
            assert(old_end == edit_end(bytes, edit@));
        }
        let start_char: usize = self.char_index(start);
        let old_end_char: usize = self.char_index(old_end);
        proof {
            if old_end_char < start_char {
                lemma_byte_offset_monotonic(text, old_end_char as int, start_char as int);
            }
            lemma_encode_split(text, start_char as int);
            lemma_encode_split(text, old_end_char as int);
            encode_utf8_decode_utf8(text.take(start_char as int));
            encode_utf8_decode_utf8(text.skip(old_end_char as int));
        }
        rope_remove(&mut self.rope, start_char, old_end_char);
        let ghost middle = text.take(start_char as int) + text.skip(old_end_char as int);
        proof {
            assert(middle.take(start_char as int) =~= text.take(start_char as int));
            assert(middle.skip(start_char as int) =~= text.skip(old_end_char as int));
        }
        self.rope.insert(start_char, edit.replacement.as_str());
        assert(rope_chars(self.rope) =~= edited(text, edit@));
        self.revision = self.revision.increment();
        self.dirty = true;
        let content = rope_text(&self.rope);
        let ghost before = old(self).lsp_ledgers@;
        let revision: DocumentRevision = self.revision;
        let mut advanced: Vec<LspDocumentLedger> = Vec::new();
        for i in 0..self.lsp_ledgers.len()
            invariant
                self.lsp_ledgers@ == before,
                content@ == edited(text, edit@),
                advanced@.len() == i,
                forall|j: int|
                    0 <= j < i ==> (#[trigger] advanced@[j])@ == ledger_advanced(
                        before[j]@,
                        revision,
                        epoch,
                        edited(text, edit@),
                    ),
        {
            let entry = &self.lsp_ledgers[i];
            let next = LspDocumentLedger {
                authority_identity: entry.authority_identity.clone(),
                context: entry.context.clone(),
                revision,
                sent_version: next_version(entry.sent_version),
                session_generation: entry.session_generation,
                workspace_epoch: epoch,
                environment_epoch: entry.environment_epoch,
                text: content.clone(),
            };
            assert(next@ == ledger_advanced(before[i as int]@, revision, epoch, edited(text, edit@)));
            advanced.push(next);
        }
        self.lsp_ledgers = advanced;
        proof {
            assert(self@.ledgers =~= buffer_edited(old(self)@, edit@, epoch).ledgers);
            if old(self).wf() {
                assert forall|i: int, j: int| 0 <= i < j < self@.ledgers.len() implies !((
                #[trigger] self@.ledgers[i]).authority == (#[trigger] self@.ledgers[j]).authority
                    && self@.ledgers[i].context == self@.ledgers[j].context) by {
                    let x = old(self)@.ledgers[i];
                    let y = old(self)@.ledgers[j];
                }
            }
        }
        let path: Option<String> = match self.path_state.backing_path() {
            Some(p) => Some(p.clone()),
            None => None,
        };
        let payload = CheckpointPayload {
            doc_id: self.id,
            revision: self.revision,
            content,
            language: self.language,
            path,
            epoch,
        };
        Ok((self.revision, payload))
    }

    /// The index of the ledger of an authority and a context.
    fn ledger_index(&self, authority: &AuthorityIdentity, context: &ExecutionContextV1) -> (i: usize)
        ensures
            i == ledger_from(self@.ledgers, authority.0@, context@, 0),
            i <= self.lsp_ledgers@.len(),
    {
        let mut i: usize = 0;
        while i < self.lsp_ledgers.len()
            invariant
                i <= self.lsp_ledgers@.len(),
                ledger_from(self@.ledgers, authority.0@, context@, 0) == ledger_from(
                    self@.ledgers,
                    authority.0@,
                    context@,
                    i as int,
                ),
            decreases self.lsp_ledgers@.len() - i,
        {
            let entry = &self.lsp_ledgers[i];
            assert(self@.ledgers[i as int] == entry@);
            if entry.authority_identity.0 == authority.0 && entry.context.same(context) {
                return i;
            }
            i += 1;
        }
        i
    }

    /// What a language server was told of the document.
    pub fn lsp_ledger(
        &self,
        authority_identity: &AuthorityIdentity,
        context: &ExecutionContextV1,
    ) -> (ledger: Option<&LspDocumentLedger>)
        ensures
            match ledger {
                Some(l) => ledger_of(self@.ledgers, authority_identity.0@, context@) == Some(l@),
                None => ledger_of(self@.ledgers, authority_identity.0@, context@) is None,
            },
    {
        let i: usize = self.ledger_index(authority_identity, context);
        if i < self.lsp_ledgers.len() {
            assert(self@.ledgers[i as int] == self.lsp_ledgers@[i as int]@);
            Some(&self.lsp_ledgers[i])
        } else {
            None
        }
    }

    /// Replaces the whole text, if the buffer and the ledger of the given authority
    /// and context are at the expected revision and the ledger at the given epochs.
    pub fn apply_lsp_workspace_replacement(
        &mut self,
        authority_identity: &AuthorityIdentity,
        context: &ExecutionContextV1,
        expected: DocumentRevision,
        workspace_epoch: WorkspaceEpoch,
        environment_epoch: EnvironmentEpoch,
        replacement: &str,
    ) -> (r: Result<DocumentRevision, StaleRevision>)
        requires
            expected == old(self)@.revision ==> expected.0 < u64::MAX,
        ensures
            r is Ok <==> ({
                let l = ledger_of(old(self)@.ledgers, authority_identity.0@, context@);
                l is Some && old(self)@.revision == expected && l->0.revision == expected
                    && l->0.workspace_epoch == workspace_epoch && l->0.environment_epoch
                    == environment_epoch
            }),
            match r {
                Ok(revision) => {
                    &&& revision.0 == expected.0 + 1
                    &&& final(self)@ == (BufferView {
                        revision,
                        text: replacement@,
                        dirty: true,
                        ledgers: old(self)@.ledgers.map_values(
                            |l: LedgerView|
                                ledger_advanced(l, revision, workspace_epoch, replacement@),
                        ),
                        ..old(self)@
                    })
                },
                Err(_) => final(self)@ == old(self)@,
            },
            old(self).wf() ==> final(self).wf(),
    {
        let current = match self.lsp_ledger(authority_identity, context) {
            Some(ledger) => ledger.revision == expected && ledger.workspace_epoch
                == workspace_epoch && ledger.environment_epoch == environment_epoch,
            None => false,
        };
        if self.revision != expected || !current {
            return Err(StaleRevision);
        }
        let edit = TextEdit {
            start_byte: 0,
            old_end_byte: self.rope.len_bytes(),
            replacement: replacement.to_owned(),
        };
        proof {
            lemma_whole_replacement(old(self)@.text, edit@);
        }
        match self.apply_edit(expected, edit, workspace_epoch) {
            Ok((revision, _)) => Ok(revision),
            Err(e) => Err(e),
        }
    }

    /// Makes sure that there is a ledger of an authority and a context, and returns
    /// it. A new one describes the text as it is, with nothing sent.
    pub fn ensure_lsp_ledger(
        &mut self,
        authority_identity: AuthorityIdentity,
        context: ExecutionContextV1,
        workspace_epoch: WorkspaceEpoch,
        environment_epoch: EnvironmentEpoch,
    ) -> (ledger: LspDocumentLedger)
        ensures
            match ledger_of(old(self)@.ledgers, authority_identity.0@, context@) {
                Some(l) => ledger@ == l && final(self)@ == old(self)@,
                None => {
                    &&& ledger@ == fresh_ledger(
                        old(self)@,
                        authority_identity.0@,
                        context@,
                        0,
                        workspace_epoch,
                        environment_epoch,
                    )
                    &&& final(self)@ == (BufferView {
                        ledgers: old(self)@.ledgers.push(ledger@),
                        ..old(self)@
                    })
                },
            },
            old(self).wf() ==> final(self).wf(),
    {
        let i: usize = self.ledger_index(&authority_identity, &context);
        proof {
            lemma_ledger_from(self@.ledgers, authority_identity.0@, context@, 0);
        }
        if i < self.lsp_ledgers.len() {
            assert(self@.ledgers[i as int] == self.lsp_ledgers@[i as int]@);
            return self.lsp_ledgers[i].clone();
        }
        let ledger = LspDocumentLedger {
            authority_identity,
            context,
            revision: self.revision,
            sent_version: 0,
            session_generation: 0,
            workspace_epoch,
            environment_epoch,
            text: rope_text(&self.rope),
        };
        self.lsp_ledgers.push(ledger.clone());
        assert(self@.ledgers =~= old(self)@.ledgers.push(ledger@));
        ledger
    }

    /// Starts a ledger anew for a new session of an authority and a context: nothing
    /// was sent, and the session number is one higher than before.
    pub fn reset_lsp_session(
        &mut self,
        authority_identity: AuthorityIdentity,
        context: ExecutionContextV1,
        workspace_epoch: WorkspaceEpoch,
        environment_epoch: EnvironmentEpoch,
    ) -> (ledger: LspDocumentLedger)
        requires
            match ledger_of(old(self)@.ledgers, authority_identity.0@, context@) {
                Some(l) => l.session_generation < u64::MAX,
                None => true,
            },
        ensures
            ({
                let before = ledger_of(old(self)@.ledgers, authority_identity.0@, context@);
                let k = ledger_from(old(self)@.ledgers, authority_identity.0@, context@, 0);
                let generation = match before {
                    Some(l) => (l.session_generation + 1) as u64,
                    None => 1,
                };
                &&& ledger@ == fresh_ledger(
                    old(self)@,
                    authority_identity.0@,
                    context@,
                    generation,
                    workspace_epoch,
                    environment_epoch,
                )
                &&& ledger.authority_identity == authority_identity
                &&& ledger.context == context
                &&& final(self)@ == (BufferView {
                    ledgers: if before is Some {
                        old(self)@.ledgers.update(k, ledger@)
                    } else {
                        old(self)@.ledgers.push(ledger@)
                    },
                    ..old(self)@
                })
            }),
            old(self).wf() ==> final(self).wf(),
    {
        let i: usize = self.ledger_index(&authority_identity, &context);
        proof {
            lemma_ledger_from(self@.ledgers, authority_identity.0@, context@, 0);
        }
        let known = i < self.lsp_ledgers.len();
        let session_generation: u64 = if known {
            assert(self@.ledgers[i as int] == self.lsp_ledgers@[i as int]@);
            self.lsp_ledgers[i].session_generation + 1
        } else {
            1
        };
        let ledger = LspDocumentLedger {
            authority_identity,
            context,
            revision: self.revision,
            sent_version: 0,
            session_generation,
            workspace_epoch,
            environment_epoch,
            text: rope_text(&self.rope),
        };
        if known {
            self.lsp_ledgers.set(i, ledger.clone());
            assert(self@.ledgers =~= old(self)@.ledgers.update(i as int, ledger@));
            proof {
                if old(self).wf() {
                    assert forall|a: int, b: int| 0 <= a < b < self@.ledgers.len() implies !((
                    #[trigger] self@.ledgers[a]).authority == (
                    #[trigger] self@.ledgers[b]).authority && self@.ledgers[a].context
                        == self@.ledgers[b].context) by {
                        let x = old(self)@.ledgers[a];
                        let y = old(self)@.ledgers[b];
                    }
                }
            }
        } else {
            self.lsp_ledgers.push(ledger.clone());
            assert(self@.ledgers =~= old(self)@.ledgers.push(ledger@));
        }
        ledger
    }

    /// Raises the session number of a ledger, if there is one; after the highest
    /// comes zero.
    pub fn bump_lsp_session_generation(
        &mut self,
        authority_identity: &AuthorityIdentity,
        context: &ExecutionContextV1,
    )
        ensures
            ({
                let k = ledger_from(old(self)@.ledgers, authority_identity.0@, context@, 0);
                final(self)@ == if k < old(self)@.ledgers.len() {
                    let l = old(self)@.ledgers[k];
                    BufferView {
                        ledgers: old(self)@.ledgers.update(
                            k,
                            LedgerView {
                                session_generation: if l.session_generation < u64::MAX {
                                    (l.session_generation + 1) as u64
                                } else {
                                    0
                                },
                                ..l
                            },
                        ),
                        ..old(self)@
                    }
                } else {
                    old(self)@
                }
            }),
    {
        let i: usize = self.ledger_index(authority_identity, context);
        if i < self.lsp_ledgers.len() {
            let mut ledger = self.lsp_ledgers[i].clone();
            ledger.session_generation = ledger.session_generation.wrapping_add(1);
            assert(old(self)@.ledgers[i as int] == old(self).lsp_ledgers@[i as int]@);
            self.lsp_ledgers.set(i, ledger);
            assert(self@.ledgers =~= old(self)@.ledgers.update(i as int, ledger@));
        }
    }

    /// All ledgers.
    pub fn lsp_ledgers(&self) -> (ledgers: &Vec<LspDocumentLedger>)
        ensures
            ledger_views(ledgers@) == self@.ledgers,
    {
        &self.lsp_ledgers
    }
}

/// Replacing everything leaves the replacement.
pub proof fn lemma_whole_replacement(text: Seq<char>, edit: EditView)
    requires
        edit.start_byte == 0,
        edit.old_end_byte == encode_utf8(text).len(),
    ensures
        edited(text, edit) == edit.replacement,
{
    let bytes = encode_utf8(text);
    encode_utf8_valid_utf8(text);
    is_char_boundary_start_end_of_seq(bytes);
    assert(bytes.take(0) =~= Seq::empty());
    assert(bytes.skip(bytes.len() as int) =~= Seq::empty());
    assert(decode_utf8(Seq::<u8>::empty()) =~= Seq::empty());
    assert(edited(text, edit) =~= edit.replacement);
}

/// An edit for another revision than the current one leaves the buffer alone; one
/// for the current revision makes it stale for every later edit at that revision.
pub proof fn stale_edits_are_refused(b: BufferView, edit: EditView, epoch: WorkspaceEpoch)
    requires
        b.revision.0 < u64::MAX,
    ensures
        buffer_edited(b, edit, epoch).revision != b.revision,
        buffer_edited(b, edit, epoch).revision.0 > b.revision.0,
{
}

/// An edit advances a document by one revision and makes it dirty; its identity, file
/// and language stay. Every server that knows the document is at the new revision and
/// text and one version further on, and none is added or lost.
pub proof fn edits_advance_the_document(
    b: BufferView,
    edit: EditView,
    epoch: WorkspaceEpoch,
    i: int,
)
    requires
        b.revision.0 < u64::MAX,
        0 <= i < b.ledgers.len(),
    ensures
        ({
            let after = buffer_edited(b, edit, epoch);
            &&& after.revision.0 == b.revision.0 + 1
            &&& after.dirty
            &&& after.id == b.id
            &&& after.language == b.language
            &&& after.path_state == b.path_state
            &&& after.last_checkpointed_revision == b.last_checkpointed_revision
            &&& after.ledgers.len() == b.ledgers.len()
            &&& after.ledgers[i].text == after.text
            &&& after.ledgers[i].revision == after.revision
            &&& after.ledgers[i].workspace_epoch == epoch
            &&& after.ledgers[i].authority == b.ledgers[i].authority
            &&& after.ledgers[i].context == b.ledgers[i].context
            &&& after.ledgers[i].session_generation == b.ledgers[i].session_generation
            &&& b.ledgers[i].sent_version < i32::MAX ==> after.ledgers[i].sent_version
                == b.ledgers[i].sent_version + 1
        }),
{
}

} // verus!
