//! What is kept until the journal takes it, and what the journal and the parser
//! report back.
use std::collections::HashMap;
use vstd::prelude::*;

use super::{buffer_at, has_buffer, lemma_buffer_from, App, RetainedJournal, SyntaxState};
use crate::action::HighlightSpan;
use crate::buffer::{BufferView, CheckpointPayload};
use crate::document::{DocumentId, DocumentRevision, WorkspaceEpoch};

verus! {

/// The checkpoints that wait, with another one: of two of one document the later
/// revision stays.
pub open spec fn with_checkpoint(
    waiting: Map<u128, CheckpointPayload>,
    payload: CheckpointPayload,
) -> Map<u128, CheckpointPayload> {
    if waiting.contains_key(payload.doc_id.0) && waiting[payload.doc_id.0].revision.0
        >= payload.revision.0 {
        waiting
    } else {
        waiting.insert(payload.doc_id.0, payload)
    }
}

/// The checkpoints that wait once the journal holds a revision of a document: one
/// of a later revision stays.
pub open spec fn without_acknowledged(
    waiting: Map<u128, CheckpointPayload>,
    doc_id: DocumentId,
    revision: DocumentRevision,
) -> Map<u128, CheckpointPayload> {
    if waiting.contains_key(doc_id.0) && waiting[doc_id.0].revision.0 <= revision.0 {
        waiting.remove(doc_id.0)
    } else {
        waiting
    }
}

/// The saved revisions that wait, with another one: of two of one document the
/// later one stays.
pub open spec fn with_compaction(
    waiting: Map<u128, DocumentRevision>,
    id: DocumentId,
    revision: DocumentRevision,
) -> Map<u128, DocumentRevision> {
    if waiting.contains_key(id.0) && waiting[id.0].0 >= revision.0 {
        waiting
    } else {
        waiting.insert(id.0, revision)
    }
}

/// The latest checkpoint of a document is never lost: keeping another one keeps the
/// later of the two, and an acknowledgement of an older revision leaves it.
pub proof fn latest_checkpoint_survives(
    waiting: Map<u128, CheckpointPayload>,
    payload: CheckpointPayload,
    acknowledged: DocumentRevision,
)
    requires
        acknowledged.0 < payload.revision.0,
    ensures
        ({
            let kept = with_checkpoint(waiting, payload);
            let left = without_acknowledged(kept, payload.doc_id, acknowledged);
            &&& left.contains_key(payload.doc_id.0)
            &&& left[payload.doc_id.0].revision.0 >= payload.revision.0
        }),
{
}

/// Whether one buffer is as before but for the revision that the journal holds.
pub open spec fn checkpoint_recorded(
    before: App,
    doc_id: DocumentId,
    revision: DocumentRevision,
    after: App,
) -> bool {
    let i = buffer_at(before, doc_id);
    if has_buffer(before, doc_id) && before.buffers@[i]@.revision == revision {
        &&& after.buffers@ == before.buffers@.update(i, after.buffers@[i])
        &&& after.buffers@[i]@ == BufferView {
            last_checkpointed_revision: Some(revision),
            ..before.buffers@[i]@
        }
    } else {
        after.buffers == before.buffers
    }
}

/// Whether the journal's acknowledgement was taken note of.
pub open spec fn acknowledged(
    before: App,
    doc_id: DocumentId,
    revision: DocumentRevision,
    epoch: WorkspaceEpoch,
    after: App,
) -> bool {
    if epoch != before.epoch {
        after == before
    } else {
        &&& after == App { buffers: after.buffers, journal: after.journal, ..before }
        &&& checkpoint_recorded(before, doc_id, revision, after)
        &&& after.journal.compactions == before.journal.compactions
        &&& after.journal.checkpoints@ == without_acknowledged(
            before.journal.checkpoints@,
            doc_id,
            revision,
        )
    }
}

/// Whether a document is at a revision in the current epoch.
pub open spec fn is_current_revision(
    app: App,
    doc_id: DocumentId,
    revision: DocumentRevision,
    epoch: WorkspaceEpoch,
) -> bool {
    epoch == app.epoch && has_buffer(app, doc_id) && app.buffers@[buffer_at(
        app,
        doc_id,
    )]@.revision == revision
}

/// Whether the highlights of a revision were taken note of.
pub open spec fn highlights_applied(
    before: App,
    doc_id: DocumentId,
    revision: DocumentRevision,
    spans: Vec<HighlightSpan>,
    epoch: WorkspaceEpoch,
    after: App,
) -> bool {
    if is_current_revision(before, doc_id, revision, epoch) {
        &&& after == App {
            syntax: SyntaxState { highlights: after.syntax.highlights, ..before.syntax },
            ..before
        }
        &&& after.syntax.highlights@ == before.syntax.highlights@.insert(
            doc_id.0,
            (revision, spans),
        )
    } else {
        after == before
    }
}

/// How the journal answers what is offered to it.
#[derive(Clone, Copy, Debug, PartialEq, Eq, Structural)]
pub enum JournalReply {
    /// There is no journal.
    Absent,
    Taken,
    Refused,
}

/// Whether some of the waiting entries were handed over and the others still wait.
pub open spec fn others_wait<V>(
    before: Map<u128, V>,
    accepted: Seq<DocumentId>,
    after: Map<u128, V>,
) -> bool {
    forall|id: u128|
        #![trigger after.contains_key(id)]
        {
            let gone = exists|i: int| 0 <= i < accepted.len() && (#[trigger] accepted[i]).0 == id;
            &&& after.contains_key(id) == (before.contains_key(id) && !gone)
            &&& after.contains_key(id) ==> after[id] == before[id]
        }
}

impl App {
    /// Keeps a checkpoint that the journal could not take.
    pub fn retain_pending_checkpoint(&mut self, payload: CheckpointPayload)
        ensures
            *final(self) == (App {
                journal: RetainedJournal {
                    checkpoints: final(self).journal.checkpoints,
                    ..old(self).journal
                },
                ..*old(self)
            }),
            final(self).journal.checkpoints@ == with_checkpoint(
                old(self).journal.checkpoints@,
                payload,
            ),
    {
        broadcast use vstd::std_specs::hash::group_hash_axioms;

        let newer = match self.journal.checkpoints.get(&payload.doc_id.0) {
            Some(waiting) => payload.revision.0 > waiting.revision.0,
            None => true,
        };
        if newer {
            self.journal.checkpoints.insert(payload.doc_id.0, payload);
        }
    }

    /// The revision of a document whose checkpoint waits.
    pub fn pending_checkpoint_revision(&self, doc_id: DocumentId) -> (revision: Option<
        DocumentRevision,
    >)
        ensures
            revision == if self.journal.checkpoints@.contains_key(doc_id.0) {
                Some(self.journal.checkpoints@[doc_id.0].revision)
            } else {
                None
            },
    {
        broadcast use vstd::std_specs::hash::group_hash_axioms;

        match self.journal.checkpoints.get(&doc_id.0) {
            Some(payload) => Some(payload.revision),
            None => None,
        }
    }

    /// Keeps a saved revision that the journal could not take.
    pub fn retain_pending_compact(&mut self, id: DocumentId, revision: DocumentRevision)
        ensures
            *final(self) == (App {
                journal: RetainedJournal {
                    compactions: final(self).journal.compactions,
                    ..old(self).journal
                },
                ..*old(self)
            }),
            final(self).journal.compactions@ == with_compaction(
                old(self).journal.compactions@,
                id,
                revision,
            ),
    {
        broadcast use vstd::std_specs::hash::group_hash_axioms;

        let newer = match self.journal.compactions.get(&id.0) {
            Some(waiting) => revision.0 > waiting.0,
            None => true,
        };
        if newer {
            self.journal.compactions.insert(id.0, revision);
        }
    }

    /// Takes note of the checkpoints that the journal took when they were offered
    /// again. The others still wait.
    pub fn retry_pending_checkpoints(&mut self, accepted: &Vec<DocumentId>)
        ensures
            *final(self) == (App {
                journal: RetainedJournal {
                    checkpoints: final(self).journal.checkpoints,
                    ..old(self).journal
                },
                ..*old(self)
            }),
            others_wait(
                old(self).journal.checkpoints@,
                accepted@,
                final(self).journal.checkpoints@,
            ),
    {
        broadcast use vstd::std_specs::hash::group_hash_axioms;

        let ghost before = self.journal.checkpoints@;
        for k in 0..accepted.len()
            invariant
                *self == (App {
                    journal: RetainedJournal {
                        checkpoints: self.journal.checkpoints,
                        ..old(self).journal
                    },
                    ..*old(self)
                }),
                others_wait(before, accepted@.take(k as int), self.journal.checkpoints@),
        {
            let ghost prior = self.journal.checkpoints@;
            self.journal.checkpoints.remove(&accepted[k].0);
            proof {
                lemma_one_more(before, accepted@, k as int, prior, self.journal.checkpoints@);
            }
        }
        assert(accepted@.take(accepted@.len() as int) =~= accepted@);
    }

    /// Takes note of the saved revisions that the journal took when they were offered
    /// again. The others still wait.
    pub fn retry_pending_compacts(&mut self, accepted: &Vec<DocumentId>)
        ensures
            *final(self) == (App {
                journal: RetainedJournal {
                    compactions: final(self).journal.compactions,
                    ..old(self).journal
                },
                ..*old(self)
            }),
            others_wait(
                old(self).journal.compactions@,
                accepted@,
                final(self).journal.compactions@,
            ),
    {
        broadcast use vstd::std_specs::hash::group_hash_axioms;

        let ghost before = self.journal.compactions@;
        for k in 0..accepted.len()
            invariant
                *self == (App {
                    journal: RetainedJournal {
                        compactions: self.journal.compactions,
                        ..old(self).journal
                    },
                    ..*old(self)
                }),
                others_wait(before, accepted@.take(k as int), self.journal.compactions@),
        {
            let ghost prior = self.journal.compactions@;
            self.journal.compactions.remove(&accepted[k].0);
            proof {
                lemma_one_more(before, accepted@, k as int, prior, self.journal.compactions@);
            }
        }
        assert(accepted@.take(accepted@.len() as int) =~= accepted@);
    }

    /// Takes everything out that waits, to be handed over to the journal. Without a
    /// journal it waits on.
    pub fn submit_all_retained_blocking(&mut self, has_journal: bool) -> (taken: RetainedJournal)
        ensures
            *final(self) == (App { journal: final(self).journal, ..*old(self) }),
            has_journal ==> {
                &&& taken == old(self).journal
                &&& final(self).journal.checkpoints@ == Map::<u128, CheckpointPayload>::empty()
                &&& final(self).journal.compactions@ == Map::<u128, DocumentRevision>::empty()
            },
            !has_journal ==> {
                &&& final(self).journal == old(self).journal
                &&& taken.checkpoints@ == Map::<u128, CheckpointPayload>::empty()
                &&& taken.compactions@ == Map::<u128, DocumentRevision>::empty()
            },
    {
        broadcast use vstd::std_specs::hash::group_hash_axioms;

        let mut taken = RetainedJournal { checkpoints: HashMap::new(), compactions: HashMap::new() };
        if has_journal {
            std::mem::swap(&mut taken, &mut self.journal);
        }
        taken
    }

    /// Takes note of how the journal answered a checkpoint that was offered to it: one
    /// that it refuses is kept.
    pub fn checkpoint_offered(&mut self, payload: CheckpointPayload, reply: JournalReply)
        ensures
            *final(self) == (App {
                journal: RetainedJournal {
                    checkpoints: final(self).journal.checkpoints,
                    ..old(self).journal
                },
                ..*old(self)
            }),
            reply == JournalReply::Refused ==> final(self).journal.checkpoints@ == with_checkpoint(
                old(self).journal.checkpoints@,
                payload,
            ),
            reply != JournalReply::Refused ==> *final(self) == *old(self),
    {
        if reply == JournalReply::Refused {
            self.retain_pending_checkpoint(payload);
        }
    }

    /// Takes note of how the journal answered a saved revision that was offered to it:
    /// one that it refuses is kept.
    pub fn save_offered(&mut self, id: DocumentId, revision: DocumentRevision, reply: JournalReply)
        ensures
            *final(self) == (App {
                journal: RetainedJournal {
                    compactions: final(self).journal.compactions,
                    ..old(self).journal
                },
                ..*old(self)
            }),
            reply == JournalReply::Refused ==> final(self).journal.compactions@ == with_compaction(
                old(self).journal.compactions@,
                id,
                revision,
            ),
            reply != JournalReply::Refused ==> *final(self) == *old(self),
    {
        if reply == JournalReply::Refused {
            self.retain_pending_compact(id, revision);
        }
    }

    /// Takes note that the journal holds a revision of a document.
    pub fn apply_journal_ack(
        &mut self,
        doc_id: DocumentId,
        revision: DocumentRevision,
        epoch: WorkspaceEpoch,
    )
        requires
            old(self).wf(),
        ensures
            final(self).wf(),
            acknowledged(*old(self), doc_id, revision, epoch, *final(self)),
    {
        broadcast use vstd::std_specs::hash::group_hash_axioms;

        if epoch != self.epoch {
            return ;
        }
        let i: usize = self.find_buffer(doc_id);
        if i < self.buffers.len() && self.buffers[i].revision() == revision {
            let ghost before = self.buffers@;
            self.buffers[i].record_last_checkpoint(revision);
            assert(self.buffers@ =~= before.update(i as int, self.buffers@[i as int]));
        }
        let done = match self.journal.checkpoints.get(&doc_id.0) {
            Some(waiting) => waiting.revision.0 <= revision.0,
            None => false,
        };
        if done {
            self.journal.checkpoints.remove(&doc_id.0);
        }
    }

    fn at_revision(
        &self,
        doc_id: DocumentId,
        revision: DocumentRevision,
        epoch: WorkspaceEpoch,
    ) -> (yes: bool)
        ensures
            yes == is_current_revision(*self, doc_id, revision, epoch),
    {
        let i: usize = self.find_buffer(doc_id);
        epoch == self.epoch && i < self.buffers.len() && self.buffers[i].revision() == revision
    }

    /// Takes note that there are highlights for a revision of a document, unless it
    /// has moved on.
    pub fn apply_syntax_highlights(
        &mut self,
        doc_id: DocumentId,
        revision: DocumentRevision,
        spans: Vec<HighlightSpan>,
        epoch: WorkspaceEpoch,
    )
        ensures
            highlights_applied(*old(self), doc_id, revision, spans, epoch, *final(self)),
    {
        broadcast use vstd::std_specs::hash::group_hash_axioms;

        if self.at_revision(doc_id, revision, epoch) {
            self.syntax.highlights.insert(doc_id.0, (revision, spans));
        }
    }

    /// Takes note of highlights, and of the text that the next parse can start from
    /// if there is a syntax tree of it.
    pub fn apply_syntax_result(
        &mut self,
        doc_id: DocumentId,
        revision: DocumentRevision,
        epoch: WorkspaceEpoch,
        spans: Vec<HighlightSpan>,
        has_tree: bool,
        source: String,
    )
        ensures
            if is_current_revision(*old(self), doc_id, revision, epoch) {
                &&& *final(self) == (App { syntax: final(self).syntax, ..*old(self) })
                &&& final(self).syntax.highlights@ == old(self).syntax.highlights@.insert(
                    doc_id.0,
                    (revision, spans),
                )
                &&& final(self).syntax.retained@ == old(self).syntax.retained@.insert(
                    doc_id.0,
                    (revision, has_tree, source),
                )
            } else {
                *final(self) == *old(self)
            },
    {
        broadcast use vstd::std_specs::hash::group_hash_axioms;

        if self.at_revision(doc_id, revision, epoch) {
            self.syntax.highlights.insert(doc_id.0, (revision, spans));
            self.syntax.retained.insert(doc_id.0, (revision, has_tree, source));
        }
    }

    /// Whether the highlights of a document are those of a revision.
    pub fn syntax_is_current(&self, doc_id: DocumentId, revision: DocumentRevision) -> (yes: bool)
        ensures
            yes == (self.syntax.highlights@.contains_key(doc_id.0)
                && self.syntax.highlights@[doc_id.0].0 == revision),
    {
        broadcast use vstd::std_specs::hash::group_hash_axioms;

        match self.syntax.highlights.get(&doc_id.0) {
            Some(held) => held.0 == revision,
            None => false,
        }
    }

    /// The revision and the text of a document that were parsed last, and whether
    /// that gave a syntax tree.
    pub fn syntax_retained(&self, doc_id: DocumentId) -> (retained: Option<
        (DocumentRevision, bool, String),
    >)
        ensures
            retained == if self.syntax.retained@.contains_key(doc_id.0) {
                Some(self.syntax.retained@[doc_id.0])
            } else {
                None
            },
    {
        broadcast use vstd::std_specs::hash::group_hash_axioms;

        match self.syntax.retained.get(&doc_id.0) {
            Some(held) => Some((held.0, held.1, held.2.clone())),
            None => None,
        }
    }
}

proof fn lemma_one_more<V>(
    before: Map<u128, V>,
    accepted: Seq<DocumentId>,
    k: int,
    prior: Map<u128, V>,
    after: Map<u128, V>,
)
    requires
        0 <= k < accepted.len(),
        others_wait(before, accepted.take(k), prior),
        after == prior.remove(accepted[k].0),
    ensures
        others_wait(before, accepted.take(k + 1), after),
{
    let head = accepted.take(k);
    let next = accepted.take(k + 1);
    assert forall|id: u128|
        #![trigger after.contains_key(id)]
        {
            let gone = exists|i: int| 0 <= i < next.len() && (#[trigger] next[i]).0 == id;
            &&& after.contains_key(id) == (before.contains_key(id) && !gone)
            &&& after.contains_key(id) ==> after[id] == before[id]
        } by {
        assert(prior.contains_key(id) == prior.contains_key(id));
        assert(next[k] == accepted[k]);
        if exists|i: int| 0 <= i < head.len() && (#[trigger] head[i]).0 == id {
            let i = choose|i: int| 0 <= i < head.len() && (#[trigger] head[i]).0 == id;
            assert(next[i] == head[i]);
        }
        if exists|i: int| 0 <= i < next.len() && (#[trigger] next[i]).0 == id {
            let i = choose|i: int| 0 <= i < next.len() && (#[trigger] next[i]).0 == id;
            if i < k {
                assert(head[i] == next[i]);
            }
        }
    }
}

/// Of the checkpoints of one document the one of the latest revision waits, whichever
/// came first, and those of other documents are not touched; an acknowledgement takes
/// away exactly what it covers. The same holds of saved revisions.
pub proof fn the_latest_revision_waits(
    waiting: Map<u128, CheckpointPayload>,
    first: CheckpointPayload,
    second: CheckpointPayload,
    compactions: Map<u128, DocumentRevision>,
    id: DocumentId,
    revision: DocumentRevision,
    other: u128,
)
    requires
        first.doc_id == second.doc_id,
        first.revision.0 < second.revision.0,
        !waiting.contains_key(first.doc_id.0),
        other != first.doc_id.0,
        other != id.0,
    ensures
        with_checkpoint(with_checkpoint(waiting, first), second)[first.doc_id.0] == second,
        with_checkpoint(with_checkpoint(waiting, second), first)[first.doc_id.0] == second,
        with_checkpoint(waiting, first).contains_key(other) == waiting.contains_key(other),
        waiting.contains_key(other) ==> with_checkpoint(waiting, first)[other] == waiting[other],
        !without_acknowledged(with_checkpoint(waiting, first), first.doc_id, first.revision).contains_key(
            first.doc_id.0,
        ),
        without_acknowledged(with_checkpoint(waiting, second), first.doc_id, first.revision).contains_key(
            first.doc_id.0,
        ),
        without_acknowledged(waiting, first.doc_id, revision).contains_key(other)
            == waiting.contains_key(other),
        with_compaction(compactions, id, revision).contains_key(id.0),
        with_compaction(compactions, id, revision)[id.0].0 >= revision.0,
        compactions.contains_key(id.0) ==> with_compaction(compactions, id, revision)[id.0].0
            >= compactions[id.0].0,
        with_compaction(compactions, id, revision)[id.0] == revision || (compactions.contains_key(
            id.0,
        ) && with_compaction(compactions, id, revision)[id.0] == compactions[id.0]),
        with_compaction(compactions, id, revision).contains_key(other)
            == compactions.contains_key(other),
{
}

/// An acknowledgement of the revision that a document is at is noted as its checkpoint;
/// one of another revision is not. No text, no revision and no other document changes.
pub proof fn acknowledgements_note_their_revision(
    before: App,
    doc_id: DocumentId,
    revision: DocumentRevision,
    after: App,
    i: int,
)
    requires
        acknowledged(before, doc_id, revision, before.epoch, after),
        0 <= i < before.buffers@.len(),
        before.buffers@[i]@.id == doc_id,
        forall|j: int| 0 <= j < i ==> (#[trigger] before.buffers@[j])@.id != doc_id,
    ensures
        before.buffers@[i]@.revision == revision ==> after.buffers@[i]@.last_checkpointed_revision
            == Some(revision),
        before.buffers@[i]@.revision != revision ==> after.buffers@[i] == before.buffers@[i],
        after.buffers@[i]@.text == before.buffers@[i]@.text,
        after.buffers@[i]@.revision == before.buffers@[i]@.revision,
        after.buffers@[i]@.dirty == before.buffers@[i]@.dirty,
        forall|j: int|
            0 <= j < before.buffers@.len() && j != i ==> #[trigger] after.buffers@[j]
                == before.buffers@[j],
{
    lemma_buffer_from(before.buffers@, doc_id, 0);
}

/// Highlights are shown for the revision that they were made for and no other: they are
/// taken only while the document is at that revision, and only for that document.
pub proof fn highlights_belong_to_their_revision(
    before: App,
    doc_id: DocumentId,
    revision: DocumentRevision,
    spans: Vec<HighlightSpan>,
    epoch: WorkspaceEpoch,
    after: App,
    i: int,
    other: u128,
)
    requires
        highlights_applied(before, doc_id, revision, spans, epoch, after),
        0 <= i < before.buffers@.len(),
        before.buffers@[i]@.id == doc_id,
        forall|j: int| 0 <= j < i ==> (#[trigger] before.buffers@[j])@.id != doc_id,
        other != doc_id.0,
    ensures
        epoch == before.epoch && before.buffers@[i]@.revision == revision
            ==> after.syntax.highlights@.contains_key(doc_id.0)
            && after.syntax.highlights@[doc_id.0] == (revision, spans),
        epoch != before.epoch || before.buffers@[i]@.revision != revision ==> after == before,
        after.syntax.highlights@.contains_key(other) == before.syntax.highlights@.contains_key(
            other,
        ),
        after.buffers == before.buffers,
{
    lemma_buffer_from(before.buffers@, doc_id, 0);
}

/// An acknowledged checkpoint takes no compaction off the list of those that wait.
pub proof fn acknowledgements_leave_the_compactions(
    before: App,
    doc_id: DocumentId,
    revision: DocumentRevision,
    epoch: WorkspaceEpoch,
    after: App,
)
    requires
        acknowledged(before, doc_id, revision, epoch, after),
    ensures
        after.journal.compactions == before.journal.compactions,
{
}

} // verus!
