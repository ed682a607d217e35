//! Taking what is offered: entries of the palette and completions.
use vstd::prelude::*;
use vstd::utf8::*;

use super::editing::{
    edit_applied, edits_are_made_for_their_revision, is_shown, lemma_shown, tab_set,
};
use super::status::StatusMessage;
use super::trust::{trust_reviewed, trust_revoked};
use super::{
    no_effects, App, CompletionCandidate, Effects, FollowUp, Overlay, PaletteItem, TrustLevel,
};
use crate::buffer::Buffer;
use crate::document::{DocumentId, DocumentRevision};
use crate::edit::{EditView, TextEdit};
use crate::layout::{current_tab, EditorTabState};
use crate::protocol::lsp::LspPosition;

verus! {

/// The entry of the palette that is selected.
pub open spec fn chosen_item(overlay: Overlay) -> Option<PaletteItem> {
    match overlay {
        Overlay::CommandPalette { items, selected, .. } => if selected < items@.len() {
            Some(items@[selected as int])
        } else {
            None
        },
        _ => None,
    }
}

/// The completion that is selected, with the document it was asked for.
pub open spec fn chosen_completion(overlay: Overlay) -> Option<
    (DocumentId, DocumentRevision, CompletionCandidate),
> {
    match overlay {
        Overlay::Completion { document_id, revision, candidates, selected, .. } => if selected
            < candidates@.len() {
            Some((document_id, revision, candidates@[selected as int]))
        } else {
            None
        },
        _ => None,
    }
}

/// The first buffer of a document at a revision, from index `i` on; the number of
/// buffers if there is none.
pub open spec fn revision_from(
    buffers: Seq<Buffer>,
    id: DocumentId,
    revision: DocumentRevision,
    i: int,
) -> int
    decreases buffers.len() - i,
{
    if i >= buffers.len() {
        buffers.len() as int
    } else if buffers[i]@.id == id && buffers[i]@.revision == revision {
        i
    } else {
        revision_from(buffers, id, revision, i + 1)
    }
}

/// What choosing what is focused does.
pub open spec fn focused_activated(before: App, after: App, effects: Effects) -> bool {
    let closed = App { overlay: Overlay::Closed, ..before };
    match chosen_item(before.overlay) {
        Some(PaletteItem::ReviewTrust) => trust_reviewed(closed, after) && effects == no_effects(),
        Some(PaletteItem::RevokeTrust) => trust_revoked(closed, after, effects),
        None => match chosen_completion(before.overlay) {
            Some(_) => after == before && effects == (Effects {
                follow_up: FollowUp::PlaceCompletion,
                ..no_effects()
            }),
            None => after == closed && effects == no_effects(),
        },
    }
}

/// Whether the end of a completion at a byte can be counted.
pub open spec fn completion_fits(overlay: Overlay, byte: Option<usize>) -> bool {
    match (chosen_completion(overlay), byte) {
        (Some((_, _, candidate)), Some(at)) => at + encode_utf8(candidate.replacement@).len()
            <= usize::MAX,
        _ => true,
    }
}

/// What placing the selected completion at a byte does. It goes into its document
/// only while that is shown and still has the revision that was asked for.
pub open spec fn completion_placed(
    before: App,
    byte: Option<usize>,
    after: App,
    effects: Effects,
) -> bool {
    let closed = App { overlay: Overlay::Closed, ..before };
    match chosen_completion(before.overlay) {
        None => after == before && effects == no_effects(),
        Some((id, revision, candidate)) => {
            let in_place = before.current_doc == Some(id) && revision_from(
                before.buffers@,
                id,
                revision,
                0,
            ) < before.buffers@.len();
            if in_place && byte is Some {
                &&& after == App {
                    buffers: after.buffers,
                    layout: after.layout,
                    status: StatusMessage::CompletionInserted(candidate.label),
                    ..closed
                }
                &&& edit_applied(
                    closed,
                    id,
                    revision,
                    EditView {
                        start_byte: byte->0,
                        old_end_byte: byte->0,
                        replacement: candidate.replacement@,
                    },
                    App { buffers: after.buffers, ..closed },
                    Effects { queue_lsp_change: false, ..effects },
                )
                &&& tab_set(
                    before,
                    EditorTabState {
                        cursor_byte: (byte->0 + encode_utf8(
                            candidate.replacement@,
                        ).len()) as usize,
                        selection_anchor: None,
                        ..current_tab(before.layout.tabs())
                    },
                    after,
                )
                &&& effects.queue_lsp_change
            } else {
                after == App { status: StatusMessage::CompletionDiscarded, ..closed } && effects
                    == no_effects()
            }
        },
    }
}

impl App {
    /// Chooses what is focused: an entry of the palette, or a completion, whose
    /// place in the document has to be found out first. Anything else is closed.
    pub fn activate_focused(&mut self) -> (effects: Effects)
        requires
            old(self).wf(),
        ensures
            final(self).wf(),
            focused_activated(*old(self), *final(self), effects),
    {
        let item: Option<PaletteItem> = match &self.overlay {
            Overlay::CommandPalette { items, selected, .. } => if *selected < items.len() {
                Some(items[*selected])
            } else {
                None
            },
            _ => None,
        };
        if let Some(chosen) = item {
            self.overlay = Overlay::Closed;
            return match chosen {
                PaletteItem::ReviewTrust => {
                    self.review_trust();
                    Effects::none()
                },
                PaletteItem::RevokeTrust => self.revoke_trust(),
            };
        }
        let completion = match &self.overlay {
            Overlay::Completion { candidates, selected, .. } => *selected < candidates.len(),
            _ => false,
        };
        if completion {
            Effects { follow_up: FollowUp::PlaceCompletion, ..Effects::none() }
        } else {
            self.overlay = Overlay::Closed;
            Effects::none()
        }
    }

    fn find_revision(&self, id: DocumentId, revision: DocumentRevision) -> (i: usize)
        ensures
            i == revision_from(self.buffers@, id, revision, 0),
            i <= self.buffers@.len(),
    {
        let mut i: usize = 0;
        while i < self.buffers.len()
            invariant
                i <= self.buffers@.len(),
                revision_from(self.buffers@, id, revision, 0) == revision_from(
                    self.buffers@,
                    id,
                    revision,
                    i as int,
                ),
            decreases self.buffers@.len() - i,
        {
            if self.buffers[i].id() == id && self.buffers[i].revision() == revision {
                return i;
            }
            i += 1;
        }
        i
    }

    /// The buffer that the selected completion was asked for and where it goes, if
    /// it still has that revision.
    pub fn completion_buffer(&self) -> (place: Option<(usize, LspPosition)>)
        ensures
            match self.overlay {
                Overlay::Completion { document_id, revision, position, .. } => {
                    let i = revision_from(self.buffers@, document_id, revision, 0);
                    if chosen_completion(self.overlay) is Some && i < self.buffers@.len() {
                        place == Some((i as usize, position))
                    } else {
                        place is None
                    }
                },
                _ => place is None,
            },
    {
        match &self.overlay {
            Overlay::Completion { document_id, revision, position, candidates, selected, .. } => {
                let i: usize = self.find_revision(*document_id, *revision);
                if *selected < candidates.len() && i < self.buffers.len() {
                    Some((i, *position))
                } else {
                    None
                }
            },
            _ => None,
        }
    }

    /// Whether the selected completion can be placed at a byte.
    pub fn can_place_completion(&self, byte: Option<usize>) -> (yes: bool)
        ensures
            yes == (self.editable() && completion_fits(self.overlay, byte)),
    {
        if !self.can_edit() {
            return false;
        }
        let at: usize = match byte {
            Some(at) => at,
            None => return true,
        };
        match &self.overlay {
            Overlay::Completion { candidates, selected, .. } => {
                if *selected < candidates.len() {
                    let length: usize = candidates[*selected].replacement.as_str().as_bytes().len();
                    at.checked_add(length).is_some()
                } else {
                    true
                }
            },
            _ => true,
        }
    }

    /// Places the selected completion at a byte of the buffer it was asked for.
    pub fn place_completion(&mut self, byte: Option<usize>) -> (effects: Effects)
        requires
            old(self).wf(),
            old(self).editable(),
            completion_fits(old(self).overlay, byte),
        ensures
            final(self).wf(),
            completion_placed(*old(self), byte, *final(self), effects),
    {
        let (id, revision, label, replacement): (
            DocumentId,
            DocumentRevision,
            String,
            String,
        ) = match &self.overlay {
            Overlay::Completion { document_id, revision, candidates, selected, .. } => {
                if *selected >= candidates.len() {
                    return Effects::none();
                }
                let candidate = &candidates[*selected];
                (
                    *document_id,
                    *revision,
                    candidate.label.clone(),
                    candidate.replacement.clone(),
                )
            },
            _ => return Effects::none(),
        };
        let shown = match self.current_doc {
            Some(doc) => doc == id,
            None => false,
        };
        let i: usize = self.find_revision(id, revision);
        let in_place = shown && i < self.buffers.len();
        self.overlay = Overlay::Closed;
        match byte {
            Some(at) if in_place => {
                let length: usize = replacement.as_str().len();
                let mut effects = self.apply_buffer_edit(
                    id,
                    revision,
                    TextEdit::insert(at, replacement),
                );
                self.layout.set_editor_cursor(at + length);
                self.status = StatusMessage::CompletionInserted(label);
                effects.queue_lsp_change = true;
                effects
            },
            _ => {
                self.status = StatusMessage::CompletionDiscarded;
                Effects::none()
            },
        }
    }
}

/// The completion that is chosen goes into its document at the place for it, whole and
/// once, while the document is shown and still has the revision that it was asked for;
/// the cursor stands behind it, the list is closed and the servers are told. Where the
/// document has moved on or the place is not known, no text changes.
pub proof fn chosen_completions_are_inserted(
    before: App,
    at: Option<usize>,
    after: App,
    effects: Effects,
    i: int,
    document_id: DocumentId,
    revision: DocumentRevision,
    candidates: Vec<CompletionCandidate>,
    selected: usize,
)
    requires
        before.editable(),
        completion_placed(before, at, after, effects),
        completion_fits(before.overlay, at),
        before.overlay matches Overlay::Completion {
            document_id: d,
            revision: r,
            candidates: c,
            selected: s,
            ..
        } && d == document_id && r == revision && c == candidates && s == selected,
        selected < candidates@.len(),
        is_shown(before, i),
        before.layout.tabs().active_editor_tab < before.layout.tabs().editor_tabs.len(),
    ensures
        after.overlay is Closed,
        at is None || before.current_doc != Some(document_id) ==> after.buffers == before.buffers,
        (forall|j: int|
            0 <= j < before.buffers@.len() ==> (#[trigger] before.buffers@[j])@.revision != revision)
            ==> after.buffers == before.buffers,
        before.current_doc == Some(document_id) && before.buffers@[i]@.revision == revision ==> (
        at matches Some(b) ==> (b <= encode_utf8(before.buffers@[i]@.text).len()
            && is_char_boundary(encode_utf8(before.buffers@[i]@.text), b as int) ==> {
            let bytes = encode_utf8(before.buffers@[i]@.text);
            let inserted = encode_utf8(candidates@[selected as int].replacement@);
            let tabs = after.layout.tabs();
            &&& encode_utf8(after.buffers@[i]@.text) == bytes.take(b as int) + inserted
                + bytes.skip(b as int)
            &&& tabs.editor_tabs[tabs.active_editor_tab as int].cursor_byte == b + inserted.len()
            &&& effects.queue_lsp_change
        })),
{
    lemma_shown(before, i);
    lemma_revision_from(before.buffers@, document_id, revision, 0);
    if before.current_doc == Some(document_id) && before.buffers@[i]@.revision == revision {
        if let Some(b) = at {
            let closed = App { overlay: Overlay::Closed, ..before };
            let edit = EditView {
                start_byte: b,
                old_end_byte: b,
                replacement: candidates@[selected as int].replacement@,
            };
            if b <= encode_utf8(before.buffers@[i]@.text).len() && is_char_boundary(
                encode_utf8(before.buffers@[i]@.text),
                b as int,
            ) {
                edits_are_made_for_their_revision(
                    closed,
                    document_id,
                    revision,
                    edit,
                    App { buffers: after.buffers, ..closed },
                    Effects { queue_lsp_change: false, ..effects },
                    i,
                );
            }
        }
    }
}

proof fn lemma_revision_from(
    buffers: Seq<Buffer>,
    id: DocumentId,
    revision: DocumentRevision,
    i: int,
)
    requires
        0 <= i <= buffers.len(),
    ensures
        i <= revision_from(buffers, id, revision, i) <= buffers.len(),
        revision_from(buffers, id, revision, i) < buffers.len() ==> buffers[revision_from(
            buffers,
            id,
            revision,
            i,
        )]@.revision == revision,
        forall|j: int|
            i <= j < buffers.len() && (#[trigger] buffers[j])@.id == id && buffers[j]@.revision
                == revision ==> revision_from(buffers, id, revision, i) < buffers.len(),
    decreases buffers.len() - i,
{
    if i < buffers.len() && !(buffers[i]@.id == id && buffers[i]@.revision == revision) {
        lemma_revision_from(buffers, id, revision, i + 1);
    }
}

/// Choosing an entry of the palette does what its text says, and closes the palette: it
/// opens the review of the trust, or takes the trust away.
pub proof fn chosen_entries_do_what_they_say(
    before: App,
    after: App,
    effects: Effects,
    items: Vec<PaletteItem>,
    selected: usize,
)
    requires
        before.wf(),
        focused_activated(before, after, effects),
        before.overlay matches Overlay::CommandPalette { items: c, selected: s, .. } && c == items
            && s == selected,
        selected < items@.len(),
    ensures
        items@[selected as int] == PaletteItem::ReviewTrust ==> after.overlay is TrustReview
            && after.authorities == before.authorities,
        items@[selected as int] == PaletteItem::RevokeTrust ==> after.overlay is Closed
            && after.authorities@[before.current_authority as int].trust == TrustLevel::InspectOnly,
        after.buffers == before.buffers,
{
}

} // verus!
