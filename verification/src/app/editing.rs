//! Typing, deleting and moving in the editor.
use vstd::prelude::*;
use vstd::utf8::*;

use super::{
    buffer_at, buffer_of, has_buffer, lemma_buffer_from, no_effects, App, Effects,
};
use crate::buffer::{buffer_edited, Buffer, BufferView, CheckpointPayload};
use crate::coordinate::{
    all_visible_before, belongs_to_line, cell_byte, cell_of, cluster_column, cluster_starts,
    grapheme_byte, grapheme_index, is_stop, left_steps_over_one_cluster, lines_cut, move_left, move_right, move_vertical, moved_line,
    plain_breaks, right_steps_over_one_cluster, saturated, snap_to_grapheme_start, snapped,
    snapping_beyond_the_end, snapping_leads_to_the_last_stop, starts_cluster, total_clusters,
    vertical_moves_keep_line_and_column, CellPos,
};
use crate::document::{backing, DocumentId, DocumentRevision, WorkspaceEpoch};
use crate::edit::{edits_replace_exactly_their_range, EditView, TextEdit};
use crate::layout::{
    current_tab, editor_rect, tab_moved, tabs_with_current, EditorTabState, Geometry, Landmark,
    TabChoice,
};
use crate::rope::{line_breaks_before, line_count, line_start, visible_end, visible_text};

verus! {

/// Whether a checkpoint holds what a buffer holds.
pub open spec fn is_checkpoint(p: CheckpointPayload, b: BufferView, epoch: WorkspaceEpoch) -> bool {
    &&& p.doc_id == b.id
    &&& p.revision == b.revision
    &&& p.content@ == b.text
    &&& p.language == b.language
    &&& p.path == backing(b.path_state)
    &&& p.epoch == epoch
}

/// Whether one buffer was edited and the others were not.
pub open spec fn buffer_edited_at(
    before: Seq<Buffer>,
    i: int,
    edit: EditView,
    epoch: WorkspaceEpoch,
    after: Seq<Buffer>,
) -> bool {
    &&& after == before.update(i, after[i])
    &&& after[i]@ == buffer_edited(before[i]@, edit, epoch)
}

/// Whether the only thing to be done is to keep a checkpoint of a buffer.
pub open spec fn only_checkpoint(effects: Effects, b: BufferView, epoch: WorkspaceEpoch) -> bool {
    &&& effects == Effects { checkpoint: effects.checkpoint, ..no_effects() }
    &&& effects.checkpoint is Some
    &&& is_checkpoint(effects.checkpoint->0, b, epoch)
}

/// The cursor of the active tab; the start of the text without one.
pub open spec fn cursor_of(t: TabChoice) -> usize {
    if t.active_editor_tab < t.editor_tabs.len() {
        current_tab(t).cursor_byte
    } else {
        0
    }
}

/// Whether the document that is shown has a buffer.
pub open spec fn shows_buffer(app: App) -> bool {
    app.current_doc is Some && has_buffer(app, app.current_doc->0)
}

/// The place of the buffer that is shown.
pub open spec fn shown_at(app: App) -> int {
    buffer_at(app, app.current_doc->0)
}

/// The bytes of the text that is shown.
pub open spec fn shown_bytes(app: App) -> Seq<u8> {
    encode_utf8(buffer_of(app, app.current_doc->0).text)
}

/// Whether the active tab was replaced and the rest of the layout was not.
pub open spec fn tab_set(before: App, tab: EditorTabState, after: App) -> bool {
    &&& after.layout.geometry() == before.layout.geometry()
    &&& after.layout.tabs() == tabs_with_current(before.layout.tabs(), tab)
}

/// An edit of one document, made for a revision of it.
pub open spec fn edit_applied(
    before: App,
    doc_id: DocumentId,
    expected: DocumentRevision,
    edit: EditView,
    after: App,
    effects: Effects,
) -> bool {
    let i = buffer_at(before, doc_id);
    if has_buffer(before, doc_id) && before.buffers@[i]@.revision == expected {
        &&& after == App { buffers: after.buffers, ..before }
        &&& buffer_edited_at(before.buffers@, i, edit, before.epoch, after.buffers@)
        &&& only_checkpoint(effects, after.buffers@[i]@, before.epoch)
    } else {
        after == before && effects == no_effects()
    }
}

/// Text that was typed or pasted at the cursor, which moves behind it.
pub open spec fn text_typed(before: App, text: Seq<char>, after: App, effects: Effects) -> bool {
    let cur = cursor_of(before.layout.tabs());
    let i = shown_at(before);
    if shows_buffer(before) {
        &&& after == App { buffers: after.buffers, layout: after.layout, ..before }
        &&& buffer_edited_at(
            before.buffers@,
            i,
            EditView { start_byte: cur, old_end_byte: cur, replacement: text },
            before.epoch,
            after.buffers@,
        )
        &&& tab_set(
            before,
            EditorTabState {
                cursor_byte: (cur + encode_utf8(text).len()) as usize,
                selection_anchor: None,
                ..current_tab(before.layout.tabs())
            },
            after,
        )
        &&& only_checkpoint(effects, after.buffers@[i]@, before.epoch)
    } else {
        after == before && effects == no_effects()
    }
}

/// One cluster to the left of a byte.
pub open spec fn left_of(bytes: Seq<u8>, byte: int) -> int {
    let g = grapheme_index(bytes, byte);
    if g == 0 {
        0
    } else {
        grapheme_byte(bytes, g - 1)
    }
}

/// One cluster to the right of a byte.
pub open spec fn right_of(bytes: Seq<u8>, byte: int) -> int {
    let g = grapheme_index(bytes, byte);
    if g >= total_clusters(bytes) {
        bytes.len() as int
    } else {
        grapheme_byte(bytes, (g + 1) as int)
    }
}

/// What deleting backwards takes away: the selection, or the cluster before the
/// cursor if nothing is selected.
pub open spec fn deletion_range(bytes: Seq<u8>, tab: EditorTabState) -> (int, int) {
    let cur = snapped(bytes, tab.cursor_byte as int);
    match tab.selection_anchor {
        Some(anchor) => {
            let a = snapped(bytes, anchor as int);
            if a < cur {
                (a, cur)
            } else if a > cur {
                (cur, a)
            } else {
                (left_of(bytes, cur), cur)
            }
        },
        None => (left_of(bytes, cur), cur),
    }
}

/// What was deleted backwards.
pub open spec fn deleted_backward(before: App, after: App, effects: Effects) -> bool {
    let t = before.layout.tabs();
    let i = shown_at(before);
    let range = deletion_range(shown_bytes(before), current_tab(t));
    if shows_buffer(before) && t.active_editor_tab < t.editor_tabs.len() && range.0 != range.1 {
        &&& after == App { buffers: after.buffers, layout: after.layout, ..before }
        &&& buffer_edited_at(
            before.buffers@,
            i,
            EditView {
                start_byte: range.0 as usize,
                old_end_byte: range.1 as usize,
                replacement: Seq::empty(),
            },
            before.epoch,
            after.buffers@,
        )
        &&& tab_set(
            before,
            EditorTabState {
                cursor_byte: range.0 as usize,
                selection_anchor: None,
                ..current_tab(t)
            },
            after,
        )
        &&& only_checkpoint(effects, after.buffers@[i]@, before.epoch)
    } else {
        after == before && effects == no_effects()
    }
}

/// So many clusters to the right or to the left of a byte.
pub open spec fn moved_columns(bytes: Seq<u8>, byte: int, steps: int, right: bool) -> int
    decreases steps,
{
    if steps <= 0 {
        byte
    } else {
        let near = moved_columns(bytes, byte, steps - 1, right);
        if right {
            right_of(bytes, near)
        } else {
            left_of(bytes, near)
        }
    }
}

/// So many lines up or down from a byte, in the same display column.
pub open spec fn moved_lines(bytes: Seq<u8>, byte: int, delta: int) -> int {
    let cell = cell_of(bytes, byte);
    if delta == 0 {
        snapped(bytes, byte)
    } else {
        cell_byte(
            bytes,
            (CellPos {
                line: moved_line(bytes, cell.0 as int, delta) as usize,
                column: saturated(cell.1) as usize,
            }),
        )
    }
}

/// Where the cursor goes: by clusters if it moves by columns alone, else by lines.
pub open spec fn cursor_target(bytes: Seq<u8>, cursor: int, line_delta: i32, col_delta: i32) -> int {
    let cur = snapped(bytes, cursor);
    if line_delta == 0 && col_delta > 0 {
        moved_columns(bytes, cur, col_delta as int, true)
    } else if line_delta == 0 && col_delta < 0 {
        moved_columns(bytes, cur, -col_delta, false)
    } else {
        moved_lines(bytes, cur, line_delta as int)
    }
}

/// A tab whose selection starts at a cluster.
pub open spec fn anchored(bytes: Seq<u8>, tab: EditorTabState) -> EditorTabState {
    EditorTabState {
        selection_anchor: match tab.selection_anchor {
            Some(a) => Some(snapped(bytes, a as int) as usize),
            None => None,
        },
        ..tab
    }
}

/// A cursor that was moved to a byte, with the selection extended or dropped. The
/// byte is the start of a cluster.
pub open spec fn cursor_moved(before: App, byte: int, extend: bool, after: App) -> bool {
    if shows_buffer(before) {
        &&& after == App { layout: after.layout, ..before }
        &&& snapped(shown_bytes(before), byte) == byte
        &&& tab_set(
            before,
            anchored(
                shown_bytes(before),
                tab_moved(current_tab(before.layout.tabs()), byte as usize, extend),
            ),
            after,
        )
    } else {
        after == before
    }
}

/// How many lines a page is: the rows of the editor without its borders, at least
/// one.
pub open spec fn page_lines(g: Geometry) -> int {
    let h = editor_rect(g).height;
    if h > 2 {
        h - 2
    } else {
        1
    }
}

/// A byte moved to the start of its cluster, if the text is shown.
pub open spec fn snapped_if_shown(app: App, byte: usize) -> usize {
    if shows_buffer(app) {
        snapped(shown_bytes(app), byte as int) as usize
    } else {
        byte
    }
}

impl App {
    /// Edits a buffer at its current revision.
    fn edit_at(&mut self, i: usize, edit: TextEdit) -> (payload: CheckpointPayload)
        requires
            old(self).wf(),
            old(self).editable(),
            i < old(self).buffers@.len(),
        ensures
            final(self).wf(),
            *final(self) == (App { buffers: final(self).buffers, ..*old(self) }),
            buffer_edited_at(
                old(self).buffers@,
                i as int,
                edit@,
                old(self).epoch,
                final(self).buffers@,
            ),
            is_checkpoint(payload, final(self).buffers@[i as int]@, old(self).epoch),
    {
        let revision = self.buffers[i].revision();
        let epoch = self.epoch;
        let ghost before = self.buffers@;
        let r = self.buffers[i].apply_edit(revision, edit, epoch);
        assert(self.buffers@ =~= before.update(i as int, self.buffers@[i as int]));
        let (_, payload) = r.unwrap();
        payload
    }

    /// Edits a document, if the edit was made for its current revision.
    pub fn apply_buffer_edit(
        &mut self,
        doc_id: DocumentId,
        expected: DocumentRevision,
        edit: TextEdit,
    ) -> (effects: Effects)
        requires
            old(self).wf(),
            old(self).editable(),
        ensures
            final(self).wf(),
            edit_applied(*old(self), doc_id, expected, edit@, *final(self), effects),
    {
        let i: usize = self.find_buffer(doc_id);
        let mut effects = Effects::none();
        if i < self.buffers.len() && self.buffers[i].revision() == expected {
            effects.checkpoint = Some(self.edit_at(i, edit));
        }
        effects
    }

    /// Types or pastes a text at the cursor.
    pub fn type_text(&mut self, text: String) -> (effects: Effects)
        requires
            old(self).wf(),
            old(self).editable(),
            cursor_of(old(self).layout.tabs()) + encode_utf8(text@).len() <= usize::MAX,
        ensures
            final(self).wf(),
            text_typed(*old(self), text@, *final(self), effects),
    {
        let mut effects = Effects::none();
        if let Some(id) = self.current_doc {
            let i: usize = self.find_buffer(id);
            if i < self.buffers.len() {
                let cur: usize = match self.layout.current_editor() {
                    Some(tab) => tab.cursor_byte,
                    None => 0,
                };
                let added: usize = text.as_str().as_bytes().len();
                let payload = self.edit_at(i, TextEdit::insert(cur, text));
                self.layout.set_editor_cursor(cur + added);
                effects.checkpoint = Some(payload);
            }
        }
        effects
    }

    /// Deletes the selection, or the cluster before the cursor.
    pub fn delete_backward(&mut self) -> (effects: Effects)
        requires
            old(self).wf(),
            old(self).editable(),
        ensures
            final(self).wf(),
            deleted_backward(*old(self), *final(self), effects),
            ({
                let t = old(self).layout.tabs();
                let bytes = shown_bytes(*old(self));
                let c = snapped(bytes, current_tab(t).cursor_byte as int);
                shows_buffer(*old(self)) && t.active_editor_tab < t.editor_tabs.len() ==> (
                current_tab(t).selection_anchor matches Some(anchor) ==> {
                    let a = snapped(bytes, anchor as int);
                    let lo = if a < c { a } else { c };
                    let hi = if a < c { c } else { a };
                    a != c ==> encode_utf8(final(self).buffers@[shown_at(*old(self))]@.text)
                        == bytes.take(lo) + bytes.skip(hi) && current_tab(
                        final(self).layout.tabs(),
                    ).cursor_byte == lo && current_tab(
                        final(self).layout.tabs(),
                    ).selection_anchor is None
                })
            }),
    {
        let mut effects = Effects::none();
        if let Some(id) = self.current_doc {
            let i: usize = self.find_buffer(id);
            if i < self.buffers.len() && self.layout.active_editor_tab
                < self.layout.editor_tabs.len() {
                let tab: EditorTabState = self.layout.editor_tabs[self.layout.active_editor_tab];
                let rope = self.buffers[i].rope();
                let cur: usize = snap_to_grapheme_start(rope, tab.cursor_byte);
                let selected: Option<usize> = match tab.selection_anchor {
                    Some(anchor) => {
                        let a: usize = snap_to_grapheme_start(rope, anchor);
                        if a != cur {
                            Some(a)
                        } else {
                            None
                        }
                    },
                    None => None,
                };
                let (start, end): (usize, usize) = match selected {
                    Some(a) => if a < cur {
                        (a, cur)
                    } else {
                        (cur, a)
                    },
                    None => (move_left(rope, cur), cur),
                };
                if start != end {
                    let edit = TextEdit::delete(start..end);
                    assert(edit@.replacement =~= Seq::empty());
                    proof {
                        let text = self.buffers@[i as int]@.text;
                        let bytes = encode_utf8(text);
                        if selected is Some {
                            edits_replace_exactly_their_range(text, edit@);
                            assert(encode_utf8(Seq::<char>::empty()) =~= Seq::<u8>::empty());
                            assert(bytes.take(start as int) + Seq::<u8>::empty() + bytes.skip(
                                end as int,
                            ) =~= bytes.take(start as int) + bytes.skip(end as int));
                        }
                    }
                    let payload = self.edit_at(i, edit);
                    self.layout.set_editor_cursor(start);
                    effects.checkpoint = Some(payload);
                }
            }
        }
        effects
    }

    /// Puts the cursor of the active tab at a byte of a buffer, with the selection
    /// extended or dropped.
    fn put_cursor(&mut self, i: usize, byte: usize, extend: bool)
        requires
            old(self).wf(),
            shows_buffer(*old(self)),
            i == shown_at(*old(self)),
            snapped(shown_bytes(*old(self)), byte as int) == byte,
        ensures
            final(self).wf(),
            cursor_moved(*old(self), byte as int, extend, *final(self)),
    {
        self.layout.extend_or_move_cursor(byte, extend);
        if self.layout.active_editor_tab < self.layout.editor_tabs.len() {
            let tab: EditorTabState = self.layout.editor_tabs[self.layout.active_editor_tab];
            if let Some(anchor) = tab.selection_anchor {
                let a: usize = snap_to_grapheme_start(self.buffers[i].rope(), anchor);
                self.layout.set_current_editor(EditorTabState { selection_anchor: Some(a), ..tab });
            }
        }
        proof {
            let t = old(self).layout.tabs();
            if t.active_editor_tab < t.editor_tabs.len() {
                assert(self.layout.tabs().editor_tabs =~= tabs_with_current(
                    t,
                    anchored(
                        shown_bytes(*old(self)),
                        tab_moved(current_tab(t), byte, extend),
                    ),
                ).editor_tabs);
            }
        }
    }

    /// Moves the cursor by clusters or by lines.
    pub fn move_cursor(&mut self, line_delta: i32, col_delta: i32, extend: bool)
        requires
            old(self).wf(),
        ensures
            final(self).wf(),
            cursor_moved(
                *old(self),
                cursor_target(
                    shown_bytes(*old(self)),
                    cursor_of(old(self).layout.tabs()) as int,
                    line_delta,
                    col_delta,
                ),
                extend,
                *final(self),
            ),
    {
        if let Some(id) = self.current_doc {
            let i: usize = self.find_buffer(id);
            if i < self.buffers.len() {
                let start: usize = match self.layout.current_editor() {
                    Some(tab) => tab.cursor_byte,
                    None => 0,
                };
                let rope = self.buffers[i].rope();
                let ghost bytes = shown_bytes(*self);
                let cur: usize = snap_to_grapheme_start(rope, start);
                let target: usize = if line_delta == 0 && col_delta != 0 {
                    let right = col_delta > 0;
                    let steps: u64 = if right {
                        col_delta as u64
                    } else {
                        (-(col_delta as i64)) as u64
                    };
                    let mut p: usize = cur;
                    let mut n: u64 = 0;
                    while n < steps
                        invariant
                            n <= steps,
                            bytes == crate::rope::rope_bytes(*rope),
                            p == moved_columns(bytes, cur as int, n as int, right),
                            snapped(bytes, p as int) == p,
                        decreases steps - n,
                    {
                        p = if right {
                            move_right(rope, p)
                        } else {
                            move_left(rope, p)
                        };
                        n += 1;
                    }
                    p
                } else {
                    move_vertical(rope, cur, line_delta)
                };
                self.put_cursor(i, target, extend);
            }
        }
    }

    /// Moves the cursor by a page.
    pub fn page(&mut self, up: bool, extend: bool)
        requires
            old(self).wf(),
        ensures
            final(self).wf(),
            cursor_moved(
                *old(self),
                moved_lines(
                    shown_bytes(*old(self)),
                    snapped(
                        shown_bytes(*old(self)),
                        cursor_of(old(self).layout.tabs()) as int,
                    ),
                    if up {
                        -page_lines(old(self).layout.geometry())
                    } else {
                        page_lines(old(self).layout.geometry())
                    },
                ),
                extend,
                *final(self),
            ),
    {
        if let Some(id) = self.current_doc {
            let i: usize = self.find_buffer(id);
            if i < self.buffers.len() {
                let start: usize = match self.layout.current_editor() {
                    Some(tab) => tab.cursor_byte,
                    None => 0,
                };
                let height: i32 = self.layout.rect_editor().height as i32;
                let page: i32 = if height > 2 {
                    height - 2
                } else {
                    1
                };
                let delta: i32 = if up {
                    -page
                } else {
                    page
                };
                let rope = self.buffers[i].rope();
                let cur: usize = snap_to_grapheme_start(rope, start);
                let target: usize = move_vertical(rope, cur, delta);
                self.put_cursor(i, target, extend);
            }
        }
    }

    fn snap_shown(&self, byte: usize) -> (r: usize)
        ensures
            r == snapped_if_shown(*self, byte),
    {
        if let Some(id) = self.current_doc {
            let i: usize = self.find_buffer(id);
            if i < self.buffers.len() {
                return snap_to_grapheme_start(self.buffers[i].rope(), byte);
            }
        }
        byte
    }

    /// Puts the cursor where the mouse was clicked, and focuses the editor.
    pub fn set_cursor(&mut self, byte: usize)
        requires
            old(self).wf(),
        ensures
            final(self).wf(),
            *final(self) == (App {
                layout: final(self).layout,
                focus: Landmark::Editor,
                ..*old(self)
            }),
            tab_set(
                *old(self),
                (EditorTabState {
                    cursor_byte: snapped_if_shown(*old(self), byte),
                    selection_anchor: None,
                    ..current_tab(old(self).layout.tabs())
                }),
                *final(self),
            ),
    {
        let at: usize = self.snap_shown(byte);
        self.layout.set_editor_cursor(at);
        self.focus = Landmark::Editor;
    }

    /// Selects what the mouse was dragged over.
    pub fn set_selection(&mut self, anchor: usize, cursor: usize)
        requires
            old(self).wf(),
        ensures
            final(self).wf(),
            *final(self) == (App { layout: final(self).layout, ..*old(self) }),
            tab_set(
                *old(self),
                (EditorTabState {
                    cursor_byte: snapped_if_shown(*old(self), cursor),
                    selection_anchor: Some(snapped_if_shown(*old(self), anchor)),
                    ..current_tab(old(self).layout.tabs())
                }),
                *final(self),
            ),
    {
        let a: usize = self.snap_shown(anchor);
        let c: usize = self.snap_shown(cursor);
        self.layout.set_editor_selection(a, c);
    }
}

/// Whether a buffer is the one that is shown: the first of the current document.
pub open spec fn is_shown(app: App, i: int) -> bool {
    &&& 0 <= i < app.buffers@.len()
    &&& app.current_doc == Some(app.buffers@[i]@.id)
    &&& forall|j: int| 0 <= j < i ==> (#[trigger] app.buffers@[j])@.id != app.buffers@[i]@.id
}

/// The buffer that is shown is found.
pub proof fn lemma_shown(app: App, i: int)
    requires
        is_shown(app, i),
    ensures
        shows_buffer(app),
        shown_at(app) == i,
        shown_bytes(app) == encode_utf8(app.buffers@[i]@.text),
{
    lemma_buffer_from(app.buffers@, app.current_doc->0, 0);
}

/// With a selection whose two ends differ once they are snapped, deleting backwards
/// removes exactly the bytes between the smaller and the larger of the two, whichever
/// of them is the anchor. The cursor ends at the smaller one and nothing is selected;
/// the other documents and tabs stay as they are.
pub proof fn deleting_removes_the_selection(
    before: App,
    after: App,
    effects: Effects,
    i: int,
    tab: EditorTabState,
    anchor: usize,
    lo: int,
    hi: int,
)
    requires
        before.editable(),
        deleted_backward(before, after, effects),
        is_shown(before, i),
        before.layout.tabs().active_editor_tab < before.layout.tabs().editor_tabs.len(),
        tab == before.layout.tabs().editor_tabs[before.layout.tabs().active_editor_tab as int],
        tab.selection_anchor == Some(anchor),
        ({
            let bytes = encode_utf8(before.buffers@[i]@.text);
            let a = snapped(bytes, anchor as int);
            let c = snapped(bytes, tab.cursor_byte as int);
            lo < hi && ((a == lo && c == hi) || (a == hi && c == lo))
        }),
    ensures
        lines_cut(encode_utf8(before.buffers@[i]@.text)) ==> {
            let bytes = encode_utf8(before.buffers@[i]@.text);
            let tabs = after.layout.tabs();
            &&& encode_utf8(after.buffers@[i]@.text) == bytes.take(lo) + bytes.skip(hi)
            &&& after.buffers@[i]@.revision.0 == before.buffers@[i]@.revision.0 + 1
            &&& after.buffers@[i]@.dirty
            &&& tabs.active_editor_tab == before.layout.tabs().active_editor_tab
            &&& tabs.editor_tabs.len() == before.layout.tabs().editor_tabs.len()
            &&& tabs.editor_tabs[tabs.active_editor_tab as int].cursor_byte == lo
            &&& tabs.editor_tabs[tabs.active_editor_tab as int].selection_anchor is None
            &&& forall|j: int|
                0 <= j < before.buffers@.len() && j != i ==> #[trigger] after.buffers@[j]
                    == before.buffers@[j]
            &&& forall|j: int|
                0 <= j < tabs.editor_tabs.len() && j != tabs.active_editor_tab
                    ==> #[trigger] tabs.editor_tabs[j] == before.layout.tabs().editor_tabs[j]
        },
{
    lemma_shown(before, i);
    let text = before.buffers@[i]@.text;
    let bytes = encode_utf8(text);
    encode_utf8_valid_utf8(text);
    lemma_snapped_fits(bytes, anchor);
    lemma_snapped_fits(bytes, tab.cursor_byte);
    let edit = EditView {
        start_byte: lo as usize,
        old_end_byte: hi as usize,
        replacement: Seq::empty(),
    };
    if lines_cut(bytes) {
        edits_replace_exactly_their_range(text, edit);
        assert(encode_utf8(Seq::<char>::empty()) =~= Seq::<u8>::empty());
        assert(bytes.take(lo) + Seq::<u8>::empty() + bytes.skip(hi) =~= bytes.take(lo)
            + bytes.skip(hi));
    }
}

/// A snapped place lies at a character boundary of the text, no further than where it
/// was.
proof fn lemma_snapped_fits(bytes: Seq<u8>, byte: usize)
    requires
        valid_utf8(bytes),
    ensures
        lines_cut(bytes) ==> {
            &&& 0 <= snapped(bytes, byte as int) <= byte
            &&& snapped(bytes, byte as int) <= bytes.len()
            &&& is_char_boundary(bytes, snapped(bytes, byte as int))
            &&& snapped(bytes, snapped(bytes, byte as int)) == snapped(bytes, byte as int)
        },
{
    if byte <= bytes.len() {
        snapping_leads_to_the_last_stop(bytes, byte as int);
    } else {
        snapping_beyond_the_end(bytes, byte as int);
        snapping_leads_to_the_last_stop(bytes, bytes.len() as int);
    }
}

/// Deleting a selection does not depend on which of its ends is the cursor: after the
/// two are swapped the same text is left, with the cursor at the same place.
pub proof fn deleting_ignores_the_direction_of_the_selection(
    first: App,
    first_after: App,
    first_effects: Effects,
    second: App,
    second_after: App,
    second_effects: Effects,
    i: int,
    a: usize,
    b: usize,
)
    requires
        is_shown(first, i),
        is_shown(second, i),
        first.buffers@[i]@ == second.buffers@[i]@,
        first.epoch == second.epoch,
        first.layout.tabs().active_editor_tab < first.layout.tabs().editor_tabs.len(),
        second.layout.tabs().active_editor_tab < second.layout.tabs().editor_tabs.len(),
        current_tab(first.layout.tabs()).cursor_byte == a,
        current_tab(first.layout.tabs()).selection_anchor == Some(b),
        current_tab(second.layout.tabs()).cursor_byte == b,
        current_tab(second.layout.tabs()).selection_anchor == Some(a),
        snapped(encode_utf8(first.buffers@[i]@.text), a as int) != snapped(
            encode_utf8(first.buffers@[i]@.text),
            b as int,
        ),
        deleted_backward(first, first_after, first_effects),
        deleted_backward(second, second_after, second_effects),
    ensures
        first_after.buffers@[i]@ == second_after.buffers@[i]@,
        current_tab(first_after.layout.tabs()).cursor_byte == current_tab(
            second_after.layout.tabs(),
        ).cursor_byte,
        current_tab(first_after.layout.tabs()).selection_anchor is None,
        current_tab(second_after.layout.tabs()).selection_anchor is None,
{
    lemma_shown(first, i);
    lemma_shown(second, i);
}

/// Without a selection, deleting backwards removes exactly one cluster: the last that
/// starts before the cursor, from its start up to the cursor, which ends where the
/// cluster started. Where no cluster starts before the cursor and it stands at the
/// start of the text, nothing changes.
pub proof fn deleting_removes_one_cluster(
    before: App,
    after: App,
    effects: Effects,
    i: int,
    tab: EditorTabState,
    cur: int,
)
    requires
        before.editable(),
        deleted_backward(before, after, effects),
        is_shown(before, i),
        before.layout.tabs().active_editor_tab < before.layout.tabs().editor_tabs.len(),
        tab == before.layout.tabs().editor_tabs[before.layout.tabs().active_editor_tab as int],
        cur == snapped(encode_utf8(before.buffers@[i]@.text), tab.cursor_byte as int),
        tab.selection_anchor matches Some(a) ==> snapped(
            encode_utf8(before.buffers@[i]@.text),
            a as int,
        ) == cur,
    ensures
        lines_cut(encode_utf8(before.buffers@[i]@.text)) ==> {
            let bytes = encode_utf8(before.buffers@[i]@.text);
            let tabs = after.layout.tabs();
            let at = tabs.editor_tabs[tabs.active_editor_tab as int].cursor_byte as int;
            &&& cur == 0 ==> after == before
            &&& (exists|q: int| #[trigger] starts_cluster(bytes, q) && q < cur) ==> {
                &&& starts_cluster(bytes, at)
                &&& at < cur
                &&& forall|q: int| #[trigger] starts_cluster(bytes, q) && q < cur ==> q <= at
                &&& encode_utf8(after.buffers@[i]@.text) == bytes.take(at) + bytes.skip(cur)
                &&& tabs.editor_tabs[tabs.active_editor_tab as int].selection_anchor is None
            }
        },
{
    lemma_shown(before, i);
    let text = before.buffers@[i]@.text;
    let bytes = encode_utf8(text);
    encode_utf8_valid_utf8(text);
    lemma_snapped_fits(bytes, tab.cursor_byte);
    if lines_cut(bytes) {
        let l = left_of(bytes, cur);
        left_steps_over_one_cluster(bytes, cur, l);
        snapping_leads_to_the_last_stop(bytes, l);
        assert(deletion_range(bytes, tab) == (l, cur));
        if l != cur {
            let edit = EditView {
                start_byte: l as usize,
                old_end_byte: cur as usize,
                replacement: Seq::empty(),
            };
            edits_replace_exactly_their_range(text, edit);
            assert(encode_utf8(Seq::<char>::empty()) =~= Seq::<u8>::empty());
            assert(bytes.take(l) + Seq::<u8>::empty() + bytes.skip(cur) =~= bytes.take(l)
                + bytes.skip(cur));
        }
    }
}

/// What is typed or pasted stands at the cursor afterwards, between what stood before
/// and behind the cursor, and the cursor stands right behind it, for a cursor at a
/// character boundary. Nothing is selected, and the other documents and tabs stay.
pub proof fn typed_text_stands_at_the_cursor(
    before: App,
    text: Seq<char>,
    after: App,
    effects: Effects,
    i: int,
    cur: usize,
)
    requires
        before.editable(),
        text_typed(before, text, after, effects),
        is_shown(before, i),
        before.layout.tabs().active_editor_tab < before.layout.tabs().editor_tabs.len(),
        cur == before.layout.tabs().editor_tabs[before.layout.tabs().active_editor_tab as int].cursor_byte,
        cur + encode_utf8(text).len() <= usize::MAX,
        cur <= encode_utf8(before.buffers@[i]@.text).len(),
        is_char_boundary(encode_utf8(before.buffers@[i]@.text), cur as int),
    ensures
        ({
            let bytes = encode_utf8(before.buffers@[i]@.text);
            let tabs = after.layout.tabs();
            &&& encode_utf8(after.buffers@[i]@.text) == bytes.take(cur as int) + encode_utf8(text)
                + bytes.skip(cur as int)
            &&& after.buffers@[i]@.revision.0 == before.buffers@[i]@.revision.0 + 1
            &&& tabs.active_editor_tab == before.layout.tabs().active_editor_tab
            &&& tabs.editor_tabs.len() == before.layout.tabs().editor_tabs.len()
            &&& tabs.editor_tabs[tabs.active_editor_tab as int].cursor_byte == cur + encode_utf8(
                text,
            ).len()
            &&& tabs.editor_tabs[tabs.active_editor_tab as int].selection_anchor is None
            &&& forall|j: int|
                0 <= j < before.buffers@.len() && j != i ==> #[trigger] after.buffers@[j]
                    == before.buffers@[j]
            &&& forall|j: int|
                0 <= j < tabs.editor_tabs.len() && j != tabs.active_editor_tab
                    ==> #[trigger] tabs.editor_tabs[j] == before.layout.tabs().editor_tabs[j]
        }),
{
    lemma_shown(before, i);
    edits_replace_exactly_their_range(
        before.buffers@[i]@.text,
        EditView { start_byte: cur, old_end_byte: cur, replacement: text },
    );
}

/// An edit of a document is made if and only if it was made for the revision that the
/// document is at. The text takes the place of exactly the range that the edit names.
pub proof fn edits_are_made_for_their_revision(
    before: App,
    doc_id: DocumentId,
    expected: DocumentRevision,
    edit: EditView,
    after: App,
    effects: Effects,
    i: int,
)
    requires
        before.editable(),
        edit_applied(before, doc_id, expected, edit, after, effects),
        0 <= i < before.buffers@.len(),
        before.buffers@[i]@.id == doc_id,
        forall|j: int| 0 <= j < i ==> (#[trigger] before.buffers@[j])@.id != doc_id,
        edit.start_byte <= edit.old_end_byte <= encode_utf8(before.buffers@[i]@.text).len(),
        is_char_boundary(encode_utf8(before.buffers@[i]@.text), edit.start_byte as int),
        is_char_boundary(encode_utf8(before.buffers@[i]@.text), edit.old_end_byte as int),
    ensures
        before.buffers@[i]@.revision != expected ==> after == before,
        before.buffers@[i]@.revision == expected ==> encode_utf8(after.buffers@[i]@.text)
            == encode_utf8(before.buffers@[i]@.text).take(edit.start_byte as int) + encode_utf8(
            edit.replacement,
        ) + encode_utf8(before.buffers@[i]@.text).skip(edit.old_end_byte as int)
            && after.buffers@[i]@.revision.0 == expected.0 + 1 && after.layout == before.layout,
{
    lemma_buffer_from(before.buffers@, doc_id, 0);
    edits_replace_exactly_their_range(before.buffers@[i]@.text, edit);
}

/// Steps to one side never lead to the other, and one step leads over one cluster.
proof fn lemma_steps_keep_their_side(bytes: Seq<u8>, p: int, steps: int, right: bool)
    requires
        valid_utf8(bytes),
        lines_cut(bytes),
        0 <= p <= bytes.len(),
        snapped(bytes, p) == p,
        0 <= steps,
    ensures
        ({
            let r = moved_columns(bytes, p, steps, right);
            &&& 0 <= r <= bytes.len()
            &&& snapped(bytes, r) == r
            &&& right ==> p <= r
            &&& !right ==> r <= p
        }),
    decreases steps,
{
    if steps > 0 {
        lemma_steps_keep_their_side(bytes, p, steps - 1, right);
        let near = moved_columns(bytes, p, steps - 1, right);
        if right {
            right_steps_over_one_cluster(bytes, near, right_of(bytes, near));
        } else {
            left_steps_over_one_cluster(bytes, near, left_of(bytes, near));
        }
    }
}

/// Where the cursor goes by columns: a negative number of columns never leads forward
/// and a positive one never back. One column back leads to the start of the last
/// cluster before the cursor; one column forward leads over the one cluster that starts
/// first at or behind the cursor, to where the next starts or to the end of the text.
pub proof fn columns_lead_their_way(bytes: Seq<u8>, cursor: usize, col_delta: i32, r: int)
    requires
        valid_utf8(bytes),
        r == cursor_target(bytes, cursor as int, 0, col_delta),
        col_delta != 0,
    ensures
        lines_cut(bytes) ==> {
            let c = snapped(bytes, cursor as int);
            &&& 0 <= r <= bytes.len()
            &&& col_delta < 0 ==> r <= c
            &&& col_delta > 0 ==> c <= r
            &&& col_delta == -1 && c == 0 ==> r == 0
            &&& col_delta == -1 && (exists|q: int| #[trigger] starts_cluster(bytes, q) && q < c)
                ==> r < c && starts_cluster(bytes, r) && forall|q: int| #[trigger]
                starts_cluster(bytes, q) && q < c ==> q <= r
            &&& col_delta == 1 ==> starts_cluster(bytes, r) || r == bytes.len()
            &&& col_delta == 1 && (exists|q: int| #[trigger] starts_cluster(bytes, q) && c <= q)
                ==> c < r
            &&& col_delta == 1 && starts_cluster(bytes, c) ==> forall|q: int| #[trigger]
                starts_cluster(bytes, q) && c < q ==> r <= q
            &&& col_delta == 1 && c == bytes.len() ==> r == c
        },
{
    lemma_snapped_fits(bytes, cursor);
    if lines_cut(bytes) {
        let c = snapped(bytes, cursor as int);
        if col_delta < 0 {
            lemma_steps_keep_their_side(bytes, c, -col_delta, false);
        } else {
            lemma_steps_keep_their_side(bytes, c, col_delta as int, true);
        }
        reveal_with_fuel(moved_columns, 2);
        left_steps_over_one_cluster(bytes, c, left_of(bytes, c));
        right_steps_over_one_cluster(bytes, c, right_of(bytes, c));
        if col_delta == -1 {
            assert(r == left_of(bytes, c));
        }
        if col_delta == 1 {
            assert(r == right_of(bytes, c));
        }
    }
}

/// Moving the cursor changes the cursor of the active tab alone. With the selection
/// extended, what was selected stays anchored, at the old cursor if nothing was
/// selected; else nothing is selected afterwards.
pub proof fn moving_keeps_everything_else(
    before: App,
    byte: int,
    extend: bool,
    after: App,
    i: int,
    tab: EditorTabState,
)
    requires
        cursor_moved(before, byte, extend, after),
        is_shown(before, i),
        0 <= byte <= usize::MAX,
        before.layout.tabs().active_editor_tab < before.layout.tabs().editor_tabs.len(),
        tab == before.layout.tabs().editor_tabs[before.layout.tabs().active_editor_tab as int],
    ensures
        ({
            let bytes = encode_utf8(before.buffers@[i]@.text);
            let tabs = after.layout.tabs();
            let moved = tabs.editor_tabs[tabs.active_editor_tab as int];
            &&& after.buffers == before.buffers
            &&& after.focus == before.focus
            &&& tabs.active_editor_tab == before.layout.tabs().active_editor_tab
            &&& tabs.editor_tabs.len() == before.layout.tabs().editor_tabs.len()
            &&& moved.cursor_byte == byte
            &&& moved.doc_id == tab.doc_id
            &&& moved.scroll_line == tab.scroll_line
            &&& !extend ==> moved.selection_anchor is None
            &&& extend ==> (tab.selection_anchor matches Some(a) ==> moved.selection_anchor == Some(
                snapped(bytes, a as int) as usize,
            ))
            &&& extend && tab.selection_anchor is None ==> moved.selection_anchor == Some(
                snapped(bytes, tab.cursor_byte as int) as usize,
            )
            &&& forall|j: int|
                0 <= j < tabs.editor_tabs.len() && j != tabs.active_editor_tab
                    ==> #[trigger] tabs.editor_tabs[j] == before.layout.tabs().editor_tabs[j]
        }),
{
    lemma_shown(before, i);
}

/// Where the cursor goes by lines: to the line that many lines further on, or to the
/// first or last line where there is none. It goes to the cluster that is shown there at
/// the column that it comes from, where each cluster before it takes a cell, and to the
/// end of a line that is shorter.
pub proof fn lines_lead_their_way(
    bytes: Seq<u8>,
    cursor: usize,
    delta: int,
    from: int,
    to: int,
    r: int,
)
    requires
        valid_utf8(bytes),
        delta != 0,
        line_count(bytes) <= usize::MAX,
        from == line_breaks_before(bytes, snapped(bytes, cursor as int)),
        from + delta < 0 ==> to == 0,
        from + delta >= line_count(bytes) ==> to == line_count(bytes) - 1,
        0 <= from + delta < line_count(bytes) ==> to == from + delta,
        r == moved_lines(bytes, snapped(bytes, cursor as int), delta),
    ensures
        lines_cut(bytes) ==> 0 <= r <= bytes.len() && belongs_to_line(bytes, r, to) && (
        plain_breaks(bytes) ==> line_breaks_before(bytes, r) == to),
        lines_cut(bytes) ==> {
            let column = cell_of(bytes, cursor as int).1;
            let text = visible_text(bytes, to as nat);
            let n = cluster_starts(text).len();
            &&& is_stop(bytes, to as nat, r)
            &&& column <= usize::MAX ==> forall|k: int|
                0 <= k < n && #[trigger] cluster_column(text, k) == column && all_visible_before(
                    text,
                    k,
                ) ==> r == line_start(bytes, to as nat) + cluster_starts(text)[k]
            &&& column <= usize::MAX && cluster_column(text, n as int) <= column
                && all_visible_before(text, n as int) ==> r == visible_end(bytes, to as nat)
        },
{
    lemma_snapped_fits(bytes, cursor);
    if lines_cut(bytes) {
        let c = snapped(bytes, cursor as int);
        vertical_moves_keep_line_and_column(bytes, c, delta, from, to, r);
    }
}

} // verus!
