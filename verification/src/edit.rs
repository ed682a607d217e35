//! Replacements of a part of a text.
use std::ops::Range;
use vstd::prelude::*;
use vstd::utf8::*;

use crate::coordinate::smaller;
use crate::rope::{floor_boundary, lemma_floor_boundary};
use crate::text::{
    lemma_boundary_is_byte_offset, lemma_byte_offset_is_boundary, lemma_encode_concat,
    lemma_encode_split,
};

verus! {

/// One replacement: the bytes from `start_byte` to `old_end_byte` give way to a
/// text.
#[derive(Debug, PartialEq, Eq)]
pub struct TextEdit {
    pub start_byte: usize,
    pub old_end_byte: usize,
    pub replacement: String,
}

/// What a replacement says.
pub struct EditView {
    pub start_byte: usize,
    pub old_end_byte: usize,
    pub replacement: Seq<char>,
}

impl View for TextEdit {
    type V = EditView;

    open spec fn view(&self) -> EditView {
        EditView {
            start_byte: self.start_byte,
            old_end_byte: self.old_end_byte,
            replacement: self.replacement@,
        }
    }
}

impl TextEdit {
    /// An insertion.
    pub fn insert(at: usize, text: String) -> (edit: Self)
        ensures
            edit == (TextEdit { start_byte: at, old_end_byte: at, replacement: text }),
    {
        TextEdit { start_byte: at, old_end_byte: at, replacement: text }
    }

    /// A deletion.
    pub fn delete(range: Range<usize>) -> (edit: Self)
        ensures
            edit.start_byte == range.start,
            edit.old_end_byte == range.end,
            edit.replacement@.len() == 0,
    {
        TextEdit {
            start_byte: range.start,
            old_end_byte: range.end,
            replacement: String::new(),
        }
    }

    /// A replacement.
    pub fn replace(range: Range<usize>, text: String) -> (edit: Self)
        ensures
            edit == (TextEdit {
                start_byte: range.start,
                old_end_byte: range.end,
                replacement: text,
            }),
    {
        TextEdit { start_byte: range.start, old_end_byte: range.end, replacement: text }
    }

    /// By how many bytes the text grows.
    pub fn delta(&self) -> (d: isize)
        requires
            self.start_byte <= self.old_end_byte,
            self.old_end_byte - self.start_byte <= isize::MAX,
        ensures
            d == growth(self@),
    {
        let added: usize = self.replacement.len();
        added as isize - (self.old_end_byte - self.start_byte) as isize
    }
}

/// By how many bytes an edit makes a text grow: what it puts in less what it takes
/// out.
pub open spec fn growth(edit: EditView) -> int {
    encode_utf8(edit.replacement).len() - (edit.old_end_byte - edit.start_byte)
}

/// Where an edit starts: clamped to the text and moved back to a character
/// boundary.
pub open spec fn edit_start(bytes: Seq<u8>, edit: EditView) -> int {
    floor_boundary(bytes, smaller(edit.start_byte as int, bytes.len() as int))
}

/// Where an edit ends: clamped to the text, moved back to a character boundary,
/// and not before its start.
pub open spec fn edit_end(bytes: Seq<u8>, edit: EditView) -> int {
    let start = smaller(edit.start_byte as int, bytes.len() as int);
    let end = smaller(edit.old_end_byte as int, bytes.len() as int);
    let b = floor_boundary(
        bytes,
        if end >= start {
            end
        } else {
            start
        },
    );
    if b >= edit_start(bytes, edit) {
        b
    } else {
        edit_start(bytes, edit)
    }
}

/// A text after an edit: what stands before its start, the replacement, and what
/// stands after its end.
pub open spec fn edited(text: Seq<char>, edit: EditView) -> Seq<char> {
    let bytes = encode_utf8(text);
    decode_utf8(bytes.take(edit_start(bytes, edit))) + edit.replacement + decode_utf8(
        bytes.skip(edit_end(bytes, edit)),
    )
}

/// The ends of an edit are character boundaries in order.
pub proof fn lemma_edit_range(text: Seq<char>, edit: EditView)
    ensures
        ({
            let bytes = encode_utf8(text);
            let s = edit_start(bytes, edit);
            let e = edit_end(bytes, edit);
            &&& 0 <= s <= e <= bytes.len()
            &&& is_char_boundary(bytes, s)
            &&& is_char_boundary(bytes, e)
        }),
{
    let bytes = encode_utf8(text);
    encode_utf8_valid_utf8(text);
    let start = smaller(edit.start_byte as int, bytes.len() as int);
    let end = smaller(edit.old_end_byte as int, bytes.len() as int);
    lemma_floor_boundary(bytes, start);
    lemma_floor_boundary(
        bytes,
        if end >= start {
            end
        } else {
            start
        },
    );
}

/// An insertion grows a text by what is inserted, a deletion shrinks it by what is
/// deleted, and a replacement does both.
pub proof fn growths_add_up(from: usize, to: usize, text: Seq<char>)
    requires
        from <= to,
    ensures
        ({
            let insertion = EditView { start_byte: from, old_end_byte: from, replacement: text };
            let deletion = EditView {
                start_byte: from,
                old_end_byte: to,
                replacement: Seq::empty(),
            };
            let replacement = EditView { start_byte: from, old_end_byte: to, replacement: text };
            &&& growth(insertion) == encode_utf8(text).len()
            &&& growth(deletion) == -(to - from)
            &&& growth(replacement) == growth(insertion) + growth(deletion)
        }),
{
}

/// The number of bytes by which an edit makes a text grow is the difference of the
/// lengths after and before it, for an edit of a range of the text that starts and
/// ends at character boundaries.
pub proof fn texts_grow_by_the_growth(text: Seq<char>, edit: EditView)
    requires
        edit.start_byte <= edit.old_end_byte <= encode_utf8(text).len(),
        is_char_boundary(encode_utf8(text), edit.start_byte as int),
        is_char_boundary(encode_utf8(text), edit.old_end_byte as int),
    ensures
        encode_utf8(edited(text, edit)).len() == encode_utf8(text).len() + growth(edit),
{
    let i = lemma_boundary_is_byte_offset(text, edit.start_byte as int);
    let j = lemma_boundary_is_byte_offset(text, edit.old_end_byte as int);
    lemma_encode_split(text, i);
    lemma_encode_split(text, j);
    encode_utf8_decode_utf8(text.take(i));
    encode_utf8_decode_utf8(text.skip(j));
    lemma_encode_concat(text.take(i), edit.replacement);
    lemma_encode_concat(text.take(i) + edit.replacement, text.skip(j));
}

/// Removing a text right after it was inserted gives the text as it was, for an
/// insertion at a character boundary.
pub proof fn deletion_undoes_insertion(text: Seq<char>, insertion: EditView, deletion: EditView)
    requires
        insertion.start_byte == insertion.old_end_byte,
        insertion.start_byte <= encode_utf8(text).len(),
        is_char_boundary(encode_utf8(text), insertion.start_byte as int),
        deletion.start_byte == insertion.start_byte,
        deletion.old_end_byte == insertion.start_byte + encode_utf8(insertion.replacement).len(),
        deletion.replacement.len() == 0,
    ensures
        edited(edited(text, insertion), deletion) == text,
{
    let bytes = encode_utf8(text);
    let at = insertion.start_byte as int;
    let i = lemma_boundary_is_byte_offset(text, at);
    lemma_encode_split(text, i);
    let head = text.take(i);
    let tail = text.skip(i);
    encode_utf8_decode_utf8(head);
    encode_utf8_decode_utf8(tail);
    encode_utf8_valid_utf8(text);
    assert(edit_start(bytes, insertion) == at);
    assert(edit_end(bytes, insertion) == at);
    let after = edited(text, insertion);
    assert(after == head + insertion.replacement + tail);
    // In the new text the insertion ends where the tail starts.
    let mid = head + insertion.replacement;
    lemma_encode_concat(head, insertion.replacement);
    lemma_encode_concat(mid, tail);
    encode_utf8_valid_utf8(after);
    let nb = encode_utf8(after);
    let end = deletion.old_end_byte as int;
    assert(after.take(head.len() as int) =~= head);
    assert(after.take(mid.len() as int) =~= mid);
    assert(after.skip(mid.len() as int) =~= tail);
    lemma_byte_offset_is_boundary(after, head.len() as int);
    lemma_byte_offset_is_boundary(after, mid.len() as int);
    lemma_encode_split(after, head.len() as int);
    lemma_encode_split(after, mid.len() as int);
    assert(edit_start(nb, deletion) == at);
    assert(edit_end(nb, deletion) == end);
    assert(edited(after, deletion) =~= head + tail);
    assert(head + tail =~= text);
}

/// An edit of a range that starts and ends at character boundaries puts its text in the
/// place of exactly the bytes of that range: the bytes before it and behind it stay.
pub proof fn edits_replace_exactly_their_range(text: Seq<char>, edit: EditView)
    requires
        edit.start_byte <= edit.old_end_byte <= encode_utf8(text).len(),
        is_char_boundary(encode_utf8(text), edit.start_byte as int),
        is_char_boundary(encode_utf8(text), edit.old_end_byte as int),
    ensures
        encode_utf8(edited(text, edit)) == encode_utf8(text).take(edit.start_byte as int)
            + encode_utf8(edit.replacement) + encode_utf8(text).skip(edit.old_end_byte as int),
{
    let i = lemma_boundary_is_byte_offset(text, edit.start_byte as int);
    let j = lemma_boundary_is_byte_offset(text, edit.old_end_byte as int);
    lemma_encode_split(text, i);
    lemma_encode_split(text, j);
    encode_utf8_decode_utf8(text.take(i));
    encode_utf8_decode_utf8(text.skip(j));
    lemma_encode_concat(text.take(i), edit.replacement);
    lemma_encode_concat(text.take(i) + edit.replacement, text.skip(j));
}

/// Whatever range an edit names, the bytes before it that make whole characters stay,
/// and so do those behind it: the ends are moved back to the nearest character
/// boundary, and beyond the text to its end.
pub proof fn edits_are_kept_within_the_text(text: Seq<char>, edit: EditView, s: int, e: int)
    requires
        0 <= s <= e <= encode_utf8(text).len(),
        is_char_boundary(encode_utf8(text), s),
        is_char_boundary(encode_utf8(text), e),
        edit.start_byte <= edit.old_end_byte,
        s <= edit.start_byte,
        e <= edit.old_end_byte,
        forall|b: int|
            s < b <= edit.start_byte && b <= encode_utf8(text).len() ==> !is_char_boundary(
                encode_utf8(text),
                b,
            ),
        forall|b: int|
            e < b <= edit.old_end_byte && b <= encode_utf8(text).len() ==> !is_char_boundary(
                encode_utf8(text),
                b,
            ),
    ensures
        encode_utf8(edited(text, edit)) == encode_utf8(text).take(s) + encode_utf8(
            edit.replacement,
        ) + encode_utf8(text).skip(e),
{
    let bytes = encode_utf8(text);
    encode_utf8_valid_utf8(text);
    lemma_edit_range(text, edit);
    let start = smaller(edit.start_byte as int, bytes.len() as int);
    let end = smaller(edit.old_end_byte as int, bytes.len() as int);
    lemma_floor_boundary(bytes, start);
    lemma_floor_boundary(bytes, end);
    assert(edit_start(bytes, edit) == s);
    assert(edit_end(bytes, edit) == e);
    let i = lemma_boundary_is_byte_offset(text, s);
    let j = lemma_boundary_is_byte_offset(text, e);
    lemma_encode_split(text, i);
    lemma_encode_split(text, j);
    encode_utf8_decode_utf8(text.take(i));
    encode_utf8_decode_utf8(text.skip(j));
    lemma_encode_concat(text.take(i), edit.replacement);
    lemma_encode_concat(text.take(i) + edit.replacement, text.skip(j));
}

} // verus!
