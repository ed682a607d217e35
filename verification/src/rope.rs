//! The text of a document: a `ropey::Rope` seen as the characters it holds.
use ropey::Rope;
use vstd::prelude::*;
use vstd::utf8::*;

use crate::text::{byte_offset, lemma_boundary_after_char};

verus! {

/// `ropey::Rope`, a text kept in a balanced tree of chunks.
#[verifier::external_type_specification]
#[verifier::external_body]
pub struct ExRope(ropey::Rope);

/// The characters that a rope holds.
pub uninterp spec fn rope_chars(rope: Rope) -> Seq<char>;

/// The UTF-8 bytes that a rope holds.
pub open spec fn rope_bytes(rope: Rope) -> Seq<u8> {
    encode_utf8(rope_chars(rope))
}

/// Whether a line break ends right before byte `p`: after LF, VT or FF, after a
/// CR that no LF follows, after NEL (U+0085), LS (U+2028) or PS (U+2029).
pub open spec fn line_break_ends_at(bytes: Seq<u8>, p: int) -> bool {
    &&& 0 < p <= bytes.len()
    &&& {
        ||| 0x0a <= bytes[p - 1] <= 0x0c
        ||| bytes[p - 1] == 0x0d && !(p < bytes.len() && bytes[p] == 0x0a)
        ||| p >= 2 && bytes[p - 2] == 0xc2 && bytes[p - 1] == 0x85
        ||| p >= 3 && bytes[p - 3] == 0xe2 && bytes[p - 2] == 0x80 && (bytes[p - 1] == 0xa8
            || bytes[p - 1] == 0xa9)
    }
}

/// How many line breaks end at or before byte `b`.
pub open spec fn line_breaks_before(bytes: Seq<u8>, b: int) -> nat
    decreases b,
{
    if b <= 0 {
        0
    } else {
        line_breaks_before(bytes, b - 1) + if line_break_ends_at(bytes, b) {
            1nat
        } else {
            0nat
        }
    }
}

/// How many lines a text has; the part after the last break is a line too.
pub open spec fn line_count(bytes: Seq<u8>) -> nat {
    line_breaks_before(bytes, bytes.len() as int) + 1
}

/// Whether line `line` starts at byte `b`.
pub open spec fn line_starts_at(bytes: Seq<u8>, line: nat, b: int) -> bool {
    &&& 0 <= b <= bytes.len()
    &&& line_breaks_before(bytes, b) == line
    &&& b == 0 || line_break_ends_at(bytes, b)
}

/// `Rope::from_str` holds the given text.
pub assume_specification[ Rope::from_str ](text: &str) -> (rope: Rope)
    ensures
        rope_chars(rope) == text@,
;

/// `<Rope as Clone>::clone` holds the same text.
pub assume_specification[ <Rope as Clone>::clone ](rope: &Rope) -> (copy: Rope)
    ensures
        rope_chars(copy) == rope_chars(*rope),
;

/// `Rope::len_bytes` is the length of the UTF-8 encoding.
pub assume_specification[ Rope::len_bytes ](rope: &Rope) -> (n: usize)
    ensures
        n == rope_bytes(*rope).len(),
;

/// `Rope::len_lines` counts the line breaks and adds one.
pub assume_specification[ Rope::len_lines ](rope: &Rope) -> (n: usize)
    ensures
        n == line_count(rope_bytes(*rope)),
;

/// `Rope::byte` is the byte at an index; it panics past the end.
pub assume_specification[ Rope::byte ](rope: &Rope, byte_idx: usize) -> (b: u8)
    requires
        byte_idx < rope_bytes(*rope).len(),
    ensures
        b == rope_bytes(*rope)[byte_idx as int],
;

/// `Rope::byte_to_line` counts the line breaks that end at or before a byte; it
/// panics past the end.
pub assume_specification[ Rope::byte_to_line ](rope: &Rope, byte_idx: usize) -> (line: usize)
    requires
        byte_idx <= rope_bytes(*rope).len(),
    ensures
        line == line_breaks_before(rope_bytes(*rope), byte_idx as int),
;

/// `Rope::line_to_byte` is where a line starts, and the length of the text for
/// the line after the last; it panics beyond that.
pub assume_specification[ Rope::line_to_byte ](rope: &Rope, line_idx: usize) -> (b: usize)
    requires
        line_idx <= line_count(rope_bytes(*rope)),
    ensures
        line_idx < line_count(rope_bytes(*rope)) ==> line_starts_at(
            rope_bytes(*rope),
            line_idx as nat,
            b as int,
        ),
        line_idx == line_count(rope_bytes(*rope)) ==> b == rope_bytes(*rope).len(),
;

/// `Rope::byte_to_char` is the index of the character that a byte belongs to,
/// and the number of characters for the end; it panics past the end.
pub assume_specification[ Rope::byte_to_char ](rope: &Rope, byte_idx: usize) -> (i: usize)
    requires
        byte_idx <= rope_bytes(*rope).len(),
    ensures
        i <= rope_chars(*rope).len(),
        byte_offset(rope_chars(*rope), i as int) <= byte_idx,
        i < rope_chars(*rope).len() ==> byte_idx < byte_offset(rope_chars(*rope), i + 1),
;

/// `Rope::insert` puts a text before the character at an index; it panics past
/// the end.
pub assume_specification[ Rope::insert ](rope: &mut Rope, char_idx: usize, text: &str)
    requires
        char_idx <= rope_chars(*old(rope)).len(),
    ensures
        rope_chars(*final(rope)) == rope_chars(*old(rope)).take(char_idx as int) + text@
            + rope_chars(*old(rope)).skip(char_idx as int),
;

/// `Rope::remove` takes out the characters of a range; it panics on a reversed
/// range and past the end.
#[verifier::external_body]
pub(crate) fn rope_remove(rope: &mut Rope, start: usize, end: usize)
    requires
        start <= end <= rope_chars(*old(rope)).len(),
    ensures
        rope_chars(*final(rope)) == rope_chars(*old(rope)).take(start as int) + rope_chars(
            *old(rope),
        ).skip(end as int),
{
    rope.remove(start..end)
}

/// `Rope::byte_slice`, written out as a string: the text between two byte
/// offsets. It panics on a reversed range, past the end and off a character
/// boundary.
#[verifier::external_body]
pub(crate) fn rope_slice(rope: &Rope, start: usize, end: usize) -> (text: String)
    requires
        start <= end <= rope_bytes(*rope).len(),
        is_char_boundary(rope_bytes(*rope), start as int),
        is_char_boundary(rope_bytes(*rope), end as int),
    ensures
        encode_utf8(text@) == rope_bytes(*rope).subrange(start as int, end as int),
{
    rope.byte_slice(start..end).to_string()
}

/// `<Rope as ToString>::to_string` writes out the whole text.
#[verifier::external_body]
pub(crate) fn rope_text(rope: &Rope) -> (text: String)
    ensures
        text@ == rope_chars(*rope),
{
    rope.to_string()
}

/// The greatest character boundary at or before `b`.
pub open spec fn floor_boundary(bytes: Seq<u8>, b: int) -> int
    decreases b,
{
    if b <= 0 || is_char_boundary(bytes, b) {
        b
    } else {
        floor_boundary(bytes, b - 1)
    }
}

pub proof fn lemma_floor_boundary(bytes: Seq<u8>, b: int)
    requires
        valid_utf8(bytes),
        0 <= b <= bytes.len(),
    ensures
        0 <= floor_boundary(bytes, b) <= b,
        is_char_boundary(bytes, floor_boundary(bytes, b)),
        forall|c: int| floor_boundary(bytes, b) < c <= b ==> !is_char_boundary(bytes, c),
    decreases b,
{
    is_char_boundary_start_end_of_seq(bytes);
    if b > 0 && !is_char_boundary(bytes, b) {
        lemma_floor_boundary(bytes, b - 1);
    }
}

/// Whether a byte offset falls on a character boundary of the text.
pub fn rope_is_char_boundary(rope: &Rope, byte: usize) -> (yes: bool)
    ensures
        yes == (byte <= rope_bytes(*rope).len() && is_char_boundary(
            rope_bytes(*rope),
            byte as int,
        )),
{
    broadcast use encode_utf8_valid_utf8;

    let len: usize = rope.len_bytes();
    proof {
        is_char_boundary_start_end_of_seq(rope_bytes(*rope));
        if byte < len {
            is_char_boundary_iff_not_is_continuation_byte(rope_bytes(*rope), byte as int);
        }
    }
    if byte >= len {
        return byte == len;
    }
    let b: u8 = rope.byte(byte);
    !(0x80 <= b && b <= 0xbf)
}

/// The greatest character boundary at or before `byte`, which is clamped to the
/// end of the text.
pub fn prev_char_boundary(rope: &Rope, byte: usize) -> (b: usize)
    ensures
        b == floor_boundary(
            rope_bytes(*rope),
            if byte <= rope_bytes(*rope).len() {
                byte as int
            } else {
                rope_bytes(*rope).len() as int
            },
        ),
        b <= byte,
        b <= rope_bytes(*rope).len(),
        is_char_boundary(rope_bytes(*rope), b as int),
{
    broadcast use encode_utf8_valid_utf8;

    let len: usize = rope.len_bytes();
    let mut b: usize = if byte <= len { byte } else { len };
    let ghost top = b as int;
    proof {
        lemma_floor_boundary(rope_bytes(*rope), top);
    }
    while b > 0 && !rope_is_char_boundary(rope, b)
        invariant
            b <= top <= rope_bytes(*rope).len(),
            floor_boundary(rope_bytes(*rope), b as int) == floor_boundary(rope_bytes(*rope), top),
        decreases b,
    {
        b -= 1;
    }
    b
}

pub proof fn lemma_line_breaks_monotonic(bytes: Seq<u8>, a: int, b: int)
    requires
        a <= b,
    ensures
        line_breaks_before(bytes, a) <= line_breaks_before(bytes, b),
        line_breaks_before(bytes, b) - line_breaks_before(bytes, a) <= b - a,
    decreases b - a,
{
    if a < b {
        lemma_line_breaks_monotonic(bytes, a, b - 1);
    }
}

/// A line starts at one place only.
pub proof fn lemma_line_start_unique(bytes: Seq<u8>, line: nat, a: int, b: int)
    requires
        line_starts_at(bytes, line, a),
        line_starts_at(bytes, line, b),
    ensures
        a == b,
{
    if a < b {
        lemma_line_breaks_monotonic(bytes, a, b - 1);
    } else if b < a {
        lemma_line_breaks_monotonic(bytes, b, a - 1);
    }
}

/// Every line at or before a byte starts at or before it.
pub proof fn lemma_line_start_exists(bytes: Seq<u8>, line: nat, b: int) -> (s: int)
    requires
        0 <= b <= bytes.len(),
        line <= line_breaks_before(bytes, b),
    ensures
        line_starts_at(bytes, line, s),
        s <= b,
    decreases b,
{
    if b == 0 {
        0
    } else if line <= line_breaks_before(bytes, b - 1) {
        lemma_line_start_exists(bytes, line, b - 1)
    } else {
        b
    }
}

/// Where a line starts.
pub open spec fn line_start(bytes: Seq<u8>, line: nat) -> int {
    choose|b: int| line_starts_at(bytes, line, b)
}

/// Where a line ends, its line break included.
pub open spec fn line_end(bytes: Seq<u8>, line: nat) -> int {
    if line + 1 < line_count(bytes) {
        line_start(bytes, line + 1)
    } else {
        bytes.len() as int
    }
}

/// Whether a byte ends the visible part of a line.
pub open spec fn is_terminator(b: u8) -> bool {
    b == 0x0d || b == 0x0a
}

/// The first CR or LF at or after `from`, or `end` if there is none before it.
pub open spec fn first_terminator(bytes: Seq<u8>, from: int, end: int) -> int
    decreases end - from,
{
    if from >= end || is_terminator(bytes[from]) {
        from
    } else {
        first_terminator(bytes, from + 1, end)
    }
}

/// Where the visible part of a line ends: before its CR or LF.
pub open spec fn visible_end(bytes: Seq<u8>, line: nat) -> int {
    first_terminator(bytes, line_start(bytes, line), line_end(bytes, line))
}

/// The visible text of a line.
pub open spec fn visible_text(bytes: Seq<u8>, line: nat) -> Seq<char> {
    decode_utf8(bytes.subrange(line_start(bytes, line), visible_end(bytes, line)))
}

pub proof fn lemma_first_terminator(bytes: Seq<u8>, from: int, end: int)
    requires
        0 <= from <= end <= bytes.len(),
    ensures
        from <= first_terminator(bytes, from, end) <= end,
        forall|i: int|
            from <= i < first_terminator(bytes, from, end) ==> !is_terminator(#[trigger] bytes[i]),
        first_terminator(bytes, from, end) < end ==> is_terminator(
            bytes[first_terminator(bytes, from, end)],
        ),
    decreases end - from,
{
    if from < end && !is_terminator(bytes[from]) {
        lemma_first_terminator(bytes, from + 1, end);
    }
}

/// A line break ends on a character boundary.
pub proof fn lemma_line_break_boundary(bytes: Seq<u8>, p: int)
    requires
        valid_utf8(bytes),
        line_break_ends_at(bytes, p),
    ensures
        is_char_boundary(bytes, p),
{
    if bytes[p - 1] < 0x80 {
        lemma_boundary_after_char(bytes, p - 1);
    } else if p >= 2 && bytes[p - 2] == 0xc2 && bytes[p - 1] == 0x85 {
        lemma_boundary_after_char(bytes, p - 2);
    } else {
        lemma_boundary_after_char(bytes, p - 3);
    }
}

/// Where a line and its visible part lie in the text.
pub proof fn lemma_line_layout(bytes: Seq<u8>, line: nat)
    requires
        valid_utf8(bytes),
        line < line_count(bytes),
    ensures
        line_starts_at(bytes, line, line_start(bytes, line)),
        0 <= line_start(bytes, line) <= visible_end(bytes, line) <= line_end(bytes, line)
            <= bytes.len(),
        is_char_boundary(bytes, line_start(bytes, line)),
        is_char_boundary(bytes, visible_end(bytes, line)),
        is_char_boundary(bytes, line_end(bytes, line)),
        line + 1 < line_count(bytes) ==> line_start(bytes, line) < line_end(bytes, line),
        forall|b: int|
            line_start(bytes, line) <= b < line_end(bytes, line) ==> line_breaks_before(bytes, b)
                == line,
        line + 1 == line_count(bytes) ==> line_breaks_before(bytes, bytes.len() as int) == line,
        visible_end(bytes, line) < line_end(bytes, line) || line + 1 == line_count(bytes)
            ==> line_breaks_before(bytes, visible_end(bytes, line)) == line,
{
    let n = bytes.len() as int;
    let _ = lemma_line_start_exists(bytes, line, n);
    let s = line_start(bytes, line);
    is_char_boundary_start_end_of_seq(bytes);
    if s > 0 {
        lemma_line_break_boundary(bytes, s);
    }
    if line + 1 < line_count(bytes) {
        let _ = lemma_line_start_exists(bytes, line + 1, n);
        let e = line_start(bytes, line + 1);
        assert(line_starts_at(bytes, line + 1, e));
        if e <= s {
            lemma_line_breaks_monotonic(bytes, e, s);
        }
        lemma_line_break_boundary(bytes, e);
        assert forall|b: int| s <= b < e implies line_breaks_before(bytes, b) == line by {
            lemma_line_breaks_monotonic(bytes, s, b);
            lemma_line_breaks_monotonic(bytes, b, e - 1);
        }
    } else {
        assert forall|b: int| s <= b <= n implies line_breaks_before(bytes, b) == line by {
            lemma_line_breaks_monotonic(bytes, s, b);
            lemma_line_breaks_monotonic(bytes, b, n);
        }
    }
    let e = line_end(bytes, line);
    let v = visible_end(bytes, line);
    lemma_first_terminator(bytes, s, e);
    if v < e {
        assert(is_terminator(bytes[v]));
        is_char_boundary_iff_not_is_continuation_byte(bytes, v);
        assert(!is_continuation_byte(bytes[v]));
    }
}

} // verus!
