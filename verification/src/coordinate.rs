//! Conversions between byte offsets, terminal cells, UTF-16 positions and
//! grapheme cluster indices of a document.
use ropey::Rope;
use unicode_segmentation::UnicodeSegmentation;
use unicode_width::UnicodeWidthStr;
use vstd::prelude::*;
use vstd::utf8::*;

use crate::layout::Rect;
use crate::rope::{
    first_terminator, floor_boundary, is_terminator, line_break_ends_at, lemma_first_terminator,
    lemma_floor_boundary, lemma_line_break_boundary, lemma_line_breaks_monotonic, lemma_line_layout, lemma_line_start_exists,
    lemma_line_start_unique, line_breaks_before, line_count, line_end, line_start, line_starts_at,
    prev_char_boundary, rope_bytes, rope_slice, visible_end, visible_text,
};
use crate::text::{
    byte_offset, char_len, chars_of, lemma_boundary_is_byte_offset, lemma_boundary_of_prefix,
    lemma_boundary_of_suffix, lemma_byte_offset_ends, lemma_byte_offset_monotonic,
    lemma_byte_offset_step, lemma_char_len, lemma_encode_split, slice_bytes, str_eq,
};

verus! {

/// A position on the display: a line and a column in terminal cells.
#[derive(Clone, Copy, PartialEq, Eq, Debug, Hash, Structural)]
pub struct CellPos {
    pub line: usize,
    pub column: usize,
}

impl CellPos {
    pub fn new(line: usize, column: usize) -> (pos: Self)
        ensures
            pos.line == line,
            pos.column == column,
    {
        CellPos { line, column }
    }
}

impl Default for CellPos {
    fn default() -> (pos: Self)
        ensures
            pos.line == 0,
            pos.column == 0,
    {
        CellPos { line: 0, column: 0 }
    }
}

/// How many terminal cells a tab takes.
pub const TAB_CELL_WIDTH: usize = 4;

/// The byte offsets at which the extended grapheme clusters of a text start.
pub uninterp spec fn cluster_starts(text: Seq<char>) -> Seq<usize>;

/// The display width of a text in terminal cells.
pub uninterp spec fn display_width(text: Seq<char>) -> usize;

/// Whether offsets cut a text into non-empty pieces: they start at its
/// beginning, grow, stay below its length and fall on character boundaries.
pub open spec fn cuts_text(starts: Seq<usize>, text: Seq<char>) -> bool {
    &&& starts.len() == 0 <==> text.len() == 0
    &&& starts.len() > 0 ==> starts[0] == 0
    &&& forall|i: int, j: int| 0 <= i < j < starts.len() ==> starts[i] < starts[j]
    &&& forall|i: int|
        0 <= i < starts.len() ==> #[trigger] starts[i] < encode_utf8(text).len()
            && is_char_boundary(encode_utf8(text), starts[i] as int)
}

/// `UnicodeSegmentation::grapheme_indices` with extended clusters: where each
/// cluster starts. The clusters follow each other without gaps from the start of
/// the text to its end.
#[verifier::external_body]
fn grapheme_starts(text: &str) -> (starts: Vec<usize>)
    ensures
        starts@ == cluster_starts(text@),
        cuts_text(starts@, text@),
{
    text.grapheme_indices(true).map(|(start, _)| start).collect()
}

/// `UnicodeWidthStr::width`: the width of a text in terminal cells.
#[verifier::external_body]
fn unicode_width(text: &str) -> (width: usize)
    ensures
        width == display_width(text@),
{
    text.width()
}

/// The cells that one cluster takes.
pub open spec fn cluster_width(cluster: Seq<char>) -> usize {
    if cluster == seq!['\t'] {
        TAB_CELL_WIDTH
    } else {
        display_width(cluster)
    }
}

/// Where cluster `i` of a text ends.
pub open spec fn cluster_end(text: Seq<char>, i: int) -> int {
    if i + 1 < cluster_starts(text).len() {
        cluster_starts(text)[i + 1] as int
    } else {
        encode_utf8(text).len() as int
    }
}

/// The characters of cluster `i` of a text.
pub open spec fn cluster(text: Seq<char>, i: int) -> Seq<char> {
    decode_utf8(encode_utf8(text).subrange(cluster_starts(text)[i] as int, cluster_end(text, i)))
}

/// The column that lies after the first `i` of some widths.
pub open spec fn column_at(widths: Seq<usize>, i: int) -> nat
    decreases i,
{
    if i <= 0 {
        0
    } else {
        column_at(widths, i - 1) + widths[i - 1] as nat
    }
}

/// The first index, from `i` on, at whose width a column lies, or a width that
/// starts there; the number of widths if there is none.
pub open spec fn index_at(widths: Seq<usize>, column: int, i: int) -> int
    decreases widths.len() - i,
{
    if i >= widths.len() || column_at(widths, i) == column || column_at(widths, i + 1) > column {
        i
    } else {
        index_at(widths, column, i + 1)
    }
}

/// The cells that the clusters of a line take.
pub open spec fn cluster_widths(text: Seq<char>) -> Seq<usize> {
    Seq::new(cluster_starts(text).len(), |i: int| cluster_width(cluster(text, i)))
}

/// The column at which cluster `i` of a line is shown.
pub open spec fn cluster_column(text: Seq<char>, i: int) -> nat {
    column_at(cluster_widths(text), i)
}

/// How many offsets lie before `rel`.
pub open spec fn count_before(starts: Seq<usize>, rel: int) -> nat
    decreases starts.len(),
{
    if starts.len() == 0 {
        0
    } else {
        count_before(starts.drop_last(), rel) + if starts.last() < rel {
            1nat
        } else {
            0nat
        }
    }
}

/// The last offset at or before `rel`, or zero.
pub open spec fn last_at_or_before(starts: Seq<usize>, rel: int) -> int
    decreases starts.len(),
{
    if starts.len() == 0 {
        0
    } else if starts.last() <= rel {
        starts.last() as int
    } else {
        last_at_or_before(starts.drop_last(), rel)
    }
}

/// A byte offset kept within a text.
pub open spec fn within(bytes: Seq<u8>, byte: int) -> int {
    if byte <= bytes.len() {
        byte
    } else {
        bytes.len() as int
    }
}

/// A byte offset moved back to a character boundary of the text.
pub open spec fn clamp_byte(bytes: Seq<u8>, byte: int) -> int {
    floor_boundary(bytes, within(bytes, byte))
}

/// The start of the cluster that holds a byte, or the end of the visible text of
/// its line if the byte lies there or beyond.
pub open spec fn snapped(bytes: Seq<u8>, byte: int) -> int {
    let b = clamp_byte(bytes, byte);
    let line = line_breaks_before(bytes, b);
    if b >= visible_end(bytes, line) {
        visible_end(bytes, line)
    } else {
        line_start(bytes, line) + last_at_or_before(
            cluster_starts(visible_text(bytes, line)),
            b - line_start(bytes, line),
        )
    }
}

/// Whether a cursor can stand at a place of a line: at the start of a cluster, or at
/// the end of the visible text.
pub open spec fn is_stop(bytes: Seq<u8>, line: nat, p: int) -> bool {
    p == visible_end(bytes, line) || exists|k: int|
        0 <= k < cluster_starts(visible_text(bytes, line)).len() && p == line_start(bytes, line)
            + #[trigger] cluster_starts(visible_text(bytes, line))[k]
}

/// The visible part of one line of a document.
struct VisibleLine {
    start: usize,
    text: String,
    starts: Vec<usize>,
}

impl VisibleLine {
    spec fn shows(&self, bytes: Seq<u8>, line: nat) -> bool {
        &&& self.start == line_start(bytes, line)
        &&& self.text@ == visible_text(bytes, line)
        &&& encode_utf8(self.text@) == bytes.subrange(
            line_start(bytes, line),
            visible_end(bytes, line),
        )
        &&& self.starts@ == cluster_starts(self.text@)
        &&& cuts_text(self.starts@, self.text@)
    }
}

/// Searching a piece of a text finds what searching that part of the text finds.
proof fn lemma_first_terminator_shift(bytes: Seq<u8>, start: int, end: int, from: int)
    requires
        0 <= start <= from <= end <= bytes.len(),
    ensures
        first_terminator(bytes.subrange(start, end), from - start, end - start) + start
            == first_terminator(bytes, from, end),
    decreases end - from,
{
    if from < end && !is_terminator(bytes[from]) {
        lemma_first_terminator_shift(bytes, start, end, from + 1);
    }
}

/// Where the visible part of a line ends: at its first CR or LF.
fn line_terminator_start(line: &str) -> (stop: usize)
    ensures
        stop == first_terminator(encode_utf8(line@), 0, encode_utf8(line@).len() as int),
        stop <= encode_utf8(line@).len(),
{
    let bytes: &[u8] = line.as_bytes();
    let mut i: usize = 0;
    while i < bytes.len() && bytes[i] != 0x0d && bytes[i] != 0x0a
        invariant
            bytes@ == encode_utf8(line@),
            i <= bytes@.len(),
            first_terminator(bytes@, 0, bytes@.len() as int) == first_terminator(
                bytes@,
                i as int,
                bytes@.len() as int,
            ),
        decreases bytes@.len() - i,
    {
        i += 1;
    }
    i
}

/// The visible part of a line.
fn visible_line(rope: &Rope, line: usize) -> (v: VisibleLine)
    requires
        line < line_count(rope_bytes(*rope)),
    ensures
        v.shows(rope_bytes(*rope), line as nat),
{
    broadcast use encode_utf8_valid_utf8;

    let ghost bytes = rope_bytes(*rope);
    let start: usize = rope.line_to_byte(line);
    let end: usize = if line < rope.len_lines() - 1 {
        rope.line_to_byte(line + 1)
    } else {
        rope.len_bytes()
    };
    proof {
        lemma_line_layout(bytes, line as nat);
        lemma_line_start_unique(bytes, line as nat, start as int, line_start(bytes, line as nat));
        if line + 1 < line_count(bytes) {
            lemma_line_layout(bytes, (line + 1) as nat);
            lemma_line_start_unique(
                bytes,
                (line + 1) as nat,
                end as int,
                line_start(bytes, (line + 1) as nat),
            );
        }
    }
    let slice = rope_slice(rope, start, end);
    let stop: usize = line_terminator_start(slice.as_str());
    proof {
        let piece = bytes.subrange(start as int, end as int);
        lemma_first_terminator_shift(bytes, start as int, end as int, start as int);
        assert(stop + start == visible_end(bytes, line as nat));
        lemma_boundary_of_suffix(bytes, start as int, visible_end(bytes, line as nat));
        lemma_boundary_of_suffix(bytes, start as int, end as int);
        lemma_boundary_of_prefix(
            bytes.subrange(start as int, bytes.len() as int),
            stop as int,
            end - start,
        );
        assert(bytes.subrange(start as int, bytes.len() as int).subrange(0, end - start)
            =~= piece);
        is_char_boundary_start_end_of_seq(piece);
    }
    let text = slice_bytes(slice.as_str(), 0, stop).to_owned();
    proof {
        assert(encode_utf8(text@) =~= bytes.subrange(
            start as int,
            visible_end(bytes, line as nat),
        ));
        encode_utf8_decode_utf8(text@);
    }
    let starts = grapheme_starts(text.as_str());
    VisibleLine { start, text, starts }
}

/// The line that a byte lies on starts at or before it, and the byte lies before
/// the end of the line unless it is the last one.
proof fn lemma_line_of_byte(bytes: Seq<u8>, b: int)
    requires
        valid_utf8(bytes),
        0 <= b <= bytes.len(),
    ensures
        line_breaks_before(bytes, b) < line_count(bytes),
        line_start(bytes, line_breaks_before(bytes, b)) <= b,
        b < line_end(bytes, line_breaks_before(bytes, b)) || line_breaks_before(bytes, b) + 1
            == line_count(bytes),
        b <= line_end(bytes, line_breaks_before(bytes, b)),
{
    let line = line_breaks_before(bytes, b);
    lemma_line_breaks_monotonic(bytes, b, bytes.len() as int);
    lemma_line_layout(bytes, line);
    let s = lemma_line_start_exists(bytes, line, b);
    lemma_line_start_unique(bytes, line, s, line_start(bytes, line));
    if line + 1 < line_count(bytes) {
        lemma_line_layout(bytes, line + 1);
        let e = line_start(bytes, line + 1);
        if e <= b {
            lemma_line_breaks_monotonic(bytes, e, b);
        }
    }
}

/// The line that holds a byte; the last line for the end and beyond.
fn line_for_byte(rope: &Rope, byte: usize) -> (line: usize)
    ensures
        line == line_breaks_before(
            rope_bytes(*rope),
            within(rope_bytes(*rope), byte as int),
        ),
        line < line_count(rope_bytes(*rope)),
{
    broadcast use encode_utf8_valid_utf8;

    let len: usize = rope.len_bytes();
    let b: usize = if byte <= len { byte } else { len };
    proof {
        lemma_line_of_byte(rope_bytes(*rope), b as int);
    }
    rope.byte_to_line(b)
}

/// The last offset at or before `rel`, or zero.
pub fn last_start(starts: &Vec<usize>, rel: usize) -> (candidate: usize)
    ensures
        candidate == last_at_or_before(starts@, rel as int),
{
    let mut candidate: usize = 0;
    for i in 0..starts.len()
        invariant
            candidate == last_at_or_before(starts@.take(i as int), rel as int),
    {
        assert(starts@.take(i + 1).drop_last() =~= starts@.take(i as int));
        if starts[i] <= rel {
            candidate = starts[i];
        }
    }
    assert(starts@.take(starts@.len() as int) =~= starts@);
    candidate
}

/// How many offsets lie before `rel`.
pub fn starts_before(starts: &Vec<usize>, rel: usize) -> (n: usize)
    ensures
        n == count_before(starts@, rel as int),
        n <= starts@.len(),
{
    let mut n: usize = 0;
    for i in 0..starts.len()
        invariant
            n == count_before(starts@.take(i as int), rel as int),
            n <= i,
    {
        assert(starts@.take(i + 1).drop_last() =~= starts@.take(i as int));
        if starts[i] < rel {
            n += 1;
        }
    }
    assert(starts@.take(starts@.len() as int) =~= starts@);
    n
}

/// In growing offsets, the last one at or before `rel` is the one whose
/// successor lies beyond it, and as many as its index lie before it.
proof fn lemma_starts(starts: Seq<usize>, rel: int, k: int)
    requires
        forall|i: int, j: int| 0 <= i < j < starts.len() ==> starts[i] < starts[j],
        0 <= k < starts.len(),
        starts[k] <= rel,
        k + 1 < starts.len() ==> rel < starts[k + 1],
    ensures
        last_at_or_before(starts, rel) == starts[k],
        count_before(starts, starts[k] as int) == k,
    decreases starts.len(),
{
    let front = starts.drop_last();
    if k + 1 < starts.len() {
        lemma_starts(front, rel, k);
        assert(starts.last() > rel);
    } else {
        lemma_count_all(front, starts[k] as int);
    }
}

/// If all offsets lie before `rel`, all are counted.
proof fn lemma_count_all(starts: Seq<usize>, rel: int)
    requires
        forall|i: int| 0 <= i < starts.len() ==> #[trigger] starts[i] < rel,
    ensures
        count_before(starts, rel) == starts.len(),
    decreases starts.len(),
{
    if starts.len() > 0 {
        lemma_count_all(starts.drop_last(), rel);
    }
}

/// Offsets that cut a text: some cluster holds each offset below its length.
proof fn lemma_cluster_of(starts: Seq<usize>, text: Seq<char>, rel: int) -> (k: int)
    requires
        cuts_text(starts, text),
        0 <= rel < encode_utf8(text).len(),
    ensures
        0 <= k < starts.len(),
        starts[k] <= rel,
        k + 1 < starts.len() ==> rel < starts[k + 1],
        last_at_or_before(starts, rel) == starts[k],
        count_before(starts, starts[k] as int) == k,
{
    assert(starts.len() > 0) by {
        if text.len() == 0 {
            assert(encode_utf8(text).len() == 0);
        }
    }
    let k = lemma_cluster_search(starts, rel, starts.len() as int);
    lemma_starts(starts, rel, k);
    k
}

proof fn lemma_cluster_search(starts: Seq<usize>, rel: int, n: int) -> (k: int)
    requires
        0 < n <= starts.len(),
        starts[0] <= rel,
        n < starts.len() ==> rel < starts[n],
    ensures
        0 <= k < n,
        starts[k] <= rel,
        k + 1 < starts.len() ==> rel < starts[k + 1],
    decreases n,
{
    if starts[n - 1] <= rel {
        n - 1
    } else {
        lemma_cluster_search(starts, rel, n - 1)
    }
}

/// A snapped position is a character boundary of its line and snaps to itself.
proof fn lemma_snapped(bytes: Seq<u8>, byte: int)
    requires
        valid_utf8(bytes),
        0 <= byte,
        ({
            let line = line_breaks_before(bytes, clamp_byte(bytes, byte));
            cuts_text(cluster_starts(visible_text(bytes, line)), visible_text(bytes, line))
        }),
    ensures
        ({
            let line = line_breaks_before(bytes, clamp_byte(bytes, byte));
            let r = snapped(bytes, byte);
            &&& 0 <= line_start(bytes, line) <= r <= visible_end(bytes, line) <= bytes.len()
            &&& r <= clamp_byte(bytes, byte)
            &&& is_char_boundary(bytes, r)
            &&& line_breaks_before(bytes, r) == line
            &&& snapped(bytes, r) == r
        }),
{
    lemma_floor_boundary(bytes, within(bytes, byte));
    let b = clamp_byte(bytes, byte);
    lemma_line_of_byte(bytes, b);
    let line = line_breaks_before(bytes, b);
    lemma_line_layout(bytes, line);
    let ls = line_start(bytes, line);
    let ve = visible_end(bytes, line);
    let text = visible_text(bytes, line);
    let starts = cluster_starts(text);
    if b >= ve {
        assert(ve < line_end(bytes, line) || line + 1 == line_count(bytes));
        assert(line_breaks_before(bytes, ve) == line);
    } else {
        lemma_line_text(bytes, line);
        let k = lemma_cluster_of(starts, text, b - ls);
        lemma_cluster_position(bytes, line, k);
    }
}

/// Moving back to a character boundary does not leave the line.
proof fn lemma_floor_keeps_line(bytes: Seq<u8>, b: int)
    requires
        valid_utf8(bytes),
        0 <= b <= bytes.len(),
    ensures
        line_breaks_before(bytes, floor_boundary(bytes, b)) == line_breaks_before(bytes, b),
    decreases b,
{
    if b > 0 && !is_char_boundary(bytes, b) {
        lemma_floor_keeps_line(bytes, b - 1);
        if line_break_ends_at(bytes, b) {
            lemma_line_break_boundary(bytes, b);
        }
    }
}

/// A snapped position is the last stop of its line at or before the byte.
proof fn lemma_snapped_is_last_stop(bytes: Seq<u8>, byte: int)
    requires
        valid_utf8(bytes),
        0 <= byte,
        ({
            let line = line_breaks_before(bytes, clamp_byte(bytes, byte));
            cuts_text(cluster_starts(visible_text(bytes, line)), visible_text(bytes, line))
        }),
    ensures
        ({
            let m = within(bytes, byte);
            let line = line_breaks_before(bytes, m);
            let r = snapped(bytes, byte);
            &&& line == line_breaks_before(bytes, clamp_byte(bytes, byte))
            &&& r <= m
            &&& is_stop(bytes, line, r)
            &&& forall|p: int| #[trigger] is_stop(bytes, line, p) && p <= m ==> p <= r
        }),
{
    let m = within(bytes, byte);
    lemma_floor_boundary(bytes, m);
    lemma_floor_keeps_line(bytes, m);
    lemma_snapped(bytes, byte);
    let b = clamp_byte(bytes, byte);
    let line = line_breaks_before(bytes, b);
    let r = snapped(bytes, byte);
    lemma_line_of_byte(bytes, b);
    lemma_line_layout(bytes, line);
    lemma_line_text(bytes, line);
    let ls = line_start(bytes, line);
    let ve = visible_end(bytes, line);
    let text = visible_text(bytes, line);
    let starts = cluster_starts(text);
    if b < ve {
        let k = lemma_cluster_of(starts, text, b - ls);
        assert(r == ls + starts[k]);
        assert(is_stop(bytes, line, r));
        assert forall|p: int| #[trigger] is_stop(bytes, line, p) && p <= m implies p <= r by {
            assert(p != ve);
            let j = choose|j: int| 0 <= j < starts.len() && p == ls + #[trigger] starts[j];
            lemma_cluster_position(bytes, line, j);
            assert(p <= b);
            if j > k {
                assert(starts[k + 1] <= starts[j]);
            }
        }
    } else {
        assert forall|p: int| #[trigger] is_stop(bytes, line, p) && p <= m implies p <= r by {
            if p != ve {
                let j = choose|j: int| 0 <= j < starts.len() && p == ls + #[trigger] starts[j];
                lemma_cluster_position(bytes, line, j);
            }
        }
    }
}

/// The visible text of a line encodes to its bytes.
proof fn lemma_line_text(bytes: Seq<u8>, line: nat)
    requires
        valid_utf8(bytes),
        line < line_count(bytes),
    ensures
        encode_utf8(visible_text(bytes, line)) == bytes.subrange(
            line_start(bytes, line),
            visible_end(bytes, line),
        ),
{
    lemma_line_layout(bytes, line);
    let ls = line_start(bytes, line);
    let ve = visible_end(bytes, line);
    valid_utf8_split(bytes, ls);
    lemma_boundary_of_suffix(bytes, ls, ve);
    let tail = bytes.subrange(ls, bytes.len() as int);
    valid_utf8_split(tail, ve - ls);
    assert(tail.subrange(0, ve - ls) =~= bytes.subrange(ls, ve));
    decode_utf8_encode_utf8(bytes.subrange(ls, ve));
}

/// The start of a cluster of a line is a snapped position of that line.
proof fn lemma_cluster_position(bytes: Seq<u8>, line: nat, k: int)
    requires
        valid_utf8(bytes),
        line < line_count(bytes),
        cuts_text(cluster_starts(visible_text(bytes, line)), visible_text(bytes, line)),
        0 <= k < cluster_starts(visible_text(bytes, line)).len(),
    ensures
        ({
            let starts = cluster_starts(visible_text(bytes, line));
            let r = line_start(bytes, line) + starts[k];
            &&& line_start(bytes, line) <= r < visible_end(bytes, line) <= bytes.len()
            &&& is_char_boundary(bytes, r)
            &&& line_breaks_before(bytes, r) == line
            &&& snapped(bytes, r) == r
            &&& count_before(starts, starts[k] as int) == k
        }),
{
    lemma_line_layout(bytes, line);
    lemma_line_text(bytes, line);
    let text = visible_text(bytes, line);
    let starts = cluster_starts(text);
    let ls = line_start(bytes, line);
    let ve = visible_end(bytes, line);
    let r = ls + starts[k];
    lemma_boundary_of_suffix(bytes, ls, ve);
    let tail = bytes.subrange(ls, bytes.len() as int);
    lemma_boundary_of_suffix(bytes, ls, r);
    let piece = bytes.subrange(ls, ve);
    assert(tail.subrange(0, ve - ls) =~= piece);
    valid_utf8_split(tail, ve - ls);
    is_char_boundary_iff_not_is_continuation_byte(piece, starts[k] as int);
    is_char_boundary_iff_not_is_continuation_byte(bytes, r);
    assert(piece[starts[k] as int] == bytes[r]);
    lemma_starts(starts, starts[k] as int, k);
}

/// Moves a byte offset back to the start of the grapheme cluster that holds it.
/// At or beyond the end of the visible text of its line, it moves to that end.
/// So the result is the last of these places at or before the byte. It is a
/// character boundary, and snapping it again changes nothing.
pub fn snap_to_grapheme_start(rope: &Rope, byte: usize) -> (r: usize)
    ensures
        r == snapped(rope_bytes(*rope), byte as int),
        r <= rope_bytes(*rope).len(),
        is_char_boundary(rope_bytes(*rope), r as int),
        snapped(rope_bytes(*rope), r as int) == r,
        line_breaks_before(rope_bytes(*rope), r as int) == line_breaks_before(
            rope_bytes(*rope),
            clamp_byte(rope_bytes(*rope), byte as int),
        ),
        ({
            let m = within(rope_bytes(*rope), byte as int);
            let line = line_breaks_before(rope_bytes(*rope), m);
            &&& r <= m
            &&& line_breaks_before(rope_bytes(*rope), r as int) == line
            &&& is_stop(rope_bytes(*rope), line, r as int)
            &&& forall|p: int| #[trigger]
                is_stop(rope_bytes(*rope), line, p) && p <= m ==> p <= r
        }),
{
    broadcast use encode_utf8_valid_utf8;

    let ghost bytes = rope_bytes(*rope);
    let b: usize = prev_char_boundary(rope, byte);
    let line: usize = line_for_byte(rope, b);
    let v = visible_line(rope, line);
    proof {
        lemma_line_of_byte(bytes, b as int);
        lemma_line_layout(bytes, line as nat);
        lemma_snapped(bytes, byte as int);
        lemma_snapped_is_last_stop(bytes, byte as int);
    }
    let rel: usize = b - v.start;
    let len: usize = v.text.as_str().as_bytes().len();
    if rel >= len {
        v.start + len
    } else {
        let candidate: usize = last_start(&v.starts, rel);
        v.start + candidate
    }
}


/// One cluster of a visible line.
fn cluster_text<'a>(v: &'a VisibleLine, i: usize) -> (out: &'a str)
    requires
        v.starts@ == cluster_starts(v.text@),
        cuts_text(v.starts@, v.text@),
        i < v.starts@.len(),
    ensures
        out@ == cluster(v.text@, i as int),
{
    broadcast use encode_utf8_valid_utf8;

    let start: usize = v.starts[i];
    let end: usize = if i < v.starts.len() - 1 {
        v.starts[i + 1]
    } else {
        v.text.as_str().as_bytes().len()
    };
    proof {
        is_char_boundary_start_end_of_seq(encode_utf8(v.text@));
    }
    let out = slice_bytes(v.text.as_str(), start, end);
    proof {
        encode_utf8_decode_utf8(out@);
    }
    out
}

/// The cells that a cluster takes: four for a tab, its Unicode width otherwise.
fn grapheme_display_width(g: &str) -> (width: usize)
    ensures
        width == cluster_width(g@),
{
    proof {
        reveal_strlit("\t");
        assert("\t"@ =~= seq!['\t']);
    }
    if str_eq(g, "\t") {
        TAB_CELL_WIDTH
    } else {
        unicode_width(g)
    }
}

/// The cells that the clusters of a visible line take.
fn line_widths(v: &VisibleLine) -> (widths: Vec<usize>)
    requires
        v.starts@ == cluster_starts(v.text@),
        cuts_text(v.starts@, v.text@),
    ensures
        widths@ == cluster_widths(v.text@),
{
    let mut widths: Vec<usize> = Vec::new();
    for i in 0..v.starts.len()
        invariant
            v.starts@ == cluster_starts(v.text@),
            cuts_text(v.starts@, v.text@),
            widths@ == cluster_widths(v.text@).take(i as int),
    {
        widths.push(grapheme_display_width(cluster_text(v, i)));
        assert(widths@ =~= cluster_widths(v.text@).take(i + 1));
    }
    assert(widths@ =~= cluster_widths(v.text@));
    widths
}

/// The first index at whose width a column lies, or a width that starts there.
pub fn index_at_column(widths: &Vec<usize>, column: usize) -> (i: usize)
    ensures
        i == index_at(widths@, column as int, 0),
        i <= widths@.len(),
{
    let mut col: usize = 0;
    let mut i: usize = 0;
    while i < widths.len()
        invariant
            i <= widths@.len(),
            col == column_at(widths@, i as int),
            col <= column,
            index_at(widths@, column as int, 0) == index_at(widths@, column as int, i as int),
        decreases widths@.len() - i,
    {
        if col == column || widths[i] > column - col {
            return i;
        }
        col += widths[i];
        i += 1;
    }
    i
}

/// The column that lies after the first `k` of some widths.
pub fn column_before(widths: &Vec<usize>, k: usize) -> (column: usize)
    requires
        k <= widths@.len(),
    ensures
        column == saturated(column_at(widths@, k as int)),
{
    let mut column: usize = 0;
    for i in 0..k
        invariant
            k <= widths@.len(),
            column == saturated(column_at(widths@, i as int)),
    {
        column = column.saturating_add(widths[i]);
    }
    column
}

/// The line that a display position names, the last one for those beyond.
pub open spec fn clamp_line(bytes: Seq<u8>, line: int) -> nat {
    if line < line_count(bytes) {
        line as nat
    } else {
        (line_count(bytes) - 1) as nat
    }
}

/// The byte of a display position: the start of the cluster shown there, or the
/// end of the visible line.
pub open spec fn cell_byte(bytes: Seq<u8>, pos: CellPos) -> int {
    let line = clamp_line(bytes, pos.line as int);
    let text = visible_text(bytes, line);
    let i = index_at(cluster_widths(text), pos.column as int, 0);
    if i < cluster_starts(text).len() {
        line_start(bytes, line) + cluster_starts(text)[i]
    } else {
        visible_end(bytes, line)
    }
}

/// The end of the visible part of a line snaps to itself.
proof fn lemma_visible_end_snapped(bytes: Seq<u8>, line: nat)
    requires
        valid_utf8(bytes),
        line < line_count(bytes),
        visible_end(bytes, line) < line_end(bytes, line) || line + 1 == line_count(bytes),
    ensures
        is_char_boundary(bytes, visible_end(bytes, line)),
        snapped(bytes, visible_end(bytes, line)) == visible_end(bytes, line),
{
    lemma_line_layout(bytes, line);
}

/// Nothing lies before zero.
proof fn lemma_starts_at_zero(starts: Seq<usize>)
    ensures
        last_at_or_before(starts, 0) == 0,
        count_before(starts, 0) == 0,
    decreases starts.len(),
{
    if starts.len() > 0 {
        lemma_starts_at_zero(starts.drop_last());
    }
}

/// The start of a line snaps to itself.
proof fn lemma_line_start_snapped(bytes: Seq<u8>, line: nat)
    requires
        valid_utf8(bytes),
        line < line_count(bytes),
    ensures
        snapped(bytes, line_start(bytes, line)) == line_start(bytes, line),
        line_breaks_before(bytes, line_start(bytes, line)) == line,
        is_char_boundary(bytes, line_start(bytes, line)),
{
    lemma_line_layout(bytes, line);
    lemma_starts_at_zero(cluster_starts(visible_text(bytes, line)));
}

/// The byte that a display position stands for. Inside a wide cluster or a tab
/// it is the start of that cluster; past the end of a line, the end of its
/// visible text. The result is the start of a cluster or the end of a line.
pub fn cell_to_byte(rope: &Rope, pos: CellPos) -> (r: usize)
    ensures
        r == cell_byte(rope_bytes(*rope), pos),
        r <= rope_bytes(*rope).len(),
        snapped(rope_bytes(*rope), r as int) == r,
        pos.line < line_count(rope_bytes(*rope)) ==> belongs_to_line(
            rope_bytes(*rope),
            r as int,
            pos.line as int,
        ),
        pos.line < line_count(rope_bytes(*rope)) && plain_breaks(rope_bytes(*rope))
            ==> line_breaks_before(rope_bytes(*rope), r as int) == pos.line,
{
    broadcast use encode_utf8_valid_utf8;

    let ghost bytes = rope_bytes(*rope);
    let size: usize = rope.len_bytes();
    let lines: usize = rope.len_lines();
    let line: usize = if pos.line < lines { pos.line } else { lines - 1 };
    let v = visible_line(rope, line);
    let ghost text = v.text@;
    proof {
        lemma_line_layout(bytes, line as nat);
    }
    let widths = line_widths(&v);
    let i: usize = index_at_column(&widths, pos.column);
    if i < v.starts.len() {
        proof {
            lemma_cluster_position(bytes, line as nat, i as int);
            lemma_visible_part(bytes, line as nat, v.start + v.starts[i as int]);
        }
        return v.start + v.starts[i];
    }
    proof {
        lemma_visible_part(bytes, line as nat, visible_end(bytes, line as nat));
        if visible_end(bytes, line as nat) == line_end(bytes, line as nat) && line + 1
            < line_count(bytes) {
            lemma_line_start_snapped(bytes, (line + 1) as nat);
        } else {
            lemma_visible_end_snapped(bytes, line as nat);
        }
    }
    let len: usize = v.text.as_str().as_bytes().len();
    v.start + len
}

/// The display position of a byte.
pub open spec fn cell_of(bytes: Seq<u8>, byte: int) -> (nat, nat) {
    let b = snapped(bytes, byte);
    let line = line_breaks_before(bytes, b);
    let text = visible_text(bytes, line);
    let k = count_before(cluster_starts(text), b - line_start(bytes, line));
    (line, cluster_column(text, k as int))
}


/// A number cut down to what fits in a `usize`.
pub open spec fn saturated(n: nat) -> nat {
    if n <= usize::MAX {
        n
    } else {
        usize::MAX as nat
    }
}

/// Columns grow with the cluster index.
proof fn lemma_column_monotonic(widths: Seq<usize>, i: int, j: int)
    requires
        0 <= i <= j,
    ensures
        column_at(widths, i) <= column_at(widths, j),
    decreases j - i,
{
    if i < j {
        lemma_column_monotonic(widths, i, j - 1);
    }
}

/// Whether every cluster before `k` takes at least one cell.
pub open spec fn all_visible_before(text: Seq<char>, k: int) -> bool {
    forall|j: int| 0 <= j < k ==> #[trigger] cluster_width(cluster(text, j)) > 0
}

/// The search for the column of index `k` finds it if all widths before it are
/// positive.
proof fn lemma_index_at_own_column(widths: Seq<usize>, k: int, i: int)
    requires
        0 <= i <= k <= widths.len(),
        forall|j: int| 0 <= j < k ==> #[trigger] widths[j] > 0,
    ensures
        index_at(widths, column_at(widths, k) as int, i) == k,
    decreases k - i,
{
    if i < k {
        lemma_column_monotonic(widths, i + 1, k);
        lemma_index_at_own_column(widths, k, i + 1);
    }
}

/// The display position of a byte, which is first snapped. Zero-width clusters
/// do not advance the column. Where every cluster before it takes a cell, the
/// position stands for the snapped byte.
pub fn byte_to_cell(rope: &Rope, byte: usize) -> (pos: CellPos)
    ensures
        pos.line == cell_of(rope_bytes(*rope), byte as int).0,
        pos.column == saturated(cell_of(rope_bytes(*rope), byte as int).1),
        pos.line < line_count(rope_bytes(*rope)),
        ({
            let bytes = rope_bytes(*rope);
            let b = snapped(bytes, byte as int);
            let line = line_breaks_before(bytes, b);
            let text = visible_text(bytes, line);
            let k = count_before(cluster_starts(text), b - line_start(bytes, line));
            all_visible_before(text, k as int) && cell_of(bytes, byte as int).1 <= usize::MAX
                ==> cell_byte(bytes, pos) == b
        }),
{
    broadcast use encode_utf8_valid_utf8;

    let ghost bytes = rope_bytes(*rope);
    let b: usize = snap_to_grapheme_start(rope, byte);
    let line: usize = line_for_byte(rope, b);
    let v = visible_line(rope, line);
    let ghost text = v.text@;
    proof {
        lemma_line_of_byte(bytes, b as int);
        lemma_line_layout(bytes, line as nat);
    }
    let rel: usize = b - v.start;
    let k: usize = starts_before(&v.starts, rel);
    let widths = line_widths(&v);
    let col: usize = column_before(&widths, k);
    let pos = CellPos { line, column: col };
    proof {
        if all_visible_before(text, k as int) && cluster_column(text, k as int) <= usize::MAX {
            assert forall|j: int| 0 <= j < k implies #[trigger] cluster_widths(text)[j] > 0 by {
                assert(cluster_width(cluster(text, j)) > 0);
            }
            lemma_index_at_own_column(cluster_widths(text), k as int, 0);
            lemma_snapped_index(bytes, b as int);
        }
    }
    pos
}

/// A snapped byte is the start of the cluster whose index is counted before it,
/// or the end of the visible line, before which all clusters are counted.
proof fn lemma_snapped_index(bytes: Seq<u8>, b: int)
    requires
        valid_utf8(bytes),
        0 <= b <= bytes.len(),
        is_char_boundary(bytes, b),
        snapped(bytes, b) == b,
        ({
            let line = line_breaks_before(bytes, b);
            cuts_text(cluster_starts(visible_text(bytes, line)), visible_text(bytes, line))
        }),
    ensures
        ({
            let line = line_breaks_before(bytes, b);
            let ls = line_start(bytes, line);
            let starts = cluster_starts(visible_text(bytes, line));
            let k = count_before(starts, b - ls);
            &&& k <= starts.len()
            &&& k < starts.len() ==> b == ls + starts[k as int]
            &&& k == starts.len() ==> b == visible_end(bytes, line)
        }),
{
    let line = line_breaks_before(bytes, b);
    lemma_line_of_byte(bytes, b);
    lemma_line_layout(bytes, line);
    lemma_line_text(bytes, line);
    let ls = line_start(bytes, line);
    let text = visible_text(bytes, line);
    let starts = cluster_starts(text);
    if b >= visible_end(bytes, line) {
        lemma_count_all(starts, b - ls);
    } else {
        let k = lemma_cluster_of(starts, text, b - ls);
    }
}

/// The line and the byte offset within it of a byte, clamped to the text.
pub fn byte_to_line_col(rope: &Rope, byte: usize) -> (r: (usize, usize))
    ensures
        ({
            let bytes = rope_bytes(*rope);
            let b = if byte <= bytes.len() {
                byte as int
            } else {
                bytes.len() as int
            };
            &&& r.0 == line_breaks_before(bytes, b)
            &&& r.1 == b - line_start(bytes, r.0 as nat)
        }),
{
    broadcast use encode_utf8_valid_utf8;

    let len: usize = rope.len_bytes();
    let b: usize = if byte <= len { byte } else { len };
    let line: usize = line_for_byte(rope, b);
    let start: usize = rope.line_to_byte(line);
    proof {
        let bytes = rope_bytes(*rope);
        lemma_line_of_byte(bytes, b as int);
        lemma_line_layout(bytes, line as nat);
        lemma_line_start_unique(bytes, line as nat, start as int, line_start(bytes, line as nat));
    }
    (line, b - start)
}

/// The byte at an offset within a line; both are clamped.
pub open spec fn line_col_byte(bytes: Seq<u8>, line: int, col: int) -> int {
    let l = clamp_line(bytes, line);
    if line_start(bytes, l) + col <= line_end(bytes, l) {
        line_start(bytes, l) + col
    } else {
        line_end(bytes, l)
    }
}

/// The byte at an offset within a line. Both are clamped; graphemes are not
/// looked at.
pub fn line_col_to_byte(rope: &Rope, line: usize, col: usize) -> (r: usize)
    ensures
        r == line_col_byte(rope_bytes(*rope), line as int, col as int),
{
    broadcast use encode_utf8_valid_utf8;

    let lines: usize = rope.len_lines();
    let line: usize = if line < lines { line } else { lines - 1 };
    let start: usize = rope.line_to_byte(line);
    let end: usize = if line < lines - 1 {
        rope.line_to_byte(line + 1)
    } else {
        rope.len_bytes()
    };
    proof {
        let bytes = rope_bytes(*rope);
        lemma_line_layout(bytes, line as nat);
        lemma_line_start_unique(bytes, line as nat, start as int, line_start(bytes, line as nat));
        if line + 1 < line_count(bytes) {
            lemma_line_layout(bytes, (line + 1) as nat);
            lemma_line_start_unique(
                bytes,
                (line + 1) as nat,
                end as int,
                line_start(bytes, (line + 1) as nat),
            );
        }
    }
    let max_col: usize = end - start;
    start + if col <= max_col { col } else { max_col }
}

/// Going to a line and column and back gives the byte again, for every byte of
/// the text.
pub proof fn line_col_round_trip(bytes: Seq<u8>, byte: int)
    requires
        valid_utf8(bytes),
        0 <= byte <= bytes.len(),
    ensures
        line_col_byte(
            bytes,
            line_breaks_before(bytes, byte) as int,
            byte - line_start(bytes, line_breaks_before(bytes, byte)),
        ) == byte,
{
    lemma_line_of_byte(bytes, byte);
    lemma_line_layout(bytes, line_breaks_before(bytes, byte));
}

/// How many UTF-16 code units one character takes.
pub open spec fn utf16_units(c: char) -> nat {
    if c as u32 > 0xffff {
        2
    } else {
        1
    }
}

/// How many UTF-16 code units a text takes.
pub open spec fn utf16_len(text: Seq<char>) -> nat
    decreases text.len(),
{
    if text.len() == 0 {
        0
    } else {
        utf16_len(text.drop_last()) + utf16_units(text.last())
    }
}

/// A text takes no more UTF-16 code units than bytes.
proof fn lemma_utf16_len(text: Seq<char>, i: int)
    requires
        0 <= i <= text.len(),
    ensures
        utf16_len(text.take(i)) <= byte_offset(text, i),
    decreases i,
{
    if i > 0 {
        lemma_utf16_len(text, i - 1);
        lemma_byte_offset_step(text, i - 1);
        lemma_char_len(text[i - 1]);
        assert(text.take(i).drop_last() =~= text.take(i - 1));
    }
}

/// Passing as many code units as some characters take passes those characters.
proof fn lemma_utf16_prefix(text: Seq<char>, n: int, i: int)
    requires
        0 <= i <= n <= text.len(),
    ensures
        utf16_prefix(text, utf16_len(text.take(n)) as int, i) == n,
    decreases n - i,
{
    if i < n {
        lemma_utf16_monotonic(text, i + 1, n);
        lemma_utf16_prefix(text, n, i + 1);
    } else if n < text.len() {
        assert(text.take(n + 1).drop_last() =~= text.take(n));
    }
}

proof fn lemma_utf16_monotonic(text: Seq<char>, i: int, j: int)
    requires
        0 <= i <= j <= text.len(),
    ensures
        utf16_len(text.take(i)) <= utf16_len(text.take(j)),
    decreases j - i,
{
    if i < j {
        lemma_utf16_monotonic(text, i, j - 1);
        assert(text.take(j).drop_last() =~= text.take(j - 1));
    }
}

/// The UTF-16 position of a snapped byte within the visible text of its line stands
/// for that byte.
proof fn lemma_utf16_there_and_back(bytes: Seq<u8>, b: int)
    requires
        valid_utf8(bytes),
        0 <= b <= bytes.len(),
        is_char_boundary(bytes, b),
        snapped(bytes, b) == b,
        b <= visible_end(bytes, line_breaks_before(bytes, b)),
    ensures
        utf16_byte(
            bytes,
            utf16_position(bytes, b).0 as int,
            utf16_position(bytes, b).1 as int,
        ) == b,
{
    broadcast use encode_utf8_valid_utf8;

    let line = line_breaks_before(bytes, b);
    lemma_line_of_byte(bytes, b);
    lemma_line_layout(bytes, line);
    lemma_line_text(bytes, line);
    let ls = line_start(bytes, line);
    let ve = visible_end(bytes, line);
    let text = visible_text(bytes, line);
    let tail = bytes.subrange(ls, bytes.len() as int);
    lemma_boundary_of_suffix(bytes, ls, b);
    lemma_boundary_of_suffix(bytes, ls, ve);
    lemma_boundary_of_prefix(tail, b - ls, ve - ls);
    assert(tail.subrange(0, ve - ls) =~= bytes.subrange(ls, ve));
    let n = lemma_boundary_is_byte_offset(text, b - ls);
    lemma_encode_split(text, n);
    assert(bytes.subrange(ls, b) =~= encode_utf8(text).take(b - ls));
    encode_utf8_decode_utf8(text.take(n));
    lemma_utf16_prefix(text, n, 0);
}

/// The UTF-16 position of a byte: its line, and the code units before it on that
/// line.
pub open spec fn utf16_position(bytes: Seq<u8>, byte: int) -> (nat, nat) {
    let b = snapped(bytes, byte);
    let line = line_breaks_before(bytes, b);
    (line, utf16_len(decode_utf8(bytes.subrange(line_start(bytes, line), b))))
}

/// The line of a byte and its UTF-16 column. The byte is first snapped, and it is
/// what that position stands for.
pub fn byte_to_utf16_position(rope: &Rope, byte: usize) -> (r: (usize, usize))
    ensures
        r.0 == utf16_position(rope_bytes(*rope), byte as int).0,
        r.1 == utf16_position(rope_bytes(*rope), byte as int).1,
        utf16_byte(rope_bytes(*rope), r.0 as int, r.1 as int) == snapped(
            rope_bytes(*rope),
            byte as int,
        ),
{
    broadcast use encode_utf8_valid_utf8;

    let ghost bytes = rope_bytes(*rope);
    let b: usize = snap_to_grapheme_start(rope, byte);
    let line: usize = line_for_byte(rope, b);
    let start: usize = rope.line_to_byte(line);
    proof {
        lemma_line_of_byte(bytes, b as int);
        lemma_line_layout(bytes, line as nat);
        lemma_line_start_unique(bytes, line as nat, start as int, line_start(bytes, line as nat));
    }
    let prefix = rope_slice(rope, start, b);
    let chars = chars_of(prefix.as_str());
    let len: usize = prefix.as_str().as_bytes().len();
    let mut utf16: usize = 0;
    for i in 0..chars.len()
        invariant
            chars@ == prefix@,
            len == encode_utf8(prefix@).len(),
            utf16 == utf16_len(prefix@.take(i as int)),
    {
        proof {
            assert(prefix@.take(i + 1).drop_last() =~= prefix@.take(i as int));
            lemma_utf16_len(prefix@, i + 1);
            lemma_byte_offset_monotonic(prefix@, i + 1, prefix@.len() as int);
            lemma_byte_offset_ends(prefix@);
        }
        utf16 += if chars[i] as u32 > 0xffff { 2usize } else { 1usize };
    }
    proof {
        assert(prefix@.take(prefix@.len() as int) =~= prefix@);
        encode_utf8_decode_utf8(prefix@);
        lemma_utf16_there_and_back(bytes, b as int);
    }
    (line, utf16)
}

/// How many characters, from index `i` on, fit in a number of UTF-16 code units.
pub open spec fn utf16_prefix(text: Seq<char>, units: int, i: int) -> int
    decreases text.len() - i,
{
    if i >= text.len() || utf16_len(text.take(i + 1)) > units {
        i
    } else {
        utf16_prefix(text, units, i + 1)
    }
}

/// The byte of a UTF-16 position: the characters of the line that fit in the
/// column are passed, and the place reached is snapped. Line and column are
/// clamped.
pub open spec fn utf16_byte(bytes: Seq<u8>, line: int, units: int) -> int {
    let l = clamp_line(bytes, line);
    let text = visible_text(bytes, l);
    snapped(bytes, line_start(bytes, l) + byte_offset(text, utf16_prefix(text, units, 0)))
}

/// The byte of a UTF-16 position, snapped to the start of its cluster.
pub fn utf16_position_to_byte(rope: &Rope, line: usize, utf16_col: usize) -> (r: usize)
    ensures
        r == utf16_byte(rope_bytes(*rope), line as int, utf16_col as int),
        r <= rope_bytes(*rope).len(),
        snapped(rope_bytes(*rope), r as int) == r,
{
    broadcast use encode_utf8_valid_utf8;

    let ghost bytes = rope_bytes(*rope);
    let lines: usize = rope.len_lines();
    let size: usize = rope.len_bytes();
    let line: usize = if line < lines { line } else { lines - 1 };
    let v = visible_line(rope, line);
    let ghost text = v.text@;
    proof {
        lemma_line_layout(bytes, line as nat);
        assert(text.take(0) =~= Seq::<char>::empty());
    }
    let chars = chars_of(v.text.as_str());
    let mut units: usize = 0;
    let mut offset: usize = 0;
    let mut i: usize = 0;
    while i < chars.len()
        invariant_except_break
            utf16_prefix(text, utf16_col as int, 0) == utf16_prefix(
                text,
                utf16_col as int,
                i as int,
            ),
        invariant
            chars@ == text,
            encode_utf8(text).len() <= size,
            i <= chars@.len(),
            units == utf16_len(text.take(i as int)),
            units <= utf16_col,
            offset == byte_offset(text, i as int),
            offset <= encode_utf8(text).len(),
        ensures
            utf16_prefix(text, utf16_col as int, 0) == i,
        decreases chars@.len() - i,
    {
        let c: char = chars[i];
        let u: usize = if c as u32 > 0xffff { 2 } else { 1 };
        proof {
            assert(text.take(i + 1).drop_last() =~= text.take(i as int));
            lemma_byte_offset_step(text, i as int);
            lemma_char_len(c);
            lemma_byte_offset_monotonic(text, i + 1, text.len() as int);
            lemma_byte_offset_ends(text);
        }
        if u > utf16_col - units {
            break;
        }
        units += u;
        offset += utf8_len(c);
        i += 1;
    }
    snap_to_grapheme_start(rope, v.start + offset)
}

/// How many bytes a character takes.
fn utf8_len(c: char) -> (n: usize)
    ensures
        n == char_len(c),
{
    proof {
        lemma_char_len(c);
    }
    let code: u32 = c as u32;
    if code <= 0x7f {
        1
    } else if code <= 0x7ff {
        2
    } else if code <= 0xffff {
        3
    } else {
        4
    }
}


/// How many clusters the visible part of a line has.
pub open spec fn line_clusters(bytes: Seq<u8>, line: nat) -> nat {
    cluster_starts(visible_text(bytes, line)).len()
}

/// How many clusters the lines before a line have.
pub open spec fn clusters_before_line(bytes: Seq<u8>, line: nat) -> nat
    decreases line,
{
    if line == 0 {
        0
    } else {
        clusters_before_line(bytes, (line - 1) as nat) + line_clusters(bytes, (line - 1) as nat)
    }
}

/// How many clusters a text has.
pub open spec fn total_clusters(bytes: Seq<u8>) -> nat {
    clusters_before_line(bytes, line_count(bytes))
}

/// The index of the cluster at a byte, counted over the whole text.
pub open spec fn grapheme_index(bytes: Seq<u8>, byte: int) -> nat {
    let b = snapped(bytes, byte);
    let line = line_breaks_before(bytes, b);
    clusters_before_line(bytes, line) + count_before(
        cluster_starts(visible_text(bytes, line)),
        b - line_start(bytes, line),
    )
}

/// The byte at which the cluster starts that comes `g` clusters after the start
/// of a line; the end of the text if there is none.
pub open spec fn grapheme_byte_from(bytes: Seq<u8>, g: int, line: nat) -> int
    decreases line_count(bytes) - line,
{
    if line >= line_count(bytes) {
        bytes.len() as int
    } else if g < line_clusters(bytes, line) {
        line_start(bytes, line) + cluster_starts(visible_text(bytes, line))[g]
    } else {
        grapheme_byte_from(bytes, g - line_clusters(bytes, line), line + 1)
    }
}

/// The byte at which a cluster of the text starts.
pub open spec fn grapheme_byte(bytes: Seq<u8>, g: int) -> int {
    grapheme_byte_from(bytes, g, 0)
}

/// A line has no more clusters than bytes.
proof fn lemma_line_clusters_bound(starts: Seq<usize>, text: Seq<char>)
    requires
        cuts_text(starts, text),
    ensures
        starts.len() <= encode_utf8(text).len(),
{
    if starts.len() > 0 {
        lemma_growing(starts, starts.len() - 1);
    }
}

proof fn lemma_growing(starts: Seq<usize>, i: int)
    requires
        forall|a: int, b: int| 0 <= a < b < starts.len() ==> starts[a] < starts[b],
        0 <= i < starts.len(),
    ensures
        starts[i] >= i,
    decreases i,
{
    if i > 0 {
        lemma_growing(starts, i - 1);
        assert(starts[i - 1] < starts[i]);
    }
}

proof fn lemma_clusters_monotonic(bytes: Seq<u8>, a: nat, b: nat)
    requires
        a <= b,
    ensures
        clusters_before_line(bytes, a) <= clusters_before_line(bytes, b),
    decreases b - a,
{
    if a < b {
        lemma_clusters_monotonic(bytes, a, (b - 1) as nat);
    }
}

/// The end of the text snaps to itself and comes after all clusters.
proof fn lemma_text_end(bytes: Seq<u8>)
    requires
        valid_utf8(bytes),
        ({
            let last = (line_count(bytes) - 1) as nat;
            cuts_text(cluster_starts(visible_text(bytes, last)), visible_text(bytes, last))
        }),
    ensures
        snapped(bytes, bytes.len() as int) == bytes.len(),
        grapheme_index(bytes, bytes.len() as int) == total_clusters(bytes),
{
    let n = bytes.len() as int;
    let last = (line_count(bytes) - 1) as nat;
    is_char_boundary_start_end_of_seq(bytes);
    lemma_line_layout(bytes, last);
    lemma_line_text(bytes, last);
    lemma_last_line_open(bytes);
    lemma_count_all(
        cluster_starts(visible_text(bytes, last)),
        n - line_start(bytes, last),
    );
}

/// The last line holds no CR or LF.
proof fn lemma_last_line_open(bytes: Seq<u8>)
    requires
        valid_utf8(bytes),
    ensures
        visible_end(bytes, (line_count(bytes) - 1) as nat) == bytes.len(),
{
    let n = bytes.len() as int;
    let last = (line_count(bytes) - 1) as nat;
    lemma_line_layout(bytes, last);
    let ls = line_start(bytes, last);
    let v = visible_end(bytes, last);
    lemma_first_terminator(bytes, ls, n);
    if v < n {
        let p = if bytes[v] == 0x0d && v + 1 < n && bytes[v + 1] == 0x0a {
            v + 2
        } else {
            v + 1
        };
        assert(line_break_ends_at(bytes, p));
        lemma_line_breaks_monotonic(bytes, ls, p - 1);
        lemma_line_breaks_monotonic(bytes, p, n);
    }
}

/// The index over the whole text of the cluster at a byte, which is first
/// snapped.
pub fn byte_to_grapheme(rope: &Rope, byte: usize) -> (g: usize)
    ensures
        g == grapheme_index(rope_bytes(*rope), byte as int),
        g <= total_clusters(rope_bytes(*rope)),
        byte == rope_bytes(*rope).len() ==> g == total_clusters(rope_bytes(*rope)) && snapped(
            rope_bytes(*rope),
            byte as int,
        ) == byte,
{
    broadcast use encode_utf8_valid_utf8;

    let ghost bytes = rope_bytes(*rope);
    let size: usize = rope.len_bytes();
    let b: usize = snap_to_grapheme_start(rope, byte);
    let target: usize = line_for_byte(rope, b);
    let mut count: usize = 0;
    proof {
        lemma_line_layout(bytes, 0);
    }
    for l in 0..target
        invariant
            bytes == rope_bytes(*rope),
            valid_utf8(bytes),
            size == bytes.len(),
            target < line_count(bytes),
            count == clusters_before_line(bytes, l as nat),
            count <= line_start(bytes, l as nat) <= size,
    {
        let v = visible_line(rope, l);
        proof {
            lemma_line_layout(bytes, l as nat);
            lemma_line_layout(bytes, (l + 1) as nat);
            lemma_line_clusters_bound(v.starts@, v.text@);
        }
        count += v.starts.len();
    }
    let v = visible_line(rope, target);
    proof {
        lemma_line_of_byte(bytes, b as int);
        lemma_line_layout(bytes, target as nat);
        lemma_line_clusters_bound(v.starts@, v.text@);
        lemma_clusters_monotonic(bytes, (target + 1) as nat, line_count(bytes));
        if byte == size {
            is_char_boundary_start_end_of_seq(bytes);
            lemma_text_end(bytes);
        }
    }
    let before: usize = starts_before(&v.starts, b - v.start);
    count + before
}

/// The smaller of two numbers.
pub open spec fn smaller(a: int, b: int) -> int {
    if a <= b {
        a
    } else {
        b
    }
}

/// The byte at which a cluster starts; the end of the text past the last one.
/// The cluster at that byte has the given index again, up to the number of
/// clusters, and snapping the byte changes nothing.
pub fn grapheme_to_byte(rope: &Rope, grapheme: usize) -> (r: usize)
    ensures
        r == grapheme_byte(rope_bytes(*rope), grapheme as int),
        r <= rope_bytes(*rope).len(),
        snapped(rope_bytes(*rope), r as int) == r,
        grapheme_index(rope_bytes(*rope), r as int) == smaller(
            grapheme as int,
            total_clusters(rope_bytes(*rope)) as int,
        ),
{
    broadcast use encode_utf8_valid_utf8;

    let ghost bytes = rope_bytes(*rope);
    let size: usize = rope.len_bytes();
    let lines: usize = rope.len_lines();
    let mut remaining: usize = grapheme;
    let mut l: usize = 0;
    while l < lines
        invariant
            bytes == rope_bytes(*rope),
            valid_utf8(bytes),
            size == bytes.len(),
            lines == line_count(bytes),
            l <= lines,
            grapheme == remaining + clusters_before_line(bytes, l as nat),
            grapheme_byte(bytes, grapheme as int) == grapheme_byte_from(
                bytes,
                remaining as int,
                l as nat,
            ),
            l == lines ==> cuts_text(
                cluster_starts(visible_text(bytes, (lines - 1) as nat)),
                visible_text(bytes, (lines - 1) as nat),
            ),
        decreases lines - l,
    {
        let v = visible_line(rope, l);
        proof {
            lemma_line_layout(bytes, l as nat);
        }
        if remaining < v.starts.len() {
            proof {
                lemma_cluster_position(bytes, l as nat, remaining as int);
                lemma_clusters_monotonic(bytes, (l + 1) as nat, line_count(bytes));
            }
            return v.start + v.starts[remaining];
        }
        remaining -= v.starts.len();
        l += 1;
    }
    proof {
        lemma_text_end(bytes);
    }
    size
}

/// The cluster index of a display position.
pub fn cell_to_grapheme(rope: &Rope, pos: CellPos) -> (g: usize)
    ensures
        g == grapheme_index(rope_bytes(*rope), cell_byte(rope_bytes(*rope), pos)),
{
    let b: usize = cell_to_byte(rope, pos);
    byte_to_grapheme(rope, b)
}

/// The display position of a cluster. Where every cluster before it on its line
/// takes a cell, the position stands for that cluster again.
pub fn grapheme_to_cell(rope: &Rope, grapheme: usize) -> (pos: CellPos)
    ensures
        ({
            let bytes = rope_bytes(*rope);
            let b = grapheme_byte(bytes, grapheme as int);
            let line = line_breaks_before(bytes, b);
            let text = visible_text(bytes, line);
            let k = count_before(cluster_starts(text), b - line_start(bytes, line));
            &&& pos.line == cell_of(bytes, b).0
            &&& pos.column == saturated(cell_of(bytes, b).1)
            &&& all_visible_before(text, k as int) && cell_of(bytes, b).1 <= usize::MAX ==> {
                &&& cell_byte(bytes, pos) == b
                &&& grapheme_index(bytes, cell_byte(bytes, pos)) == smaller(
                    grapheme as int,
                    total_clusters(bytes) as int,
                )
            }
        }),
{
    let b: usize = grapheme_to_byte(rope, grapheme);
    byte_to_cell(rope, b)
}

/// How many decimal digits a number has.
pub open spec fn decimal_digits(n: nat) -> nat
    decreases n,
{
    if n < 10 {
        1
    } else {
        1 + decimal_digits(n / 10)
    }
}

proof fn lemma_decimal_digits_bound(n: nat, bound: nat, digits: nat)
    requires
        n < bound,
        digits >= 1,
        bound == vstd::arithmetic::power::pow(10, digits),
    ensures
        decimal_digits(n) <= digits,
    decreases digits,
{
    if digits == 1 {
        vstd::arithmetic::power::lemma_pow1(10);
    } else if n >= 10 {
        vstd::arithmetic::power::lemma_pow_positive(10, (digits - 1) as nat);
        let smaller_bound = vstd::arithmetic::power::pow(10, (digits - 1) as nat) as nat;
        assert(bound == 10 * smaller_bound) by {
            reveal(vstd::arithmetic::power::pow);
        }
        lemma_decimal_digits_bound(n / 10, smaller_bound, (digits - 1) as nat);
    }
}

/// How many columns the line numbers take: at least two digits and two more.
pub open spec fn gutter_width(lines: nat) -> int {
    2 + if decimal_digits(lines) >= 2 {
        decimal_digits(lines) as int
    } else {
        2
    }
}

/// The width of the line number gutter.
pub fn gutter_width_for_lines(line_count: usize) -> (width: u16)
    ensures
        width == gutter_width(line_count as nat),
{
    let mut digits: u16 = 1;
    let mut n: usize = line_count;
    proof {
        assert(vstd::arithmetic::power::pow(10, 20) == 100_000_000_000_000_000_000) by {
            reveal_with_fuel(vstd::arithmetic::power::pow, 21);
        }
        lemma_decimal_digits_bound(line_count as nat, 100_000_000_000_000_000_000, 20);
    }
    while n >= 10
        invariant
            digits + decimal_digits(n as nat) == decimal_digits(line_count as nat) + 1,
            decimal_digits(line_count as nat) <= 20,
            1 <= digits,
        decreases n,
    {
        n = n / 10;
        digits += 1;
    }
    (if digits >= 2 { digits } else { 2 }) + 2
}


/// The rows between the top edge of the editor and its text: the border, the
/// tabs and, if at least four rows are left inside the border, the breadcrumb.
pub open spec fn editor_header_rows(height: u16) -> int {
    if height >= 6 {
        3
    } else {
        2
    }
}

/// The byte under a terminal cell of the editor.
pub open spec fn mouse_byte(
    bytes: Seq<u8>,
    rect: Rect,
    scroll_line: int,
    mouse_x: int,
    mouse_y: int,
) -> int {
    let code_y = smaller(rect.y + editor_header_rows(rect.height), u16::MAX as int);
    let code_x = smaller(rect.x + 1, u16::MAX as int);
    let gutter = gutter_width(line_count(bytes));
    if rect.width == 0 || rect.height == 0 {
        0
    } else if mouse_y < code_y || mouse_x < code_x {
        cell_byte(bytes, (CellPos { line: scroll_line as usize, column: 0 }))
    } else {
        let column = if mouse_x - code_x < gutter {
            0
        } else {
            mouse_x - code_x - gutter
        };
        cell_byte(
            bytes,
            (CellPos { line: (scroll_line + mouse_y - code_y) as usize, column: column as usize }),
        )
    }
}

/// The byte under a terminal cell of the editor, whose outer rectangle holds a
/// border, the tab row, the breadcrumb row if there is room, and the gutter. A
/// cell above or left of the text stands for the start of the first line shown.
pub fn editor_mouse_to_byte(
    rope: &Rope,
    editor_rect: Rect,
    scroll_line: u16,
    mouse_x: u16,
    mouse_y: u16,
) -> (r: usize)
    ensures
        r == mouse_byte(
            rope_bytes(*rope),
            editor_rect,
            scroll_line as int,
            mouse_x as int,
            mouse_y as int,
        ),
        r <= rope_bytes(*rope).len(),
        snapped(rope_bytes(*rope), r as int) == r,
        forall|row: int|
            editor_rect.width > 0 && editor_rect.height > 0 && mouse_x > editor_rect.x && row >= 0
                && mouse_y == editor_rect.y + (if editor_rect.height >= 6 {
                3int
            } else {
                2int
            }) + row && scroll_line + row < line_count(rope_bytes(*rope))
                ==> #[trigger] belongs_to_line(rope_bytes(*rope), r as int, scroll_line + row) && (
            plain_breaks(rope_bytes(*rope)) ==> line_breaks_before(rope_bytes(*rope), r as int)
                == scroll_line + row),
{
    broadcast use encode_utf8_valid_utf8;

    if editor_rect.width == 0 || editor_rect.height == 0 {
        proof {
            let bytes = rope_bytes(*rope);
            lemma_line_of_byte(bytes, 0);
            lemma_line_layout(bytes, 0);
            lemma_line_start_snapped(bytes, 0);
        }
        return 0;
    }
    let border: u16 = 1;
    let inner_height: u16 = editor_rect.height.saturating_sub(border * 2);
    let breadcrumb_height: u16 = if inner_height >= 4 { 1 } else { 0 };
    let header_rows: u16 = 1 + breadcrumb_height;
    let code_y: u16 = editor_rect.y.saturating_add(border + header_rows);
    let code_x: u16 = editor_rect.x.saturating_add(border);
    if mouse_y < code_y || mouse_x < code_x {
        return cell_to_byte(rope, CellPos::new(scroll_line as usize, 0));
    }
    let rel_x: usize = (mouse_x - code_x) as usize;
    let rel_y: usize = (mouse_y - code_y) as usize;
    let logical_line: usize = scroll_line as usize + rel_y;
    let total_lines: usize = rope.len_lines();
    let gutter: usize = gutter_width_for_lines(total_lines) as usize;
    let content_col: usize = if rel_x < gutter { 0 } else { rel_x - gutter };
    let safe_line: usize = if logical_line < total_lines { logical_line } else { total_lines - 1 };
    cell_to_byte(rope, CellPos::new(safe_line, content_col))
}

/// More offsets lie before a place further on, and no more than there are.
proof fn lemma_count_monotonic(starts: Seq<usize>, a: int, b: int)
    requires
        a <= b,
    ensures
        count_before(starts, a) <= count_before(starts, b) <= starts.len(),
    decreases starts.len(),
{
    if starts.len() > 0 {
        lemma_count_monotonic(starts.drop_last(), a, b);
    }
}

/// Of two snapped places, the one further on has no smaller index.
proof fn lemma_index_monotonic(bytes: Seq<u8>, a: int, b: int)
    requires
        a <= b,
        snapped(bytes, a) == a,
        snapped(bytes, b) == b,
    ensures
        grapheme_index(bytes, a) <= grapheme_index(bytes, b),
{
    let la = line_breaks_before(bytes, a);
    let lb = line_breaks_before(bytes, b);
    lemma_line_breaks_monotonic(bytes, a, b);
    let starts = cluster_starts(visible_text(bytes, la));
    let rel = a - line_start(bytes, la);
    if la == lb {
        lemma_count_monotonic(starts, rel, b - line_start(bytes, lb));
    } else {
        lemma_count_monotonic(starts, rel, rel);
        lemma_clusters_monotonic(bytes, la + 1, lb);
    }
}

/// One cluster to the left; the start of the text at the first cluster. The
/// result is never inside a cluster, and it lies before where the snapped byte was
/// unless that is the start of the text.
pub fn move_left(rope: &Rope, byte: usize) -> (r: usize)
    ensures
        ({
            let bytes = rope_bytes(*rope);
            let g = grapheme_index(bytes, byte as int);
            &&& r == if g == 0 {
                0
            } else {
                grapheme_byte(bytes, g - 1)
            }
            &&& grapheme_index(bytes, r as int) == if g == 0 {
                0
            } else {
                g - 1
            }
        }),
        r <= rope_bytes(*rope).len(),
        snapped(rope_bytes(*rope), r as int) == r,
        r <= snapped(rope_bytes(*rope), byte as int),
        r == snapped(rope_bytes(*rope), byte as int) ==> r == 0,
{
    broadcast use encode_utf8_valid_utf8;

    let p: usize = snap_to_grapheme_start(rope, byte);
    let g: usize = byte_to_grapheme(rope, p);
    if g == 0 {
        proof {
            let bytes = rope_bytes(*rope);
            lemma_line_of_byte(bytes, 0);
            lemma_line_layout(bytes, 0);
            lemma_line_start_snapped(bytes, 0);
            lemma_starts_at_zero(cluster_starts(visible_text(bytes, 0)));
        }
        0
    } else {
        let r: usize = grapheme_to_byte(rope, g - 1);
        proof {
            if p <= r {
                lemma_index_monotonic(rope_bytes(*rope), p as int, r as int);
            }
        }
        r
    }
}

/// One cluster to the right; the end of the text at the last cluster. The result
/// is never inside a cluster, and it lies behind where the snapped byte was unless
/// that is the end of the text.
pub fn move_right(rope: &Rope, byte: usize) -> (r: usize)
    ensures
        ({
            let bytes = rope_bytes(*rope);
            let g = grapheme_index(bytes, byte as int);
            &&& r == if g >= total_clusters(bytes) {
                bytes.len() as int
            } else {
                grapheme_byte(bytes, (g + 1) as int)
            }
            &&& grapheme_index(bytes, r as int) == smaller(
                (g + 1) as int,
                total_clusters(bytes) as int,
            )
        }),
        r <= rope_bytes(*rope).len(),
        snapped(rope_bytes(*rope), r as int) == r,
        snapped(rope_bytes(*rope), byte as int) <= r,
        r == snapped(rope_bytes(*rope), byte as int) ==> r == rope_bytes(*rope).len(),
{
    broadcast use encode_utf8_valid_utf8;

    let ghost bytes = rope_bytes(*rope);
    let p: usize = snap_to_grapheme_start(rope, byte);
    let g: usize = byte_to_grapheme(rope, p);
    let max_g: usize = byte_to_grapheme(rope, rope.len_bytes());
    if g >= max_g {
        rope.len_bytes()
    } else {
        let r: usize = grapheme_to_byte(rope, g + 1);
        proof {
            if r <= p {
                lemma_index_monotonic(bytes, r as int, p as int);
            }
        }
        r
    }
}

/// A line moved by a signed number of lines and kept within the text.
pub open spec fn moved_line(bytes: Seq<u8>, line: int, delta: int) -> int {
    if line + delta < 0 {
        0
    } else if line + delta >= line_count(bytes) {
        line_count(bytes) - 1
    } else {
        line + delta
    }
}

/// Moves by whole lines and keeps the display column; on a shorter line the end
/// of its visible text is taken. The result is never inside a cluster.
pub fn move_vertical(rope: &Rope, byte: usize, delta: i32) -> (r: usize)
    ensures
        ({
            let bytes = rope_bytes(*rope);
            let cell = cell_of(bytes, byte as int);
            r == if delta == 0 {
                snapped(bytes, byte as int)
            } else {
                cell_byte(
                    bytes,
                    (CellPos {
                        line: moved_line(bytes, cell.0 as int, delta as int) as usize,
                        column: saturated(cell.1) as usize,
                    }),
                )
            }
        }),
        r <= rope_bytes(*rope).len(),
        snapped(rope_bytes(*rope), r as int) == r,
{
    if delta == 0 {
        return snap_to_grapheme_start(rope, byte);
    }
    let cur = byte_to_cell(rope, byte);
    let lines: usize = rope.len_lines();
    let wanted: i128 = cur.line as i128 + delta as i128;
    let line: usize = if wanted < 0 {
        0
    } else if wanted >= lines as i128 {
        lines - 1
    } else {
        wanted as usize
    };
    let target = CellPos { line, column: cur.column };
    let nb: usize = cell_to_byte(rope, target);
    snap_to_grapheme_start(rope, nb)
}

/// Whether every line of a text is cut into clusters without gaps.
pub open spec fn lines_cut(bytes: Seq<u8>) -> bool {
    forall|line: nat|
        line < line_count(bytes) ==> cuts_text(
            cluster_starts(#[trigger] visible_text(bytes, line)),
            visible_text(bytes, line),
        )
}

/// Whether every line break of a text is a CR, an LF or both.
pub open spec fn plain_breaks(bytes: Seq<u8>) -> bool {
    forall|p: int| #[trigger]
        line_break_ends_at(bytes, p) ==> bytes[p - 1] == 0x0a || bytes[p - 1] == 0x0d
}

/// Whether a place belongs to a line: it lies on the line, or right behind a line break
/// other than CR and LF that ends the line.
pub open spec fn belongs_to_line(bytes: Seq<u8>, p: int, line: int) -> bool {
    line_breaks_before(bytes, p) == line || (line_breaks_before(bytes, p) == line + 1
        && line_break_ends_at(bytes, p) && bytes[p - 1] != 0x0a && bytes[p - 1] != 0x0d)
}

/// The visible part of a line belongs to the line, its end included.
proof fn lemma_visible_part(bytes: Seq<u8>, line: nat, p: int)
    requires
        valid_utf8(bytes),
        line < line_count(bytes),
        line_start(bytes, line) <= p <= visible_end(bytes, line),
    ensures
        belongs_to_line(bytes, p, line as int),
        p < visible_end(bytes, line) ==> line_breaks_before(bytes, p) == line,
        plain_breaks(bytes) ==> line_breaks_before(bytes, p) == line,
{
    lemma_line_layout(bytes, line);
    let ls = line_start(bytes, line);
    let le = line_end(bytes, line);
    lemma_first_terminator(bytes, ls, le);
    if p == visible_end(bytes, line) && p == le && line + 1 < line_count(bytes) {
        lemma_line_layout(bytes, line + 1);
        assert(line_break_ends_at(bytes, p));
        assert(!is_terminator(bytes[p - 1]));
    }
}

/// The search for a column ends at the piece that covers it.
proof fn lemma_index_covers(widths: Seq<usize>, column: int, i: int)
    requires
        0 <= i <= widths.len(),
        column_at(widths, i) <= column,
    ensures
        i <= index_at(widths, column, i) <= widths.len(),
        column_at(widths, index_at(widths, column, i)) <= column,
        index_at(widths, column, i) < widths.len() ==> column == column_at(
            widths,
            index_at(widths, column, i),
        ) || column < column_at(widths, index_at(widths, column, i) + 1),
    decreases widths.len() - i,
{
    if !(i >= widths.len() || column_at(widths, i) == column || column_at(widths, i + 1)
        > column) {
        lemma_index_covers(widths, column, i + 1);
    }
}

/// A display position stands for a place of its own line, at which the cursor can
/// stand: the start of the cluster whose cells cover the column, or the end of the
/// visible text where the line is shorter. The first column stands for the start of
/// the line.
pub proof fn cells_stand_for_their_line(bytes: Seq<u8>, pos: CellPos)
    requires
        valid_utf8(bytes),
        pos.line < line_count(bytes),
    ensures
        lines_cut(bytes) ==> {
            let r = cell_byte(bytes, pos);
            let text = visible_text(bytes, pos.line as nat);
            &&& 0 <= r <= bytes.len()
            &&& belongs_to_line(bytes, r, pos.line as int)
            &&& plain_breaks(bytes) ==> line_breaks_before(bytes, r) == pos.line
            &&& is_stop(bytes, pos.line as nat, r)
            &&& line_start(bytes, pos.line as nat) <= r <= visible_end(bytes, pos.line as nat)
            &&& pos.column == 0 ==> line_starts_at(bytes, pos.line as nat, r)
            &&& r < visible_end(bytes, pos.line as nat) ==> exists|k: int|
                0 <= k < cluster_starts(text).len() && r == line_start(bytes, pos.line as nat)
                    + #[trigger] cluster_starts(text)[k] && cluster_column(text, k) <= pos.column
                    && (pos.column == cluster_column(text, k) || pos.column < cluster_column(
                    text,
                    k + 1,
                ))
            &&& r == visible_end(bytes, pos.line as nat) ==> cluster_column(
                text,
                cluster_starts(text).len() as int,
            ) <= pos.column
        },
{
    if lines_cut(bytes) {
        let line = pos.line as nat;
        let text = visible_text(bytes, line);
        let starts = cluster_starts(text);
        let widths = cluster_widths(text);
        assert(cuts_text(starts, text));
        lemma_line_layout(bytes, line);
        lemma_line_text(bytes, line);
        lemma_index_covers(widths, pos.column as int, 0);
        let i = index_at(widths, pos.column as int, 0);
        if i < starts.len() {
            lemma_cluster_position(bytes, line, i);
            assert(cell_byte(bytes, pos) == line_start(bytes, line) + starts[i]);
        }
        lemma_visible_part(bytes, line, cell_byte(bytes, pos));
        if pos.column == 0 {
            assert(column_at(widths, 0) == 0);
            assert(i == 0);
        }
    }
}

/// A click in a row of text, `r` rows below the first, stands for a place of the line
/// that is shown there: the first line shown and `r` more. So scrolling by one line and
/// clicking the same cell goes one line further down, and clicking one row below does
/// what scrolling by one line does.
pub proof fn clicks_follow_the_scrolling(
    bytes: Seq<u8>,
    rect: Rect,
    scroll_line: u16,
    mouse_x: u16,
    mouse_y: u16,
    r: int,
)
    requires
        valid_utf8(bytes),
        rect.width > 0,
        rect.height > 0,
        rect.x < mouse_x,
        r >= 0,
        rect.height >= 6 ==> mouse_y == rect.y + 3 + r,
        rect.height < 6 ==> mouse_y == rect.y + 2 + r,
        scroll_line + r < line_count(bytes),
    ensures
        lines_cut(bytes) ==> belongs_to_line(
            bytes,
            mouse_byte(bytes, rect, scroll_line as int, mouse_x as int, mouse_y as int),
            scroll_line + r,
        ),
        lines_cut(bytes) && plain_breaks(bytes) ==> line_breaks_before(
            bytes,
            mouse_byte(bytes, rect, scroll_line as int, mouse_x as int, mouse_y as int),
        ) == scroll_line + r,
        lines_cut(bytes) && plain_breaks(bytes) && scroll_line + r + 1 < line_count(bytes)
            ==> line_breaks_before(
            bytes,
            mouse_byte(bytes, rect, scroll_line + 1, mouse_x as int, mouse_y as int),
        ) == line_breaks_before(
            bytes,
            mouse_byte(bytes, rect, scroll_line as int, mouse_x as int, mouse_y as int),
        ) + 1,
        mouse_byte(bytes, rect, scroll_line as int, mouse_x as int, mouse_y + 1) == mouse_byte(
            bytes,
            rect,
            scroll_line + 1,
            mouse_x as int,
            mouse_y as int,
        ),
{
    let gutter = gutter_width(line_count(bytes));
    lemma_gutter_bound(line_count(bytes));
    let column: int = if mouse_x - rect.x - 1 < gutter {
        0
    } else {
        mouse_x - rect.x - 1 - gutter
    };
    let here = CellPos { line: (scroll_line + r) as usize, column: column as usize };
    assert(mouse_byte(bytes, rect, scroll_line as int, mouse_x as int, mouse_y as int)
        == cell_byte(bytes, here));
    cells_stand_for_their_line(bytes, here);
    if scroll_line + r + 1 < line_count(bytes) {
        let below = CellPos { line: (scroll_line + 1 + r) as usize, column: column as usize };
        assert(mouse_byte(bytes, rect, scroll_line + 1, mouse_x as int, mouse_y as int)
            == cell_byte(bytes, below));
        cells_stand_for_their_line(bytes, below);
    }
}

/// The gutter takes some columns.
proof fn lemma_gutter_bound(lines: nat)
    ensures
        gutter_width(lines) >= 4,
{
}

/// A click on the cell at which a place of the text is shown stands for that place:
/// its line counted from the first line shown, below the rows of the border, the tabs
/// and the breadcrumb, and its column behind the border and the gutter. Where clusters
/// before it on the line take no cell, the first cluster at its column is meant.
pub proof fn clicks_find_what_is_shown(
    bytes: Seq<u8>,
    rect: Rect,
    scroll_line: u16,
    b: int,
    line: nat,
    column: nat,
    digits: nat,
    mouse_x: u16,
    mouse_y: u16,
)
    requires
        valid_utf8(bytes),
        rect.width > 0,
        rect.height > 0,
        0 <= b <= bytes.len(),
        is_char_boundary(bytes, b),
        snapped(bytes, b) == b,
        cell_of(bytes, b) == (line, column),
        scroll_line <= line,
        digits >= 2,
        digits > 2 ==> vstd::arithmetic::power::pow(10, (digits - 1) as nat) <= line_count(bytes),
        line_count(bytes) < vstd::arithmetic::power::pow(10, digits),
        rect.height >= 6 ==> mouse_y == rect.y + 3 + line - scroll_line,
        rect.height < 6 ==> mouse_y == rect.y + 2 + line - scroll_line,
        mouse_x == rect.x + 1 + digits + 2 + column,
    ensures
        lines_cut(bytes) && (forall|j: int|
            0 <= j < cluster_starts(visible_text(bytes, line)).len() ==> #[trigger] cluster_width(
                cluster(visible_text(bytes, line), j),
            ) > 0) ==> mouse_byte(
            bytes,
            rect,
            scroll_line as int,
            mouse_x as int,
            mouse_y as int,
        ) == b,
{
    lemma_gutter_of(line_count(bytes), digits);
    assert(gutter_width(line_count(bytes)) == digits + 2);
    lemma_line_of_byte(bytes, b);
    let text = visible_text(bytes, line);
    let widths = cluster_widths(text);
    let pos = CellPos { line: line as usize, column: column as usize };
    assert(mouse_byte(bytes, rect, scroll_line as int, mouse_x as int, mouse_y as int)
        == cell_byte(bytes, pos));
    if lines_cut(bytes) && (forall|j: int|
        0 <= j < cluster_starts(text).len() ==> #[trigger] cluster_width(cluster(text, j)) > 0) {
        assert(cuts_text(cluster_starts(text), text));
        lemma_snapped_index(bytes, b);
        let k = count_before(cluster_starts(text), b - line_start(bytes, line)) as int;
        assert forall|j: int| 0 <= j < k implies #[trigger] widths[j] > 0 by {
            assert(cluster_width(cluster(text, j)) > 0);
        }
        lemma_index_at_own_column(widths, k, 0);
    }
}

/// The gutter holds the digits of the number of lines, at least two, and two columns.
pub proof fn lemma_gutter_of(lines: nat, digits: nat)
    requires
        digits >= 2,
        digits > 2 ==> vstd::arithmetic::power::pow(10, (digits - 1) as nat) <= lines,
        lines < vstd::arithmetic::power::pow(10, digits),
    ensures
        gutter_width(lines) == digits + 2,
{
    lemma_decimal_digits_bound(
        lines,
        vstd::arithmetic::power::pow(10, digits) as nat,
        digits,
    );
    if digits > 2 {
        lemma_decimal_digits_least(lines, digits);
    }
}

/// A number that is not below a power of ten has more digits than its exponent.
proof fn lemma_decimal_digits_least(n: nat, digits: nat)
    requires
        digits >= 2,
        vstd::arithmetic::power::pow(10, (digits - 1) as nat) <= n,
    ensures
        decimal_digits(n) >= digits,
    decreases digits,
{
    reveal(vstd::arithmetic::power::pow);
    let p = vstd::arithmetic::power::pow(10, (digits - 2) as nat);
    vstd::arithmetic::power::lemma_pow_positive(10, (digits - 2) as nat);
    assert(vstd::arithmetic::power::pow(10, (digits - 1) as nat) == 10 * p);
    assert(n >= 10);
    if digits > 2 {
        assert(p <= n / 10);
        lemma_decimal_digits_least(n / 10, (digits - 1) as nat);
    }
}

/// A click above or left of the text, or on the numbers of the lines, stands for the
/// start of a line: of the first line shown, or of the line in whose row the number is.
pub proof fn clicks_beside_the_text_find_line_starts(
    bytes: Seq<u8>,
    rect: Rect,
    scroll_line: u16,
    mouse_x: u16,
    mouse_y: u16,
    first: int,
)
    requires
        valid_utf8(bytes),
        rect.width > 0,
        rect.height > 0,
        rect.height >= 6 ==> first == rect.y + 3,
        rect.height < 6 ==> first == rect.y + 2,
        first <= u16::MAX,
        scroll_line < line_count(bytes),
    ensures
        lines_cut(bytes) && (mouse_y < first || mouse_x <= rect.x) && rect.x < u16::MAX
            ==> line_starts_at(
            bytes,
            scroll_line as nat,
            mouse_byte(bytes, rect, scroll_line as int, mouse_x as int, mouse_y as int),
        ),
        lines_cut(bytes) && mouse_y >= first && rect.x < mouse_x <= rect.x + 4 && scroll_line
            + mouse_y - first < line_count(bytes) ==> line_starts_at(
            bytes,
            (scroll_line + mouse_y - first) as nat,
            mouse_byte(bytes, rect, scroll_line as int, mouse_x as int, mouse_y as int),
        ),
{
    lemma_gutter_bound(line_count(bytes));
    cells_stand_for_their_line(bytes, (CellPos { line: scroll_line as usize, column: 0 }));
    if mouse_y >= first && scroll_line + mouse_y - first < line_count(bytes) {
        cells_stand_for_their_line(
            bytes,
            (CellPos { line: (scroll_line + mouse_y - first) as usize, column: 0 }),
        );
    }
}

/// The offset within a line is counted from the start of the line: the byte at an
/// offset that stays within a line lies on that line, that many bytes behind its start.
pub proof fn offsets_count_from_the_line_start(bytes: Seq<u8>, line: nat, col: nat, start: int)
    requires
        valid_utf8(bytes),
        line_starts_at(bytes, line, start),
        start + col <= bytes.len(),
        line_breaks_before(bytes, start + col) == line,
    ensures
        line_col_byte(bytes, line as int, col as int) == start + col,
{
    lemma_line_breaks_monotonic(bytes, start + col, bytes.len() as int);
    lemma_line_layout(bytes, line);
    lemma_line_start_unique(bytes, line, start, line_start(bytes, line));
    lemma_line_of_byte(bytes, start + col);
}

/// A character takes two UTF-16 code units if it takes four bytes, and one otherwise;
/// the units of a text are those of its parts.
pub proof fn utf16_units_follow_the_bytes(a: Seq<char>, c: char)
    ensures
        utf16_len(a.push(c)) == utf16_len(a) + if encode_utf8(seq![c]).len() == 4 {
            2nat
        } else {
            1nat
        },
        utf16_len(Seq::<char>::empty()) == 0,
{
    assert(a.push(c).drop_last() =~= a);
    lemma_char_len(c);
    lemma_one_char(c);
}

proof fn lemma_one_char(c: char)
    ensures
        encode_utf8(seq![c]).len() == char_len(c),
{
    lemma_byte_offset_step(seq![c], 0);
    lemma_byte_offset_ends(seq![c]);
    assert(seq![c][0] == c);
}

/// The UTF-16 column of a place counts the code units between the start of its line
/// and the place, and its line is the one that the place lies on.
pub proof fn utf16_columns_count_from_the_line_start(
    bytes: Seq<u8>,
    b: int,
    start: int,
    before: Seq<char>,
)
    requires
        valid_utf8(bytes),
        0 <= b <= bytes.len(),
        snapped(bytes, b) == b,
        line_starts_at(bytes, line_breaks_before(bytes, b), start),
        encode_utf8(before) == bytes.subrange(start, b),
    ensures
        utf16_position(bytes, b) == (line_breaks_before(bytes, b), utf16_len(before)),
{
    let line = line_breaks_before(bytes, b);
    lemma_line_of_byte(bytes, b);
    lemma_line_layout(bytes, line);
    lemma_line_start_unique(bytes, line, start, line_start(bytes, line));
    encode_utf8_decode_utf8(before);
}

/// Whether a cluster of some line starts at a place.
pub open spec fn starts_cluster(bytes: Seq<u8>, p: int) -> bool {
    exists|line: nat, k: int|
        line < line_count(bytes) && 0 <= k < cluster_starts(visible_text(bytes, line)).len() && p
            == line_start(bytes, line) + #[trigger] cluster_starts(visible_text(bytes, line))[k]
}

/// Offsets before a place are counted before every later place, and those at it too.
proof fn lemma_count_strict(starts: Seq<usize>, k: int, rel: int)
    requires
        0 <= k < starts.len(),
        forall|i: int, j: int| 0 <= i < j < starts.len() ==> starts[i] < starts[j],
        starts[k] < rel,
    ensures
        count_before(starts, rel) > k,
    decreases starts.len(),
{
    let front = starts.drop_last();
    if k < front.len() {
        lemma_count_strict(front, k, rel);
    } else {
        assert forall|i: int| 0 <= i < starts.len() implies #[trigger] starts[i] < rel by {
            if i < k {
                assert(starts[i] < starts[k]);
            }
        }
        lemma_count_all(starts, rel);
    }
}

/// The cluster that starts at a place: its index, and the place for that index.
proof fn lemma_started_cluster(bytes: Seq<u8>, q: int)
    requires
        valid_utf8(bytes),
        lines_cut(bytes),
        starts_cluster(bytes, q),
    ensures
        0 <= q < bytes.len(),
        snapped(bytes, q) == q,
        grapheme_index(bytes, q) < total_clusters(bytes),
        grapheme_byte(bytes, grapheme_index(bytes, q) as int) == q,
{
    let (line, k) = choose|line: nat, k: int|
        line < line_count(bytes) && 0 <= k < cluster_starts(visible_text(bytes, line)).len() && q
            == line_start(bytes, line) + #[trigger] cluster_starts(visible_text(bytes, line))[k];
    assert(cuts_text(cluster_starts(visible_text(bytes, line)), visible_text(bytes, line)));
    lemma_line_layout(bytes, line);
    lemma_cluster_position(bytes, line, k);
    lemma_clusters_monotonic(bytes, line + 1, line_count(bytes));
    lemma_grapheme_byte_on_line(bytes, line, k, 0);
}

/// The place for an index is found on the line of the index.
proof fn lemma_grapheme_byte_on_line(bytes: Seq<u8>, line: nat, k: int, from: nat)
    requires
        from <= line < line_count(bytes),
        0 <= k < line_clusters(bytes, line),
    ensures
        grapheme_byte_from(
            bytes,
            clusters_before_line(bytes, line) + k - clusters_before_line(bytes, from),
            from,
        ) == line_start(bytes, line) + cluster_starts(visible_text(bytes, line))[k],
    decreases line - from,
{
    if from < line {
        lemma_clusters_monotonic(bytes, from + 1, line);
        lemma_grapheme_byte_on_line(bytes, line, k, from + 1);
    }
}

/// The line of an index.
proof fn lemma_line_of_index(bytes: Seq<u8>, g: nat, from: nat) -> (line: nat)
    requires
        from <= line_count(bytes),
        clusters_before_line(bytes, from) <= g < total_clusters(bytes),
    ensures
        from <= line < line_count(bytes),
        clusters_before_line(bytes, line) <= g < clusters_before_line(bytes, line)
            + line_clusters(bytes, line),
    decreases line_count(bytes) - from,
{
    if g < clusters_before_line(bytes, from) + line_clusters(bytes, from) {
        from
    } else {
        lemma_line_of_index(bytes, g, from + 1)
    }
}

/// Past all lines, the place for an index is the end of the text.
proof fn lemma_grapheme_byte_past(bytes: Seq<u8>, g: int, from: nat)
    requires
        from <= line_count(bytes),
        g + clusters_before_line(bytes, from) >= total_clusters(bytes),
    ensures
        grapheme_byte_from(bytes, g, from) == bytes.len(),
    decreases line_count(bytes) - from,
{
    if from < line_count(bytes) {
        lemma_clusters_monotonic(bytes, from + 1, line_count(bytes));
        lemma_grapheme_byte_past(bytes, g - line_clusters(bytes, from), from + 1);
    }
}

/// A cluster starts at the place for each index, and it has that index.
proof fn lemma_cluster_at_index(bytes: Seq<u8>, g: nat)
    requires
        valid_utf8(bytes),
        lines_cut(bytes),
        g < total_clusters(bytes),
    ensures
        starts_cluster(bytes, grapheme_byte(bytes, g as int)),
        grapheme_index(bytes, grapheme_byte(bytes, g as int)) == g,
        snapped(bytes, grapheme_byte(bytes, g as int)) == grapheme_byte(bytes, g as int),
{
    assert(clusters_before_line(bytes, 0) == 0);
    let line = lemma_line_of_index(bytes, g, 0);
    let k = g - clusters_before_line(bytes, line);
    assert(cuts_text(cluster_starts(visible_text(bytes, line)), visible_text(bytes, line)));
    lemma_grapheme_byte_on_line(bytes, line, k, 0);
    lemma_cluster_position(bytes, line, k);
    assert(grapheme_byte(bytes, g as int) == line_start(bytes, line) + cluster_starts(
        visible_text(bytes, line),
    )[k]);
}

/// A cluster that starts before a place has a smaller index.
proof fn lemma_earlier_cluster(bytes: Seq<u8>, q: int, p: int)
    requires
        valid_utf8(bytes),
        lines_cut(bytes),
        starts_cluster(bytes, q),
        q < p <= bytes.len(),
        snapped(bytes, p) == p,
    ensures
        grapheme_index(bytes, q) < grapheme_index(bytes, p),
{
    let (line, k) = choose|line: nat, k: int|
        line < line_count(bytes) && 0 <= k < cluster_starts(visible_text(bytes, line)).len() && q
            == line_start(bytes, line) + #[trigger] cluster_starts(visible_text(bytes, line))[k];
    assert(cuts_text(cluster_starts(visible_text(bytes, line)), visible_text(bytes, line)));
    lemma_line_layout(bytes, line);
    lemma_cluster_position(bytes, line, k);
    lemma_line_breaks_monotonic(bytes, q, p);
    let lp = line_breaks_before(bytes, p);
    if lp == line {
        lemma_count_strict(
            cluster_starts(visible_text(bytes, line)),
            k,
            p - line_start(bytes, line),
        );
    } else {
        lemma_clusters_monotonic(bytes, line + 1, lp);
    }
}

/// The clusters of a text are numbered in order, without gaps: the first has index
/// zero, each index below their number stands for the start of one cluster and is its
/// index, later clusters have greater indices, and the number itself stands for the end
/// of the text.
pub proof fn clusters_are_numbered_in_order(bytes: Seq<u8>, g: nat, q: int)
    requires
        valid_utf8(bytes),
    ensures
        lines_cut(bytes) && g < total_clusters(bytes) ==> starts_cluster(
            bytes,
            grapheme_byte(bytes, g as int),
        ) && grapheme_index(bytes, grapheme_byte(bytes, g as int)) == g,
        g >= total_clusters(bytes) ==> grapheme_byte(bytes, g as int) == bytes.len(),
        lines_cut(bytes) && starts_cluster(bytes, q) ==> grapheme_index(bytes, q) < total_clusters(
            bytes,
        ) && grapheme_byte(bytes, grapheme_index(bytes, q) as int) == q,
        lines_cut(bytes) && starts_cluster(bytes, q) && g < total_clusters(bytes) ==> (q
            < grapheme_byte(bytes, g as int) <==> grapheme_index(bytes, q) < g),
{
    if lines_cut(bytes) {
        if g < total_clusters(bytes) {
            lemma_cluster_at_index(bytes, g);
        }
        if starts_cluster(bytes, q) {
            lemma_started_cluster(bytes, q);
            if g < total_clusters(bytes) {
                let p = grapheme_byte(bytes, g as int);
                lemma_started_cluster(bytes, p);
                if q < p {
                    lemma_earlier_cluster(bytes, q, p);
                } else if p < q {
                    lemma_earlier_cluster(bytes, p, q);
                }
            }
        }
    }
    assert(clusters_before_line(bytes, 0) == 0);
    if g >= total_clusters(bytes) {
        lemma_grapheme_byte_past(bytes, g as int, 0);
    }
}

/// No place has a greater index than there are clusters.
proof fn lemma_index_bound(bytes: Seq<u8>, p: int)
    requires
        valid_utf8(bytes),
        0 <= p <= bytes.len(),
        snapped(bytes, p) == p,
    ensures
        grapheme_index(bytes, p) <= total_clusters(bytes),
{
    let line = line_breaks_before(bytes, p);
    lemma_line_of_byte(bytes, p);
    let rel = p - line_start(bytes, line);
    lemma_count_monotonic(cluster_starts(visible_text(bytes, line)), rel, rel);
    lemma_clusters_monotonic(bytes, line + 1, line_count(bytes));
}

/// Snapping a place leads back to the last place of its line, at or before it, where
/// the cursor can stand: the start of a cluster, or the end of the visible text. That
/// is a character boundary, and snapping it again leaves it where it is.
pub proof fn snapping_leads_to_the_last_stop(bytes: Seq<u8>, byte: int)
    requires
        valid_utf8(bytes),
        0 <= byte <= bytes.len(),
    ensures
        lines_cut(bytes) ==> {
            let r = snapped(bytes, byte);
            let line = line_breaks_before(bytes, byte);
            &&& 0 <= r <= byte
            &&& is_char_boundary(bytes, r)
            &&& line_breaks_before(bytes, r) == line
            &&& snapped(bytes, r) == r
            &&& is_stop(bytes, line, r)
            &&& forall|p: int| #[trigger] is_stop(bytes, line, p) && p <= byte ==> p <= r
        },
{
    if lines_cut(bytes) {
        lemma_floor_boundary(bytes, byte);
        lemma_floor_keeps_line(bytes, byte);
        lemma_line_of_byte(bytes, byte);
        let line = line_breaks_before(bytes, byte);
        assert(cuts_text(cluster_starts(visible_text(bytes, line)), visible_text(bytes, line)));
        lemma_snapped(bytes, byte);
        lemma_snapped_is_last_stop(bytes, byte);
    }
}

/// A place beyond the end of the text snaps as its end does.
pub proof fn snapping_beyond_the_end(bytes: Seq<u8>, byte: int)
    requires
        valid_utf8(bytes),
        byte >= bytes.len(),
    ensures
        snapped(bytes, byte) == snapped(bytes, bytes.len() as int),
        lines_cut(bytes) ==> snapped(bytes, byte) == bytes.len(),
{
    if lines_cut(bytes) {
        let last = (line_count(bytes) - 1) as nat;
        assert(cuts_text(cluster_starts(visible_text(bytes, last)), visible_text(bytes, last)));
        lemma_text_end(bytes);
    }
}

/// One step to the left goes back over exactly one cluster: from a place where the
/// cursor can stand, it ends at the start of a cluster, and no other cluster starts
/// between the two. Where no cluster starts before the place it ends at the start of
/// the text.
pub proof fn left_steps_over_one_cluster(bytes: Seq<u8>, p: int, r: int)
    requires
        valid_utf8(bytes),
        0 <= p <= bytes.len(),
        snapped(bytes, p) == p,
        r == if grapheme_index(bytes, p) == 0 {
            0
        } else {
            grapheme_byte(bytes, grapheme_index(bytes, p) - 1)
        },
    ensures
        lines_cut(bytes) ==> {
            &&& 0 <= r <= p
            &&& snapped(bytes, r) == r
            &&& (exists|q: int| #[trigger] starts_cluster(bytes, q) && q < p) ==> starts_cluster(
                bytes,
                r,
            ) && r < p
            &&& forall|q: int| #[trigger] starts_cluster(bytes, q) && r <= q < p ==> q == r
            &&& (forall|q: int| #[trigger] starts_cluster(bytes, q) ==> p <= q) ==> r == 0
        },
{
    if lines_cut(bytes) {
        let g = grapheme_index(bytes, p);
        lemma_index_bound(bytes, p);
        lemma_line_of_byte(bytes, 0);
        lemma_line_layout(bytes, 0);
        lemma_line_start_snapped(bytes, 0);
        if g > 0 {
            lemma_cluster_at_index(bytes, (g - 1) as nat);
            lemma_started_cluster(bytes, r);
            if r >= p {
                lemma_index_monotonic(bytes, p, r);
            }
        }
        assert forall|q: int| #[trigger] starts_cluster(bytes, q) && q < p implies g > 0 by {
            lemma_earlier_cluster(bytes, q, p);
        }
        assert forall|q: int| #[trigger] starts_cluster(bytes, q) && r <= q < p implies q == r by {
            lemma_earlier_cluster(bytes, q, p);
            lemma_started_cluster(bytes, q);
            if r < q {
                lemma_earlier_cluster(bytes, r, q);
            }
        }
    }
}

/// One step to the right goes over exactly one cluster: from a place where the cursor
/// can stand and that a cluster starts at or behind, one cluster starts at or behind
/// the place and before the end of the step, and the step ends where the next one
/// starts, or at the end of the text. Where no cluster starts there it ends at the end
/// of the text.
pub proof fn right_steps_over_one_cluster(bytes: Seq<u8>, p: int, r: int)
    requires
        valid_utf8(bytes),
        0 <= p <= bytes.len(),
        snapped(bytes, p) == p,
        r == if grapheme_index(bytes, p) >= total_clusters(bytes) {
            bytes.len() as int
        } else {
            grapheme_byte(bytes, (grapheme_index(bytes, p) + 1) as int)
        },
    ensures
        lines_cut(bytes) ==> {
            &&& p <= r <= bytes.len()
            &&& snapped(bytes, r) == r
            &&& (exists|q: int| #[trigger] starts_cluster(bytes, q) && p <= q) ==> exists|q: int|
                #[trigger] starts_cluster(bytes, q) && p <= q < r
            &&& forall|a: int, b: int|
                #![trigger starts_cluster(bytes, a), starts_cluster(bytes, b)]
                starts_cluster(bytes, a) && starts_cluster(bytes, b) && p <= a < r && p <= b < r
                    ==> a == b
            &&& starts_cluster(bytes, r) || r == bytes.len()
            &&& (forall|q: int| #[trigger] starts_cluster(bytes, q) ==> q < p) ==> r == bytes.len()
        },
{
    if lines_cut(bytes) {
        let g = grapheme_index(bytes, p);
        let total = total_clusters(bytes);
        let last = (line_count(bytes) - 1) as nat;
        assert(cuts_text(cluster_starts(visible_text(bytes, last)), visible_text(bytes, last)));
        lemma_text_end(bytes);
        assert(clusters_before_line(bytes, 0) == 0);
        if g + 1 < total {
            lemma_cluster_at_index(bytes, g + 1);
            lemma_started_cluster(bytes, r);
            if r < p {
                lemma_index_monotonic(bytes, r, p);
            }
        } else if g + 1 == total {
            lemma_grapheme_byte_past(bytes, (g + 1) as int, 0);
        }
        if g < total {
            lemma_cluster_at_index(bytes, g);
            let q = grapheme_byte(bytes, g as int);
            lemma_started_cluster(bytes, q);
            if q < p {
                lemma_earlier_cluster(bytes, q, p);
            }
            if r <= q {
                lemma_index_monotonic(bytes, r, q);
            }
            assert(starts_cluster(bytes, q) && p <= q < r);
        }
        assert forall|q: int| #[trigger] starts_cluster(bytes, q) && p <= q implies g < total by {
            lemma_started_cluster(bytes, q);
            lemma_index_monotonic(bytes, p, q);
        }
        assert forall|a: int|
            #[trigger] starts_cluster(bytes, a) && p <= a < r implies a == grapheme_byte(
            bytes,
            g as int,
        ) by {
            lemma_started_cluster(bytes, a);
            lemma_index_monotonic(bytes, p, a);
            lemma_earlier_cluster(bytes, a, r);
        }
    }
}

/// Moving by lines ends on the line that many lines further on, or on the first or
/// last line where there is none. Where a cluster of that line is shown at the column
/// that the move starts from, and each cluster before it takes a cell, the move ends at
/// that cluster; where the line is shorter it ends at the end of its visible text.
pub proof fn vertical_moves_keep_line_and_column(
    bytes: Seq<u8>,
    byte: int,
    delta: int,
    from: int,
    to: int,
    r: int,
)
    requires
        valid_utf8(bytes),
        0 <= byte,
        delta != 0,
        line_count(bytes) <= usize::MAX,
        from == line_breaks_before(bytes, snapped(bytes, byte)),
        from + delta < 0 ==> to == 0,
        from + delta >= line_count(bytes) ==> to == line_count(bytes) - 1,
        0 <= from + delta < line_count(bytes) ==> to == from + delta,
        r == cell_byte(
            bytes,
            (CellPos {
                line: moved_line(bytes, cell_of(bytes, byte).0 as int, delta) as usize,
                column: saturated(cell_of(bytes, byte).1) as usize,
            }),
        ),
    ensures
        lines_cut(bytes) ==> {
            let column = cell_of(bytes, byte).1;
            let text = visible_text(bytes, to as nat);
            &&& 0 <= r <= bytes.len()
            &&& belongs_to_line(bytes, r, to)
            &&& plain_breaks(bytes) ==> line_breaks_before(bytes, r) == to
            &&& is_stop(bytes, to as nat, r)
            &&& column <= usize::MAX ==> forall|k: int|
                0 <= k < cluster_starts(text).len() && #[trigger] cluster_column(text, k) == column
                    && all_visible_before(text, k) ==> r == line_start(bytes, to as nat)
                    + cluster_starts(text)[k]
            &&& column <= usize::MAX && cluster_column(text, cluster_starts(text).len() as int)
                <= column && all_visible_before(text, cluster_starts(text).len() as int) ==> r
                == visible_end(bytes, to as nat)
        },
{
    if lines_cut(bytes) {
        assert(to == moved_line(bytes, from, delta));
        let column = cell_of(bytes, byte).1;
        let text = visible_text(bytes, to as nat);
        let widths = cluster_widths(text);
        let pos = CellPos { line: to as usize, column: saturated(column) as usize };
        cells_stand_for_their_line(bytes, pos);
        assert forall|k: int|
            0 <= k < cluster_starts(text).len() && #[trigger] cluster_column(text, k) == column
                && all_visible_before(text, k) && column <= usize::MAX implies r == line_start(
            bytes,
            to as nat,
        ) + cluster_starts(text)[k] by {
            assert forall|j: int| 0 <= j < k implies #[trigger] widths[j] > 0 by {
                assert(cluster_width(cluster(text, j)) > 0);
            }
            lemma_index_at_own_column(widths, k, 0);
        }
        let n = cluster_starts(text).len() as int;
        if column <= usize::MAX && cluster_column(text, n) <= column && all_visible_before(text, n) {
            if r < visible_end(bytes, to as nat) {
                let k = choose|k: int|
                    0 <= k < cluster_starts(text).len() && r == line_start(bytes, to as nat)
                        + #[trigger] cluster_starts(text)[k] && cluster_column(text, k) <= column
                        && (column == cluster_column(text, k) || column < cluster_column(
                        text,
                        k + 1,
                    ));
                lemma_column_monotonic(widths, k + 1, n);
                assert(cluster_width(cluster(text, k)) > 0);
            }
        }
    }
}

/// Wherever the mouse is, it stands for a place in the text at which the cursor can
/// stand.
pub proof fn clicks_stay_in_the_text(
    bytes: Seq<u8>,
    rect: Rect,
    scroll_line: u16,
    mouse_x: u16,
    mouse_y: u16,
)
    requires
        valid_utf8(bytes),
    ensures
        lines_cut(bytes) ==> 0 <= mouse_byte(
            bytes,
            rect,
            scroll_line as int,
            mouse_x as int,
            mouse_y as int,
        ) <= bytes.len() && snapped(
            bytes,
            mouse_byte(bytes, rect, scroll_line as int, mouse_x as int, mouse_y as int),
        ) == mouse_byte(bytes, rect, scroll_line as int, mouse_x as int, mouse_y as int),
{
    if lines_cut(bytes) {
        lemma_line_of_byte(bytes, 0);
        lemma_line_layout(bytes, 0);
        lemma_line_start_snapped(bytes, 0);
        if rect.width != 0 && rect.height != 0 {
            let code_y = smaller(rect.y + editor_header_rows(rect.height), u16::MAX as int);
            let code_x = smaller(rect.x + 1, u16::MAX as int);
            let gutter = gutter_width(line_count(bytes));
            if mouse_y < code_y || mouse_x < code_x {
                lemma_cell_snapped(bytes, (CellPos { line: scroll_line as usize, column: 0 }));
            } else {
                let column: int = if mouse_x - code_x < gutter {
                    0
                } else {
                    mouse_x - code_x - gutter
                };
                lemma_gutter_bound(line_count(bytes));
                lemma_cell_snapped(
                    bytes,
                    (CellPos {
                        line: (scroll_line + mouse_y - code_y) as usize,
                        column: column as usize,
                    }),
                );
            }
        }
    }
}

/// What a display position stands for is a place where the cursor can stand.
proof fn lemma_cell_snapped(bytes: Seq<u8>, pos: CellPos)
    requires
        valid_utf8(bytes),
        lines_cut(bytes),
    ensures
        0 <= cell_byte(bytes, pos) <= bytes.len(),
        snapped(bytes, cell_byte(bytes, pos)) == cell_byte(bytes, pos),
{
    let line = clamp_line(bytes, pos.line as int);
    let text = visible_text(bytes, line);
    assert(cuts_text(cluster_starts(text), text));
    lemma_line_layout(bytes, line);
    let i = index_at(cluster_widths(text), pos.column as int, 0);
    lemma_index_covers(cluster_widths(text), pos.column as int, 0);
    if i < cluster_starts(text).len() {
        lemma_cluster_position(bytes, line, i);
    } else if visible_end(bytes, line) == line_end(bytes, line) && line + 1 < line_count(bytes) {
        lemma_line_start_snapped(bytes, line + 1);
        lemma_line_layout(bytes, line + 1);
    } else {
        lemma_visible_end_snapped(bytes, line);
    }
}

/// The clusters of a line are shown one behind the other: the first at column zero, and
/// each as many cells behind the one before as that one takes, which are four for a tab
/// and its display width otherwise.
pub proof fn clusters_are_shown_one_behind_the_other(text: Seq<char>, i: int)
    requires
        0 <= i < cluster_starts(text).len(),
    ensures
        cluster_column(text, 0) == 0,
        cluster(text, i) == seq!['\t'] ==> cluster_column(text, i + 1) == cluster_column(text, i)
            + 4,
        cluster(text, i) != seq!['\t'] ==> cluster_column(text, i + 1) == cluster_column(text, i)
            + display_width(cluster(text, i)),
{
}

/// The visible part of a line starts where the line starts, holds neither CR nor LF, and
/// ends at the first of them or at the end of the line.
pub proof fn visible_text_ends_at_the_line_break(bytes: Seq<u8>, line: nat, i: int)
    requires
        valid_utf8(bytes),
        line < line_count(bytes),
    ensures
        line_starts_at(bytes, line, line_start(bytes, line)),
        line_start(bytes, line) <= i < visible_end(bytes, line) ==> bytes[i] != 0x0a && bytes[i]
            != 0x0d,
        visible_end(bytes, line) < line_end(bytes, line) ==> bytes[visible_end(bytes, line)] == 0x0a
            || bytes[visible_end(bytes, line)] == 0x0d,
        line + 1 < line_count(bytes) ==> line_starts_at(bytes, line + 1, line_end(bytes, line)),
        line + 1 == line_count(bytes) ==> line_end(bytes, line) == bytes.len(),
        encode_utf8(visible_text(bytes, line)) == bytes.subrange(
            line_start(bytes, line),
            visible_end(bytes, line),
        ),
{
    lemma_line_layout(bytes, line);
    lemma_line_text(bytes, line);
    lemma_first_terminator(bytes, line_start(bytes, line), line_end(bytes, line));
    if line + 1 < line_count(bytes) {
        lemma_line_layout(bytes, line + 1);
    }
}

/// A UTF-16 column leads behind the characters that fit in it: a character is passed if
/// and only if its code units end at the column or before it. A line behind the last one
/// is the last one, and a column behind the end of a line is that end.
pub proof fn utf16_columns_lead_behind_their_characters(
    bytes: Seq<u8>,
    line: nat,
    n: int,
    units: int,
)
    requires
        valid_utf8(bytes),
        line < line_count(bytes),
        0 <= n <= visible_text(bytes, line).len(),
        utf16_len(visible_text(bytes, line).take(n)) <= units,
        n < visible_text(bytes, line).len() ==> units < utf16_len(
            visible_text(bytes, line).take(n + 1),
        ),
    ensures
        utf16_byte(bytes, line as int, units) == snapped(
            bytes,
            line_start(bytes, line) + encode_utf8(visible_text(bytes, line).take(n)).len(),
        ),
        line + 1 == line_count(bytes) ==> forall|l: int|
            line <= l ==> #[trigger] utf16_byte(bytes, l, units) == utf16_byte(
                bytes,
                line as int,
                units,
            ),
{
    lemma_utf16_fit(visible_text(bytes, line), n, units, 0);
}

proof fn lemma_utf16_fit(text: Seq<char>, n: int, units: int, i: int)
    requires
        0 <= i <= n <= text.len(),
        utf16_len(text.take(n)) <= units,
        n < text.len() ==> units < utf16_len(text.take(n + 1)),
    ensures
        utf16_prefix(text, units, i) == n,
    decreases n - i,
{
    if i < n {
        lemma_utf16_monotonic(text, i + 1, n);
        lemma_utf16_fit(text, n, units, i + 1);
    }
}

} // verus!
