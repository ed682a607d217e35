//! Strings seen as sequences of characters and as UTF-8 bytes.
use vstd::prelude::*;
use vstd::utf8::*;

verus! {

/// `String::push` of std appends one character.
pub assume_specification[ std::string::String::push ](s: &mut std::string::String, ch: char)
    ensures
        final(s)@ == old(s)@.push(ch),
;

/// `String::push_str` of std appends the characters of a string slice.
pub assume_specification[ std::string::String::push_str ](
    s: &mut std::string::String,
    string: &str,
)
    ensures
        final(s)@ == old(s)@ + string@,
;

/// `String::pop` of std removes the last character and returns it; there is none
/// in an empty string.
pub assume_specification[ std::string::String::pop ](s: &mut std::string::String) -> (last: Option<
    char,
>)
    ensures
        old(s)@.len() == 0 ==> last is None && final(s)@ == old(s)@,
        old(s)@.len() > 0 ==> last == Some(old(s)@.last()) && final(s)@ == old(s)@.drop_last(),
;

/// `String::len` of std counts the bytes. They lie in one allocated object, whose size
/// is at most the largest `isize`, as the documentation of `std::ptr` says.
pub assume_specification[ std::string::String::len ](s: &std::string::String) -> (n: usize)
    ensures
        n == encode_utf8(s@).len(),
        n <= isize::MAX,
;

/// UTF-8 encoding distributes over concatenation.
pub proof fn lemma_encode_concat(a: Seq<char>, b: Seq<char>)
    ensures
        encode_utf8(a + b) == encode_utf8(a) + encode_utf8(b),
    decreases a.len(),
{
    if a.len() == 0 {
        assert(a + b =~= b);
        assert(encode_utf8(a) + encode_utf8(b) =~= encode_utf8(b));
    } else {
        assert((a + b).drop_first() =~= a.drop_first() + b);
        lemma_encode_concat(a.drop_first(), b);
        assert(encode_utf8(a + b) =~= encode_utf8(a) + encode_utf8(b));
    }
}

/// Two character sequences with the same UTF-8 encoding are the same.
pub proof fn lemma_encode_injective(a: Seq<char>, b: Seq<char>)
    requires
        encode_utf8(a) == encode_utf8(b),
    ensures
        a == b,
{
    encode_utf8_decode_utf8(a);
    encode_utf8_decode_utf8(b);
}

/// Number of bytes before the character at index `i`.
pub open spec fn byte_offset(chars: Seq<char>, i: int) -> int {
    encode_utf8(chars.take(i)).len() as int
}

/// Number of bytes that one character takes.
pub open spec fn char_len(c: char) -> int {
    encode_scalar(c as u32).len() as int
}

pub proof fn lemma_char_len(c: char)
    ensures
        1 <= char_len(c) <= 4,
        char_len(c) == if c as u32 <= 0x7f { 1int } else if c as u32 <= 0x7ff {
            2
        } else if c as u32 <= 0xffff {
            3
        } else {
            4
        },
{
}

/// One more character advances the byte offset by its length.
pub proof fn lemma_byte_offset_step(chars: Seq<char>, i: int)
    requires
        0 <= i < chars.len(),
    ensures
        byte_offset(chars, i + 1) == byte_offset(chars, i) + char_len(chars[i]),
{
    assert(chars.take(i + 1) =~= chars.take(i) + seq![chars[i]]);
    lemma_encode_concat(chars.take(i), seq![chars[i]]);
    assert(seq![chars[i]].drop_first() =~= Seq::<char>::empty());
    assert(encode_utf8(seq![chars[i]]) =~= encode_scalar(chars[i] as u32)) by {
        reveal_with_fuel(encode_utf8, 2);
    }
}

/// Byte offsets grow strictly with the character index.
pub proof fn lemma_byte_offset_monotonic(chars: Seq<char>, i: int, j: int)
    requires
        0 <= i <= j <= chars.len(),
    ensures
        byte_offset(chars, i) <= byte_offset(chars, j),
        i < j ==> byte_offset(chars, i) < byte_offset(chars, j),
    decreases j - i,
{
    if i < j {
        lemma_byte_offset_step(chars, j - 1);
        lemma_char_len(chars[j - 1]);
        lemma_byte_offset_monotonic(chars, i, j - 1);
    }
}

pub proof fn lemma_byte_offset_ends(chars: Seq<char>)
    ensures
        byte_offset(chars, 0) == 0,
        byte_offset(chars, chars.len() as int) == encode_utf8(chars).len(),
{
    assert(chars.take(0) =~= Seq::<char>::empty());
    assert(chars.take(chars.len() as int) =~= chars);
}

/// The bytes of a text before and after a character index.
pub proof fn lemma_encode_split(chars: Seq<char>, i: int)
    requires
        0 <= i <= chars.len(),
    ensures
        encode_utf8(chars) == encode_utf8(chars.take(i)) + encode_utf8(chars.skip(i)),
        encode_utf8(chars).take(byte_offset(chars, i)) == encode_utf8(chars.take(i)),
        encode_utf8(chars).skip(byte_offset(chars, i)) == encode_utf8(chars.skip(i)),
        byte_offset(chars, i) <= encode_utf8(chars).len(),
{
    assert(chars =~= chars.take(i) + chars.skip(i));
    lemma_encode_concat(chars.take(i), chars.skip(i));
    assert(encode_utf8(chars).take(byte_offset(chars, i)) =~= encode_utf8(chars.take(i)));
    assert(encode_utf8(chars).skip(byte_offset(chars, i)) =~= encode_utf8(chars.skip(i)));
}

/// Every character starts on a character boundary of the encoding.
pub proof fn lemma_byte_offset_is_boundary(chars: Seq<char>, i: int)
    requires
        0 <= i <= chars.len(),
    ensures
        is_char_boundary(encode_utf8(chars), byte_offset(chars, i)),
    decreases i,
{
    broadcast use encode_utf8_valid_utf8;

    let bytes = encode_utf8(chars);
    lemma_byte_offset_ends(chars);
    if i == 0 {
        is_char_boundary_start_end_of_seq(bytes);
    } else {
        encode_utf8_first_scalar(chars);
        let rest = chars.drop_first();
        lemma_byte_offset_is_boundary(rest, i - 1);
        assert(chars.take(i) =~= seq![chars[0]] + rest.take(i - 1));
        lemma_encode_concat(seq![chars[0]], rest.take(i - 1));
        assert(encode_utf8(seq![chars[0]]) =~= encode_scalar(chars[0] as u32)) by {
            reveal_with_fuel(encode_utf8, 2);
            assert(seq![chars[0]].drop_first() =~= Seq::<char>::empty());
        }
        assert(byte_offset(chars, i) == char_len(chars[0]) + byte_offset(rest, i - 1));
        lemma_encode_split(chars, i);
        assert(bytes =~= encode_scalar(chars[0] as u32) + encode_utf8(rest));
        assert(length_of_first_scalar(bytes) == char_len(chars[0]));
        assert(pop_first_scalar(bytes) =~= encode_utf8(rest));
    }
}

/// Every character boundary is where some character starts, or the end.
pub proof fn lemma_boundary_is_byte_offset(chars: Seq<char>, b: int) -> (i: int)
    requires
        0 <= b <= encode_utf8(chars).len(),
        is_char_boundary(encode_utf8(chars), b),
    ensures
        0 <= i <= chars.len(),
        byte_offset(chars, i) == b,
    decreases chars.len(),
{
    broadcast use encode_utf8_valid_utf8;

    let bytes = encode_utf8(chars);
    lemma_byte_offset_ends(chars);
    if b == 0 {
        0
    } else {
        encode_utf8_first_scalar(chars);
        let rest = chars.drop_first();
        assert(bytes =~= encode_scalar(chars[0] as u32) + encode_utf8(rest));
        assert(length_of_first_scalar(bytes) == char_len(chars[0]));
        assert(pop_first_scalar(bytes) =~= encode_utf8(rest));
        reveal_with_fuel(is_char_boundary, 2);
        let j = lemma_boundary_is_byte_offset(rest, b - char_len(chars[0]));
        let i = j + 1;
        assert(chars.take(i) =~= seq![chars[0]] + rest.take(j));
        lemma_encode_concat(seq![chars[0]], rest.take(j));
        assert(encode_utf8(seq![chars[0]]) =~= encode_scalar(chars[0] as u32)) by {
            reveal_with_fuel(encode_utf8, 2);
            assert(seq![chars[0]].drop_first() =~= Seq::<char>::empty());
        }
        i
    }
}

/// Whether two byte slices hold the same bytes.
pub fn bytes_eq(a: &[u8], b: &[u8]) -> (same: bool)
    ensures
        same == (a@ == b@),
{
    if a.len() != b.len() {
        return false;
    }
    for i in 0..a.len()
        invariant
            a@.len() == b@.len(),
            forall|j: int| 0 <= j < i ==> a@[j] == b@[j],
    {
        if a[i] != b[i] {
            return false;
        }
    }
    assert(a@ =~= b@);
    true
}

/// Whether two string slices hold the same text.
pub fn str_eq(a: &str, b: &str) -> (same: bool)
    ensures
        same == (a@ == b@),
{
    let same = bytes_eq(a.as_bytes(), b.as_bytes());
    proof {
        if encode_utf8(a@) == encode_utf8(b@) {
            lemma_encode_injective(a@, b@);
        }
    }
    same
}

/// The characters of a string slice.
pub fn chars_of(s: &str) -> (out: Vec<char>)
    ensures
        out@ == s@,
{
    let mut out: Vec<char> = Vec::new();
    for c in it: s.chars()
        invariant
            it.seq() == s@,
            out@ == s@.take(it.index()),
    {
        proof {
            assert(s@.take(it.index()).push(c) =~= s@.take(it.index() + 1));
        }
        out.push(c);
    }
    assert(s@.take(s@.len() as int) =~= s@);
    out
}

/// The string of the characters of a slice.
pub fn string_of(chars: &[char]) -> (out: String)
    ensures
        out@ == chars@,
{
    let mut out = String::new();
    for i in 0..chars.len()
        invariant
            out@ == chars@.take(i as int),
    {
        assert(chars@.take(i as int).push(chars@[i as int]) =~= chars@.take(i + 1));
        out.push(chars[i]);
    }
    assert(chars@.take(chars@.len() as int) =~= chars@);
    out
}

/// The text between two byte offsets that fall on character boundaries.
pub fn slice_bytes<'a>(s: &'a str, start: usize, end: usize) -> (out: &'a str)
    requires
        start <= end <= encode_utf8(s@).len(),
        is_char_boundary(encode_utf8(s@), start as int),
        is_char_boundary(encode_utf8(s@), end as int),
    ensures
        encode_utf8(out@) == encode_utf8(s@).subrange(start as int, end as int),
{
    broadcast use encode_utf8_valid_utf8;

    let (head, _) = s.split_at(end);
    proof {
        lemma_boundary_of_prefix(encode_utf8(s@), start as int, end as int);
        assert(encode_utf8(head@) == encode_utf8(s@).subrange(0, end as int));
    }
    let (_, out) = head.split_at(start);
    assert(encode_utf8(out@) =~= encode_utf8(s@).subrange(start as int, end as int));
    out
}

/// A boundary of a text at or before another boundary is a boundary of the prefix.
pub proof fn lemma_boundary_of_prefix(bytes: Seq<u8>, i: int, j: int)
    requires
        valid_utf8(bytes),
        0 <= i <= j <= bytes.len(),
        is_char_boundary(bytes, i),
        is_char_boundary(bytes, j),
    ensures
        valid_utf8(bytes.subrange(0, j)),
        is_char_boundary(bytes.subrange(0, j), i),
{
    valid_utf8_split(bytes, j);
    let p = bytes.subrange(0, j);
    if i < j {
        is_char_boundary_iff_not_is_continuation_byte(bytes, i);
        is_char_boundary_iff_not_is_continuation_byte(p, i);
        assert(p[i] == bytes[i]);
    } else {
        is_char_boundary_start_end_of_seq(p);
    }
}

/// A boundary of a text at or after another boundary is a boundary of the suffix.
pub proof fn lemma_boundary_of_suffix(bytes: Seq<u8>, i: int, j: int)
    requires
        valid_utf8(bytes),
        0 <= i <= j <= bytes.len(),
        is_char_boundary(bytes, i),
    ensures
        valid_utf8(bytes.subrange(i, bytes.len() as int)),
        is_char_boundary(bytes, j) == is_char_boundary(
            bytes.subrange(i, bytes.len() as int),
            j - i,
        ),
{
    valid_utf8_split(bytes, i);
    let s = bytes.subrange(i, bytes.len() as int);
    if j < bytes.len() {
        is_char_boundary_iff_not_is_continuation_byte(bytes, j);
        is_char_boundary_iff_not_is_continuation_byte(s, j - i);
        assert(s[j - i] == bytes[j]);
    } else {
        is_char_boundary_start_end_of_seq(s);
        is_char_boundary_start_end_of_seq(bytes);
    }
}

/// The width that a leading byte announces.
pub open spec fn lead_width(b: u8) -> int {
    if is_leading_byte_width_1(b) {
        1
    } else if is_leading_byte_width_2(b) {
        2
    } else if is_leading_byte_width_3(b) {
        3
    } else {
        4
    }
}

/// After a leading byte, the next boundary follows the announced width.
pub proof fn lemma_boundary_after_char(bytes: Seq<u8>, i: int)
    requires
        valid_utf8(bytes),
        0 <= i < bytes.len(),
        !is_continuation_byte(bytes[i]),
    ensures
        is_char_boundary(bytes, i),
        i + lead_width(bytes[i]) <= bytes.len(),
        is_char_boundary(bytes, i + lead_width(bytes[i])),
{
    is_char_boundary_iff_not_is_continuation_byte(bytes, i);
    valid_utf8_split(bytes, i);
    let s = bytes.subrange(i, bytes.len() as int);
    assert(s[0] == bytes[i]);
    assert(valid_first_scalar(s));
    let w = length_of_first_scalar(s);
    assert(w == lead_width(bytes[i]));
    assert(is_char_boundary(s, w)) by {
        reveal_with_fuel(is_char_boundary, 2);
    }
    lemma_boundary_of_suffix(bytes, i, i + w);
}

} // verus!
