//! Cutting a text at white space and at line ends, and comparing texts.
use vstd::prelude::*;

use crate::text::{chars_of, string_of};

verus! {

/// Whether a character is white space in the sense of Unicode.
pub open spec fn is_space(c: char) -> bool {
    let n = c as u32;
    ||| 0x09 <= n <= 0x0d
    ||| n == 0x20
    ||| n == 0x85
    ||| n == 0xa0
    ||| n == 0x1680
    ||| 0x2000 <= n <= 0x200a
    ||| n == 0x2028
    ||| n == 0x2029
    ||| n == 0x202f
    ||| n == 0x205f
    ||| n == 0x3000
}

pub fn is_white_space(c: char) -> (yes: bool)
    ensures
        yes == is_space(c),
{
    let n: u32 = c as u32;
    (0x09 <= n && n <= 0x0d) || n == 0x20 || n == 0x85 || n == 0xa0 || n == 0x1680 || (0x2000 <= n
        && n <= 0x200a) || n == 0x2028 || n == 0x2029 || n == 0x202f || n == 0x205f || n == 0x3000
}

/// Whether a character is a control character.
pub open spec fn is_control(c: char) -> bool {
    let n = c as u32;
    n <= 0x1f || 0x7f <= n <= 0x9f
}

pub fn is_control_char(c: char) -> (yes: bool)
    ensures
        yes == is_control(c),
{
    let n: u32 = c as u32;
    n <= 0x1f || (0x7f <= n && n <= 0x9f)
}

/// How much white space a text starts with, counted from index `i` on.
pub open spec fn skip_space(s: Seq<char>, i: int) -> int
    decreases s.len() - i,
{
    if i < s.len() && is_space(s[i]) {
        skip_space(s, i + 1)
    } else {
        i
    }
}

/// Where the text ends before the white space at its end, from `end` backwards.
pub open spec fn back_over_space(s: Seq<char>, start: int, end: int) -> int
    decreases end - start,
{
    if start < end && is_space(s[end - 1]) {
        back_over_space(s, start, end - 1)
    } else {
        end
    }
}

/// A text without the white space at its start and end.
pub open spec fn trimmed(s: Seq<char>) -> Seq<char> {
    let a = skip_space(s, 0);
    s.subrange(a, back_over_space(s, a, s.len() as int))
}

proof fn lemma_skip_space(s: Seq<char>, i: int)
    requires
        0 <= i <= s.len(),
    ensures
        i <= skip_space(s, i) <= s.len(),
    decreases s.len() - i,
{
    if i < s.len() && is_space(s[i]) {
        lemma_skip_space(s, i + 1);
    }
}

/// The characters `[start, end)` of a slice.
pub fn sub_chars(chars: &Vec<char>, start: usize, end: usize) -> (out: Vec<char>)
    requires
        start <= end <= chars@.len(),
    ensures
        out@ == chars@.subrange(start as int, end as int),
{
    let mut out: Vec<char> = Vec::new();
    for i in start..end
        invariant
            start <= i,
            end <= chars@.len(),
            out@ == chars@.subrange(start as int, i as int),
    {
        out.push(chars[i]);
        assert(out@ =~= chars@.subrange(start as int, i + 1));
    }
    out
}

/// A text without the white space at its start and end.
pub fn trim(s: &str) -> (out: String)
    ensures
        out@ == trimmed(s@),
{
    let chars = chars_of(s);
    let mut a: usize = 0;
    while a < chars.len() && is_white_space(chars[a])
        invariant
            a <= chars@.len(),
            skip_space(chars@, 0) == skip_space(chars@, a as int),
        decreases chars@.len() - a,
    {
        a += 1;
    }
    let mut b: usize = chars.len();
    while a < b && is_white_space(chars[b - 1])
        invariant
            a <= b <= chars@.len(),
            back_over_space(chars@, a as int, chars@.len() as int) == back_over_space(
                chars@,
                a as int,
                b as int,
            ),
        decreases b,
    {
        b -= 1;
    }
    string_of(sub_chars(&chars, a, b).as_slice())
}

/// The end of the run of characters that are not white space, from `i` on.
pub open spec fn word_end(s: Seq<char>, i: int) -> int
    decreases s.len() - i,
{
    if i < s.len() && !is_space(s[i]) {
        word_end(s, i + 1)
    } else {
        i
    }
}

pub proof fn lemma_word_end(s: Seq<char>, i: int)
    requires
        0 <= i <= s.len(),
    ensures
        i <= word_end(s, i) <= s.len(),
        i < s.len() && !is_space(s[i]) ==> i < word_end(s, i),
    decreases s.len() - i,
{
    if i < s.len() && !is_space(s[i]) {
        lemma_word_end(s, i + 1);
    }
}

/// The words of a text from index `i` on.
pub open spec fn words_from(s: Seq<char>, i: int) -> Seq<Seq<char>>
    decreases s.len() - i,
{
    let a = skip_space(s, i);
    if 0 <= i <= a < word_end(s, a) <= s.len() {
        seq![s.subrange(a, word_end(s, a))] + words_from(s, word_end(s, a))
    } else {
        Seq::empty()
    }
}

/// The words of a text: what stands between white space.
pub open spec fn words_of(s: Seq<char>) -> Seq<Seq<char>> {
    words_from(s, 0)
}

/// The characters of several strings.
pub open spec fn texts(v: Seq<String>) -> Seq<Seq<char>> {
    v.map_values(|s: String| s@)
}

/// The words of a text.
pub fn split_words(s: &str) -> (out: Vec<String>)
    ensures
        texts(out@) == words_of(s@),
{
    let chars = chars_of(s);
    let mut out: Vec<String> = Vec::new();
    let mut i: usize = 0;
    proof {
        assert(texts(out@) + words_from(chars@, 0) =~= words_from(chars@, 0));
    }
    loop
        invariant
            i <= chars@.len(),
            chars@ == s@,
            texts(out@) + words_from(chars@, i as int) == words_of(s@),
        ensures
            texts(out@) == words_of(s@),
        decreases chars@.len() - i,
    {
        let ghost start = i as int;
        proof {
            lemma_skip_space(chars@, start);
        }
        while i < chars.len() && is_white_space(chars[i])
            invariant
                start <= i <= chars@.len(),
                skip_space(chars@, start) == skip_space(chars@, i as int),
            decreases chars@.len() - i,
        {
            i += 1;
        }
        if i >= chars.len() {
            assert(words_from(chars@, start) =~= Seq::empty());
            assert(texts(out@) + words_from(chars@, start) =~= texts(out@));
            break;
        }
        let a: usize = i;
        proof {
            lemma_word_end(chars@, a as int);
        }
        while i < chars.len() && !is_white_space(chars[i])
            invariant
                a <= i <= chars@.len(),
                word_end(chars@, a as int) == word_end(chars@, i as int),
            decreases chars@.len() - i,
        {
            i += 1;
        }
        let ghost before = out@;
        let word = string_of(sub_chars(&chars, a, i).as_slice());
        out.push(word);
        proof {
            let w = chars@.subrange(a as int, i as int);
            assert(texts(out@) =~= texts(before).push(w));
            assert(words_from(chars@, start) == seq![w] + words_from(chars@, i as int));
            assert(texts(before) + (seq![w] + words_from(chars@, i as int)) =~= texts(before).push(w)
                + words_from(chars@, i as int));
        }
    }
    out
}

/// The first word of a text, if it has one.
pub open spec fn first_word(s: Seq<char>) -> Option<Seq<char>> {
    if words_of(s).len() > 0 {
        Some(words_of(s)[0])
    } else {
        None
    }
}

/// The next line feed from index `i` on, or the end.
pub open spec fn line_feed_from(s: Seq<char>, i: int) -> int
    decreases s.len() - i,
{
    if i < s.len() && s[i] != '\n' {
        line_feed_from(s, i + 1)
    } else {
        i
    }
}

pub proof fn lemma_line_feed(s: Seq<char>, i: int)
    requires
        0 <= i <= s.len(),
    ensures
        i <= line_feed_from(s, i) <= s.len(),
        line_feed_from(s, i) < s.len() ==> s[line_feed_from(s, i)] == '\n',
    decreases s.len() - i,
{
    if i < s.len() && s[i] != '\n' {
        lemma_line_feed(s, i + 1);
    }
}

/// A line without a carriage return at its end.
pub open spec fn without_cr(s: Seq<char>) -> Seq<char> {
    if s.len() > 0 && s.last() == '\r' {
        s.drop_last()
    } else {
        s
    }
}

/// The lines of a text from index `i` on. A line ends at a line feed, which may
/// follow a carriage return; nothing after the last line feed is no line.
pub open spec fn lines_from(s: Seq<char>, i: int) -> Seq<Seq<char>>
    decreases s.len() - i,
{
    let j = line_feed_from(s, i);
    if !(0 <= i < s.len()) {
        Seq::empty()
    } else if i <= j < s.len() {
        seq![without_cr(s.subrange(i, j))] + lines_from(s, j + 1)
    } else {
        seq![s.subrange(i, s.len() as int)]
    }
}

/// The lines of a text.
pub open spec fn lines_of(s: Seq<char>) -> Seq<Seq<char>> {
    lines_from(s, 0)
}

/// The lines of a text.
pub fn split_lines(s: &str) -> (out: Vec<String>)
    ensures
        texts(out@) == lines_of(s@),
{
    let chars = chars_of(s);
    let mut out: Vec<String> = Vec::new();
    let mut i: usize = 0;
    proof {
        assert(texts(out@) + lines_from(chars@, 0) =~= lines_from(chars@, 0));
    }
    while i < chars.len()
        invariant
            i <= chars@.len(),
            chars@ == s@,
            texts(out@) + lines_from(chars@, i as int) == lines_of(s@),
        decreases chars@.len() - i,
    {
        let a: usize = i;
        proof {
            lemma_line_feed(chars@, a as int);
        }
        while i < chars.len() && chars[i] != '\n'
            invariant
                a <= i <= chars@.len(),
                line_feed_from(chars@, a as int) == line_feed_from(chars@, i as int),
            decreases chars@.len() - i,
        {
            i += 1;
        }
        let ghost before = out@;
        if i < chars.len() {
            let end: usize = if a < i && chars[i - 1] == '\r' { i - 1 } else { i };
            let line = string_of(sub_chars(&chars, a, end).as_slice());
            out.push(line);
            i += 1;
            proof {
                let w = chars@.subrange(a as int, end as int);
                assert(w =~= without_cr(chars@.subrange(a as int, i - 1)));
                assert(texts(out@) =~= texts(before).push(w));
                assert(texts(before) + (seq![w] + lines_from(chars@, i as int)) =~= texts(
                    before,
                ).push(w) + lines_from(chars@, i as int));
            }
        } else {
            let line = string_of(sub_chars(&chars, a, i).as_slice());
            out.push(line);
            proof {
                let w = chars@.subrange(a as int, i as int);
                assert(texts(out@) =~= texts(before).push(w));
                assert(lines_from(chars@, i as int) =~= Seq::empty());
                assert(texts(before) + seq![w] =~= texts(before).push(w) + lines_from(
                    chars@,
                    i as int,
                ));
            }
        }
    }
    proof {
        assert(lines_from(chars@, i as int) =~= Seq::empty());
        assert(texts(out@) + lines_from(chars@, i as int) =~= texts(out@));
    }
    out
}

/// An ASCII letter in lower case; other characters as they are.
pub open spec fn ascii_lower(c: char) -> char {
    if 'A' <= c <= 'Z' {
        (c as u32 + 32) as char
    } else {
        c
    }
}

/// A text with its ASCII letters in lower case.
pub open spec fn ascii_lower_text(s: Seq<char>) -> Seq<char> {
    s.map_values(|c: char| ascii_lower(c))
}

/// Whether two texts are the same but for the case of ASCII letters.
pub open spec fn same_ignoring_case(a: Seq<char>, b: Seq<char>) -> bool {
    ascii_lower_text(a) == ascii_lower_text(b)
}

/// The code of a character with its ASCII letter in lower case.
pub fn lower_code(c: char) -> (n: u32)
    ensures
        n == ascii_lower(c) as u32,
{
    let n: u32 = c as u32;
    if 0x41 <= n && n <= 0x5a {
        n + 32
    } else {
        n
    }
}

/// Whether two character slices are the same but for the case of ASCII letters.
pub fn chars_eq_ignoring_case(a: &Vec<char>, b: &Vec<char>) -> (same: bool)
    ensures
        same == same_ignoring_case(a@, b@),
{
    let ghost x = ascii_lower_text(a@);
    let ghost y = ascii_lower_text(b@);
    if a.len() != b.len() {
        assert(x.len() != y.len());
        return false;
    }
    for i in 0..a.len()
        invariant
            a@.len() == b@.len(),
            x == ascii_lower_text(a@),
            y == ascii_lower_text(b@),
            forall|j: int| 0 <= j < i ==> ascii_lower(a@[j]) == ascii_lower(b@[j]),
    {
        if lower_code(a[i]) != lower_code(b[i]) {
            assert(x[i as int] != y[i as int]);
            return false;
        }
    }
    assert(x =~= y);
    true
}

/// Whether two texts are the same but for the case of ASCII letters.
pub fn eq_ignoring_case(a: &str, b: &str) -> (same: bool)
    ensures
        same == same_ignoring_case(a@, b@),
{
    chars_eq_ignoring_case(&chars_of(a), &chars_of(b))
}

/// Whether a text starts with another.
pub open spec fn begins_with(s: Seq<char>, prefix: Seq<char>) -> bool {
    prefix.len() <= s.len() && s.take(prefix.len() as int) == prefix
}

/// Whether a text starts with another.
pub fn starts_with(s: &str, prefix: &str) -> (yes: bool)
    ensures
        yes == begins_with(s@, prefix@),
{
    let a = chars_of(s);
    let b = chars_of(prefix);
    if b.len() > a.len() {
        return false;
    }
    matches_at(&a, &b, 0)
}

/// Whether a text stands at an index of another.
pub open spec fn stands_at(s: Seq<char>, part: Seq<char>, i: int) -> bool {
    0 <= i <= i + part.len() <= s.len() && s.subrange(i, i + part.len()) == part
}

fn matches_at(s: &Vec<char>, part: &Vec<char>, at: usize) -> (yes: bool)
    requires
        at + part@.len() <= s@.len(),
    ensures
        yes == stands_at(s@, part@, at as int),
        at == 0 ==> yes == begins_with(s@, part@),
{
    let ghost w = s@.subrange(at as int, at + part@.len());
    assert(at == 0 ==> w =~= s@.take(part@.len() as int));
    let total: usize = s.len();
    for i in 0..part.len()
        invariant
            total == s@.len(),
            at + part@.len() <= s@.len(),
            w == s@.subrange(at as int, at + part@.len()),
            forall|j: int| 0 <= j < i ==> s@[at + j] == part@[j],
    {
        if s[at + i] != part[i] {
            assert(w[i as int] != part@[i as int]);
            return false;
        }
    }
    assert(w =~= part@);
    true
}

/// Whether a text stands somewhere in another.
pub open spec fn holds_text(s: Seq<char>, part: Seq<char>) -> bool {
    exists|i: int| #[trigger] stands_at(s, part, i)
}

/// Whether a text stands somewhere in another.
pub fn contains_text(s: &str, part: &str) -> (yes: bool)
    ensures
        yes == holds_text(s@, part@),
{
    let a = chars_of(s);
    let b = chars_of(part);
    if b.len() > a.len() {
        return false;
    }
    let last: usize = a.len() - b.len();
    let mut i: usize = 0;
    while i <= last
        invariant
            a@ == s@,
            b@ == part@,
            last == a@.len() - b@.len(),
            i <= last + 1,
            forall|j: int| 0 <= j < i ==> !stands_at(s@, part@, j),
        decreases last + 1 - i,
    {
        if matches_at(&a, &b, i) {
            return true;
        }
        if i == last {
            assert(forall|j: int| stands_at(s@, part@, j) ==> 0 <= j <= last);
            return false;
        }
        i += 1;
    }
    false
}

/// A string of several pieces, one after the other.
pub fn join2(a: &str, b: &str) -> (out: String)
    ensures
        out@ == a@ + b@,
{
    let mut out = a.to_owned();
    out.push_str(b);
    out
}

/// A string of three pieces.
pub fn join3(a: &str, b: &str, c: &str) -> (out: String)
    ensures
        out@ == a@ + b@ + c@,
{
    let mut out = a.to_owned();
    out.push_str(b);
    out.push_str(c);
    out
}

/// A string of four pieces.
pub fn join4(a: &str, b: &str, c: &str, d: &str) -> (out: String)
    ensures
        out@ == a@ + b@ + c@ + d@,
{
    let mut out = a.to_owned();
    out.push_str(b);
    out.push_str(c);
    out.push_str(d);
    out
}

/// The lower-case form of a text, in every script.
pub uninterp spec fn lower_cased(text: Seq<char>) -> Seq<char>;

/// `str::to_lowercase` of std: the lower-case form of a text after the Unicode
/// rules, which depends on the text alone.
#[verifier::external_body]
pub(crate) fn lower_case(text: &str) -> (out: String)
    ensures
        out@ == lower_cased(text@),
{
    text.to_lowercase()
}

/// A text in double quotes, with what cannot be shown written as escapes.
pub uninterp spec fn quoted(text: Seq<char>) -> Seq<char>;

/// `<str as Debug>::fmt` of std, as text: a text in double quotes with escapes, which
/// depends on the text alone.
#[verifier::external_body]
pub(crate) fn quoted_text(text: &str) -> (out: String)
    ensures
        out@ == quoted(text@),
{
    format!("{:?}", text)
}

/// A path in double quotes, with what cannot be shown written as escapes.
pub uninterp spec fn path_quoted(path: Seq<char>) -> Seq<char>;

/// `<std::path::Path as Debug>::fmt` of std, as text: a path in double quotes with
/// escapes. Built for Unix, it depends on the text of the path alone.
#[verifier::external_body]
pub(crate) fn quoted_path(path: &str) -> (out: String)
    ensures
        out@ == path_quoted(path@),
{
    format!("{:?}", std::path::Path::new(path))
}

/// The decimal digits of a number.
pub open spec fn decimal(n: nat) -> Seq<char>
    decreases n,
{
    if n < 10 {
        seq![(('0' as u32) + n) as char]
    } else {
        decimal(n / 10).push((('0' as u32) + n % 10) as char)
    }
}

/// The decimal digits of a number.
pub fn decimal_text(n: u64) -> (out: String)
    ensures
        out@ == decimal(n as nat),
    decreases n,
{
    let mut out = if n < 10 {
        String::new()
    } else {
        decimal_text(n / 10)
    };
    let digit: u8 = (n % 10) as u8 + 48;
    let c: char = digit as char;
    out.push(c);
    proof {
        if n < 10 {
            assert(out@ =~= seq![c]);
        }
    }
    out
}

/// The decimal digits of a number with a sign, which only a negative one shows.
pub open spec fn signed_decimal(n: int) -> Seq<char> {
    if n < 0 {
        "-"@ + decimal((-n) as nat)
    } else {
        decimal(n as nat)
    }
}

/// The decimal digits of a number with a sign.
pub fn signed_text(n: i32) -> (out: String)
    ensures
        out@ == signed_decimal(n as int),
{
    if n < 0 {
        let positive: i64 = -(n as i64);
        join2("-", decimal_text(positive as u64).as_str())
    } else {
        decimal_text(n as u64)
    }
}

/// The word for a truth value.
pub open spec fn truth_word(b: bool) -> Seq<char> {
    if b {
        "true"@
    } else {
        "false"@
    }
}

/// The word for a truth value.
pub fn truth_text(b: bool) -> (out: &'static str)
    ensures
        out@ == truth_word(b),
{
    if b {
        "true"
    } else {
        "false"
    }
}

/// Whether a character is a decimal digit.
pub open spec fn is_digit(c: char) -> bool {
    '0' <= c <= '9'
}

/// The number that decimal digits stand for.
pub open spec fn digits_value(s: Seq<char>) -> nat
    decreases s.len(),
{
    if s.len() == 0 {
        0
    } else {
        (digits_value(s.drop_last()) * 10 + (s.last() as u32 - '0' as u32)) as nat
    }
}

/// The text of a number without a plus sign in front.
pub open spec fn without_plus(s: Seq<char>) -> Seq<char> {
    if s.len() > 0 && s[0] == '+' {
        s.skip(1)
    } else {
        s
    }
}

/// The size that a text stands for: decimal digits, maybe after a plus sign, of a
/// number that a machine word can hold.
pub open spec fn size_of_text(s: Seq<char>) -> Option<usize> {
    let d = without_plus(s);
    if d.len() > 0 && (forall|i: int| 0 <= i < d.len() ==> is_digit(#[trigger] d[i]))
        && digits_value(d) <= usize::MAX {
        Some(digits_value(d) as usize)
    } else {
        None
    }
}

proof fn lemma_digits_grow(s: Seq<char>, k: int)
    requires
        0 <= k <= s.len(),
        forall|i: int| 0 <= i < s.len() ==> is_digit(#[trigger] s[i]),
    ensures
        digits_value(s.take(k)) <= digits_value(s),
    decreases s.len() - k,
{
    if k < s.len() {
        lemma_digits_grow(s, k + 1);
        assert(s.take(k + 1).drop_last() =~= s.take(k));
        assert(is_digit(s[k]));
        assert(s.take(k + 1).last() == s[k]);
    } else {
        assert(s.take(k) =~= s);
    }
}

/// Reads the size that a text stands for.
pub fn parse_size(s: &str) -> (n: Option<usize>)
    ensures
        n == size_of_text(s@),
{
    let chars = chars_of(s);
    let start: usize = if chars.len() > 0 && chars[0] == '+' {
        1
    } else {
        0
    };
    let ghost d = without_plus(s@);
    assert(d =~= chars@.skip(start as int));
    if start >= chars.len() {
        return None;
    }
    let mut value: usize = 0;
    let mut i: usize = start;
    let ghost whole = forall|k: int| 0 <= k < d.len() ==> is_digit(#[trigger] d[k]);
    assert(d.take(0) =~= Seq::empty());
    let mut fits = true;
    while i < chars.len()
        invariant
            chars@ == s@,
            d == chars@.skip(start as int),
            d == without_plus(s@),
            d.len() > 0,
            start <= i <= chars@.len(),
            whole == (forall|k: int| 0 <= k < d.len() ==> is_digit(#[trigger] d[k])),
            forall|k: int| 0 <= k < i - start ==> is_digit(#[trigger] d[k]),
            fits ==> value == digits_value(d.take(i - start)),
            !fits ==> (whole ==> digits_value(d) > usize::MAX),
        decreases chars@.len() - i,
    {
        let c = chars[i];
        assert(d[i - start] == c);
        if !('0' <= c && c <= '9') {
            assert(!is_digit(d[i - start]));
            return None;
        }
        let digit: usize = (c as u32 - 48) as usize;
        let ghost k = i - start;
        assert(d.take(k + 1).drop_last() =~= d.take(k));
        assert(d.take(k + 1).last() == c);
        if fits {
            if value <= (usize::MAX - digit) / 10 {
                value = value * 10 + digit;
            } else {
                fits = false;
                assert(digits_value(d.take(k + 1)) > usize::MAX);
                proof {
                    if whole {
                        lemma_digits_grow(d, k + 1);
                    }
                }
            }
        }
        i += 1;
    }
    assert(d.take(d.len() as int) =~= d);
    if fits {
        Some(value)
    } else {
        None
    }
}

/// The digits of a number stand for it.
pub proof fn decimal_is_read_back(n: nat)
    ensures
        decimal(n).len() > 0,
        forall|i: int| 0 <= i < decimal(n).len() ==> is_digit(#[trigger] decimal(n)[i]),
        digits_value(decimal(n)) == n,
        n <= usize::MAX ==> size_of_text(decimal(n)) == Some(n as usize),
    decreases n,
{
    let s = decimal(n);
    if n < 10 {
        let c = (('0' as u32) + n) as char;
        assert(s.drop_last() =~= Seq::empty());
        assert(digits_value(s.drop_last()) == 0);
        assert(s.last() == c);
        assert(c as u32 == 48 + n);
    } else {
        decimal_is_read_back(n / 10);
        let c = (('0' as u32) + n % 10) as char;
        assert(s.drop_last() =~= decimal(n / 10));
        assert(s.last() == c);
        assert(c as u32 == 48 + n % 10);
        assert forall|i: int| 0 <= i < s.len() implies is_digit(#[trigger] s[i]) by {
            if i < s.len() - 1 {
                assert(s[i] == decimal(n / 10)[i]);
            }
        }
    }
    assert(is_digit(s[0]));
    assert(without_plus(s) == s);
}

/// Numbers are written in base ten: each digit counts ten times the one behind it.
pub proof fn decimals_are_in_base_ten(n: nat, d: nat)
    requires
        d < 10,
    ensures
        decimal(d).len() == 1,
        decimal(d)[0] as u32 == 48 + d,
        n > 0 ==> decimal(10 * n + d) == decimal(n) + decimal(d),
{
    if n > 0 {
        let m = 10 * n + d;
        assert(m / 10 == n && m % 10 == d) by (nonlinear_arith)
            requires
                m == 10 * n + d,
                d < 10,
        ;
        assert(decimal(m) =~= decimal(n) + decimal(d));
    }
}

/// Trimming takes away the white space around a text and nothing else: what is left
/// neither starts nor ends with white space, and only white space was taken.
pub proof fn trimming_takes_the_space_around(s: Seq<char>)
    ensures
        exists|a: int, b: int|
            #![trigger s.subrange(a, b)]
            0 <= a <= b <= s.len() && trimmed(s) == s.subrange(a, b) && (forall|i: int|
                0 <= i < a ==> is_space(#[trigger] s[i])) && (forall|i: int|
                b <= i < s.len() ==> is_space(#[trigger] s[i])),
        trimmed(s).len() > 0 ==> !is_space(trimmed(s)[0]) && !is_space(trimmed(s).last()),
{
    lemma_skipped(s, 0);
    let a = skip_space(s, 0);
    lemma_backed(s, a, s.len() as int);
    let b = back_over_space(s, a, s.len() as int);
    assert(trimmed(s) == s.subrange(a, b));
}

proof fn lemma_skipped(s: Seq<char>, i: int)
    requires
        0 <= i <= s.len(),
    ensures
        i <= skip_space(s, i) <= s.len(),
        forall|k: int| i <= k < skip_space(s, i) ==> is_space(#[trigger] s[k]),
        skip_space(s, i) < s.len() ==> !is_space(s[skip_space(s, i)]),
    decreases s.len() - i,
{
    if i < s.len() && is_space(s[i]) {
        lemma_skipped(s, i + 1);
    }
}

proof fn lemma_backed(s: Seq<char>, start: int, end: int)
    requires
        0 <= start <= end <= s.len(),
    ensures
        start <= back_over_space(s, start, end) <= end,
        forall|k: int| back_over_space(s, start, end) <= k < end ==> is_space(#[trigger] s[k]),
        back_over_space(s, start, end) > start ==> !is_space(
            s[back_over_space(s, start, end) - 1],
        ),
    decreases end - start,
{
    if start < end && is_space(s[end - 1]) {
        lemma_backed(s, start, end - 1);
    }
}

/// Comparing texts without regard to the case of ASCII letters is an equivalence that
/// takes a capital letter and its small one as the same and tells other characters
/// apart.
pub proof fn case_alone_is_ignored(a: Seq<char>, b: Seq<char>, c: Seq<char>, i: int)
    ensures
        same_ignoring_case(a, a),
        same_ignoring_case(a, b) ==> same_ignoring_case(b, a),
        same_ignoring_case(a, b) && same_ignoring_case(b, c) ==> same_ignoring_case(a, c),
        same_ignoring_case(a, b) ==> a.len() == b.len(),
        same_ignoring_case(a, b) && 0 <= i < a.len() ==> a[i] == b[i] || (a[i] as u32 + 32
            == b[i] as u32 && 0x41 <= a[i] as u32 <= 0x5a) || (b[i] as u32 + 32 == a[i] as u32
            && 0x41 <= b[i] as u32 <= 0x5a),
{
    if same_ignoring_case(a, b) {
        assert(ascii_lower_text(a).len() == ascii_lower_text(b).len());
        if 0 <= i < a.len() {
            assert(ascii_lower_text(a)[i] == ascii_lower_text(b)[i]);
            assert(ascii_lower(a[i]) == ascii_lower(b[i]));
        }
    }
}

proof fn lemma_space_shifted(all: Seq<char>, rest: Seq<char>, n: int, k: int)
    requires
        0 <= n,
        0 <= k <= rest.len(),
        all.len() == n + rest.len(),
        forall|x: int| 0 <= x < rest.len() ==> #[trigger] rest[x] == all[n + x],
    ensures
        skip_space(all, n + k) == n + skip_space(rest, k),
        word_end(all, n + k) == n + word_end(rest, k),
        line_feed_from(all, n + k) == n + line_feed_from(rest, k),
    decreases rest.len() - k,
{
    if k < rest.len() {
        assert(rest[k] == all[n + k]);
        lemma_space_shifted(all, rest, n, k + 1);
    }
}

proof fn lemma_words_shifted(all: Seq<char>, rest: Seq<char>, n: int, k: int)
    requires
        0 <= n,
        0 <= k <= rest.len(),
        all.len() == n + rest.len(),
        forall|x: int| 0 <= x < rest.len() ==> #[trigger] rest[x] == all[n + x],
    ensures
        words_from(all, n + k) == words_from(rest, k),
    decreases rest.len() - k,
{
    lemma_space_shifted(all, rest, n, k);
    lemma_skipped(rest, k);
    let a = skip_space(rest, k);
    lemma_space_shifted(all, rest, n, a);
    lemma_word_end(rest, a);
    let e = word_end(rest, a);
    if a < e {
        assert(all.subrange(n + a, n + e) =~= rest.subrange(a, e));
        lemma_words_shifted(all, rest, n, e);
    }
}

proof fn lemma_word_to(s: Seq<char>, i: int, e: int)
    requires
        0 <= i <= e <= s.len(),
        forall|x: int| i <= x < e ==> !is_space(#[trigger] s[x]),
        e < s.len() ==> is_space(s[e]),
    ensures
        word_end(s, i) == e,
    decreases e - i,
{
    if i < e {
        assert(!is_space(s[i]));
        lemma_word_to(s, i + 1, e);
    }
}

/// A text is split into words at its white space: a word, white space and a rest are
/// that word and the words of the rest, and a word alone is one word.
pub proof fn words_stand_between_space(word: Seq<char>, c: char, rest: Seq<char>)
    requires
        word.len() > 0,
        forall|x: int| 0 <= x < word.len() ==> !is_space(#[trigger] word[x]),
        is_space(c),
    ensures
        words_of(word) == seq![word],
        words_of(word + seq![c] + rest) == seq![word] + words_of(rest),
        first_word(word + seq![c] + rest) == Some(word),
        words_of(seq![c] + rest) == words_of(rest),
{
    let n = word.len() as int;
    assert(!is_space(word[0]));
    lemma_word_to(word, 0, n);
    assert(word.subrange(0, n) =~= word);
    assert(skip_space(word, n) == n);
    assert(words_from(word, n) =~= Seq::empty());
    assert(words_of(word) =~= seq![word]);
    let all = word + seq![c] + rest;
    assert forall|x: int| 0 <= x < n implies !is_space(#[trigger] all[x]) by {
        assert(all[x] == word[x]);
    }
    assert(all[n] == c);
    lemma_word_to(all, 0, n);
    assert(!is_space(all[0]));
    assert(all.subrange(0, n) =~= word);
    assert forall|x: int| 0 <= x < rest.len() implies #[trigger] rest[x] == all[n + 1 + x] by {}
    lemma_words_shifted(all, rest, n + 1, 0);
    lemma_skipped(all, n + 1);
    assert(skip_space(all, n) == skip_space(all, n + 1));
    assert(words_from(all, n) == words_from(all, n + 1));
    assert(words_of(all) =~= seq![word] + words_of(rest));
    let led = seq![c] + rest;
    assert forall|x: int| 0 <= x < rest.len() implies #[trigger] rest[x] == led[1 + x] by {}
    lemma_words_shifted(led, rest, 1, 0);
    lemma_skipped(led, 1);
    assert(led[0] == c);
    assert(skip_space(led, 0) == skip_space(led, 1));
    assert(words_from(led, 0) == words_from(led, 1));
}

proof fn lemma_lines_shifted(all: Seq<char>, rest: Seq<char>, n: int, k: int)
    requires
        0 <= n,
        0 <= k <= rest.len(),
        all.len() == n + rest.len(),
        forall|x: int| 0 <= x < rest.len() ==> #[trigger] rest[x] == all[n + x],
    ensures
        lines_from(all, n + k) == lines_from(rest, k),
    decreases rest.len() - k,
{
    if k < rest.len() {
        lemma_space_shifted(all, rest, n, k);
        lemma_line_feed(rest, k);
        let j = line_feed_from(rest, k);
        if j < rest.len() {
            assert(all.subrange(n + k, n + j) =~= rest.subrange(k, j));
            lemma_lines_shifted(all, rest, n, j + 1);
        } else {
            assert(all.subrange(n + k, all.len() as int) =~= rest.subrange(k, rest.len() as int));
        }
    }
}

proof fn lemma_line_to(s: Seq<char>, i: int, e: int)
    requires
        0 <= i <= e <= s.len(),
        forall|x: int| i <= x < e ==> #[trigger] s[x] != '\n',
        e < s.len() ==> s[e] == '\n',
    ensures
        line_feed_from(s, i) == e,
    decreases e - i,
{
    if i < e {
        assert(s[i] != '\n');
        lemma_line_to(s, i + 1, e);
    }
}

/// A text is split into lines at its line feeds: a line, a line feed and a rest are that
/// line, without a carriage return at its end, and the lines of the rest.
pub proof fn lines_end_at_line_feeds(line: Seq<char>, rest: Seq<char>)
    requires
        forall|x: int| 0 <= x < line.len() ==> #[trigger] line[x] != '\n',
    ensures
        lines_of(line + seq!['\n'] + rest) == seq![without_cr(line)] + lines_of(rest),
        line.len() > 0 ==> lines_of(line) == seq![line],
        lines_of(Seq::<char>::empty()).len() == 0,
{
    let n = line.len() as int;
    let all = line + seq!['\n'] + rest;
    assert forall|x: int| 0 <= x < n implies #[trigger] all[x] != '\n' by {
        assert(all[x] == line[x]);
    }
    assert(all[n] == '\n');
    lemma_line_to(all, 0, n);
    assert(all.subrange(0, n) =~= line);
    assert forall|x: int| 0 <= x < rest.len() implies #[trigger] rest[x] == all[n + 1 + x] by {}
    lemma_lines_shifted(all, rest, n + 1, 0);
    if n > 0 {
        lemma_line_to(line, 0, n);
        assert(line.subrange(0, n) =~= line);
    }
}

/// Three words with a space between them are those three words.
pub proof fn three_words_are_told_apart(a: Seq<char>, b: Seq<char>, c: Seq<char>)
    requires
        a.len() > 0,
        b.len() > 0,
        c.len() > 0,
        forall|x: int| 0 <= x < a.len() ==> !is_space(#[trigger] a[x]),
        forall|x: int| 0 <= x < b.len() ==> !is_space(#[trigger] b[x]),
        forall|x: int| 0 <= x < c.len() ==> !is_space(#[trigger] c[x]),
    ensures
        words_of(a + " "@ + b + " "@ + c) == seq![a, b, c],
{
    reveal_strlit(" ");
    let tail = b + seq![' '] + c;
    assert(" "@ =~= seq![' ']);
    assert(a + " "@ + b + " "@ + c =~= a + seq![' '] + tail);
    assert(words_of(a + seq![' '] + tail) == seq![a] + words_of(tail)) by {
        words_stand_between_space(a, ' ', tail);
    }
    assert(words_of(tail) == seq![b] + words_of(c)) by {
        words_stand_between_space(b, ' ', c);
    }
    assert(words_of(c) == seq![c]) by {
        words_stand_between_space(c, ' ', c);
    }
    assert(seq![a] + (seq![b] + seq![c]) =~= seq![a, b, c]);
}

} // verus!
