//! SSH host keys: the candidates that a host presents and the ones accepted.
use vstd::prelude::*;

use crate::encoding::{
    base64_decode, base64_decoded, base64_encode, base64_unpadded, sha256, sha256_of,
};
use crate::text::{chars_of, str_eq};
use crate::words::{
    decimal, decimal_is_read_back, decimal_text, first_word, is_space, is_white_space, join2, join3, join4,
    lemma_line_feed, line_feed_from, lines_from, lines_of, skip_space, split_lines, split_words,
    texts, three_words_are_told_apart, without_cr, word_end, words_of,
};

verus! {

/// A host key as it was presented.
#[derive(Debug, PartialEq, Eq)]
pub struct HostKeyCandidate {
    pub host_field: String,
    pub algorithm: String,
    pub key_base64: String,
    pub fingerprint: String,
}

#[derive(Debug, PartialEq, Eq)]
pub enum KnownHostsError {
    MalformedCandidate,
    FingerprintMismatch,
    HostKeyChanged(String),
    Permissions(String),
    Io(String),
}

/// What an error says.
pub open spec fn known_hosts_text(error: KnownHostsError) -> Seq<char> {
    match error {
        KnownHostsError::MalformedCandidate => "malformed SSH host-key candidate"@,
        KnownHostsError::FingerprintMismatch =>
            "SSH host-key fingerprint does not match explicit acceptance"@,
        KnownHostsError::HostKeyChanged(host) => "SSH host key changed for "@ + host@,
        KnownHostsError::Permissions(text) => "known-hosts permissions failed: "@ + text@,
        KnownHostsError::Io(text) => "known-hosts I/O failed: "@ + text@,
    }
}

impl KnownHostsError {
    pub fn text(&self) -> (text: String)
        ensures
            text@ == known_hosts_text(*self),
    {
        match self {
            KnownHostsError::MalformedCandidate => "malformed SSH host-key candidate".to_owned(),
            KnownHostsError::FingerprintMismatch =>
                "SSH host-key fingerprint does not match explicit acceptance".to_owned(),
            KnownHostsError::HostKeyChanged(host) => join2(
                "SSH host key changed for ",
                host.as_str(),
            ),
            KnownHostsError::Permissions(text) => join2(
                "known-hosts permissions failed: ",
                text.as_str(),
            ),
            KnownHostsError::Io(text) => join2("known-hosts I/O failed: ", text.as_str()),
        }
    }
}

/// Whether a host key algorithm is accepted.
pub open spec fn known_algorithm(name: Seq<char>) -> bool {
    name == "ssh-ed25519"@ || name == "ecdsa-sha2-nistp256"@ || name == "rsa-sha2-512"@ || name
        == "ssh-rsa"@
}

/// The longest key, in bytes.
pub const MAX_KEY_BYTES: usize = 16384;

/// The fingerprint of a key.
pub open spec fn fingerprint_of(key: Seq<u8>) -> Seq<char> {
    "SHA256:"@ + base64_unpadded(sha256_of(key))
}

/// Whether a line is a host key candidate: three words, an accepted algorithm and
/// a base-64 key that is not too long.
pub open spec fn is_candidate(line: Seq<char>) -> bool {
    let fields = words_of(line);
    &&& fields.len() == 3
    &&& known_algorithm(fields[1])
    &&& base64_decoded(fields[2]) is Some
    &&& base64_decoded(fields[2])->0.len() <= MAX_KEY_BYTES
}

/// How a host is written in the file: its name, with the port unless that is the
/// usual one.
pub open spec fn host_with_port(host: Seq<char>, port: u16) -> Seq<char> {
    if port == 22 {
        host
    } else {
        "["@ + host + "]:"@ + decimal(port as nat)
    }
}

/// The line that accepts a key for a host.
pub open spec fn accepted_entry(candidate: HostKeyCandidate, host: Seq<char>, port: u16) -> Seq<
    char,
> {
    host_with_port(host, port) + " "@ + candidate.algorithm@ + " "@ + candidate.key_base64@
}

impl HostKeyCandidate {
    /// Reads a line that a host presented, given the length of the key that its
    /// third word stands for, if it is one, and the base-64 text of the digest of
    /// that key.
    pub fn with_key(line: &str, key_length: Option<usize>, digest: &str) -> (r: Result<
        Self,
        KnownHostsError,
    >)
        ensures
            ({
                let fields = words_of(line@);
                if fields.len() == 3 && known_algorithm(fields[1]) && key_length is Some
                    && key_length->0 <= MAX_KEY_BYTES {
                    &&& r is Ok
                    &&& r->Ok_0.host_field@ == fields[0]
                    &&& r->Ok_0.algorithm@ == fields[1]
                    &&& r->Ok_0.key_base64@ == fields[2]
                    &&& r->Ok_0.fingerprint@ == "SHA256:"@ + digest@
                } else {
                    r == Err::<Self, KnownHostsError>(KnownHostsError::MalformedCandidate)
                }
            }),
    {
        let fields = split_words(line);
        proof {
            assert(texts(fields@).len() == fields@.len());
        }
        if fields.len() != 3 {
            return Err(KnownHostsError::MalformedCandidate);
        }
        proof {
            assert(texts(fields@)[0] == fields@[0]@ && texts(fields@)[1] == fields@[1]@ && texts(
                fields@,
            )[2] == fields@[2]@);
        }
        let algorithm = fields[1].as_str();
        if !(str_eq(algorithm, "ssh-ed25519") || str_eq(algorithm, "ecdsa-sha2-nistp256") || str_eq(
            algorithm,
            "rsa-sha2-512",
        ) || str_eq(algorithm, "ssh-rsa")) {
            return Err(KnownHostsError::MalformedCandidate);
        }
        let fits = match key_length {
            Some(length) => length <= MAX_KEY_BYTES,
            None => false,
        };
        if !fits {
            return Err(KnownHostsError::MalformedCandidate);
        }
        Ok(
            HostKeyCandidate {
                host_field: fields[0].clone(),
                algorithm: fields[1].clone(),
                key_base64: fields[2].clone(),
                fingerprint: join2("SHA256:", digest),
            },
        )
    }

    /// Reads a line that a host presented.
    pub fn parse(line: &str) -> (r: Result<Self, KnownHostsError>)
        ensures
            r is Ok <==> is_candidate(line@),
            match r {
                Ok(c) => {
                    let fields = words_of(line@);
                    &&& c.host_field@ == fields[0]
                    &&& c.algorithm@ == fields[1]
                    &&& c.key_base64@ == fields[2]
                    &&& c.fingerprint@ == fingerprint_of(base64_decoded(fields[2])->0)
                },
                Err(e) => e == KnownHostsError::MalformedCandidate,
            },
    {
        let fields = split_words(line);
        proof {
            assert(texts(fields@).len() == fields@.len());
        }
        if fields.len() != 3 {
            return Err(KnownHostsError::MalformedCandidate);
        }
        proof {
            assert(texts(fields@)[2] == fields@[2]@);
        }
        match base64_decode(fields[2].as_str()) {
            Some(key) => {
                let digest = sha256(key.as_slice());
                let text = base64_encode(digest.as_slice());
                Self::with_key(line, Some(key.len()), text.as_str())
            },
            None => Self::with_key(line, None, ""),
        }
    }

    /// The line that accepts the key for a host.
    pub fn accepted_line(&self, host: &str, port: u16) -> (line: String)
        ensures
            line@ == accepted_entry(*self, host@, port),
    {
        let host_field = if port == 22 {
            host.to_owned()
        } else {
            join4("[", host, "]:", decimal_text(port as u64).as_str())
        };
        let head = join3(host_field.as_str(), " ", self.algorithm.as_str());
        join3(head.as_str(), " ", self.key_base64.as_str())
    }
}

/// Whether a line of the file is a comment.
pub open spec fn is_comment(line: Seq<char>) -> bool {
    let a = skip_space(line, 0);
    a < line.len() && line[a] == '#'
}

/// What the lines of the file, from index `i` on, say of a key.
pub enum Standing {
    /// The key is accepted.
    Accepted,
    /// Another key of the host is accepted.
    Changed,
    /// Nothing.
    Unknown,
}

/// What the lines from index `i` on say of an entry.
pub open spec fn standing_from(lines: Seq<Seq<char>>, entry: Seq<char>, host: Seq<char>, i: int) ->
    Standing
    decreases lines.len() - i,
{
    if i >= lines.len() {
        Standing::Unknown
    } else if is_comment(lines[i]) {
        standing_from(lines, entry, host, i + 1)
    } else if lines[i] == entry {
        Standing::Accepted
    } else if first_word(lines[i]) == Some(host) {
        Standing::Changed
    } else {
        standing_from(lines, entry, host, i + 1)
    }
}

/// The file with one more entry, on a line of its own.
pub open spec fn with_entry(existing: Seq<char>, entry: Seq<char>) -> Seq<char> {
    if existing.len() == 0 || existing.last() == '\n' {
        existing + entry + "\n"@
    } else {
        existing + "\n"@ + entry + "\n"@
    }
}

/// The file of accepted host keys.
#[derive(Debug)]
pub struct KnownHostsStore {
    path: String,
}

fn line_is_comment(line: &str) -> (yes: bool)
    ensures
        yes == is_comment(line@),
{
    let chars = chars_of(line);
    let mut a: usize = 0;
    while a < chars.len() && is_white_space(chars[a])
        invariant
            a <= chars@.len(),
            skip_space(chars@, 0) == skip_space(chars@, a as int),
        decreases chars@.len() - a,
    {
        a += 1;
    }
    a < chars.len() && chars[a] == '#'
}

impl KnownHostsStore {
    pub fn new(path: String) -> (store: Self)
        ensures
            store.location() == path,
    {
        KnownHostsStore { path }
    }

    pub closed spec fn location(&self) -> String {
        self.path
    }

    pub fn path(&self) -> (path: &String)
        ensures
            *path == self.location(),
    {
        &self.path
    }

    /// Accepts a key for a host, if it has the expected fingerprint and no other key
    /// of the host is accepted. The result is the new content of the file, or nothing
    /// if the key is accepted already.
    pub fn accept(
        existing: &str,
        host: &str,
        port: u16,
        candidate: &HostKeyCandidate,
        expected_fingerprint: &str,
    ) -> (r: Result<Option<String>, KnownHostsError>)
        ensures
            ({
                let entry = accepted_entry(*candidate, host@, port);
                if candidate.fingerprint@ != expected_fingerprint@ {
                    r == Err::<Option<String>, KnownHostsError>(
                        KnownHostsError::FingerprintMismatch,
                    )
                } else if words_of(entry).len() == 0 {
                    r == Err::<Option<String>, KnownHostsError>(KnownHostsError::MalformedCandidate)
                } else {
                    match standing_from(lines_of(existing@), entry, words_of(entry)[0], 0) {
                        Standing::Accepted => r == Ok::<Option<String>, KnownHostsError>(None),
                        Standing::Changed => r is Err && (r->Err_0 matches
                            KnownHostsError::HostKeyChanged(h) && h@ == words_of(entry)[0]),
                        Standing::Unknown => r matches Ok(Some(new)) && new@ == with_entry(
                            existing@,
                            entry,
                        ),
                    }
                }
            }),
    {
        if !str_eq(candidate.fingerprint.as_str(), expected_fingerprint) {
            return Err(KnownHostsError::FingerprintMismatch);
        }
        let accepted = candidate.accepted_line(host, port);
        let words = split_words(accepted.as_str());
        proof {
            assert(texts(words@).len() == words@.len());
        }
        if words.len() == 0 {
            return Err(KnownHostsError::MalformedCandidate);
        }
        let host_field = words[0].clone();
        assert(texts(words@)[0] == words@[0]@);
        let lines = split_lines(existing);
        let mut i: usize = 0;
        while i < lines.len()
            invariant
                texts(lines@) == lines_of(existing@),
                i <= lines@.len(),
                accepted@ == accepted_entry(*candidate, host@, port),
                words_of(accepted@).len() > 0,
                host_field@ == words_of(accepted@)[0],
                candidate.fingerprint@ == expected_fingerprint@,
                standing_from(lines_of(existing@), accepted@, host_field@, 0) == standing_from(
                    lines_of(existing@),
                    accepted@,
                    host_field@,
                    i as int,
                ),
            decreases lines@.len() - i,
        {
            let line = lines[i].as_str();
            assert(texts(lines@)[i as int] == line@);
            assert(texts(lines@).len() == lines@.len());
            if !line_is_comment(line) {
                if str_eq(line, accepted.as_str()) {
                    return Ok(None);
                }
                let fields = split_words(line);
                assert(texts(fields@).len() == fields@.len());
                if fields.len() > 0 {
                    assert(texts(fields@)[0] == fields@[0]@);
                    if fields[0] == host_field {
                        return Err(KnownHostsError::HostKeyChanged(host_field));
                    }
                }
            }
            i += 1;
        }
        assert(texts(lines@).len() == lines@.len());
        let chars = chars_of(existing);
        let new = if chars.len() == 0 || chars[chars.len() - 1] == '\n' {
            join3(existing, accepted.as_str(), "\n")
        } else {
            join4(existing, "\n", accepted.as_str(), "\n")
        };
        Ok(Some(new))
    }
}


/// White space at the end of a line does not change where its words start and
/// end.
proof fn lemma_trailing_space(s: Seq<char>, c: char, i: int)
    requires
        is_space(c),
        0 <= i <= s.len(),
    ensures
        skip_space(s.push(c), i) == if skip_space(s, i) == s.len() {
            (s.len() + 1) as int
        } else {
            skip_space(s, i)
        },
        i <= skip_space(s, i) <= s.len(),
        word_end(s.push(c), i) == word_end(s, i),
        i <= word_end(s, i) <= s.len(),
    decreases s.len() - i,
{
    let t = s.push(c);
    if i < s.len() {
        assert(t[i] == s[i]);
        lemma_trailing_space(s, c, i + 1);
    } else {
        assert(t[i] == c);
        assert(skip_space(t, i + 1) == i + 1);
    }
}

/// A carriage return at the end of a line changes neither its first word nor
/// whether it is a comment.
proof fn lemma_line_without_cr(line: Seq<char>)
    ensures
        first_word(without_cr(line)) == first_word(line),
        is_comment(without_cr(line)) == is_comment(line),
{
    if line.len() > 0 && line.last() == '\r' {
        let s = line.drop_last();
        assert(line =~= s.push('\r'));
        lemma_trailing_space(s, '\r', 0);
        let a = skip_space(s, 0);
        if a < s.len() {
            lemma_trailing_space(s, '\r', a);
            assert(line[a] == s[a]);
            assert(line.subrange(a, word_end(s, a)) =~= s.subrange(a, word_end(s, a)));
        }
    }
}

proof fn lemma_no_line_feed(t: Seq<char>, i: int, j: int)
    requires
        0 <= i <= j < t.len(),
        t[j] == '\n',
        forall|k: int| i <= k < j ==> t[k] != '\n',
    ensures
        line_feed_from(t, i) == j,
    decreases j - i,
{
    if i < j {
        lemma_no_line_feed(t, i + 1, j);
    }
}

/// Adding a line to a text that ends in a line feed adds it to its lines.
proof fn lemma_line_added(s: Seq<char>, w: Seq<char>, i: int)
    requires
        s.len() == 0 || s.last() == '\n',
        !w.contains('\n'),
        w.len() == 0 || w.last() != '\r',
        0 <= i <= s.len(),
    ensures
        lines_from(s + w + seq!['\n'], i) == lines_from(s, i) + seq![w],
    decreases s.len() - i,
{
    let t = s + w + seq!['\n'];
    if i == s.len() {
        let j: int = (s.len() + w.len()) as int;
        assert forall|k: int| i <= k < j implies t[k] != '\n' by {
            assert(t[k] == w[k - s.len()]);
        }
        lemma_no_line_feed(t, i, j);
        assert(t.subrange(i, j) =~= w);
        assert(lines_from(t, j + 1) =~= Seq::empty());
        assert(lines_from(s, i) =~= Seq::empty());
        assert(seq![w] + Seq::empty() =~= Seq::empty() + seq![w]);
    } else {
        lemma_line_feed(s, i);
        lemma_last_is_line_feed(s, i);
        let j = line_feed_from(s, i);
        assert forall|k: int| i <= k < j implies t[k] != '\n' by {
            lemma_before_line_feed(s, i, k);
        }
        lemma_no_line_feed(t, i, j);
        assert(t.subrange(i, j) =~= s.subrange(i, j));
        lemma_line_added(s, w, j + 1);
        let line = without_cr(s.subrange(i, j));
        assert(seq![line] + (lines_from(s, j + 1) + seq![w]) =~= seq![line] + lines_from(s, j + 1)
            + seq![w]);
    }
}

proof fn lemma_last_is_line_feed(s: Seq<char>, i: int)
    requires
        0 <= i < s.len(),
        s.last() == '\n',
    ensures
        line_feed_from(s, i) < s.len(),
    decreases s.len() - i,
{
    if s[i] != '\n' {
        lemma_last_is_line_feed(s, i + 1);
    }
}

proof fn lemma_before_line_feed(s: Seq<char>, i: int, k: int)
    requires
        0 <= i <= k < line_feed_from(s, i),
        k < s.len(),
    ensures
        s[k] != '\n',
    decreases s.len() - i,
{
    if i < k && s[i] != '\n' {
        lemma_before_line_feed(s, i + 1, k);
    }
}

/// Ending an open last line with a line feed keeps all lines but for a carriage
/// return at the end of the last one.
proof fn lemma_line_closed(s: Seq<char>, i: int)
    requires
        s.len() > 0,
        s.last() != '\n',
        0 <= i < s.len(),
    ensures
        ({
            let a = lines_from(s, i);
            let b = lines_from(s.push('\n'), i);
            &&& a.len() > 0
            &&& b == a.update(a.len() - 1, without_cr(a.last()))
        }),
    decreases s.len() - i,
{
    let t = s.push('\n');
    lemma_line_feed(s, i);
    let j = line_feed_from(s, i);
    assert forall|k: int| i <= k < j implies t[k] != '\n' by {
        lemma_before_line_feed(s, i, k);
    }
    lemma_no_line_feed(t, i, j);
    assert(t.subrange(i, j) =~= s.subrange(i, j));
    if j < s.len() {
        assert(j + 1 < s.len());
        lemma_line_closed(s, j + 1);
        let line = without_cr(s.subrange(i, j));
        let a = lines_from(s, j + 1);
        assert(lines_from(s, i) == seq![line] + a);
        assert(lines_from(t, i) =~= (seq![line] + a).update(a.len() as int, without_cr(a.last())));
        assert((seq![line] + a).last() == a.last());
    } else {
        assert(lines_from(t, j + 1) =~= Seq::empty());
        assert(lines_from(s, i) =~= seq![s.subrange(i, j)]);
        assert(lines_from(t, i) =~= seq![without_cr(s.subrange(i, j))]);
    }
}

/// If the lines say nothing of an entry, the same lines with the entry after them
/// say that it is accepted.
proof fn lemma_standing_added(
    lines: Seq<Seq<char>>,
    changed: Seq<Seq<char>>,
    entry: Seq<char>,
    host: Seq<char>,
    i: int,
)
    requires
        changed.len() == lines.len(),
        forall|k: int|
            0 <= k < lines.len() ==> changed[k] == lines[k] || #[trigger] changed[k] == without_cr(
                lines[k],
            ),
        !is_comment(entry),
        0 <= i <= lines.len(),
        standing_from(lines, entry, host, i) is Unknown,
    ensures
        standing_from(changed + seq![entry], entry, host, i) is Accepted,
    decreases lines.len() - i,
{
    let all = changed + seq![entry];
    if i < lines.len() {
        assert(all[i] == changed[i]);
        lemma_line_without_cr(lines[i]);
        lemma_standing_added(lines, changed, entry, host, i + 1);
    } else {
        assert(all[i] == entry);
    }
}

/// Accepting a key again changes nothing: in the file that accepting it wrote the
/// key is accepted, for an entry that is a line of its own and no comment.
pub proof fn accepting_is_idempotent(existing: Seq<char>, entry: Seq<char>)
    requires
        words_of(entry).len() > 0,
        standing_from(lines_of(existing), entry, words_of(entry)[0], 0) is Unknown,
        !entry.contains('\n'),
        entry.last() != '\r',
        !is_comment(entry),
    ensures
        standing_from(
            lines_of(with_entry(existing, entry)),
            entry,
            words_of(entry)[0],
            0,
        ) is Accepted,
{
    reveal_strlit("\n");
    let host = words_of(entry)[0];
    let lines = lines_of(existing);
    assert("\n"@ =~= seq!['\n']);
    if existing.len() == 0 || existing.last() == '\n' {
        lemma_line_added(existing, entry, 0);
        lemma_standing_added(lines, lines, entry, host, 0);
    } else {
        let closed = existing.push('\n');
        lemma_line_closed(existing, 0);
        lemma_line_added(closed, entry, 0);
        assert(with_entry(existing, entry) =~= closed + entry + seq!['\n']);
        let changed = lines_of(closed);
        lemma_standing_added(lines, changed, entry, host, 0);
    }
}

/// A key is taken as accepted only where its line stands in the file and is no comment;
/// a host is taken as unknown only where no line that counts is about it. So the key of
/// a host with another accepted key is never taken.
pub proof fn standings_follow_the_lines(
    lines: Seq<Seq<char>>,
    entry: Seq<char>,
    host: Seq<char>,
    i: int,
)
    requires
        0 <= i <= lines.len(),
    ensures
        standing_from(lines, entry, host, i) is Accepted ==> exists|j: int|
            i <= j < lines.len() && #[trigger] lines[j] == entry && !is_comment(lines[j]),
        standing_from(lines, entry, host, i) is Unknown ==> forall|j: int|
            i <= j < lines.len() ==> is_comment(#[trigger] lines[j]) || (lines[j] != entry
                && first_word(lines[j]) != Some(host)),
        (exists|j: int|
            i <= j < lines.len() && !is_comment(#[trigger] lines[j]) && first_word(lines[j]) == Some(
                host,
            )) && (forall|j: int| i <= j < lines.len() ==> #[trigger] lines[j] != entry)
            ==> standing_from(lines, entry, host, i) is Changed,
        (forall|j: int|
            i <= j < lines.len() ==> is_comment(#[trigger] lines[j]) || (lines[j] != entry
                && first_word(lines[j]) != Some(host))) ==> standing_from(lines, entry, host, i) is Unknown,
    decreases lines.len() - i,
{
    if i < lines.len() {
        standings_follow_the_lines(lines, entry, host, i + 1);
        if is_comment(lines[i]) {
            if standing_from(lines, entry, host, i) is Accepted {
                let j = choose|j: int|
                    i + 1 <= j < lines.len() && #[trigger] lines[j] == entry && !is_comment(
                        lines[j],
                    );
                assert(lines[j] == entry);
            }
            if exists|j: int|
                i <= j < lines.len() && !is_comment(#[trigger] lines[j]) && first_word(lines[j])
                    == Some(host) {
                let j = choose|j: int|
                    i <= j < lines.len() && !is_comment(#[trigger] lines[j]) && first_word(lines[j])
                        == Some(host);
                assert(j >= i + 1);
                assert(!is_comment(lines[j]));
            }
        } else if lines[i] == entry {
            assert(lines[i] == entry);
        } else if first_word(lines[i]) != Some(host) {
            if standing_from(lines, entry, host, i) is Accepted {
                let j = choose|j: int|
                    i + 1 <= j < lines.len() && #[trigger] lines[j] == entry && !is_comment(
                        lines[j],
                    );
                assert(lines[j] == entry);
            }
            if exists|j: int|
                i <= j < lines.len() && !is_comment(#[trigger] lines[j]) && first_word(lines[j])
                    == Some(host) {
                let j = choose|j: int|
                    i <= j < lines.len() && !is_comment(#[trigger] lines[j]) && first_word(lines[j])
                        == Some(host);
                assert(j >= i + 1);
                assert(!is_comment(lines[j]));
            }
        }
    }
}

/// What was in the file stays in it, in front of the new entry, which stands on a line
/// of its own at the end.
pub proof fn entries_are_added_at_the_end(existing: Seq<char>, entry: Seq<char>)
    ensures
        with_entry(existing, entry).take(existing.len() as int) == existing,
        with_entry(existing, entry).last() == '\n',
        with_entry(existing, entry).len() >= existing.len() + entry.len() + 1,
        ({
            let all = with_entry(existing, entry);
            let at = all.len() - 1 - entry.len();
            &&& all.subrange(at, all.len() - 1) == entry
            &&& at == 0 || all[at - 1] == '\n'
        }),
{
    reveal_strlit("\n");
    let all = with_entry(existing, entry);
    let at = all.len() - 1 - entry.len();
    assert(all.take(existing.len() as int) =~= existing);
    assert(all.subrange(at, all.len() - 1) =~= entry);
}

/// A host is written the same way for the same port alone: its entries on two ports
/// differ.
pub proof fn ports_are_told_apart(host: Seq<char>, port: u16, other: u16)
    requires
        port != other,
    ensures
        host_with_port(host, port) != host_with_port(host, other),
        host_with_port(host, 22) == host,
{
    reveal_strlit("[");
    reveal_strlit("]:");
    let a = host_with_port(host, port);
    let b = host_with_port(host, other);
    decimal_is_read_back(port as nat);
    decimal_is_read_back(other as nat);
    let n = host.len() + 3;
    if port != 22 && other != 22 && a == b {
        assert(a.skip(n as int) =~= decimal(port as nat));
        assert(b.skip(n as int) =~= decimal(other as nat));
    }
}

/// A line is a candidate only with three words, of which the second is one of the four
/// algorithms that are accepted.
pub proof fn candidates_have_an_accepted_algorithm(line: Seq<char>)
    requires
        is_candidate(line),
    ensures
        words_of(line).len() == 3,
        words_of(line)[1] == "ssh-ed25519"@ || words_of(line)[1] == "ecdsa-sha2-nistp256"@
            || words_of(line)[1] == "rsa-sha2-512"@ || words_of(line)[1] == "ssh-rsa"@,
        base64_decoded(words_of(line)[2]) matches Some(key) && key.len() <= 16 * 1024,
{
}

/// A line is a comment if and only if it starts with `#`, the white space before it
/// apart.
pub proof fn comments_start_with_a_hash(space: Seq<char>, rest: Seq<char>)
    requires
        forall|i: int| 0 <= i < space.len() ==> is_space(#[trigger] space[i]),
        rest.len() > 0,
        !is_space(rest[0]),
    ensures
        is_comment(space + rest) <==> rest[0] == '#',
        !is_comment(space),
{
    let line = space + rest;
    lemma_space_before(line, 0, space.len() as int);
    assert(line[space.len() as int] == rest[0]);
    lemma_space_before(space, 0, space.len() as int);
}

proof fn lemma_space_before(s: Seq<char>, i: int, n: int)
    requires
        0 <= i <= n <= s.len(),
        forall|k: int| i <= k < n ==> is_space(#[trigger] s[k]),
        n < s.len() ==> !is_space(s[n]),
    ensures
        skip_space(s, i) == n,
    decreases n - i,
{
    if i < n {
        assert(is_space(s[i]));
        lemma_space_before(s, i + 1, n);
    }
}

/// The line that accepts a key says, in three words, the host, the algorithm and the
/// key. So a line says the same of two keys only where they are the same.
pub proof fn accepted_lines_name_host_and_key(
    candidate: HostKeyCandidate,
    host: Seq<char>,
    port: u16,
)
    requires
        host_with_port(host, port).len() > 0,
        candidate.algorithm@.len() > 0,
        candidate.key_base64@.len() > 0,
        forall|x: int|
            0 <= x < host_with_port(host, port).len() ==> !is_space(
                #[trigger] host_with_port(host, port)[x],
            ),
        forall|x: int|
            0 <= x < candidate.algorithm@.len() ==> !is_space(#[trigger] candidate.algorithm@[x]),
        forall|x: int|
            0 <= x < candidate.key_base64@.len() ==> !is_space(#[trigger] candidate.key_base64@[x]),
    ensures
        words_of(accepted_entry(candidate, host, port)) == seq![
            host_with_port(host, port),
            candidate.algorithm@,
            candidate.key_base64@,
        ],
{
    let h = host_with_port(host, port);
    three_words_are_told_apart(h, candidate.algorithm@, candidate.key_base64@);
}

} // verus!
