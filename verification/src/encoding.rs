//! Digests, hexadecimal and base-64 text, and file URLs.
use base64::engine::general_purpose::{STANDARD, STANDARD_NO_PAD};
use base64::Engine;
use sha2::{Digest, Sha256};
use url::Url;
use uuid::Uuid;
use vstd::prelude::*;

verus! {

/// The SHA-256 digest of bytes.
pub uninterp spec fn sha256_of(bytes: Seq<u8>) -> Seq<u8>;

/// The bytes that a padded base-64 text stands for, if it is one.
pub uninterp spec fn base64_decoded(text: Seq<char>) -> Option<Seq<u8>>;

/// The base-64 text of bytes, without padding.
pub uninterp spec fn base64_unpadded(bytes: Seq<u8>) -> Seq<char>;

/// The `file` URL of a path, with the paths of Unix; nothing for a relative path.
pub uninterp spec fn file_url_of(path: Seq<char>) -> Option<Seq<char>>;

/// The path that the text of a URL names, with the paths of Unix; nothing for a
/// text that is no URL or names no path.
pub uninterp spec fn url_file_path(text: Seq<char>) -> Option<Seq<char>>;

/// A URL as it is written out; none where a text is not one.
pub uninterp spec fn url_serialized(text: Seq<char>) -> Option<Seq<char>>;

/// The optional text of an optional string.
pub open spec fn opt_text(s: Option<String>) -> Option<Seq<char>> {
    match s {
        Some(t) => Some(t@),
        None => None,
    }
}

/// `sha2::Sha256::digest`: the SHA-256 digest, which has 32 bytes.
#[verifier::external_body]
pub(crate) fn sha256(bytes: &[u8]) -> (digest: Vec<u8>)
    ensures
        digest@ == sha256_of(bytes@),
        digest@.len() == 32,
{
    Sha256::digest(bytes).to_vec()
}

/// The lower case hexadecimal digit of a number below sixteen.
pub open spec fn hex_digit(n: int) -> char {
    if n < 10 {
        (48 + n) as char
    } else {
        (87 + n) as char
    }
}

/// Bytes in lower case hexadecimal, two digits each, the higher one first.
pub open spec fn hex_text(bytes: Seq<u8>) -> Seq<char> {
    Seq::new(
        2 * bytes.len(),
        |i: int|
            hex_digit(
                if i % 2 == 0 {
                    bytes[i / 2] as int / 16
                } else {
                    bytes[i / 2] as int % 16
                },
            ),
    )
}

/// `hex::encode`: the bytes in lower case hexadecimal.
#[verifier::external_body]
pub(crate) fn hex_encode(bytes: &[u8]) -> (text: String)
    ensures
        text@ == hex_text(bytes@),
{
    hex::encode(bytes)
}

/// `base64::Engine::decode` of the padded standard alphabet.
#[verifier::external_body]
pub(crate) fn base64_decode(text: &str) -> (bytes: Option<Vec<u8>>)
    ensures
        match bytes {
            Some(b) => base64_decoded(text@) == Some(b@),
            None => base64_decoded(text@) is None,
        },
{
    STANDARD.decode(text).ok()
}

/// `base64::Engine::encode` of the unpadded standard alphabet. It panics if the
/// length of the text overflows.
#[verifier::external_body]
pub(crate) fn base64_encode(bytes: &[u8]) -> (text: String)
    requires
        bytes@.len() <= 0x1000_0000,
    ensures
        text@ == base64_unpadded(bytes@),
{
    STANDARD_NO_PAD.encode(bytes)
}

/// `url::Url::from_file_path`, as text. Built for Unix, the result follows from the
/// path alone.
#[verifier::external_body]
pub(crate) fn file_url(path: &str) -> (url: Option<String>)
    ensures
        opt_text(url) == file_url_of(path@),
{
    Url::from_file_path(path).ok().map(String::from)
}

/// `url::Url::parse` and `url::Url::to_file_path`: the path that a URL names,
/// if it can be written as text; one that is not UTF-8 gives none. Built for Unix,
/// the result follows from the text alone.
#[verifier::external_body]
pub(crate) fn url_path(text: &str) -> (path: Option<String>)
    ensures
        opt_text(path) == url_file_path(text@),
{
    let url = Url::parse(text).ok()?;
    url.to_file_path().ok()?.into_os_string().into_string().ok()
}

/// `url::Url::parse` and `url::Url::as_str`: a URL as it is written out, if the text
/// is one.
#[verifier::external_body]
pub(crate) fn url_text(text: &str) -> (url: Option<String>)
    ensures
        opt_text(url) == url_serialized(text@),
{
    Url::parse(text).ok().map(String::from)
}

/// Sixteen to some power.
pub open spec fn sixteen_to(n: nat) -> nat
    decreases n,
{
    if n == 0 {
        1
    } else {
        16 * sixteen_to((n - 1) as nat)
    }
}

/// The hexadecimal digits of 128 bits, the highest first.
pub open spec fn nibble(value: u128, i: int) -> int {
    (value as int / sixteen_to((31 - i) as nat) as int) % 16
}

/// The text of a UUID: its digits, with hyphens after the eighth, twelfth,
/// sixteenth and twentieth.
pub open spec fn hyphenated(value: u128) -> Seq<char> {
    Seq::new(
        36,
        |i: int|
            if i == 8 || i == 13 || i == 18 || i == 23 {
                '-'
            } else if i < 8 {
                hex_digit(nibble(value, i))
            } else if i < 13 {
                hex_digit(nibble(value, i - 1))
            } else if i < 18 {
                hex_digit(nibble(value, i - 2))
            } else if i < 23 {
                hex_digit(nibble(value, i - 3))
            } else {
                hex_digit(nibble(value, i - 4))
            },
    )
}

/// Whether 128 bits are those of a random UUID: version 4, and the variant of
/// RFC 9562.
pub open spec fn is_random_uuid(value: u128) -> bool {
    &&& value as int / 0x1000_0000_0000_0000_0000 % 16 == 4
    &&& value as int / 0x4000_0000_0000_0000 % 4 == 2
}

/// `uuid::Uuid::new_v4`: a random UUID. Only its version and its variant are known.
#[verifier::external_body]
pub(crate) fn random_uuid() -> (value: u128)
    ensures
        is_random_uuid(value),
{
    Uuid::new_v4().as_u128()
}

/// `uuid::Uuid::from_u128` and its text: lower case hexadecimal with hyphens.
#[verifier::external_body]
pub(crate) fn uuid_text(value: u128) -> (text: String)
    ensures
        text@ == hyphenated(value),
{
    Uuid::from_u128(value).to_string()
}

} // verus!
