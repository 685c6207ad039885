//! Unpadded URL-safe base64, the text form of each credential segment.

use base64::prelude::{Engine, BASE64_URL_SAFE_NO_PAD};
use vstd::prelude::*;

verus! {

/// The unpadded URL-safe base64 text of a byte string.
pub uninterp spec fn base64url(data: Seq<u8>) -> Seq<char>;

/// The byte string that an unpadded URL-safe base64 text stands for, where
/// the text is well formed.
pub uninterp spec fn base64url_decoded(text: Seq<char>) -> Option<Seq<u8>>;

/// Whether `c` belongs to the URL-safe alphabet: a letter, a digit, `-` or
/// `_`.
pub open spec fn is_base64url_char(c: char) -> bool {
    ('A' <= c <= 'Z') || ('a' <= c <= 'z') || ('0' <= c <= '9') || c == '-' || c == '_'
}

/// Whether every character of `text` belongs to the URL-safe alphabet.
pub open spec fn is_base64url_text(text: Seq<char>) -> bool {
    forall|i: int| 0 <= i < text.len() ==> is_base64url_char(#[trigger] text[i])
}

/// The length of the unpadded text of `n` bytes: four characters for each
/// three bytes, and two or three for what is left.
pub open spec fn encoded_len(n: nat) -> nat {
    (4 * n + 2) / 3
}

/// Whether the text of `n` bytes has a length that `usize` can hold.
pub open spec fn encodable_len(n: nat) -> bool {
    encoded_len(n) <= usize::MAX
}

/// Whether `text` is the base64url text of `data`: it has the length that
/// `encoded_len` gives, holds characters of the URL-safe alphabet only, and
/// decodes to `data` again.
pub open spec fn is_segment_of(text: Seq<char>, data: Seq<u8>) -> bool {
    &&& text == base64url(data)
    &&& text.len() == encoded_len(data.len())
    &&& is_base64url_text(text)
    &&& base64url_decoded(text) == Some(data)
}

/// `Engine::encode` on `BASE64_URL_SAFE_NO_PAD`. The text has the length that
/// `encoded_len` gives, holds characters of the URL-safe alphabet only, and
/// decodes to `data` again. The outside function panics where that length is
/// more than `usize` can say.
#[verifier::external_body]
pub(crate) fn encode_unpadded(data: &[u8]) -> (text: String)
    requires
        encodable_len(data@.len()),
    ensures
        text@ == base64url(data@),
        text@.len() == encoded_len(data@.len()),
        is_base64url_text(text@),
        base64url_decoded(text@) == Some(data@),
{
    BASE64_URL_SAFE_NO_PAD.encode(data)
}

/// `Engine::decode` on `BASE64_URL_SAFE_NO_PAD`: the bytes that `text` stands
/// for, or nothing where `text` is not well formed.
#[verifier::external_body]
pub(crate) fn decode_unpadded(text: &str) -> (data: Option<Vec<u8>>)
    ensures
        data matches Some(bytes) ==> base64url_decoded(text@) == Some(bytes@),
        data is None ==> base64url_decoded(text@) is None,
{
    BASE64_URL_SAFE_NO_PAD.decode(text).ok()
}

/// Whether `encode` takes a byte string of length `n`.
pub fn fits(n: usize) -> (yes: bool)
    ensures
        yes == encodable_len(n as nat),
{
    (n as u128) * 4 <= (usize::MAX as u128) * 3
}

/// The unpadded URL-safe base64 text of `data`, or nothing where the text
/// would be longer than `usize` can say.
pub fn encode(data: &[u8]) -> (text: Option<String>)
    ensures
        text is Some <==> encodable_len(data@.len()),
        text matches Some(t) ==> is_segment_of(t@, data@),
{
    if fits(data.len()) {
        Some(encode_unpadded(data))
    } else {
        None
    }
}

} // verus!
