//! The text-safe form of a string field: URL-safe base64 without padding over the
//! string's UTF-8 bytes. Its alphabet leaves the separator byte free.

use base64::Engine;
use vstd::prelude::*;
use vstd::utf8::*;
use crate::wire::{DATA_SEPARATOR, MAX_PAYLOAD_LEN};

verus! {

/// What the URL-safe, unpadded base64 engine writes for `data`.
pub uninterp spec fn base64_url_text(data: Seq<u8>) -> Seq<u8>;

/// What the URL-safe, unpadded base64 engine reads from `text`, where it accepts it.
pub uninterp spec fn base64_url_data(text: Seq<u8>) -> Option<Seq<u8>>;

/// The length of the unpadded base64 text for `n` bytes: four symbols for every
/// three bytes, and two or three symbols for one or two bytes left over.
pub open spec fn text_len(n: nat) -> nat {
    (4 * n + 2) / 3
}

/// The symbols of the URL-safe alphabet: letters, digits, `-` and `_`.
pub open spec fn is_url_safe_symbol(b: u8) -> bool {
    ||| 0x41 <= b <= 0x5a
    ||| 0x61 <= b <= 0x7a
    ||| 0x30 <= b <= 0x39
    ||| b == 0x2d
    ||| b == 0x5f
}

/// Every byte of `text` is a symbol of the URL-safe alphabet.
pub open spec fn is_url_safe(text: Seq<u8>) -> bool {
    forall|i: int| 0 <= i < text.len() ==> is_url_safe_symbol(#[trigger] text[i])
}

/// The text-safe form of a string.
pub open spec fn text_safe(s: Seq<char>) -> Seq<u8> {
    base64_url_text(encode_utf8(s))
}

/// The string that a text-safe field stands for, where it stands for one: the
/// field must be base64 that the engine accepts, of bytes that are UTF-8.
pub open spec fn text_plain(field: Seq<u8>) -> Option<Seq<char>> {
    match base64_url_data(field) {
        Some(bytes) => if valid_utf8(bytes) {
            Some(decode_utf8(bytes))
        } else {
            None
        },
        None => None,
    }
}

/// `text` is the text-safe form of `s`, with all that is known of such a form:
/// its length, its alphabet, and that it reads back as `s`.
pub open spec fn is_text_safe_of(s: Seq<char>, text: Seq<u8>) -> bool {
    &&& text == text_safe(s)
    &&& text.len() == text_len(encode_utf8(s).len())
    &&& is_url_safe(text)
    &&& text_plain(text) == Some(s)
}

/// Calls `base64::Engine::encode` on the engine `BASE64_URL_SAFE_NO_PAD`.
///
/// Trusted, not proved: the result is the engine's encoding of `data`; it is as
/// long as the crate's `encoded_len` computes without padding; each of its bytes
/// comes from the URL-safe alphabet; and the same engine decodes it to `data`.
/// The engine panics where the encoded length overflows `usize`, which the
/// precondition rules out.
#[verifier::external_body]
fn base64_encode(data: &[u8]) -> (text: Vec<u8>)
    requires
        text_len(data@.len()) <= usize::MAX,
    ensures
        text@ == base64_url_text(data@),
        text@.len() == text_len(data@.len()),
        is_url_safe(text@),
        base64_url_data(text@) == Some(data@),
{
    base64::prelude::BASE64_URL_SAFE_NO_PAD.encode(data).into_bytes()
}

/// Calls `base64::Engine::decode` on the engine `BASE64_URL_SAFE_NO_PAD`.
///
/// Trusted, not proved: the result is what the engine reads from `text`, and
/// `None` where the engine reports an error.
#[verifier::external_body]
fn base64_decode(text: &[u8]) -> (data: Option<Vec<u8>>)
    ensures
        data matches Some(bytes) ==> base64_url_data(text@) == Some(bytes@),
        data is None ==> base64_url_data(text@) is None,
{
    match base64::prelude::BASE64_URL_SAFE_NO_PAD.decode(text) {
        Ok(bytes) => Some(bytes),
        Err(_) => None,
    }
}

/// Calls `String::from_utf8`.
///
/// Trusted, not proved: the call succeeds exactly on valid UTF-8, and the string
/// it gives consists of the bytes it was given.
#[verifier::external_body]
fn string_from_utf8(bytes: Vec<u8>) -> (s: Option<String>)
    ensures
        s is Some <==> valid_utf8(bytes@),
        s matches Some(text) ==> encode_utf8(text@) == bytes@,
{
    match String::from_utf8(bytes) {
        Ok(text) => Some(text),
        Err(_) => None,
    }
}

/// A text-safe form is never shorter than the bytes it stands for.
pub proof fn lemma_text_len_grows(n: nat)
    ensures
        n <= text_len(n),
{
}

/// A text-safe form holds no separator byte.
pub proof fn lemma_url_safe_has_no_separator(text: Seq<u8>)
    requires
        is_url_safe(text),
    ensures
        !text.contains(DATA_SEPARATOR),
{
    if text.contains(DATA_SEPARATOR) {
        let i = choose|i: int| 0 <= i < text.len() && text[i] == DATA_SEPARATOR;
        assert(is_url_safe_symbol(text[i]));
    }
}

/// The text-safe form of `s`, or `None` where `s` alone is already longer than
/// any payload.
pub fn to_text_safe(s: &str) -> (r: Option<Vec<u8>>)
    ensures
        r is Some <==> encode_utf8(s@).len() <= MAX_PAYLOAD_LEN,
        r matches Some(text) ==> is_text_safe_of(s@, text@),
{
    let bytes = s.as_bytes();
    if bytes.len() > MAX_PAYLOAD_LEN {
        return None;
    }
    let text = base64_encode(bytes);
    proof {
        encode_utf8_valid_utf8(s@);
        encode_utf8_decode_utf8(s@);
    }
    Some(text)
}

/// The string that `field` stands for, or `None` where it stands for none.
pub fn from_text_safe(field: &[u8]) -> (r: Option<String>)
    ensures
        r matches Some(s) ==> text_plain(field@) == Some(s@),
        r is None ==> text_plain(field@) is None,
{
    match base64_decode(field) {
        None => None,
        Some(bytes) => match string_from_utf8(bytes) {
            None => None,
            Some(s) => {
                proof {
                    encode_utf8_decode_utf8(s@);
                }
                Some(s)
            },
        },
    }
}

} // verus!
