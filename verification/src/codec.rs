//! Encodings that the gateway takes from other crates: Base64 for basic
//! credentials, JSON for the request body. Each result is named, not
//! spelled out: the contracts say which call produced a value, the Base64
//! text is known to stay within its alphabet, and the verified code around
//! them says what is done with the values.

use base64::Engine;
use vstd::prelude::*;

verus! {

/// The standard, padded Base64 text of a byte string.
pub uninterp spec fn base64_standard(input: Seq<u8>) -> Seq<char>;

/// The string member `key` of the JSON object that `document` spells, if
/// `document` is JSON, its top level is an object, and that member is a string.
pub uninterp spec fn json_string_member(document: Seq<u8>, key: Seq<char>) -> Option<Seq<char>>;

/// Whether the Base64 text of `len` input bytes has a length that fits `usize`.
pub open spec fn base64_fits(len: nat) -> bool {
    (len / 3) * 4 + 4 <= usize::MAX
}

/// A character of the standard Base64 alphabet, or the padding character.
pub open spec fn is_base64_char(c: char) -> bool {
    ||| 'A' <= c <= 'Z'
    ||| 'a' <= c <= 'z'
    ||| '0' <= c <= '9'
    ||| c == '+'
    ||| c == '/'
    ||| c == '='
}

/// Text made of Base64 characters.
pub open spec fn is_base64_text(text: Seq<char>) -> bool {
    forall|i: int| 0 <= i < text.len() ==> is_base64_char(#[trigger] text[i])
}

/// `Engine::encode` of `base64::engine::general_purpose::STANDARD`. Assumed:
/// the text depends on the input bytes alone, and holds only characters of
/// the standard alphabet and the padding character. The call panics when the
/// length of the text overflows `usize`, which the precondition rules out.
#[verifier::external_body]
pub(crate) fn base64_encode(input: &[u8]) -> (r: String)
    requires
        base64_fits(input@.len()),
    ensures
        r@ == base64_standard(input@),
        is_base64_text(r@),
{
    base64::engine::general_purpose::STANDARD.encode(input)
}

/// `serde_json::from_slice` into a `serde_json::Value`, then `Value::get` with
/// a string key and `Value::as_str`. Assumed: whether a string comes back, and
/// which, depends on the document's bytes and the key alone.
#[verifier::external_body]
pub(crate) fn read_json_string_member(document: &[u8], key: &str) -> (r: Option<String>)
    ensures
        match r {
            Some(text) => json_string_member(document@, key@) == Some(text@),
            None => json_string_member(document@, key@) is None,
        },
{
    let value: serde_json::Value = serde_json::from_slice(document).ok()?;
    Some(value.get(key)?.as_str()?.to_owned())
}

} // verus!
