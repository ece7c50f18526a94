//! Text fields of the protocol: ASCII command names and UTF-8 user agents.

use vstd::prelude::*;
use vstd::utf8::{decode_utf8, encode_utf8, is_ascii_chars, valid_utf8};

verus! {

/// Whether every byte is ASCII.
pub open spec fn spec_all_ascii(bytes: Seq<u8>) -> bool {
    forall|i: int| 0 <= i < bytes.len() ==> #[trigger] bytes[i] < 0x80
}

/// The characters whose codes are the given bytes.
pub open spec fn spec_ascii_chars(bytes: Seq<u8>) -> Seq<char> {
    Seq::new(bytes.len(), |i: int| bytes[i] as char)
}

/// The bytes whose values are the codes of the given characters.
pub open spec fn spec_ascii_bytes(chars: Seq<char>) -> Seq<u8> {
    Seq::new(chars.len(), |i: int| chars[i] as u8)
}

/// ASCII bytes are the UTF-8 encoding of the characters with the same codes.
pub proof fn lemma_ascii_is_utf8(bytes: Seq<u8>)
    requires
        spec_all_ascii(bytes),
    ensures
        is_ascii_chars(spec_ascii_chars(bytes)),
        encode_utf8(spec_ascii_chars(bytes)) == bytes,
        valid_utf8(bytes),
        decode_utf8(bytes) == spec_ascii_chars(bytes),
{
    let chars = spec_ascii_chars(bytes);
    assert forall|i: int| 0 <= i < chars.len() implies '\0' <= #[trigger] chars[i] <= '\u{7f}' by {
        assert(bytes[i] < 0x80);
    }
    vstd::utf8::is_ascii_chars_encode_utf8(chars);
    assert forall|i: int| 0 <= i < bytes.len() implies encode_utf8(chars)[i] == bytes[i] by {
        assert(bytes[i] < 0x80);
        assert(chars[i] as u8 == encode_utf8(chars)[i]);
    }
    assert(encode_utf8(chars) =~= bytes);
    vstd::utf8::encode_utf8_valid_utf8(chars);
    vstd::utf8::encode_utf8_decode_utf8(chars);
}

/// The UTF-8 encoding of ASCII characters is their codes, one byte each.
pub proof fn lemma_ascii_encoding(chars: Seq<char>)
    requires
        is_ascii_chars(chars),
    ensures
        encode_utf8(chars) == spec_ascii_bytes(chars),
        spec_all_ascii(spec_ascii_bytes(chars)),
        spec_ascii_chars(spec_ascii_bytes(chars)) == chars,
{
    vstd::utf8::is_ascii_chars_encode_utf8(chars);
    let bytes = spec_ascii_bytes(chars);
    assert(encode_utf8(chars) =~= bytes);
    assert forall|i: int| 0 <= i < bytes.len() implies #[trigger] bytes[i] < 0x80 && (
    bytes[i] as char) == chars[i] by {
        assert('\0' <= chars[i] <= '\u{7f}');
    }
    assert(spec_ascii_chars(bytes) =~= chars);
}

/// `String::from_utf8` of std. Trusted: it succeeds exactly on valid UTF-8,
/// and the string it returns has the given bytes as its encoding.
#[verifier::external_body]
pub(crate) fn string_from_utf8(bytes: Vec<u8>) -> (r: Option<String>)
    ensures
        r is Some <==> valid_utf8(bytes@),
        r matches Some(s) ==> encode_utf8(s@) == bytes@,
{
    String::from_utf8(bytes).ok()
}

/// The string of the characters whose codes are the given ASCII bytes.
pub(crate) fn ascii_string(bytes: Vec<u8>) -> (s: String)
    requires
        spec_all_ascii(bytes@),
    ensures
        s@ == spec_ascii_chars(bytes@),
{
    proof {
        lemma_ascii_is_utf8(bytes@);
    }
    match string_from_utf8(bytes) {
        Some(s) => {
            proof {
                vstd::utf8::encode_utf8_decode_utf8(s@);
            }
            s
        },
        None => String::new(),
    }
}

} // verus!
