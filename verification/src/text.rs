use vstd::prelude::*;
use vstd::utf8::*;

verus! {

/// `b` is a byte that an HTTP header value may show as text: a visible ASCII
/// character (32 to 126) or a horizontal tab. This is the test that the `http`
/// crate's `HeaderValue::to_str` makes of each byte.
pub open spec fn is_visible_ascii(b: u8) -> bool {
    (32 <= b && b < 127) || b == 9
}

/// The characters that the single-byte (ASCII) codes `bytes` stand for.
pub open spec fn ascii_chars(bytes: Seq<u8>) -> Seq<char> {
    Seq::new(bytes.len(), |i: int| bytes[i] as char)
}

/// A header value read as text: the characters of its bytes when every byte is
/// visible ASCII or a tab, and nothing otherwise.
pub open spec fn visible_text(bytes: Seq<u8>) -> Option<Seq<char>> {
    if forall|i: int| 0 <= i < bytes.len() ==> is_visible_ascii(#[trigger] bytes[i]) {
        Some(ascii_chars(bytes))
    } else {
        None
    }
}

/// Calls `String::from_utf8`, which, as std documents, gives a `String` of the
/// characters that the bytes encode when they are valid UTF-8, and an error otherwise.
#[verifier::external_body]
fn string_from_utf8(bytes: Vec<u8>) -> (r: Option<String>)
    ensures
        r is Some <==> valid_utf8(bytes@),
        r matches Some(s) ==> s@ == decode_utf8(bytes@),
{
    String::from_utf8(bytes).ok()
}

/// ASCII bytes are the UTF-8 encoding of the characters they stand for.
proof fn lemma_ascii_is_utf8(bytes: Seq<u8>)
    requires
        forall|i: int| 0 <= i < bytes.len() ==> #[trigger] bytes[i] < 128,
    ensures
        valid_utf8(bytes),
        decode_utf8(bytes) == ascii_chars(bytes),
{
    let chars = ascii_chars(bytes);
    assert forall|i: int| 0 <= i < chars.len() implies '\0' <= #[trigger] chars[i] <= '\u{7f}' by {
        assert(bytes[i] < 128);
    }
    assert(is_ascii_chars(chars));
    is_ascii_chars_encode_utf8(chars);
    assert forall|i: int| 0 <= i < bytes.len() implies #[trigger] encode_utf8(chars)[i] == bytes[i] by {
        assert(chars[i] as u8 == encode_utf8(chars)[i]);
        let b = bytes[i];
        assert((b as char) as u8 == b);
    }
    assert(encode_utf8(chars) =~= bytes);
    encode_utf8_valid_utf8(chars);
    encode_utf8_decode_utf8(chars);
}

/// Reads a header value as text, as the `http` crate's `HeaderValue::to_str` does:
/// the text when every byte is visible ASCII or a tab, and `None` otherwise.
pub fn header_value_text(bytes: &[u8]) -> (r: Option<String>)
    ensures
        match r {
            Some(s) => visible_text(bytes@) == Some(s@),
            None => visible_text(bytes@) is None,
        },
{
    let len = bytes.len();
    let mut owned: Vec<u8> = Vec::new();
    let mut i: usize = 0;
    while i < len
        invariant
            i <= len,
            len == bytes@.len(),
            owned@ == bytes@.take(i as int),
            forall|j: int| 0 <= j < i ==> is_visible_ascii(#[trigger] bytes@[j]),
        decreases len - i,
    {
        let b = bytes[i];
        if !((32 <= b && b < 127) || b == 9) {
            return None;
        }
        owned.push(b);
        assert(owned@ =~= bytes@.take(i + 1));
        i = i + 1;
    }
    assert(owned@ =~= bytes@);
    proof {
        assert forall|j: int| 0 <= j < owned@.len() implies #[trigger] owned@[j] < 128 by {
            assert(is_visible_ascii(bytes@[j]));
        }
        lemma_ascii_is_utf8(owned@);
    }
    string_from_utf8(owned)
}

/// A header value reads as text exactly when every byte is visible ASCII or a
/// tab, and the text then has one character per byte, with that byte's code.
pub proof fn law_visible_text(bytes: Seq<u8>)
    ensures
        (forall|i: int| 0 <= i < bytes.len() ==> is_visible_ascii(#[trigger] bytes[i])) ==> ({
            &&& visible_text(bytes) is Some
            &&& visible_text(bytes).unwrap().len() == bytes.len()
            &&& forall|i: int|
                0 <= i < bytes.len() ==> #[trigger] visible_text(bytes).unwrap()[i] as u32 == bytes[i]
        }),
        (exists|i: int| 0 <= i < bytes.len() && !is_visible_ascii(#[trigger] bytes[i])) ==> visible_text(
            bytes,
        ) is None,
{
}

} // verus!
