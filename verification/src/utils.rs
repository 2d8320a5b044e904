//! Framing of messages with the `#%` marker.

use vstd::prelude::*;
use vstd::string::StringExecFns;
use vstd::string::StringSliceAdditionalSpecFns;
use vstd::utf8::{
    char_is_scalar, char_u32_cast, encode_scalar, encode_utf8, encode_utf8_decode_utf8, encode_utf8_valid_utf8,
    has_width_1_encoding, has_width_2_encoding, has_width_3_encoding, is_char_boundary,
    valid_utf8,
};
use crate::NcrError;

verus! {

/// The marker that precedes every message meant for encryption.
pub open spec fn header() -> Seq<char> {
    seq!['#', '%']
}

/// Whether `text` begins with the marker.
pub open spec fn has_header(text: Seq<char>) -> bool {
    text.len() >= 2 && text[0] == '#' && text[1] == '%'
}

/// A text with the marker in front begins with the marker, and what
/// follows the marker is the text.
pub proof fn lemma_header_round_trip(text: Seq<char>)
    ensures
        has_header(header() + text),
        (header() + text).skip(2) == text,
{
    assert((header() + text).skip(2) =~= text);
}

/// The first byte of a character's UTF-8 encoding is below 128 exactly for
/// the characters below 128, which are written as themselves in one byte.
proof fn lemma_first_byte(ch: char)
    ensures
        encode_scalar(ch as u32).len() >= 1,
        encode_scalar(ch as u32)[0] < 0x80 <==> (ch as u32) < 0x80,
        (ch as u32) < 0x80 ==> encode_scalar(ch as u32) == seq![ch as u8] && ch as u8 == ch as u32,
{
    let c = ch as u32;
    char_is_scalar(ch);
    if has_width_1_encoding(c) {
        assert((c & 0x7F) as u8 == c as u8 && ((c & 0x7F) as u8) < 0x80) by (bit_vector)
            requires
                c <= 0x7F,
        ;
    } else if has_width_2_encoding(c) {
        assert(0xC0u8 | ((c >> 6) & 0x1F) as u8 >= 0x80) by (bit_vector);
    } else if has_width_3_encoding(c) {
        assert(0xE0u8 | ((c >> 12) & 0x0F) as u8 >= 0x80) by (bit_vector);
    } else {
        assert(0xF0u8 | ((c >> 18) & 0x7) as u8 >= 0x80) by (bit_vector);
    }
}

/// A text begins with a given character below 128 exactly where its UTF-8
/// encoding begins with that character's byte, and what follows the byte
/// encodes what follows the character.
proof fn lemma_leading_ascii(text: Seq<char>, ch: char)
    requires
        (ch as u32) < 0x80,
    ensures
        (text.len() >= 1 && text[0] == ch) <==> (encode_utf8(text).len() >= 1 && encode_utf8(
            text,
        )[0] == ch as u8),
        text.len() >= 1 && text[0] == ch ==> encode_utf8(text).skip(1) == encode_utf8(text.skip(1)),
{
    if text.len() >= 1 {
        let first = encode_scalar(text[0] as u32);
        let bytes = encode_utf8(text);
        lemma_first_byte(text[0]);
        lemma_first_byte(ch);
        char_u32_cast(text[0], text[0] as u32);
        char_u32_cast(ch, ch as u32);
        assert(text.drop_first() =~= text.skip(1));
        assert(bytes == first + encode_utf8(text.skip(1)));
        assert(bytes[0] == first[0]);
        if (text[0] as u32) < 0x80 {
            assert(first[0] == text[0] as u8);
            assert(bytes.skip(1) =~= encode_utf8(text.skip(1)));
        }
    } else {
        assert(encode_utf8(text).len() == 0);
    }
}

/// A text begins with the marker exactly where its UTF-8 encoding begins
/// with the two bytes of the marker; the text can then be split behind
/// them, and what follows the bytes encodes what follows the marker.
proof fn lemma_header_bytes(text: Seq<char>)
    ensures
        has_header(text) <==> (encode_utf8(text).len() >= 2 && encode_utf8(text)[0] == 0x23
            && encode_utf8(text)[1] == 0x25),
        has_header(text) ==> is_char_boundary(encode_utf8(text), 2) && encode_utf8(text).skip(2)
            == encode_utf8(text.skip(2)),
{
    let bytes = encode_utf8(text);
    lemma_leading_ascii(text, '#');
    if text.len() >= 1 && text[0] == '#' {
        let rest = text.skip(1);
        lemma_leading_ascii(rest, '%');
        assert(bytes.skip(1) == encode_utf8(rest));
        if bytes.len() >= 2 {
            assert(bytes[1] == bytes.skip(1)[0]);
        }
        if text.len() >= 2 {
            assert(rest[0] == text[1]);
        }
        if has_header(text) {
            assert(rest.skip(1) =~= text.skip(2));
            assert(bytes.skip(1).skip(1) =~= bytes.skip(2));
            encode_utf8_valid_utf8(text);
            encode_utf8_valid_utf8(rest);
            encode_utf8_valid_utf8(text.skip(2));
            assert(bytes.subrange(1, bytes.len() as int) =~= bytes.skip(1));
            assert(bytes.skip(1).subrange(1, bytes.skip(1).len() as int) =~= bytes.skip(2));
            reveal_with_fuel(is_char_boundary, 3);
        }
    }
}

/// Puts the marker in front of `text`.
pub fn prepend_header(text: &str) -> (framed: String)
    ensures
        framed@ == header() + text@,
{
    proof {
        reveal_strlit("#%");
    }
    let framed = String::from_str("#%").concat(text);
    assert("#%"@ =~= header());
    framed
}

/// Takes the marker off the front of `text`, or fails with `HeaderError`
/// where `text` does not begin with it.
pub fn trim_header(text: &str) -> (rest: Result<&str, NcrError>)
    ensures
        match rest {
            Ok(body) => has_header(text@) && body@ == text@.skip(2),
            Err(e) => !has_header(text@) && e == NcrError::HeaderError,
        },
{
    proof {
        lemma_header_bytes(text@);
    }
    let bytes = text.as_bytes();
    if bytes.len() >= 2 && bytes[0] == 0x23 && bytes[1] == 0x25 {
        let (_, body) = text.split_at(2);
        proof {
            assert(body.spec_bytes() =~= encode_utf8(text@.skip(2)));
            encode_utf8_decode_utf8(body@);
            encode_utf8_decode_utf8(text@.skip(2));
        }
        Ok(body)
    } else {
        Err(NcrError::HeaderError)
    }
}

} // verus!
