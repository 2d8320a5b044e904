//! The Sus16 encoding: one glyph for every four bits.

use vstd::prelude::*;
use vstd::std_specs::iter::IteratorSpec;
use super::Encoding;
use crate::NcrError;

verus! {

broadcast use vstd::string::group_string_axioms;

/// The Sus16 encoding, which writes each byte as two glyphs, the upper four
/// bits first.
#[derive(Debug)]
pub struct Sus16Encoding;

/// The sixteen glyphs, in the order of the values they stand for.
pub const SUS16_ENCODE: [char; 16] = [
    'ඔ', 'ඕ', 'ඖ', 'ඞ', 'ච', 'ඩ', 'ඬ', 'ධ', 'ඹ', 'ව', 'ဨ', '၅', '၆', '၉', 'ၡ', 'ဥ',
];

/// The glyph that stands for a four-bit value.
pub open spec fn sus16_glyph(value: int) -> char {
    SUS16_ENCODE@[value]
}

/// The four-bit value that a glyph stands for, if it is one of the sixteen.
pub open spec fn sus16_value(ch: char) -> Option<u8> {
    if ch == 'ඔ' {
        Some(0u8)
    } else if ch == 'ඕ' {
        Some(1u8)
    } else if ch == 'ඖ' {
        Some(2u8)
    } else if ch == 'ඞ' {
        Some(3u8)
    } else if ch == 'ච' {
        Some(4u8)
    } else if ch == 'ඩ' {
        Some(5u8)
    } else if ch == 'ඬ' {
        Some(6u8)
    } else if ch == 'ධ' {
        Some(7u8)
    } else if ch == 'ඹ' {
        Some(8u8)
    } else if ch == 'ව' {
        Some(9u8)
    } else if ch == 'ဨ' {
        Some(10u8)
    } else if ch == '၅' {
        Some(11u8)
    } else if ch == '၆' {
        Some(12u8)
    } else if ch == '၉' {
        Some(13u8)
    } else if ch == 'ၡ' {
        Some(14u8)
    } else if ch == 'ဥ' {
        Some(15u8)
    } else {
        None
    }
}

/// The glyphs for `bytes`: two for each byte, the upper half first.
pub open spec fn sus16_encoded(bytes: Seq<u8>) -> Seq<char> {
    Seq::new(
        2 * bytes.len(),
        |i: int|
            if i % 2 == 0 {
                sus16_glyph(bytes[i / 2] as int / 16)
            } else {
                sus16_glyph(bytes[i / 2] as int % 16)
            },
    )
}

/// Whether `text` is made of glyphs only, an even number of them.
pub open spec fn sus16_well_formed(text: Seq<char>) -> bool {
    &&& text.len() % 2 == 0
    &&& forall|i: int| 0 <= i < text.len() ==> sus16_value(#[trigger] text[i]) is Some
}

/// The bytes that the glyphs stand for, pair by pair.
pub open spec fn sus16_decoded(text: Seq<char>) -> Option<Seq<u8>> {
    if sus16_well_formed(text) {
        Some(
            Seq::new(
                text.len() / 2,
                |i: int|
                    (sus16_value(text[2 * i])->Some_0 * 16 + sus16_value(
                        text[2 * i + 1],
                    )->Some_0) as u8,
            ),
        )
    } else {
        None
    }
}

/// A text with an odd number of characters stands for no bytes.
pub proof fn lemma_sus16_odd_length(text: Seq<char>)
    requires
        text.len() % 2 == 1,
    ensures
        sus16_decoded(text) is None,
{
}

/// Every glyph stands for the value it was chosen for.
pub proof fn lemma_sus16_value_of_glyph(value: int)
    requires
        0 <= value < 16,
    ensures
        sus16_value(sus16_glyph(value)) == Some(value as u8),
{
}

/// Every glyph is the one chosen for the value it stands for.
pub proof fn lemma_sus16_glyph_of_value(ch: char)
    requires
        sus16_value(ch) is Some,
    ensures
        sus16_value(ch)->Some_0 < 16,
        sus16_glyph(sus16_value(ch)->Some_0 as int) == ch,
{
}

/// Decoding what was encoded gives the bytes back.
pub proof fn lemma_sus16_round_trip(bytes: Seq<u8>)
    ensures
        sus16_decoded(sus16_encoded(bytes)) == Some(bytes),
{
    let text = sus16_encoded(bytes);
    assert forall|i: int| 0 <= i < text.len() implies sus16_value(#[trigger] text[i]) is Some by {
        let b = bytes[i / 2] as int;
        lemma_sus16_value_of_glyph(b / 16);
        lemma_sus16_value_of_glyph(b % 16);
    }
    assert(sus16_well_formed(text));
    let back = sus16_decoded(text)->Some_0;
    assert forall|i: int| 0 <= i < bytes.len() implies back[i] == bytes[i] by {
        let b = bytes[i] as int;
        assert((2 * i) / 2 == i && (2 * i) % 2 == 0);
        assert((2 * i + 1) / 2 == i && (2 * i + 1) % 2 == 1);
        lemma_sus16_value_of_glyph(b / 16);
        lemma_sus16_value_of_glyph(b % 16);
        assert(text[2 * i] == sus16_glyph(b / 16));
        assert(text[2 * i + 1] == sus16_glyph(b % 16));
    }
    assert(back =~= bytes);
}

/// Only what `sus16_encoded` writes is well-formed: a text that decodes to
/// some bytes is the encoding of those bytes.
pub proof fn lemma_sus16_decoded_is_encoded(text: Seq<char>)
    requires
        sus16_decoded(text) is Some,
    ensures
        sus16_encoded(sus16_decoded(text)->Some_0) == text,
{
    let bytes = sus16_decoded(text)->Some_0;
    let again = sus16_encoded(bytes);
    assert(again.len() == text.len());
    assert forall|i: int| 0 <= i < text.len() implies again[i] == text[i] by {
        let k = i / 2;
        let hi = sus16_value(text[2 * k])->Some_0;
        let lo = sus16_value(text[2 * k + 1])->Some_0;
        lemma_sus16_glyph_of_value(text[2 * k]);
        lemma_sus16_glyph_of_value(text[2 * k + 1]);
        assert(bytes[k] == (hi * 16 + lo) as u8);
        if i % 2 == 0 {
            assert(again[i] == sus16_glyph(bytes[k] as int / 16));
        } else {
            assert(again[i] == sus16_glyph(bytes[k] as int % 16));
        }
    }
    assert(again =~= text);
}

impl Encoding for Sus16Encoding {
    open spec fn encoded(bytes: Seq<u8>) -> Seq<char> {
        sus16_encoded(bytes)
    }

    open spec fn decoded(text: Seq<char>) -> Option<Seq<u8>> {
        sus16_decoded(text)
    }

    fn encode(text: &[u8]) -> (encoded: String) {
        let mut output = String::new();
        let mut i: usize = 0;
        while i < text.len()
            invariant
                i <= text@.len(),
                output@ == sus16_encoded(text@.take(i as int)),
            decreases text@.len() - i,
        {
            let byte = text[i];
            assert(byte >> 4 == byte / 16 && byte & 0xf == byte % 16) by (bit_vector);
            output.push(SUS16_ENCODE[(byte >> 4) as usize]);
            output.push(SUS16_ENCODE[(byte & 0xf) as usize]);
            i = i + 1;
            assert(output@ =~= sus16_encoded(text@.take(i as int)));
        }
        assert(text@.take(i as int) =~= text@);
        proof {
            lemma_sus16_round_trip(text@);
        }
        output
    }

    fn decode(text: &str) -> (decoded: Result<Vec<u8>, NcrError>) {
        let mut output: Vec<u8> = Vec::new();
        let mut chars = text.chars();
        loop
            invariant
                2 * output@.len() <= text@.len(),
                chars.remaining() == text@.skip(2 * output@.len() as int),
                sus16_decoded(text@.take(2 * output@.len() as int)) == Some(output@),
            decreases text@.len() - 2 * output@.len(),
        {
            let ghost done: int = 2 * output@.len() as int;
            let Some(c1) = chars.next() else {
                assert(text@.take(done) =~= text@);
                return Ok(output);
            };
            let Some(c2) = chars.next() else {
                return Err(NcrError::DecodeError);
            };
            let r1 = match sus16_decode(c1) {
                Ok(value) => value,
                Err(e) => {
                    return Err(e);
                },
            };
            let r2 = match sus16_decode(c2) {
                Ok(value) => value,
                Err(e) => {
                    return Err(e);
                },
            };
            assert((r1 << 4) | r2 == r1 * 16 + r2) by (bit_vector)
                requires
                    r1 < 16,
                    r2 < 16,
            ;
            output.push((r1 << 4) | r2);
            assert(sus16_decoded(text@.take(done + 2)) =~= Some(output@));
        }
    }
}

/// The four-bit value of one glyph, or `DecodeError` for any other
/// character.
pub fn sus16_decode(ch: char) -> (value: Result<u8, NcrError>)
    ensures
        match value {
            Ok(v) => sus16_value(ch) == Some(v) && v < 16,
            Err(e) => sus16_value(ch) is None && e == NcrError::DecodeError,
        },
{
    match ch {
        'ඔ' => Ok(0),
        'ඕ' => Ok(1),
        'ඖ' => Ok(2),
        'ඞ' => Ok(3),
        'ච' => Ok(4),
        'ඩ' => Ok(5),
        'ඬ' => Ok(6),
        'ධ' => Ok(7),
        'ඹ' => Ok(8),
        'ව' => Ok(9),
        'ဨ' => Ok(10),
        '၅' => Ok(11),
        '၆' => Ok(12),
        '၉' => Ok(13),
        'ၡ' => Ok(14),
        'ဥ' => Ok(15),
        _ => Err(NcrError::DecodeError),
    }
}

} // verus!
