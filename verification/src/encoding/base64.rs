//! Base64 with a backslash in place of the slash, and the calls into the
//! `base64` crate that the other modules share.

use vstd::prelude::*;
use super::Encoding;
use crate::NcrError;

verus! {

broadcast use vstd::string::group_string_axioms;

/// The 64 symbols of standard base64, in the order of their values.
pub const STANDARD_ALPHABET: &'static str =
    "ABCDEFGHIJKLMNOPQRSTUVWXYZabcdefghijklmnopqrstuvwxyz0123456789+/";

/// The standard symbols with a backslash where the slash would be.
pub const CHAT_ALPHABET: &'static str =
    "ABCDEFGHIJKLMNOPQRSTUVWXYZabcdefghijklmnopqrstuvwxyz0123456789+\\";

/// Whether `symbols` can serve as a base64 alphabet: 64 printable ASCII
/// characters, none of them the padding character, no two alike.
pub open spec fn is_base64_alphabet(symbols: Seq<char>) -> bool {
    &&& symbols.len() == 64
    &&& forall|i: int|
        0 <= i < 64 ==> 32 <= (#[trigger] symbols[i]) as u32 <= 126 && symbols[i] != '='
    &&& forall|i: int, j: int|
        0 <= i < 64 && 0 <= j < 64 && #[trigger] symbols[i] == #[trigger] symbols[j] ==> i == j
}

/// Whether a padded base64 text over `symbols` may hold `ch`.
pub open spec fn is_base64_symbol(symbols: Seq<char>, ch: char) -> bool {
    symbols.contains(ch) || ch == '='
}

/// The padded base64 text of `bytes` over the alphabet `symbols`.
pub uninterp spec fn base64_text(symbols: Seq<char>, bytes: Seq<u8>) -> Seq<char>;

/// The bytes that a padded base64 `text` over the alphabet `symbols` stands
/// for, or `None` where `text` is not canonical base64.
pub uninterp spec fn base64_bytes(symbols: Seq<char>, text: Seq<char>) -> Option<Seq<u8>>;

#[verifier::external_type_specification]
#[verifier::external_body]
pub struct ExDecodeError(base64::DecodeError);

/// Calls `Engine::encode` of the `base64` crate on a padding
/// `GeneralPurpose` engine over `symbols`.
///
/// Taken on trust: the result is a function of the alphabet and the bytes,
/// it holds nothing but symbols of the alphabet and padding, and decoding it
/// over the same alphabet gives `bytes` back. The size computation in the
/// crate cannot overflow, since no slice is longer than `isize::MAX`.
#[verifier::external_body]
pub(crate) fn base64_encode(symbols: &str, bytes: &[u8]) -> (text: String)
    requires
        is_base64_alphabet(symbols@),
    ensures
        text@ == base64_text(symbols@, bytes@),
        base64_bytes(symbols@, text@) == Some(bytes@),
        forall|i: int| 0 <= i < text@.len() ==> is_base64_symbol(symbols@, #[trigger] text@[i]),
{
    let alphabet = base64::alphabet::Alphabet::new(symbols).unwrap();
    let engine = base64::engine::GeneralPurpose::new(&alphabet, base64::engine::general_purpose::PAD);
    base64::Engine::encode(&engine, bytes)
}

/// Calls `Engine::decode` of the `base64` crate on a padding
/// `GeneralPurpose` engine over `symbols`.
///
/// Taken on trust: whether the call succeeds, and with which bytes, is a
/// function of the alphabet and the text.
#[verifier::external_body]
pub(crate) fn base64_decode(symbols: &str, text: &str) -> (bytes: Result<
    Vec<u8>,
    base64::DecodeError,
>)
    requires
        is_base64_alphabet(symbols@),
    ensures
        match bytes {
            Ok(b) => base64_bytes(symbols@, text@) == Some(b@),
            Err(_) => base64_bytes(symbols@, text@) is None,
        },
{
    let alphabet = base64::alphabet::Alphabet::new(symbols).unwrap();
    let engine = base64::engine::GeneralPurpose::new(&alphabet, base64::engine::general_purpose::PAD);
    base64::Engine::decode(&engine, text)
}

/// The position of a standard symbol in the alphabet; 64 for anything else
/// but the slash and the backslash, which both have position 63.
pub open spec fn symbol_position(ch: char) -> int {
    let c = ch as u32;
    if 'A' as u32 <= c <= 'Z' as u32 {
        c - 'A' as u32
    } else if 'a' as u32 <= c <= 'z' as u32 {
        c - 'a' as u32 + 26
    } else if '0' as u32 <= c <= '9' as u32 {
        c - '0' as u32 + 52
    } else if ch == '+' {
        62
    } else if ch == '/' || ch == '\\' {
        63
    } else {
        64
    }
}

/// The standard alphabet is an alphabet.
pub proof fn lemma_standard_alphabet()
    ensures
        is_base64_alphabet(STANDARD_ALPHABET@),
        forall|i: int| 0 <= i < 64 ==> symbol_position(#[trigger] STANDARD_ALPHABET@[i]) == i,
{
    reveal_strlit("ABCDEFGHIJKLMNOPQRSTUVWXYZabcdefghijklmnopqrstuvwxyz0123456789+/");
    let s = STANDARD_ALPHABET@;
    assert(s.len() == 64);
    assert forall|i: int| 0 <= i < 64 implies symbol_position(#[trigger] s[i]) == i by {}
}

/// The chat alphabet is an alphabet.
pub proof fn lemma_chat_alphabet()
    ensures
        is_base64_alphabet(CHAT_ALPHABET@),
        forall|i: int| 0 <= i < 64 ==> symbol_position(#[trigger] CHAT_ALPHABET@[i]) == i,
{
    reveal_strlit("ABCDEFGHIJKLMNOPQRSTUVWXYZabcdefghijklmnopqrstuvwxyz0123456789+\\");
    let s = CHAT_ALPHABET@;
    assert(s.len() == 64);
    assert forall|i: int| 0 <= i < 64 implies symbol_position(#[trigger] s[i]) == i by {}
}

/// Base64 for chat: the slash of the standard alphabet would start a
/// command, so a backslash stands in its place.
#[derive(Debug)]
pub struct Base64Encoding;

impl Encoding for Base64Encoding {
    open spec fn encoded(bytes: Seq<u8>) -> Seq<char> {
        base64_text(CHAT_ALPHABET@, bytes)
    }

    open spec fn decoded(text: Seq<char>) -> Option<Seq<u8>> {
        base64_bytes(CHAT_ALPHABET@, text)
    }

    fn encode(text: &[u8]) -> (encoded: String) {
        proof {
            lemma_chat_alphabet();
        }
        base64_encode(CHAT_ALPHABET, text)
    }

    fn decode(text: &str) -> (decoded: Result<Vec<u8>, NcrError>) {
        proof {
            lemma_chat_alphabet();
        }
        match base64_decode(CHAT_ALPHABET, text) {
            Ok(bytes) => Ok(bytes),
            Err(_) => Err(NcrError::DecodeError),
        }
    }
}

} // verus!
