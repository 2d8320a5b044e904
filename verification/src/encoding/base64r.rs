//! Base64r: standard base64 with every symbol replaced by a character that
//! reads as ordinary extended Latin text.

use vstd::prelude::*;
use vstd::std_specs::iter::IteratorSpec;
use super::base64::{
    base64_bytes, base64_decode, base64_encode, base64_text, is_base64_symbol,
    lemma_standard_alphabet, STANDARD_ALPHABET,
};
use super::Encoding;
use crate::NcrError;

verus! {

broadcast use vstd::string::group_string_axioms;

/// The base64r encoding as it was until Minecraft 1.19.2.
///
/// Later versions write `x` as `\u{d7}`: see [`NewBase64rEncoding`].
#[derive(Debug)]
pub struct Base64rEncoding;

/// The base64r encoding as it is since Minecraft 1.19.3.
///
/// Earlier versions write `x` as `\u{b8}`: see [`Base64rEncoding`].
#[derive(Debug)]
pub struct NewBase64rEncoding;

/// The character that the later revision writes for `x`.
pub const NEW_X: char = '\u{d7}';

/// The character that stands for a base64 symbol in the first revision, for
/// each of the 65 symbols.
pub open spec fn base64r_substitute(ch: char) -> Option<char> {
    match ch {
        'A' => Some('!'),
        'B' => Some('"'),
        'C' => Some('#'),
        'D' => Some('$'),
        'E' => Some('%'),
        'F' => Some('¼'),
        'G' => Some('\''),
        'H' => Some('('),
        'I' => Some(')'),
        'J' => Some(','),
        'K' => Some('-'),
        'L' => Some('.'),
        'M' => Some(':'),
        'N' => Some(';'),
        'O' => Some('<'),
        'P' => Some('='),
        'Q' => Some('>'),
        'R' => Some('?'),
        'S' => Some('@'),
        'T' => Some('['),
        'U' => Some('\\'),
        'V' => Some(']'),
        'W' => Some('^'),
        'X' => Some('_'),
        'Y' => Some('`'),
        'Z' => Some('{'),
        'a' => Some('|'),
        'b' => Some('}'),
        'c' => Some('~'),
        'd' => Some('¡'),
        'e' => Some('¢'),
        'f' => Some('£'),
        'g' => Some('¤'),
        'h' => Some('¥'),
        'i' => Some('¦'),
        'j' => Some('¨'),
        'k' => Some('©'),
        'l' => Some('ª'),
        'm' => Some('«'),
        'n' => Some('¬'),
        'o' => Some('®'),
        'p' => Some('¯'),
        'q' => Some('°'),
        'r' => Some('±'),
        's' => Some('²'),
        't' => Some('³'),
        'u' => Some('µ'),
        'v' => Some('¶'),
        'w' => Some('·'),
        'x' => Some('¸'),
        'y' => Some('¹'),
        'z' => Some('º'),
        '0' => Some('0'),
        '1' => Some('1'),
        '2' => Some('2'),
        '3' => Some('3'),
        '4' => Some('4'),
        '5' => Some('5'),
        '6' => Some('6'),
        '7' => Some('7'),
        '8' => Some('8'),
        '9' => Some('9'),
        '+' => Some('+'),
        '/' => Some('»'),
        '=' => Some('¿'),
        _ => None,
    }
}

/// The base64 symbol that a character of the first revision stands for.
pub open spec fn base64r_restore(ch: char) -> Option<char> {
    match ch {
        '!' => Some('A'),
        '"' => Some('B'),
        '#' => Some('C'),
        '$' => Some('D'),
        '%' => Some('E'),
        '¼' => Some('F'),
        '\'' => Some('G'),
        '(' => Some('H'),
        ')' => Some('I'),
        ',' => Some('J'),
        '-' => Some('K'),
        '.' => Some('L'),
        ':' => Some('M'),
        ';' => Some('N'),
        '<' => Some('O'),
        '=' => Some('P'),
        '>' => Some('Q'),
        '?' => Some('R'),
        '@' => Some('S'),
        '[' => Some('T'),
        '\\' => Some('U'),
        ']' => Some('V'),
        '^' => Some('W'),
        '_' => Some('X'),
        '`' => Some('Y'),
        '{' => Some('Z'),
        '|' => Some('a'),
        '}' => Some('b'),
        '~' => Some('c'),
        '¡' => Some('d'),
        '¢' => Some('e'),
        '£' => Some('f'),
        '¤' => Some('g'),
        '¥' => Some('h'),
        '¦' => Some('i'),
        '¨' => Some('j'),
        '©' => Some('k'),
        'ª' => Some('l'),
        '«' => Some('m'),
        '¬' => Some('n'),
        '®' => Some('o'),
        '¯' => Some('p'),
        '°' => Some('q'),
        '±' => Some('r'),
        '²' => Some('s'),
        '³' => Some('t'),
        'µ' => Some('u'),
        '¶' => Some('v'),
        '·' => Some('w'),
        '¸' => Some('x'),
        '¹' => Some('y'),
        'º' => Some('z'),
        '0' => Some('0'),
        '1' => Some('1'),
        '2' => Some('2'),
        '3' => Some('3'),
        '4' => Some('4'),
        '5' => Some('5'),
        '6' => Some('6'),
        '7' => Some('7'),
        '8' => Some('8'),
        '9' => Some('9'),
        '+' => Some('+'),
        '»' => Some('/'),
        '¿' => Some('='),
        _ => None,
    }
}

/// The character that stands for a base64 symbol, in the later revision if
/// `newer` is set.
pub open spec fn substitute_in(newer: bool, ch: char) -> Option<char> {
    if newer && ch == 'x' {
        Some(NEW_X)
    } else {
        base64r_substitute(ch)
    }
}

/// The base64 symbol that a character stands for, in the later revision if
/// `newer` is set. The later revision still reads what the first one wrote.
pub open spec fn restore_in(newer: bool, ch: char) -> Option<char> {
    if newer && ch == NEW_X {
        Some('x')
    } else {
        base64r_restore(ch)
    }
}

/// What is written for the symbol `ch`; a character that is no symbol
/// stays as it is.
pub open spec fn substituted(newer: bool, ch: char) -> char {
    match substitute_in(newer, ch) {
        Some(s) => s,
        None => ch,
    }
}

/// The symbol that `ch` is read as; a character that stands for none
/// stays as it is.
pub open spec fn restored(newer: bool, ch: char) -> char {
    match restore_in(newer, ch) {
        Some(s) => s,
        None => ch,
    }
}

/// The base64r text of `bytes`: their standard base64 text, symbol by symbol
/// substituted.
pub open spec fn base64r_encoded(newer: bool, bytes: Seq<u8>) -> Seq<char> {
    base64_text(STANDARD_ALPHABET@, bytes).map_values(|ch: char| substituted(newer, ch))
}

/// Whether every character of `text` stands for a base64 symbol.
pub open spec fn base64r_readable(newer: bool, text: Seq<char>) -> bool {
    forall|i: int| 0 <= i < text.len() ==> restore_in(newer, #[trigger] text[i]) is Some
}

/// The bytes that a base64r `text` stands for: those of the standard base64
/// text that it restores to, if every character can be restored.
pub open spec fn base64r_decoded(newer: bool, text: Seq<char>) -> Option<Seq<u8>> {
    if base64r_readable(newer, text) {
        base64_bytes(STANDARD_ALPHABET@, text.map_values(|ch: char| restored(newer, ch)))
    } else {
        None
    }
}

/// Reading what was written for a symbol gives the symbol back.
pub proof fn lemma_restore_substitute(newer: bool, ch: char)
    requires
        substitute_in(newer, ch) is Some,
    ensures
        restore_in(newer, substitute_in(newer, ch)->Some_0) == Some(ch),
{
}

/// In the first revision, writing what a character was read as gives the
/// character back: the substitution is one-to-one.
pub proof fn lemma_substitute_restore(ch: char)
    requires
        base64r_restore(ch) is Some,
    ensures
        base64r_substitute(base64r_restore(ch)->Some_0) == Some(ch),
{
}

/// Every symbol of padded standard base64 has a substitute.
pub proof fn lemma_symbols_have_substitutes(newer: bool, ch: char)
    requires
        is_base64_symbol(STANDARD_ALPHABET@, ch),
    ensures
        substitute_in(newer, ch) is Some,
{
    reveal_strlit("ABCDEFGHIJKLMNOPQRSTUVWXYZabcdefghijklmnopqrstuvwxyz0123456789+/");
    if ch != '=' {
        let i = choose|i: int| 0 <= i < STANDARD_ALPHABET@.len() && STANDARD_ALPHABET@[i] == ch;
        assert(STANDARD_ALPHABET@[i] == ch);
    }
}

/// The substitute of a base64 symbol, `None` for any other character.
pub fn substitute(newer: bool, ch: char) -> (substitute: Option<char>)
    ensures
        substitute == substitute_in(newer, ch),
{
    if newer && ch == 'x' {
        return Some(NEW_X);
    }
    match ch {
        'A' => Some('!'),
        'B' => Some('"'),
        'C' => Some('#'),
        'D' => Some('$'),
        'E' => Some('%'),
        'F' => Some('¼'),
        'G' => Some('\''),
        'H' => Some('('),
        'I' => Some(')'),
        'J' => Some(','),
        'K' => Some('-'),
        'L' => Some('.'),
        'M' => Some(':'),
        'N' => Some(';'),
        'O' => Some('<'),
        'P' => Some('='),
        'Q' => Some('>'),
        'R' => Some('?'),
        'S' => Some('@'),
        'T' => Some('['),
        'U' => Some('\\'),
        'V' => Some(']'),
        'W' => Some('^'),
        'X' => Some('_'),
        'Y' => Some('`'),
        'Z' => Some('{'),
        'a' => Some('|'),
        'b' => Some('}'),
        'c' => Some('~'),
        'd' => Some('¡'),
        'e' => Some('¢'),
        'f' => Some('£'),
        'g' => Some('¤'),
        'h' => Some('¥'),
        'i' => Some('¦'),
        'j' => Some('¨'),
        'k' => Some('©'),
        'l' => Some('ª'),
        'm' => Some('«'),
        'n' => Some('¬'),
        'o' => Some('®'),
        'p' => Some('¯'),
        'q' => Some('°'),
        'r' => Some('±'),
        's' => Some('²'),
        't' => Some('³'),
        'u' => Some('µ'),
        'v' => Some('¶'),
        'w' => Some('·'),
        'x' => Some('¸'),
        'y' => Some('¹'),
        'z' => Some('º'),
        '0' => Some('0'),
        '1' => Some('1'),
        '2' => Some('2'),
        '3' => Some('3'),
        '4' => Some('4'),
        '5' => Some('5'),
        '6' => Some('6'),
        '7' => Some('7'),
        '8' => Some('8'),
        '9' => Some('9'),
        '+' => Some('+'),
        '/' => Some('»'),
        '=' => Some('¿'),
        _ => None,
    }
}

/// The base64 symbol that `ch` stands for, `None` if it stands for none.
pub fn restore(newer: bool, ch: char) -> (symbol: Option<char>)
    ensures
        symbol == restore_in(newer, ch),
{
    if newer && ch == NEW_X {
        return Some('x');
    }
    match ch {
        '!' => Some('A'),
        '"' => Some('B'),
        '#' => Some('C'),
        '$' => Some('D'),
        '%' => Some('E'),
        '¼' => Some('F'),
        '\'' => Some('G'),
        '(' => Some('H'),
        ')' => Some('I'),
        ',' => Some('J'),
        '-' => Some('K'),
        '.' => Some('L'),
        ':' => Some('M'),
        ';' => Some('N'),
        '<' => Some('O'),
        '=' => Some('P'),
        '>' => Some('Q'),
        '?' => Some('R'),
        '@' => Some('S'),
        '[' => Some('T'),
        '\\' => Some('U'),
        ']' => Some('V'),
        '^' => Some('W'),
        '_' => Some('X'),
        '`' => Some('Y'),
        '{' => Some('Z'),
        '|' => Some('a'),
        '}' => Some('b'),
        '~' => Some('c'),
        '¡' => Some('d'),
        '¢' => Some('e'),
        '£' => Some('f'),
        '¤' => Some('g'),
        '¥' => Some('h'),
        '¦' => Some('i'),
        '¨' => Some('j'),
        '©' => Some('k'),
        'ª' => Some('l'),
        '«' => Some('m'),
        '¬' => Some('n'),
        '®' => Some('o'),
        '¯' => Some('p'),
        '°' => Some('q'),
        '±' => Some('r'),
        '²' => Some('s'),
        '³' => Some('t'),
        'µ' => Some('u'),
        '¶' => Some('v'),
        '·' => Some('w'),
        '¸' => Some('x'),
        '¹' => Some('y'),
        'º' => Some('z'),
        '0' => Some('0'),
        '1' => Some('1'),
        '2' => Some('2'),
        '3' => Some('3'),
        '4' => Some('4'),
        '5' => Some('5'),
        '6' => Some('6'),
        '7' => Some('7'),
        '8' => Some('8'),
        '9' => Some('9'),
        '+' => Some('+'),
        '»' => Some('/'),
        '¿' => Some('='),
        _ => None,
    }
}

/// Writes `bytes` as base64r, in the later revision if `newer` is set.
pub fn base64r_encode(newer: bool, bytes: &[u8]) -> (text: String)
    ensures
        text@ == base64r_encoded(newer, bytes@),
        base64r_decoded(newer, text@) == Some(bytes@),
{
    proof {
        lemma_standard_alphabet();
    }
    let encoded = base64_encode(STANDARD_ALPHABET, bytes);
    let mut output = String::new();
    let mut chars = encoded.as_str().chars();
    loop
        invariant
            output@.len() <= encoded@.len(),
            chars.remaining() == encoded@.skip(output@.len() as int),
            output@ == encoded@.take(output@.len() as int).map_values(
                |ch: char| substituted(newer, ch),
            ),
            forall|i: int|
                0 <= i < encoded@.len() ==> is_base64_symbol(
                    STANDARD_ALPHABET@,
                    #[trigger] encoded@[i],
                ),
        ensures
            output@.len() == encoded@.len(),
        decreases encoded@.len() - output@.len(),
    {
        let ghost done = output@.len() as int;
        match chars.next() {
            None => {
                break ;
            },
            Some(ch) => {
                proof {
                    assert(ch == encoded@[done]);
                    lemma_symbols_have_substitutes(newer, ch);
                }
                if let Some(new_ch) = substitute(newer, ch) {
                    output.push(new_ch);
                }
                assert(output@ =~= encoded@.take(done + 1).map_values(
                    |ch: char| substituted(newer, ch),
                ));
            },
        }
    }
    proof {
        assert(encoded@.take(encoded@.len() as int) =~= encoded@);
        assert forall|i: int| 0 <= i < output@.len() implies restore_in(
            newer,
            #[trigger] output@[i],
        ) == Some(encoded@[i]) by {
            lemma_symbols_have_substitutes(newer, encoded@[i]);
            lemma_restore_substitute(newer, encoded@[i]);
        }
        assert(output@.map_values(|ch: char| restored(newer, ch)) =~= encoded@);
    }
    output
}

/// Reads `text` as base64r, in the later revision if `newer` is set, or
/// fails with `DecodeError`.
pub fn base64r_decode(newer: bool, text: &str) -> (bytes: Result<Vec<u8>, NcrError>)
    ensures
        match bytes {
            Ok(b) => base64r_decoded(newer, text@) == Some(b@),
            Err(e) => base64r_decoded(newer, text@) is None && e == NcrError::DecodeError,
        },
{
    let mut output = String::new();
    let mut chars = text.chars();
    loop
        invariant
            output@.len() <= text@.len(),
            chars.remaining() == text@.skip(output@.len() as int),
            base64r_readable(newer, text@.take(output@.len() as int)),
            output@ == text@.take(output@.len() as int).map_values(
                |ch: char| restored(newer, ch),
            ),
        ensures
            output@.len() == text@.len(),
            base64r_readable(newer, text@),
            output@ == text@.map_values(|ch: char| restored(newer, ch)),
        decreases text@.len() - output@.len(),
    {
        let ghost done = output@.len() as int;
        match chars.next() {
            None => {
                assert(text@.take(done) =~= text@);
                break ;
            },
            Some(ch) => {
                assert(ch == text@[done]);
                match restore(newer, ch) {
                    None => {
                        return Err(NcrError::DecodeError);
                    },
                    Some(symbol) => {
                        output.push(symbol);
                    },
                }
                assert(output@ =~= text@.take(done + 1).map_values(
                    |ch: char| restored(newer, ch),
                ));
            },
        }
    }
    proof {
        lemma_standard_alphabet();
    }
    match base64_decode(STANDARD_ALPHABET, output.as_str()) {
        Ok(bytes) => Ok(bytes),
        Err(_) => Err(NcrError::DecodeError),
    }
}

impl Encoding for Base64rEncoding {
    open spec fn encoded(bytes: Seq<u8>) -> Seq<char> {
        base64r_encoded(false, bytes)
    }

    open spec fn decoded(text: Seq<char>) -> Option<Seq<u8>> {
        base64r_decoded(false, text)
    }

    fn encode(text: &[u8]) -> (encoded: String) {
        base64r_encode(false, text)
    }

    fn decode(text: &str) -> (decoded: Result<Vec<u8>, NcrError>) {
        base64r_decode(false, text)
    }
}

impl Encoding for NewBase64rEncoding {
    open spec fn encoded(bytes: Seq<u8>) -> Seq<char> {
        base64r_encoded(true, bytes)
    }

    open spec fn decoded(text: Seq<char>) -> Option<Seq<u8>> {
        base64r_decoded(true, text)
    }

    fn encode(text: &[u8]) -> (encoded: String) {
        base64r_encode(true, text)
    }

    fn decode(text: &str) -> (decoded: Result<Vec<u8>, NcrError>) {
        base64r_decode(true, text)
    }
}

} // verus!
