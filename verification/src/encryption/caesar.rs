//! The Caesar cipher over Unicode scalar values.

use vstd::prelude::*;
use vstd::std_specs::iter::IteratorSpec;
use vstd::utf8::{char_is_scalar, char_u32_cast};
use super::Encryption;
use crate::NcrError;

verus! {

broadcast use vstd::string::group_string_axioms;

/// The Caesar cipher: every character moves up by the key.
///
/// It hides nothing from anyone who looks, and is there for the sake of
/// messages that ask for no more.
#[derive(Debug)]
pub struct CaesarEncryption;

/// The section sign, which starts a formatting code in chat.
pub const PARAGRAPH: char = '\u{00a7}';

/// What is written in place of a section sign.
pub const PARAGRAPH_PLACEHOLDER: char = '\u{ffef}';

/// The delete control character.
pub const DELETE: char = '\u{007f}';

/// What is written in place of a delete character.
pub const DELETE_PLACEHOLDER: char = '\u{fff0}';

/// Whether `value` is a Unicode scalar value.
pub open spec fn is_scalar_value(value: int) -> bool {
    0 <= value <= 0xD7FF || 0xE000 <= value <= 0x10FFFF
}

/// A character as it is written: the two that chat cannot carry give way
/// to their placeholders.
pub open spec fn masked(ch: char) -> char {
    if ch == PARAGRAPH {
        PARAGRAPH_PLACEHOLDER
    } else if ch == DELETE {
        DELETE_PLACEHOLDER
    } else {
        ch
    }
}

/// A character as it is read: the placeholders give way to what they stand
/// for.
pub open spec fn unmasked(ch: char) -> char {
    if ch == PARAGRAPH_PLACEHOLDER {
        PARAGRAPH
    } else if ch == DELETE_PLACEHOLDER {
        DELETE
    } else {
        ch
    }
}

/// The character that is written for `ch` under `key`, if `ch` moved up by
/// `key` is a character at all.
pub open spec fn shifted(ch: char, key: u32) -> Option<char> {
    if is_scalar_value(ch as u32 + key) {
        Some(masked((ch as u32 + key) as char))
    } else {
        None
    }
}

/// The character that `ch` is read as under `key`, if `ch` moved down by
/// `key` is a character at all.
pub open spec fn unshifted(ch: char, key: u32) -> Option<char> {
    if is_scalar_value(unmasked(ch) as u32 - key) {
        Some((unmasked(ch) as u32 - key) as char)
    } else {
        None
    }
}

/// The ciphertext of `plaintext` under `key`, or `EncryptError` where some
/// character cannot be moved up.
pub open spec fn caesar_encrypted(plaintext: Seq<char>, key: u32) -> Result<Seq<char>, NcrError> {
    if forall|i: int| 0 <= i < plaintext.len() ==> shifted(#[trigger] plaintext[i], key) is Some {
        Ok(plaintext.map_values(|ch: char| shifted(ch, key)->Some_0))
    } else {
        Err(NcrError::EncryptError)
    }
}

/// The plaintext of `ciphertext` under `key`, or `DecryptError` where some
/// character cannot be moved down.
pub open spec fn caesar_decrypted(ciphertext: Seq<char>, key: u32) -> Result<Seq<char>, NcrError> {
    if forall|i: int|
        0 <= i < ciphertext.len() ==> unshifted(#[trigger] ciphertext[i], key) is Some {
        Ok(ciphertext.map_values(|ch: char| unshifted(ch, key)->Some_0))
    } else {
        Err(NcrError::DecryptError)
    }
}

/// Whether `ch` moved up by `key` is a character, and not one of the two
/// placeholders: a placeholder in the ciphertext is read as what it stands
/// for.
pub open spec fn lands_clear(ch: char, key: u32) -> bool {
    &&& is_scalar_value(ch as u32 + key)
    &&& ch as u32 + key != PARAGRAPH_PLACEHOLDER as u32
    &&& ch as u32 + key != DELETE_PLACEHOLDER as u32
}

/// Whether every character of `plaintext` lands clear under `key`.
pub open spec fn caesar_reversible(plaintext: Seq<char>, key: u32) -> bool {
    forall|i: int| 0 <= i < plaintext.len() ==> lands_clear(#[trigger] plaintext[i], key)
}

/// A character that lands clear is read back as itself.
pub proof fn lemma_unshift_shifted(ch: char, key: u32)
    requires
        lands_clear(ch, key),
    ensures
        shifted(ch, key) is Some,
        unshifted(shifted(ch, key)->Some_0, key) == Some(ch),
{
    let moved = (ch as u32 + key) as char;
    assert(moved as u32 == ch as u32 + key);
    assert(unmasked(masked(moved)) == moved);
}

/// A character that the key moves onto the section sign or the delete
/// character is written as the placeholder, and read back as itself.
pub proof fn lemma_reserved_survive(ch: char, key: u32)
    requires
        ch as u32 + key == PARAGRAPH as u32 || ch as u32 + key == DELETE as u32,
    ensures
        shifted(ch, key) == Some(
            if ch as u32 + key == PARAGRAPH as u32 {
                PARAGRAPH_PLACEHOLDER
            } else {
                DELETE_PLACEHOLDER
            },
        ),
        unshifted(shifted(ch, key)->Some_0, key) == Some(ch),
{
    lemma_unshift_shifted(ch, key);
}

/// Decrypting what was encrypted under the same key gives the plaintext
/// back, for every plaintext that is reversible under the key.
pub proof fn lemma_caesar_round_trip(plaintext: Seq<char>, key: u32)
    requires
        caesar_reversible(plaintext, key),
    ensures
        caesar_encrypted(plaintext, key) is Ok,
        caesar_decrypted(caesar_encrypted(plaintext, key)->Ok_0, key) == Ok::<
            Seq<char>,
            NcrError,
        >(plaintext),
{
    assert forall|i: int| 0 <= i < plaintext.len() implies shifted(
        #[trigger] plaintext[i],
        key,
    ) is Some by {
        lemma_unshift_shifted(plaintext[i], key);
    }
    let ciphertext = caesar_encrypted(plaintext, key)->Ok_0;
    assert forall|i: int| 0 <= i < ciphertext.len() implies unshifted(
        #[trigger] ciphertext[i],
        key,
    ) == Some(plaintext[i]) by {
        lemma_unshift_shifted(plaintext[i], key);
    }
    assert(caesar_decrypted(ciphertext, key)->Ok_0 =~= plaintext);
}

impl Encryption for CaesarEncryption {
    type KeyType = u32;

    type EncryptError = NcrError;

    type DecryptError = NcrError;

    open spec fn fits(plaintext: Seq<char>) -> bool {
        true
    }

    open spec fn encrypts_to(plaintext: Seq<char>, key: u32, outcome: Result<Seq<char>, NcrError>) -> bool {
        outcome == caesar_encrypted(plaintext, key)
    }

    open spec fn decrypted(ciphertext: Seq<char>, key: u32) -> Result<Seq<char>, NcrError> {
        caesar_decrypted(ciphertext, key)
    }

    open spec fn reversible(plaintext: Seq<char>, key: u32) -> bool {
        caesar_reversible(plaintext, key)
    }

    fn encrypt(plaintext: &str, key: &u32) -> (ciphertext: Result<String, NcrError>) {
        let mut output = String::new();
        let mut chars = plaintext.chars();
        loop
            invariant
                output@.len() <= plaintext@.len(),
                chars.remaining() == plaintext@.skip(output@.len() as int),
                forall|i: int|
                    0 <= i < output@.len() ==> shifted(#[trigger] plaintext@[i], *key) == Some(
                        output@[i],
                    ),
            ensures
                output@.len() == plaintext@.len(),
                forall|i: int|
                    0 <= i < output@.len() ==> shifted(#[trigger] plaintext@[i], *key) == Some(
                        output@[i],
                    ),
            decreases plaintext@.len() - output@.len(),
        {
            let ghost done = output@.len() as int;
            let Some(ch) = chars.next() else {
                break ;
            };
            proof {
                assert(ch == plaintext@[done]);
                char_is_scalar(ch);
            }
            let Some(moved) = (ch as u32).checked_add(*key) else {
                return Err(NcrError::EncryptError);
            };
            let Some(mut new_ch) = char::from_u32(moved) else {
                return Err(NcrError::EncryptError);
            };
            proof {
                char_u32_cast(new_ch, moved);
            }
            if new_ch == PARAGRAPH {
                new_ch = PARAGRAPH_PLACEHOLDER;
            } else if new_ch == DELETE {
                new_ch = DELETE_PLACEHOLDER;
            }
            output.push(new_ch);
        }
        proof {
            assert(caesar_encrypted(plaintext@, *key)->Ok_0 =~= output@);
            if caesar_reversible(plaintext@, *key) {
                lemma_caesar_round_trip(plaintext@, *key);
            }
        }
        Ok(output)
    }

    fn decrypt(ciphertext: &str, key: &u32) -> (plaintext: Result<String, NcrError>) {
        let mut output = String::new();
        let mut chars = ciphertext.chars();
        loop
            invariant
                output@.len() <= ciphertext@.len(),
                chars.remaining() == ciphertext@.skip(output@.len() as int),
                forall|i: int|
                    0 <= i < output@.len() ==> unshifted(#[trigger] ciphertext@[i], *key) == Some(
                        output@[i],
                    ),
            ensures
                output@.len() == ciphertext@.len(),
                forall|i: int|
                    0 <= i < output@.len() ==> unshifted(#[trigger] ciphertext@[i], *key) == Some(
                        output@[i],
                    ),
            decreases ciphertext@.len() - output@.len(),
        {
            let ghost done = output@.len() as int;
            let Some(mut ch) = chars.next() else {
                break ;
            };
            assert(ch == ciphertext@[done]);
            if ch == PARAGRAPH_PLACEHOLDER {
                ch = PARAGRAPH;
            } else if ch == DELETE_PLACEHOLDER {
                ch = DELETE;
            }
            proof {
                char_is_scalar(ch);
            }
            let Some(moved) = (ch as u32).checked_sub(*key) else {
                return Err(NcrError::DecryptError);
            };
            let Some(new_ch) = char::from_u32(moved) else {
                return Err(NcrError::DecryptError);
            };
            proof {
                char_u32_cast(new_ch, moved);
            }
            output.push(new_ch);
        }
        proof {
            assert(caesar_decrypted(ciphertext@, *key)->Ok_0 =~= output@);
        }
        Ok(output)
    }
}

} // verus!
