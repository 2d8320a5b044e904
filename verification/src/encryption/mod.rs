//! The encryption schemes, each of them from text to text.

use vstd::prelude::*;
use vstd::utf8::{decode_utf8, decode_utf8_encode_utf8, encode_utf8, valid_utf8};
use crate::NcrError;

pub mod caesar;
pub mod cfb8;
pub mod ecb;
pub mod gcm;

pub use self::caesar::CaesarEncryption;
pub use self::cfb8::Cfb8Encryption;
pub use self::ecb::EcbEncryption;
pub use self::gcm::GcmEncryption;

verus! {

/// The text that decrypted bytes spell, or `DecryptError` where they are
/// not UTF-8.
pub open spec fn text_of(bytes: Seq<u8>) -> Result<Seq<char>, NcrError> {
    if valid_utf8(bytes) {
        Ok(decode_utf8(bytes))
    } else {
        Err(NcrError::DecryptError)
    }
}

/// Reads decrypted bytes as text: the text whose UTF-8 encoding they are,
/// or `DecryptError` where they are the encoding of none.
pub fn text_from_bytes(bytes: Vec<u8>) -> (text: Result<String, NcrError>)
    ensures
        match text {
            Ok(s) => text_of(bytes@) == Ok::<Seq<char>, NcrError>(s@) && encode_utf8(s@)
                == bytes@,
            Err(e) => text_of(bytes@) == Err::<Seq<char>, NcrError>(e),
        },
        bytes@.len() == 0 ==> text is Ok && text->Ok_0@.len() == 0,
{
    proof {
        if valid_utf8(bytes@) {
            decode_utf8_encode_utf8(bytes@);
        }
    }
    match String::from_utf8(bytes) {
        Ok(s) => Ok(s),
        Err(_) => Err(NcrError::DecryptError),
    }
}

/// An encryption scheme that takes text and gives text.
pub trait Encryption {
    /// What the scheme is keyed with.
    type KeyType;

    /// How encrypting can fail.
    type EncryptError;

    /// How decrypting can fail.
    type DecryptError;

    /// Whether `plaintext` is short enough for the scheme to take.
    spec fn fits(plaintext: Seq<char>) -> bool;

    /// Whether `outcome` is one of the results that encrypting `plaintext`
    /// under `key` may have. A scheme that draws a nonce has many.
    spec fn encrypts_to(
        plaintext: Seq<char>,
        key: Self::KeyType,
        outcome: Result<Seq<char>, Self::EncryptError>,
    ) -> bool;

    /// The result of decrypting `ciphertext` under `key`.
    spec fn decrypted(ciphertext: Seq<char>, key: Self::KeyType) -> Result<
        Seq<char>,
        Self::DecryptError,
    >;

    /// Whether `plaintext`, once encrypted under `key`, can be told apart
    /// from every other plaintext.
    spec fn reversible(plaintext: Seq<char>, key: Self::KeyType) -> bool;

    /// Encrypts `plaintext` under `key`. Where the plaintext is reversible,
    /// decrypting the result under the same key gives it back.
    fn encrypt(plaintext: &str, key: &Self::KeyType) -> (ciphertext: Result<
        String,
        Self::EncryptError,
    >)
        requires
            Self::fits(plaintext@),
        ensures
            match ciphertext {
                Ok(c) => {
                    &&& Self::encrypts_to(plaintext@, *key, Ok(c@))
                    &&& Self::reversible(plaintext@, *key) ==> Self::decrypted(c@, *key) == Ok::<
                        Seq<char>,
                        Self::DecryptError,
                    >(plaintext@)
                },
                Err(e) => Self::encrypts_to(plaintext@, *key, Err(e)),
            },
    ;

    /// Decrypts `ciphertext` under `key`.
    fn decrypt(ciphertext: &str, key: &Self::KeyType) -> (plaintext: Result<
        String,
        Self::DecryptError,
    >)
        ensures
            match plaintext {
                Ok(p) => Self::decrypted(ciphertext@, *key) == Ok::<Seq<char>, Self::DecryptError>(
                    p@,
                ),
                Err(e) => Self::decrypted(ciphertext@, *key) == Err::<Seq<char>, Self::DecryptError>(
                    e,
                ),
            },
    ;
}

/// Copies `N` bytes of `bytes`, from `start` on, into an array.
pub(crate) fn array_from<const N: usize>(bytes: &[u8], start: usize) -> (array: [u8; N])
    requires
        start + N <= bytes@.len(),
    ensures
        array@ == bytes@.subrange(start as int, start + N),
{
    let len = bytes.len();
    let mut array = [0u8; N];
    let mut i: usize = 0;
    while i < N
        invariant
            i <= N,
            start + N <= len == bytes@.len(),
            forall|j: int| 0 <= j < i ==> array@[j] == bytes@[start + j],
        decreases N - i,
    {
        array[i] = bytes[start + i];
        i = i + 1;
    }
    assert(array@ =~= bytes@.subrange(start as int, start + N));
    array
}

} // verus!
