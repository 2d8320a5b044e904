//! The 128-bit key of the AES schemes.

use vstd::prelude::*;
use crate::encoding::base64::{
    base64_bytes, base64_decode, base64_encode, base64_text, lemma_standard_alphabet,
    STANDARD_ALPHABET,
};
use crate::random::random_bytes;
use crate::NcrError;

verus! {

/// The salt that every passphrase is stretched with. Every installation
/// shares it, so that the same passphrase gives the same key everywhere.
pub const SALT: [u8; 16] = [
    0x2D, 0x48, 0x18, 0x49, 0x0B, 0x0C, 0x0A, 0x95, 0xFA, 0xA5, 0x44, 0x47, 0x01, 0xD9, 0x99, 0x77,
];

/// The number of PBKDF2 rounds that a passphrase is stretched with.
pub const ROUNDS: u32 = 65536;

/// The bytes that PBKDF2 with HMAC-SHA1 derives from a password: `len` of
/// them, after `rounds` rounds with `salt`.
pub uninterp spec fn pbkdf2_hmac_sha1(password: Seq<u8>, salt: Seq<u8>, rounds: u32, len: nat) -> Seq<u8>;

/// Calls `pbkdf2::pbkdf2` with `Hmac<Sha1>` as its pseudo-random function,
/// on a buffer of 16 bytes.
///
/// Taken on trust: the bytes are a function of the password, the salt, the
/// number of rounds and the length asked for. The call cannot fail, as HMAC
/// takes a key of any length.
#[verifier::external_body]
fn pbkdf2_hmac_sha1_128(password: &[u8], salt: &[u8], rounds: u32) -> (key: [u8; 16])
    ensures
        key@ == pbkdf2_hmac_sha1(password@, salt@, rounds, 16),
{
    let mut key = [0u8; 16];
    let _ = pbkdf2::pbkdf2::<hmac::Hmac<sha1::Sha1>>(password, salt, rounds, &mut key);
    key
}

/// A key for AES-128: sixteen bytes.
///
/// A key does not implement `Debug`, so that it cannot end up in a log by
/// accident; `key`, `as_bytes` and `encode_base64` give it out on request.
#[derive(Clone, PartialEq, Eq)]
pub struct AesKey([u8; 16]);

impl View for AesKey {
    type V = Seq<u8>;

    closed spec fn view(&self) -> Seq<u8> {
        self.0@
    }
}

/// The key that a base64 text spells, if it spells sixteen bytes.
pub open spec fn key_of_base64(text: Seq<char>) -> Option<Seq<u8>> {
    match base64_bytes(STANDARD_ALPHABET@, text) {
        Some(bytes) => if bytes.len() == 16 {
            Some(bytes)
        } else {
            None
        },
        None => None,
    }
}

impl AesKey {
    /// A key has sixteen bytes.
    pub proof fn lemma_len(self)
        ensures
            self@.len() == 16,
    {
    }

    /// The key made of the given bytes.
    pub closed spec fn of_bytes(bytes: [u8; 16]) -> AesKey {
        AesKey(bytes)
    }

    /// The key made of some bytes holds those bytes.
    pub broadcast proof fn lemma_of_bytes(bytes: [u8; 16])
        ensures
            (#[trigger] AesKey::of_bytes(bytes))@ == bytes@,
    {
    }

    /// Gives up the key for its sixteen bytes.
    pub fn key(self) -> (bytes: [u8; 16])
        ensures
            bytes@ == self@,
    {
        self.0
    }

    /// The sixteen bytes of the key.
    pub fn as_bytes(&self) -> (bytes: &[u8; 16])
        ensures
            bytes@ == self@,
    {
        &self.0
    }

    /// Draws a fresh key of sixteen bytes from the thread's random number
    /// generator.
    pub fn gen_random_key() -> (key: Self)
        ensures
            key@.len() == 16,
    {
        AesKey(random_bytes::<16>())
    }

    /// Stretches a passphrase into a key with PBKDF2 over HMAC-SHA1.
    pub fn gen_from_passphrase(passphrase: &[u8]) -> (key: Self)
        ensures
            key@ == pbkdf2_hmac_sha1(passphrase@, SALT@, ROUNDS, 16),
    {
        let salt = SALT;
        AesKey(pbkdf2_hmac_sha1_128(passphrase, salt.as_slice(), ROUNDS))
    }

    /// Writes the key as standard base64. Decoding the text gives the key
    /// back.
    pub fn encode_base64(&self) -> (text: String)
        ensures
            text@ == base64_text(STANDARD_ALPHABET@, self@),
            key_of_base64(text@) == Some(self@),
    {
        proof {
            lemma_standard_alphabet();
        }
        base64_encode(STANDARD_ALPHABET, self.0.as_slice())
    }

    /// Reads a key from standard base64, or fails with `DecodeError` where
    /// the text is not base64 or does not spell sixteen bytes.
    pub fn decode_base64(value: &String) -> (key: Result<Self, NcrError>)
        ensures
            match key {
                Ok(k) => key_of_base64(value@) == Some(k@),
                Err(e) => key_of_base64(value@) is None && e == NcrError::DecodeError,
            },
    {
        proof {
            lemma_standard_alphabet();
        }
        match base64_decode(STANDARD_ALPHABET, value.as_str()) {
            Ok(bytes) => {
                if bytes.len() != 16 {
                    return Err(NcrError::DecodeError);
                }
                let mut key = [0u8; 16];
                let mut i: usize = 0;
                while i < 16
                    invariant
                        i <= 16,
                        bytes@.len() == 16,
                        forall|j: int| 0 <= j < i ==> key@[j] == bytes@[j],
                    decreases 16 - i,
                {
                    key[i] = bytes[i];
                    i = i + 1;
                }
                assert(key@ =~= bytes@);
                Ok(AesKey(key))
            },
            Err(_) => Err(NcrError::DecodeError),
        }
    }
}

impl From<[u8; 16]> for AesKey {
    fn from(value: [u8; 16]) -> (key: Self)
        ensures
            key@ == value@,
    {
        AesKey(value)
    }
}

impl vstd::std_specs::convert::FromSpecImpl<[u8; 16]> for AesKey {
    open spec fn obeys_from_spec() -> bool {
        true
    }

    open spec fn from_spec(value: [u8; 16]) -> Self {
        AesKey::of_bytes(value)
    }
}

impl AsRef<[u8; 16]> for AesKey {
    fn as_ref(&self) -> (bytes: &[u8; 16])
        ensures
            bytes@ == self@,
    {
        &self.0
    }
}

} // verus!
