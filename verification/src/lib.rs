//! Chat encryption in the style of the No Chat Reports mod.
//!
//! A message is framed with a two-character marker, encrypted with one of
//! four schemes (Caesar, AES/ECB, AES/CFB8, AES/GCM) and then written as
//! printable text by one of the encodings (Base64, Base64r, Sus16).
//!
//! # Encrypting
//!
//! ```
//! use ncr::encoding::Base64rEncoding;
//! use ncr::encryption::{Cfb8Encryption, Encryption};
//! use ncr::utils::prepend_header;
//! use ncr::AesKey;
//!
//! let key = AesKey::gen_from_passphrase(b"secret");
//! let plaintext = prepend_header("I love Minecraft!");
//! let ciphertext = Cfb8Encryption::<Base64rEncoding>::encrypt(&plaintext, &key).unwrap();
//! println!("{}", ciphertext);
//! ```
//!
//! # Decrypting
//!
//! ```
//! use ncr::encoding::Base64rEncoding;
//! use ncr::encryption::{Cfb8Encryption, Encryption};
//! use ncr::utils::trim_header;
//! use ncr::AesKey;
//!
//! let key = AesKey::gen_from_passphrase(b"secret");
//! let ciphertext = "%[2_0\u{bb}\u{b3}\"!7).\u{ab}?;!.$\u{a5}`\u{b6}:8~667\u{aa}\u{b8}[\u{ac})\u{a2}+\u{a4}^";
//! let plaintext = Cfb8Encryption::<Base64rEncoding>::decrypt(ciphertext, &key).unwrap();
//! assert_eq!(trim_header(&plaintext), Ok("I love Minecraft!"));
//! ```
//!
//! # What is proved and what is taken on trust
//!
//! Every function of the crate is verified against its contract. The AES
//! modes, PBKDF2, base64 and the random number generator come from other
//! crates; the few functions that call them state what is assumed of each
//! call, and everything else is proved from those statements.

use vstd::prelude::*;

mod aes_key;
pub mod encoding;
pub mod encryption;
mod random;
pub mod strings;
pub mod utils;

pub use aes_key::{key_of_base64, pbkdf2_hmac_sha1, AesKey, ROUNDS, SALT};

verus! {

/// Everything that can go wrong in this crate.
#[derive(Debug, Clone, Copy, PartialEq, Eq, Structural)]
pub enum NcrError {
    /// The plaintext cannot be represented in the ciphertext alphabet.
    EncryptError,
    /// The ciphertext is malformed, forged, or does not hold text.
    DecryptError,
    /// The text is not a well-formed encoding.
    DecodeError,
    /// The framing marker is missing.
    HeaderError,
}

impl NcrError {
    /// The message for each kind of error, as a sequence of characters.
    pub open spec fn message_text(self) -> Seq<char> {
        match self {
            NcrError::EncryptError => "Encrypt error"@,
            NcrError::DecryptError => "Decrypt error"@,
            NcrError::DecodeError => "Decode error"@,
            NcrError::HeaderError => "Header error"@,
        }
    }

    /// A short human-readable description of the error.
    pub fn message(&self) -> (text: &'static str)
        ensures
            text@ == self.message_text(),
    {
        match self {
            NcrError::EncryptError => "Encrypt error",
            NcrError::DecryptError => "Decrypt error",
            NcrError::DecodeError => "Decode error",
            NcrError::HeaderError => "Header error",
        }
    }
}

} // verus!
