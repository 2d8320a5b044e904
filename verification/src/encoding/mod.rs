//! Encodings that write arbitrary bytes as printable text and read them back.

use vstd::prelude::*;
use crate::NcrError;

pub mod base64;
pub mod base64r;
pub mod sus16;

pub use self::base64::Base64Encoding;
pub use base64r::{Base64rEncoding, NewBase64rEncoding};
pub use sus16::Sus16Encoding;

verus! {

/// A reversible mapping between bytes and text.
pub trait Encoding {
    /// The text that stands for `bytes`.
    spec fn encoded(bytes: Seq<u8>) -> Seq<char>;

    /// The bytes that `text` stands for, or `None` where `text` is not
    /// well-formed.
    spec fn decoded(text: Seq<char>) -> Option<Seq<u8>>;

    /// Writes `text` in this encoding. What comes out decodes to `text`.
    fn encode(text: &[u8]) -> (encoded: String)
        ensures
            encoded@ == Self::encoded(text@),
            Self::decoded(encoded@) == Some(text@),
    ;

    /// Reads `text` in this encoding, or fails with `DecodeError` where it
    /// is not well-formed.
    fn decode(text: &str) -> (decoded: Result<Vec<u8>, NcrError>)
        ensures
            match decoded {
                Ok(bytes) => Self::decoded(text@) == Some(bytes@),
                Err(e) => Self::decoded(text@) is None && e == NcrError::DecodeError,
            },
    ;
}

} // verus!
