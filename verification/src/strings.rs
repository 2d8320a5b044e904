//! Contracts for the few standard-library string functions that the
//! library calls and that `vstd` leaves without one.

use vstd::prelude::*;
use vstd::utf8::{decode_utf8, is_scalar, valid_utf8};

verus! {

#[verifier::external_type_specification]
#[verifier::external_body]
pub struct ExFromUtf8Error(std::string::FromUtf8Error);

/// `String::push` appends one character to the string.
pub assume_specification[ String::push ](s: &mut String, ch: char)
    ensures
        final(s)@ == old(s)@.push(ch),
;

/// `String::from_utf8` succeeds exactly on well-formed UTF-8, and then
/// gives the text that the bytes spell.
pub assume_specification[ String::from_utf8 ](bytes: Vec<u8>) -> (text: Result<
    String,
    std::string::FromUtf8Error,
>)
    ensures
        match text {
            Ok(s) => valid_utf8(bytes@) && s@ == decode_utf8(bytes@),
            Err(_) => !valid_utf8(bytes@),
        },
;

/// `char::from_u32` gives the character with the given scalar value, and
/// `None` exactly where the number is no Unicode scalar value.
pub assume_specification[ char::from_u32 ](value: u32) -> (ch: Option<char>)
    ensures
        match ch {
            Some(c) => is_scalar(value) && c as u32 == value,
            None => !is_scalar(value),
        },
;

} // verus!
