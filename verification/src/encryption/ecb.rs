//! AES-128 in electronic codebook mode with PKCS#7 padding.

use std::convert::Infallible;
use std::marker::PhantomData;
use cipher::block_padding::{Pkcs7, UnpadError};
use cipher::{BlockDecryptMut, BlockEncryptMut, KeyInit};
use vstd::prelude::*;
use vstd::utf8::encode_utf8;
use super::{text_from_bytes, text_of, Encryption};
use crate::encoding::Encoding;
use crate::{AesKey, NcrError};

verus! {

broadcast use {
    vstd::string::group_string_axioms,
    vstd::utf8::encode_utf8_valid_utf8,
    vstd::utf8::encode_utf8_decode_utf8,
};

#[verifier::external_type_specification]
#[verifier::external_body]
pub struct ExUnpadError(UnpadError);

/// The blocks that AES-128 in ECB mode encrypts the padded `plaintext` to
/// under `key`.
pub uninterp spec fn aes128_ecb_encrypted(key: Seq<u8>, plaintext: Seq<u8>) -> Seq<u8>;

/// The bytes that the blocks of `ciphertext` decrypt to under `key` once
/// the padding is taken off, or `None` where `ciphertext` is not made of
/// whole blocks or the padding is malformed.
pub uninterp spec fn aes128_ecb_decrypted(key: Seq<u8>, ciphertext: Seq<u8>) -> Option<Seq<u8>>;

/// Calls `BlockEncryptMut::encrypt_padded_vec_mut` with `Pkcs7` padding on
/// an `Aes128Enc` made from `key`.
///
/// Taken on trust: the result is a function of key and plaintext; it is
/// the plaintext's length rounded up to the next whole number of 16-byte
/// blocks, a full block of padding where the plaintext already ends on a
/// block; and decrypting it under the same key gives the plaintext back.
/// The size computation in the crate cannot overflow, since no slice is
/// longer than `isize::MAX`.
#[verifier::external_body]
fn aes128_ecb_encrypt(key: &[u8; 16], plaintext: &[u8]) -> (ciphertext: Vec<u8>)
    ensures
        ciphertext@ == aes128_ecb_encrypted(key@, plaintext@),
        ciphertext@.len() == (plaintext@.len() / 16 + 1) * 16,
        aes128_ecb_decrypted(key@, ciphertext@) == Some(plaintext@),
{
    let cipher = aes::Aes128Enc::new(key.into());
    cipher.encrypt_padded_vec_mut::<Pkcs7>(plaintext)
}

/// Calls `BlockDecryptMut::decrypt_padded_vec_mut` with `Pkcs7` padding on
/// an `Aes128Dec` made from `key`.
///
/// Taken on trust: whether the call succeeds, and with which bytes, is a
/// function of key and ciphertext; it succeeds only on whole 16-byte
/// blocks, at least one, and then takes between 1 and 16 bytes of padding
/// off.
#[verifier::external_body]
fn aes128_ecb_decrypt(key: &[u8; 16], ciphertext: &[u8]) -> (plaintext: Result<Vec<u8>, UnpadError>)
    ensures
        match plaintext {
            Ok(p) => {
                &&& aes128_ecb_decrypted(key@, ciphertext@) == Some(p@)
                &&& ciphertext@.len() % 16 == 0
                &&& p@.len() < ciphertext@.len() <= p@.len() + 16
            },
            Err(_) => aes128_ecb_decrypted(key@, ciphertext@) is None,
        },
{
    let cipher = aes::Aes128Dec::new(key.into());
    cipher.decrypt_padded_vec_mut::<Pkcs7>(ciphertext)
}

/// The text that a payload holds, or `DecryptError` where the payload is
/// not made of whole blocks, the padding is malformed, or what is left is
/// not UTF-8.
pub open spec fn ecb_opened(payload: Seq<u8>, key: Seq<u8>) -> Result<Seq<char>, NcrError> {
    match aes128_ecb_decrypted(key, payload) {
        Some(bytes) => text_of(bytes),
        None => Err(NcrError::DecryptError),
    }
}

/// AES-128 in ECB mode, written as text by the encoding `E`.
#[derive(Debug)]
pub struct EcbEncryption<E: Encoding>(PhantomData<E>);

impl<E: Encoding> EcbEncryption<E> {
    /// The payload for `plaintext`. Opening it under the same key gives the
    /// text that `plaintext` spells.
    pub fn raw_encrypt(plaintext: &[u8], key: &AesKey) -> (payload: Vec<u8>)
        ensures
            payload@ == aes128_ecb_encrypted(key@, plaintext@),
            payload@.len() == (plaintext@.len() / 16 + 1) * 16,
            ecb_opened(payload@, key@) == text_of(plaintext@),
    {
        aes128_ecb_encrypt(key.as_bytes(), plaintext)
    }

    /// The text that a payload holds. There is none in a payload that is
    /// empty or not made of whole 16-byte blocks; where there is one, it
    /// takes between 1 and 16 bytes less than the payload.
    pub fn raw_decrypt(ciphertext: Vec<u8>, key: &AesKey) -> (plaintext: Result<String, NcrError>)
        ensures
            match plaintext {
                Ok(p) => {
                    &&& ecb_opened(ciphertext@, key@) == Ok::<Seq<char>, NcrError>(p@)
                    &&& ciphertext@.len() % 16 == 0
                    &&& encode_utf8(p@).len() < ciphertext@.len() <= encode_utf8(p@).len() + 16
                },
                Err(e) => ecb_opened(ciphertext@, key@) == Err::<Seq<char>, NcrError>(e),
            },
            ciphertext@.len() == 0 || ciphertext@.len() % 16 != 0 ==> plaintext == Err::<
                String,
                NcrError,
            >(NcrError::DecryptError),
    {
        match aes128_ecb_decrypt(key.as_bytes(), ciphertext.as_slice()) {
            Ok(output) => text_from_bytes(output),
            Err(_) => Err(NcrError::DecryptError),
        }
    }
}

impl<E: Encoding> Encryption for EcbEncryption<E> {
    type KeyType = AesKey;

    type EncryptError = Infallible;

    type DecryptError = NcrError;

    open spec fn fits(plaintext: Seq<char>) -> bool {
        true
    }

    open spec fn encrypts_to(
        plaintext: Seq<char>,
        key: AesKey,
        outcome: Result<Seq<char>, Infallible>,
    ) -> bool {
        outcome == Ok::<Seq<char>, Infallible>(
            E::encoded(aes128_ecb_encrypted(key@, encode_utf8(plaintext))),
        )
    }

    open spec fn decrypted(ciphertext: Seq<char>, key: AesKey) -> Result<Seq<char>, NcrError> {
        match E::decoded(ciphertext) {
            Some(payload) => ecb_opened(payload, key@),
            None => Err(NcrError::DecodeError),
        }
    }

    open spec fn reversible(plaintext: Seq<char>, key: AesKey) -> bool {
        true
    }

    fn encrypt(plaintext: &str, key: &AesKey) -> (ciphertext: Result<String, Infallible>) {
        let payload = Self::raw_encrypt(plaintext.as_bytes(), key);
        Ok(E::encode(payload.as_slice()))
    }

    fn decrypt(ciphertext: &str, key: &AesKey) -> (plaintext: Result<String, NcrError>) {
        match E::decode(ciphertext) {
            Ok(payload) => Self::raw_decrypt(payload, key),
            Err(e) => Err(e),
        }
    }
}

} // verus!
