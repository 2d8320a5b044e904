//! AES-128 in 8-bit cipher feedback mode, with an initialisation vector
//! that a linear congruential generator derives from a nonce.

use std::convert::Infallible;
use std::marker::PhantomData;
use cipher::{AsyncStreamCipher, KeyIvInit};
use vstd::prelude::*;
use vstd::utf8::encode_utf8;
use super::{array_from, text_from_bytes, text_of, Encryption};
use crate::encoding::Encoding;
use crate::random::random_bytes;
use crate::{AesKey, NcrError};

verus! {

broadcast use {
    vstd::string::group_string_axioms,
    vstd::utf8::encode_utf8_valid_utf8,
    vstd::utf8::encode_utf8_decode_utf8,
};

/// The multiplier of the generator.
pub const MULTIPLIER: u64 = 0x5DEECE66D;

/// The increment of the generator.
pub const INCREMENT: u64 = 11;

/// The mask that keeps the 48 bits of the generator's state.
pub const STATE_MASK: u64 = 0xFFFF_FFFF_FFFF;

/// The state that the generator starts from for a nonce.
pub open spec fn lcg_seed(nonce: u64) -> nat {
    ((nonce ^ MULTIPLIER) & STATE_MASK) as nat
}

/// The state that follows `state`.
pub open spec fn lcg_next(state: nat) -> nat {
    (state * MULTIPLIER as nat + INCREMENT as nat) % (STATE_MASK as nat + 1)
}

/// The state of the generator after `steps` steps.
pub open spec fn lcg_state(nonce: u64, steps: nat) -> nat
    decreases steps,
{
    if steps == 0 {
        lcg_seed(nonce)
    } else {
        lcg_next(lcg_state(nonce, (steps - 1) as nat))
    }
}

/// The `n`-th number drawn for a nonce, counting from one: the upper 32 of
/// the 48 bits of the state after `n` steps.
pub open spec fn lcg_draw(nonce: u64, n: nat) -> nat {
    lcg_state(nonce, n) / 0x1_0000
}

/// Byte `i` of a number, counting from the least significant.
pub open spec fn byte_of(value: nat, i: int) -> u8 {
    if i == 0 {
        (value % 0x100) as u8
    } else if i == 1 {
        (value / 0x100 % 0x100) as u8
    } else if i == 2 {
        (value / 0x1_0000 % 0x100) as u8
    } else {
        (value / 0x100_0000 % 0x100) as u8
    }
}

/// The initialisation vector for a nonce: the first four numbers drawn, each
/// with its least significant byte first.
pub open spec fn derived_iv(nonce: u64) -> Seq<u8> {
    Seq::new(16, |i: int| byte_of(lcg_draw(nonce, (i / 4 + 1) as nat), i % 4))
}

/// The number that the eight bytes of a nonce spell, the most significant
/// byte first.
pub open spec fn nonce_value(nonce: Seq<u8>) -> u64 {
    (nonce[0] as nat * 0x100_0000_0000_0000 + nonce[1] as nat * 0x1_0000_0000_0000 + nonce[2] as nat
        * 0x100_0000_0000 + nonce[3] as nat * 0x1_0000_0000 + nonce[4] as nat * 0x100_0000
        + nonce[5] as nat * 0x1_0000 + nonce[6] as nat * 0x100 + nonce[7] as nat) as u64
}

/// The bytes that AES-128 in CFB8 mode encrypts `plaintext` to, under `key`
/// and starting from `iv`.
pub uninterp spec fn aes128_cfb8_encrypted(key: Seq<u8>, iv: Seq<u8>, plaintext: Seq<u8>) -> Seq<u8>;

/// The bytes that AES-128 in CFB8 mode decrypts `ciphertext` to, under `key`
/// and starting from `iv`.
pub uninterp spec fn aes128_cfb8_decrypted(key: Seq<u8>, iv: Seq<u8>, ciphertext: Seq<u8>) -> Seq<u8>;

/// Calls `AsyncStreamCipher::encrypt` of `cfb8::Encryptor<Aes128>` on a
/// copy of `plaintext`.
///
/// Taken on trust: the result is a function of key, vector and plaintext,
/// it is as long as the plaintext, and decrypting it under the same key and
/// vector gives the plaintext back.
#[verifier::external_body]
fn aes128_cfb8_encrypt(key: &[u8; 16], iv: &[u8; 16], plaintext: &[u8]) -> (ciphertext: Vec<u8>)
    ensures
        ciphertext@ == aes128_cfb8_encrypted(key@, iv@, plaintext@),
        ciphertext@.len() == plaintext@.len(),
        aes128_cfb8_decrypted(key@, iv@, ciphertext@) == plaintext@,
{
    let mut buffer = plaintext.to_vec();
    cfb8::Encryptor::<aes::Aes128>::new(key.into(), iv.into()).encrypt(&mut buffer);
    buffer
}

/// Calls `AsyncStreamCipher::decrypt` of `cfb8::Decryptor<Aes128>` on a
/// copy of `ciphertext`.
///
/// Taken on trust: the result is a function of key, vector and ciphertext,
/// and it is as long as the ciphertext.
#[verifier::external_body]
fn aes128_cfb8_decrypt(key: &[u8; 16], iv: &[u8; 16], ciphertext: &[u8]) -> (plaintext: Vec<u8>)
    ensures
        plaintext@ == aes128_cfb8_decrypted(key@, iv@, ciphertext@),
        plaintext@.len() == ciphertext@.len(),
{
    let mut buffer = ciphertext.to_vec();
    cfb8::Decryptor::<aes::Aes128>::new(key.into(), iv.into()).decrypt(&mut buffer);
    buffer
}

/// What is sent for `plaintext`: the nonce, then the plaintext encrypted
/// from the vector that the nonce gives.
pub open spec fn cfb8_payload(plaintext: Seq<u8>, key: Seq<u8>, nonce: Seq<u8>) -> Seq<u8> {
    nonce + aes128_cfb8_encrypted(key, derived_iv(nonce_value(nonce)), plaintext)
}

/// The text that a payload holds, or `DecryptError` where it is too short
/// to hold a nonce or does not decrypt to UTF-8.
pub open spec fn cfb8_opened(payload: Seq<u8>, key: Seq<u8>) -> Result<Seq<char>, NcrError> {
    if payload.len() < 8 {
        Err(NcrError::DecryptError)
    } else {
        text_of(
            aes128_cfb8_decrypted(key, derived_iv(nonce_value(payload.take(8))), payload.skip(8)),
        )
    }
}

/// The number that eight bytes spell, the most significant byte first.
pub fn nonce_to_u64(nonce: &[u8; 8]) -> (value: u64)
    ensures
        value == nonce_value(nonce@),
{
    let mut value: u64 = nonce[0] as u64;
    value = value * 256 + nonce[1] as u64;
    value = value * 256 + nonce[2] as u64;
    value = value * 256 + nonce[3] as u64;
    value = value * 256 + nonce[4] as u64;
    value = value * 256 + nonce[5] as u64;
    value = value * 256 + nonce[6] as u64;
    value = value * 256 + nonce[7] as u64;
    value
}

/// Derives the initialisation vector from a nonce.
pub fn generate_iv(nonce: u64) -> (iv: [u8; 16])
    ensures
        iv@ == derived_iv(nonce),
{
    let mut iv = [0u8; 16];
    let mut state: u64 = (nonce ^ MULTIPLIER) & STATE_MASK;
    assert(state < 0x1_0000_0000_0000) by (bit_vector)
        requires
            state == (nonce ^ 0x5DEECE66D) & 0xFFFF_FFFF_FFFF,
    ;
    let mut n: usize = 0;
    while n < 4
        invariant
            n <= 4,
            state < 0x1_0000_0000_0000,
            state == lcg_state(nonce, n as nat),
            forall|i: int| 0 <= i < 4 * n ==> iv@[i] == derived_iv(nonce)[i],
        decreases 4 - n,
    {
        let product: u128 = state as u128 * MULTIPLIER as u128 + INCREMENT as u128;
        state = (product % 0x1_0000_0000_0000) as u64;
        let draw: u64 = state / 0x1_0000;
        assert(draw == lcg_draw(nonce, (n + 1) as nat));
        iv[4 * n] = (draw % 0x100) as u8;
        iv[4 * n + 1] = (draw / 0x100 % 0x100) as u8;
        iv[4 * n + 2] = (draw / 0x1_0000 % 0x100) as u8;
        iv[4 * n + 3] = (draw / 0x100_0000 % 0x100) as u8;
        n = n + 1;
    }
    assert(iv@ =~= derived_iv(nonce));
    iv
}

/// AES-128 in CFB8 mode, written as text by the encoding `E`.
#[derive(Debug)]
pub struct Cfb8Encryption<E: Encoding>(PhantomData<E>);

impl<E: Encoding> Cfb8Encryption<E> {
    /// The payload for `plaintext` under a given nonce. Opening it under
    /// the same key gives the text that `plaintext` spells.
    pub fn raw_encrypt_with_nonce(plaintext: &[u8], key: &AesKey, nonce: [u8; 8]) -> (payload: Vec<
        u8,
    >)
        ensures
            payload@ == cfb8_payload(plaintext@, key@, nonce@),
            payload@.len() == plaintext@.len() + 8,
            cfb8_opened(payload@, key@) == text_of(plaintext@),
    {
        let iv = generate_iv(nonce_to_u64(&nonce));
        let body = aes128_cfb8_encrypt(key.as_bytes(), &iv, plaintext);
        let mut output: Vec<u8> = Vec::new();
        output.extend_from_slice(nonce.as_slice());
        output.extend_from_slice(body.as_slice());
        proof {
            assert(output@ =~= nonce@ + body@);
            assert(output@.take(8) =~= nonce@);
            assert(output@.skip(8) =~= body@);
        }
        output
    }

    /// The payload for `plaintext` under a fresh nonce.
    pub fn raw_encrypt(plaintext: &[u8], key: &AesKey) -> (payload: Vec<u8>)
        ensures
            exists|nonce: Seq<u8>|
                nonce.len() == 8 && payload@ == #[trigger] cfb8_payload(plaintext@, key@, nonce),
            payload@.len() == plaintext@.len() + 8,
            cfb8_opened(payload@, key@) == text_of(plaintext@),
    {
        let nonce = random_bytes::<8>();
        let payload = Self::raw_encrypt_with_nonce(plaintext, key, nonce);
        assert(nonce@.len() == 8 && payload@ == cfb8_payload(plaintext@, key@, nonce@));
        payload
    }

    /// The text that a payload holds. Where there is one, it takes as many
    /// bytes as the payload has beside the nonce, so that a payload of a
    /// nonce alone holds the empty text.
    pub fn raw_decrypt(ciphertext: Vec<u8>, key: &AesKey) -> (plaintext: Result<String, NcrError>)
        ensures
            match plaintext {
                Ok(p) => cfb8_opened(ciphertext@, key@) == Ok::<Seq<char>, NcrError>(p@)
                    && encode_utf8(p@).len() == ciphertext@.len() - 8,
                Err(e) => cfb8_opened(ciphertext@, key@) == Err::<Seq<char>, NcrError>(e),
            },
            ciphertext@.len() == 8 ==> plaintext is Ok && plaintext->Ok_0@.len() == 0,
    {
        if ciphertext.len() < 8 {
            return Err(NcrError::DecryptError);
        }
        let nonce = array_from::<8>(ciphertext.as_slice(), 0);
        assert(nonce@ =~= ciphertext@.take(8));
        let iv = generate_iv(nonce_to_u64(&nonce));
        let body = vstd::slice::slice_subrange(ciphertext.as_slice(), 8, ciphertext.len());
        assert(body@ =~= ciphertext@.skip(8));
        let output = aes128_cfb8_decrypt(key.as_bytes(), &iv, body);
        text_from_bytes(output)
    }
}

impl<E: Encoding> Encryption for Cfb8Encryption<E> {
    type KeyType = AesKey;

    type EncryptError = Infallible;

    type DecryptError = NcrError;

    open spec fn fits(plaintext: Seq<char>) -> bool {
        true
    }

    open spec fn encrypts_to(
        plaintext: Seq<char>,
        key: AesKey,
        outcome: Result<Seq<char>, Infallible>,
    ) -> bool {
        exists|nonce: Seq<u8>|
            nonce.len() == 8 && outcome == Ok::<Seq<char>, Infallible>(
                E::encoded(#[trigger] cfb8_payload(encode_utf8(plaintext), key@, nonce)),
            )
    }

    open spec fn decrypted(ciphertext: Seq<char>, key: AesKey) -> Result<Seq<char>, NcrError> {
        match E::decoded(ciphertext) {
            Some(payload) => cfb8_opened(payload, key@),
            None => Err(NcrError::DecodeError),
        }
    }

    open spec fn reversible(plaintext: Seq<char>, key: AesKey) -> bool {
        true
    }

    fn encrypt(plaintext: &str, key: &AesKey) -> (ciphertext: Result<String, Infallible>) {
        let payload = Self::raw_encrypt(plaintext.as_bytes(), key);
        Ok(E::encode(payload.as_slice()))
    }

    fn decrypt(ciphertext: &str, key: &AesKey) -> (plaintext: Result<String, NcrError>) {
        match E::decode(ciphertext) {
            Ok(payload) => Self::raw_decrypt(payload, key),
            Err(e) => Err(e),
        }
    }
}

} // verus!
