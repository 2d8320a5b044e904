//! AES-128 in Galois/counter mode, with a nonce of 12 bytes and a tag cut
//! to 12 bytes.

use std::convert::Infallible;
use std::marker::PhantomData;
use aes_gcm::aead::consts::U12;
use aes_gcm::{AeadInPlace, AesGcm, KeyInit};
use vstd::prelude::*;
use vstd::utf8::encode_utf8;
use super::{array_from, text_from_bytes, text_of, Encryption};
use crate::encoding::Encoding;
use crate::random::random_bytes;
use crate::{AesKey, NcrError};

verus! {

broadcast use {
    vstd::string::group_string_axioms,
    vstd::utf8::encode_utf8_valid_utf8,
    vstd::utf8::encode_utf8_decode_utf8,
};

#[verifier::external_type_specification]
#[verifier::external_body]
pub struct ExAeadError(aes_gcm::Error);

/// The most bytes that one call may encrypt: 64 GiB.
pub const MAX_PLAINTEXT_LEN: u64 = 0x10_0000_0000;

/// The ciphertext and the 12-byte tag that AES-128-GCM gives for
/// `plaintext` under `key` and `nonce`, with no associated data.
pub uninterp spec fn aes128_gcm_sealed(key: Seq<u8>, nonce: Seq<u8>, plaintext: Seq<u8>) -> (
    Seq<u8>,
    Seq<u8>,
);

/// The plaintext that AES-128-GCM gives for `ciphertext` under `key` and
/// `nonce`, or `None` where the 12-byte `tag` does not authenticate it.
pub uninterp spec fn aes128_gcm_opened(
    key: Seq<u8>,
    nonce: Seq<u8>,
    ciphertext: Seq<u8>,
    tag: Seq<u8>,
) -> Option<Seq<u8>>;

/// Calls `AeadInPlace::encrypt_in_place_detached` of
/// `AesGcm<Aes128, U12, U12>` on a copy of `plaintext`, with no associated
/// data.
///
/// Taken on trust: ciphertext and tag are a function of key, nonce and
/// plaintext; the ciphertext is as long as the plaintext; opening it with
/// that tag gives the plaintext back, and with any other tag fails. The
/// call fails only on more than 64 GiB of plaintext.
#[verifier::external_body]
fn aes128_gcm_seal(key: &[u8; 16], nonce: &[u8; 12], plaintext: &[u8]) -> (sealed: (
    Vec<u8>,
    [u8; 12],
))
    requires
        plaintext@.len() <= MAX_PLAINTEXT_LEN,
    ensures
        (sealed.0@, sealed.1@) == aes128_gcm_sealed(key@, nonce@, plaintext@),
        sealed.0@.len() == plaintext@.len(),
        aes128_gcm_opened(key@, nonce@, sealed.0@, sealed.1@) == Some(plaintext@),
        forall|tag: Seq<u8>|
            tag.len() == 12 && tag != sealed.1@ ==> #[trigger] aes128_gcm_opened(
                key@,
                nonce@,
                sealed.0@,
                tag,
            ) is None,
{
    let mut buffer = plaintext.to_vec();
    let cipher = AesGcm::<aes::Aes128, U12, U12>::new(key.into());
    let tag = cipher.encrypt_in_place_detached(nonce.into(), &[], &mut buffer).unwrap();
    (buffer, tag.into())
}

/// Calls `AeadInPlace::decrypt_in_place_detached` of
/// `AesGcm<Aes128, U12, U12>` on a copy of `ciphertext`, with no associated
/// data.
///
/// Taken on trust: whether the call succeeds, and with which bytes, is a
/// function of key, nonce, ciphertext and tag; where it succeeds, the
/// plaintext is as long as the ciphertext, and the call would have failed
/// with any other tag.
#[verifier::external_body]
fn aes128_gcm_open(key: &[u8; 16], nonce: &[u8; 12], ciphertext: &[u8], tag: &[u8; 12]) -> (opened:
    Result<Vec<u8>, aes_gcm::Error>)
    ensures
        match opened {
            Ok(p) => {
                &&& aes128_gcm_opened(key@, nonce@, ciphertext@, tag@) == Some(p@)
                &&& p@.len() == ciphertext@.len()
                &&& forall|other: Seq<u8>|
                    other.len() == 12 && other != tag@ ==> #[trigger] aes128_gcm_opened(
                        key@,
                        nonce@,
                        ciphertext@,
                        other,
                    ) is None
            },
            Err(_) => aes128_gcm_opened(key@, nonce@, ciphertext@, tag@) is None,
        },
{
    let mut buffer = ciphertext.to_vec();
    let cipher = AesGcm::<aes::Aes128, U12, U12>::new(key.into());
    match cipher.decrypt_in_place_detached(nonce.into(), &[], &mut buffer, tag.into()) {
        Ok(()) => Ok(buffer),
        Err(e) => Err(e),
    }
}

/// Whether `payload` is laid out as the 12 bytes of `nonce`, then
/// `ciphertext`, then the 12 bytes of `tag`.
pub open spec fn gcm_layout(
    payload: Seq<u8>,
    nonce: Seq<u8>,
    ciphertext: Seq<u8>,
    tag: Seq<u8>,
) -> bool {
    &&& nonce.len() == 12
    &&& tag.len() == 12
    &&& payload.len() == 12 + ciphertext.len() + 12
    &&& payload.take(12) == nonce
    &&& payload.subrange(12, 12 + ciphertext.len() as int) == ciphertext
    &&& payload.skip(12 + ciphertext.len() as int) == tag
}

/// What is sent for `plaintext`: the nonce, the ciphertext, the tag.
pub open spec fn gcm_payload(plaintext: Seq<u8>, key: Seq<u8>, nonce: Seq<u8>) -> Seq<u8> {
    nonce + aes128_gcm_sealed(key, nonce, plaintext).0 + aes128_gcm_sealed(key, nonce, plaintext).1
}

/// The text that a payload holds, or `DecryptError` where it is too short
/// to hold a nonce and a tag, the tag does not authenticate it, or the
/// plaintext is not UTF-8.
pub open spec fn gcm_opened(payload: Seq<u8>, key: Seq<u8>) -> Result<Seq<char>, NcrError> {
    if payload.len() < 24 {
        Err(NcrError::DecryptError)
    } else {
        match aes128_gcm_opened(
            key,
            payload.take(12),
            payload.subrange(12, payload.len() - 12),
            payload.skip(payload.len() - 12),
        ) {
            Some(bytes) => text_of(bytes),
            None => Err(NcrError::DecryptError),
        }
    }
}

/// Whether `forged` is `payload` with another tag: as long, the same up to
/// the last 12 bytes, and different there.
pub open spec fn differs_in_tag(forged: Seq<u8>, payload: Seq<u8>) -> bool {
    &&& forged.len() == payload.len()
    &&& forged.len() >= 24
    &&& forged.take(forged.len() - 12) == payload.take(payload.len() - 12)
    &&& forged != payload
}

/// Whether no tag but its own opens the ciphertext that `payload` holds.
pub open spec fn tag_is_unique(payload: Seq<u8>, key: Seq<u8>) -> bool {
    forall|other: Seq<u8>|
        other.len() == 12 && other != payload.skip(payload.len() - 12)
            ==> #[trigger] aes128_gcm_opened(
            key,
            payload.take(12),
            payload.subrange(12, payload.len() - 12),
            other,
        ) is None
}

/// Whether every payload that differs from `payload` in the tag alone is
/// rejected.
pub open spec fn forgeries_fail(payload: Seq<u8>, key: Seq<u8>) -> bool {
    forall|forged: Seq<u8>| #[trigger]
        differs_in_tag(forged, payload) ==> gcm_opened(forged, key) == Err::<Seq<char>, NcrError>(
            NcrError::DecryptError,
        )
}

/// Where no tag but its own opens a ciphertext, every payload that differs
/// from it in the tag alone is rejected.
pub proof fn lemma_forgeries_fail(payload: Seq<u8>, key: Seq<u8>)
    requires
        payload.len() >= 24,
        tag_is_unique(payload, key),
    ensures
        forgeries_fail(payload, key),
{
    let n = payload.len() as int;
    assert forall|forged: Seq<u8>| #[trigger] differs_in_tag(forged, payload) implies gcm_opened(
        forged,
        key,
    ) == Err::<Seq<char>, NcrError>(NcrError::DecryptError) by {
        let head = forged.take(n - 12);
        assert(head == payload.take(n - 12));
        assert(forged.take(12) =~= head.take(12));
        assert(payload.take(12) =~= payload.take(n - 12).take(12));
        assert(forged.subrange(12, n - 12) =~= head.skip(12));
        assert(payload.subrange(12, n - 12) =~= payload.take(n - 12).skip(12));
        let other = forged.skip(n - 12);
        if other == payload.skip(n - 12) {
            assert(forged =~= head + other);
            assert(payload =~= payload.take(n - 12) + payload.skip(n - 12));
        }
    }
}

/// AES-128 in GCM mode, written as text by the encoding `E`.
#[derive(Debug)]
pub struct GcmEncryption<E: Encoding>(PhantomData<E>);

impl<E: Encoding> GcmEncryption<E> {
    /// The payload for `plaintext` under a given nonce. Opening it under
    /// the same key gives the text that `plaintext` spells, and no payload
    /// that differs from it in the tag can be opened.
    pub fn raw_encrypt_with_nonce(plaintext: &[u8], key: &AesKey, nonce: [u8; 12]) -> (payload:
        Vec<u8>)
        requires
            plaintext@.len() <= MAX_PLAINTEXT_LEN,
        ensures
            payload@ == gcm_payload(plaintext@, key@, nonce@),
            payload@.len() == plaintext@.len() + 24,
            aes128_gcm_sealed(key@, nonce@, plaintext@).0.len() == plaintext@.len(),
            aes128_gcm_sealed(key@, nonce@, plaintext@).1.len() == 12,
            gcm_layout(
                payload@,
                nonce@,
                aes128_gcm_sealed(key@, nonce@, plaintext@).0,
                aes128_gcm_sealed(key@, nonce@, plaintext@).1,
            ),
            gcm_opened(payload@, key@) == text_of(plaintext@),
            forgeries_fail(payload@, key@),
    {
        let (body, tag) = aes128_gcm_seal(key.as_bytes(), &nonce, plaintext);
        let mut output: Vec<u8> = Vec::new();
        output.extend_from_slice(nonce.as_slice());
        output.extend_from_slice(body.as_slice());
        output.extend_from_slice(tag.as_slice());
        proof {
            let n = output@.len() as int;
            assert(output@ =~= nonce@ + body@ + tag@);
            assert(output@.take(12) =~= nonce@);
            assert(output@.subrange(12, n - 12) =~= body@);
            assert(output@.skip(n - 12) =~= tag@);
            lemma_forgeries_fail(output@, key@);
        }
        output
    }

    /// The payload for `plaintext` under a fresh nonce.
    pub fn raw_encrypt(plaintext: &[u8], key: &AesKey) -> (payload: Vec<u8>)
        requires
            plaintext@.len() <= MAX_PLAINTEXT_LEN,
        ensures
            exists|nonce: Seq<u8>|
                {
                    &&& payload@ == #[trigger] gcm_payload(plaintext@, key@, nonce)
                    &&& aes128_gcm_sealed(key@, nonce, plaintext@).0.len() == plaintext@.len()
                    &&& aes128_gcm_sealed(key@, nonce, plaintext@).1.len() == 12
                    &&& gcm_layout(
                        payload@,
                        nonce,
                        aes128_gcm_sealed(key@, nonce, plaintext@).0,
                        aes128_gcm_sealed(key@, nonce, plaintext@).1,
                    )
                },
            payload@.len() == plaintext@.len() + 24,
            gcm_opened(payload@, key@) == text_of(plaintext@),
            forgeries_fail(payload@, key@),
    {
        let nonce = random_bytes::<12>();
        let payload = Self::raw_encrypt_with_nonce(plaintext, key, nonce);
        assert(payload@ == gcm_payload(plaintext@, key@, nonce@) && gcm_layout(
            payload@,
            nonce@,
            aes128_gcm_sealed(key@, nonce@, plaintext@).0,
            aes128_gcm_sealed(key@, nonce@, plaintext@).1,
        ));
        payload
    }

    /// The text that a payload holds. Where there is one, it takes as many
    /// bytes as the payload has beside nonce and tag, and no payload that
    /// differs from this one in the tag alone can be opened.
    pub fn raw_decrypt(ciphertext: Vec<u8>, key: &AesKey) -> (plaintext: Result<String, NcrError>)
        ensures
            match plaintext {
                Ok(p) => {
                    &&& gcm_opened(ciphertext@, key@) == Ok::<Seq<char>, NcrError>(p@)
                    &&& encode_utf8(p@).len() == ciphertext@.len() - 24
                    &&& forgeries_fail(ciphertext@, key@)
                },
                Err(e) => gcm_opened(ciphertext@, key@) == Err::<Seq<char>, NcrError>(e),
            },
    {
        let len = ciphertext.len();
        if len < 24 {
            return Err(NcrError::DecryptError);
        }
        let nonce = array_from::<12>(ciphertext.as_slice(), 0);
        let tag = array_from::<12>(ciphertext.as_slice(), len - 12);
        let body = vstd::slice::slice_subrange(ciphertext.as_slice(), 12, len - 12);
        proof {
            assert(nonce@ =~= ciphertext@.take(12));
            assert(tag@ =~= ciphertext@.skip(len - 12));
        }
        match aes128_gcm_open(key.as_bytes(), &nonce, body, &tag) {
            Ok(output) => {
                proof {
                    lemma_forgeries_fail(ciphertext@, key@);
                }
                text_from_bytes(output)
            },
            Err(_) => Err(NcrError::DecryptError),
        }
    }
}

impl<E: Encoding> Encryption for GcmEncryption<E> {
    type KeyType = AesKey;

    type EncryptError = Infallible;

    type DecryptError = NcrError;

    open spec fn fits(plaintext: Seq<char>) -> bool {
        encode_utf8(plaintext).len() <= MAX_PLAINTEXT_LEN
    }

    open spec fn encrypts_to(
        plaintext: Seq<char>,
        key: AesKey,
        outcome: Result<Seq<char>, Infallible>,
    ) -> bool {
        exists|nonce: Seq<u8>|
            nonce.len() == 12 && outcome == Ok::<Seq<char>, Infallible>(
                E::encoded(#[trigger] gcm_payload(encode_utf8(plaintext), key@, nonce)),
            )
    }

    open spec fn decrypted(ciphertext: Seq<char>, key: AesKey) -> Result<Seq<char>, NcrError> {
        match E::decoded(ciphertext) {
            Some(payload) => gcm_opened(payload, key@),
            None => Err(NcrError::DecodeError),
        }
    }

    open spec fn reversible(plaintext: Seq<char>, key: AesKey) -> bool {
        true
    }

    fn encrypt(plaintext: &str, key: &AesKey) -> (ciphertext: Result<String, Infallible>) {
        let payload = Self::raw_encrypt(plaintext.as_bytes(), key);
        Ok(E::encode(payload.as_slice()))
    }

    fn decrypt(ciphertext: &str, key: &AesKey) -> (plaintext: Result<String, NcrError>) {
        match E::decode(ciphertext) {
            Ok(payload) => Self::raw_decrypt(payload, key),
            Err(e) => Err(e),
        }
    }
}

} // verus!
