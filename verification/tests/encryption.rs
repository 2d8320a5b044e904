use ncr::encoding::{
    Base64Encoding, Base64rEncoding, Encoding, NewBase64rEncoding, Sus16Encoding,
};
use ncr::encryption::cfb8::{generate_iv, nonce_to_u64};
use ncr::encryption::{
    CaesarEncryption, Cfb8Encryption, EcbEncryption, Encryption, GcmEncryption,
};
use ncr::utils::{prepend_header, trim_header};
use ncr::{AesKey, NcrError};

const TEXTS: [&str; 7] = [
    "",
    "a",
    "#%Hello, world!",
    "#%I love Minecraft!",
    "#%0123456789abcdef",
    "\u{a7}\u{7f} caf\u{e9} \u{1028}\u{10ffff}",
    "0123456789abcdef0123456789abcdef0123456789abcdef0123456789abcdef",
];

fn secret() -> AesKey {
    AesKey::gen_from_passphrase(b"secret")
}

#[test]
fn caesar_encrypts_the_documented_example() {
    assert_eq!(CaesarEncryption::encrypt("#%Hello, world!", &5), Ok("(*Mjqqt1%|twqi&".to_string()));
}

#[test]
fn caesar_decrypts_the_documented_example() {
    assert_eq!(CaesarEncryption::decrypt("(*Mjqqt1%|twqi&", &5), Ok("#%Hello, world!".to_string()));
}

#[test]
fn caesar_with_key_zero_changes_nothing_but_the_reserved() {
    assert_eq!(CaesarEncryption::encrypt("abc", &0), Ok("abc".to_string()));
    assert_eq!(CaesarEncryption::encrypt("\u{a7}x\u{7f}", &0), Ok("\u{ffef}x\u{fff0}".to_string()));
    assert_eq!(CaesarEncryption::decrypt("\u{ffef}x\u{fff0}", &0), Ok("\u{a7}x\u{7f}".to_string()));
}

#[test]
fn caesar_keeps_what_lands_on_a_reserved_character() {
    let onto_paragraph = CaesarEncryption::encrypt("a", &70).unwrap();
    assert_eq!(onto_paragraph, "\u{ffef}");
    assert_eq!(CaesarEncryption::decrypt(&onto_paragraph, &70), Ok("a".to_string()));
    let onto_delete = CaesarEncryption::encrypt("a", &30).unwrap();
    assert_eq!(onto_delete, "\u{fff0}");
    assert_eq!(CaesarEncryption::decrypt(&onto_delete, &30), Ok("a".to_string()));
    for key in 0u32..=0xa7 {
        let paragraph = char::from_u32(0xa7 - key).unwrap().to_string();
        let written = CaesarEncryption::encrypt(&paragraph, &key).unwrap();
        assert_eq!(written, "\u{ffef}");
        assert_eq!(CaesarEncryption::decrypt(&written, &key), Ok(paragraph));
    }
    for key in 0u32..=0x7f {
        let delete = char::from_u32(0x7f - key).unwrap().to_string();
        let written = CaesarEncryption::encrypt(&delete, &key).unwrap();
        assert_eq!(written, "\u{fff0}");
        assert_eq!(CaesarEncryption::decrypt(&written, &key), Ok(delete));
    }
}

#[test]
fn caesar_round_trips() {
    for key in [0u32, 1, 5, 13, 70, 1000, 0x10000] {
        for text in TEXTS {
            if let Ok(written) = CaesarEncryption::encrypt(text, &key) {
                let lands_on_placeholder =
                    text.chars().any(|ch| ch as u32 + key == 0xffef || ch as u32 + key == 0xfff0);
                if !lands_on_placeholder {
                    assert_eq!(CaesarEncryption::decrypt(&written, &key), Ok(text.to_string()));
                }
            }
        }
    }
}

#[test]
fn caesar_cannot_tell_a_placeholder_from_what_it_stands_for() {
    assert_eq!(CaesarEncryption::encrypt("\u{ffea}", &5), Ok("\u{ffef}".to_string()));
    assert_eq!(CaesarEncryption::decrypt("\u{ffef}", &5), Ok("\u{a2}".to_string()));
}

#[test]
fn caesar_fails_to_encrypt_past_the_last_character() {
    assert_eq!(CaesarEncryption::encrypt("\u{10ffff}", &1), Err(NcrError::EncryptError));
    assert_eq!(CaesarEncryption::encrypt("ab\u{10fffe}", &2), Err(NcrError::EncryptError));
    assert_eq!(CaesarEncryption::encrypt("a", &u32::MAX), Err(NcrError::EncryptError));
    assert_eq!(CaesarEncryption::encrypt("a", &0x110000), Err(NcrError::EncryptError));
    assert_eq!(CaesarEncryption::encrypt("\u{10fffe}", &1), Ok("\u{10ffff}".to_string()));
    assert_eq!(CaesarEncryption::encrypt("", &u32::MAX), Ok(String::new()));
}

#[test]
fn caesar_fails_to_encrypt_onto_a_surrogate() {
    assert_eq!(CaesarEncryption::encrypt("\u{d7ff}", &1), Err(NcrError::EncryptError));
    assert_eq!(CaesarEncryption::encrypt("a", &(0xdfff - 0x61)), Err(NcrError::EncryptError));
    assert_eq!(CaesarEncryption::encrypt("a", &(0xe000 - 0x61)), Ok("\u{e000}".to_string()));
}

#[test]
fn caesar_fails_to_decrypt_below_zero() {
    assert_eq!(CaesarEncryption::decrypt("a", &1000), Err(NcrError::DecryptError));
    assert_eq!(CaesarEncryption::decrypt("zzza", &0x62), Err(NcrError::DecryptError));
    assert_eq!(CaesarEncryption::decrypt("a", &0x61), Ok("\u{0}".to_string()));
    assert_eq!(CaesarEncryption::decrypt("\u{ffef}", &0xa8), Err(NcrError::DecryptError));
}

#[test]
fn caesar_fails_to_decrypt_onto_a_surrogate() {
    assert_eq!(CaesarEncryption::decrypt("\u{e000}", &1), Err(NcrError::DecryptError));
    assert_eq!(CaesarEncryption::decrypt("\u{10000}", &0x2001), Err(NcrError::DecryptError));
}

#[test]
fn the_vector_for_nonce_zero_is_the_known_one() {
    assert_eq!(
        generate_iv(0),
        [96, 180, 32, 187, 56, 81, 217, 212, 122, 203, 147, 61, 190, 112, 57, 155]
    );
}

#[test]
fn the_vector_depends_on_the_nonce_alone() {
    assert_eq!(
        generate_iv(0x0102030405060708),
        [158, 8, 86, 198, 50, 126, 202, 224, 227, 4, 229, 14, 94, 232, 207, 173]
    );
    assert_eq!(
        generate_iv(u64::MAX),
        [179, 108, 217, 68, 195, 34, 135, 112, 23, 32, 36, 3, 158, 255, 75, 140]
    );
    assert_eq!(generate_iv(42), generate_iv(42));
    assert_eq!(generate_iv(1 << 48), generate_iv(0));
}

#[test]
fn a_nonce_is_read_most_significant_byte_first() {
    assert_eq!(nonce_to_u64(&[1, 2, 3, 4, 5, 6, 7, 8]), 0x0102030405060708);
    assert_eq!(nonce_to_u64(&[0; 8]), 0);
    assert_eq!(nonce_to_u64(&[255; 8]), u64::MAX);
    assert_eq!(nonce_to_u64(&[0x80, 0, 0, 0, 0, 0, 0, 1]), 0x8000000000000001);
}

#[test]
fn cfb8_decrypts_the_documented_example() {
    let ciphertext =
        "%[2_0\u{bb}\u{b3}\"!7).\u{ab}?;!.$\u{a5}`\u{b6}:8~667\u{aa}\u{b8}[\u{ac})\u{a2}+\u{a4}^";
    let plaintext = Cfb8Encryption::<Base64rEncoding>::decrypt(ciphertext, &secret()).unwrap();
    assert_eq!(plaintext, "#%I love Minecraft!");
    assert_eq!(trim_header(&plaintext), Ok("I love Minecraft!"));
}

#[test]
fn cfb8_encrypts_the_documented_example_under_its_nonce() {
    let ciphertext =
        "%[2_0\u{bb}\u{b3}\"!7).\u{ab}?;!.$\u{a5}`\u{b6}:8~667\u{aa}\u{b8}[\u{ac})\u{a2}+\u{a4}^";
    let payload = Base64rEncoding::decode(ciphertext).unwrap();
    let mut nonce = [0u8; 8];
    nonce.copy_from_slice(&payload[..8]);
    let again = Cfb8Encryption::<Base64rEncoding>::raw_encrypt_with_nonce(
        b"#%I love Minecraft!",
        &secret(),
        nonce,
    );
    assert_eq!(again, payload);
    assert_eq!(Base64rEncoding::encode(&again), ciphertext);
}

#[test]
fn cfb8_round_trips_the_documented_scenario() {
    let key = secret();
    let plaintext = prepend_header("I love Minecraft!");
    let ciphertext = Cfb8Encryption::<Base64rEncoding>::encrypt(&plaintext, &key).unwrap();
    assert_eq!(Cfb8Encryption::<Base64rEncoding>::decrypt(&ciphertext, &key), Ok(plaintext));
}

#[test]
fn cfb8_payload_under_a_known_nonce() {
    let payload = Cfb8Encryption::<Base64Encoding>::raw_encrypt_with_nonce(
        b"#%Hello, world!",
        &secret(),
        [1, 2, 3, 4, 5, 6, 7, 8],
    );
    assert_eq!(
        payload,
        [
            1, 2, 3, 4, 5, 6, 7, 8, 35, 161, 74, 31, 58, 231, 221, 182, 123, 83, 174, 226, 177,
            72, 170
        ]
    );
    assert_eq!(
        Cfb8Encryption::<Base64Encoding>::raw_decrypt(payload, &secret()),
        Ok("#%Hello, world!".to_string())
    );
}

#[test]
fn cfb8_draws_a_fresh_nonce() {
    let key = secret();
    let first = Cfb8Encryption::<Base64Encoding>::raw_encrypt(b"same", &key);
    let second = Cfb8Encryption::<Base64Encoding>::raw_encrypt(b"same", &key);
    assert_eq!(first.len(), 12);
    assert_eq!(second.len(), 12);
    assert_ne!(first[..8], second[..8]);
}

#[test]
fn cfb8_rejects_a_payload_without_a_nonce() {
    let key = secret();
    for len in 0..8usize {
        assert_eq!(
            Cfb8Encryption::<Base64Encoding>::raw_decrypt(vec![0u8; len], &key),
            Err(NcrError::DecryptError)
        );
    }
    assert_eq!(
        Cfb8Encryption::<Base64Encoding>::raw_decrypt(vec![0u8; 8], &key),
        Ok(String::new())
    );
}

#[test]
fn cfb8_rejects_what_is_not_text() {
    let key = secret();
    let payload =
        Cfb8Encryption::<Base64Encoding>::raw_encrypt_with_nonce(&[0xff, 0xfe], &key, [9; 8]);
    assert_eq!(
        Cfb8Encryption::<Base64Encoding>::raw_decrypt(payload, &key),
        Err(NcrError::DecryptError)
    );
}

#[test]
fn cfb8_passes_a_decode_error_on() {
    assert_eq!(
        Cfb8Encryption::<Base64Encoding>::decrypt("not base64!", &secret()),
        Err(NcrError::DecodeError)
    );
    assert_eq!(
        Cfb8Encryption::<Sus16Encoding>::decrypt("\u{d94}", &secret()),
        Err(NcrError::DecodeError)
    );
}

#[test]
fn ecb_payload_is_the_known_one() {
    let payload = EcbEncryption::<Base64Encoding>::raw_encrypt(b"#%Hello, world!", &secret());
    assert_eq!(
        payload,
        [116, 118, 5, 223, 250, 112, 110, 52, 122, 208, 215, 149, 196, 131, 214, 219]
    );
    assert_eq!(
        EcbEncryption::<Base64Encoding>::encrypt("#%Hello, world!", &secret()).unwrap(),
        "dHYF3\\pwbjR60NeVxIPW2w=="
    );
    assert_eq!(
        EcbEncryption::<Base64Encoding>::encrypt("#%0123456789abcdef", &secret()).unwrap(),
        "RK6458hDn\\OLbssDmyCQQTEEApVUiEww0LlD31iDpp4="
    );
}

#[test]
fn ecb_decrypts_the_known_payload() {
    assert_eq!(
        EcbEncryption::<Base64Encoding>::decrypt("dHYF3\\pwbjR60NeVxIPW2w==", &secret()),
        Ok("#%Hello, world!".to_string())
    );
}

#[test]
fn ecb_pads_to_whole_blocks() {
    let key = secret();
    for len in 0..40usize {
        let payload = EcbEncryption::<Base64Encoding>::raw_encrypt(&vec![b'a'; len], &key);
        assert_eq!(payload.len(), (len / 16 + 1) * 16);
    }
}

#[test]
fn ecb_rejects_broken_blocks_and_padding() {
    let key = secret();
    assert_eq!(
        EcbEncryption::<Base64Encoding>::raw_decrypt(vec![], &key),
        Err(NcrError::DecryptError)
    );
    assert_eq!(
        EcbEncryption::<Base64Encoding>::raw_decrypt(vec![0u8; 15], &key),
        Err(NcrError::DecryptError)
    );
    assert_eq!(
        EcbEncryption::<Base64Encoding>::raw_decrypt(vec![0u8; 17], &key),
        Err(NcrError::DecryptError)
    );
    assert_eq!(
        EcbEncryption::<Base64Encoding>::raw_decrypt(vec![0u8; 16], &key),
        Err(NcrError::DecryptError)
    );
    assert_eq!(
        EcbEncryption::<Base64Encoding>::decrypt("dHYF3/pwbjR60NeVxIPW2w==", &key),
        Err(NcrError::DecodeError)
    );
}

#[test]
fn ecb_rejects_what_is_not_text() {
    let key = secret();
    let payload = EcbEncryption::<Base64Encoding>::raw_encrypt(&[0xc3, 0x28], &key);
    assert_eq!(
        EcbEncryption::<Base64Encoding>::raw_decrypt(payload, &key),
        Err(NcrError::DecryptError)
    );
}

#[test]
fn ecb_under_another_key_does_not_give_the_text() {
    let payload = EcbEncryption::<Base64Encoding>::raw_encrypt(b"#%Hello, world!", &secret());
    let other = AesKey::gen_from_passphrase(b"another");
    assert_ne!(
        EcbEncryption::<Base64Encoding>::raw_decrypt(payload, &other),
        Ok("#%Hello, world!".to_string())
    );
}

#[test]
fn gcm_payload_under_a_known_nonce() {
    let payload = GcmEncryption::<Base64Encoding>::raw_encrypt_with_nonce(
        b"#%Hello, world!",
        &secret(),
        [0, 1, 2, 3, 4, 5, 6, 7, 8, 9, 10, 11],
    );
    assert_eq!(
        payload,
        [
            0, 1, 2, 3, 4, 5, 6, 7, 8, 9, 10, 11, 176, 155, 105, 61, 98, 20, 178, 222, 125, 193,
            243, 81, 142, 61, 118, 105, 183, 167, 42, 130, 72, 174, 208, 97, 149, 21, 205
        ]
    );
    assert_eq!(
        Base64Encoding::encode(&payload),
        "AAECAwQFBgcICQoLsJtpPWIUst59wfNRjj12abenKoJIrtBhlRXN"
    );
    assert_eq!(
        GcmEncryption::<Base64Encoding>::raw_decrypt(payload, &secret()),
        Ok("#%Hello, world!".to_string())
    );
}

#[test]
fn gcm_payload_of_nothing_is_nonce_and_tag() {
    let payload = GcmEncryption::<Base64Encoding>::raw_encrypt_with_nonce(
        b"",
        &secret(),
        [0, 1, 2, 3, 4, 5, 6, 7, 8, 9, 10, 11],
    );
    assert_eq!(
        payload,
        [
            0, 1, 2, 3, 4, 5, 6, 7, 8, 9, 10, 11, 220, 199, 81, 223, 53, 168, 46, 1, 206, 126,
            219, 241
        ]
    );
    assert_eq!(GcmEncryption::<Base64Encoding>::raw_decrypt(payload, &secret()), Ok(String::new()));
}

#[test]
fn gcm_decrypts_the_known_text() {
    assert_eq!(
        GcmEncryption::<Base64Encoding>::decrypt(
            "AAECAwQFBgcICQoLsJtpPWIUst59wfNRjj12abenKoJIrtBhlRXN",
            &secret()
        ),
        Ok("#%Hello, world!".to_string())
    );
}

#[test]
fn gcm_rejects_every_flipped_bit_of_the_tag() {
    let key = secret();
    let payload = GcmEncryption::<Base64Encoding>::raw_encrypt(b"#%Hello, world!", &key);
    let len = payload.len();
    assert_eq!(len, 15 + 24);
    for byte in len - 12..len {
        for bit in 0..8 {
            let mut forged = payload.clone();
            forged[byte] ^= 1 << bit;
            assert_eq!(
                GcmEncryption::<Base64Encoding>::raw_decrypt(forged, &key),
                Err(NcrError::DecryptError)
            );
        }
    }
    assert_eq!(
        GcmEncryption::<Base64Encoding>::raw_decrypt(payload, &key),
        Ok("#%Hello, world!".to_string())
    );
}

#[test]
fn gcm_rejects_a_changed_nonce_or_ciphertext() {
    let key = secret();
    let payload = GcmEncryption::<Base64Encoding>::raw_encrypt(b"#%Hello, world!", &key);
    for byte in 0..payload.len() - 12 {
        let mut forged = payload.clone();
        forged[byte] ^= 0x80;
        assert_eq!(
            GcmEncryption::<Base64Encoding>::raw_decrypt(forged, &key),
            Err(NcrError::DecryptError)
        );
    }
}

#[test]
fn gcm_rejects_a_payload_without_nonce_and_tag() {
    let key = secret();
    for len in 0..24usize {
        assert_eq!(
            GcmEncryption::<Base64Encoding>::raw_decrypt(vec![0u8; len], &key),
            Err(NcrError::DecryptError)
        );
    }
}

#[test]
fn gcm_rejects_another_key() {
    let payload = GcmEncryption::<Base64Encoding>::raw_encrypt(b"#%Hello, world!", &secret());
    assert_eq!(
        GcmEncryption::<Base64Encoding>::raw_decrypt(payload, &AesKey::gen_from_passphrase(b"x")),
        Err(NcrError::DecryptError)
    );
}

#[test]
fn gcm_rejects_what_is_not_text() {
    let key = secret();
    let payload =
        GcmEncryption::<Base64Encoding>::raw_encrypt_with_nonce(&[0xff, 0xfe], &key, [7; 12]);
    assert_eq!(payload.len(), 26);
    assert_eq!(
        GcmEncryption::<Base64Encoding>::raw_decrypt(payload, &key),
        Err(NcrError::DecryptError)
    );
}

#[test]
fn gcm_draws_a_fresh_nonce() {
    let key = secret();
    let first = GcmEncryption::<Base64Encoding>::raw_encrypt(b"same", &key);
    let second = GcmEncryption::<Base64Encoding>::raw_encrypt(b"same", &key);
    assert_ne!(first[..12], second[..12]);
}

fn round_trips<C>(key: &AesKey)
where
    C: Encryption<KeyType = AesKey, DecryptError = NcrError>,
    C::EncryptError: std::fmt::Debug,
{
    for text in TEXTS {
        let ciphertext = C::encrypt(text, key).unwrap();
        assert_eq!(C::decrypt(&ciphertext, key), Ok(text.to_string()));
    }
}

#[test]
fn ecb_round_trips_in_every_encoding() {
    let key = AesKey::gen_random_key();
    round_trips::<EcbEncryption<Base64Encoding>>(&key);
    round_trips::<EcbEncryption<Base64rEncoding>>(&key);
    round_trips::<EcbEncryption<NewBase64rEncoding>>(&key);
    round_trips::<EcbEncryption<Sus16Encoding>>(&key);
}

#[test]
fn cfb8_round_trips_in_every_encoding() {
    let key = AesKey::gen_random_key();
    round_trips::<Cfb8Encryption<Base64Encoding>>(&key);
    round_trips::<Cfb8Encryption<Base64rEncoding>>(&key);
    round_trips::<Cfb8Encryption<NewBase64rEncoding>>(&key);
    round_trips::<Cfb8Encryption<Sus16Encoding>>(&key);
}

#[test]
fn gcm_round_trips_in_every_encoding() {
    let key = AesKey::gen_random_key();
    round_trips::<GcmEncryption<Base64Encoding>>(&key);
    round_trips::<GcmEncryption<Base64rEncoding>>(&key);
    round_trips::<GcmEncryption<NewBase64rEncoding>>(&key);
    round_trips::<GcmEncryption<Sus16Encoding>>(&key);
}

#[test]
fn gcm_payload_is_nonce_then_ciphertext_then_a_tag_of_twelve_bytes() {
    let key = secret();
    let nonce = [9u8, 8, 7, 6, 5, 4, 3, 2, 1, 0, 1, 2];
    for len in [0usize, 1, 3, 15, 16, 17, 40] {
        let plaintext = vec![b'x'; len];
        let payload =
            GcmEncryption::<Base64Encoding>::raw_encrypt_with_nonce(&plaintext, &key, nonce);
        assert_eq!(payload.len(), 12 + len + 12);
        assert_eq!(payload[..12], nonce);
        let longer = GcmEncryption::<Base64Encoding>::raw_encrypt_with_nonce(
            &vec![b'x'; len + 1],
            &key,
            nonce,
        );
        assert_eq!(longer[12..12 + len], payload[12..12 + len]);
        assert_ne!(longer[longer.len() - 12..], payload[payload.len() - 12..]);
    }
}

#[test]
fn decrypted_text_is_as_long_as_the_payload_allows() {
    let key = secret();
    let text = "caf\u{e9} \u{1028}";
    let cfb8 = Cfb8Encryption::<Base64Encoding>::raw_encrypt(text.as_bytes(), &key);
    assert_eq!(
        Cfb8Encryption::<Base64Encoding>::raw_decrypt(cfb8.clone(), &key).unwrap().len(),
        cfb8.len() - 8
    );
    let gcm = GcmEncryption::<Base64Encoding>::raw_encrypt(text.as_bytes(), &key);
    assert_eq!(
        GcmEncryption::<Base64Encoding>::raw_decrypt(gcm.clone(), &key).unwrap().len(),
        gcm.len() - 24
    );
    let ecb = EcbEncryption::<Base64Encoding>::raw_encrypt(text.as_bytes(), &key);
    let opened = EcbEncryption::<Base64Encoding>::raw_decrypt(ecb.clone(), &key).unwrap();
    assert!(opened.len() < ecb.len() && ecb.len() <= opened.len() + 16);
}
