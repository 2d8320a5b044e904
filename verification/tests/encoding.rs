use ncr::encoding::{
    Base64Encoding, Base64rEncoding, Encoding, NewBase64rEncoding, Sus16Encoding,
};
use ncr::NcrError;

fn samples() -> Vec<Vec<u8>> {
    let mut all: Vec<Vec<u8>> = vec![
        vec![],
        vec![0],
        vec![255],
        vec![0, 0],
        vec![1, 2, 3],
        vec![0xc7, 0x1c, 0x71, 0xff, 0xfe],
        b"#%Hello, world!".to_vec(),
        (0u8..=255).collect(),
    ];
    let mut seed: u32 = 12345;
    for len in 0..40usize {
        let mut bytes = Vec::with_capacity(len);
        for _ in 0..len {
            seed = seed.wrapping_mul(1664525).wrapping_add(1013904223);
            bytes.push((seed >> 24) as u8);
        }
        all.push(bytes);
    }
    all
}

#[test]
fn base64_encodes_the_documented_example() {
    assert_eq!(Base64Encoding::encode(b"#%Hello, world!"), "IyVIZWxsbywgd29ybGQh");
}

#[test]
fn base64_decodes_the_documented_example() {
    let decoded = Base64Encoding::decode("IyVIZWxsbywgd29ybGQh").unwrap();
    assert_eq!(String::from_utf8(decoded).unwrap(), "#%Hello, world!");
}

#[test]
fn base64_writes_a_backslash_for_the_last_symbol() {
    assert_eq!(Base64Encoding::encode(&[0xff, 0xff, 0xff]), "\\\\\\\\");
    assert_eq!(Base64Encoding::encode(&[0xfb, 0xf0]), "+\\A=");
    assert_eq!(Base64Encoding::decode("\\\\\\\\"), Ok(vec![0xff, 0xff, 0xff]));
}

#[test]
fn base64_rejects_the_slash() {
    assert_eq!(Base64Encoding::decode("////"), Err(NcrError::DecodeError));
}

#[test]
fn base64_pads_to_groups_of_four() {
    assert_eq!(Base64Encoding::encode(b""), "");
    assert_eq!(Base64Encoding::encode(b"f"), "Zg==");
    assert_eq!(Base64Encoding::encode(b"fo"), "Zm8=");
    assert_eq!(Base64Encoding::encode(b"foo"), "Zm9v");
    assert_eq!(Base64Encoding::encode(b"foob"), "Zm9vYg==");
}

#[test]
fn base64_rejects_malformed_text() {
    for text in ["Zg", "Zg=", "Zg===", "Z", "Zm9v!", "Zm 9v", "Zh==", "=Zm9", "Zm9v\n", "\u{e9}\u{e9}"] {
        assert_eq!(Base64Encoding::decode(text), Err(NcrError::DecodeError), "{:?}", text);
    }
}

#[test]
fn base64_round_trips() {
    for bytes in samples() {
        assert_eq!(Base64Encoding::decode(&Base64Encoding::encode(&bytes)), Ok(bytes));
    }
}

#[test]
fn base64r_encodes_a_known_text() {
    assert_eq!(
        Base64rEncoding::encode(b"#%Hello, world!"),
        ")\u{b9}]){^\u{b8}\u{b2}}\u{b9}\u{b7}\u{a4}\u{a1}29\u{b9}}'>\u{a5}"
    );
}

#[test]
fn base64r_revisions_differ_in_x_alone() {
    let bytes = [0xc7, 0x1c, 0x71, 0xff, 0xfe];
    assert_eq!(Base64rEncoding::encode(&bytes), "\u{b8}\u{b8}\u{b8}\u{b8}\u{bb}\u{bb}4\u{bf}");
    assert_eq!(NewBase64rEncoding::encode(&bytes), "\u{d7}\u{d7}\u{d7}\u{d7}\u{bb}\u{bb}4\u{bf}");
    assert_eq!(
        NewBase64rEncoding::encode(b"#%Hello, world!"),
        ")\u{b9}]){^\u{d7}\u{b2}}\u{b9}\u{b7}\u{a4}\u{a1}29\u{b9}}'>\u{a5}"
    );
}

#[test]
fn base64r_decodes_what_each_revision_wrote() {
    let bytes = vec![0xc7, 0x1c, 0x71, 0xff, 0xfe];
    let old = "\u{b8}\u{b8}\u{b8}\u{b8}\u{bb}\u{bb}4\u{bf}";
    let new = "\u{d7}\u{d7}\u{d7}\u{d7}\u{bb}\u{bb}4\u{bf}";
    assert_eq!(Base64rEncoding::decode(old), Ok(bytes.clone()));
    assert_eq!(NewBase64rEncoding::decode(new), Ok(bytes.clone()));
    assert_eq!(NewBase64rEncoding::decode(old), Ok(bytes));
    assert_eq!(Base64rEncoding::decode(new), Err(NcrError::DecodeError));
}

#[test]
fn base64r_rejects_characters_outside_the_table() {
    assert_eq!(Base64rEncoding::decode("A"), Err(NcrError::DecodeError));
    assert_eq!(Base64rEncoding::decode("!!!a"), Err(NcrError::DecodeError));
    assert_eq!(NewBase64rEncoding::decode("!!!/"), Err(NcrError::DecodeError));
    assert_eq!(Base64rEncoding::decode("!!!\u{a7}"), Err(NcrError::DecodeError));
}

#[test]
fn base64r_rejects_malformed_base64() {
    assert_eq!(Base64rEncoding::decode("!!!"), Err(NcrError::DecodeError));
    assert_eq!(Base64rEncoding::decode("!\u{bf}\u{bf}\u{bf}"), Err(NcrError::DecodeError));
    assert_eq!(NewBase64rEncoding::decode("!"), Err(NcrError::DecodeError));
    assert_eq!(Base64rEncoding::decode("!!!!"), Ok(vec![0, 0, 0]));
    assert_eq!(Base64rEncoding::decode(""), Ok(vec![]));
}

#[test]
fn base64r_round_trips() {
    for bytes in samples() {
        assert_eq!(Base64rEncoding::decode(&Base64rEncoding::encode(&bytes)), Ok(bytes.clone()));
        assert_eq!(NewBase64rEncoding::decode(&NewBase64rEncoding::encode(&bytes)), Ok(bytes));
    }
}

#[test]
fn base64r_substitution_is_one_to_one() {
    let symbols = "ABCDEFGHIJKLMNOPQRSTUVWXYZabcdefghijklmnopqrstuvwxyz0123456789+/=";
    for newer in [false, true] {
        let mut seen: Vec<char> = Vec::new();
        for ch in symbols.chars() {
            let written = ncr::encoding::base64r::substitute(newer, ch).unwrap();
            assert!(!seen.contains(&written));
            assert_eq!(ncr::encoding::base64r::restore(newer, written), Some(ch));
            seen.push(written);
        }
        assert_eq!(seen.len(), 65);
    }
    assert_eq!(ncr::encoding::base64r::substitute(false, 'x'), Some('\u{b8}'));
    assert_eq!(ncr::encoding::base64r::substitute(true, 'x'), Some('\u{d7}'));
    assert_eq!(ncr::encoding::base64r::substitute(false, '!'), None);
    assert_eq!(ncr::encoding::base64r::restore(false, 'A'), None);
    assert_eq!(ncr::encoding::base64r::restore(false, '\u{d7}'), None);
    assert_eq!(ncr::encoding::base64r::restore(true, '\u{b8}'), Some('x'));
}

#[test]
fn sus16_encodes_a_known_text() {
    assert_eq!(
        Sus16Encoding::encode(b"#%Hi"),
        "\u{d96}\u{d9e}\u{d96}\u{da9}\u{da0}\u{db9}\u{dac}\u{dc0}"
    );
    assert_eq!(Sus16Encoding::encode(&[0xab, 0xcd, 0xef]), "\u{1028}\u{1045}\u{1046}\u{1049}\u{1061}\u{1025}");
    assert_eq!(Sus16Encoding::encode(&[]), "");
}

#[test]
fn sus16_decodes_a_known_text() {
    assert_eq!(
        Sus16Encoding::decode("\u{d96}\u{d9e}\u{d96}\u{da9}\u{da0}\u{db9}\u{dac}\u{dc0}"),
        Ok(b"#%Hi".to_vec())
    );
    assert_eq!(Sus16Encoding::decode(""), Ok(vec![]));
}

#[test]
fn sus16_rejects_an_odd_number_of_glyphs() {
    assert_eq!(Sus16Encoding::decode("\u{d94}"), Err(NcrError::DecodeError));
    assert_eq!(Sus16Encoding::decode("\u{d94}\u{d95}\u{d96}"), Err(NcrError::DecodeError));
}

#[test]
fn sus16_rejects_other_characters() {
    assert_eq!(Sus16Encoding::decode("ab"), Err(NcrError::DecodeError));
    assert_eq!(Sus16Encoding::decode("\u{d94}a"), Err(NcrError::DecodeError));
    assert_eq!(Sus16Encoding::decode("a\u{d94}"), Err(NcrError::DecodeError));
    assert_eq!(Sus16Encoding::decode("\u{d94}\u{d97}"), Err(NcrError::DecodeError));
}

#[test]
fn sus16_decodes_each_glyph() {
    let glyphs = [
        '\u{d94}', '\u{d95}', '\u{d96}', '\u{d9e}', '\u{da0}', '\u{da9}', '\u{dac}', '\u{db0}',
        '\u{db9}', '\u{dc0}', '\u{1028}', '\u{1045}', '\u{1046}', '\u{1049}', '\u{1061}',
        '\u{1025}',
    ];
    assert_eq!(ncr::encoding::sus16::SUS16_ENCODE, glyphs);
    for (value, glyph) in glyphs.iter().enumerate() {
        assert_eq!(ncr::encoding::sus16::sus16_decode(*glyph), Ok(value as u8));
    }
    assert_eq!(ncr::encoding::sus16::sus16_decode('0'), Err(NcrError::DecodeError));
}

#[test]
fn sus16_round_trips() {
    for bytes in samples() {
        let text = Sus16Encoding::encode(&bytes);
        assert_eq!(text.chars().count(), 2 * bytes.len());
        assert_eq!(Sus16Encoding::decode(&text), Ok(bytes));
    }
}
