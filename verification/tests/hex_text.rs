use assetcache::hexcodec::{hex_decode, hex_encode, HexError};

#[test]
fn encode_is_lower_case_two_digits_per_byte() {
    assert_eq!(hex_encode(&[0x00, 0x0c, 0xab, 0xff]), "000cabff");
    assert_eq!(hex_encode(b"Mac\0"), "4d616300");
    assert_eq!(hex_encode(&[]), "");
}

#[test]
fn decode_reads_either_case() {
    assert_eq!(hex_decode(b"000cAbfF"), Ok(vec![0x00, 0x0c, 0xab, 0xff]));
    assert_eq!(hex_decode(b""), Ok(vec![]));
}

#[test]
fn decode_refuses_odd_length() {
    assert_eq!(hex_decode(b"abc"), Err(HexError::OddLength));
}

#[test]
fn decode_names_first_bad_digit() {
    assert_eq!(
        hex_decode(b"12zq"),
        Err(HexError::InvalidHexCharacter { c: 'z', index: 2 })
    );
    assert_eq!(
        hex_decode(b"g0"),
        Err(HexError::InvalidHexCharacter { c: 'g', index: 0 })
    );
}

#[test]
fn hex_roundtrip() {
    let data: Vec<u8> = (0..=255u8).collect();
    let text = hex_encode(&data);
    assert_eq!(hex_decode(text.as_bytes()), Ok(data));
}

#[test]
fn session_text_is_standard_base64() {
    assert_eq!(assetcache::session_text(b""), "");
    assert_eq!(assetcache::session_text(b"a"), "YQ==");
    assert_eq!(assetcache::session_text(b"ab"), "YWI=");
    assert_eq!(assetcache::session_text(b"abc"), "YWJj");
    assert_eq!(assetcache::session_text(&[0xfb, 0xff, 0x3e, 0x00]), "+/8+AA==");
}
