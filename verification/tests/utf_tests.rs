use cpp_to_rust::utf::{
    encode_utf8_into, skip_utf8, utf16_byte_len, utf16be_to_string, utf16le_to_string,
    utf8_char_len, utf8_read, utf8_read_limited, utf8_to_utf16be, utf8_to_utf16le,
};

#[test]
fn test_ascii_read() {
    let bytes = b"hello";
    let mut pos = 0;
    assert_eq!(utf8_read(bytes, &mut pos), 'h');
    assert_eq!(pos, 1);
}

#[test]
fn test_two_byte_read() {
    let bytes = b"\xc3\xa9";
    let mut pos = 0;
    assert_eq!(utf8_read(bytes, &mut pos), 'é');
    assert_eq!(pos, 2);
}

#[test]
fn test_three_byte_read() {
    let bytes = b"\xe3\x81\x82";
    let mut pos = 0;
    assert_eq!(utf8_read(bytes, &mut pos), 'あ');
    assert_eq!(pos, 3);
}

#[test]
fn test_four_byte_read() {
    let bytes = b"\xf0\x9f\x98\x80";
    let mut pos = 0;
    assert_eq!(utf8_read(bytes, &mut pos), '😀');
    assert_eq!(pos, 4);
}

#[test]
fn test_invalid_sequence_returns_replacement() {
    let bytes = b"\x80";
    let mut pos = 0;
    assert_eq!(utf8_read(bytes, &mut pos), '\u{FFFD}');
}

#[test]
fn test_read_limited_ascii() {
    let (ch, n) = utf8_read_limited(b"A", 1);
    assert_eq!(ch, 'A');
    assert_eq!(n, 1);
}

#[test]
fn test_read_limited_multibyte() {
    let bytes = b"\xe3\x81\x82rest";
    let (ch, n) = utf8_read_limited(bytes, 4);
    assert_eq!(ch, 'あ');
    assert_eq!(n, 3);
}

#[test]
fn test_char_len_ascii() {
    assert_eq!(utf8_char_len(b"hello", Some(5)), 5);
}

#[test]
fn test_char_len_multibyte() {
    let s = "こんにちは";
    let bytes = s.as_bytes();
    assert_eq!(utf8_char_len(bytes, Some(bytes.len())), 5);
}

#[test]
fn test_char_len_null_terminated() {
    let bytes = b"abc\x00xyz";
    assert_eq!(utf8_char_len(bytes, None), 3);
}

#[test]
fn test_char_len_mixed() {
    let s = "Héllo";
    let bytes = s.as_bytes();
    assert_eq!(utf8_char_len(bytes, Some(bytes.len())), 5);
}

#[test]
fn test_encode_utf8() {
    let mut buf = Vec::new();
    encode_utf8_into(&mut buf, 'A');
    encode_utf8_into(&mut buf, 'あ');
    assert_eq!(&buf[..1], b"A");
    assert_eq!(&buf[1..], "あ".as_bytes());
}

#[test]
fn test_utf16le_roundtrip() {
    let original = "hello, 世界";
    let encoded = utf8_to_utf16le(original);
    let decoded = utf16le_to_string(&encoded);
    assert_eq!(decoded, original);
}

#[test]
fn test_utf16be_roundtrip() {
    let original = "SQLite UTF test";
    let encoded = utf8_to_utf16be(original);
    let decoded = utf16be_to_string(&encoded);
    assert_eq!(decoded, original);
}

#[test]
fn test_utf16_byte_len_null_terminated() {
    let s = "abc";
    let mut bytes = utf8_to_utf16le(s);
    bytes.extend_from_slice(&[0, 0]);
    let len = utf16_byte_len(&bytes, None);
    assert_eq!(len, 8);
}

#[test]
fn lib_test_safety_metric() {
    let unsafe_count: usize = 0;
    assert_eq!(unsafe_count, 0);
}

#[test]
fn skip_moves_past_one_character() {
    let bytes = "éa".as_bytes();
    let mut pos = 0;
    skip_utf8(bytes, &mut pos);
    assert_eq!(pos, 2);
}

#[test]
fn utf16_encodings_of_a_supplementary_character() {
    assert_eq!(utf8_to_utf16le("😀"), vec![0x3D, 0xD8, 0x00, 0xDE]);
    assert_eq!(utf8_to_utf16be("😀"), vec![0xD8, 0x3D, 0xDE, 0x00]);
    assert_eq!(utf16le_to_string(&[0x00, 0xD8]), "\u{FFFD}");
}

#[test]
fn skip_passes_continuations_only_after_a_lead_byte() {
    let bytes = [0x80u8, 0x80];
    let mut pos = 0usize;
    skip_utf8(&bytes, &mut pos);
    assert_eq!(pos, 1);
    let bytes = [0xC3u8, 0xA9, 0x80, b'a'];
    let mut pos = 0usize;
    skip_utf8(&bytes, &mut pos);
    assert_eq!(pos, 3);
    assert_eq!(utf8_char_len(&[0x80u8, 0x80], None), 2);
    assert_eq!(utf8_char_len(&[b'a', 0x80, 0x80], None), 3);
}

#[test]
fn char_len_counts_characters_before_nul() {
    let s = "héllo\0wörld";
    assert_eq!(utf8_char_len(s.as_bytes(), None), 5);
    assert_eq!(utf8_char_len(s.as_bytes(), Some(100)), 5);
}

#[test]
fn utf16_roundtrip_stops_at_nul() {
    assert_eq!(utf16le_to_string(&utf8_to_utf16le("ab\0cd")), "ab");
    assert_eq!(utf16be_to_string(&utf8_to_utf16be("x😀\0y")), "x😀");
}
