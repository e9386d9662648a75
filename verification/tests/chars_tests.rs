//! Tests of the character and coding utilities.

use neomacs_display::chars::{byte_to_char_pos, char_at_byte, char_bytes, char_display_width,
    char_downcase, char_titlecase, char_to_byte_pos, char_upcase, decode_utf8, encode_utf8,
    general_category, is_ascii_alnum, is_ascii_alpha, is_ascii_digit, is_combining_mark,
    is_control, is_lower, is_printable, is_upper, is_whitespace, is_word_char, string_char_count,
    string_display_width, string_downcase, string_upcase, u64_to_decimal, utf8_char_width,
    GeneralCategory};

#[test]
fn test_encode_utf8_ascii() {
    let mut buf: Vec<u8> = Vec::new();
    let n = encode_utf8('A', &mut buf);
    assert_eq!(n, 1);
    assert_eq!(buf[0], b'A');
}

#[test]
fn test_encode_utf8_two_byte() {
    let mut buf: Vec<u8> = Vec::new();
    let n = encode_utf8('\u{00E9}', &mut buf);
    assert_eq!(n, 2);
    assert_eq!(&buf[..2], "\u{00E9}".as_bytes());
}

#[test]
fn test_encode_utf8_three_byte() {
    let mut buf: Vec<u8> = Vec::new();
    let n = encode_utf8('\u{4E16}', &mut buf);
    assert_eq!(n, 3);
    assert_eq!(&buf[..3], "\u{4E16}".as_bytes());
}

#[test]
fn test_encode_utf8_four_byte() {
    let mut buf: Vec<u8> = Vec::new();
    let n = encode_utf8('\u{1F600}', &mut buf);
    assert_eq!(n, 4);
    assert_eq!(&buf[..4], "\u{1F600}".as_bytes());
}

#[test]
fn test_decode_utf8_ascii() {
    let bytes = b"Hello";
    let (ch, consumed) = decode_utf8(bytes).unwrap();
    assert_eq!(ch, 'H');
    assert_eq!(consumed, 1);
}

#[test]
fn test_decode_utf8_multibyte() {
    let bytes = "\u{4E16}\u{754C}".as_bytes();
    let (ch, consumed) = decode_utf8(bytes).unwrap();
    assert_eq!(ch, '\u{4E16}');
    assert_eq!(consumed, 3);
    let (ch2, consumed2) = decode_utf8(&bytes[consumed..]).unwrap();
    assert_eq!(ch2, '\u{754C}');
    assert_eq!(consumed2, 3);
}

#[test]
fn test_decode_utf8_empty() {
    assert!(decode_utf8(b"").is_none());
}

#[test]
fn test_decode_utf8_invalid_continuation() {
    assert!(decode_utf8(&[0x80]).is_none());
}

#[test]
fn test_utf8_char_width_values() {
    assert_eq!(utf8_char_width(b'A'), 1);
    assert_eq!(utf8_char_width(0xC3), 2);
    assert_eq!(utf8_char_width(0xE4), 3);
    assert_eq!(utf8_char_width(0xF0), 4);
    assert_eq!(utf8_char_width(0x80), 0);
    assert_eq!(utf8_char_width(0xFF), 0);
}

#[test]
fn test_char_bytes() {
    assert_eq!(char_bytes('A'), 1);
    assert_eq!(char_bytes('\u{00E9}'), 2);
    assert_eq!(char_bytes('\u{4E16}'), 3);
    assert_eq!(char_bytes('\u{1F600}'), 4);
}

#[test]
fn test_char_display_width_ascii() {
    assert_eq!(char_display_width('A'), 1);
    assert_eq!(char_display_width(' '), 1);
    assert_eq!(char_display_width('~'), 1);
}

#[test]
fn test_char_display_width_cjk() {
    assert_eq!(char_display_width('\u{4E16}'), 2);
    assert_eq!(char_display_width('\u{AC00}'), 2);
    assert_eq!(char_display_width('\u{FF01}'), 2);
}

#[test]
fn test_char_display_width_combining() {
    assert_eq!(char_display_width('\u{0300}'), 0);
    assert_eq!(char_display_width('\u{0301}'), 0);
    assert_eq!(char_display_width('\u{0591}'), 0);
}

#[test]
fn test_char_display_width_control() {
    assert_eq!(char_display_width('\0'), 0);
    assert_eq!(char_display_width('\n'), 0);
    assert_eq!(char_display_width('\x7F'), 0);
}

#[test]
fn test_string_display_width_mixed() {
    assert_eq!(string_display_width("Hello\u{4E16}\u{754C}"), 9);
}

#[test]
fn test_string_display_width_with_combining() {
    assert_eq!(string_display_width("e\u{0301}"), 1);
}

#[test]
fn test_char_upcase_ascii() {
    assert_eq!(char_upcase('a'), 'A');
    assert_eq!(char_upcase('z'), 'Z');
    assert_eq!(char_upcase('A'), 'A');
    assert_eq!(char_upcase('1'), '1');
}

#[test]
fn test_char_downcase_ascii() {
    assert_eq!(char_downcase('A'), 'a');
    assert_eq!(char_downcase('z'), 'z');
}

#[test]
fn test_case_unicode() {
    assert_eq!(char_upcase('\u{00E9}'), '\u{00C9}');
    assert_eq!(char_downcase('\u{00C9}'), '\u{00E9}');
}

#[test]
fn test_turkish_i_uppercase() {
    assert_eq!(char_upcase('i'), 'I');
    assert_eq!(char_downcase('\u{0130}'), 'i');
}

#[test]
fn test_is_upper_lower() {
    assert!(is_upper('A'));
    assert!(!is_upper('a'));
    assert!(is_lower('a'));
    assert!(!is_lower('A'));
    assert!(!is_upper('1'));
    assert!(!is_lower('1'));
}

#[test]
fn test_string_upcase_downcase() {
    assert_eq!(string_upcase("hello"), "HELLO");
    assert_eq!(string_downcase("HELLO"), "hello");
    assert_eq!(string_upcase("caf\u{00E9}"), "CAF\u{00C9}");
    assert_eq!(string_upcase("\u{00DF}"), "SS");
}

#[test]
fn test_ascii_classification() {
    assert!(is_ascii_digit('0'));
    assert!(is_ascii_digit('9'));
    assert!(!is_ascii_digit('a'));

    assert!(is_ascii_alpha('a'));
    assert!(is_ascii_alpha('Z'));
    assert!(!is_ascii_alpha('0'));

    assert!(is_ascii_alnum('a'));
    assert!(is_ascii_alnum('5'));
    assert!(!is_ascii_alnum('!'));
}

#[test]
fn test_whitespace() {
    assert!(is_whitespace(' '));
    assert!(is_whitespace('\t'));
    assert!(is_whitespace('\n'));
    assert!(is_whitespace('\r'));
    assert!(is_whitespace('\x0C'));
    assert!(!is_whitespace('a'));
    assert!(!is_whitespace('\u{00A0}'));
}

#[test]
fn test_word_char() {
    assert!(is_word_char('a'));
    assert!(is_word_char('Z'));
    assert!(is_word_char('5'));
    assert!(is_word_char('_'));
    assert!(!is_word_char(' '));
    assert!(!is_word_char('-'));
    assert!(is_word_char('\u{00E9}'));
}

#[test]
fn test_is_printable() {
    assert!(is_printable('A'));
    assert!(is_printable(' '));
    assert!(!is_printable('\0'));
    assert!(!is_printable('\x7F'));
    assert!(!is_printable('\u{0080}'));
    assert!(is_printable('\u{00A0}'));
}

#[test]
fn test_is_control() {
    assert!(is_control('\0'));
    assert!(is_control('\x1F'));
    assert!(is_control('\x7F'));
    assert!(is_control('\u{0080}'));
    assert!(is_control('\u{009F}'));
    assert!(!is_control(' '));
    assert!(!is_control('A'));
}

#[test]
fn test_general_category() {
    assert_eq!(general_category('A'), GeneralCategory::Letter);
    assert_eq!(general_category('5'), GeneralCategory::Number);
    assert_eq!(general_category(' '), GeneralCategory::Separator);
    assert_eq!(general_category('\u{0300}'), GeneralCategory::Mark);
    assert_eq!(general_category('.'), GeneralCategory::Punct);
    assert_eq!(general_category('+'), GeneralCategory::Symbol);
    assert_eq!(general_category('\0'), GeneralCategory::Other);
}

#[test]
fn test_string_char_count() {
    assert_eq!(string_char_count("hello"), 5);
    assert_eq!(string_char_count("\u{4E16}\u{754C}"), 2);
    assert_eq!(string_char_count(""), 0);
    assert_eq!(string_char_count("caf\u{00E9}"), 4);
}

#[test]
fn test_byte_to_char_pos() {
    let s = "caf\u{00E9}";
    assert_eq!(byte_to_char_pos(s, 0), 0);
    assert_eq!(byte_to_char_pos(s, 1), 1);
    assert_eq!(byte_to_char_pos(s, 3), 3);
    assert_eq!(byte_to_char_pos(s, 5), 4);
}

#[test]
fn test_char_to_byte_pos() {
    let s = "caf\u{00E9}";
    assert_eq!(char_to_byte_pos(s, 0), 0);
    assert_eq!(char_to_byte_pos(s, 3), 3);
    assert_eq!(char_to_byte_pos(s, 4), 5);
}

#[test]
fn test_char_at_byte() {
    let s = "caf\u{00E9}";
    assert_eq!(char_at_byte(s, 0), Some('c'));
    assert_eq!(char_at_byte(s, 3), Some('\u{00E9}'));
    assert_eq!(char_at_byte(s, 5), None);
    assert_eq!(char_at_byte(s, 4), None);
}

#[test]
fn test_roundtrip_encode_decode() {
    let chars = ['A', '\u{00E9}', '\u{4E16}', '\u{1F600}', '\u{0}'];
    for &ch in &chars {
        let mut buf: Vec<u8> = Vec::new();
        let n = encode_utf8(ch, &mut buf);
        let (decoded, consumed) = decode_utf8(&buf[..n]).unwrap();
        assert_eq!(decoded, ch);
        assert_eq!(consumed, n);
    }
}

#[test]
fn test_cjk_extension_b_width() {
    assert_eq!(char_display_width('\u{20000}'), 2);
}

#[test]
fn test_zero_width_chars() {
    assert_eq!(char_display_width('\u{200B}'), 0);
    assert_eq!(char_display_width('\u{200D}'), 0);
    assert_eq!(char_display_width('\u{FEFF}'), 0);
}

#[test]
fn test_string_display_width_fullwidth_forms() {
    assert_eq!(char_display_width('\u{FF21}'), 2);
    assert_eq!(string_display_width("\u{FF21}\u{FF22}\u{FF23}"), 6);
}

#[test]
fn test_char_titlecase() {
    assert_eq!(char_titlecase('a'), 'A');
    assert_eq!(char_titlecase('A'), 'A');
    assert_eq!(char_titlecase('1'), '1');
}

#[test]
fn test_is_combining_mark_variation_selectors() {
    assert!(is_combining_mark('\u{FE00}'));
    assert!(is_combining_mark('\u{FE0F}'));
    assert!(is_combining_mark('\u{E0100}'));
}

#[test]
fn test_general_category_cjk_letter() {
    assert_eq!(general_category('\u{4E16}'), GeneralCategory::Letter);
}

#[test]
fn test_byte_char_pos_empty_string() {
    assert_eq!(byte_to_char_pos("", 0), 0);
    assert_eq!(char_to_byte_pos("", 0), 0);
}

#[test]
fn test_decimal_rendering() {
    assert_eq!(u64_to_decimal(0), "0");
    assert_eq!(u64_to_decimal(7), "7");
    assert_eq!(u64_to_decimal(42), "42");
    assert_eq!(u64_to_decimal(100), "100");
    assert_eq!(u64_to_decimal(987654), "987654");
}

#[test]
fn test_surrogate_range_rejected() {
    // 0xED 0xA0 0x80 encodes the first surrogate codepoint; the decoder
    // must refuse it.
    assert!(decode_utf8(&[0xED, 0xA0, 0x80]).is_none());
    // An overlong two-byte encoding of an ASCII value is refused too.
    assert!(decode_utf8(&[0xC0, 0xAF]).is_none());
}

#[test]
fn test_truncated_sequence_rejected() {
    // The first byte announces three bytes; only two follow.
    assert!(decode_utf8(&[0xE4, 0xB8]).is_none());
}
