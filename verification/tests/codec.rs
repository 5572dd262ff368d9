//! HEX and ASCII notation, texts and numbers.

use bluetooth_monitor::codec::{format_ascii, format_hex, hex_readable, parse_hex, HexError};
use bluetooth_monitor::monitor::texts;
use bluetooth_monitor::numbers::{copied, read_unsigned_at, F32Bits, F64Bits};
use bluetooth_monitor::protocol::Endian;
use bluetooth_monitor::text;

#[test]
fn parses_spaced_hex() {
    assert_eq!(parse_hex("01 02 AA ff").unwrap(), vec![0x01, 0x02, 0xAA, 0xFF]);
}

#[test]
fn parses_compact_hex() {
    assert_eq!(parse_hex("0102Aaff").unwrap(), vec![0x01, 0x02, 0xAA, 0xFF]);
}

#[test]
fn parses_prefixed_hex() {
    assert_eq!(parse_hex("0x01,0x02,0xA0").unwrap(), vec![0x01, 0x02, 0xA0]);
}

#[test]
fn empty_hex_is_no_bytes() {
    assert_eq!(parse_hex("").unwrap(), Vec::<u8>::new());
    assert_eq!(parse_hex("  - : , _ ").unwrap(), Vec::<u8>::new());
}

#[test]
fn prefixes_of_both_cases_are_dropped() {
    assert_eq!(parse_hex("0X0a0x0B").unwrap(), vec![0x0A, 0x0B]);
    assert_eq!(parse_hex("00x1").unwrap(), Vec::from([0x01]));
}

#[test]
fn odd_number_of_digits_is_refused() {
    let error = parse_hex("123").unwrap_err();
    assert!(matches!(error, HexError::OddLength));
    assert_eq!(error.message(), "HEX 数据长度必须是偶数");
}

#[test]
fn invalid_digits_are_refused() {
    let error = parse_hex("12 zz").unwrap_err();
    assert!(matches!(&error, HexError::InvalidByte(token) if token == "ZZ"));
    assert_eq!(error.message(), "无效的 HEX 字节: ZZ");
    assert!(matches!(parse_hex("é").unwrap_err(), HexError::InvalidByte(token) if token == "é"));
}

#[test]
fn plus_sign_before_a_digit_is_read_like_an_integer() {
    assert_eq!(parse_hex("+7").unwrap(), vec![7]);
    assert!(matches!(parse_hex("7+").unwrap_err(), HexError::InvalidByte(_)));
}

#[test]
fn cut_characters_are_noticed() {
    assert!(hex_readable("01 02"));
    assert!(hex_readable("123"));
    assert!(hex_readable("zz"));
    assert!(hex_readable("é"));
    assert!(!hex_readable("中1"));
    assert!(hex_readable("zz中1"));
}

#[test]
fn hex_notation_is_read_back() {
    let data: Vec<u8> = (0u8..=255).collect();
    let text = format_hex(&data);
    assert_eq!(&text[..11], "00 01 02 03");
    assert_eq!(&text[text.len() - 5..], "FE FF");
    assert_eq!(parse_hex(&text).unwrap(), data);
    assert_eq!(format_hex(&[]), "");
}

#[test]
fn ascii_notation_shows_printable_bytes() {
    assert_eq!(format_ascii(b"A b~\x7F\x1F\xFF\n"), "A b~....");
    for byte in 0u8..=255 {
        let shown = if byte.is_ascii_graphic() || byte == b' ' {
            (byte as char).to_string()
        } else {
            ".".to_owned()
        };
        assert_eq!(format_ascii(&[byte]), shown);
    }
}

#[test]
fn white_space_is_that_of_the_standard_library() {
    for code in 0..=0x10FFFFu32 {
        if let Some(c) = char::from_u32(code) {
            assert_eq!(text::char_is_space(c), c.is_whitespace(), "{code:X}");
        }
    }
}

#[test]
fn trimming_and_lower_case() {
    assert_eq!(text::trimmed(" \t a b\u{3000}\n"), "a b");
    assert_eq!(text::trimmed("   "), "");
    assert_eq!(text::lower_chars(&['A', 'z', 'É', '1']), vec!['a', 'z', 'É', '1']);
}

#[test]
fn texts_are_ordered_like_strings() {
    let samples = ["", "a", "A", "ab", "b", "é", "中", "😀", "a\u{0}"];
    for a in samples {
        for b in samples {
            assert_eq!(text::text_not_after(a, b), a <= b, "{a:?} {b:?}");
        }
    }
}

#[test]
fn decimal_notation() {
    for n in [0, 7, 10, 99, 100, 1_000, u64::MAX] {
        assert_eq!(text::decimal_text(n), n.to_string());
    }
    assert_eq!(text::padded_decimal_text(5, 2), "05");
    assert_eq!(text::padded_decimal_text(1_234, 3), "1234");
}

#[test]
fn integers_of_both_byte_orders() {
    let data = [0x12, 0x34, 0x56, 0x78];
    assert_eq!(read_unsigned_at(&data, 0, 4, Endian::Big), 0x1234_5678);
    assert_eq!(read_unsigned_at(&data, 0, 4, Endian::Little), 0x7856_3412);
    assert_eq!(read_unsigned_at(&data, 1, 2, Endian::Little), 0x5634);
    assert_eq!(read_unsigned_at(&data, 3, 1, Endian::Big), 0x78);
    assert_eq!(copied(&data), data.to_vec());
    let mirrored: Vec<u8> = data.iter().rev().copied().collect();
    assert_eq!(
        read_unsigned_at(&data, 0, 4, Endian::Little),
        read_unsigned_at(&mirrored, 0, 4, Endian::Big)
    );
}

#[test]
fn bit_patterns_behave_like_numbers() {
    let samples = [
        0.0f64,
        -0.0,
        1.0,
        -1.5,
        f64::MAX,
        f64::MIN_POSITIVE,
        f64::INFINITY,
        f64::NEG_INFINITY,
        f64::NAN,
        -f64::NAN,
    ];
    for a in samples {
        let x = F64Bits { bits: a.to_bits() };
        assert_eq!(x.is_finite(), a.is_finite());
        assert_eq!(x.is_nan(), a.is_nan());
        for b in samples {
            let y = F64Bits { bits: b.to_bits() };
            assert_eq!(x == y, a == b, "{a} {b}");
        }
    }
    assert_eq!(F64Bits::one().bits, 1.0f64.to_bits());
    assert_eq!(F64Bits::zero().bits, 0.0f64.to_bits());
    for a in [0.0f32, -0.0, 2.5, f32::INFINITY, f32::NAN] {
        let x = F32Bits { bits: a.to_bits() };
        assert_eq!(x.is_finite(), a.is_finite());
        assert_eq!(x.is_nan(), a.is_nan());
        for b in [0.0f32, -0.0, 2.5, f32::INFINITY, f32::NAN] {
            assert_eq!(x == F32Bits { bits: b.to_bits() }, a == b);
        }
    }
}

#[test]
fn signed_and_hexadecimal_texts() {
    assert_eq!(texts::signed_text(-127), "-127");
    assert_eq!(texts::signed_text(i16::MIN), "-32768");
    assert_eq!(texts::signed_text(20), "20");
    assert_eq!(texts::hex_word_text(0x004C), "0x004C");
    assert_eq!(texts::appearance_text(Some(0x03C1)), "0x03C1 (961)");
    assert_eq!(texts::appearance_text(None), "-");
    assert_eq!(texts::signed_or_hyphen(Some(4)), "4");
    assert_eq!(texts::signed_or_hyphen(None), "-");
}

#[test]
fn every_notation_of_bytes_is_read_back() {
    let data = vec![0x00, 0xAB, 0x0C];
    for text in ["00AB0C", "00ab0c", "00,aB:0C", "0x00 0Xab-0x0c", "_0 0 a b\t0 c_", "00-AB-0C"] {
        assert_eq!(parse_hex(text).unwrap(), data);
    }
}
