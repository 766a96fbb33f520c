use ferrisetw::le::{i64_from_bits, push_unit_bytes, u16_from_le, u64_from_le};
use ferrisetw::text::{format_three_numbers, format_two_numbers, hex_string, push_decimal};
use ferrisetw::utf16::push_utf16;

#[test]
fn decimal_numbers() {
    for n in [0, 7, 10, 99, 100, 65535, 1_000_000, usize::MAX] {
        let mut text = "n=".to_string();
        push_decimal(&mut text, n);
        assert_eq!(text, format!("n={}", n));
    }
}

#[test]
fn numbers_in_messages() {
    assert_eq!(format_two_numbers("a ", 1, " b ", 20, " c"), "a 1 b 20 c");
    assert_eq!(
        format_three_numbers("a ", 1, " b ", 20, " c ", 300),
        "a 1 b 20 c 300"
    );
}

#[test]
fn different_bytes_have_different_hexadecimal() {
    assert_eq!(hex_string(&[]), "");
    assert_eq!(hex_string(&[0x00, 0x9A, 0xFF]), "009aff");
    assert_ne!(hex_string(&[0x01, 0x23]), hex_string(&[0x12, 0x30]));
}

#[test]
fn units_are_those_of_the_standard_library() {
    for text in ["", "abc", "\u{D7FF}\u{E000}\u{FFFF}\u{10000}\u{1D11E}\u{10FFFF}"] {
        let mut units = vec![1u16];
        push_utf16(&mut units, text);
        let expected: Vec<u16> = text.encode_utf16().collect();
        assert_eq!(units[1..], expected[..]);
        assert_eq!(units[0], 1);
    }
}

#[test]
fn little_endian_numbers() {
    assert_eq!(u16_from_le(0x34, 0x12), 0x1234);
    assert_eq!(
        u64_from_le(&[9, 8, 7, 6, 5, 4, 3, 2, 1, 0], 1),
        u64::from_le_bytes([8, 7, 6, 5, 4, 3, 2, 1])
    );
    assert_eq!(i64_from_bits(u64::MAX), -1);
    assert_eq!(i64_from_bits(1 << 63), i64::MIN);
    assert_eq!(i64_from_bits((1 << 63) - 1), i64::MAX);
    let mut bytes = vec![7];
    push_unit_bytes(&mut bytes, &[0x1234, 0xFF00]);
    assert_eq!(bytes, vec![7, 0x34, 0x12, 0x00, 0xFF]);
}
