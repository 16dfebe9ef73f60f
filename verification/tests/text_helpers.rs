//! Decimal formatting and the byte-prefix test.

use aether::text::{format_i32, starts_with};

#[test]
fn formats_decimal_exactly() {
    assert_eq!(format_i32(0), b"0".to_vec());
    assert_eq!(format_i32(7), b"7".to_vec());
    assert_eq!(format_i32(42), b"42".to_vec());
    assert_eq!(format_i32(1000), b"1000".to_vec());
    assert_eq!(format_i32(-5), b"-5".to_vec());
    assert_eq!(format_i32(i32::MAX), b"2147483647".to_vec());
    assert_eq!(format_i32(i32::MIN), b"-2147483648".to_vec());
}

#[test]
fn prefix_test() {
    assert!(starts_with(b"cat hello.txt", b"cat "));
    assert!(!starts_with(b"cat", b"cat "));
    assert!(starts_with(b"anything", b""));
    assert!(starts_with(b"same", b"same"));
    assert!(!starts_with(b"saMe", b"same"));
    assert!(!starts_with(b"", b"x"));
}
