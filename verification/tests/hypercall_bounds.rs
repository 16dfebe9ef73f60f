//! The `Print` hypercall bounds check: no guest-controlled pointer or
//! length ever reaches guest memory unchecked.

use aether::abi::RAM_SIZE;
use aether::hypercall::{PRINT_LIMIT, extract_print, validate_print};
use aether::ram::GuestRam;

#[test]
fn oversized_length_produces_no_output() {
    let ram = GuestRam::new();
    assert_eq!(extract_print(&ram, 0, PRINT_LIMIT), None);
    assert_eq!(extract_print(&ram, 0, 100_000), None);
}

#[test]
fn out_of_range_pointer_produces_no_output() {
    let ram = GuestRam::new();
    assert_eq!(extract_print(&ram, RAM_SIZE as u64, 1), None);
    assert_eq!(extract_print(&ram, (RAM_SIZE as u64) - 2, 3), None);
    assert_eq!(extract_print(&ram, u64::MAX, 1), None);
}

#[test]
fn valid_range_reproduces_guest_bytes_exactly() {
    let mut ram = GuestRam::new();
    ram.load_image(b"..hello..");
    assert_eq!(extract_print(&ram, 2, 5), Some(b"hello".to_vec()));
    assert_eq!(extract_print(&ram, 0, 0), Some(Vec::new()));
    // The largest in-bounds length under the safety bound still works.
    let max = extract_print(&ram, 0, PRINT_LIMIT - 1).unwrap();
    assert_eq!(max.len(), (PRINT_LIMIT - 1) as usize);
}

#[test]
fn validation_matches_extraction() {
    assert!(validate_print(0, 0));
    assert!(validate_print(0, PRINT_LIMIT - 1));
    assert!(!validate_print(0, PRINT_LIMIT));
    assert!(validate_print((RAM_SIZE as u64) - 5, 5));
    assert!(!validate_print((RAM_SIZE as u64) - 4, 5));
}
