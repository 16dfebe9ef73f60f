//! The guest memory region: word access, image loading, the framebuffer
//! window, and the single-slot keyboard mailbox protocol.

use aether::abi::{DISK_ADDR, FB_ADDR, KEYBOARD_DATA, KEYBOARD_STATUS, RAM_SIZE};
use aether::ram::GuestRam;

#[test]
fn fresh_ram_is_zeroed() {
    let ram = GuestRam::new();
    assert_eq!(ram.read_u32(0), 0);
    assert_eq!(ram.read_u32(KEYBOARD_STATUS), 0);
    assert_eq!(ram.read_u32(RAM_SIZE - 4), 0);
}

#[test]
fn word_roundtrip() {
    let mut ram = GuestRam::new();
    ram.write_u32(0x1000, 0xDEADBEEF);
    assert_eq!(ram.read_u32(0x1000), 0xDEADBEEF);
    ram.write_u64(0x2000, 0x0123_4567_89AB_CDEF);
    assert_eq!(ram.read_u64(0x2000), 0x0123_4567_89AB_CDEF);
    // Little endian: the low byte lands first.
    assert_eq!(ram.read_bytes(0x1000, 4), vec![0xEF, 0xBE, 0xAD, 0xDE]);
}

#[test]
fn image_loads_at_zero() {
    let mut ram = GuestRam::new();
    ram.load_image(b"\x01\x02\x03\x04rest");
    assert_eq!(ram.read_bytes(0, 8), b"\x01\x02\x03\x04rest".to_vec());
    assert_eq!(ram.read_u32(8), 0);
}

#[test]
fn key_injection_delivers_into_empty_slot() {
    let mut ram = GuestRam::new();
    ram.inject_key('a');
    assert_eq!(ram.read_u32(KEYBOARD_STATUS), 1);
    assert_eq!(ram.read_u32(KEYBOARD_DATA), 'a' as u32);
}

#[test]
fn second_key_is_dropped_while_first_is_pending() {
    let mut ram = GuestRam::new();
    ram.inject_key('a');
    ram.inject_key('b');
    // The pending slot is never overwritten: the first key stays visible.
    assert_eq!(ram.read_u32(KEYBOARD_DATA), 'a' as u32);
    assert_eq!(ram.read_u32(KEYBOARD_STATUS), 1);
}

#[test]
fn consuming_acknowledges_the_slot() {
    let mut ram = GuestRam::new();
    assert_eq!(ram.consume_key(), None);
    ram.inject_key('x');
    assert_eq!(ram.consume_key(), Some('x'));
    assert_eq!(ram.read_u32(KEYBOARD_STATUS), 0);
    ram.inject_key('y');
    assert_eq!(ram.consume_key(), Some('y'));
}

#[test]
fn framebuffer_window_reads_back_pixels() {
    let mut ram = GuestRam::new();
    ram.draw_pixel(0, 0, 255, 0, 0);
    ram.draw_pixel(1, 0, 0, 255, 0);
    ram.draw_pixel(639, 479, 0, 0, 255);
    // Off-screen coordinates are ignored.
    ram.draw_pixel(640, 0, 255, 255, 255);
    ram.draw_pixel(0, 480, 255, 255, 255);
    let fb = ram.get_framebuffer(640, 480);
    assert_eq!(fb.len(), 640 * 480);
    assert_eq!(fb[0], 0x00FF0000);
    assert_eq!(fb[1], 0x0000FF00);
    assert_eq!(fb[640 * 480 - 1], 0x000000FF);
    assert_eq!(fb[2], 0);
    assert_eq!(ram.read_u32(FB_ADDR), 0x00FF0000);
}

#[test]
fn fill_screen_paints_every_pixel() {
    let mut ram = GuestRam::new();
    ram.fill_screen(16, 32, 64);
    let fb = ram.get_framebuffer(640, 480);
    assert!(fb.iter().all(|&p| p == 0x00102040));
}

#[test]
fn disk_image_loads_at_its_offset() {
    let mut ram = GuestRam::new();
    assert!(ram.load_disk(b"diskdata"));
    assert_eq!(ram.read_bytes(DISK_ADDR, 8), b"diskdata".to_vec());
    // An image larger than the remaining RAM is refused, not truncated.
    let oversized = vec![1u8; RAM_SIZE - DISK_ADDR + 1];
    assert!(!ram.load_disk(&oversized));
    assert_eq!(ram.read_bytes(DISK_ADDR, 8), b"diskdata".to_vec());
}
