//! The fixed memory map: hypercall numbers decode and the reserved regions
//! neither overlap nor leave guest RAM.

use aether::abi::{
    CODE_REGION_SIZE, DISK_ADDR, DISK_SIZE, FB_ADDR, HyperCall, KEYBOARD_DATA, KEYBOARD_STATUS,
    RAM_SIZE, SCREEN_HEIGHT, SCREEN_WIDTH,
};

#[test]
fn hypercall_numbers_decode() {
    assert_eq!(HyperCall::from_u64(0), Some(HyperCall::Print));
    assert_eq!(HyperCall::from_u64(1), Some(HyperCall::Exit));
    assert_eq!(HyperCall::from_u64(2), None);
    assert_eq!(HyperCall::from_u64(u64::MAX), None);
}

#[test]
fn reserved_regions_do_not_overlap() {
    let fb_bytes = SCREEN_WIDTH * SCREEN_HEIGHT * 4;

    // Guest code region ends before the keyboard mailbox.
    assert!(CODE_REGION_SIZE <= KEYBOARD_STATUS);
    // The two mailbox words are distinct and end before the framebuffer.
    assert!(KEYBOARD_STATUS + 4 <= KEYBOARD_DATA);
    assert!(KEYBOARD_DATA + 4 <= FB_ADDR);
    // The framebuffer ends before the disk image.
    assert!(FB_ADDR + fb_bytes <= DISK_ADDR);
    // The disk image ends inside RAM.
    assert!(DISK_ADDR + DISK_SIZE <= RAM_SIZE);
}

#[test]
fn reserved_regions_lie_inside_ram() {
    assert!(KEYBOARD_STATUS < RAM_SIZE);
    assert!(KEYBOARD_DATA < RAM_SIZE);
    assert!(FB_ADDR < RAM_SIZE);
    assert!(DISK_ADDR < RAM_SIZE);
    assert!(SCREEN_WIDTH == 640 && SCREEN_HEIGHT == 480);
}
