//! The guest/host ABI: the hypercall numbers and the fixed guest-physical
//! memory map that every backend and the guest-side runtime agree on.

use vstd::prelude::*;

verus! {

/// Size of guest physical RAM in bytes (16 MiB).
pub const RAM_SIZE: usize = 16 * 1024 * 1024;

/// Base of the linear framebuffer inside guest RAM (1 MiB offset).
pub const FB_ADDR: usize = 0x100000;

/// Base of the embedded read-only disk image (3 MiB offset).
pub const DISK_ADDR: usize = 0x300000;

/// Size reserved for the embedded disk image (1 MiB).
pub const DISK_SIZE: usize = 1024 * 1024;

/// Keyboard mailbox status word: 1 means a key is pending, 0 means empty.
pub const KEYBOARD_STATUS: usize = 0x80000;

/// Keyboard mailbox data word: the pending key as a 32-bit character code.
pub const KEYBOARD_DATA: usize = 0x80004;

/// Framebuffer width in pixels.
pub const SCREEN_WIDTH: usize = 640;

/// Framebuffer height in pixels.
pub const SCREEN_HEIGHT: usize = 480;

/// Guest code is loaded at guest physical address 0 and must stay below the
/// first MMIO window (the keyboard mailbox).
pub const CODE_REGION_SIZE: usize = 0x80000;

/// The explicit guest-to-host calls, passed as a small integer at the
/// architecture's hypercall trap site.
#[derive(Debug, Clone, Copy, PartialEq, Eq, Structural)]
pub enum HyperCall {
    /// Print a byte range of guest memory: arguments are a guest-physical
    /// pointer and a length.
    Print,
    /// Terminate the guest: the argument is an exit code, which the host
    /// ignores beyond halting the guest.
    Exit,
}

impl HyperCall {
    /// Decodes a hypercall number. Call numbers outside the defined set are
    /// rejected, not treated as errors.
    pub fn from_u64(val: u64) -> (r: Option<Self>)
        ensures
            r == (if val == 0 {
                Some(HyperCall::Print)
            } else if val == 1 {
                Some(HyperCall::Exit)
            } else {
                None::<HyperCall>
            }),
    {
        match val {
            0 => Some(Self::Print),
            1 => Some(Self::Exit),
            _ => None,
        }
    }
}

/// The reserved regions of the memory map never overlap and all lie inside
/// `[0, RAM_SIZE)`: guest code stays below the keyboard mailbox, the two
/// mailbox words sit below the framebuffer, the `SCREEN_WIDTH * SCREEN_HEIGHT`
/// pixel framebuffer ends below the disk image, and the disk image ends
/// inside RAM.
pub proof fn lemma_memory_map_disjoint()
    ensures
        CODE_REGION_SIZE <= KEYBOARD_STATUS,
        KEYBOARD_STATUS + 4 <= KEYBOARD_DATA,
        KEYBOARD_DATA + 4 <= FB_ADDR,
        FB_ADDR + 4 * (SCREEN_WIDTH * SCREEN_HEIGHT) <= DISK_ADDR,
        DISK_ADDR + DISK_SIZE <= RAM_SIZE,
{
}

} // verus!
