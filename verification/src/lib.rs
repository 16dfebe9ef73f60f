//! A minimal hardware-virtualization host core: guest-physical memory with a
//! fixed memory map, hypercall decoding, normalized exit reasons, per-platform
//! backend shells, and a cooperative round-robin scheduler.

pub mod abi;
pub mod backend;
pub mod console;
pub mod cpu_setup;
pub mod emulated;
pub mod ext2;
pub mod hypercall;
pub mod platform;
pub mod ram;
pub mod scheduler;
pub mod text;
