//! The per-platform backend shells: verified guest-memory preparation and
//! the explicit unsupported fallback.

use aether::abi::DISK_ADDR;
use aether::backend::{Backend, ExitReason};
use aether::platform::{
    AndroidBackend, DragonFlyBackend, FreeBsdBackend, LinuxBackend, MacBackend, NetBsdBackend,
    OpenBsdBackend, WindowsBackend,
};

#[test]
fn shells_report_their_native_facility() {
    assert_eq!(LinuxBackend::new(b"x").name(), "KVM (Linux)");
    assert_eq!(MacBackend::new(b"x").name(), "Hypervisor.framework (Apple Silicon)");
    assert_eq!(WindowsBackend::new(b"x").name(), "WHV (Windows)");
    assert_eq!(AndroidBackend::new().name(), "Android AVF (Stub)");
    assert_eq!(FreeBsdBackend::new().name(), "bhyve");
    assert_eq!(OpenBsdBackend::new().name(), "OpenBSD vmm");
    assert_eq!(NetBsdBackend::new().name(), "NetBSD NVMM");
    assert_eq!(DragonFlyBackend::new().name(), "DragonFlyBSD VMM");
}

#[test]
fn unsupported_steps_degrade_to_halt() {
    assert_eq!(LinuxBackend::new(b"").step(), ExitReason::Halt);
    assert_eq!(MacBackend::new(b"").step(), ExitReason::Halt);
    assert_eq!(WindowsBackend::new(b"").step(), ExitReason::Halt);
    assert_eq!(FreeBsdBackend::new().step(), ExitReason::Halt);
    assert_eq!(OpenBsdBackend::new().step(), ExitReason::Halt);
    assert_eq!(NetBsdBackend::new().step(), ExitReason::Halt);
    assert_eq!(DragonFlyBackend::new().step(), ExitReason::Halt);
    // The placeholder yields, as a stub that pretends to run.
    assert_eq!(AndroidBackend::new().step(), ExitReason::Yield);
}

#[test]
fn fresh_shell_mailbox_is_empty_and_keeps_only_the_first_key() {
    // A freshly created backend's guest RAM is zeroed, so the mailbox slot
    // is empty; two rapid injections with no guest consumption leave only
    // the first key visible.
    let mut vm = LinuxBackend::new(b"guest");
    assert_eq!(vm.core.ram.read_u32(aether::abi::KEYBOARD_STATUS), 0);
    vm.inject_key('a');
    vm.inject_key('b');
    assert_eq!(vm.core.ram.read_u32(aether::abi::KEYBOARD_DATA), 'a' as u32);
    assert_eq!(vm.core.ram.read_u32(aether::abi::KEYBOARD_STATUS), 1);
}

#[test]
fn memory_backed_shells_serve_the_mailbox_and_framebuffer() {
    let mut vm = MacBackend::new(b"image");
    vm.inject_key('q');
    vm.inject_key('r');
    // The single-slot protocol also holds through the shells: only the
    // first key is delivered.
    assert_eq!(vm.core.ram.read_u32(aether::abi::KEYBOARD_DATA), 'q' as u32);
    let fb = vm.get_framebuffer(640, 480);
    assert_eq!(fb.len(), 640 * 480);
    assert!(vm.get_framebuffer(usize::MAX, 3).is_empty());
}

#[test]
fn stub_framebuffers_are_empty() {
    assert!(FreeBsdBackend::new().get_framebuffer(640, 480).is_empty());
    assert!(AndroidBackend::new().get_framebuffer(640, 480).is_empty());
}

#[test]
fn disk_image_loads_through_the_shell() {
    let mut vm = MacBackend::new(b"image");
    assert!(vm.load_disk(b"fsdata"));
    assert_eq!(vm.core.ram.read_bytes(DISK_ADDR, 6), b"fsdata".to_vec());
}

#[test]
fn paged_shells_prepare_the_tables() {
    let vm = LinuxBackend::new(b"tiny");
    assert_eq!(vm.core.ram.read_u64(aether::cpu_setup::PML4_START), 0xA003);
    assert_eq!(vm.core.ram.read_bytes(0, 4), b"tiny".to_vec());
    let vm = WindowsBackend::new(b"tiny");
    assert_eq!(vm.core.ram.read_u64(aether::cpu_setup::PML4_START), 0xA003);
}
