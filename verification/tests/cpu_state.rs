//! The synthesized architectural state: page tables, segment descriptors,
//! packed attribute words and initial register files.

use aether::abi::RAM_SIZE;
use aether::cpu_setup::{
    PDE_START, PDPTE_START, PML4_START, arm_initial_state, long_mode_code_segment,
    long_mode_data_segment, pack_segment_attributes, write_long_mode_tables, x86_initial_regs,
};
use aether::ram::GuestRam;

#[test]
fn long_mode_tables_identity_map_the_first_four_megabytes() {
    let mut ram = GuestRam::new();
    ram.load_image(b"guestcode");
    write_long_mode_tables(&mut ram);

    // PML4[0] -> PDPT, PDPT[0] -> PD, both present and writable.
    assert_eq!(ram.read_u64(PML4_START), PDPTE_START as u64 | 0x3);
    assert_eq!(ram.read_u64(PDPTE_START), PDE_START as u64 | 0x3);
    // Two 2 MiB huge pages map guest physical 0..4 MiB onto itself.
    assert_eq!(ram.read_u64(PDE_START), 0x83);
    assert_eq!(ram.read_u64(PDE_START + 8), 0x200000 | 0x83);
    // The loaded image below the tables is untouched.
    assert_eq!(ram.read_bytes(0, 9), b"guestcode".to_vec());
}

#[test]
fn code_segment_has_the_long_mode_bits() {
    let cs = long_mode_code_segment();
    assert_eq!(cs.selector, 8);
    assert_eq!(cs.seg_type, 11);
    assert_eq!((cs.present, cs.s, cs.l, cs.g, cs.db), (1, 1, 1, 1, 0));
    assert_eq!(cs.limit, 0xffffffff);
    // Packed for a handle-based facility: P | L | S | G over type 11.
    assert_eq!(pack_segment_attributes(&cs), 0xA09B);
}

#[test]
fn data_segment_is_flat_and_writable() {
    let ds = long_mode_data_segment();
    assert_eq!(ds.selector, 16);
    assert_eq!(ds.seg_type, 3);
    assert_eq!((ds.present, ds.s, ds.l, ds.g), (1, 1, 0, 1));
    assert_eq!(pack_segment_attributes(&ds), 0x8093);
}

#[test]
fn paged_guest_registers_enable_long_mode() {
    let regs = x86_initial_regs();
    assert_eq!(regs.rip, 0);
    assert_eq!(regs.rsp, 0x200000);
    assert_eq!(regs.rflags, 0x2);
    assert_eq!(regs.cr0, 0x80000001);
    assert_eq!(regs.cr3, PML4_START as u64);
    assert_eq!(regs.cr4, 1 << 5);
    assert_eq!(regs.efer, 0x500);
}

#[test]
fn flat_guest_registers_trap_to_host() {
    let st = arm_initial_state();
    assert_eq!(st.pc, 0);
    // EL1h, so the guest's trap instruction reaches the host.
    assert_eq!(st.cpsr, 0x3c4);
    assert_eq!(st.sp, (RAM_SIZE - 4096) as u64);
    assert_eq!(st.sctlr_el1, 0);
    assert_eq!(st.cpacr_el1, 0x300000);
}
