//! Virtual-CPU architectural setup, computed as plain verified values: the
//! identity-mapped long-mode page tables synthesized inside guest memory,
//! the segment descriptors and control registers for a paged 64-bit guest,
//! and the register file for a flat-addressing trap-to-host guest. A native
//! driver copies these values into its facility's own register structures;
//! one wrong attribute bit shows up as a silent triple fault, so the values
//! are pinned here bit by bit.

use vstd::prelude::*;

use crate::abi::RAM_SIZE;
use crate::ram::{
    GuestRam, lemma_put_qword_preserves, lemma_qword_at_frame, lemma_qword_roundtrip, put_qword,
    qword_at,
};

verus! {

/// Guest-physical base of the page-map level 4 table. The guest image must
/// end below this: the tables are host-reserved guest memory.
pub const PML4_START: usize = 0x9000;

/// Guest-physical base of the page-directory-pointer table.
pub const PDPTE_START: usize = 0xA000;

/// Guest-physical base of the page directory.
pub const PDE_START: usize = 0xB000;

/// Page-table entry flags: present and writable.
pub const PTE_PRESENT_WRITE: u64 = 0x3;

/// Page-directory entry flags: present, writable, 2 MiB huge page.
pub const PDE_HUGE: u64 = 0x83;

/// Synthesizes the minimal 3-level identity mapping for the first 4 MiB of
/// guest memory, at the fixed host-reserved offsets: one PML4 entry to the
/// PDPT, one PDPT entry to the page directory, and two 2 MiB huge-page
/// directory entries. Every byte outside the four written entries is left
/// untouched, so a guest image loaded below `PML4_START` is not disturbed.
pub fn write_long_mode_tables(ram: &mut GuestRam)
    requires
        old(ram).wf(),
    ensures
        final(ram).wf(),
        qword_at(final(ram)@, PML4_START as int) == (PDPTE_START as u64) | PTE_PRESENT_WRITE,
        qword_at(final(ram)@, PDPTE_START as int) == (PDE_START as u64) | PTE_PRESENT_WRITE,
        qword_at(final(ram)@, PDE_START as int) == PDE_HUGE,
        qword_at(final(ram)@, PDE_START + 8) == 0x200000u64 | PDE_HUGE,
        forall|j: int|
            0 <= j < RAM_SIZE && !(PML4_START <= j < PML4_START + 8) && !(PDPTE_START <= j
                < PDPTE_START + 8) && !(PDE_START <= j < PDE_START + 16) ==> final(ram)@[j] == old(
                ram,
            )@[j],
    {
        let ghost s0 = ram@;
        ram.write_u64(PML4_START, (PDPTE_START as u64) | PTE_PRESENT_WRITE);
        let ghost s1 = ram@;
        ram.write_u64(PDPTE_START, (PDE_START as u64) | PTE_PRESENT_WRITE);
        let ghost s2 = ram@;
        ram.write_u64(PDE_START, PDE_HUGE);
        let ghost s3 = ram@;
        ram.write_u64(PDE_START + 8, 0x200000u64 | PDE_HUGE);
        proof {
            lemma_qword_roundtrip(s0, PML4_START as int, (PDPTE_START as u64) | PTE_PRESENT_WRITE);
            lemma_qword_roundtrip(s1, PDPTE_START as int, (PDE_START as u64) | PTE_PRESENT_WRITE);
            lemma_qword_roundtrip(s2, PDE_START as int, PDE_HUGE);
            lemma_qword_roundtrip(s3, PDE_START + 8, 0x200000u64 | PDE_HUGE);
            lemma_untouched_range(s1, s2, PDPTE_START as int, PML4_START as int);
            lemma_untouched_range(s2, s3, PDE_START as int, PML4_START as int);
            lemma_untouched_range(s3, ram@, PDE_START + 8, PML4_START as int);
            lemma_untouched_range(s2, s3, PDE_START as int, PDPTE_START as int);
            lemma_untouched_range(s3, ram@, PDE_START + 8, PDPTE_START as int);
            lemma_untouched_range(s3, ram@, PDE_START + 8, PDE_START as int);
        }
    }

/// If one quadword store happened at `a`, the quadword at a disjoint
/// offset `b` is unchanged.
proof fn lemma_untouched_range(s_pre: Seq<u8>, s_post: Seq<u8>, a: int, b: int)
    requires
        0 <= a,
        a + 8 <= s_pre.len(),
        0 <= b,
        b + 8 <= s_pre.len(),
        b + 8 <= a || a + 8 <= b,
        s_post == put_qword(s_pre, a, qword_at(s_post, a)),
    ensures
        qword_at(s_post, b) == qword_at(s_pre, b),
{
    assert forall|j: int| b <= j < b + 8 implies s_post[j] == s_pre[j] by {
        lemma_put_qword_preserves(s_pre, a, qword_at(s_post, a), j);
    }
    lemma_qword_at_frame(s_post, s_pre, b);
}

/// A segment descriptor as a paged 64-bit guest needs it, held as plain
/// fields; a native driver copies them into its own register structure or
/// packs them with `pack_segment_attributes`.
pub struct SegmentDescriptor {
    pub base: u64,
    pub limit: u32,
    pub selector: u16,
    pub seg_type: u8,
    pub present: u8,
    pub dpl: u8,
    pub db: u8,
    pub s: u8,
    pub l: u8,
    pub g: u8,
    pub avl: u8,
}

impl SegmentDescriptor {
    /// Each field fits its width in the packed attribute word.
    pub open spec fn wf(&self) -> bool {
        &&& self.seg_type < 16
        &&& self.present < 2
        &&& self.dpl < 4
        &&& self.db < 2
        &&& self.s < 2
        &&& self.l < 2
        &&& self.g < 2
        &&& self.avl < 2
    }
}

/// The long-mode code segment: selector 1, type 11 (execute/read,
/// accessed), present, code/data (`s`), long-mode bit set, 4 KiB
/// granularity. The long-mode bit is the one whose absence silently leaves
/// the guest in compatibility mode.
pub fn long_mode_code_segment() -> (r: SegmentDescriptor)
    ensures
        r.wf(),
        r.base == 0,
        r.limit == 0xffffffffu32,
        r.selector == 1u16 << 3,
        r.seg_type == 11,
        r.present == 1,
        r.dpl == 0,
        r.db == 0,
        r.s == 1,
        r.l == 1,
        r.g == 1,
        r.avl == 0,
{
    SegmentDescriptor {
        base: 0,
        limit: 0xffffffff,
        selector: 1 << 3,
        seg_type: 11,
        present: 1,
        dpl: 0,
        db: 0,
        s: 1,
        l: 1,
        g: 1,
        avl: 0,
    }
}

/// The flat data segment: selector 2, type 3 (read/write, accessed),
/// present, code/data, 4 KiB granularity. Loaded into every data segment
/// register.
pub fn long_mode_data_segment() -> (r: SegmentDescriptor)
    ensures
        r.wf(),
        r.base == 0,
        r.limit == 0xffffffffu32,
        r.selector == 2u16 << 3,
        r.seg_type == 3,
        r.present == 1,
        r.dpl == 0,
        r.db == 0,
        r.s == 1,
        r.l == 0,
        r.g == 1,
        r.avl == 0,
{
    SegmentDescriptor {
        base: 0,
        limit: 0xffffffff,
        selector: 2 << 3,
        seg_type: 3,
        present: 1,
        dpl: 0,
        db: 0,
        s: 1,
        l: 0,
        g: 1,
        avl: 0,
    }
}

/// Packs a descriptor into the 16-bit attribute word layout that
/// handle-based hypervisor facilities take: type in bits 0..4, then `s`,
/// two `dpl` bits, `present`, `avl` at 12, `l`, `db`, `g`.
pub fn pack_segment_attributes(seg: &SegmentDescriptor) -> (r: u16)
    requires
        seg.wf(),
    ensures
        r == (seg.seg_type as u16) | ((seg.s as u16) << 4) | ((seg.dpl as u16) << 5) | ((
        seg.present as u16) << 7) | ((seg.avl as u16) << 12) | ((seg.l as u16) << 13) | ((
        seg.db as u16) << 14) | ((seg.g as u16) << 15),
{
    (seg.seg_type as u16) | ((seg.s as u16) << 4) | ((seg.dpl as u16) << 5) | ((seg.present
        as u16) << 7) | ((seg.avl as u16) << 12) | ((seg.l as u16) << 13) | ((seg.db as u16) << 14)
        | ((seg.g as u16) << 15)
}

/// The control and general registers that put a virtual CPU straight into
/// paged long mode at guest physical address 0.
pub struct X86InitialRegs {
    pub rip: u64,
    pub rsp: u64,
    pub rflags: u64,
    pub cr0: u64,
    pub cr3: u64,
    pub cr4: u64,
    pub efer: u64,
}

/// Entry at address 0; stack initially at the 2 MiB mark; rflags with only
/// the always-set bit; CR0 with protection and paging (PE | PG); CR3 at the
/// PML4; CR4 with physical address extension (PAE); EFER with long mode
/// enabled and active (LME | LMA).
pub fn x86_initial_regs() -> (r: X86InitialRegs)
    ensures
        r.rip == 0,
        r.rsp == 0x200000,
        r.rflags == 0x2,
        r.cr0 == 0x80000001u64,
        r.cr3 == PML4_START as u64,
        r.cr4 == 1u64 << 5,
        r.efer == 0x500,
{
    X86InitialRegs {
        rip: 0,
        rsp: 0x200000,
        rflags: 0x2,
        cr0: 0x80000001,
        cr3: PML4_START as u64,
        cr4: 1 << 5,
        efer: 0x500,
    }
}

/// The register file for a flat-addressing trap-to-host guest.
pub struct ArmInitialState {
    pub pc: u64,
    pub cpsr: u64,
    pub sp: u64,
    pub sctlr_el1: u64,
    pub cpacr_el1: u64,
}

/// Entry at address 0; the processor state register set to EL1h (0x3c4),
/// without which the guest's explicit trap instruction silently fails to
/// reach the host; stack one page below the top of RAM; the system control
/// register zeroed so the MMU is off and addressing is flat physical; the
/// architectural feature register enabling floating point and SIMD.
pub fn arm_initial_state() -> (r: ArmInitialState)
    ensures
        r.pc == 0,
        r.cpsr == 0x3c4,
        r.sp == (RAM_SIZE - 4096) as u64,
        r.sctlr_el1 == 0,
        r.cpacr_el1 == 0x300000,
{
    ArmInitialState {
        pc: 0,
        cpsr: 0x3c4,
        sp: (RAM_SIZE - 4096) as u64,
        sctlr_el1: 0,
        cpacr_el1: 0x300000,
    }
}

} // verus!
