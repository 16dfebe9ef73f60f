//! One backend shell per host operating system. Each shell owns the guest
//! memory region and performs everything a backend does short of entering
//! the native hypervisor: allocating and zeroing guest RAM, loading the
//! guest image with its bounds check, synthesizing architectural state, and
//! serving the framebuffer window and the keyboard mailbox. Entering the
//! native facility itself takes device I/O and raw memory sharing that the
//! verified library does not perform; without that host glue a shell's
//! `step` reports the run failure as `Halt`, so the scheduler retires the
//! guest instead of looping on a broken virtual CPU.

use vstd::prelude::*;

use crate::abi::{CODE_REGION_SIZE, DISK_ADDR, FB_ADDR, RAM_SIZE};
use crate::backend::{Backend, ExitReason};
use crate::cpu_setup::{PDE_START, PDPTE_START, PML4_START, write_long_mode_tables};
use crate::ram::{GuestRam, fb_word, framebuffer_copy, inject_spec, qword_at};

verus! {

/// The portable core every memory-backed shell shares: the guest memory
/// region with the image loaded at guest physical address 0.
pub struct VmCore {
    pub ram: GuestRam,
}

impl VmCore {
    /// The region spans the whole of guest RAM.
    pub open spec fn wf(&self) -> bool {
        self.ram.wf()
    }

    /// Allocates and zeroes the region and writes the guest image at
    /// address 0. An image that exceeds the reserved code region is a fatal
    /// host-configuration error; the embedding driver checks before calling.
    pub fn new(image: &[u8]) -> (r: VmCore)
        requires
            image@.len() <= CODE_REGION_SIZE,
        ensures
            r.wf(),
            forall|i: int| 0 <= i < image@.len() ==> r.ram@[i] == image@[i],
            forall|i: int| image@.len() <= i < RAM_SIZE ==> r.ram@[i] == 0u8,
    {
        let mut ram = GuestRam::new();
        ram.load_image(image);
        VmCore { ram }
    }

    /// The framebuffer window, copied; empty when the size does not fit.
    pub fn get_framebuffer(&self, width: usize, height: usize) -> (r: Vec<u32>)
        requires
            self.wf(),
        ensures
            4 * (width * height) <= RAM_SIZE - FB_ADDR ==> r@.len() == width * height && forall|
                i: int,
            |
                0 <= i < width * height ==> r@[i] == fb_word(self.ram@, i),
            4 * (width * height) > RAM_SIZE - FB_ADDR ==> r@.len() == 0,
    {
        framebuffer_copy(&self.ram, width, height)
    }

    /// One keystroke through the mailbox protocol: delivered only when the
    /// guest has consumed the previous key, silently dropped otherwise.
    pub fn inject_key(&mut self, c: char)
        requires
            old(self).wf(),
        ensures
            final(self).wf(),
            final(self).ram@ == inject_spec(old(self).ram@, c),
    {
        self.ram.inject_key(c);
    }
}

/// The ioctl-style hypervisor backend. The verified shell prepares guest
/// memory — image at 0 and, for a paged 64-bit guest, the identity-mapped
/// long-mode tables at their host-reserved offsets — for the host glue that
/// opens the facility, maps the region, and drives the virtual CPU.
pub struct LinuxBackend {
    pub core: VmCore,
}

impl LinuxBackend {
    /// Prepares guest memory for a paged 64-bit guest: the image must end
    /// below the page tables, which are then synthesized behind it.
    pub fn new(image: &[u8]) -> (r: LinuxBackend)
        requires
            image@.len() <= PML4_START,
        ensures
            r.inv(),
            forall|i: int| 0 <= i < image@.len() ==> r.core.ram@[i] == image@[i],
            qword_at(r.core.ram@, PML4_START as int) == (PDPTE_START as u64) | 0x3,
            qword_at(r.core.ram@, PDPTE_START as int) == (PDE_START as u64) | 0x3,
            qword_at(r.core.ram@, PDE_START as int) == 0x83u64,
            qword_at(r.core.ram@, PDE_START + 8) == 0x200000u64 | 0x83,
            forall|i: int|
                image@.len() <= i < RAM_SIZE && !(PML4_START <= i < PML4_START + 8) && !(
                PDPTE_START <= i < PDPTE_START + 8) && !(PDE_START <= i < PDE_START + 16)
                    ==> r.core.ram@[i] == 0u8,
    {
        let mut core = VmCore::new(image);
        let ghost loaded = core.ram@;
        write_long_mode_tables(&mut core.ram);
        proof {
            assert forall|i: int| 0 <= i < image@.len() implies core.ram@[i] == loaded[i] by {}
            assert forall|i: int|
                image@.len() <= i < RAM_SIZE && !(PML4_START <= i < PML4_START + 8) && !(
                PDPTE_START <= i < PDPTE_START + 8) && !(PDE_START <= i < PDE_START + 16) implies
                core.ram@[i] == 0u8 by {
                assert(core.ram@[i] == loaded[i]);
            }
        }
        LinuxBackend { core }
    }
}

impl Backend for LinuxBackend {
    open spec fn inv(&self) -> bool {
        self.core.wf()
    }

    fn name(&self) -> (r: &'static str) {
        "KVM (Linux)"
    }

    /// Without the host glue that enters the native facility, the run fails
    /// and the failure degrades to `Halt`.
    fn step(&mut self) -> (r: ExitReason)
        ensures
            r is Halt,
            *final(self) == *old(self),
    {
        ExitReason::Halt
    }

    fn get_framebuffer(&self, width: usize, height: usize) -> (r: Vec<u32>)
        ensures
            4 * (width * height) <= RAM_SIZE - FB_ADDR ==> r@.len() == width * height && forall|
                i: int,
            |
                0 <= i < width * height ==> r@[i] == fb_word(self.core.ram@, i),
            4 * (width * height) > RAM_SIZE - FB_ADDR ==> r@.len() == 0,
    {
        self.core.get_framebuffer(width, height)
    }

    fn inject_key(&mut self, c: char)
        ensures
            final(self).core.ram@ == inject_spec(old(self).core.ram@, c),
    {
        self.core.inject_key(c);
    }
}

/// The handle-based hypervisor backend for a flat-addressing guest with a
/// trap-to-host hypercall instruction. The verified shell prepares guest
/// memory, including the optional disk image at its reserved offset.
pub struct MacBackend {
    pub core: VmCore,
}

impl MacBackend {
    /// Loads the guest image at address 0; the architectural register
    /// values come from `arm_initial_state`.
    pub fn new(image: &[u8]) -> (r: MacBackend)
        requires
            image@.len() <= CODE_REGION_SIZE,
        ensures
            r.inv(),
            forall|i: int| 0 <= i < image@.len() ==> r.core.ram@[i] == image@[i],
            forall|i: int| image@.len() <= i < RAM_SIZE ==> r.core.ram@[i] == 0u8,
    {
        MacBackend { core: VmCore::new(image) }
    }

    /// Copies a disk image to its reserved offset, if it fits; absence or
    /// an oversized image is non-fatal and leaves the region zeroed.
    pub fn load_disk(&mut self, disk: &[u8]) -> (loaded: bool)
        requires
            old(self).inv(),
        ensures
            final(self).inv(),
            loaded == (disk@.len() <= RAM_SIZE - DISK_ADDR),
            loaded ==> forall|i: int|
                0 <= i < disk@.len() ==> final(self).core.ram@[DISK_ADDR + i] == disk@[i],
            loaded ==> forall|i: int|
                (0 <= i < DISK_ADDR || DISK_ADDR + disk@.len() <= i < RAM_SIZE) ==> final(self).core.ram@[i] == old(self).core.ram@[i],
            !loaded ==> final(self).core.ram@ == old(self).core.ram@,
    {
        self.core.ram.load_disk(disk)
    }
}

impl Backend for MacBackend {
    open spec fn inv(&self) -> bool {
        self.core.wf()
    }

    fn name(&self) -> (r: &'static str) {
        "Hypervisor.framework (Apple Silicon)"
    }

    /// Without the host glue that enters the native facility, the run fails
    /// and the failure degrades to `Halt`.
    fn step(&mut self) -> (r: ExitReason)
        ensures
            r is Halt,
            *final(self) == *old(self),
    {
        ExitReason::Halt
    }

    fn get_framebuffer(&self, width: usize, height: usize) -> (r: Vec<u32>)
        ensures
            4 * (width * height) <= RAM_SIZE - FB_ADDR ==> r@.len() == width * height && forall|
                i: int,
            |
                0 <= i < width * height ==> r@[i] == fb_word(self.core.ram@, i),
            4 * (width * height) > RAM_SIZE - FB_ADDR ==> r@.len() == 0,
    {
        self.core.get_framebuffer(width, height)
    }

    fn inject_key(&mut self, c: char)
        ensures
            final(self).core.ram@ == inject_spec(old(self).core.ram@, c),
    {
        self.core.inject_key(c);
    }
}

/// The partition-API hypervisor backend for a paged 64-bit guest; prepared
/// like the ioctl-style one, with the attribute words packed by
/// `pack_segment_attributes`.
pub struct WindowsBackend {
    pub core: VmCore,
}

impl WindowsBackend {
    /// Prepares guest memory for a paged 64-bit guest.
    pub fn new(image: &[u8]) -> (r: WindowsBackend)
        requires
            image@.len() <= PML4_START,
        ensures
            r.inv(),
            forall|i: int| 0 <= i < image@.len() ==> r.core.ram@[i] == image@[i],
            qword_at(r.core.ram@, PML4_START as int) == (PDPTE_START as u64) | 0x3,
            qword_at(r.core.ram@, PDPTE_START as int) == (PDE_START as u64) | 0x3,
            qword_at(r.core.ram@, PDE_START as int) == 0x83u64,
            qword_at(r.core.ram@, PDE_START + 8) == 0x200000u64 | 0x83,
            forall|i: int|
                image@.len() <= i < RAM_SIZE && !(PML4_START <= i < PML4_START + 8) && !(
                PDPTE_START <= i < PDPTE_START + 8) && !(PDE_START <= i < PDE_START + 16)
                    ==> r.core.ram@[i] == 0u8,
    {
        let mut core = VmCore::new(image);
        let ghost loaded = core.ram@;
        write_long_mode_tables(&mut core.ram);
        proof {
            assert forall|i: int| 0 <= i < image@.len() implies core.ram@[i] == loaded[i] by {}
            assert forall|i: int|
                image@.len() <= i < RAM_SIZE && !(PML4_START <= i < PML4_START + 8) && !(
                PDPTE_START <= i < PDPTE_START + 8) && !(PDE_START <= i < PDE_START + 16) implies
                core.ram@[i] == 0u8 by {
                assert(core.ram@[i] == loaded[i]);
            }
        }
        WindowsBackend { core }
    }
}

impl Backend for WindowsBackend {
    open spec fn inv(&self) -> bool {
        self.core.wf()
    }

    fn name(&self) -> (r: &'static str) {
        "WHV (Windows)"
    }

    /// Without the host glue that enters the native facility, the run fails
    /// and the failure degrades to `Halt`.
    fn step(&mut self) -> (r: ExitReason)
        ensures
            r is Halt,
            *final(self) == *old(self),
    {
        ExitReason::Halt
    }

    fn get_framebuffer(&self, width: usize, height: usize) -> (r: Vec<u32>)
        ensures
            4 * (width * height) <= RAM_SIZE - FB_ADDR ==> r@.len() == width * height && forall|
                i: int,
            |
                0 <= i < width * height ==> r@[i] == fb_word(self.core.ram@, i),
            4 * (width * height) > RAM_SIZE - FB_ADDR ==> r@.len() == 0,
    {
        self.core.get_framebuffer(width, height)
    }

    fn inject_key(&mut self, c: char)
        ensures
            final(self).core.ram@ == inject_spec(old(self).core.ram@, c),
    {
        self.core.inject_key(c);
    }
}

/// Placeholder for future Android virtualization-framework support: steps
/// report a yield and the framebuffer is empty.
pub struct AndroidBackend;

impl AndroidBackend {
    pub fn new() -> (r: AndroidBackend)
        ensures
            r.inv(),
    {
        AndroidBackend
    }
}

impl Backend for AndroidBackend {
    open spec fn inv(&self) -> bool {
        true
    }

    fn name(&self) -> (r: &'static str) {
        "Android AVF (Stub)"
    }

    fn step(&mut self) -> (r: ExitReason)
        ensures
            r is Yield,
            *final(self) == *old(self),
    {
        ExitReason::Yield
    }

    fn get_framebuffer(&self, _width: usize, _height: usize) -> (r: Vec<u32>)
        ensures
            r@.len() == 0,
    {
        Vec::new()
    }
}

/// The bhyve backend is not implemented: an explicit unsupported variant
/// whose every step reports the failed run as `Halt`.
pub struct FreeBsdBackend;

impl FreeBsdBackend {
    pub fn new() -> (r: FreeBsdBackend)
        ensures
            r.inv(),
    {
        FreeBsdBackend
    }
}

impl Backend for FreeBsdBackend {
    open spec fn inv(&self) -> bool {
        true
    }

    fn name(&self) -> (r: &'static str) {
        "bhyve"
    }

    fn step(&mut self) -> (r: ExitReason)
        ensures
            r is Halt,
            *final(self) == *old(self),
    {
        ExitReason::Halt
    }

    fn get_framebuffer(&self, _width: usize, _height: usize) -> (r: Vec<u32>)
        ensures
            r@.len() == 0,
    {
        Vec::new()
    }
}

/// The vmm backend is not implemented: an explicit unsupported variant.
pub struct OpenBsdBackend;

impl OpenBsdBackend {
    pub fn new() -> (r: OpenBsdBackend)
        ensures
            r.inv(),
    {
        OpenBsdBackend
    }
}

impl Backend for OpenBsdBackend {
    open spec fn inv(&self) -> bool {
        true
    }

    fn name(&self) -> (r: &'static str) {
        "OpenBSD vmm"
    }

    fn step(&mut self) -> (r: ExitReason)
        ensures
            r is Halt,
            *final(self) == *old(self),
    {
        ExitReason::Halt
    }

    fn get_framebuffer(&self, _width: usize, _height: usize) -> (r: Vec<u32>)
        ensures
            r@.len() == 0,
    {
        Vec::new()
    }
}

/// The nvmm backend is not implemented: an explicit unsupported variant.
pub struct NetBsdBackend;

impl NetBsdBackend {
    pub fn new() -> (r: NetBsdBackend)
        ensures
            r.inv(),
    {
        NetBsdBackend
    }
}

impl Backend for NetBsdBackend {
    open spec fn inv(&self) -> bool {
        true
    }

    fn name(&self) -> (r: &'static str) {
        "NetBSD NVMM"
    }

    fn step(&mut self) -> (r: ExitReason)
        ensures
            r is Halt,
            *final(self) == *old(self),
    {
        ExitReason::Halt
    }

    fn get_framebuffer(&self, _width: usize, _height: usize) -> (r: Vec<u32>)
        ensures
            r@.len() == 0,
    {
        Vec::new()
    }
}

/// The DragonFly vmm backend is not implemented: an explicit unsupported
/// variant.
pub struct DragonFlyBackend;

impl DragonFlyBackend {
    pub fn new() -> (r: DragonFlyBackend)
        ensures
            r.inv(),
    {
        DragonFlyBackend
    }
}

impl Backend for DragonFlyBackend {
    open spec fn inv(&self) -> bool {
        true
    }

    fn name(&self) -> (r: &'static str) {
        "DragonFlyBSD VMM"
    }

    fn step(&mut self) -> (r: ExitReason)
        ensures
            r is Halt,
            *final(self) == *old(self),
    {
        ExitReason::Halt
    }

    fn get_framebuffer(&self, _width: usize, _height: usize) -> (r: Vec<u32>)
        ensures
            r@.len() == 0,
    {
        Vec::new()
    }
}

} // verus!
