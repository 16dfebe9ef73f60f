//! The virtualization backend abstraction: the normalized exit reason, the
//! classification of raw native exits, and the uniform lifecycle a concrete
//! hypervisor driver implements.

use vstd::prelude::*;

verus! {

/// Why control returned from guest execution to the host, normalized across
/// native hypervisor facilities. Produced fresh by every `step` call.
#[derive(Debug, Clone, Copy, PartialEq, Eq, Structural)]
pub enum ExitReason {
    /// Time slice expired or the guest voluntarily yielded.
    Yield,
    /// Port I/O access.
    Io(u16),
    /// Memory-mapped I/O access at the given guest-physical address.
    Mmio(u64),
    /// The guest halted, requested termination, or the native run failed.
    Halt,
    /// A native exit not otherwise classified.
    Unknown,
}

/// A raw native VM exit, as a backend driver observes it before
/// normalization. One value of this type stands for whichever native exit
/// code the host facility reported.
#[derive(Debug, Clone, Copy, PartialEq, Eq, Structural)]
pub enum NativeExit {
    /// An explicit hypercall trap (the host side effect is handled before
    /// resuming, so the scheduler sees a yield).
    Hypercall,
    /// A read of unmapped guest memory at the given address.
    MmioRead(u64),
    /// A write of unmapped guest memory at the given address.
    MmioWrite(u64),
    /// A port input instruction.
    IoIn(u16),
    /// A port output instruction.
    IoOut(u16),
    /// The guest shut the virtual machine down.
    Shutdown,
    /// The guest executed a halt instruction.
    Hlt,
    /// A native system event (reset, panic notification, and the like).
    SystemEvent,
    /// The native run call itself failed.
    RunFailed,
    /// Any other native exit code.
    Other,
}

/// The normalization every backend applies: hypercalls resume as yields,
/// memory and port accesses keep their location, shutdown and halt and a
/// failed native run all retire the guest, and everything else degrades to
/// `Unknown` rather than surfacing a native-specific error.
pub open spec fn classify_spec(e: NativeExit) -> ExitReason {
    match e {
        NativeExit::Hypercall => ExitReason::Yield,
        NativeExit::MmioRead(addr) => ExitReason::Mmio(addr),
        NativeExit::MmioWrite(addr) => ExitReason::Mmio(addr),
        NativeExit::IoIn(port) => ExitReason::Io(port),
        NativeExit::IoOut(port) => ExitReason::Io(port),
        NativeExit::Shutdown => ExitReason::Halt,
        NativeExit::Hlt => ExitReason::Halt,
        NativeExit::SystemEvent => ExitReason::Unknown,
        NativeExit::RunFailed => ExitReason::Halt,
        NativeExit::Other => ExitReason::Unknown,
    }
}

/// Classifies a raw native exit into the portable exit reason. Every native
/// exit maps to one of the five defined variants; unrecognized codes become
/// `Unknown` and a failed run becomes `Halt` so the scheduler can retire the
/// process cleanly.
pub fn classify(e: NativeExit) -> (r: ExitReason)
    ensures
        r == classify_spec(e),
{
    match e {
        NativeExit::Hypercall => ExitReason::Yield,
        NativeExit::MmioRead(addr) => ExitReason::Mmio(addr),
        NativeExit::MmioWrite(addr) => ExitReason::Mmio(addr),
        NativeExit::IoIn(port) => ExitReason::Io(port),
        NativeExit::IoOut(port) => ExitReason::Io(port),
        NativeExit::Shutdown => ExitReason::Halt,
        NativeExit::Hlt => ExitReason::Halt,
        NativeExit::SystemEvent => ExitReason::Unknown,
        NativeExit::RunFailed => ExitReason::Halt,
        NativeExit::Other => ExitReason::Unknown,
    }
}

/// The uniform lifecycle of a concrete hypervisor backend. One implementation
/// exists per host facility; the scheduler drives any of them through this
/// interface alone.
pub trait Backend: Sized {
    /// The backend's own well-formedness: established by its constructor and
    /// preserved by every operation.
    spec fn inv(&self) -> bool;

    /// A human-readable name for the native facility.
    fn name(&self) -> (r: &'static str);

    /// Resumes the virtual CPU until the next native exit, performs any host
    /// side effect implied by a hypercall, and returns the normalized exit
    /// reason. A native run failure is reported as `Halt`, never propagated.
    fn step(&mut self) -> (r: ExitReason)
        requires
            old(self).inv(),
        ensures
            final(self).inv(),
    ;

    /// A host-side copy of the `width * height` framebuffer pixels. The copy
    /// is not synchronized with guest execution: a torn frame is accepted.
    fn get_framebuffer(&self, width: usize, height: usize) -> (r: Vec<u32>)
        requires
            self.inv(),
    ;

    /// Best-effort, non-blocking injection of one keystroke into the guest's
    /// keyboard mailbox; the key is dropped if the previous one is still
    /// pending. The default does nothing.
    fn inject_key(&mut self, _c: char)
        requires
            old(self).inv(),
        ensures
            final(self).inv(),
    {
    }
}

} // verus!
