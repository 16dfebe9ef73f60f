//! The software backend end to end: guest images made of hypercall
//! records, the host-visible output they produce, and the normalized exit
//! of every step.

use aether::abi::CODE_REGION_SIZE;
use aether::backend::{Backend, ExitReason, NativeExit, classify};
use aether::emulated::EmulatedBackend;

/// One 12-byte hypercall record: call number and two arguments.
fn record(call: u32, arg0: u32, arg1: u32) -> Vec<u8> {
    let mut r = Vec::new();
    r.extend_from_slice(&call.to_le_bytes());
    r.extend_from_slice(&arg0.to_le_bytes());
    r.extend_from_slice(&arg1.to_le_bytes());
    r
}

#[test]
fn print_then_exit_scenario() {
    // A guest that prints a 5-byte string and then exits: the data sits
    // right behind the two records.
    let mut image = Vec::new();
    image.extend_from_slice(&record(0, 24, 5));
    image.extend_from_slice(&record(1, 0, 0));
    image.extend_from_slice(b"hello");
    let mut vm = EmulatedBackend::new(&image);

    let first = vm.step();
    assert_eq!(first, ExitReason::Yield);
    assert_eq!(vm.take_output(), b"hello".to_vec());

    let second = vm.step();
    assert_eq!(second, ExitReason::Halt);
    assert_eq!(vm.take_output(), Vec::new());

    // A halted guest stays halted.
    assert_eq!(vm.step(), ExitReason::Halt);
}

#[test]
fn oversized_print_yields_without_output() {
    let mut image = Vec::new();
    image.extend_from_slice(&record(0, 0, 100_000));
    image.extend_from_slice(&record(1, 0, 0));
    let mut vm = EmulatedBackend::new(&image);
    assert_eq!(vm.step(), ExitReason::Yield);
    assert_eq!(vm.take_output(), Vec::new());
}

#[test]
fn unknown_call_is_rejected_without_side_effect() {
    let mut image = Vec::new();
    image.extend_from_slice(&record(7, 24, 5));
    image.extend_from_slice(&record(1, 0, 0));
    image.extend_from_slice(b"quiet");
    let mut vm = EmulatedBackend::new(&image);
    assert_eq!(vm.step(), ExitReason::Yield);
    assert_eq!(vm.take_output(), Vec::new());
    assert_eq!(vm.step(), ExitReason::Halt);
}

#[test]
fn every_step_returns_a_defined_variant() {
    // A zeroed image decodes as an endless run of zero-length prints; no
    // step ever surfaces anything but the defined exit reasons.
    let mut vm = EmulatedBackend::new(&[]);
    for _ in 0..200 {
        let exit = vm.step();
        assert!(matches!(
            exit,
            ExitReason::Yield
                | ExitReason::Io(_)
                | ExitReason::Mmio(_)
                | ExitReason::Halt
                | ExitReason::Unknown
        ));
    }
}

#[test]
fn running_off_the_code_region_halts() {
    // A guest with no exit record eventually runs past its code region and
    // is halted rather than wandering into the MMIO windows.
    let mut vm = EmulatedBackend::new(&[]);
    let records = CODE_REGION_SIZE / 12;
    for _ in 0..records {
        assert_eq!(vm.step(), ExitReason::Yield);
    }
    assert_eq!(vm.step(), ExitReason::Halt);
    assert_eq!(vm.step(), ExitReason::Halt);
}

#[test]
fn backend_name_and_keyboard() {
    let mut vm = EmulatedBackend::new(&[]);
    assert_eq!(vm.name(), "Emulated (software)");
    vm.inject_key('k');
    vm.inject_key('z');
    let fb = vm.get_framebuffer(640, 480);
    assert_eq!(fb.len(), 640 * 480);
    assert!(vm.get_framebuffer(usize::MAX, 2).is_empty());
}

#[test]
fn native_exits_classify_exactly() {
    assert_eq!(classify(NativeExit::Hypercall), ExitReason::Yield);
    assert_eq!(classify(NativeExit::MmioRead(0x80000)), ExitReason::Mmio(0x80000));
    assert_eq!(classify(NativeExit::MmioWrite(0x100000)), ExitReason::Mmio(0x100000));
    assert_eq!(classify(NativeExit::IoIn(0x3f8)), ExitReason::Io(0x3f8));
    assert_eq!(classify(NativeExit::IoOut(0x500)), ExitReason::Io(0x500));
    assert_eq!(classify(NativeExit::Shutdown), ExitReason::Halt);
    assert_eq!(classify(NativeExit::Hlt), ExitReason::Halt);
    assert_eq!(classify(NativeExit::RunFailed), ExitReason::Halt);
    assert_eq!(classify(NativeExit::SystemEvent), ExitReason::Unknown);
    assert_eq!(classify(NativeExit::Other), ExitReason::Unknown);
}
