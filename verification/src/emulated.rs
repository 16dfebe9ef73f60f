//! A software backend that emulates the hypercall trap protocol without any
//! native virtualization facility: the guest image is a flat sequence of
//! 12-byte hypercall records (call number, then two arguments, little
//! endian), executed one per step. It gives the scheduler and the hypercall
//! path a backend that runs on any host.

use vstd::prelude::*;

use crate::abi::{CODE_REGION_SIZE, FB_ADDR, HyperCall, RAM_SIZE};
use crate::backend::{Backend, ExitReason};
use crate::hypercall::{extract_print, print_in_bounds};
use crate::ram::{GuestRam, fb_word, framebuffer_copy, inject_spec, word_at};

verus! {

/// Bytes of one emulated guest instruction: a call number and two arguments.
pub const STEP_BYTES: usize = 12;

pub struct EmulatedBackend {
    ram: GuestRam,
    pc: usize,
    output: Vec<u8>,
    halted: bool,
}

impl EmulatedBackend {
    /// The contents of this backend's guest RAM.
    pub closed spec fn ram_bytes(&self) -> Seq<u8> {
        self.ram@
    }

    /// The guest program counter: the offset of the next hypercall record.
    pub closed spec fn pc(&self) -> int {
        self.pc as int
    }

    /// Everything the guest has printed so far: the host-visible output.
    pub closed spec fn out_bytes(&self) -> Seq<u8> {
        self.output@
    }

    /// Whether the guest has terminated.
    pub closed spec fn is_halted(&self) -> bool {
        self.halted
    }

    /// The call number of the record at the program counter.
    pub open spec fn cur_call(&self) -> u32 {
        word_at(self.ram_bytes(), self.pc())
    }

    /// The first argument of the record at the program counter.
    pub open spec fn cur_arg0(&self) -> u32 {
        word_at(self.ram_bytes(), self.pc() + 4)
    }

    /// The second argument of the record at the program counter.
    pub open spec fn cur_arg1(&self) -> u32 {
        word_at(self.ram_bytes(), self.pc() + 8)
    }

    /// Creates the backend: allocates and zeroes guest RAM and loads the
    /// guest image at guest physical address 0. The image must fit in the
    /// code region; a larger image is a fatal host-configuration error that
    /// the embedding driver checks before construction.
    pub fn new(image: &[u8]) -> (r: EmulatedBackend)
        requires
            image@.len() <= CODE_REGION_SIZE,
        ensures
            r.inv(),
            r.pc() == 0,
            !r.is_halted(),
            r.out_bytes().len() == 0,
            r.ram_bytes().len() == RAM_SIZE,
            forall|i: int| 0 <= i < image@.len() ==> r.ram_bytes()[i] == image@[i],
            forall|i: int| image@.len() <= i < RAM_SIZE ==> r.ram_bytes()[i] == 0u8,
    {
        let mut ram = GuestRam::new();
        ram.load_image(image);
        EmulatedBackend { ram, pc: 0, output: Vec::new(), halted: false }
    }

    /// Takes the output accumulated so far out of the backend, leaving it
    /// empty — the embedding driver drains this after each turn.
    pub fn take_output(&mut self) -> (r: Vec<u8>)
        ensures
            r@ == old(self).out_bytes(),
            final(self).out_bytes().len() == 0,
            final(self).ram_bytes() == old(self).ram_bytes(),
            final(self).pc() == old(self).pc(),
            final(self).is_halted() == old(self).is_halted(),
    {
        let mut out: Vec<u8> = Vec::new();
        core::mem::swap(&mut out, &mut self.output);
        out
    }
}

impl Backend for EmulatedBackend {
    /// Guest RAM always spans the full region.
    open spec fn inv(&self) -> bool {
        self.ram_bytes().len() == RAM_SIZE
    }

    fn name(&self) -> (r: &'static str) {
        "Emulated (software)"
    }

    /// Executes one hypercall record. A halted guest stays halted; running
    /// off the code region halts; a `Print` with an in-bounds range appends
    /// exactly those guest bytes to the output and yields, an out-of-range
    /// `Print` produces no output and still yields; `Exit` halts; an
    /// unknown call number is rejected with no side effect.
    fn step(&mut self) -> (r: ExitReason)
        ensures
            r is Yield || r is Halt,
            final(self).ram_bytes() == old(self).ram_bytes(),
            old(self).is_halted() ==> r is Halt && final(self).is_halted() && final(self).pc()
                == old(self).pc() && final(self).out_bytes() == old(self).out_bytes(),
            !old(self).is_halted() && old(self).pc() + STEP_BYTES > CODE_REGION_SIZE ==> r is Halt
                && final(self).is_halted() && final(self).pc() == old(self).pc() && final(self).out_bytes() == old(self).out_bytes(),
            !old(self).is_halted() && old(self).pc() + STEP_BYTES <= CODE_REGION_SIZE ==> {
                let call = old(self).cur_call();
                let ptr = old(self).cur_arg0() as u64;
                let len = old(self).cur_arg1() as u64;
                &&& final(self).pc() == old(self).pc() + STEP_BYTES
                &&& (call == 0 && print_in_bounds(ptr, len) ==> r is Yield && !final(self).is_halted() && final(self).out_bytes() == old(self).out_bytes() + old(self).ram_bytes().subrange(ptr as int, ptr + len))
                &&& (call == 0 && !print_in_bounds(ptr, len) ==> r is Yield && !final(self).is_halted() && final(self).out_bytes() == old(self).out_bytes())
                &&& (call == 1 ==> r is Halt && final(self).is_halted() && final(self).out_bytes()
                    == old(self).out_bytes())
                &&& (call != 0 && call != 1 ==> r is Yield && !final(self).is_halted() && final(self).out_bytes() == old(self).out_bytes())
            },
    {
        if self.halted {
            return ExitReason::Halt;
        }
        if self.pc > CODE_REGION_SIZE - STEP_BYTES {
            self.halted = true;
            return ExitReason::Halt;
        }
        let call = self.ram.read_u32(self.pc);
        let ptr = self.ram.read_u32(self.pc + 4) as u64;
        let len = self.ram.read_u32(self.pc + 8) as u64;
        self.pc = self.pc + STEP_BYTES;
        match HyperCall::from_u64(call as u64) {
            Some(HyperCall::Print) => {
                if let Some(mut bytes) = extract_print(&self.ram, ptr, len) {
                    self.output.append(&mut bytes);
                }
                ExitReason::Yield
            },
            Some(HyperCall::Exit) => {
                self.halted = true;
                ExitReason::Halt
            },
            None => ExitReason::Yield,
        }
    }

    /// A copy of the framebuffer window, or an empty vector when the
    /// requested size does not fit in the window.
    fn get_framebuffer(&self, width: usize, height: usize) -> (r: Vec<u32>)
        ensures
            4 * (width * height) <= RAM_SIZE - FB_ADDR ==> r@.len() == width * height && forall|
                i: int,
            |
                0 <= i < width * height ==> r@[i] == fb_word(self.ram_bytes(), i),
            4 * (width * height) > RAM_SIZE - FB_ADDR ==> r@.len() == 0,
    {
        framebuffer_copy(&self.ram, width, height)
    }

    /// Delivers one keystroke through the keyboard mailbox protocol: stored
    /// only when the status word is clear, silently dropped otherwise.
    fn inject_key(&mut self, c: char)
        ensures
            final(self).ram_bytes() == inject_spec(old(self).ram_bytes(), c),
            final(self).pc() == old(self).pc(),
            final(self).out_bytes() == old(self).out_bytes(),
            final(self).is_halted() == old(self).is_halted(),
    {
        self.ram.inject_key(c);
    }
}

} // verus!
