//! Host-side handling of the `Print` hypercall: the bounds check that guards
//! every dereference of guest-supplied pointers, and the extraction of the
//! guest bytes once the range is known to be safe.

use vstd::prelude::*;

use crate::abi::RAM_SIZE;
use crate::ram::GuestRam;

verus! {

/// Upper bound on the length of a single `Print` hypercall. A safety guard
/// on guest-supplied lengths, not a protocol constant.
pub const PRINT_LIMIT: u64 = 1000;

/// A guest-supplied `(pointer, length)` pair may be dereferenced only when
/// the length is under the safety bound and the whole range lies inside
/// guest RAM.
pub open spec fn print_in_bounds(ptr: u64, len: u64) -> bool {
    len < PRINT_LIMIT && ptr + len <= RAM_SIZE
}

/// Checks a guest-supplied `Print` range without dereferencing anything.
pub fn validate_print(ptr: u64, len: u64) -> (r: bool)
    ensures
        r == print_in_bounds(ptr, len),
{
    len < PRINT_LIMIT && ptr <= RAM_SIZE as u64 && len <= RAM_SIZE as u64 - ptr
}

/// The host side effect of a `Print` hypercall: exactly the guest bytes in
/// the requested range when it is in bounds, and no output at all — with no
/// other effect — when the guest passed an out-of-range pointer or an
/// oversized length.
pub fn extract_print(ram: &GuestRam, ptr: u64, len: u64) -> (r: Option<Vec<u8>>)
    requires
        ram.wf(),
    ensures
        print_in_bounds(ptr, len) ==> (r matches Some(v) && v@ == ram@.subrange(
            ptr as int,
            ptr + len,
        )),
        !print_in_bounds(ptr, len) ==> r is None,
{
    if validate_print(ptr, len) {
        Some(ram.read_bytes(ptr as usize, len as usize))
    } else {
        None
    }
}

} // verus!
