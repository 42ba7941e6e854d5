//! Walking the chain of saved frame pointers for a stack trace.

use vstd::prelude::*;

verus! {

/// At most this many frames are reported.
pub const MAX_FRAMES: usize = 64;

/// The frame to continue with after the frame at `frame`, whose saved
/// previous-frame pointer is `prev`. The walk stops (`None`) at a null
/// pointer, at a pointer that does not move up the stack, and at a pointer
/// that is not 16-byte aligned, so that it never wanders into garbage.
pub fn next_frame(frame: u64, prev: u64) -> (r: Option<u64>)
    ensures
        r == (if prev == 0 || prev <= frame || prev & 0xF != 0 { None } else { Some(prev) }),
        r matches Some(p) ==> p > frame && p % 16 == 0,
{
    if prev == 0 || prev <= frame || prev & 0xF != 0 {
        None
    } else {
        assert(prev & 0xF == 0 ==> prev % 16 == 0) by (bit_vector);
        Some(prev)
    }
}

} // verus!
