//! Big-endian integer assembly.
//!
//! FLV stores every multi-byte integer big-endian; sizes and stream ids are
//! 24 bits wide and are widened here with a leading zero byte.
use vstd::prelude::*;

verus! {

/// The unsigned 32-bit integer whose big-endian bytes are `b0 b1 b2 b3`.
pub open spec fn spec_be32(b0: u8, b1: u8, b2: u8, b3: u8) -> u32 {
    (b0 * 0x100_0000 + b1 * 0x1_0000 + b2 * 0x100 + b3) as u32
}

/// Assembles four bytes, given most significant first, into a `u32`.
pub fn be32(b0: u8, b1: u8, b2: u8, b3: u8) -> (r: u32)
    ensures
        r == spec_be32(b0, b1, b2, b3),
{
    (b0 as u32) * 0x100_0000 + (b1 as u32) * 0x1_0000 + (b2 as u32) * 0x100 + (b3 as u32)
}

} // verus!
