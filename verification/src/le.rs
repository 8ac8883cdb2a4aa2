//! Little-endian integer fields. Every multi-byte field of the container and
//! index layouts is little-endian; these readers are verified against the
//! positional weighted sums below.
use vstd::prelude::*;

verus! {

/// The unsigned 32-bit little-endian value stored at byte offset `i` of `b`.
pub open spec fn le_u32_at(b: Seq<u8>, i: int) -> nat {
    (b[i] as nat) + (b[i + 1] as nat) * 0x100 + (b[i + 2] as nat) * 0x10000 + (b[i + 3] as nat)
        * 0x1000000
}

/// The unsigned 64-bit little-endian value stored at byte offset `i` of `b`.
pub open spec fn le_u64_at(b: Seq<u8>, i: int) -> nat {
    le_u32_at(b, i) + le_u32_at(b, i + 4) * 0x100000000
}

/// Read the little-endian u32 at offset `pos`.
pub fn read_u32_le(b: &[u8], pos: usize) -> (r: u32)
    requires
        pos + 4 <= b@.len(),
    ensures
        r == le_u32_at(b@, pos as int),
{
    let b0 = b[pos] as u32;
    let b1 = b[pos + 1] as u32;
    let b2 = b[pos + 2] as u32;
    let b3 = b[pos + 3] as u32;
    b0 + b1 * 0x100 + b2 * 0x10000 + b3 * 0x1000000
}

/// Read the little-endian u64 at offset `pos`.
pub fn read_u64_le(b: &[u8], pos: usize) -> (r: u64)
    requires
        pos + 8 <= b@.len(),
    ensures
        r == le_u64_at(b@, pos as int),
{
    let n = b.len();
    proof {
        assert(pos + 8 <= n);
    }
    let lo = read_u32_le(b, pos) as u64;
    let hi = read_u32_le(b, pos + 4) as u64;
    lo + hi * 0x100000000
}

} // verus!
