//! Physical addresses, and reads of numbers from bytes of physical memory.
//!
//! Memory is read from a byte slice that the caller holds, never through an
//! address: a read names the slice, says where in physical memory it starts,
//! and is refused where it would leave the slice.

use vstd::prelude::*;

verus! {

/// A strongly typed physical address.
#[derive(Clone, Copy, Debug, Ord, PartialOrd, Eq, PartialEq, Structural)]
pub struct PhysAddr(pub u64);

/// The number that the four bytes of `buf` from `at` on spell, lowest byte
/// first.
pub open spec fn le_u32(buf: Seq<u8>, at: int) -> int {
    buf[at] + 0x100 * buf[at + 1] + 0x1_0000 * buf[at + 2] + 0x100_0000 * buf[at + 3]
}

/// The number that the eight bytes of `buf` from `at` on spell, lowest byte
/// first.
pub open spec fn le_u64(buf: Seq<u8>, at: int) -> int {
    le_u32(buf, at) + 0x1_0000_0000 * le_u32(buf, at + 4)
}

/// Reads four bytes, lowest first, as one number.
pub fn read_u32(buf: &[u8], at: usize) -> (value: u32)
    requires
        at + 4 <= buf@.len(),
    ensures
        value == le_u32(buf@, at as int),
{
    let b0 = buf[at] as u32;
    let b1 = buf[at + 1] as u32;
    let b2 = buf[at + 2] as u32;
    let b3 = buf[at + 3] as u32;
    b0 + 0x100 * b1 + 0x1_0000 * b2 + 0x100_0000 * b3
}

/// Reads eight bytes, lowest first, as one number.
pub fn read_u64(buf: &[u8], at: usize) -> (value: u64)
    requires
        at + 8 <= buf@.len(),
    ensures
        value == le_u64(buf@, at as int),
{
    let len: usize = buf.len();
    assert(at + 8 <= len);
    let low = read_u32(buf, at) as u64;
    let high = read_u32(buf, at + 4) as u64;
    low + 0x1_0000_0000 * high
}

/// Whether the eight bytes at physical address `paddr` lie inside a window
/// of `len` bytes that starts at physical address `base`.
pub open spec fn in_window(len: int, base: PhysAddr, paddr: PhysAddr) -> bool {
    base.0 <= paddr.0 && paddr.0 - base.0 + 8 <= len
}

/// Reads the 64-bit number at physical address `paddr`, lowest byte first,
/// from `window`, which holds the bytes of physical memory from `base` on.
/// `None` where the eight bytes do not lie inside the window.
pub fn read_phys(window: &[u8], base: PhysAddr, paddr: PhysAddr) -> (value: Option<u64>)
    ensures
        match value {
            Some(v) => in_window(window@.len() as int, base, paddr) && v == le_u64(
                window@,
                paddr.0 - base.0,
            ),
            None => !in_window(window@.len() as int, base, paddr),
        },
{
    if paddr.0 < base.0 {
        return None;
    }
    let offset: u64 = paddr.0 - base.0;
    let len: usize = window.len();
    if len < 8 || offset > (len - 8) as u64 {
        return None;
    }
    Some(read_u64(window, offset as usize))
}

} // verus!
