//! Little-endian 32-bit cells in a byte buffer.
use vstd::prelude::*;

verus! {

/// The cell that starts at `off`.
pub open spec fn u32_at(bytes: Seq<u8>, off: int) -> u32 {
    (bytes[off] as int + bytes[off + 1] as int * 0x100 + bytes[off + 2] as int * 0x10000 + bytes[off
        + 3] as int * 0x1000000) as u32
}

/// The bytes with a cell replaced.
pub open spec fn with_u32(bytes: Seq<u8>, off: int, v: u32) -> Seq<u8> {
    bytes.update(off, (v % 0x100) as u8).update(off + 1, (v / 0x100 % 0x100) as u8).update(
        off + 2,
        (v / 0x10000 % 0x100) as u8,
    ).update(off + 3, (v / 0x1000000) as u8)
}

/// A cell that was put is read back, and cells apart from it stay.
pub proof fn lemma_with_u32(bytes: Seq<u8>, off: int, v: u32)
    requires
        0 <= off,
        off + 4 <= bytes.len(),
    ensures
        with_u32(bytes, off, v).len() == bytes.len(),
        u32_at(with_u32(bytes, off, v), off) == v,
        forall|other: int|
            0 <= other && other + 4 <= bytes.len() && (other + 4 <= off || off + 4 <= other)
                ==> #[trigger] u32_at(with_u32(bytes, off, v), other) == u32_at(bytes, other),
{
}

/// Reads the cell that starts at `off`.
pub fn get_u32(bytes: &[u8], off: usize) -> (r: u32)
    requires
        off + 4 <= bytes@.len(),
    ensures
        r == u32_at(bytes@, off as int),
{
    bytes[off] as u32 + bytes[off + 1] as u32 * 0x100 + bytes[off + 2] as u32 * 0x10000 + bytes[off
        + 3] as u32 * 0x1000000
}

/// Puts a cell at `off`.
pub fn put_u32(bytes: &mut [u8], off: usize, v: u32)
    requires
        off + 4 <= old(bytes)@.len(),
    ensures
        final(bytes)@ == with_u32(old(bytes)@, off as int, v),
{
    bytes[off] = (v % 0x100) as u8;
    bytes[off + 1] = (v / 0x100 % 0x100) as u8;
    bytes[off + 2] = (v / 0x10000 % 0x100) as u8;
    bytes[off + 3] = (v / 0x1000000) as u8;
}

} // verus!
