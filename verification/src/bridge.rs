//! Pure helpers of the memory bridge: bounds checks and the little-endian
//! descriptor codec.
//!
//! All pointer arithmetic of the bridge goes through these functions, so
//! every transfer is validated against the owning region's current size
//! before any memory is touched.

use vstd::prelude::*;

verus! {

/// Whether a transfer of `len` bytes starting at `off` stays inside a
/// region of `total` bytes. Decided without overflowing.
pub fn region_fits(off: usize, len: usize, total: usize) -> (r: bool)
    ensures
        r == (off + len <= total),
{
    if off > total {
        false
    } else {
        len <= total - off
    }
}

/// The 32-bit little-endian value stored at `s[off..off + 4]`.
pub open spec fn le32(s: Seq<u8>, off: int) -> u32 {
    (s[off] as u32) | ((s[off + 1] as u32) << 8) | ((s[off + 2] as u32) << 16) | ((s[off
        + 3] as u32) << 24)
}

/// Read the 32-bit little-endian value at `b[off..off + 4]`.
pub fn read_le32(b: &[u8], off: usize) -> (r: u32)
    requires
        off + 4 <= b@.len(),
    ensures
        r == le32(b@, off as int),
{
    (b[off] as u32) | ((b[off + 1] as u32) << 8) | ((b[off + 2] as u32) << 16) | ((b[off
        + 3] as u32) << 24)
}

} // verus!
