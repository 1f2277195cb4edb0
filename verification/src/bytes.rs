//! Little- and big-endian integer extraction from byte slices.
//!
//! Every multi-byte field in the supported disc formats is read through
//! these helpers, so their spec functions are the single place where the
//! byte-to-integer mapping is defined.

use vstd::prelude::*;

verus! {

/// A 16-bit little-endian value assembled from `s[i]` and `s[i + 1]`.
pub open spec fn le16(s: Seq<u8>, i: int) -> u16 {
    (s[i] as u16 + s[i + 1] as u16 * 0x100) as u16
}

/// A 32-bit little-endian value assembled from `s[i .. i + 4]`.
pub open spec fn le32(s: Seq<u8>, i: int) -> u32 {
    (s[i] as u32 + s[i + 1] as u32 * 0x100 + s[i + 2] as u32 * 0x1_0000 + s[i + 3] as u32
        * 0x100_0000) as u32
}

/// A 32-bit big-endian value assembled from `s[i .. i + 4]`.
pub open spec fn be32(s: Seq<u8>, i: int) -> u32 {
    (s[i + 3] as u32 + s[i + 2] as u32 * 0x100 + s[i + 1] as u32 * 0x1_0000 + s[i] as u32
        * 0x100_0000) as u32
}

/// A 16-bit little-endian field reinterpreted as two's-complement.
pub open spec fn le16_signed(s: Seq<u8>, i: int) -> i16 {
    if le16(s, i) < 0x8000 {
        le16(s, i) as i16
    } else {
        (le16(s, i) - 0x10000) as i16
    }
}

/// A 32-bit little-endian field reinterpreted as two's-complement.
pub open spec fn le32_signed(s: Seq<u8>, i: int) -> i32 {
    if le32(s, i) < 0x8000_0000 {
        le32(s, i) as i32
    } else {
        (le32(s, i) - 0x1_0000_0000) as i32
    }
}

/// Read a 16-bit little-endian value at `i`.
pub fn read_le16(s: &[u8], i: usize) -> (r: u16)
    requires
        i + 2 <= s@.len(),
    ensures
        r == le16(s@, i as int),
{
    let lo = s[i];
    let hi = s[i + 1];
    lo as u16 + hi as u16 * 0x100
}

/// Read a 32-bit little-endian value at `i`.
pub fn read_le32(s: &[u8], i: usize) -> (r: u32)
    requires
        i + 4 <= s@.len(),
    ensures
        r == le32(s@, i as int),
{
    let b0 = s[i];
    let b1 = s[i + 1];
    let b2 = s[i + 2];
    let b3 = s[i + 3];
    b0 as u32 + b1 as u32 * 0x100 + b2 as u32 * 0x1_0000 + b3 as u32 * 0x100_0000
}

/// Read a 32-bit big-endian value at `i`.
pub fn read_be32(s: &[u8], i: usize) -> (r: u32)
    requires
        i + 4 <= s@.len(),
    ensures
        r == be32(s@, i as int),
{
    let b0 = s[i];
    let b1 = s[i + 1];
    let b2 = s[i + 2];
    let b3 = s[i + 3];
    b3 as u32 + b2 as u32 * 0x100 + b1 as u32 * 0x1_0000 + b0 as u32 * 0x100_0000
}

/// Read a 16-bit little-endian field as a signed value.
pub fn read_le16_signed(s: &[u8], i: usize) -> (r: i16)
    requires
        i + 2 <= s@.len(),
    ensures
        r == le16_signed(s@, i as int),
{
    let u = read_le16(s, i);
    if u < 0x8000 {
        u as i16
    } else {
        ((u as i32) - 0x10000) as i16
    }
}

/// Read a 32-bit little-endian field as a signed value.
pub fn read_le32_signed(s: &[u8], i: usize) -> (r: i32)
    requires
        i + 4 <= s@.len(),
    ensures
        r == le32_signed(s@, i as int),
{
    let u = read_le32(s, i);
    if u < 0x8000_0000 {
        u as i32
    } else {
        ((u as i64) - 0x1_0000_0000) as i32
    }
}

} // verus!
