//! Fixed-width unsigned integers as they lie in a byte sequence.

use vstd::prelude::*;

verus! {

/// The little-endian 16-bit integer at `at`.
pub open spec fn u16_le(s: Seq<u8>, at: int) -> int {
    s[at] as int + 256 * (s[at + 1] as int)
}

/// The little-endian 32-bit integer at `at`.
pub open spec fn u32_le(s: Seq<u8>, at: int) -> int {
    s[at] as int + 256 * (s[at + 1] as int + 256 * (s[at + 2] as int + 256 * (s[at + 3] as int)))
}

/// The big-endian 32-bit integer at `at`.
pub open spec fn u32_be(s: Seq<u8>, at: int) -> int {
    s[at + 3] as int + 256 * (s[at + 2] as int + 256 * (s[at + 1] as int + 256 * (s[at] as int)))
}

/// The big-endian 64-bit integer at `at`.
pub open spec fn u64_be(s: Seq<u8>, at: int) -> int {
    u32_be(s, at + 4) + 0x1_0000_0000 * u32_be(s, at)
}

/// Reads the little-endian 16-bit integer at `at`.
pub fn read_u16_le(bytes: &[u8], at: usize) -> (value: u16)
    requires
        at + 2 <= bytes.len(),
    ensures
        value == u16_le(bytes@, at as int),
{
    let b0: u16 = bytes[at] as u16;
    let b1: u16 = bytes[at + 1] as u16;
    b0 + 256 * b1
}

/// Reads the little-endian 32-bit integer at `at`.
pub fn read_u32_le(bytes: &[u8], at: usize) -> (value: u32)
    requires
        at + 4 <= bytes.len(),
    ensures
        value == u32_le(bytes@, at as int),
{
    let b0: u32 = bytes[at] as u32;
    let b1: u32 = bytes[at + 1] as u32;
    let b2: u32 = bytes[at + 2] as u32;
    let b3: u32 = bytes[at + 3] as u32;
    b0 + 256 * (b1 + 256 * (b2 + 256 * b3))
}

/// Reads the big-endian 32-bit integer at `at`.
pub fn read_u32_be(bytes: &[u8], at: usize) -> (value: u32)
    requires
        at + 4 <= bytes.len(),
    ensures
        value == u32_be(bytes@, at as int),
{
    let b0: u32 = bytes[at] as u32;
    let b1: u32 = bytes[at + 1] as u32;
    let b2: u32 = bytes[at + 2] as u32;
    let b3: u32 = bytes[at + 3] as u32;
    b3 + 256 * (b2 + 256 * (b1 + 256 * b0))
}

/// Reads the big-endian 64-bit integer at `at`.
pub fn read_u64_be(bytes: &[u8], at: usize) -> (value: u64)
    requires
        at + 8 <= bytes.len(),
    ensures
        value == u64_be(bytes@, at as int),
{
    let high: u64 = read_u32_be(bytes, at) as u64;
    let low: u64 = read_u32_be(bytes, at + 4) as u64;
    low + 0x1_0000_0000 * high
}

} // verus!
