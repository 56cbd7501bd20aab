//! Little-endian words in byte strings.
use vstd::prelude::*;

verus! {

/// The 16-bit little-endian word at `at`.
pub open spec fn le_u16(b: Seq<u8>, at: int) -> u16 {
    (b[at] + 0x100 * b[at + 1]) as u16
}

/// The 32-bit little-endian word at `at`.
pub open spec fn le_u32(b: Seq<u8>, at: int) -> u32 {
    (b[at] + 0x100 * b[at + 1] + 0x1_0000 * b[at + 2] + 0x100_0000 * b[at + 3]) as u32
}

/// The four little-endian bytes of `v`.
pub open spec fn le_bytes(v: u32) -> Seq<u8> {
    seq![
        (v % 0x100) as u8,
        (v / 0x100 % 0x100) as u8,
        (v / 0x1_0000 % 0x100) as u8,
        (v / 0x100_0000) as u8,
    ]
}

/// Addition on 32-bit bus addresses, which wrap.
pub open spec fn wrap_u32(n: int) -> u32 {
    (n % 0x1_0000_0000) as u32
}

/// A word read back from its own little-endian bytes is that word.
pub proof fn law_le_round_trip(v: u32)
    ensures
        le_bytes(v).len() == 4,
        le_u32(le_bytes(v), 0) == v,
{
}

/// The 16-bit little-endian word at `at`.
pub fn u16_at(b: &[u8], at: usize) -> (v: u16)
    requires
        at + 2 <= b@.len(),
    ensures
        v == le_u16(b@, at as int),
{
    b[at] as u16 + 0x100 * (b[at + 1] as u16)
}

/// The 32-bit little-endian word at `at`.
pub fn u32_at(b: &[u8], at: usize) -> (v: u32)
    requires
        at + 4 <= b@.len(),
    ensures
        v == le_u32(b@, at as int),
{
    b[at] as u32 + 0x100 * (b[at + 1] as u32) + 0x1_0000 * (b[at + 2] as u32)
        + 0x100_0000 * (b[at + 3] as u32)
}

} // verus!
