use vstd::prelude::*;

verus! {

/// The value of two bytes read little-endian.
pub open spec fn le16(b0: u8, b1: u8) -> u16 {
    (b0 as u16) | ((b1 as u16) << 8)
}

/// The value of four bytes read little-endian.
pub open spec fn le32(b0: u8, b1: u8, b2: u8, b3: u8) -> u32 {
    (b0 as u32) | ((b1 as u32) << 8) | ((b2 as u32) << 16) | ((b3 as u32) << 24)
}

/// The value of eight bytes read little-endian.
pub open spec fn le64(b0: u8, b1: u8, b2: u8, b3: u8, b4: u8, b5: u8, b6: u8, b7: u8) -> u64 {
    (b0 as u64) | ((b1 as u64) << 8) | ((b2 as u64) << 16) | ((b3 as u64) << 24)
        | ((b4 as u64) << 32) | ((b5 as u64) << 40) | ((b6 as u64) << 48) | ((b7 as u64) << 56)
}

/// Byte `k` (0 = least significant) of a 16-bit value.
pub open spec fn u16_byte(x: u16, k: u16) -> u8
    recommends
        k < 2,
{
    ((x >> (8 * k) as u16) & 0xFF) as u8
}

/// Byte `k` (0 = least significant) of a 32-bit value.
pub open spec fn u32_byte(x: u32, k: u32) -> u8
    recommends
        k < 4,
{
    ((x >> (8 * k) as u32) & 0xFF) as u8
}

/// Byte `k` (0 = least significant) of a 64-bit value.
pub open spec fn u64_byte(x: u64, k: u64) -> u8
    recommends
        k < 8,
{
    ((x >> (8 * k) as u64) & 0xFF) as u8
}

/// All-zero bytes assemble to zero at every width.
pub proof fn lemma_le_zero()
    ensures
        le16(0, 0) == 0,
        le32(0, 0, 0, 0) == 0,
        le64(0, 0, 0, 0, 0, 0, 0, 0) == 0,
{
    assert((0u16 | (0u16 << 8)) == 0u16) by (bit_vector);
    assert((0u32 | (0u32 << 8) | (0u32 << 16) | (0u32 << 24)) == 0u32) by (bit_vector);
    assert((0u64 | (0u64 << 8) | (0u64 << 16) | (0u64 << 24) | (0u64 << 32) | (0u64 << 40) | (0u64
        << 48) | (0u64 << 56)) == 0u64) by (bit_vector);
}

/// A value reassembled little-endian from its own bytes is itself.
pub proof fn lemma_le16_of_bytes(x: u16)
    ensures
        le16(u16_byte(x, 0), u16_byte(x, 1)) == x,
{
    assert(((((x >> 0) & 0xFF) as u8) as u16) | (((((x >> 8) & 0xFF) as u8) as u16) << 8)
        == x) by (bit_vector);
}

/// A value reassembled little-endian from its own bytes is itself.
pub proof fn lemma_le32_of_bytes(x: u32)
    ensures
        le32(u32_byte(x, 0), u32_byte(x, 1), u32_byte(x, 2), u32_byte(x, 3)) == x,
{
    assert(((((x >> 0) & 0xFF) as u8) as u32) | (((((x >> 8) & 0xFF) as u8) as u32) << 8)
        | (((((x >> 16) & 0xFF) as u8) as u32) << 16)
        | (((((x >> 24) & 0xFF) as u8) as u32) << 24) == x) by (bit_vector);
}

/// A value reassembled little-endian from its own bytes is itself.
pub proof fn lemma_le64_of_bytes(x: u64)
    ensures
        le64(
            u64_byte(x, 0),
            u64_byte(x, 1),
            u64_byte(x, 2),
            u64_byte(x, 3),
            u64_byte(x, 4),
            u64_byte(x, 5),
            u64_byte(x, 6),
            u64_byte(x, 7),
        ) == x,
{
    assert(((((x >> 0) & 0xFF) as u8) as u64) | (((((x >> 8) & 0xFF) as u8) as u64) << 8)
        | (((((x >> 16) & 0xFF) as u8) as u64) << 16)
        | (((((x >> 24) & 0xFF) as u8) as u64) << 24)
        | (((((x >> 32) & 0xFF) as u8) as u64) << 32)
        | (((((x >> 40) & 0xFF) as u8) as u64) << 40)
        | (((((x >> 48) & 0xFF) as u8) as u64) << 48)
        | (((((x >> 56) & 0xFF) as u8) as u64) << 56) == x) by (bit_vector);
}

} // verus!
