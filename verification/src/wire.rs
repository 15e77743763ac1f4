//! Fixed-width integers as they lie on the wire: assembling them from
//! little-endian bytes, splitting them again, and reversing their byte order.

use vstd::prelude::*;

verus! {

/// The 16-bit value whose little-endian bytes are `b0`, `b1`.
pub open spec fn spec_le16(b0: u8, b1: u8) -> u16 {
    (b0 as u16) | ((b1 as u16) << 8)
}

/// The 32-bit value whose little-endian bytes are `b0` .. `b3`.
pub open spec fn spec_le32(b0: u8, b1: u8, b2: u8, b3: u8) -> u32 {
    (b0 as u32) | ((b1 as u32) << 8) | ((b2 as u32) << 16) | ((b3 as u32) << 24)
}

/// The 64-bit value whose low half is `lo` and whose high half is `hi`.
pub open spec fn spec_join64(lo: u32, hi: u32) -> u64 {
    (lo as u64) | ((hi as u64) << 32)
}

/// Byte `k` of `x`, counted from the least significant one.
pub open spec fn spec_byte(x: u64, k: u64) -> u8 {
    ((x >> (8 * k)) & 0xff) as u8
}

/// `x` with its two bytes exchanged.
pub open spec fn spec_swap16(x: u16) -> u16 {
    ((x & 0xff) << 8) | (x >> 8)
}

/// `x` with its four bytes in reverse order.
pub open spec fn spec_swap32(x: u32) -> u32 {
    ((x & 0xff) << 24) | ((x & 0xff00) << 8) | ((x >> 8) & 0xff00) | (x >> 24)
}

/// `x` with its eight bytes in reverse order.
pub open spec fn spec_swap64(x: u64) -> u64 {
    spec_join64(spec_swap32((x >> 32) as u32), spec_swap32((x & 0xffff_ffff) as u32))
}

/// The 16-bit little-endian value at offset `i` of `b`.
pub open spec fn le16_at(b: Seq<u8>, i: int) -> u16 {
    spec_le16(b[i], b[i + 1])
}

/// The 32-bit little-endian value at offset `i` of `b`.
pub open spec fn le32_at(b: Seq<u8>, i: int) -> u32 {
    spec_le32(b[i], b[i + 1], b[i + 2], b[i + 3])
}

/// The 64-bit little-endian value at offset `i` of `b`.
pub open spec fn le64_at(b: Seq<u8>, i: int) -> u64 {
    spec_join64(le32_at(b, i), le32_at(b, i + 4))
}

/// The two little-endian bytes of `x`.
pub open spec fn bytes16(x: u16) -> Seq<u8> {
    seq![spec_byte(x as u64, 0), spec_byte(x as u64, 1)]
}

/// The four little-endian bytes of `x`.
pub open spec fn bytes32(x: u32) -> Seq<u8> {
    seq![
        spec_byte(x as u64, 0),
        spec_byte(x as u64, 1),
        spec_byte(x as u64, 2),
        spec_byte(x as u64, 3),
    ]
}

/// The eight little-endian bytes of `x`.
pub open spec fn bytes64(x: u64) -> Seq<u8> {
    seq![
        spec_byte(x, 0),
        spec_byte(x, 1),
        spec_byte(x, 2),
        spec_byte(x, 3),
        spec_byte(x, 4),
        spec_byte(x, 5),
        spec_byte(x, 6),
        spec_byte(x, 7),
    ]
}

#[verifier::when_used_as_spec(spec_byte)]
pub fn byte(x: u64, k: u64) -> (r: u8)
    requires
        k < 8,
    ensures
        r == spec_byte(x, k),
{
    assert(8 * k < 64);
    let shifted: u64 = x >> (8 * k);
    assert(shifted & 0xff < 0x100) by (bit_vector);
    (shifted & 0xff) as u8
}

#[verifier::when_used_as_spec(spec_swap16)]
pub fn swap16(x: u16) -> (r: u16)
    ensures
        r == spec_swap16(x),
{
    ((x & 0xff) << 8) | (x >> 8)
}

#[verifier::when_used_as_spec(spec_swap32)]
pub fn swap32(x: u32) -> (r: u32)
    ensures
        r == spec_swap32(x),
{
    ((x & 0xff) << 24) | ((x & 0xff00) << 8) | ((x >> 8) & 0xff00) | (x >> 24)
}

#[verifier::when_used_as_spec(spec_swap64)]
pub fn swap64(x: u64) -> (r: u64)
    ensures
        r == spec_swap64(x),
{
    assert(x >> 32 <= 0xffff_ffff) by (bit_vector);
    assert(x & 0xffff_ffff <= 0xffff_ffff) by (bit_vector);
    let hi: u32 = swap32((x >> 32) as u32);
    let lo: u32 = swap32((x & 0xffff_ffff) as u32);
    (hi as u64) | ((lo as u64) << 32)
}

/// Reads the 16-bit little-endian value at offset `i`.
pub fn read_le16(b: &[u8], i: usize) -> (r: u16)
    requires
        i + 2 <= b@.len(),
    ensures
        r == le16_at(b@, i as int),
{
    (b[i] as u16) | ((b[i + 1] as u16) << 8)
}

/// Reads the 32-bit little-endian value at offset `i`.
pub fn read_le32(b: &[u8], i: usize) -> (r: u32)
    requires
        i + 4 <= b@.len(),
    ensures
        r == le32_at(b@, i as int),
{
    (b[i] as u32) | ((b[i + 1] as u32) << 8) | ((b[i + 2] as u32) << 16) | ((b[i + 3] as u32)
        << 24)
}

/// Reads the 64-bit little-endian value at offset `i`.
pub fn read_le64(b: &[u8], i: usize) -> (r: u64)
    requires
        i + 8 <= b@.len(),
    ensures
        r == le64_at(b@, i as int),
{
    let n: usize = b.len();
    assert(i + 8 <= n);
    let lo: u32 = read_le32(b, i);
    let hi: u32 = read_le32(b, i + 4);
    (lo as u64) | ((hi as u64) << 32)
}

/// Swapping twice gives the value back.
pub proof fn lemma_swap_involution(a: u16, b: u32, c: u64)
    ensures
        spec_swap16(spec_swap16(a)) == a,
        spec_swap32(spec_swap32(b)) == b,
        spec_swap64(spec_swap64(c)) == c,
{
    assert(spec_swap16(spec_swap16(a)) == a) by (bit_vector);
    assert(spec_swap32(spec_swap32(b)) == b) by (bit_vector);
    assert(spec_swap64(spec_swap64(c)) == c) by (bit_vector);
}

/// A swapped value is the value that the same bytes spell in big-endian order.
pub proof fn lemma_swap_reverses(b0: u8, b1: u8, b2: u8, b3: u8, b4: u8, b5: u8, b6: u8, b7: u8)
    ensures
        spec_swap16(spec_le16(b0, b1)) == spec_le16(b1, b0),
        spec_swap32(spec_le32(b0, b1, b2, b3)) == spec_le32(b3, b2, b1, b0),
        spec_swap64(spec_join64(spec_le32(b0, b1, b2, b3), spec_le32(b4, b5, b6, b7)))
            == spec_join64(spec_le32(b7, b6, b5, b4), spec_le32(b3, b2, b1, b0)),
{
    assert(spec_swap16(spec_le16(b0, b1)) == spec_le16(b1, b0)) by (bit_vector);
    assert(spec_swap32(spec_le32(b0, b1, b2, b3)) == spec_le32(b3, b2, b1, b0)) by (bit_vector);
    assert(spec_swap64(spec_join64(spec_le32(b0, b1, b2, b3), spec_le32(b4, b5, b6, b7)))
        == spec_join64(spec_le32(b7, b6, b5, b4), spec_le32(b3, b2, b1, b0))) by (bit_vector);
}

/// Splitting a value into its bytes and assembling them again gives the
/// value back.
pub proof fn lemma_bytes_round_trip(a: u16, b: u32, c: u64)
    ensures
        le16_at(bytes16(a), 0) == a,
        le32_at(bytes32(b), 0) == b,
        le64_at(bytes64(c), 0) == c,
{
    assert(spec_le16(spec_byte(a as u64, 0), spec_byte(a as u64, 1)) == a) by (bit_vector);
    assert(spec_le32(
        spec_byte(b as u64, 0),
        spec_byte(b as u64, 1),
        spec_byte(b as u64, 2),
        spec_byte(b as u64, 3),
    ) == b) by (bit_vector);
    assert(spec_join64(
        spec_le32(spec_byte(c, 0), spec_byte(c, 1), spec_byte(c, 2), spec_byte(c, 3)),
        spec_le32(spec_byte(c, 4), spec_byte(c, 5), spec_byte(c, 6), spec_byte(c, 7)),
    ) == c) by (bit_vector);
}

} // verus!
