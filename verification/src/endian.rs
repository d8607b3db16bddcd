//! Little-endian integer decoding over byte sequences.
use vstd::prelude::*;
use byteorder::{ByteOrder, LittleEndian};

verus! {

/// The unsigned 16-bit value stored little-endian in the first two bytes.
pub open spec fn spec_u16_le(b: Seq<u8>) -> u16
    recommends
        b.len() >= 2,
{
    (b[0] + b[1] * 0x100) as u16
}

/// The unsigned 32-bit value stored little-endian in the first four bytes.
pub open spec fn spec_u32_le(b: Seq<u8>) -> u32
    recommends
        b.len() >= 4,
{
    (b[0] + b[1] * 0x100 + b[2] * 0x1_0000 + b[3] * 0x100_0000) as u32
}

/// The unsigned 64-bit value stored little-endian in the first eight bytes.
pub open spec fn spec_u64_le(b: Seq<u8>) -> u64
    recommends
        b.len() >= 8,
{
    (b[0] + b[1] * 0x100 + b[2] * 0x1_0000 + b[3] * 0x100_0000 + b[4] * 0x1_0000_0000 + b[5]
        * 0x100_0000_0000 + b[6] * 0x1_0000_0000_0000 + b[7] * 0x100_0000_0000_0000) as u64
}

/// The 16-bit little-endian value at `pos` within `b`.
pub open spec fn spec_u16_at(b: Seq<u8>, pos: int) -> u16 {
    spec_u16_le(b.subrange(pos, pos + 2))
}

/// The 32-bit little-endian value at `pos` within `b`.
pub open spec fn spec_u32_at(b: Seq<u8>, pos: int) -> u32 {
    spec_u32_le(b.subrange(pos, pos + 4))
}

/// The 64-bit little-endian value at `pos` within `b`.
pub open spec fn spec_u64_at(b: Seq<u8>, pos: int) -> u64 {
    spec_u64_le(b.subrange(pos, pos + 8))
}

/// The mathematical value of a `u8` reinterpreted as two's-complement `i8`.
pub open spec fn spec_i8_v(u: u8) -> int {
    if u < 0x80 {
        u as int
    } else {
        u - 0x100
    }
}

/// The mathematical value of a `u16` reinterpreted as two's-complement `i16`.
pub open spec fn spec_i16_v(u: u16) -> int {
    if u < 0x8000 {
        u as int
    } else {
        u - 0x1_0000
    }
}

/// The mathematical value of a `u32` reinterpreted as two's-complement `i32`.
pub open spec fn spec_i32_v(u: u32) -> int {
    if u < 0x8000_0000 {
        u as int
    } else {
        u - 0x1_0000_0000
    }
}

/// The mathematical value of a `u64` reinterpreted as two's-complement `i64`.
pub open spec fn spec_i64_v(u: u64) -> int {
    if u < 0x8000_0000_0000_0000 {
        u as int
    } else {
        u - 0x1_0000_0000_0000_0000
    }
}

/// Relies on byteorder's `LittleEndian::read_u16`: it returns the
/// little-endian u16 held in the first two bytes of the slice.
#[verifier::external_body]
pub(crate) fn le_u16_at(b: &Vec<u8>, pos: usize) -> (r: u16)
    requires
        pos + 2 <= b@.len(),
    ensures
        r == spec_u16_at(b@, pos as int),
{
    LittleEndian::read_u16(&b[pos..pos + 2])
}

/// Relies on byteorder's `LittleEndian::read_u32`: it returns the
/// little-endian u32 held in the first four bytes of the slice.
#[verifier::external_body]
pub(crate) fn le_u32_at(b: &Vec<u8>, pos: usize) -> (r: u32)
    requires
        pos + 4 <= b@.len(),
    ensures
        r == spec_u32_at(b@, pos as int),
{
    LittleEndian::read_u32(&b[pos..pos + 4])
}

/// Relies on byteorder's `LittleEndian::read_u64`: it returns the
/// little-endian u64 held in the first eight bytes of the slice.
#[verifier::external_body]
pub(crate) fn le_u64_at(b: &Vec<u8>, pos: usize) -> (r: u64)
    requires
        pos + 8 <= b@.len(),
    ensures
        r == spec_u64_at(b@, pos as int),
{
    LittleEndian::read_u64(&b[pos..pos + 8])
}

/// Reinterprets a `u8` bit pattern as an `i8`.
pub(crate) fn i8_from_bits(u: u8) -> (r: i8)
    ensures
        r as int == spec_i8_v(u),
{
    if u < 0x80 {
        u as i8
    } else {
        ((u as i16) - 0x100) as i8
    }
}

/// Reinterprets a `u16` bit pattern as an `i16`.
pub(crate) fn i16_from_bits(u: u16) -> (r: i16)
    ensures
        r as int == spec_i16_v(u),
{
    if u < 0x8000 {
        u as i16
    } else {
        ((u as i32) - 0x1_0000) as i16
    }
}

/// Reinterprets a `u32` bit pattern as an `i32`.
pub(crate) fn i32_from_bits(u: u32) -> (r: i32)
    ensures
        r as int == spec_i32_v(u),
{
    if u < 0x8000_0000 {
        u as i32
    } else {
        ((u as i64) - 0x1_0000_0000) as i32
    }
}

/// Reinterprets a `u64` bit pattern as an `i64`.
pub(crate) fn i64_from_bits(u: u64) -> (r: i64)
    ensures
        r as int == spec_i64_v(u),
{
    if u < 0x8000_0000_0000_0000 {
        u as i64
    } else {
        ((u as i128) - 0x1_0000_0000_0000_0000) as i64
    }
}

} // verus!
