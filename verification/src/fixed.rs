//! Wire types 1 and 5: raw little-endian 32- and 64-bit values, with the
//! signed variants as exact bit-reinterpretations of the unsigned ones.

use vstd::bytes::{
    lemma_auto_spec_u32_to_from_le_bytes, lemma_auto_spec_u64_to_from_le_bytes,
    spec_u32_from_le_bytes, spec_u32_to_le_bytes, spec_u64_from_le_bytes, spec_u64_to_le_bytes,
    u32_from_le_bytes, u32_to_le_bytes, u64_from_le_bytes, u64_to_le_bytes,
};
use vstd::prelude::*;

use crate::error::DecodeError;

verus! {

/// The unsigned 64-bit value with the same bit pattern as `v` (two's
/// complement).
pub open spec fn u64_bits_of_i64(v: i64) -> u64 {
    if v >= 0 {
        v as u64
    } else {
        (v + 0x1_0000_0000_0000_0000) as u64
    }
}

/// The signed 64-bit value with the same bit pattern as `n` (two's
/// complement); the inverse of `u64_bits_of_i64`.
pub open spec fn i64_bits_of_u64(n: u64) -> i64 {
    if n <= 0x7fff_ffff_ffff_ffff {
        n as i64
    } else {
        (n - 0x1_0000_0000_0000_0000) as i64
    }
}

/// The unsigned 32-bit value with the same bit pattern as `v`.
pub open spec fn u32_bits_of_i32(v: i32) -> u32 {
    if v >= 0 {
        v as u32
    } else {
        (v + 0x1_0000_0000) as u32
    }
}

/// The signed 32-bit value with the same bit pattern as `n`; the inverse of
/// `u32_bits_of_i32`.
pub open spec fn i32_bits_of_u32(n: u32) -> i32 {
    if n <= 0x7fff_ffff {
        n as i32
    } else {
        (n - 0x1_0000_0000) as i32
    }
}

/// Round-trip of the 64-bit little-endian byte layout.
pub proof fn lemma_fixed64_roundtrip(v: u64)
    ensures
        spec_u64_to_le_bytes(v).len() == 8,
        spec_u64_from_le_bytes(spec_u64_to_le_bytes(v)) == v,
{
    lemma_auto_spec_u64_to_from_le_bytes();
}

/// Round-trip of the 32-bit little-endian byte layout.
pub proof fn lemma_fixed32_roundtrip(v: u32)
    ensures
        spec_u32_to_le_bytes(v).len() == 4,
        spec_u32_from_le_bytes(spec_u32_to_le_bytes(v)) == v,
{
    lemma_auto_spec_u32_to_from_le_bytes();
    assert(spec_u32_to_le_bytes(v).len() == 4);
}

/// Round-trip of the signed 64-bit bit-reinterpretation: the exact bit
/// pattern is preserved, never the magnitude alone.
pub proof fn lemma_sfixed64_roundtrip(v: i64)
    ensures
        i64_bits_of_u64(u64_bits_of_i64(v)) == v,
{
}

/// Round-trip of the signed 32-bit bit-reinterpretation.
pub proof fn lemma_sfixed32_roundtrip(v: i32)
    ensures
        i32_bits_of_u32(u32_bits_of_i32(v)) == v,
{
}

/// Appends the 8-byte little-endian representation of `value`, with no
/// framing.
pub fn encode_fixed64(buf: &mut Vec<u8>, value: u64)
    ensures
        final(buf)@ == old(buf)@ + spec_u64_to_le_bytes(value),
{
    let mut bytes = u64_to_le_bytes(value);
    buf.append(&mut bytes);
}

/// Reads an 8-byte little-endian value at `pos`; requires exactly 8
/// remaining bytes.
pub fn decode_fixed64(data: &Vec<u8>, pos: usize) -> (r: Result<(u64, usize), DecodeError>)
    ensures
        match r {
            Ok(p) => {
                &&& pos + 8 <= data@.len()
                &&& p.1 == pos + 8
                &&& p.0 == spec_u64_from_le_bytes(data@.subrange(pos as int, pos + 8))
            },
            Err(e) => match e {
                DecodeError::BufferOverflow => pos + 8 > data@.len(),
                _ => false,
            },
        },
{
    if data.len() < 8 || pos > data.len() - 8 {
        return Err(DecodeError::BufferOverflow);
    }
    let mut tmp: Vec<u8> = Vec::new();
    tmp.push(data[pos]);
    tmp.push(data[pos + 1]);
    tmp.push(data[pos + 2]);
    tmp.push(data[pos + 3]);
    tmp.push(data[pos + 4]);
    tmp.push(data[pos + 5]);
    tmp.push(data[pos + 6]);
    tmp.push(data[pos + 7]);
    proof {
        assert(tmp@ =~= data@.subrange(pos as int, pos + 8));
    }
    let value = u64_from_le_bytes(tmp.as_slice());
    Ok((value, pos + 8))
}

/// Appends the 8-byte little-endian representation of the bit pattern of a
/// signed 64-bit value.
pub fn encode_sfixed64(buf: &mut Vec<u8>, value: i64)
    ensures
        final(buf)@ == old(buf)@ + spec_u64_to_le_bytes(u64_bits_of_i64(value)),
{
    let raw: u64 = if value >= 0 {
        value as u64
    } else {
        u64::MAX - ((-(value + 1)) as u64)
    };
    encode_fixed64(buf, raw);
}

/// Reads an 8-byte little-endian value at `pos` and bit-reinterprets it as
/// signed.
pub fn decode_sfixed64(data: &Vec<u8>, pos: usize) -> (r: Result<(i64, usize), DecodeError>)
    ensures
        match r {
            Ok(p) => {
                &&& pos + 8 <= data@.len()
                &&& p.1 == pos + 8
                &&& p.0 == i64_bits_of_u64(spec_u64_from_le_bytes(data@.subrange(pos as int, pos + 8)))
            },
            Err(e) => match e {
                DecodeError::BufferOverflow => pos + 8 > data@.len(),
                _ => false,
            },
        },
{
    match decode_fixed64(data, pos) {
        Ok((raw, new_pos)) => {
            let value: i64 = if raw <= 0x7fff_ffff_ffff_ffff {
                raw as i64
            } else {
                -((u64::MAX - raw) as i64) - 1
            };
            Ok((value, new_pos))
        },
        Err(e) => Err(e),
    }
}

/// Appends the 4-byte little-endian representation of `value`, with no
/// framing.
pub fn encode_fixed32(buf: &mut Vec<u8>, value: u32)
    ensures
        final(buf)@ == old(buf)@ + spec_u32_to_le_bytes(value),
{
    let mut bytes = u32_to_le_bytes(value);
    buf.append(&mut bytes);
}

/// Reads a 4-byte little-endian value at `pos`; requires exactly 4
/// remaining bytes.
pub fn decode_fixed32(data: &Vec<u8>, pos: usize) -> (r: Result<(u32, usize), DecodeError>)
    ensures
        match r {
            Ok(p) => {
                &&& pos + 4 <= data@.len()
                &&& p.1 == pos + 4
                &&& p.0 == spec_u32_from_le_bytes(data@.subrange(pos as int, pos + 4))
            },
            Err(e) => match e {
                DecodeError::BufferOverflow => pos + 4 > data@.len(),
                _ => false,
            },
        },
{
    if data.len() < 4 || pos > data.len() - 4 {
        return Err(DecodeError::BufferOverflow);
    }
    let mut tmp: Vec<u8> = Vec::new();
    tmp.push(data[pos]);
    tmp.push(data[pos + 1]);
    tmp.push(data[pos + 2]);
    tmp.push(data[pos + 3]);
    proof {
        assert(tmp@ =~= data@.subrange(pos as int, pos + 4));
    }
    let value = u32_from_le_bytes(tmp.as_slice());
    Ok((value, pos + 4))
}

/// Appends the 4-byte little-endian representation of the bit pattern of a
/// signed 32-bit value.
pub fn encode_sfixed32(buf: &mut Vec<u8>, value: i32)
    ensures
        final(buf)@ == old(buf)@ + spec_u32_to_le_bytes(u32_bits_of_i32(value)),
{
    let raw: u32 = if value >= 0 {
        value as u32
    } else {
        u32::MAX - ((-(value + 1)) as u32)
    };
    encode_fixed32(buf, raw);
}

/// Reads a 4-byte little-endian value at `pos` and bit-reinterprets it as
/// signed.
pub fn decode_sfixed32(data: &Vec<u8>, pos: usize) -> (r: Result<(i32, usize), DecodeError>)
    ensures
        match r {
            Ok(p) => {
                &&& pos + 4 <= data@.len()
                &&& p.1 == pos + 4
                &&& p.0 == i32_bits_of_u32(spec_u32_from_le_bytes(data@.subrange(pos as int, pos + 4)))
            },
            Err(e) => match e {
                DecodeError::BufferOverflow => pos + 4 > data@.len(),
                _ => false,
            },
        },
{
    match decode_fixed32(data, pos) {
        Ok((raw, new_pos)) => {
            let value: i32 = if raw <= 0x7fff_ffff {
                raw as i32
            } else {
                -((u32::MAX - raw) as i32) - 1
            };
            Ok((value, new_pos))
        },
        Err(e) => Err(e),
    }
}

} // verus!
