//! ZigZag transform for sint32/sint64: maps signed integers to unsigned
//! integers so that small magnitudes of either sign become small varints,
//! then delegates to the varint codec.

use vstd::prelude::*;

use crate::error::DecodeError;
use crate::varint::{
    decode_varint, encode_varint, varint_at, varint_encoding, varint_end, varint_len,
    varint_overlong,
};

verus! {

/// The 32-bit zigzag fold: `0, -1, 1, -2, 2, ...` map to `0, 1, 2, 3, 4, ...`.
pub open spec fn zigzag32(v: i32) -> u32 {
    if v >= 0 {
        (2 * v) as u32
    } else {
        (-2 * (v as int) - 1) as u32
    }
}

/// The inverse of the 32-bit zigzag fold.
pub open spec fn unzigzag32(n: u32) -> i32 {
    if n % 2 == 0 {
        (n / 2) as i32
    } else {
        (-1 - (n / 2) as int) as i32
    }
}

/// The 64-bit zigzag fold.
pub open spec fn zigzag64(v: i64) -> u64 {
    if v >= 0 {
        (2 * v) as u64
    } else {
        (-2 * (v as int) - 1) as u64
    }
}

/// The inverse of the 64-bit zigzag fold.
pub open spec fn unzigzag64(n: u64) -> i64 {
    if n % 2 == 0 {
        (n / 2) as i64
    } else {
        (-1 - (n / 2) as int) as i64
    }
}

/// The low 32 bits of a decoded varint, as the 32-bit decoders truncate it.
pub open spec fn low32(x: u64) -> u32 {
    (x % 0x1_0000_0000) as u32
}

/// ZigZag symmetry at 32 bits: unfolding the fold recovers every value,
/// including `i32::MIN`, whose naive negation would overflow.
pub proof fn lemma_zigzag32_roundtrip(v: i32)
    ensures
        unzigzag32(zigzag32(v)) == v,
{
}

/// ZigZag symmetry at 64 bits: unfolding the fold recovers every value,
/// including `i64::MIN`.
pub proof fn lemma_zigzag64_roundtrip(v: i64)
    ensures
        unzigzag64(zigzag64(v)) == v,
{
}

/// A 32-bit zigzag value occupies only the low 32 bits, so the decoder's
/// truncation never loses any of it.
pub proof fn lemma_zigzag32_fits(v: i32)
    ensures
        low32(zigzag32(v) as u64) == zigzag32(v),
{
}

/// Encodes a signed 32-bit value by zigzag-folding it and varint-encoding
/// the result.
pub fn encode_zigzag32(buf: &mut Vec<u8>, value: i32)
    ensures
        final(buf)@ == old(buf)@ + varint_encoding(zigzag32(value) as u64),
{
    let encoded: u32 = if value >= 0 {
        (value as u32) * 2
    } else {
        (-(value + 1)) as u32 * 2 + 1
    };
    encode_varint(buf, encoded as u64);
}

/// Decodes a varint and unfolds the 32-bit zigzag transform; the raw varint
/// is truncated to 32 bits first, as the fixed-width domain demands.
pub fn decode_zigzag32(data: &Vec<u8>, pos: usize) -> (r: Result<(i32, usize), DecodeError>)
    ensures
        match r {
            Ok(p) => {
                &&& !varint_overlong(data@, pos as int)
                &&& varint_len(data@, pos as int) is Some
                &&& p.1 == varint_end(data@, pos as int)
                &&& pos < p.1 <= data@.len()
                &&& p.0 == unzigzag32(low32(varint_at(data@, pos as int)))
            },
            Err(e) => match e {
                DecodeError::BufferOverflow => !varint_overlong(data@, pos as int)
                    && varint_len(data@, pos as int) is None,
                DecodeError::InvalidVarint => varint_overlong(data@, pos as int),
                _ => false,
            },
        },
{
    match decode_varint(data, pos) {
        Ok((raw, new_pos)) => {
            let n: u32 = (raw % 0x1_0000_0000) as u32;
            let half: u32 = n / 2;
            let value: i32 = if n % 2 == 0 {
                half as i32
            } else {
                -(half as i32) - 1
            };
            Ok((value, new_pos))
        },
        Err(e) => Err(e),
    }
}

/// Encodes a signed 64-bit value by zigzag-folding it and varint-encoding
/// the result.
pub fn encode_zigzag64(buf: &mut Vec<u8>, value: i64)
    ensures
        final(buf)@ == old(buf)@ + varint_encoding(zigzag64(value)),
{
    let encoded: u64 = if value >= 0 {
        (value as u64) * 2
    } else {
        (-(value + 1)) as u64 * 2 + 1
    };
    encode_varint(buf, encoded);
}

/// Decodes a varint and unfolds the 64-bit zigzag transform.
pub fn decode_zigzag64(data: &Vec<u8>, pos: usize) -> (r: Result<(i64, usize), DecodeError>)
    ensures
        match r {
            Ok(p) => {
                &&& !varint_overlong(data@, pos as int)
                &&& varint_len(data@, pos as int) is Some
                &&& p.1 == varint_end(data@, pos as int)
                &&& pos < p.1 <= data@.len()
                &&& p.0 == unzigzag64(varint_at(data@, pos as int))
            },
            Err(e) => match e {
                DecodeError::BufferOverflow => !varint_overlong(data@, pos as int)
                    && varint_len(data@, pos as int) is None,
                DecodeError::InvalidVarint => varint_overlong(data@, pos as int),
                _ => false,
            },
        },
{
    match decode_varint(data, pos) {
        Ok((raw, new_pos)) => {
            let half: u64 = raw / 2;
            let value: i64 = if raw % 2 == 0 {
                half as i64
            } else {
                -(half as i64) - 1
            };
            Ok((value, new_pos))
        },
        Err(e) => Err(e),
    }
}

} // verus!
