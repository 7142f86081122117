//! Unknown-field skipping: advances a cursor past one encoded value without
//! materializing it, dispatching on the wire type. This is how higher-level
//! decoders tolerate unrecognized fields during schema evolution.

use vstd::prelude::*;

use crate::error::DecodeError;
use crate::varint::{decode_varint, varint_at, varint_end, varint_len, varint_overlong};

verus! {

/// Advances past one encoded value of the given wire type: a whole varint
/// for type 0, 8 bytes for type 1, a varint length prefix plus that many
/// bytes for type 2, and 4 bytes for type 5. Every advance is
/// bounds-checked, and any other wire type fails `UnknownWireType`,
/// surfacing the offending value.
pub fn skip_field(data: &Vec<u8>, pos: usize, wire_type: u64) -> (r: Result<
    usize,
    DecodeError,
>)
    ensures
        wire_type == 0 ==> match r {
            Ok(new_pos) => {
                &&& !varint_overlong(data@, pos as int)
                &&& varint_len(data@, pos as int) is Some
                &&& new_pos == varint_end(data@, pos as int)
            },
            Err(e) => match e {
                DecodeError::BufferOverflow => !varint_overlong(data@, pos as int) && varint_len(
                    data@,
                    pos as int,
                ) is None,
                DecodeError::InvalidVarint => varint_overlong(data@, pos as int),
                _ => false,
            },
        },
        wire_type == 1 ==> match r {
            Ok(new_pos) => pos + 8 <= data@.len() && new_pos == pos + 8,
            Err(e) => e matches DecodeError::BufferOverflow && pos + 8 > data@.len(),
        },
        wire_type == 2 ==> match r {
            Ok(new_pos) => {
                &&& !varint_overlong(data@, pos as int)
                &&& varint_len(data@, pos as int) is Some
                &&& new_pos == varint_end(data@, pos as int) + varint_at(data@, pos as int)
                &&& new_pos <= data@.len()
            },
            Err(e) => match e {
                DecodeError::BufferOverflow => (!varint_overlong(data@, pos as int) && varint_len(
                    data@,
                    pos as int,
                ) is None) || (!varint_overlong(data@, pos as int) && varint_len(data@, pos as int)
                    is Some && varint_end(data@, pos as int) + varint_at(data@, pos as int)
                    > data@.len()),
                DecodeError::InvalidVarint => varint_overlong(data@, pos as int),
                _ => false,
            },
        },
        wire_type == 5 ==> match r {
            Ok(new_pos) => pos + 4 <= data@.len() && new_pos == pos + 4,
            Err(e) => e matches DecodeError::BufferOverflow && pos + 4 > data@.len(),
        },
        wire_type != 0 && wire_type != 1 && wire_type != 2 && wire_type != 5 ==> (r matches Err(
            DecodeError::UnknownWireType(w),
        ) && w == wire_type),
{
    if wire_type == 0 {
        // Varint: skip until the continuation bit is clear.
        match decode_varint(data, pos) {
            Ok((_, new_pos)) => Ok(new_pos),
            Err(e) => Err(e),
        }
    } else if wire_type == 1 {
        // 64-bit: skip 8 bytes.
        if data.len() < 8 || pos > data.len() - 8 {
            Err(DecodeError::BufferOverflow)
        } else {
            Ok(pos + 8)
        }
    } else if wire_type == 2 {
        // Length-delimited: read the length, then skip that many bytes.
        match decode_varint(data, pos) {
            Ok((len64, new_pos)) => {
                if (data.len() - new_pos) as u64 >= len64 {
                    Ok(new_pos + (len64 as usize))
                } else {
                    Err(DecodeError::BufferOverflow)
                }
            },
            Err(e) => Err(e),
        }
    } else if wire_type == 5 {
        // 32-bit: skip 4 bytes.
        if data.len() < 4 || pos > data.len() - 4 {
            Err(DecodeError::BufferOverflow)
        } else {
            Ok(pos + 4)
        }
    } else {
        Err(DecodeError::UnknownWireType(wire_type))
    }
}

} // verus!
