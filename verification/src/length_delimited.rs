//! Wire type 2: length-delimited byte blobs, and the string codec layered
//! on them through UTF-8 validation.

use vstd::prelude::*;
use vstd::string::StrSliceExecFns;
use vstd::utf8::{
    decode_utf8, encode_utf8, encode_utf8_decode_utf8, encode_utf8_valid_utf8,
    is_continuation_byte, is_leading_byte_width_1, is_leading_byte_width_2,
    is_leading_byte_width_3, is_leading_byte_width_4, length_of_first_scalar, pop_first_scalar,
    valid_first_scalar, valid_utf8,
};

use crate::error::DecodeError;
use crate::varint::{
    decode_varint, encode_varint, lemma_varint_decodes_encoding, varint_at, varint_encoding,
    varint_end, varint_len, varint_overlong,
};

verus! {

/// Appends a varint length prefix followed by the raw bytes of `value`:
/// no padding, no terminator.
pub fn encode_bytes(buf: &mut Vec<u8>, value: &Vec<u8>)
    ensures
        final(buf)@ == old(buf)@ + varint_encoding(value@.len() as u64) + value@,
{
    encode_varint(buf, value.len() as u64);
    let ghost mid = buf@;
    let mut i: usize = 0;
    while i < value.len()
        invariant
            i <= value@.len(),
            buf@ == mid + value@.take(i as int),
            mid == old(buf)@ + varint_encoding(value@.len() as u64),
        decreases value@.len() - i,
    {
        buf.push(value[i]);
        proof {
            assert(value@.take(i + 1) =~= value@.take(i as int).push(value@[i as int]));
        }
        i = i + 1;
    }
    proof {
        assert(value@.take(value@.len() as int) =~= value@);
    }
}

/// Decodes a varint length prefix, then returns an owned copy of that many
/// following bytes; fails with `BufferOverflow` when fewer remain.
pub fn decode_bytes(data: &Vec<u8>, pos: usize) -> (r: Result<(Vec<u8>, usize), DecodeError>)
    ensures
        match r {
            Ok(p) => {
                let mid = varint_end(data@, pos as int);
                let n = varint_at(data@, pos as int) as int;
                &&& !varint_overlong(data@, pos as int)
                &&& varint_len(data@, pos as int) is Some
                &&& mid + n <= data@.len()
                &&& p.1 == mid + n
                &&& p.0@ == data@.subrange(mid, mid + n)
            },
            Err(e) => match e {
                DecodeError::BufferOverflow => (!varint_overlong(data@, pos as int) && varint_len(
                    data@,
                    pos as int,
                ) is None) || (!varint_overlong(data@, pos as int) && varint_len(data@, pos as int)
                    is Some && varint_end(data@, pos as int) + varint_at(data@, pos as int)
                    > data@.len()),
                DecodeError::InvalidVarint => varint_overlong(data@, pos as int),
                _ => false,
            },
        },
{
    match decode_varint(data, pos) {
        Ok((len64, mid)) => {
            if (data.len() - mid) as u64 >= len64 {
                let n = len64 as usize;
                let end: usize = mid + n;
                let mut out: Vec<u8> = Vec::new();
                let mut i: usize = 0;
                while i < n
                    invariant
                        i <= n,
                        end == mid + n,
                        end <= data@.len(),
                        out@ == data@.subrange(mid as int, mid + i),
                    decreases n - i,
                {
                    out.push(data[mid + i]);
                    proof {
                        assert(data@.subrange(mid as int, mid + i + 1) =~= data@.subrange(
                            mid as int,
                            mid + i,
                        ).push(data@[mid + i]));
                    }
                    i = i + 1;
                }
                Ok((out, end))
            } else {
                Err(DecodeError::BufferOverflow)
            }
        },
        Err(e) => Err(e),
    }
}

/// Appends the length-delimited UTF-8 representation of `value`.
pub fn encode_string(buf: &mut Vec<u8>, value: &str)
    ensures
        final(buf)@ == old(buf)@ + varint_encoding(encode_utf8(value@).len() as u64) + encode_utf8(
            value@,
        ),
{
    let bytes = value.as_bytes_vec();
    encode_bytes(buf, &bytes);
}

/// Relies on `String::from_utf8`: it succeeds exactly when the bytes are a
/// well-formed UTF-8 encoding, and the resulting string consists of the
/// characters those bytes encode. Stated over vstd's UTF-8 model
/// (`valid_utf8`, `decode_utf8`).
#[verifier::external_body]
fn string_from_utf8(bytes: Vec<u8>) -> (r: Option<String>)
    ensures
        match r {
            Some(s) => valid_utf8(bytes@) && s@ == decode_utf8(bytes@),
            None => !valid_utf8(bytes@),
        },
{
    match String::from_utf8(bytes) {
        Ok(s) => Some(s),
        Err(_) => None,
    }
}

/// Decodes a length-delimited blob and validates it as UTF-8; fails with
/// `InvalidData` when validation fails, leaving no partially-decoded string
/// observable.
pub fn decode_string(data: &Vec<u8>, pos: usize) -> (r: Result<(String, usize), DecodeError>)
    ensures
        match r {
            Ok(p) => {
                let mid = varint_end(data@, pos as int);
                let n = varint_at(data@, pos as int) as int;
                &&& !varint_overlong(data@, pos as int)
                &&& varint_len(data@, pos as int) is Some
                &&& mid + n <= data@.len()
                &&& p.1 == mid + n
                &&& valid_utf8(data@.subrange(mid, mid + n))
                &&& p.0@ == decode_utf8(data@.subrange(mid, mid + n))
            },
            Err(e) => match e {
                DecodeError::InvalidData(m) => {
                    let mid = varint_end(data@, pos as int);
                    let n = varint_at(data@, pos as int) as int;
                    &&& !varint_overlong(data@, pos as int)
                    &&& varint_len(data@, pos as int) is Some
                    &&& mid + n <= data@.len()
                    &&& !valid_utf8(data@.subrange(mid, mid + n))
                    &&& m@ == "invalid UTF-8 in string field"@
                },
                DecodeError::BufferOverflow => (!varint_overlong(data@, pos as int) && varint_len(
                    data@,
                    pos as int,
                ) is None) || (!varint_overlong(data@, pos as int) && varint_len(data@, pos as int)
                    is Some && varint_end(data@, pos as int) + varint_at(data@, pos as int)
                    > data@.len()),
                DecodeError::InvalidVarint => varint_overlong(data@, pos as int),
                _ => false,
            },
        },
{
    match decode_bytes(data, pos) {
        Ok((raw, new_pos)) => match string_from_utf8(raw) {
            Some(s) => Ok((s, new_pos)),
            None => Err(DecodeError::InvalidData("invalid UTF-8 in string field")),
        },
        Err(e) => Err(e),
    }
}

/// Round-trip of the UTF-8 layer: the byte representation of any character
/// sequence is well-formed UTF-8 and decodes to the same characters, so
/// string decode inverts string encode.
pub proof fn lemma_string_roundtrip(s: Seq<char>)
    ensures
        valid_utf8(encode_utf8(s)),
        decode_utf8(encode_utf8(s)) == s,
{
    encode_utf8_valid_utf8(s);
    encode_utf8_decode_utf8(s);
}

/// Round-trip of the length-delimited framing: wherever a buffer holds a
/// varint length prefix followed by that many payload bytes, the blob
/// decoder recovers exactly the payload and stops exactly past it.
pub proof fn lemma_length_delimited_roundtrip(data: Seq<u8>, pos: int, payload: Seq<u8>)
    requires
        0 <= pos,
        payload.len() <= u64::MAX,
        pos + varint_encoding(payload.len() as u64).len() + payload.len() <= data.len(),
        data.subrange(
            pos,
            pos + varint_encoding(payload.len() as u64).len() + payload.len(),
        ) == varint_encoding(payload.len() as u64) + payload,
    ensures
        !varint_overlong(data, pos),
        varint_len(data, pos) is Some,
        varint_at(data, pos) == payload.len() as u64,
        varint_end(data, pos) == pos + varint_encoding(payload.len() as u64).len(),
        data.subrange(
            varint_end(data, pos),
            varint_end(data, pos) + payload.len(),
        ) == payload,
{
    let enc = varint_encoding(payload.len() as u64);
    let k = enc.len() as int;
    let whole = data.subrange(pos, pos + k + payload.len());
    assert forall|j: int| 0 <= j < k + payload.len() implies data[pos + j] == (enc + payload)[j] by {
        assert(whole[j] == data[pos + j]);
    }
    assert(data.subrange(pos, pos + k) =~= enc);
    lemma_varint_decodes_encoding(data, pos, payload.len() as u64);
    assert forall|m: int| 0 <= m < payload.len() implies data.subrange(
        pos + k,
        pos + k + payload.len(),
    )[m] == payload[m] by {
        assert(data[pos + (k + m)] == (enc + payload)[k + m]);
    }
    assert(data.subrange(pos + k, pos + k + payload.len()) =~= payload);
}

/// A byte sequence containing `0xff` anywhere is never well-formed UTF-8:
/// every byte of a well-formed encoding is a leading byte (at most `0xf7`)
/// or a continuation byte (at most `0xbf`). Decoding such a blob as a
/// string therefore fails, while the same bytes decode as a raw blob.
pub proof fn lemma_invalid_byte_rejected(bytes: Seq<u8>, i: int)
    requires
        0 <= i < bytes.len(),
        bytes[i] == 0xff,
    ensures
        !valid_utf8(bytes),
    decreases bytes.len(),
{
    if valid_utf8(bytes) {
        let n = length_of_first_scalar(bytes);
        assert(valid_first_scalar(bytes));
        assert(1 <= n <= 4);
        if i < n {
            assert(is_leading_byte_width_1(bytes[0]) || is_leading_byte_width_2(bytes[0])
                || is_leading_byte_width_3(bytes[0]) || is_leading_byte_width_4(bytes[0]));
            assert(1 <= i < n ==> is_continuation_byte(bytes[i]));
            assert(false);
        } else {
            let rest = pop_first_scalar(bytes);
            assert(rest[i - n] == bytes[i]);
            lemma_invalid_byte_rejected(rest, i - n);
        }
    }
}

} // verus!
