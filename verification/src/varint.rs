//! Wire type 0: base-128 variable-length unsigned integers, plus the thin
//! key (tag) and bool codecs that are layered directly on them.

use vstd::prelude::*;

use crate::error::DecodeError;

verus! {

/// The canonical varint encoding of `v`: little-endian base-128, the
/// continuation bit `0x80` set on every byte except the last.
pub open spec fn varint_encoding(v: u64) -> Seq<u8>
    decreases v
        via varint_encoding_decreases
{
    if v < 0x80 {
        seq![v as u8]
    } else {
        seq![((v & 0x7f) | 0x80) as u8] + varint_encoding(v >> 7)
    }
}

#[via_fn]
proof fn varint_encoding_decreases(v: u64) {
    assert(v >= 0x80 ==> v >> 7 < v) by (bit_vector);
}

/// The value denoted by a complete varint byte sequence: each byte
/// contributes its low 7 bits, shifted 7 further bits per position.
/// (Accumulation truncates at 64 bits, as the decoder's does.)
pub open spec fn varint_value(bytes: Seq<u8>) -> u64
    decreases bytes.len(),
{
    if bytes.len() == 0 {
        0u64
    } else {
        varint_value(bytes.drop_last()) | (((bytes.last() & 0x7f) as u64) << ((7 * (bytes.len()
            - 1)) as u64))
    }
}

/// The number of bytes up to and including the first byte at or after `pos`
/// with a clear continuation bit, or `None` if the input ends first.
pub open spec fn varint_len(data: Seq<u8>, pos: int) -> Option<int>
    decreases data.len() - pos,
{
    if pos < 0 || pos >= data.len() {
        None
    } else if data[pos] & 0x80 == 0 {
        Some(1int)
    } else {
        match varint_len(data, pos + 1) {
            Some(n) => Some(n + 1),
            None => None,
        }
    }
}

/// Ten or more continuation bytes in a row starting at `pos`: no value
/// representable in 64 bits needs a tenth continuation byte, so such input
/// is rejected as malformed.
pub open spec fn varint_overlong(data: Seq<u8>, pos: int) -> bool {
    &&& 0 <= pos
    &&& pos + 10 <= data.len()
    &&& forall|i: int| pos <= i < pos + 10 ==> (#[trigger] data[i]) & 0x80 != 0
}

/// The cursor position just past the varint starting at `pos`, when one is
/// terminated within the input.
pub open spec fn varint_end(data: Seq<u8>, pos: int) -> int {
    match varint_len(data, pos) {
        Some(n) => pos + n,
        None => pos,
    }
}

/// The value of the varint starting at `pos`, when one is terminated within
/// the input.
pub open spec fn varint_at(data: Seq<u8>, pos: int) -> u64 {
    varint_value(data.subrange(pos, varint_end(data, pos)))
}

/// Appends the varint encoding of `value` to `buf`. Always emits at least
/// one byte, even for zero.
pub fn encode_varint(buf: &mut Vec<u8>, value: u64)
    ensures
        final(buf)@ == old(buf)@ + varint_encoding(value),
{
    let mut v = value;
    loop
        invariant
            old(buf)@ + varint_encoding(value) == buf@ + varint_encoding(v),
        decreases v,
    {
        if v < 0x80 {
            buf.push(v as u8);
            proof {
                assert(varint_encoding(v) =~= seq![v as u8]);
                assert(buf@ =~= old(buf)@ + varint_encoding(value));
            }
            return ;
        }
        let b = ((v & 0x7f) | 0x80) as u8;
        proof {
            assert((v & 0x7f) | 0x80 < 0x100) by (bit_vector);
            assert(v >= 0x80 ==> v >> 7 < v) by (bit_vector);
            assert(buf@.push(b) + varint_encoding(v >> 7) =~= buf@ + varint_encoding(v));
        }
        buf.push(b);
        v = v >> 7;
    }
}

/// Every byte of a varint encoding except the last carries the continuation
/// bit, and the last does not.
pub proof fn lemma_varint_encoding_shape(v: u64)
    ensures
        varint_encoding(v).len() >= 1,
        forall|i: int|
            0 <= i < varint_encoding(v).len() - 1 ==> (#[trigger] varint_encoding(v)[i]) & 0x80
                != 0,
        varint_encoding(v).last() & 0x80 == 0,
    decreases v,
{
    if v < 0x80 {
        assert(v < 0x80 ==> (v as u8) & 0x80 == 0) by (bit_vector);
    } else {
        assert(v >= 0x80 ==> v >> 7 < v) by (bit_vector);
        assert(((v & 0x7f) | 0x80) as u8 & 0x80 != 0) by (bit_vector);
        lemma_varint_encoding_shape(v >> 7);
    }
}

/// A value below `2^(7 k)` is encoded in at most `k` bytes: each emitted
/// byte disposes of seven bits.
proof fn lemma_varint_encoding_len_le(v: u64, k: nat)
    requires
        1 <= k,
        (v as nat) < vstd::arithmetic::power2::pow2(7 * k),
    ensures
        varint_encoding(v).len() <= k,
    decreases k,
{
    if v >= 0x80 {
        vstd::arithmetic::power2::lemma2_to64();
        if k == 1 {
            assert(false);
        }
        assert(v >> 7 == v / 128) by (bit_vector);
        vstd::arithmetic::power2::lemma_pow2_adds(7 * ((k - 1) as nat), 7);
        let p = vstd::arithmetic::power2::pow2(7 * ((k - 1) as nat));
        assert((v as nat) / 128 < p) by (nonlinear_arith)
            requires
                (v as nat) < p * 128,
                p > 0,
        ;
        assert(p > 0) by {
            vstd::arithmetic::power2::lemma_pow2_pos(7 * ((k - 1) as nat));
        }
        lemma_varint_encoding_len_le(v >> 7, (k - 1) as nat);
    }
}

/// A varint encoding never exceeds ten bytes: no 64-bit value needs more.
pub proof fn lemma_varint_encoding_len(v: u64)
    ensures
        1 <= varint_encoding(v).len() <= 10,
{
    vstd::arithmetic::power2::lemma2_to64();
    vstd::arithmetic::power2::lemma_pow2_adds(64, 6);
    assert((v as nat) < vstd::arithmetic::power2::pow2(70));
    lemma_varint_encoding_len_le(v, 10);
}

/// Minimality of the varint encoding at the small end: one byte exactly for
/// values below `0x80`, two bytes exactly for values below `0x4000`.
pub proof fn lemma_varint_encoding_minimal(v: u64)
    ensures
        varint_encoding(v).len() == 1 <==> v < 0x80,
        varint_encoding(v).len() <= 2 <==> v < 0x4000,
{
    if v >= 0x80 {
        lemma_varint_encoding_len(v >> 7);
        lemma_varint_encoding_len((v >> 7) >> 7);
        assert(varint_encoding(v).len() == 1 + varint_encoding(v >> 7).len());
        if v >> 7 >= 0x80 {
            assert(varint_encoding(v >> 7).len() == 1 + varint_encoding((v >> 7) >> 7).len());
        }
        assert(v >> 7 < 0x80 <==> v < 0x4000) by (bit_vector);
    }
}

/// Prepending a byte to a decoded tail shifts the tail's value up by seven
/// bits and adds the byte's low seven bits.
proof fn lemma_varint_value_prepend(b: u8, rest: Seq<u8>)
    requires
        rest.len() <= 9,
    ensures
        varint_value(seq![b] + rest) == ((b & 0x7f) as u64) | (varint_value(rest) << 7),
    decreases rest.len(),
{
    if rest.len() == 0 {
        let s = seq![b] + rest;
        assert(s =~= seq![b]);
        assert(s.len() == 1 && s.last() == b);
        assert(s.drop_last() =~= Seq::<u8>::empty());
        assert(varint_value(s) == varint_value(s.drop_last()) | (((s.last() & 0x7f) as u64) << ((7
            * (s.len() - 1)) as u64)));
        assert(varint_value(s) == 0u64 | (((b & 0x7f) as u64) << 0u64));
        assert(0u64 | (((b & 0x7f) as u64) << 0u64) == ((b & 0x7f) as u64) | (0u64 << 7u64))
            by (bit_vector);
    } else {
        let c = rest.last();
        let r0 = rest.drop_last();
        lemma_varint_value_prepend(b, r0);
        assert((seq![b] + rest).drop_last() =~= seq![b] + r0);
        assert((seq![b] + rest).last() == c);
        let x = varint_value(r0);
        let y = (c & 0x7f) as u64;
        let z = (b & 0x7f) as u64;
        let s = (7 * r0.len()) as u64;
        assert((z | (x << 7)) | (y << (s + 7)) == z | ((x | (y << s)) << 7)) by (bit_vector)
            requires
                s <= 56,
        ;
    }
}

/// Round-trip at the value level: decoding the canonical encoding of `v`
/// yields `v` again.
pub proof fn lemma_varint_roundtrip(v: u64)
    ensures
        varint_value(varint_encoding(v)) == v,
    decreases v,
{
    if v < 0x80 {
        let s = varint_encoding(v);
        assert(s =~= seq![v as u8]);
        assert(s.len() == 1 && s.last() == v as u8);
        assert(s.drop_last() =~= Seq::<u8>::empty());
        assert(varint_value(s) == varint_value(s.drop_last()) | (((s.last() & 0x7f) as u64) << ((7
            * (s.len() - 1)) as u64)));
        assert(varint_value(s.drop_last()) == 0u64);
        assert(varint_value(s) == 0u64 | (((v as u8) & 0x7f) as u64) << 0u64);
        assert(v < 0x80 ==> 0u64 | (((v as u8) & 0x7f) as u64) << 0u64 == v) by (bit_vector);
    } else {
        assert(v >= 0x80 ==> v >> 7 < v) by (bit_vector);
        lemma_varint_roundtrip(v >> 7);
        assert(v >> 7 < 0x0200_0000_0000_0000) by (bit_vector);
        vstd::arithmetic::power2::lemma2_to64_rest();
        assert(((v >> 7) as nat) < vstd::arithmetic::power2::pow2(63));
        lemma_varint_encoding_len_le(v >> 7, 9);
        assert(((v & 0x7f) | 0x80) < 0x100) by (bit_vector);
        lemma_varint_value_prepend(((v & 0x7f) | 0x80) as u8, varint_encoding(v >> 7));
        assert(v >= 0x80 ==> ((((v & 0x7f) | 0x80) as u8 & 0x7f) as u64) | ((v >> 7) << 7) == v)
            by (bit_vector);
    }
}

/// Round-trip for bools: the single-byte encoding of a bool decodes, under
/// the lenient nonzero-is-true rule, to the same bool.
pub proof fn lemma_bool_roundtrip(v: bool)
    ensures
        (varint_value(varint_encoding(if v { 1u64 } else { 0u64 })) != 0) == v,
{
    lemma_varint_roundtrip(if v { 1u64 } else { 0u64 });
}

/// Wherever a buffer holds the canonical encoding of `v` at `pos`, the
/// decoder's terminator search stops exactly at the end of that encoding and
/// the decoded value is `v`: decode inverts encode in place.
pub proof fn lemma_varint_decodes_encoding(data: Seq<u8>, pos: int, v: u64)
    requires
        0 <= pos,
        pos + varint_encoding(v).len() <= data.len(),
        data.subrange(pos, pos + varint_encoding(v).len()) == varint_encoding(v),
    ensures
        !varint_overlong(data, pos),
        varint_len(data, pos) == Some(varint_encoding(v).len() as int),
        varint_end(data, pos) == pos + varint_encoding(v).len(),
        varint_at(data, pos) == v,
{
    let enc = varint_encoding(v);
    let n = enc.len() as int;
    lemma_varint_encoding_shape(v);
    lemma_varint_encoding_len(v);
    assert forall|j: int| pos <= j < pos + n - 1 implies (#[trigger] data[j]) & 0x80 != 0 by {
        assert(data[j] == enc[j - pos]);
    }
    assert(data[pos + n - 1] == enc[n - 1]);
    lemma_varint_len_skip_continuations(data, pos, pos + n - 1);
    assert(varint_len(data, pos + n - 1) == Some(1int));
    assert(!varint_overlong(data, pos)) by {
        if varint_overlong(data, pos) {
            assert(data[pos + n - 1] & 0x80 != 0);
        }
    }
    lemma_varint_roundtrip(v);
}

/// When every byte of `data` in `[pos, end)` carries the continuation bit,
/// the terminator search starting at `pos` continues exactly as it would
/// from `end`, `end - pos` bytes later.
proof fn lemma_varint_len_skip_continuations(data: Seq<u8>, pos: int, end: int)
    requires
        0 <= pos <= end <= data.len(),
        forall|j: int| pos <= j < end ==> (#[trigger] data[j]) & 0x80 != 0,
    ensures
        varint_len(data, pos) == match varint_len(data, end) {
            Some(n) => Some(n + (end - pos)),
            None => None::<int>,
        },
    decreases end - pos,
{
    if pos < end {
        lemma_varint_len_skip_continuations(data, pos + 1, end);
    }
}

/// Reads the varint starting at `pos`: accumulates the low 7 bits of each
/// byte until one with a clear continuation bit terminates the value.
///
/// Fails with `BufferOverflow` when the input is exhausted first, and with
/// `InvalidVarint` when ten continuation bytes are found in a row.
pub fn decode_varint(data: &Vec<u8>, pos: usize) -> (r: Result<(u64, usize), DecodeError>)
    ensures
        match r {
            Ok(p) => {
                &&& !varint_overlong(data@, pos as int)
                &&& varint_len(data@, pos as int) is Some
                &&& p.1 == varint_end(data@, pos as int)
                &&& pos < p.1 <= data@.len()
                &&& p.0 == varint_at(data@, pos as int)
            },
            Err(e) => match e {
                DecodeError::BufferOverflow => !varint_overlong(data@, pos as int)
                    && varint_len(data@, pos as int) is None,
                DecodeError::InvalidVarint => varint_overlong(data@, pos as int),
                _ => false,
            },
        },
{
    if pos >= data.len() {
        return Err(DecodeError::BufferOverflow);
    }
    let mut result: u64 = 0;
    let mut shift: u32 = 0;
    let mut i: usize = pos;
    loop
        invariant
            pos <= i <= data@.len(),
            pos < data@.len(),
            shift == 7 * (i - pos),
            shift <= 63,
            result == varint_value(data@.subrange(pos as int, i as int)),
            forall|j: int| pos <= j < i ==> (#[trigger] data@[j]) & 0x80 != 0,
        decreases data@.len() - i,
    {
        if i >= data.len() {
            proof {
                lemma_varint_len_skip_continuations(data@, pos as int, i as int);
            }
            return Err(DecodeError::BufferOverflow);
        }
        let b = data[i];
        let ghost prev = data@.subrange(pos as int, i as int);
        result = result | (((b & 0x7f) as u64) << shift);
        i = i + 1;
        proof {
            let cur = data@.subrange(pos as int, i as int);
            assert(cur.drop_last() =~= prev);
            assert(cur.last() == b);
        }
        if b & 0x80 == 0 {
            proof {
                lemma_varint_len_skip_continuations(data@, pos as int, i - 1);
                assert(varint_len(data@, i - 1) == Some(1int));
                assert(varint_len(data@, pos as int) == Some(i - pos));
                assert(!varint_overlong(data@, pos as int)) by {
                    if varint_overlong(data@, pos as int) {
                        assert(data@[i - 1] & 0x80 != 0);
                    }
                }
            }
            return Ok((result, i));
        }
        if shift >= 63 {
            proof {
                assert(i == pos + 10);
                assert(varint_overlong(data@, pos as int));
            }
            return Err(DecodeError::InvalidVarint);
        }
        shift = shift + 7;
    }
}

/// A thin varint-decode alias for reading a combined tag value.
pub fn decode_key(data: &Vec<u8>, pos: usize) -> (r: Result<(u64, usize), DecodeError>)
    ensures
        match r {
            Ok(p) => {
                &&& !varint_overlong(data@, pos as int)
                &&& varint_len(data@, pos as int) is Some
                &&& p.1 == varint_end(data@, pos as int)
                &&& pos < p.1 <= data@.len()
                &&& p.0 == varint_at(data@, pos as int)
            },
            Err(e) => match e {
                DecodeError::BufferOverflow => !varint_overlong(data@, pos as int)
                    && varint_len(data@, pos as int) is None,
                DecodeError::InvalidVarint => varint_overlong(data@, pos as int),
                _ => false,
            },
        },
{
    decode_varint(data, pos)
}

/// Decodes a bool as a varint, accepting any nonzero value as `true`,
/// matching the lenient wire-format convention.
pub fn decode_bool(data: &Vec<u8>, pos: usize) -> (r: Result<(bool, usize), DecodeError>)
    ensures
        match r {
            Ok(p) => {
                &&& !varint_overlong(data@, pos as int)
                &&& varint_len(data@, pos as int) is Some
                &&& p.1 == varint_end(data@, pos as int)
                &&& pos < p.1 <= data@.len()
                &&& p.0 == (varint_at(data@, pos as int) != 0)
            },
            Err(e) => match e {
                DecodeError::BufferOverflow => !varint_overlong(data@, pos as int)
                    && varint_len(data@, pos as int) is None,
                DecodeError::InvalidVarint => varint_overlong(data@, pos as int),
                _ => false,
            },
        },
{
    match decode_varint(data, pos) {
        Ok((v, new_pos)) => Ok((v != 0, new_pos)),
        Err(e) => Err(e),
    }
}

/// Varint-encodes a caller-supplied combined tag value. This layer does not
/// split the tag into field number and wire type; that decomposition belongs
/// to the caller.
pub fn encode_key(buf: &mut Vec<u8>, tag: u64)
    ensures
        final(buf)@ == old(buf)@ + varint_encoding(tag),
{
    encode_varint(buf, tag);
}

/// Encodes a bool as a single-byte varint: `0x01` for true, `0x00` for false.
pub fn encode_bool(buf: &mut Vec<u8>, value: bool)
    ensures
        final(buf)@ == old(buf)@ + varint_encoding(if value { 1u64 } else { 0u64 }),
{
    if value {
        buf.push(1);
        proof {
            assert(varint_encoding(1u64) =~= seq![1u8]);
            assert(buf@ =~= old(buf)@ + varint_encoding(1u64));
        }
    } else {
        buf.push(0);
        proof {
            assert(varint_encoding(0u64) =~= seq![0u8]);
            assert(buf@ =~= old(buf)@ + varint_encoding(0u64));
        }
    }
}

} // verus!
