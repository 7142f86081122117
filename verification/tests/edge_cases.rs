use protowire::{
    decode_bool, decode_bytes, decode_fixed32, decode_fixed64, decode_key, decode_sfixed32,
    decode_sfixed64, decode_string, decode_varint, decode_zigzag32, decode_zigzag64, encode_bytes,
    encode_key, encode_sfixed32, encode_sfixed64, encode_varint, encode_zigzag32, skip_field,
    DecodeError,
};

#[test]
fn varint_minimal_encodings() {
    let mut buf = Vec::new();
    encode_varint(&mut buf, 0);
    assert_eq!(buf, vec![0x00]);

    let mut buf = Vec::new();
    encode_varint(&mut buf, 127);
    assert_eq!(buf, vec![0x7F]);

    let mut buf = Vec::new();
    encode_varint(&mut buf, 128);
    assert_eq!(buf, vec![0x80, 0x01]);

    let mut buf = Vec::new();
    encode_varint(&mut buf, 300);
    assert_eq!(buf, vec![0xAC, 0x02]);
}

#[test]
fn empty_buffer_overflows_every_decoder() {
    let empty: Vec<u8> = Vec::new();
    assert!(matches!(decode_varint(&empty, 0), Err(DecodeError::BufferOverflow)));
    assert!(matches!(decode_key(&empty, 0), Err(DecodeError::BufferOverflow)));
    assert!(matches!(decode_bool(&empty, 0), Err(DecodeError::BufferOverflow)));
    assert!(matches!(decode_zigzag32(&empty, 0), Err(DecodeError::BufferOverflow)));
    assert!(matches!(decode_zigzag64(&empty, 0), Err(DecodeError::BufferOverflow)));
    assert!(matches!(decode_fixed32(&empty, 0), Err(DecodeError::BufferOverflow)));
    assert!(matches!(decode_fixed64(&empty, 0), Err(DecodeError::BufferOverflow)));
    assert!(matches!(decode_sfixed32(&empty, 0), Err(DecodeError::BufferOverflow)));
    assert!(matches!(decode_sfixed64(&empty, 0), Err(DecodeError::BufferOverflow)));
    assert!(matches!(decode_bytes(&empty, 0), Err(DecodeError::BufferOverflow)));
    assert!(matches!(decode_string(&empty, 0), Err(DecodeError::BufferOverflow)));
}

#[test]
fn declared_length_past_end_overflows() {
    // Length prefix of 5 followed by only two payload bytes.
    let data = vec![0x05u8, 0x01, 0x02];
    assert!(matches!(decode_bytes(&data, 0), Err(DecodeError::BufferOverflow)));
    assert!(matches!(decode_string(&data, 0), Err(DecodeError::BufferOverflow)));
    assert!(matches!(skip_field(&data, 0, 2), Err(DecodeError::BufferOverflow)));
}

#[test]
fn ten_continuation_bytes_are_invalid() {
    let data = vec![0x80u8; 10];
    assert!(matches!(decode_varint(&data, 0), Err(DecodeError::InvalidVarint)));
    // Twelve continuation bytes fail the same way: the tenth settles it.
    let data = vec![0xFFu8; 12];
    assert!(matches!(decode_varint(&data, 0), Err(DecodeError::InvalidVarint)));
    // Nine of them followed by the end of input are a truncation instead.
    let data = vec![0x80u8; 9];
    assert!(matches!(decode_varint(&data, 0), Err(DecodeError::BufferOverflow)));
}

#[test]
fn invalid_utf8_rejected_as_string_accepted_as_bytes() {
    let payload = vec![0x68u8, 0x69, 0xFF];
    let mut buf = Vec::new();
    encode_bytes(&mut buf, &payload);
    assert!(matches!(decode_string(&buf, 0), Err(DecodeError::InvalidData(_))));
    let (decoded, pos) = decode_bytes(&buf, 0).unwrap();
    assert_eq!(decoded, payload);
    assert_eq!(pos, buf.len());
}

#[test]
fn unknown_wire_type_is_surfaced() {
    let data = vec![0x01u8, 0x02, 0x03, 0x04, 0x05, 0x06, 0x07, 0x08];
    for wt in [3u64, 4, 6, 7, 100, u64::MAX] {
        match skip_field(&data, 0, wt) {
            Err(DecodeError::UnknownWireType(w)) => assert_eq!(w, wt),
            other => panic!("expected UnknownWireType, got {:?}", other),
        }
    }
}

#[test]
fn bool_decode_is_lenient() {
    // Any nonzero varint decodes as true, not only 1.
    let mut buf = Vec::new();
    encode_varint(&mut buf, 300);
    let (decoded, pos) = decode_bool(&buf, 0).unwrap();
    assert!(decoded);
    assert_eq!(pos, buf.len());

    let buf = vec![0x00u8];
    let (decoded, _) = decode_bool(&buf, 0).unwrap();
    assert!(!decoded);
}

#[test]
fn zigzag_wire_values_are_small_for_small_magnitudes() {
    // 0, -1, 1, -2, 2 fold to 0, 1, 2, 3, 4.
    for (val, expected) in [(0i32, 0x00u8), (-1, 0x01), (1, 0x02), (-2, 0x03), (2, 0x04)] {
        let mut buf = Vec::new();
        encode_zigzag32(&mut buf, val);
        assert_eq!(buf, vec![expected]);
    }
}

#[test]
fn fixed_layout_is_little_endian() {
    let mut buf = Vec::new();
    encode_sfixed64(&mut buf, -2);
    assert_eq!(buf, vec![0xFE, 0xFF, 0xFF, 0xFF, 0xFF, 0xFF, 0xFF, 0xFF]);
    let (decoded, pos) = decode_sfixed64(&buf, 0).unwrap();
    assert_eq!(decoded, -2);
    assert_eq!(pos, 8);

    let mut buf = Vec::new();
    encode_sfixed32(&mut buf, -2);
    assert_eq!(buf, vec![0xFE, 0xFF, 0xFF, 0xFF]);
    let (decoded, pos) = decode_sfixed32(&buf, 0).unwrap();
    assert_eq!(decoded, -2);
    assert_eq!(pos, 4);
}

#[test]
fn sfixed_roundtrip_at_extremes() {
    for &val in &[0i64, 1, -1, i64::MAX, i64::MIN] {
        let mut buf = Vec::new();
        encode_sfixed64(&mut buf, val);
        let (decoded, _) = decode_sfixed64(&buf, 0).unwrap();
        assert_eq!(decoded, val);
    }
    for &val in &[0i32, 1, -1, i32::MAX, i32::MIN] {
        let mut buf = Vec::new();
        encode_sfixed32(&mut buf, val);
        let (decoded, _) = decode_sfixed32(&buf, 0).unwrap();
        assert_eq!(decoded, val);
    }
}

#[test]
fn key_roundtrip_and_cursor_threading() {
    // A tag followed by a second value: the returned cursor carries over.
    let mut buf = Vec::new();
    encode_key(&mut buf, (5 << 3) | 2);
    encode_varint(&mut buf, 999);
    let (tag, pos) = decode_key(&buf, 0).unwrap();
    assert_eq!(tag, (5 << 3) | 2);
    let (val, end) = decode_varint(&buf, pos).unwrap();
    assert_eq!(val, 999);
    assert_eq!(end, buf.len());
}

#[test]
fn skip_field_mid_buffer() {
    // Skipping starts at the given cursor, not at the buffer's start.
    let mut buf = vec![0xAAu8, 0xBB];
    encode_varint(&mut buf, 300);
    assert_eq!(skip_field(&buf, 2, 0).unwrap(), buf.len());
    assert!(matches!(skip_field(&buf, 2, 1), Err(DecodeError::BufferOverflow)));
}
