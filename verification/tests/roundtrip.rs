use protowire::{
    decode_bool, decode_bytes, decode_fixed32, decode_fixed64, decode_string, decode_varint,
    decode_zigzag32, decode_zigzag64, encode_bool, encode_bytes, encode_fixed32, encode_fixed64,
    encode_string, encode_varint, encode_zigzag32, encode_zigzag64, skip_field,
};

#[test]
fn test_varint_roundtrip() {
    for &val in &[0u64, 1, 127, 128, 255, 300, 16384, u64::MAX] {
        let mut buf = Vec::new();
        encode_varint(&mut buf, val);
        let (decoded, pos) = decode_varint(&buf, 0).unwrap();
        assert_eq!(decoded, val);
        assert_eq!(pos, buf.len());
    }
}

#[test]
fn test_bool_roundtrip() {
    for &val in &[true, false] {
        let mut buf = Vec::new();
        encode_bool(&mut buf, val);
        let (decoded, _) = decode_bool(&buf, 0).unwrap();
        assert_eq!(decoded, val);
    }
}

#[test]
fn test_zigzag32_roundtrip() {
    for &val in &[0i32, 1, -1, 2, -2, i32::MAX, i32::MIN] {
        let mut buf = Vec::new();
        encode_zigzag32(&mut buf, val);
        let (decoded, _) = decode_zigzag32(&buf, 0).unwrap();
        assert_eq!(decoded, val);
    }
}

#[test]
fn test_zigzag64_roundtrip() {
    for &val in &[0i64, 1, -1, 2, -2, i64::MAX, i64::MIN] {
        let mut buf = Vec::new();
        encode_zigzag64(&mut buf, val);
        let (decoded, _) = decode_zigzag64(&buf, 0).unwrap();
        assert_eq!(decoded, val);
    }
}

#[test]
fn test_fixed64_roundtrip() {
    for &val in &[0u64, 1, 0xDEAD_BEEF, u64::MAX] {
        let mut buf = Vec::new();
        encode_fixed64(&mut buf, val);
        let (decoded, _) = decode_fixed64(&buf, 0).unwrap();
        assert_eq!(decoded, val);
    }
}

#[test]
fn test_fixed32_roundtrip() {
    for &val in &[0u32, 1, 0xDEAD, u32::MAX] {
        let mut buf = Vec::new();
        encode_fixed32(&mut buf, val);
        let (decoded, _) = decode_fixed32(&buf, 0).unwrap();
        assert_eq!(decoded, val);
    }
}

#[test]
fn test_string_roundtrip() {
    for val in &["", "hello", "hello world 🌍"] {
        let mut buf = Vec::new();
        encode_string(&mut buf, val);
        let (decoded, _) = decode_string(&buf, 0).unwrap();
        assert_eq!(&decoded, val);
    }
}

#[test]
fn test_bytes_roundtrip() {
    for val in &[vec![], vec![1u8, 2, 3], vec![0xFF; 300]] {
        let mut buf = Vec::new();
        encode_bytes(&mut buf, val);
        let (decoded, _) = decode_bytes(&buf, 0).unwrap();
        assert_eq!(&decoded, val);
    }
}

#[test]
fn test_skip_field() {
    // Varint
    let mut buf = Vec::new();
    encode_varint(&mut buf, 300);
    let new_pos = skip_field(&buf, 0, 0).unwrap();
    assert_eq!(new_pos, buf.len());

    // Fixed64
    let mut buf = Vec::new();
    encode_fixed64(&mut buf, 42);
    let new_pos = skip_field(&buf, 0, 1).unwrap();
    assert_eq!(new_pos, 8);

    // Length-delimited
    let mut buf = Vec::new();
    encode_string(&mut buf, "hello");
    let new_pos = skip_field(&buf, 0, 2).unwrap();
    assert_eq!(new_pos, buf.len());

    // Fixed32
    let mut buf = Vec::new();
    encode_fixed32(&mut buf, 42);
    let new_pos = skip_field(&buf, 0, 5).unwrap();
    assert_eq!(new_pos, 4);
}
