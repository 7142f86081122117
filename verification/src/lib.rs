//! Wire-format primitives for protobuf-style binary serialization: base-128
//! varints, zigzag-folded signed integers, fixed-width little-endian values,
//! length-delimited blobs and strings, and unknown-field skipping.

pub mod error;
pub mod fixed;
pub mod length_delimited;
pub mod skip;
pub mod varint;
pub mod zigzag;

pub use crate::error::DecodeError;
pub use crate::fixed::{
    decode_fixed32, decode_fixed64, decode_sfixed32, decode_sfixed64, encode_fixed32,
    encode_fixed64, encode_sfixed32, encode_sfixed64,
};
pub use crate::length_delimited::{decode_bytes, decode_string, encode_bytes, encode_string};
pub use crate::skip::skip_field;
pub use crate::varint::{
    decode_bool, decode_key, decode_varint, encode_bool, encode_key, encode_varint,
};
pub use crate::zigzag::{decode_zigzag32, decode_zigzag64, encode_zigzag32, encode_zigzag64};
