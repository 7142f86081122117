use vstd::prelude::*;

verus! {

/// The closed set of failure kinds raised by the decode operations.
///
/// Every decode function returns its error immediately on first failure;
/// no partial result is ever observable.
#[derive(Debug, Clone)]
pub enum DecodeError {
    /// A decode required more bytes than remain in the input.
    BufferOverflow,
    /// A varint's continuation-byte chain exceeded the 64-bit width.
    InvalidVarint,
    /// Field-skip received a wire type outside {0, 1, 2, 5}; carries the
    /// offending value for diagnostics.
    UnknownWireType(u64),
    /// A decoded value failed a semantic check (invalid UTF-8 in a string).
    InvalidData(&'static str),
}

} // verus!
