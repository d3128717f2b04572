use vstd::prelude::*;

verus! {

/// A runtime datum. Only numbers exist so far; the type is a sum type so that
/// further kinds of value can be added without breaking existing matches.
///
/// A number is held as the bit pattern of its IEEE-754 binary64 encoding, so
/// that values are copied and compared bit for bit; the host converts to and
/// from its floating-point type.
#[derive(Clone, Copy, Debug, PartialEq, Eq, Structural)]
pub enum Value {
    Number(u64),
}

impl Value {
    /// The value whose binary64 encoding is `bits`.
    pub fn from_bits(bits: u64) -> (r: Value)
        ensures
            r == Value::Number(bits),
    {
        Value::Number(bits)
    }

    /// The binary64 encoding of a number.
    pub fn to_bits(&self) -> (r: u64)
        ensures
            *self == Value::Number(r),
    {
        match self {
            Value::Number(bits) => *bits,
        }
    }
}

} // verus!
