use vstd::prelude::*;

verus! {

/// The closed instruction set. Each instruction is one opcode byte, followed
/// by its operand bytes: one for `Constant` (an index into the constant pool),
/// none for the others.
#[derive(Clone, Copy, Debug, PartialEq, Eq, Structural)]
pub enum OpCode {
    Constant,
    Negate,
    Add,
    Subtract,
    Multiply,
    Divide,
    Return,
}

/// The byte that encodes an opcode.
pub open spec fn encode(op: OpCode) -> u8 {
    match op {
        OpCode::Constant => 0,
        OpCode::Negate => 1,
        OpCode::Add => 2,
        OpCode::Subtract => 3,
        OpCode::Multiply => 4,
        OpCode::Divide => 5,
        OpCode::Return => 6,
    }
}

/// The opcode that a byte encodes, if any.
pub open spec fn decode(b: u8) -> Option<OpCode> {
    if b == 0 {
        Some(OpCode::Constant)
    } else if b == 1 {
        Some(OpCode::Negate)
    } else if b == 2 {
        Some(OpCode::Add)
    } else if b == 3 {
        Some(OpCode::Subtract)
    } else if b == 4 {
        Some(OpCode::Multiply)
    } else if b == 5 {
        Some(OpCode::Divide)
    } else if b == 6 {
        Some(OpCode::Return)
    } else {
        None
    }
}

/// Number of bytes an instruction occupies, opcode byte included.
pub open spec fn width(op: OpCode) -> nat {
    match op {
        OpCode::Constant => 2,
        _ => 1,
    }
}

/// Decoding undoes encoding, and every byte that decodes is an encoding.
pub proof fn lemma_decode_encode(op: OpCode, b: u8)
    ensures
        decode(encode(op)) == Some(op),
        decode(b) matches Some(o) ==> encode(o) == b,
{
}

impl OpCode {
    /// Checked conversion from a byte: `None` for a byte that encodes no opcode.
    pub fn from_byte(b: u8) -> (r: Option<OpCode>)
        ensures
            r == decode(b),
    {
        match b {
            0 => Some(OpCode::Constant),
            1 => Some(OpCode::Negate),
            2 => Some(OpCode::Add),
            3 => Some(OpCode::Subtract),
            4 => Some(OpCode::Multiply),
            5 => Some(OpCode::Divide),
            6 => Some(OpCode::Return),
            _ => None,
        }
    }

    /// The byte that encodes this opcode.
    pub fn to_byte(self) -> (r: u8)
        ensures
            r == encode(self),
    {
        match self {
            OpCode::Constant => 0,
            OpCode::Negate => 1,
            OpCode::Add => 2,
            OpCode::Subtract => 3,
            OpCode::Multiply => 4,
            OpCode::Divide => 5,
            OpCode::Return => 6,
        }
    }

    /// Number of bytes the instruction occupies, opcode byte included.
    pub fn width(self) -> (r: usize)
        ensures
            r == width(self),
    {
        match self {
            OpCode::Constant => 2,
            _ => 1,
        }
    }
}

impl From<OpCode> for u8 {
    fn from(op: OpCode) -> (r: u8) {
        op.to_byte()
    }
}

impl vstd::std_specs::convert::FromSpecImpl<OpCode> for u8 {
    open spec fn obeys_from_spec() -> bool {
        true
    }

    open spec fn from_spec(op: OpCode) -> u8 {
        encode(op)
    }
}

} // verus!
