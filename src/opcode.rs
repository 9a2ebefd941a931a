//! Operation codes of the byte-encoded profile and their one-byte encoding.
use vstd::prelude::*;

verus! {

/// A runtime value of the byte-encoded profile: an unsigned 8-bit integer.
pub type Value = u8;

/// The operations of the byte-encoded instruction set.
#[derive(Debug, Clone, Copy, PartialEq, Eq, Structural)]
pub enum OpCode {
    OpReturn,
    OpConstant,
    OpNegate,
    OpAdd,
    OpSubtract,
    OpMultiply,
    OpDivide,
    OpModulo,
}

/// The byte that encodes `op`.
pub open spec fn encode(op: OpCode) -> u8 {
    match op {
        OpCode::OpReturn => 0,
        OpCode::OpConstant => 1,
        OpCode::OpNegate => 2,
        OpCode::OpAdd => 3,
        OpCode::OpSubtract => 4,
        OpCode::OpMultiply => 5,
        OpCode::OpDivide => 6,
        OpCode::OpModulo => 7,
    }
}

/// The operation that `byte` encodes, if any.
pub open spec fn decode(byte: u8) -> Option<OpCode> {
    match byte {
        0 => Some(OpCode::OpReturn),
        1 => Some(OpCode::OpConstant),
        2 => Some(OpCode::OpNegate),
        3 => Some(OpCode::OpAdd),
        4 => Some(OpCode::OpSubtract),
        5 => Some(OpCode::OpMultiply),
        6 => Some(OpCode::OpDivide),
        7 => Some(OpCode::OpModulo),
        _ => None,
    }
}

/// Number of bytes that the instruction `op` occupies, operands included.
pub open spec fn width(op: OpCode) -> nat {
    match op {
        OpCode::OpConstant => 2,
        _ => 1,
    }
}

impl OpCode {
    /// Encodes the operation as one byte.
    pub fn to_byte(self) -> (b: u8)
        ensures
            b == encode(self),
    {
        match self {
            OpCode::OpReturn => 0,
            OpCode::OpConstant => 1,
            OpCode::OpNegate => 2,
            OpCode::OpAdd => 3,
            OpCode::OpSubtract => 4,
            OpCode::OpMultiply => 5,
            OpCode::OpDivide => 6,
            OpCode::OpModulo => 7,
        }
    }

    /// Decodes one byte; `None` for a byte that encodes no operation.
    pub fn from_byte(byte: u8) -> (r: Option<OpCode>)
        ensures
            r == decode(byte),
            r matches Some(op) ==> encode(op) == byte,
            r is None <==> forall|op: OpCode| encode(op) != byte,
    {
        let r = match byte {
            0 => Some(OpCode::OpReturn),
            1 => Some(OpCode::OpConstant),
            2 => Some(OpCode::OpNegate),
            3 => Some(OpCode::OpAdd),
            4 => Some(OpCode::OpSubtract),
            5 => Some(OpCode::OpMultiply),
            6 => Some(OpCode::OpDivide),
            7 => Some(OpCode::OpModulo),
            _ => None,
        };
        proof {
            lemma_decode_only_encodings(byte);
        }
        r
    }

    /// Encodes the operation as one byte; the same encoding as `to_byte`.
    pub fn to_u8(&self) -> (b: u8)
        ensures
            b == encode(*self),
    {
        self.to_byte()
    }

    /// Decodes one byte; the same decoding as `from_byte`.
    pub fn from_u8(byte: u8) -> (r: Option<OpCode>)
        ensures
            r == decode(byte),
    {
        OpCode::from_byte(byte)
    }
}

/// Decoding the encoding of an operation gives the operation back.
pub proof fn lemma_decode_encode(op: OpCode)
    ensures
        decode(encode(op)) == Some(op),
{
}

/// A byte decodes to an operation exactly when some operation encodes to it,
/// and then to that operation; every byte from 8 up decodes to none.
pub proof fn lemma_decode_only_encodings(byte: u8)
    ensures
        decode(byte) matches Some(op) ==> encode(op) == byte,
        decode(byte) is None <==> forall|op: OpCode| encode(op) != byte,
        byte >= 8 ==> decode(byte) is None,
{
    assert forall|op: OpCode| encode(op) == byte implies decode(byte) == Some(op) by {
    }
    if decode(byte) is None {
        assert forall|op: OpCode| encode(op) != byte by {
            assert(encode(op) < 8);
        }
    } else {
        assert(encode(decode(byte)->Some_0) == byte);
    }
}

} // verus!
