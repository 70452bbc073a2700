//! The instruction set: a closed enumeration of opcodes and its one-byte
//! encoding.

use vstd::prelude::*;
use vstd::std_specs::convert::FromSpecImpl;

verus! {

/// One instruction of the machine.
#[derive(Debug, PartialEq, Eq, Copy, Clone, Structural)]
#[allow(non_camel_case_types)]
pub enum OpCode {
    /// Pops the top of the stack and halts with it as the result.
    OP_RETURN,
    /// Followed by one operand byte, an index into the constant pool; pushes
    /// that constant.
    OP_CONSTANT,
    /// Pops the right operand, then the left, and pushes their sum.
    OP_ADD,
    /// Pops the right operand, then the left, and pushes their difference.
    OP_SUBTRACT,
    /// Pops the right operand, then the left, and pushes their product.
    OP_MULTIPLY,
    /// Pops the right operand, then the left, and pushes their quotient.
    OP_DIVIDE,
    /// Pops one operand and pushes its negation.
    OP_NEGATE,
}

/// The number of opcodes; the valid encodings are the bytes below it.
pub const OPCODE_COUNT: u8 = 7;

impl OpCode {
    /// The byte that encodes this opcode.
    pub open spec fn encoding(self) -> u8 {
        match self {
            OpCode::OP_RETURN => 0,
            OpCode::OP_CONSTANT => 1,
            OpCode::OP_ADD => 2,
            OpCode::OP_SUBTRACT => 3,
            OpCode::OP_MULTIPLY => 4,
            OpCode::OP_DIVIDE => 5,
            OpCode::OP_NEGATE => 6,
        }
    }

    /// The opcode that a byte encodes, if any: the inverse of `encoding`.
    pub open spec fn decoding(byte: u8) -> Option<OpCode> {
        if exists|op: OpCode| op.encoding() == byte {
            Some(choose|op: OpCode| op.encoding() == byte)
        } else {
            None
        }
    }

    /// Whether this is one of the four binary arithmetic opcodes.
    pub open spec fn is_arithmetic(self) -> bool {
        self == OpCode::OP_ADD || self == OpCode::OP_SUBTRACT || self == OpCode::OP_MULTIPLY
            || self == OpCode::OP_DIVIDE
    }

    /// The name under which the opcode appears in a listing.
    pub open spec fn mnemonic_text(self) -> Seq<char> {
        match self {
            OpCode::OP_RETURN => "OP_RETURN"@,
            OpCode::OP_CONSTANT => "OP_CONSTANT"@,
            OpCode::OP_ADD => "OP_ADD"@,
            OpCode::OP_SUBTRACT => "OP_SUBTRACT"@,
            OpCode::OP_MULTIPLY => "OP_MULTIPLY"@,
            OpCode::OP_DIVIDE => "OP_DIVIDE"@,
            OpCode::OP_NEGATE => "OP_NEGATE"@,
        }
    }

    /// Encodes the opcode as its byte.
    pub fn encode(self) -> (byte: u8)
        ensures
            byte == self.encoding(),
            byte < OPCODE_COUNT,
    {
        match self {
            OpCode::OP_RETURN => 0,
            OpCode::OP_CONSTANT => 1,
            OpCode::OP_ADD => 2,
            OpCode::OP_SUBTRACT => 3,
            OpCode::OP_MULTIPLY => 4,
            OpCode::OP_DIVIDE => 5,
            OpCode::OP_NEGATE => 6,
        }
    }

    /// Decodes a byte. Every byte below `OPCODE_COUNT` is the encoding of
    /// exactly one opcode; any other byte decodes to `None`.
    pub fn decode(byte: u8) -> (decoded: Option<OpCode>)
        ensures
            decoded == Self::decoding(byte),
            decoded is Some <==> byte < OPCODE_COUNT,
            decoded matches Some(op) ==> op.encoding() == byte,
    {
        let decoded = match byte {
            0 => Some(OpCode::OP_RETURN),
            1 => Some(OpCode::OP_CONSTANT),
            2 => Some(OpCode::OP_ADD),
            3 => Some(OpCode::OP_SUBTRACT),
            4 => Some(OpCode::OP_MULTIPLY),
            5 => Some(OpCode::OP_DIVIDE),
            6 => Some(OpCode::OP_NEGATE),
            _ => None,
        };
        proof {
            lemma_decoding_inverts_encoding(byte);
            if let Some(op) = decoded {
                lemma_decode_encode(op);
            }
        }
        decoded
    }

    /// The opcode's name as it appears in a listing.
    pub fn mnemonic(self) -> (name: &'static str)
        ensures
            name@ == self.mnemonic_text(),
    {
        match self {
            OpCode::OP_RETURN => "OP_RETURN",
            OpCode::OP_CONSTANT => "OP_CONSTANT",
            OpCode::OP_ADD => "OP_ADD",
            OpCode::OP_SUBTRACT => "OP_SUBTRACT",
            OpCode::OP_MULTIPLY => "OP_MULTIPLY",
            OpCode::OP_DIVIDE => "OP_DIVIDE",
            OpCode::OP_NEGATE => "OP_NEGATE",
        }
    }
}

impl From<OpCode> for u8 {
    fn from(op: OpCode) -> (byte: u8) {
        op.encode()
    }
}

impl FromSpecImpl<OpCode> for u8 {
    open spec fn obeys_from_spec() -> bool {
        true
    }

    open spec fn from_spec(op: OpCode) -> u8 {
        op.encoding()
    }
}

/// Decoding the encoding of an opcode gives that opcode back.
pub proof fn lemma_decode_encode(op: OpCode)
    ensures
        OpCode::decoding(op.encoding()) == Some(op),
        op.encoding() < OPCODE_COUNT,
{
    let byte = op.encoding();
    let found = choose|other: OpCode| other.encoding() == byte;
    assert(found.encoding() == byte);
    lemma_encoding_injective(found, op);
}

/// Two opcodes with the same encoding are the same opcode.
pub proof fn lemma_encoding_injective(a: OpCode, b: OpCode)
    requires
        a.encoding() == b.encoding(),
    ensures
        a == b,
{
}

/// A byte decodes to an opcode exactly when it is below `OPCODE_COUNT`, and
/// the opcode it decodes to encodes as that byte.
pub proof fn lemma_decoding_inverts_encoding(byte: u8)
    ensures
        OpCode::decoding(byte) is Some <==> byte < OPCODE_COUNT,
        OpCode::decoding(byte) matches Some(op) ==> op.encoding() == byte,
{
    if byte < OPCODE_COUNT {
        let witness = if byte == 0 {
            OpCode::OP_RETURN
        } else if byte == 1 {
            OpCode::OP_CONSTANT
        } else if byte == 2 {
            OpCode::OP_ADD
        } else if byte == 3 {
            OpCode::OP_SUBTRACT
        } else if byte == 4 {
            OpCode::OP_MULTIPLY
        } else if byte == 5 {
            OpCode::OP_DIVIDE
        } else {
            OpCode::OP_NEGATE
        };
        assert(witness.encoding() == byte);
    } else {
        assert forall|op: OpCode| op.encoding() != byte by {
            assert(op.encoding() < OPCODE_COUNT);
        }
    }
}

} // verus!
