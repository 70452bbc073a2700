use bytecode_vm::opcodes::{OpCode, OPCODE_COUNT};

const ALL: [OpCode; 7] = [
    OpCode::OP_RETURN,
    OpCode::OP_CONSTANT,
    OpCode::OP_ADD,
    OpCode::OP_SUBTRACT,
    OpCode::OP_MULTIPLY,
    OpCode::OP_DIVIDE,
    OpCode::OP_NEGATE,
];

#[test]
fn encode_then_decode_gives_the_opcode_back() {
    for op in ALL {
        assert_eq!(OpCode::decode(op.encode()), Some(op));
    }
}

#[test]
fn decode_then_encode_gives_the_byte_back() {
    for byte in 0..=255u8 {
        match OpCode::decode(byte) {
            Some(op) => assert_eq!(op.encode(), byte),
            None => assert!(byte >= OPCODE_COUNT),
        }
    }
}

#[test]
fn the_encoding_is_the_documented_one() {
    assert_eq!(OpCode::OP_RETURN.encode(), 0);
    assert_eq!(OpCode::OP_CONSTANT.encode(), 1);
    assert_eq!(OpCode::OP_ADD.encode(), 2);
    assert_eq!(OpCode::OP_SUBTRACT.encode(), 3);
    assert_eq!(OpCode::OP_MULTIPLY.encode(), 4);
    assert_eq!(OpCode::OP_DIVIDE.encode(), 5);
    assert_eq!(OpCode::OP_NEGATE.encode(), 6);
}

#[test]
fn bytes_past_the_last_opcode_do_not_decode() {
    assert_eq!(OPCODE_COUNT, 7);
    assert_eq!(OpCode::decode(6), Some(OpCode::OP_NEGATE));
    assert_eq!(OpCode::decode(7), None);
    assert_eq!(OpCode::decode(255), None);
}

#[test]
fn into_agrees_with_encode() {
    for op in ALL {
        let byte: u8 = op.into();
        assert_eq!(byte, op.encode());
        assert_eq!(u8::from(op), op.encode());
    }
}

#[test]
fn distinct_opcodes_have_distinct_bytes() {
    for a in ALL {
        for b in ALL {
            assert_eq!(a == b, a.encode() == b.encode());
        }
    }
}

#[test]
fn mnemonics_are_the_variant_names() {
    assert_eq!(OpCode::OP_RETURN.mnemonic(), "OP_RETURN");
    assert_eq!(OpCode::OP_CONSTANT.mnemonic(), "OP_CONSTANT");
    assert_eq!(OpCode::OP_ADD.mnemonic(), "OP_ADD");
    assert_eq!(OpCode::OP_SUBTRACT.mnemonic(), "OP_SUBTRACT");
    assert_eq!(OpCode::OP_MULTIPLY.mnemonic(), "OP_MULTIPLY");
    assert_eq!(OpCode::OP_DIVIDE.mnemonic(), "OP_DIVIDE");
    assert_eq!(OpCode::OP_NEGATE.mnemonic(), "OP_NEGATE");
}
