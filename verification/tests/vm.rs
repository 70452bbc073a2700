use bytecode_vm::chunk::Chunk;
use bytecode_vm::machine::{Fault, FaultKind};
use bytecode_vm::opcodes::OpCode;
use bytecode_vm::value::Value;
use bytecode_vm::vm::{InterpretResult, VirtualMachine};

fn alu(op: OpCode, left: u64, right: u64) -> u64 {
    let (a, b) = (f64::from_bits(left), f64::from_bits(right));
    let outcome = match op {
        OpCode::OP_ADD => a + b,
        OpCode::OP_SUBTRACT => a - b,
        OpCode::OP_MULTIPLY => a * b,
        OpCode::OP_DIVIDE => a / b,
        _ => unreachable!(),
    };
    outcome.to_bits()
}

fn number_text(bits: u64) -> String {
    format!("{}", f64::from_bits(bits))
}

fn number(x: f64) -> Value {
    Value::Number(x.to_bits())
}

fn constant(chunk: &mut Chunk, value: Value, line: u8) {
    let index = chunk.add_constant(value);
    chunk.write(OpCode::OP_CONSTANT.into(), line);
    chunk.write(index as u8, line);
}

fn run(chunk: Chunk) -> InterpretResult {
    let mut vm = VirtualMachine::new(Chunk::new(), false);
    vm.interpret(chunk, &alu)
}

fn fault(
    kind: FaultKind,
    opcode: Option<OpCode>,
    offset: usize,
    line: Option<u8>,
) -> InterpretResult {
    InterpretResult::RuntimeError(Fault { kind, opcode, offset, line })
}

#[test]
fn smoke_test_vm() -> Result<(), Box<dyn std::error::Error>> {
    let chunk = Chunk::new();
    let _vm = VirtualMachine::new(chunk, false);
    Ok(())
}

#[test]
fn test_op_return() {
    let mut chunk = Chunk::new();
    let index = chunk.add_constant(Value::Number(1.2f64.to_bits()));
    chunk.write(OpCode::OP_CONSTANT.into(), 123);
    chunk.write(index as u8, 123);
    chunk.write(OpCode::OP_RETURN.into(), 123);

    let mut vm = VirtualMachine::new(chunk, true);
    let res = vm.run(&alu);
    assert_eq!(res, InterpretResult::Success(Value::Number(1.2f64.to_bits())))
}

#[test]
fn test_op_add() {
    let mut chunk = Chunk::new();
    let mut index = chunk.add_constant(Value::Number(3.4f64.to_bits()));
    chunk.write(OpCode::OP_CONSTANT.into(), 123);
    chunk.write(index as u8, 123);

    chunk.write(OpCode::OP_ADD.into(), 123);

    index = chunk.add_constant(Value::Number(5.6f64.to_bits()));
    chunk.write(OpCode::OP_CONSTANT.into(), 123);
    chunk.write(index as u8, 123);

    chunk.write(OpCode::OP_DIVIDE.into(), 123);
    chunk.write(OpCode::OP_NEGATE.into(), 123);

    chunk.write(OpCode::OP_RETURN.into(), 123);

    let mut vm = VirtualMachine::new(chunk, true);
    println!("{:?}", vm);
    // The first instruction pushes the one constant and the run goes on.
    assert_eq!(vm.step(&alu), None);
    assert_eq!(vm.stack(), &vec![Value::Number(3.4f64.to_bits())]);
    // The addition then finds one operand where it needs two.
    let res = vm.run(&alu);
    assert_eq!(
        res,
        fault(FaultKind::StackUnderflow, Some(OpCode::OP_ADD), 2, Some(123))
    )
}

#[test]
fn constant_then_return_gives_the_constant() {
    let mut chunk = Chunk::new();
    constant(&mut chunk, number(1.2), 1);
    chunk.write(OpCode::OP_RETURN.into(), 1);
    assert_eq!(run(chunk), InterpretResult::Success(number(1.2)));
}

#[test]
fn add_gives_the_sum() {
    let mut chunk = Chunk::new();
    constant(&mut chunk, number(3.4), 1);
    constant(&mut chunk, number(5.6), 1);
    chunk.write(OpCode::OP_ADD.into(), 1);
    chunk.write(OpCode::OP_RETURN.into(), 1);
    assert_eq!(run(chunk), InterpretResult::Success(number(9.0)));
}

#[test]
fn add_divide_negate() {
    let mut chunk = Chunk::new();
    constant(&mut chunk, number(3.4), 1);
    constant(&mut chunk, number(5.6), 1);
    chunk.write(OpCode::OP_ADD.into(), 1);
    constant(&mut chunk, number(2.0), 2);
    chunk.write(OpCode::OP_DIVIDE.into(), 2);
    chunk.write(OpCode::OP_NEGATE.into(), 2);
    chunk.write(OpCode::OP_RETURN.into(), 3);
    assert_eq!(run(chunk), InterpretResult::Success(number(-4.5)));
}

#[test]
fn return_alone_underflows() {
    let mut chunk = Chunk::new();
    chunk.write(OpCode::OP_RETURN.into(), 7);
    assert_eq!(
        run(chunk),
        fault(FaultKind::StackUnderflow, Some(OpCode::OP_RETURN), 0, Some(7))
    );
}

#[test]
fn a_constant_index_past_the_pool_is_a_decode_error() {
    let mut chunk = Chunk::new();
    chunk.add_constant(number(1.0));
    chunk.write(OpCode::OP_CONSTANT.into(), 4);
    chunk.write(255, 4);
    let mut vm = VirtualMachine::new(Chunk::new(), false);
    assert_eq!(
        vm.interpret(chunk, &alu),
        fault(FaultKind::DecodeError, Some(OpCode::OP_CONSTANT), 0, Some(4))
    );
    assert!(vm.stack().is_empty());
}

#[test]
fn negating_text_is_a_type_error() {
    let mut chunk = Chunk::new();
    constant(&mut chunk, Value::String_("x".to_string()), 1);
    chunk.write(OpCode::OP_NEGATE.into(), 2);
    chunk.write(OpCode::OP_RETURN.into(), 3);
    let mut vm = VirtualMachine::new(Chunk::new(), false);
    assert_eq!(
        vm.interpret(chunk, &alu),
        fault(FaultKind::TypeError, Some(OpCode::OP_NEGATE), 2, Some(2))
    );
    assert!(vm.stack().is_empty());
    assert_eq!(vm.ip(), 3);
}

#[test]
fn the_first_pushed_operand_is_the_left_one() {
    let mut chunk = Chunk::new();
    constant(&mut chunk, number(10.0), 1);
    constant(&mut chunk, number(4.0), 1);
    chunk.write(OpCode::OP_SUBTRACT.into(), 1);
    chunk.write(OpCode::OP_RETURN.into(), 1);
    assert_eq!(run(chunk), InterpretResult::Success(number(6.0)));

    let mut chunk = Chunk::new();
    constant(&mut chunk, number(10.0), 1);
    constant(&mut chunk, number(4.0), 1);
    chunk.write(OpCode::OP_DIVIDE.into(), 1);
    chunk.write(OpCode::OP_RETURN.into(), 1);
    assert_eq!(run(chunk), InterpretResult::Success(number(2.5)));
}

#[test]
fn the_arithmetic_is_asked_with_the_opcode_and_both_operands() {
    let tell = |op: OpCode, left: u64, right: u64| -> u64 {
        op.encode() as u64 * 10000 + left * 100 + right
    };
    for (op, expected) in [
        (OpCode::OP_ADD, 20712u64),
        (OpCode::OP_SUBTRACT, 30712),
        (OpCode::OP_MULTIPLY, 40712),
        (OpCode::OP_DIVIDE, 50712),
    ] {
        let mut chunk = Chunk::new();
        constant(&mut chunk, Value::Number(7), 1);
        constant(&mut chunk, Value::Number(12), 1);
        chunk.write(op.into(), 1);
        chunk.write(OpCode::OP_RETURN.into(), 1);
        let mut vm = VirtualMachine::new(Chunk::new(), false);
        let res = vm.interpret(chunk, &tell);
        match res {
            InterpretResult::Success(v) => assert_eq!(v.number_bits(), Some(expected)),
            other => panic!("{:?}", other),
        }
    }
}

#[test]
fn multiply_gives_the_product() {
    let mut chunk = Chunk::new();
    constant(&mut chunk, number(1.5), 1);
    constant(&mut chunk, number(-4.0), 1);
    chunk.write(OpCode::OP_MULTIPLY.into(), 1);
    chunk.write(OpCode::OP_RETURN.into(), 1);
    assert_eq!(run(chunk), InterpretResult::Success(number(-6.0)));
}

#[test]
fn division_by_zero_is_no_fault() {
    let mut chunk = Chunk::new();
    constant(&mut chunk, number(1.0), 1);
    constant(&mut chunk, number(0.0), 1);
    chunk.write(OpCode::OP_DIVIDE.into(), 1);
    chunk.write(OpCode::OP_RETURN.into(), 1);
    assert_eq!(run(chunk), InterpretResult::Success(number(f64::INFINITY)));

    let mut chunk = Chunk::new();
    constant(&mut chunk, number(0.0), 1);
    constant(&mut chunk, number(0.0), 1);
    chunk.write(OpCode::OP_DIVIDE.into(), 1);
    chunk.write(OpCode::OP_RETURN.into(), 1);
    match run(chunk) {
        InterpretResult::Success(Value::Number(bits)) => assert!(f64::from_bits(bits).is_nan()),
        other => panic!("{:?}", other),
    }
}

#[test]
fn negate_gives_the_negation() {
    let mut chunk = Chunk::new();
    constant(&mut chunk, number(4.5), 1);
    chunk.write(OpCode::OP_NEGATE.into(), 1);
    chunk.write(OpCode::OP_RETURN.into(), 1);
    assert_eq!(run(chunk), InterpretResult::Success(number(-4.5)));

    let mut chunk = Chunk::new();
    constant(&mut chunk, number(0.0), 1);
    chunk.write(OpCode::OP_NEGATE.into(), 1);
    chunk.write(OpCode::OP_RETURN.into(), 1);
    match run(chunk) {
        InterpretResult::Success(v) => assert_eq!(v.number_bits(), Some((-0.0f64).to_bits())),
        other => panic!("{:?}", other),
    }
}

#[test]
fn return_gives_values_of_every_variant() {
    for v in [Value::Nil, Value::Bool(true), Value::String_("text".to_string())] {
        let mut chunk = Chunk::new();
        constant(&mut chunk, v.clone(), 1);
        chunk.write(OpCode::OP_RETURN.into(), 1);
        assert_eq!(run(chunk), InterpretResult::Success(v));
    }
}

#[test]
fn binary_operations_on_other_values_are_type_errors() {
    for op in [OpCode::OP_ADD, OpCode::OP_SUBTRACT, OpCode::OP_MULTIPLY, OpCode::OP_DIVIDE] {
        for (left, right) in [
            (Value::Nil, number(1.0)),
            (number(1.0), Value::Bool(true)),
            (Value::String_("a".to_string()), Value::String_("b".to_string())),
        ] {
            let mut chunk = Chunk::new();
            constant(&mut chunk, number(8.0), 1);
            constant(&mut chunk, left, 2);
            constant(&mut chunk, right, 3);
            chunk.write(op.into(), 4);
            chunk.write(OpCode::OP_RETURN.into(), 5);
            let mut vm = VirtualMachine::new(Chunk::new(), false);
            assert_eq!(
                vm.interpret(chunk, &alu),
                fault(FaultKind::TypeError, Some(op), 6, Some(4))
            );
            assert_eq!(vm.stack(), &vec![number(8.0)]);
        }
    }
}

#[test]
fn binary_operations_underflow_on_fewer_than_two_operands() {
    for op in [OpCode::OP_ADD, OpCode::OP_SUBTRACT, OpCode::OP_MULTIPLY, OpCode::OP_DIVIDE] {
        let mut chunk = Chunk::new();
        chunk.write(op.into(), 1);
        assert_eq!(
            run(chunk),
            fault(FaultKind::StackUnderflow, Some(op), 0, Some(1))
        );

        let mut chunk = Chunk::new();
        constant(&mut chunk, number(1.0), 1);
        chunk.write(op.into(), 2);
        let mut vm = VirtualMachine::new(Chunk::new(), false);
        assert_eq!(
            vm.interpret(chunk, &alu),
            fault(FaultKind::StackUnderflow, Some(op), 2, Some(2))
        );
        assert!(vm.stack().is_empty());
    }
}

#[test]
fn negate_underflows_on_the_empty_stack() {
    let mut chunk = Chunk::new();
    chunk.write(OpCode::OP_NEGATE.into(), 1);
    assert_eq!(
        run(chunk),
        fault(FaultKind::StackUnderflow, Some(OpCode::OP_NEGATE), 0, Some(1))
    );
}

#[test]
fn an_unknown_byte_is_a_decode_error() {
    let mut chunk = Chunk::new();
    constant(&mut chunk, number(1.0), 1);
    chunk.write(7, 2);
    chunk.write(OpCode::OP_RETURN.into(), 3);
    let mut vm = VirtualMachine::new(Chunk::new(), false);
    assert_eq!(
        vm.interpret(chunk, &alu),
        fault(FaultKind::DecodeError, None, 2, Some(2))
    );
    assert_eq!(vm.stack(), &vec![number(1.0)]);
}

#[test]
fn running_off_the_end_is_a_decode_error() {
    assert_eq!(run(Chunk::new()), fault(FaultKind::DecodeError, None, 0, None));

    let mut chunk = Chunk::new();
    constant(&mut chunk, number(1.0), 1);
    assert_eq!(run(chunk), fault(FaultKind::DecodeError, None, 2, None));
}

#[test]
fn a_constant_without_operand_is_a_decode_error() {
    let mut chunk = Chunk::new();
    chunk.add_constant(number(1.0));
    chunk.write(OpCode::OP_CONSTANT.into(), 9);
    assert_eq!(
        run(chunk),
        fault(FaultKind::DecodeError, Some(OpCode::OP_CONSTANT), 0, Some(9))
    );
}

#[test]
fn the_run_stops_at_the_first_return() {
    let mut chunk = Chunk::new();
    constant(&mut chunk, number(1.0), 1);
    constant(&mut chunk, number(2.0), 1);
    chunk.write(OpCode::OP_RETURN.into(), 1);
    chunk.write(OpCode::OP_RETURN.into(), 1);
    chunk.write(7, 1);
    let mut vm = VirtualMachine::new(Chunk::new(), false);
    assert_eq!(vm.interpret(chunk, &alu), InterpretResult::Success(number(2.0)));
    assert_eq!(vm.ip(), 5);
    assert_eq!(vm.stack(), &vec![number(1.0)]);
}

#[test]
fn every_run_starts_afresh() {
    let mut first = Chunk::new();
    constant(&mut first, number(1.0), 1);
    constant(&mut first, number(2.0), 1);
    chunk_return(&mut first);
    let mut second = Chunk::new();
    chunk_return(&mut second);

    let mut vm = VirtualMachine::new(Chunk::new(), true);
    assert_eq!(vm.interpret(first, &alu), InterpretResult::Success(number(2.0)));
    assert_eq!(vm.stack().len(), 1);
    assert_eq!(
        vm.interpret(second, &alu),
        fault(FaultKind::StackUnderflow, Some(OpCode::OP_RETURN), 0, Some(1))
    );
    assert!(vm.stack().is_empty());
    assert!(vm.trace_log().is_empty());
    assert_eq!(vm.chunk().code(), &vec![0u8]);
    // Running the same chunk again gives the same result.
    assert_eq!(
        vm.run(&alu),
        fault(FaultKind::StackUnderflow, Some(OpCode::OP_RETURN), 0, Some(1))
    );
}

fn chunk_return(chunk: &mut Chunk) {
    chunk.write(OpCode::OP_RETURN.into(), 1);
}

#[test]
fn the_trace_holds_the_stack_before_each_instruction() {
    let mut chunk = Chunk::new();
    constant(&mut chunk, number(3.4), 1);
    constant(&mut chunk, number(5.6), 1);
    chunk.write(OpCode::OP_ADD.into(), 1);
    chunk.write(OpCode::OP_RETURN.into(), 1);

    let mut vm = VirtualMachine::new(Chunk::new(), true);
    assert!(vm.trace());
    assert_eq!(vm.interpret(chunk, &alu), InterpretResult::Success(number(9.0)));
    assert_eq!(
        vm.trace_log(),
        &vec![number(3.4), number(3.4), number(5.6), number(9.0)]
    );
}

#[test]
fn the_trace_text_has_one_line_for_each_value() {
    let mut chunk = Chunk::new();
    constant(&mut chunk, number(3.4), 1);
    constant(&mut chunk, Value::String_("x".to_string()), 1);
    constant(&mut chunk, Value::Nil, 1);
    chunk.write(OpCode::OP_RETURN.into(), 1);

    let mut vm = VirtualMachine::new(Chunk::new(), true);
    let mut out = String::from(">");
    vm.trace_text(&number_text, &mut out);
    assert_eq!(out, ">");
    assert_eq!(vm.interpret(chunk, &alu), InterpretResult::Success(Value::Nil));
    vm.trace_text(&number_text, &mut out);
    assert_eq!(
        out,
        ">[ 3.4 ]\n[ 3.4 ]\n[ x ]\n[ 3.4 ]\n[ x ]\n[ nil ]\n"
    );
}

#[test]
fn tracing_changes_nothing_but_the_log() {
    let build = || {
        let mut chunk = Chunk::new();
        constant(&mut chunk, number(3.4), 1);
        constant(&mut chunk, number(5.6), 1);
        chunk.write(OpCode::OP_MULTIPLY.into(), 1);
        constant(&mut chunk, Value::Nil, 1);
        chunk.write(OpCode::OP_SUBTRACT.into(), 1);
        chunk
    };
    let mut traced = VirtualMachine::new(Chunk::new(), true);
    let mut plain = VirtualMachine::new(Chunk::new(), false);
    assert_eq!(traced.interpret(build(), &alu), plain.interpret(build(), &alu));
    assert_eq!(traced.stack(), plain.stack());
    assert_eq!(traced.ip(), plain.ip());
    assert!(plain.trace_log().is_empty());
    assert_eq!(traced.trace_log().len(), 0 + 1 + 2 + 1 + 2);
}

#[test]
fn stepping_executes_one_instruction() {
    let mut chunk = Chunk::new();
    constant(&mut chunk, number(1.0), 1);
    chunk.write(OpCode::OP_NEGATE.into(), 1);
    chunk.write(OpCode::OP_RETURN.into(), 1);
    let mut vm = VirtualMachine::new(chunk, false);
    assert_eq!(vm.ip(), 0);
    assert_eq!(vm.step(&alu), None);
    assert_eq!((vm.ip(), vm.stack().clone()), (2, vec![number(1.0)]));
    assert_eq!(vm.step(&alu), None);
    assert_eq!((vm.ip(), vm.stack().clone()), (3, vec![number(-1.0)]));
    assert_eq!(vm.step(&alu), Some(InterpretResult::Success(number(-1.0))));
    assert_eq!((vm.ip(), vm.stack().clone()), (4, vec![]));
    assert_eq!(
        vm.step(&alu),
        Some(fault(FaultKind::DecodeError, None, 4, None))
    );
}
