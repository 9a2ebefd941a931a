use bytecode_vm::error::{RuntimeError, RuntimeErrorKind};
use bytecode_vm::machine::{is_falsey, Chunk, InterpretResult, OpCode, Value, VirtualMachine};

fn make_vm_with_ops(ops: Vec<OpCode>) -> VirtualMachine {
    let mut chunk = Chunk::new();
    for op in ops {
        chunk.write(op, 1);
    }
    VirtualMachine::new(chunk)
}

fn number(n: u8) -> OpCode {
    OpCode::OpConstant(Value::ValNumber(n))
}

fn ok(v: Value) -> InterpretResult {
    InterpretResult::InterpretOk(Some(v))
}

#[test]
fn virtual_machine_test_addition() {
    let ops = vec![number(3), number(4), OpCode::OpAdd, OpCode::OpReturn];
    let mut vm = make_vm_with_ops(ops);
    assert_eq!(vm.run(), ok(Value::ValNumber(7)));
}

#[test]
fn virtual_machine_test_subtraction() {
    let ops = vec![number(10), number(3), OpCode::OpSubtract, OpCode::OpReturn];
    let mut vm = make_vm_with_ops(ops);
    assert_eq!(vm.run(), ok(Value::ValNumber(7)));
}

#[test]
fn virtual_machine_test_multiplication() {
    let ops = vec![number(6), number(7), OpCode::OpMultiply, OpCode::OpReturn];
    let mut vm = make_vm_with_ops(ops);
    assert_eq!(vm.run(), ok(Value::ValNumber(42)));
}

#[test]
fn virtual_machine_test_division() {
    let ops = vec![number(8), number(2), OpCode::OpDivide, OpCode::OpReturn];
    let mut vm = make_vm_with_ops(ops);
    assert_eq!(vm.run(), ok(Value::ValNumber(4)));
}

#[test]
fn test_negation() {
    let ops = vec![number(3), OpCode::OpNegate, OpCode::OpReturn];
    let mut vm = make_vm_with_ops(ops);
    // -3 in the two's-complement encoding of an 8-bit number
    assert_eq!(vm.run(), ok(Value::ValNumber((-3i8) as u8)));
}

#[test]
fn test_not_operator() {
    let ops = vec![OpCode::OpFalse, OpCode::OpNot, OpCode::OpReturn];
    let mut vm = make_vm_with_ops(ops);
    assert_eq!(vm.run(), ok(Value::ValBool(true)));
}

#[test]
fn test_comparisons() {
    let ops = vec![number(5), number(3), OpCode::OpGreater, OpCode::OpReturn];
    let mut vm = make_vm_with_ops(ops);
    assert_eq!(vm.run(), ok(Value::ValBool(true)));
}

#[test]
fn test_nil_and_boolean_push() {
    let ops = vec![OpCode::OpNil, OpCode::OpTrue, OpCode::OpFalse, OpCode::OpReturn];
    let mut vm = make_vm_with_ops(ops);
    assert_eq!(vm.run(), ok(Value::ValBool(false)));
    assert_eq!(vm.stack, vec![Value::ValNil, Value::ValBool(true), Value::ValBool(false)]);
}

#[test]
fn arithmetic_scenarios() {
    let cases = [
        (10, 2, OpCode::OpAdd, 12),
        (10, 2, OpCode::OpSubtract, 8),
        (6, 7, OpCode::OpMultiply, 42),
        (8, 2, OpCode::OpDivide, 4),
        (17, 5, OpCode::OpModulo, 2),
        (250, 10, OpCode::OpAdd, 4),
        (16, 16, OpCode::OpMultiply, 0),
    ];
    for (a, b, op, expected) in cases {
        let mut vm = make_vm_with_ops(vec![number(a), number(b), op, OpCode::OpReturn]);
        assert_eq!(vm.run(), ok(Value::ValNumber(expected)));
    }
}

#[test]
fn comparison_results() {
    let cases = [
        (3, 3, OpCode::OpEqual, true),
        (3, 4, OpCode::OpEqual, false),
        (3, 4, OpCode::OpLess, true),
        (4, 3, OpCode::OpLess, false),
        (3, 4, OpCode::OpGreater, false),
    ];
    for (a, b, op, expected) in cases {
        let mut vm = make_vm_with_ops(vec![number(a), number(b), op, OpCode::OpReturn]);
        assert_eq!(vm.run(), ok(Value::ValBool(expected)));
    }
}

#[test]
fn division_and_modulo_by_zero_fail() {
    let error = RuntimeError { kind: RuntimeErrorKind::DivisionByZero, line: 1 };
    for op in [OpCode::OpDivide, OpCode::OpModulo] {
        let mut vm = make_vm_with_ops(vec![number(5), number(0), op, OpCode::OpReturn]);
        assert_eq!(vm.run(), InterpretResult::InterpretRuntimeError(error));
    }
}

#[test]
fn stack_underflow_fails_without_popping() {
    let mut vm = make_vm_with_ops(vec![OpCode::OpAdd, OpCode::OpReturn]);
    let error = RuntimeError { kind: RuntimeErrorKind::StackUnderflow, line: 1 };
    assert_eq!(vm.run(), InterpretResult::InterpretRuntimeError(error));
    assert!(vm.stack.is_empty());

    let mut vm = make_vm_with_ops(vec![number(1), OpCode::OpSubtract, OpCode::OpReturn]);
    assert_eq!(vm.run(), InterpretResult::InterpretRuntimeError(error));
    assert_eq!(vm.stack, vec![Value::ValNumber(1)]);

    for op in [OpCode::OpNot, OpCode::OpNegate] {
        let mut vm = make_vm_with_ops(vec![op, OpCode::OpReturn]);
        assert_eq!(vm.run(), InterpretResult::InterpretRuntimeError(error));
    }
}

#[test]
fn type_mismatch_fails() {
    let error = RuntimeError { kind: RuntimeErrorKind::TypeMismatch, line: 1 };
    let mut vm = make_vm_with_ops(vec![OpCode::OpTrue, OpCode::OpNegate, OpCode::OpReturn]);
    assert_eq!(vm.run(), InterpretResult::InterpretRuntimeError(error));
    let mut vm = make_vm_with_ops(vec![number(1), OpCode::OpNil, OpCode::OpAdd, OpCode::OpReturn]);
    assert_eq!(vm.run(), InterpretResult::InterpretRuntimeError(error));
    let mut vm = make_vm_with_ops(vec![OpCode::OpTrue, OpCode::OpTrue, OpCode::OpEqual, OpCode::OpReturn]);
    assert_eq!(vm.run(), InterpretResult::InterpretRuntimeError(error));
}

#[test]
fn truthiness_table() {
    assert!(is_falsey(Value::ValNil));
    assert!(is_falsey(Value::ValBool(false)));
    assert!(!is_falsey(Value::ValBool(true)));
    assert!(!is_falsey(Value::ValNumber(0)));
    assert!(!is_falsey(Value::ValNumber(5)));

    let cases = [
        (OpCode::OpNil, true),
        (OpCode::OpFalse, true),
        (OpCode::OpTrue, false),
        (number(0), false),
    ];
    for (push, expected) in cases {
        let mut vm = make_vm_with_ops(vec![push, OpCode::OpNot, OpCode::OpReturn]);
        assert_eq!(vm.run(), ok(Value::ValBool(expected)));
    }
}

#[test]
fn return_reports_top_without_popping() {
    let mut vm = make_vm_with_ops(vec![number(9), OpCode::OpReturn, OpCode::OpNil]);
    assert_eq!(vm.run(), ok(Value::ValNumber(9)));
    assert_eq!(vm.stack, vec![Value::ValNumber(9)]);
    assert_eq!(vm.ip, 2);

    let mut vm = make_vm_with_ops(vec![OpCode::OpReturn]);
    assert_eq!(vm.run(), InterpretResult::InterpretOk(None));
}

#[test]
fn running_off_the_end_fails_with_last_line() {
    let mut chunk = Chunk::new();
    chunk.write(number(1), 3);
    chunk.write(number(2), 4);
    let mut vm = VirtualMachine::new(chunk);
    let error = RuntimeError { kind: RuntimeErrorKind::NoReturn, line: 4 };
    assert_eq!(vm.run(), InterpretResult::InterpretRuntimeError(error));
}

#[test]
fn errors_carry_the_failing_instruction_line() {
    let mut chunk = Chunk::new();
    chunk.write(number(5), 10);
    chunk.write(number(0), 11);
    chunk.write(OpCode::OpDivide, 12);
    chunk.write(OpCode::OpReturn, 13);
    let mut vm = VirtualMachine::new(chunk);
    let error = RuntimeError { kind: RuntimeErrorKind::DivisionByZero, line: 12 };
    assert_eq!(vm.run(), InterpretResult::InterpretRuntimeError(error));
}

#[test]
fn writing_instructions_keeps_lengths_equal() {
    let mut chunk = Chunk::new();
    let ops = [number(1), OpCode::OpNil, OpCode::OpAdd, OpCode::OpNot, OpCode::OpReturn];
    for (i, op) in ops.iter().enumerate() {
        chunk.write(*op, i + 1);
        assert_eq!(chunk.code.len(), i + 1);
        assert_eq!(chunk.lines.len(), i + 1);
    }
    assert_eq!(chunk.lines, vec![1, 2, 3, 4, 5]);
}

#[test]
fn stepping_matches_batch_run() {
    let programs = vec![
        vec![number(3), number(4), OpCode::OpAdd, OpCode::OpReturn],
        vec![number(5), number(0), OpCode::OpDivide, OpCode::OpReturn],
        vec![OpCode::OpTrue, OpCode::OpNot, OpCode::OpNil],
        vec![OpCode::OpAdd],
    ];
    for ops in programs {
        let mut batch = make_vm_with_ops(ops.clone());
        let batch_result = batch.run();

        let mut stepped = make_vm_with_ops(ops);
        let mut calls = 0;
        let step_result = loop {
            calls += 1;
            if let Some(result) = stepped.step_once() {
                break result;
            }
        };
        assert_eq!(step_result, batch_result);
        assert_eq!(stepped.ip, batch.ip);
        assert_eq!(stepped.stack, batch.stack);
        assert!(calls <= stepped.chunk.code.len() + 1);
    }
}

#[test]
fn step_once_executes_one_instruction() {
    let mut vm = make_vm_with_ops(vec![number(2), OpCode::OpNegate, OpCode::OpReturn]);
    assert_eq!(vm.step_once(), None);
    assert_eq!((vm.ip, vm.stack.clone()), (1, vec![Value::ValNumber(2)]));
    assert_eq!(vm.step_once(), None);
    assert_eq!((vm.ip, vm.stack.clone()), (2, vec![Value::ValNumber(254)]));
    assert_eq!(vm.step_once(), Some(ok(Value::ValNumber(254))));
    assert_eq!(vm.ip, 3);
}

#[test]
fn interpret_resets_state() {
    let mut vm = make_vm_with_ops(vec![number(1), OpCode::OpReturn]);
    assert_eq!(vm.run(), ok(Value::ValNumber(1)));
    let mut chunk = Chunk::new();
    chunk.write(OpCode::OpReturn, 1);
    assert_eq!(vm.interpret(chunk), InterpretResult::InterpretOk(None));
    assert!(vm.stack.is_empty());
    assert_eq!(vm.ip, 1);
}
