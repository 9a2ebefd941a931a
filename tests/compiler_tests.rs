use bytecode_vm::compiler::{run_source, Compiler};
use bytecode_vm::error::{RuntimeError, RuntimeErrorKind};
use bytecode_vm::machine::{InterpretResult, OpCode, Value};

#[test]
fn compiles_binary_expression() {
    let chunk = Compiler::new().compile("6 * 7").unwrap();
    assert_eq!(
        chunk.code,
        vec![
            OpCode::OpConstant(Value::ValNumber(6)),
            OpCode::OpConstant(Value::ValNumber(7)),
            OpCode::OpMultiply,
            OpCode::OpReturn,
        ]
    );
    assert_eq!(chunk.lines, vec![1, 1, 1, 1]);
}

#[test]
fn compiles_empty_and_single_number() {
    let chunk = Compiler::new().compile("  ").unwrap();
    assert_eq!(chunk.code, vec![OpCode::OpReturn]);
    let chunk = Compiler::new().compile("42\n").unwrap();
    assert_eq!(chunk.code, vec![OpCode::OpConstant(Value::ValNumber(42)), OpCode::OpReturn]);
    assert_eq!(chunk.lines, vec![1, 2]);
}

#[test]
fn rejects_other_programs() {
    let compiler = Compiler::new();
    for source in ["1 +", "x", "1 2", "1 + 2 + 3", "256", "1.5", "3 % 2", "1 + y"] {
        assert!(compiler.compile(source).is_none(), "{}", source);
    }
    assert_eq!(run_source("1 +"), InterpretResult::InterpretCompileError);
}

#[test]
fn runs_source_to_a_result() {
    assert_eq!(run_source("255 + 1"), InterpretResult::InterpretOk(Some(Value::ValNumber(0))));
    assert_eq!(run_source(""), InterpretResult::InterpretOk(None));
    let error = RuntimeError { kind: RuntimeErrorKind::DivisionByZero, line: 1 };
    assert_eq!(run_source("5 / 0"), InterpretResult::InterpretRuntimeError(error));
}
