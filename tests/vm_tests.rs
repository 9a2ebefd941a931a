use bytecode_vm::compiler::run_source;
use bytecode_vm::machine::{InterpretResult, Value};

fn run_expression(expr: &str) -> u8 {
    match run_source(expr) {
        InterpretResult::InterpretOk(Some(Value::ValNumber(val))) => val,
        _ => panic!("Runtime error in expression: {}", expr),
    }
}

#[test]
fn test_single_number() {
    assert_eq!(run_expression("7"), 7);
}

#[test]
fn vm_tests_test_addition() {
    assert_eq!(run_expression("1 + 8"), 9);
    assert_eq!(run_expression("3 + 4"), 7);
    assert_eq!(run_expression("10 + 2"), 12);
}

#[test]
fn vm_tests_test_multiplication() {
    assert_eq!(run_expression("3 * 4"), 12);
    assert_eq!(run_expression("2 * 5"), 10);
    assert_eq!(run_expression("6 * 7"), 42);
}

#[test]
fn vm_tests_test_subtraction() {
    assert_eq!(run_expression("5 - 3"), 2);
    assert_eq!(run_expression("9 - 4"), 5);
    assert_eq!(run_expression("10 - 2"), 8);
}

#[test]
fn vm_tests_test_division() {
    assert_eq!(run_expression("6 / 2"), 3);
    assert_eq!(run_expression("9 / 3"), 3);
    assert_eq!(run_expression("12 / 4"), 3);
}
