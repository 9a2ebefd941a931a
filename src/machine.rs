//! The machine of the tagged profile: each instruction carries its constant
//! inline, and a value is a boolean, an 8-bit number or nil.
use vstd::prelude::*;
use crate::arith::{
    add_spec, mul_spec, neg_spec, sub_spec, wrapping_add8, wrapping_mul8, wrapping_neg8,
    wrapping_sub8,
};
use crate::error::{line_at, line_for, RuntimeError, RuntimeErrorKind};

verus! {

/// A runtime value of the tagged profile.
#[derive(Debug, Clone, Copy, PartialEq, Eq, Structural)]
pub enum Value {
    ValBool(bool),
    ValNumber(u8),
    ValNil,
}

/// One instruction of the tagged profile.
#[derive(Debug, Clone, Copy, PartialEq, Eq, Structural)]
pub enum OpCode {
    /// Pushes the value it carries.
    OpConstant(Value),
    OpAdd,
    OpSubtract,
    OpMultiply,
    OpDivide,
    OpModulo,
    OpNegate,
    OpNil,
    OpTrue,
    OpFalse,
    OpNot,
    OpEqual,
    OpGreater,
    OpLess,
    /// Halts, reporting the top of the stack without popping it.
    OpReturn,
}

/// How a run of the tagged machine ended.
#[derive(Debug, Clone, Copy, PartialEq, Eq, Structural)]
pub enum InterpretResult {
    /// `OpReturn` was reached; it reports the top of the stack, if any.
    InterpretOk(Option<Value>),
    /// The producer of the chunk failed; nothing was run.
    InterpretCompileError,
    /// Execution stopped with a failure.
    InterpretRuntimeError(RuntimeError),
}

/// Compiled code of the tagged profile: the instructions and, for each, the
/// source line it came from.
pub struct Chunk {
    pub code: Vec<OpCode>,
    pub lines: Vec<usize>,
}

impl Chunk {
    /// Whether every instruction has its source line.
    pub open spec fn wf(&self) -> bool {
        self.lines@.len() == self.code@.len()
    }

    /// An empty chunk.
    pub fn new() -> (c: Chunk)
        ensures
            c.code@ == Seq::<OpCode>::empty(),
            c.lines@ == Seq::<usize>::empty(),
            c.wf(),
    {
        Chunk { code: Vec::new(), lines: Vec::new() }
    }

    /// Appends one instruction and the source line it came from.
    pub fn write(&mut self, op: OpCode, line: usize)
        ensures
            final(self).code@ == old(self).code@.push(op),
            final(self).lines@ == old(self).lines@.push(line),
            old(self).wf() ==> final(self).wf(),
    {
        self.code.push(op);
        self.lines.push(line);
    }
}

/// The code and lines after writing each instruction of `ops`, with its line,
/// in order, onto `code` and `lines`.
pub open spec fn write_all(code: Seq<OpCode>, lines: Seq<usize>, ops: Seq<(OpCode, usize)>) -> (
    Seq<OpCode>,
    Seq<usize>,
)
    decreases ops.len(),
{
    if ops.len() == 0 {
        (code, lines)
    } else {
        write_all(code.push(ops[0].0), lines.push(ops[0].1), ops.drop_first())
    }
}

/// Writing N instructions lengthens the code and the line table by exactly N
/// each, whatever the instructions are; from an empty chunk both then hold N.
pub proof fn lemma_write_all_lengths(code: Seq<OpCode>, lines: Seq<usize>, ops: Seq<(OpCode, usize)>)
    ensures
        write_all(code, lines, ops).0.len() == code.len() + ops.len(),
        write_all(code, lines, ops).1.len() == lines.len() + ops.len(),
        code.len() == 0 && lines.len() == 0 ==> write_all(code, lines, ops).0.len() == ops.len()
            && write_all(code, lines, ops).1.len() == ops.len(),
    decreases ops.len(),
{
    if ops.len() > 0 {
        lemma_write_all_lengths(code.push(ops[0].0), lines.push(ops[0].1), ops.drop_first());
    }
}

/// A value is falsey when it is nil or the boolean false; every other value,
/// the number 0 included, is truthy.
pub open spec fn falsey(value: Value) -> bool {
    value == Value::ValNil || value == Value::ValBool(false)
}

/// Whether `value` is falsey: nil and false are; everything else is not.
pub fn is_falsey(value: Value) -> (r: bool)
    ensures
        r == falsey(value),
        value == Value::ValNil ==> r,
        value == Value::ValBool(false) ==> r,
        value == Value::ValBool(true) ==> !r,
        value is ValNumber ==> !r,
{
    match value {
        Value::ValBool(false) | Value::ValNil => true,
        _ => false,
    }
}

/// The result of the binary instruction `op` on the numbers `a` and `b` (`b`
/// was pushed last); `None` for a zero divisor or a non-binary instruction.
pub open spec fn binary(op: OpCode, a: u8, b: u8) -> Option<Value> {
    match op {
        OpCode::OpAdd => Some(Value::ValNumber(add_spec(a, b))),
        OpCode::OpSubtract => Some(Value::ValNumber(sub_spec(a, b))),
        OpCode::OpMultiply => Some(Value::ValNumber(mul_spec(a, b))),
        OpCode::OpDivide => if b == 0 { None } else { Some(Value::ValNumber((a / b) as u8)) },
        OpCode::OpModulo => if b == 0 { None } else { Some(Value::ValNumber((a % b) as u8)) },
        OpCode::OpEqual => Some(Value::ValBool(a == b)),
        OpCode::OpGreater => Some(Value::ValBool(a > b)),
        OpCode::OpLess => Some(Value::ValBool(a < b)),
        _ => None,
    }
}

/// The failure of kind `kind` attributed to code position `pos`.
pub open spec fn failure(lines: Seq<usize>, pos: int, kind: RuntimeErrorKind) -> Option<InterpretResult> {
    Some(InterpretResult::InterpretRuntimeError(RuntimeError { kind, line: line_for(lines, pos) }))
}

/// One step of execution from instruction pointer `ip` and stack `stack`:
/// the result if execution halts, and the instruction pointer and stack after.
pub open spec fn step(code: Seq<OpCode>, lines: Seq<usize>, ip: int, stack: Seq<Value>) -> (
    Option<InterpretResult>,
    int,
    Seq<Value>,
) {
    if !(0 <= ip < code.len()) {
        (failure(lines, ip, RuntimeErrorKind::NoReturn), ip, stack)
    } else {
        let next = ip + 1;
        match code[ip] {
            OpCode::OpConstant(v) => (None, next, stack.push(v)),
            OpCode::OpNil => (None, next, stack.push(Value::ValNil)),
            OpCode::OpTrue => (None, next, stack.push(Value::ValBool(true))),
            OpCode::OpFalse => (None, next, stack.push(Value::ValBool(false))),
            OpCode::OpReturn => (
                Some(InterpretResult::InterpretOk(
                    if stack.len() > 0 { Some(stack.last()) } else { None },
                )),
                next,
                stack,
            ),
            OpCode::OpNot => if stack.len() < 1 {
                (failure(lines, ip, RuntimeErrorKind::StackUnderflow), next, stack)
            } else {
                (None, next, stack.drop_last().push(Value::ValBool(falsey(stack.last()))))
            },
            OpCode::OpNegate => if stack.len() < 1 {
                (failure(lines, ip, RuntimeErrorKind::StackUnderflow), next, stack)
            } else {
                match stack.last() {
                    Value::ValNumber(n) => (None, next, stack.drop_last().push(Value::ValNumber(neg_spec(n)))),
                    _ => (failure(lines, ip, RuntimeErrorKind::TypeMismatch), next, stack.drop_last()),
                }
            },
            op => if stack.len() < 2 {
                (failure(lines, ip, RuntimeErrorKind::StackUnderflow), next, stack)
            } else {
                let b = stack.last();
                let a = stack.drop_last().last();
                let rest = stack.drop_last().drop_last();
                match (a, b) {
                    (Value::ValNumber(x), Value::ValNumber(y)) => match binary(op, x, y) {
                        Some(r) => (None, next, rest.push(r)),
                        None => (failure(lines, ip, RuntimeErrorKind::DivisionByZero), next, rest),
                    },
                    _ => (failure(lines, ip, RuntimeErrorKind::TypeMismatch), next, rest),
                }
            },
        }
    }
}

/// Execution from `ip` and `stack` until it halts: the result, and the
/// instruction pointer and stack at that moment.
pub open spec fn run_from(code: Seq<OpCode>, lines: Seq<usize>, ip: int, stack: Seq<Value>) -> (
    InterpretResult,
    int,
    Seq<Value>,
)
    decreases code.len() - ip,
{
    let s = step(code, lines, ip, stack);
    match s.0 {
        Some(r) => (r, s.1, s.2),
        None => run_from(code, lines, s.1, s.2),
    }
}

/// What a driver sees after calling the single step at most `n` times from
/// `ip` and `stack`, stopping at the first step that halts.
pub open spec fn drive(code: Seq<OpCode>, lines: Seq<usize>, ip: int, stack: Seq<Value>, n: nat) -> (
    Option<InterpretResult>,
    int,
    Seq<Value>,
)
    decreases n,
{
    if n == 0 {
        (None, ip, stack)
    } else {
        let s = step(code, lines, ip, stack);
        match s.0 {
            Some(_) => s,
            None => drive(code, lines, s.1, s.2, (n - 1) as nat),
        }
    }
}

fn binary_op(op: OpCode, a: u8, b: u8) -> (r: Option<Value>)
    ensures
        r == binary(op, a, b),
{
    match op {
        OpCode::OpAdd => Some(Value::ValNumber(wrapping_add8(a, b))),
        OpCode::OpSubtract => Some(Value::ValNumber(wrapping_sub8(a, b))),
        OpCode::OpMultiply => Some(Value::ValNumber(wrapping_mul8(a, b))),
        OpCode::OpDivide => if b == 0 { None } else { Some(Value::ValNumber(a / b)) },
        OpCode::OpModulo => if b == 0 { None } else { Some(Value::ValNumber(a % b)) },
        OpCode::OpEqual => Some(Value::ValBool(a == b)),
        OpCode::OpGreater => Some(Value::ValBool(a > b)),
        OpCode::OpLess => Some(Value::ValBool(a < b)),
        _ => None,
    }
}

fn runtime_failure(lines: &Vec<usize>, pos: usize, kind: RuntimeErrorKind) -> (r: Option<InterpretResult>)
    ensures
        r == failure(lines@, pos as int, kind),
{
    Some(InterpretResult::InterpretRuntimeError(RuntimeError { kind, line: line_at(lines, pos) }))
}

/// The machine of the tagged profile.
pub struct VirtualMachine {
    pub chunk: Chunk,
    /// Index of the next instruction to execute.
    pub ip: usize,
    /// The operand stack; its top is the last element.
    pub stack: Vec<Value>,
}

impl VirtualMachine {
    /// A machine over `chunk`, with its instruction pointer at 0 and an empty stack.
    pub fn new(chunk: Chunk) -> (vm: VirtualMachine)
        ensures
            vm.chunk == chunk,
            vm.ip == 0,
            vm.stack@ == Seq::<Value>::empty(),
    {
        VirtualMachine { chunk, ip: 0, stack: Vec::new() }
    }

    /// Executes exactly one instruction: returns the result when it halts
    /// execution (`OpReturn`, a failure, or the end of the code), `None` when
    /// execution goes on.
    pub fn step_once(&mut self) -> (r: Option<InterpretResult>)
        ensures
            final(self).chunk == old(self).chunk,
            (r, final(self).ip as int, final(self).stack@) == step(
                old(self).chunk.code@,
                old(self).chunk.lines@,
                old(self).ip as int,
                old(self).stack@,
            ),
    {
        let len = self.chunk.code.len();
        let at = self.ip;
        if at >= len {
            return runtime_failure(&self.chunk.lines, at, RuntimeErrorKind::NoReturn);
        }
        let op = self.chunk.code[at];
        self.ip = at + 1;
        match op {
            OpCode::OpConstant(v) => {
                self.stack.push(v);
                None
            },
            OpCode::OpNil => {
                self.stack.push(Value::ValNil);
                None
            },
            OpCode::OpTrue => {
                self.stack.push(Value::ValBool(true));
                None
            },
            OpCode::OpFalse => {
                self.stack.push(Value::ValBool(false));
                None
            },
            OpCode::OpReturn => {
                let n = self.stack.len();
                let top = if n > 0 { Some(self.stack[n - 1]) } else { None };
                Some(InterpretResult::InterpretOk(top))
            },
            OpCode::OpNot => {
                if self.stack.len() < 1 {
                    return runtime_failure(&self.chunk.lines, at, RuntimeErrorKind::StackUnderflow);
                }
                let a = self.stack.pop().unwrap();
                self.stack.push(Value::ValBool(is_falsey(a)));
                None
            },
            OpCode::OpNegate => {
                if self.stack.len() < 1 {
                    return runtime_failure(&self.chunk.lines, at, RuntimeErrorKind::StackUnderflow);
                }
                match self.stack.pop().unwrap() {
                    Value::ValNumber(n) => {
                        self.stack.push(Value::ValNumber(wrapping_neg8(n)));
                        None
                    },
                    _ => runtime_failure(&self.chunk.lines, at, RuntimeErrorKind::TypeMismatch),
                }
            },
            _ => {
                if self.stack.len() < 2 {
                    return runtime_failure(&self.chunk.lines, at, RuntimeErrorKind::StackUnderflow);
                }
                let b = self.stack.pop().unwrap();
                let a = self.stack.pop().unwrap();
                match (a, b) {
                    (Value::ValNumber(x), Value::ValNumber(y)) => match binary_op(op, x, y) {
                        Some(r) => {
                            self.stack.push(r);
                            None
                        },
                        None => runtime_failure(&self.chunk.lines, at, RuntimeErrorKind::DivisionByZero),
                    },
                    _ => runtime_failure(&self.chunk.lines, at, RuntimeErrorKind::TypeMismatch),
                }
            },
        }
    }

    /// Runs the chunk from the current instruction pointer and stack until it
    /// halts with `OpReturn` or a failure.
    pub fn run(&mut self) -> (r: InterpretResult)
        ensures
            final(self).chunk == old(self).chunk,
            (r, final(self).ip as int, final(self).stack@) == run_from(
                old(self).chunk.code@,
                old(self).chunk.lines@,
                old(self).ip as int,
                old(self).stack@,
            ),
    {
        loop
            invariant
                self.chunk == old(self).chunk,
                run_from(self.chunk.code@, self.chunk.lines@, self.ip as int, self.stack@)
                    == run_from(
                    old(self).chunk.code@,
                    old(self).chunk.lines@,
                    old(self).ip as int,
                    old(self).stack@,
                ),
            decreases self.chunk.code@.len() - self.ip,
        {
            match self.step_once() {
                Some(r) => {
                    return r;
                },
                None => {},
            }
        }
    }

    /// Takes over `chunk`, resets the instruction pointer and the stack, and
    /// runs the chunk until it halts.
    pub fn interpret(&mut self, chunk: Chunk) -> (r: InterpretResult)
        ensures
            final(self).chunk == chunk,
            (r, final(self).ip as int, final(self).stack@) == run_from(
                chunk.code@,
                chunk.lines@,
                0,
                Seq::empty(),
            ),
    {
        self.chunk = chunk;
        self.ip = 0;
        self.stack = Vec::new();
        self.run()
    }
}

/// Calling the single step until it reports a halt ends in the same result,
/// instruction pointer and stack as one batch run from the same state.
pub proof fn lemma_stepping_matches_run(
    code: Seq<OpCode>,
    lines: Seq<usize>,
    ip: int,
    stack: Seq<Value>,
    n: nat,
)
    requires
        drive(code, lines, ip, stack, n).0 is Some,
    ensures
        ({
            let d = drive(code, lines, ip, stack, n);
            (d.0->Some_0, d.1, d.2) == run_from(code, lines, ip, stack)
        }),
    decreases n,
{
    let s = step(code, lines, ip, stack);
    if s.0 is None {
        lemma_stepping_matches_run(code, lines, s.1, s.2, (n - 1) as nat);
    }
}

/// A driver that calls the single step from instruction pointer `ip` sees a
/// halt within `code.len() - ip + 1` calls.
pub proof fn lemma_stepping_halts(code: Seq<OpCode>, lines: Seq<usize>, ip: int, stack: Seq<Value>, n: nat)
    requires
        0 <= ip <= code.len(),
        n >= code.len() - ip + 1,
    ensures
        drive(code, lines, ip, stack, n).0 is Some,
    decreases code.len() - ip,
{
    let s = step(code, lines, ip, stack);
    if s.0 is None {
        lemma_stepping_halts(code, lines, s.1, s.2, (n - 1) as nat);
    }
}

} // verus!
