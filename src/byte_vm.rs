//! The virtual machine of the byte-encoded profile: it fetches one byte at a
//! time, decodes it, reads the operand of `OpConstant`, and works on a stack
//! of 8-bit numbers.
use vstd::prelude::*;
use crate::arith::{
    add_spec, mul_spec, neg_spec, sub_spec, wrapping_add8, wrapping_mul8, wrapping_neg8,
    wrapping_sub8,
};
use crate::chunk::Chunk;
use crate::error::{line_at, line_for, RuntimeError, RuntimeErrorKind};
use crate::opcode::{decode, OpCode, Value};

verus! {

/// How a run of the byte-encoded machine ended.
#[derive(Debug, Clone, Copy, PartialEq, Eq, Structural)]
pub enum InterpretResult {
    /// `OpReturn` was reached; it reports the top of the stack, if any.
    InterpretSuccess(Option<Value>),
    /// The producer of the chunk failed; nothing was run.
    InterpretCompileError,
    /// Execution stopped with a failure.
    InterpretRuntimeError(RuntimeError),
}

/// The result of the binary operation `op` on `a` and `b` (`b` was pushed
/// last); `None` for a zero divisor and for an operation that is not binary.
pub open spec fn binary(op: OpCode, a: Value, b: Value) -> Option<Value> {
    match op {
        OpCode::OpAdd => Some(add_spec(a, b)),
        OpCode::OpSubtract => Some(sub_spec(a, b)),
        OpCode::OpMultiply => Some(mul_spec(a, b)),
        OpCode::OpDivide => if b == 0 { None } else { Some((a / b) as u8) },
        OpCode::OpModulo => if b == 0 { None } else { Some((a % b) as u8) },
        _ => None,
    }
}

/// The failure of kind `kind` attributed to code position `pos`.
pub open spec fn failure(lines: Seq<usize>, pos: int, kind: RuntimeErrorKind) -> Option<InterpretResult> {
    Some(InterpretResult::InterpretRuntimeError(RuntimeError { kind, line: line_for(lines, pos) }))
}

/// One step of execution from instruction pointer `ip` and stack `stack`:
/// the result if execution halts, and the instruction pointer and stack after.
pub open spec fn step(code: Seq<u8>, values: Seq<Value>, lines: Seq<usize>, ip: int, stack: Seq<Value>)
    -> (Option<InterpretResult>, int, Seq<Value>)
{
    if !(0 <= ip < code.len()) {
        (failure(lines, ip, RuntimeErrorKind::NoReturn), ip, stack)
    } else {
        let next = ip + 1;
        match decode(code[ip]) {
            None => (failure(lines, ip, RuntimeErrorKind::UnknownOpcode(code[ip])), next, stack),
            Some(OpCode::OpReturn) => (
                Some(InterpretResult::InterpretSuccess(
                    if stack.len() > 0 { Some(stack.last()) } else { None },
                )),
                next,
                stack,
            ),
            Some(OpCode::OpConstant) => if next >= code.len() {
                (failure(lines, ip, RuntimeErrorKind::MissingOperand), next, stack)
            } else if code[next] >= values.len() {
                (failure(lines, ip, RuntimeErrorKind::MissingConstant(code[next])), next + 1, stack)
            } else {
                (None, next + 1, stack.push(values[code[next] as int]))
            },
            Some(OpCode::OpNegate) => if stack.len() < 1 {
                (failure(lines, ip, RuntimeErrorKind::StackUnderflow), next, stack)
            } else {
                (None, next, stack.drop_last().push(neg_spec(stack.last())))
            },
            Some(op) => if stack.len() < 2 {
                (failure(lines, ip, RuntimeErrorKind::StackUnderflow), next, stack)
            } else {
                let b = stack.last();
                let rest = stack.drop_last();
                let a = rest.last();
                match binary(op, a, b) {
                    Some(r) => (None, next, rest.drop_last().push(r)),
                    None => (failure(lines, ip, RuntimeErrorKind::DivisionByZero), next, rest.drop_last()),
                }
            },
        }
    }
}

/// Execution from `ip` and `stack` until it halts: the result, and the
/// instruction pointer and stack at that moment.
pub open spec fn run_from(code: Seq<u8>, values: Seq<Value>, lines: Seq<usize>, ip: int, stack: Seq<Value>)
    -> (InterpretResult, int, Seq<Value>)
    decreases code.len() - ip,
{
    let s = step(code, values, lines, ip, stack);
    match s.0 {
        Some(r) => (r, s.1, s.2),
        None => run_from(code, values, lines, s.1, s.2),
    }
}

fn binary_op(op: OpCode, a: Value, b: Value) -> (r: Option<Value>)
    ensures
        r == binary(op, a, b),
{
    match op {
        OpCode::OpAdd => Some(wrapping_add8(a, b)),
        OpCode::OpSubtract => Some(wrapping_sub8(a, b)),
        OpCode::OpMultiply => Some(wrapping_mul8(a, b)),
        OpCode::OpDivide => if b == 0 { None } else { Some(a / b) },
        OpCode::OpModulo => if b == 0 { None } else { Some(a % b) },
        _ => None,
    }
}

fn runtime_failure(lines: &Vec<usize>, pos: usize, kind: RuntimeErrorKind) -> (r: Option<InterpretResult>)
    ensures
        r == failure(lines@, pos as int, kind),
{
    Some(InterpretResult::InterpretRuntimeError(RuntimeError { kind, line: line_at(lines, pos) }))
}

/// The machine of the byte-encoded profile.
pub struct VirtualMachine {
    /// The chunk being run; `None` until one is handed over.
    pub chunk: Option<Chunk>,
    /// Offset of the next byte to fetch.
    pub ip: usize,
    /// The operand stack; its top is the last element.
    pub stack: Vec<Value>,
}

impl VirtualMachine {
    /// A machine with no chunk, an instruction pointer at 0 and an empty stack.
    pub fn init_machine() -> (vm: VirtualMachine)
        ensures
            vm.chunk is None,
            vm.ip == 0,
            vm.stack@ == Seq::<Value>::empty(),
    {
        VirtualMachine { chunk: None, ip: 0, stack: Vec::new() }
    }

    /// Takes over `chunk`, resets the instruction pointer and the stack, and
    /// runs the chunk until it halts.
    pub fn interpret(&mut self, chunk: Chunk) -> (r: InterpretResult)
        ensures
            final(self).chunk == Some(chunk),
            (r, final(self).ip as int, final(self).stack@) == run_from(
                chunk.code@,
                chunk.values@,
                chunk.lines@,
                0,
                Seq::empty(),
            ),
    {
        self.chunk = Some(chunk);
        self.ip = 0;
        self.stack = Vec::new();
        self.run()
    }

    /// Runs the chunk from the current instruction pointer and stack until it
    /// halts with `OpReturn` or a failure.
    pub fn run(&mut self) -> (r: InterpretResult)
        requires
            old(self).chunk is Some,
        ensures
            final(self).chunk == old(self).chunk,
            ({
                let c = old(self).chunk->Some_0;
                (r, final(self).ip as int, final(self).stack@) == run_from(
                    c.code@,
                    c.values@,
                    c.lines@,
                    old(self).ip as int,
                    old(self).stack@,
                )
            }),
    {
        let ghost c = self.chunk->Some_0;
        loop
            invariant
                self.chunk == Some(c),
                old(self).chunk == Some(c),
                run_from(c.code@, c.values@, c.lines@, self.ip as int, self.stack@) == run_from(
                    c.code@,
                    c.values@,
                    c.lines@,
                    old(self).ip as int,
                    old(self).stack@,
                ),
            decreases c.code@.len() - self.ip,
        {
            match self.execute_one() {
                Some(r) => {
                    return r;
                },
                None => {},
            }
        }
    }

    /// Executes the instruction at the instruction pointer, as `step` states.
    fn execute_one(&mut self) -> (r: Option<InterpretResult>)
        requires
            old(self).chunk is Some,
        ensures
            final(self).chunk == old(self).chunk,
            ({
                let c = old(self).chunk->Some_0;
                (r, final(self).ip as int, final(self).stack@) == step(
                    c.code@,
                    c.values@,
                    c.lines@,
                    old(self).ip as int,
                    old(self).stack@,
                )
            }),
    {
        let chunk = match &self.chunk {
            Some(c) => c,
            None => {
                return None;
            },
        };
        let len = chunk.code.len();
        let at = self.ip;
        if at >= len {
            return runtime_failure(&chunk.lines, at, RuntimeErrorKind::NoReturn);
        }
        let byte = chunk.code[at];
        self.ip = at + 1;
        match OpCode::from_byte(byte) {
            None => runtime_failure(&chunk.lines, at, RuntimeErrorKind::UnknownOpcode(byte)),
            Some(OpCode::OpReturn) => {
                let n = self.stack.len();
                let top = if n > 0 { Some(self.stack[n - 1]) } else { None };
                Some(InterpretResult::InterpretSuccess(top))
            },
            Some(OpCode::OpConstant) => {
                if at + 1 >= len {
                    return runtime_failure(&chunk.lines, at, RuntimeErrorKind::MissingOperand);
                }
                let index = chunk.code[at + 1];
                self.ip = at + 2;
                if index as usize >= chunk.values.len() {
                    return runtime_failure(&chunk.lines, at, RuntimeErrorKind::MissingConstant(index));
                }
                self.stack.push(chunk.values[index as usize]);
                None
            },
            Some(OpCode::OpNegate) => {
                if self.stack.len() < 1 {
                    return runtime_failure(&chunk.lines, at, RuntimeErrorKind::StackUnderflow);
                }
                let a = self.stack.pop().unwrap();
                self.stack.push(wrapping_neg8(a));
                None
            },
            Some(op) => {
                if self.stack.len() < 2 {
                    return runtime_failure(&chunk.lines, at, RuntimeErrorKind::StackUnderflow);
                }
                let b = self.stack.pop().unwrap();
                let a = self.stack.pop().unwrap();
                match binary_op(op, a, b) {
                    Some(r) => {
                        self.stack.push(r);
                        None
                    },
                    None => runtime_failure(&chunk.lines, at, RuntimeErrorKind::DivisionByZero),
                }
            },
        }
    }
}

} // verus!
