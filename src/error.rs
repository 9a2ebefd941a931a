//! Runtime failures shared by both execution profiles.
use vstd::prelude::*;
use crate::text::{append_decimal, decimal};

verus! {

/// Why execution stopped with a failure.
#[derive(Debug, Clone, Copy, PartialEq, Eq, Structural)]
pub enum RuntimeErrorKind {
    /// An operation needed more operands than the stack held.
    StackUnderflow,
    /// An arithmetic, comparison or negation operand was not a number.
    TypeMismatch,
    /// The divisor of a division or modulo was zero.
    DivisionByZero,
    /// The byte at the instruction pointer encodes no operation.
    UnknownOpcode(u8),
    /// A constant-loading instruction ended before its operand byte.
    MissingOperand,
    /// A constant-loading instruction named an index past the constants pool.
    MissingConstant(u8),
    /// The instruction pointer ran off the end of the code without a return.
    NoReturn,
}

/// A runtime failure together with the source line it is attributed to.
#[derive(Debug, Clone, Copy, PartialEq, Eq, Structural)]
pub struct RuntimeError {
    pub kind: RuntimeErrorKind,
    pub line: usize,
}

/// The message that describes a failure of kind `kind`.
pub open spec fn message(kind: RuntimeErrorKind) -> Seq<char> {
    match kind {
        RuntimeErrorKind::StackUnderflow => "Stack underflow."@,
        RuntimeErrorKind::TypeMismatch => "Operands must be numbers."@,
        RuntimeErrorKind::DivisionByZero => "Division by zero."@,
        RuntimeErrorKind::UnknownOpcode(b) => "Unknown opcode "@ + decimal(b as nat) + "."@,
        RuntimeErrorKind::MissingOperand => "Missing constant operand."@,
        RuntimeErrorKind::MissingConstant(i) => "No constant at index "@ + decimal(i as nat) + "."@,
        RuntimeErrorKind::NoReturn => "Reached the end of the code without a return."@,
    }
}

impl RuntimeError {
    /// The diagnostic for this failure: its message, then on a second line
    /// the source line it is attributed to.
    pub fn report(&self) -> (r: String)
        ensures
            r@ == message(self.kind) + "\n[line "@ + decimal(self.line as nat) + "] in script"@,
    {
        let mut out = String::new();
        match self.kind {
            RuntimeErrorKind::StackUnderflow => out.append("Stack underflow."),
            RuntimeErrorKind::TypeMismatch => out.append("Operands must be numbers."),
            RuntimeErrorKind::DivisionByZero => out.append("Division by zero."),
            RuntimeErrorKind::UnknownOpcode(b) => {
                out.append("Unknown opcode ");
                append_decimal(&mut out, b as usize);
                out.append(".");
            },
            RuntimeErrorKind::MissingOperand => out.append("Missing constant operand."),
            RuntimeErrorKind::MissingConstant(i) => {
                out.append("No constant at index ");
                append_decimal(&mut out, i as usize);
                out.append(".");
            },
            RuntimeErrorKind::NoReturn => out.append("Reached the end of the code without a return."),
        }
        assert(out@ =~= message(self.kind));
        out.append("\n[line ");
        append_decimal(&mut out, self.line);
        out.append("] in script");
        assert(out@ =~= message(self.kind) + "\n[line "@ + decimal(self.line as nat) + "] in script"@);
        out
    }
}

/// The source line recorded for code position `pos`; past the end of the
/// table, the last recorded line; 0 when nothing was recorded.
pub open spec fn line_for(lines: Seq<usize>, pos: int) -> usize {
    if 0 <= pos < lines.len() {
        lines[pos]
    } else if lines.len() > 0 {
        lines.last()
    } else {
        0
    }
}

/// Looks up the source line of code position `pos`, as `line_for` states.
pub fn line_at(lines: &Vec<usize>, pos: usize) -> (r: usize)
    ensures
        r == line_for(lines@, pos as int),
{
    if pos < lines.len() {
        lines[pos]
    } else if lines.len() > 0 {
        lines[lines.len() - 1]
    } else {
        0
    }
}

} // verus!
