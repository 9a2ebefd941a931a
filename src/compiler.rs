//! A minimal compiler from source text to a `machine::Chunk`: it accepts an
//! empty program, a single number, or two numbers joined by one of the four
//! arithmetic operators.
use vstd::prelude::*;
use vstd::string::StringSliceAdditionalSpecFns;
use crate::machine::{run_from, Chunk, InterpretResult, OpCode, Value, VirtualMachine};
use crate::scanner::{blank_end, line_after, newlines, token_at, Scanner, TokenType, DIGIT_0};

verus! {

/// The token found by scanning from `pos` on line `line`: its kind, where it
/// starts and ends, and the line reached after it.
pub open spec fn scan_at(src: Seq<u8>, pos: int, line: int) -> (TokenType, int, int, int) {
    let s = blank_end(src, pos, false);
    let tk = token_at(src, s);
    (tk.0, s, tk.1, line_after(line, newlines(src, pos, tk.1)))
}

/// The decimal value of a sequence of digits.
pub open spec fn digits_value(text: Seq<u8>) -> nat
    decreases text.len(),
{
    if text.len() == 0 {
        0
    } else {
        digits_value(text.drop_last()) * 10 + (text.last() - DIGIT_0) as nat
    }
}

/// The 8-bit number that a number lexeme denotes: `None` when it holds
/// anything but digits (a fraction) or its value exceeds 255.
pub open spec fn number_value(text: Seq<u8>) -> Option<u8> {
    if (forall|k: int| 0 <= k < text.len() ==> DIGIT_0 <= #[trigger] text[k] <= DIGIT_0 + 9)
        && digits_value(text) <= 255 {
        Some(digits_value(text) as u8)
    } else {
        None
    }
}

/// The instruction of an arithmetic operator token.
pub open spec fn operator_op(t: TokenType) -> Option<OpCode> {
    match t {
        TokenType::TokenPlus => Some(OpCode::OpAdd),
        TokenType::TokenMinus => Some(OpCode::OpSubtract),
        TokenType::TokenStar => Some(OpCode::OpMultiply),
        TokenType::TokenSlash => Some(OpCode::OpDivide),
        _ => None,
    }
}

/// The number token scanned as `t`, if it is one and denotes an 8-bit number.
pub open spec fn number_token(src: Seq<u8>, t: (TokenType, int, int, int)) -> Option<u8> {
    if t.0 == TokenType::TokenNumber {
        number_value(src.subrange(t.1, t.2))
    } else {
        None
    }
}

/// The instructions and their lines that `src` compiles to, or `None` when it
/// is not an empty program, a number, or `number operator number`.
pub open spec fn compiled(src: Seq<u8>) -> Option<(Seq<OpCode>, Seq<usize>)> {
    let t1 = scan_at(src, 0, 1);
    let t2 = scan_at(src, t1.2, t1.3);
    let t3 = scan_at(src, t2.2, t2.3);
    let t4 = scan_at(src, t3.2, t3.3);
    if t1.0 == TokenType::TokenEof {
        Some((seq![OpCode::OpReturn], seq![t1.3 as usize]))
    } else if number_token(src, t1) is None {
        None
    } else {
        let a = Value::ValNumber(number_token(src, t1)->Some_0);
        if t2.0 == TokenType::TokenEof {
            Some((seq![OpCode::OpConstant(a), OpCode::OpReturn], seq![t1.3 as usize, t2.3 as usize]))
        } else if operator_op(t2.0) is None || number_token(src, t3) is None || t4.0
            != TokenType::TokenEof {
            None
        } else {
            let b = Value::ValNumber(number_token(src, t3)->Some_0);
            Some(
                (
                    seq![OpCode::OpConstant(a), OpCode::OpConstant(b), operator_op(t2.0)->Some_0, OpCode::OpReturn],
                    seq![t1.3 as usize, t3.3 as usize, t2.3 as usize, t4.3 as usize],
                ),
            )
        }
    }
}

proof fn lemma_digits_value_grows(text: Seq<u8>, n: int)
    requires
        0 <= n <= text.len(),
        forall|k: int| 0 <= k < text.len() ==> DIGIT_0 <= #[trigger] text[k] <= DIGIT_0 + 9,
    ensures
        digits_value(text.subrange(0, n)) <= digits_value(text),
    decreases text.len() - n,
{
    if n < text.len() {
        let longer = text.subrange(0, n + 1);
        assert(longer.drop_last() =~= text.subrange(0, n));
        lemma_digits_value_grows(text, n + 1);
    } else {
        assert(text.subrange(0, n) =~= text);
    }
}

fn parse_number(text: &Vec<u8>) -> (r: Option<u8>)
    ensures
        r == number_value(text@),
{
    let mut value: u16 = 0;
    let mut i: usize = 0;
    while i < text.len()
        invariant
            i <= text@.len(),
            forall|k: int| 0 <= k < i ==> DIGIT_0 <= #[trigger] text@[k] <= DIGIT_0 + 9,
            value == digits_value(text@.subrange(0, i as int)),
            value <= 255,
        decreases text@.len() - i,
    {
        let c = text[i];
        if c < DIGIT_0 || c > DIGIT_0 + 9 {
            return None;
        }
        assert(text@.subrange(0, i + 1).drop_last() =~= text@.subrange(0, i as int));
        value = value * 10 + (c - DIGIT_0) as u16;
        i = i + 1;
        if value > 255 {
            proof {
                if forall|k: int| 0 <= k < text@.len() ==> DIGIT_0 <= #[trigger] text@[k] <= DIGIT_0 + 9 {
                    lemma_digits_value_grows(text@, i as int);
                }
            }
            return None;
        }
    }
    assert(text@.subrange(0, i as int) =~= text@);
    Some(value as u8)
}

fn operator_instruction(t: TokenType) -> (r: Option<OpCode>)
    ensures
        r == operator_op(t),
{
    match t {
        TokenType::TokenPlus => Some(OpCode::OpAdd),
        TokenType::TokenMinus => Some(OpCode::OpSubtract),
        TokenType::TokenStar => Some(OpCode::OpMultiply),
        TokenType::TokenSlash => Some(OpCode::OpDivide),
        _ => None,
    }
}

/// Turns source text into a chunk of the tagged profile.
pub struct Compiler;

impl Compiler {
    /// A compiler; it holds no state between compilations.
    pub fn new() -> Compiler {
        Compiler
    }

    /// Compiles `source`: each instruction gets the line of the token it
    /// came from, and the closing `OpReturn` the line of the end of input.
    pub fn compile(&self, source: &str) -> (r: Option<Chunk>)
        ensures
            match compiled(source.spec_bytes()) {
                Some(p) => r is Some && r->Some_0.code@ == p.0 && r->Some_0.lines@ == p.1,
                None => r is None,
            },
    {
        let ghost src = source.spec_bytes();
        let mut scanner = Scanner::init_scanner(source);
        let mut chunk = Chunk::new();
        let first = scanner.scan_token();
        if first.token_type == TokenType::TokenEof {
            chunk.write(OpCode::OpReturn, first.line);
            assert(chunk.code@ =~= seq![OpCode::OpReturn]);
            assert(chunk.lines@ =~= seq![first.line]);
            return Some(chunk);
        }
        if first.token_type != TokenType::TokenNumber {
            return None;
        }
        let a = match parse_number(&first.value) {
            Some(a) => a,
            None => {
                return None;
            },
        };
        chunk.write(OpCode::OpConstant(Value::ValNumber(a)), first.line);
        let second = scanner.scan_token();
        if second.token_type == TokenType::TokenEof {
            chunk.write(OpCode::OpReturn, second.line);
            assert(chunk.code@ =~= seq![OpCode::OpConstant(Value::ValNumber(a)), OpCode::OpReturn]);
            assert(chunk.lines@ =~= seq![first.line, second.line]);
            return Some(chunk);
        }
        let op = match operator_instruction(second.token_type) {
            Some(op) => op,
            None => {
                return None;
            },
        };
        let third = scanner.scan_token();
        if third.token_type != TokenType::TokenNumber {
            return None;
        }
        let b = match parse_number(&third.value) {
            Some(b) => b,
            None => {
                return None;
            },
        };
        let fourth = scanner.scan_token();
        if fourth.token_type != TokenType::TokenEof {
            return None;
        }
        chunk.write(OpCode::OpConstant(Value::ValNumber(b)), third.line);
        chunk.write(op, second.line);
        chunk.write(OpCode::OpReturn, fourth.line);
        assert(chunk.code@ =~= seq![
            OpCode::OpConstant(Value::ValNumber(a)),
            OpCode::OpConstant(Value::ValNumber(b)),
            op,
            OpCode::OpReturn,
        ]);
        assert(chunk.lines@ =~= seq![first.line, third.line, second.line, fourth.line]);
        Some(chunk)
    }
}

/// Compiles `source` and runs it: a compile error when it does not compile,
/// else the result of running the chunk from its start on an empty stack.
pub fn run_source(source: &str) -> (r: InterpretResult)
    ensures
        match compiled(source.spec_bytes()) {
            Some(p) => r == run_from(p.0, p.1, 0, Seq::empty()).0,
            None => r == InterpretResult::InterpretCompileError,
        },
{
    let compiler = Compiler::new();
    match compiler.compile(source) {
        Some(chunk) => {
            let mut vm = VirtualMachine::new(chunk);
            vm.run()
        },
        None => InterpretResult::InterpretCompileError,
    }
}

} // verus!
