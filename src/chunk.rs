//! The byte-encoded chunk: code bytes, their source lines, a constants pool,
//! and a disassembler that renders the code one instruction per line.
use vstd::prelude::*;
use crate::opcode::{decode, width, OpCode, Value};
use crate::text::{append_decimal, append_padded4, decimal, padded4};

verus! {

/// Compiled code of the byte-encoded profile.
///
/// `code` holds each operation byte followed by its operand bytes, `lines`
/// the source line of each code byte, and `values` the constants that
/// `OpConstant` operands index.
pub struct Chunk {
    pub code: Vec<u8>,
    pub lines: Vec<usize>,
    pub values: Vec<Value>,
}

/// The mnemonic of `op` as the disassembler prints it.
pub open spec fn op_name(op: OpCode) -> Seq<char> {
    match op {
        OpCode::OpReturn => "OpReturn"@,
        OpCode::OpConstant => "OpConstant"@,
        OpCode::OpNegate => "OpNegate"@,
        OpCode::OpAdd => "OpAdd"@,
        OpCode::OpSubtract => "OpSubtract"@,
        OpCode::OpMultiply => "OpMultiply"@,
        OpCode::OpDivide => "OpDivide"@,
        OpCode::OpModulo => "OpModulo"@,
    }
}

/// Whether the byte at `offset` is an `OpConstant` whose operand byte follows.
pub open spec fn has_operand(code: Seq<u8>, offset: int) -> bool {
    decode(code[offset]) == Some(OpCode::OpConstant) && offset + 1 < code.len()
}

/// The offset of the instruction that follows the one at `offset`: two bytes
/// on for an `OpConstant` with its operand, one byte on for anything else.
pub open spec fn next_offset(code: Seq<u8>, offset: int) -> int {
    if has_operand(code, offset) {
        offset + 2
    } else {
        offset + 1
    }
}

/// What the disassembler prints after the offset for the instruction at `offset`.
pub open spec fn instruction_body(code: Seq<u8>, values: Seq<Value>, offset: int) -> Seq<char> {
    match decode(code[offset]) {
        Some(OpCode::OpConstant) => if offset + 1 < code.len() {
            let index = code[offset + 1];
            if index < values.len() {
                "OpConstant "@ + decimal(index as nat) + " (value="@ + decimal(
                    values[index as int] as nat,
                ) + ")"@
            } else {
                "OpConstant "@ + decimal(index as nat) + " (no such constant)"@
            }
        } else {
            "OpConstant (missing operand)"@
        },
        Some(op) => op_name(op),
        None => "Unknown opcode "@ + decimal(code[offset] as nat),
    }
}

/// The diagnostic line of the instruction at `offset`: the zero-padded offset,
/// a space, the body, and a line break.
pub open spec fn instruction_line(code: Seq<u8>, values: Seq<Value>, offset: int) -> Seq<char> {
    padded4(offset as nat) + " "@ + instruction_body(code, values, offset) + "\n"@
}

/// The lines of every instruction from `offset` to the end of the code.
pub open spec fn listing(code: Seq<u8>, values: Seq<Value>, offset: int) -> Seq<char>
    decreases code.len() - offset,
{
    if 0 <= offset < code.len() {
        instruction_line(code, values, offset) + listing(code, values, next_offset(code, offset))
    } else {
        Seq::empty()
    }
}

/// The header line that the disassembly of a chunk named `name` starts with.
pub open spec fn header(name: Seq<char>) -> Seq<char> {
    "== "@ + name + " ==\n"@
}

/// The offset at which a walk over the instructions from `offset` stops.
pub open spec fn walk_end(code: Seq<u8>, offset: int) -> int
    decreases code.len() - offset,
{
    if 0 <= offset < code.len() {
        walk_end(code, next_offset(code, offset))
    } else {
        offset
    }
}

fn op_name_str(op: OpCode) -> (s: &'static str)
    ensures
        s@ == op_name(op),
{
    match op {
        OpCode::OpReturn => "OpReturn",
        OpCode::OpConstant => "OpConstant",
        OpCode::OpNegate => "OpNegate",
        OpCode::OpAdd => "OpAdd",
        OpCode::OpSubtract => "OpSubtract",
        OpCode::OpMultiply => "OpMultiply",
        OpCode::OpDivide => "OpDivide",
        OpCode::OpModulo => "OpModulo",
    }
}

impl Chunk {
    /// Whether every code byte has its source line.
    pub open spec fn wf(&self) -> bool {
        self.lines@.len() == self.code@.len()
    }

    /// An empty chunk.
    pub fn init_chunk() -> (c: Chunk)
        ensures
            c.code@ == Seq::<u8>::empty(),
            c.lines@ == Seq::<usize>::empty(),
            c.values@ == Seq::<Value>::empty(),
            c.wf(),
    {
        Chunk { code: Vec::new(), lines: Vec::new(), values: Vec::new() }
    }

    /// Appends one code byte and the source line it came from.
    pub fn write_to_chunk(&mut self, byte: u8, line: usize)
        ensures
            final(self).code@ == old(self).code@.push(byte),
            final(self).lines@ == old(self).lines@.push(line),
            final(self).values@ == old(self).values@,
            old(self).wf() ==> final(self).wf(),
    {
        self.code.push(byte);
        self.lines.push(line);
    }

    /// Appends `value` to the constants pool and returns its index.
    pub fn add_constant(&mut self, value: Value) -> (index: usize)
        ensures
            final(self).values@ == old(self).values@.push(value),
            index == old(self).values@.len(),
            final(self).code@ == old(self).code@,
            final(self).lines@ == old(self).lines@,
    {
        self.values.push(value);
        self.values.len() - 1
    }

    /// Appends the diagnostic line of the instruction at `offset` to `out` and
    /// returns the offset of the next instruction.
    pub fn disassemble_instruction(&self, offset: usize, out: &mut String) -> (next: usize)
        requires
            offset < self.code@.len(),
        ensures
            next == next_offset(self.code@, offset as int),
            final(out)@ == old(out)@ + instruction_line(self.code@, self.values@, offset as int),
    {
        let ghost code = self.code@;
        let ghost values = self.values@;
        let len = self.code.len();
        append_padded4(out, offset);
        out.append(" ");
        let ghost before = out@;
        let byte = self.code[offset];
        let next = match OpCode::from_byte(byte) {
            Some(OpCode::OpConstant) => {
                if offset + 1 < len {
                    let index = self.code[offset + 1];
                    out.append("OpConstant ");
                    append_decimal(out, index as usize);
                    if (index as usize) < self.values.len() {
                        out.append(" (value=");
                        append_decimal(out, self.values[index as usize] as usize);
                        out.append(")");
                    } else {
                        out.append(" (no such constant)");
                    }
                    offset + 2
                } else {
                    out.append("OpConstant (missing operand)");
                    offset + 1
                }
            },
            Some(op) => {
                out.append(op_name_str(op));
                offset + 1
            },
            None => {
                out.append("Unknown opcode ");
                append_decimal(out, byte as usize);
                offset + 1
            },
        };
        assert(out@ =~= before + instruction_body(code, values, offset as int));
        out.append("\n");
        assert(out@ =~= old(out)@ + instruction_line(code, values, offset as int));
        next
    }

    /// The disassembly of the whole chunk: the header line, then one line per
    /// instruction in order of offset.
    pub fn disassemble(&self, name: &str) -> (r: String)
        ensures
            r@ == header(name@) + listing(self.code@, self.values@, 0),
    {
        let ghost code = self.code@;
        let ghost values = self.values@;
        let mut out = String::from_str("== ");
        out.append(name);
        out.append(" ==\n");
        let mut offset: usize = 0;
        while offset < self.code.len()
            invariant
                code == self.code@,
                values == self.values@,
                offset <= code.len(),
                out@ + listing(code, values, offset as int) == header(name@) + listing(code, values, 0),
            decreases code.len() - offset,
        {
            let ghost prev = out@;
            let ghost at = offset as int;
            offset = self.disassemble_instruction(offset, &mut out);
            assert(out@ + listing(code, values, offset as int) =~= prev + listing(code, values, at));
        }
        assert(listing(code, values, offset as int) == Seq::<char>::empty());
        assert(out@ =~= out@ + Seq::<char>::empty());
        out
    }
}

/// The offset that the disassembler advances by is the width of the
/// instruction: one byte for an operation without operand, two for an
/// `OpConstant` and its operand byte; a byte that encodes no operation, or
/// an `OpConstant` cut short by the end of the code, counts for one byte.
pub proof fn lemma_offset_advance(code: Seq<u8>, offset: int)
    requires
        0 <= offset < code.len(),
    ensures
        decode(code[offset]) matches Some(op) ==> (op != OpCode::OpConstant || offset + 1
            < code.len() ==> next_offset(code, offset) == offset + width(op)),
        decode(code[offset]) is None ==> next_offset(code, offset) == offset + 1,
        offset < next_offset(code, offset) <= code.len(),
{
}

/// A walk over the instructions from any offset inside the code stops
/// exactly at the end of the code.
pub proof fn lemma_walk_ends_at_len(code: Seq<u8>, offset: int)
    requires
        0 <= offset <= code.len(),
    ensures
        walk_end(code, offset) == code.len(),
    decreases code.len() - offset,
{
    if offset < code.len() {
        lemma_walk_ends_at_len(code, next_offset(code, offset));
    }
}

} // verus!
