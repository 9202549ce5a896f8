//! The bytecode chunk format: a flat byte array of instructions and
//! operands, a parallel array of source lines, and a constant pool.

use vstd::prelude::*;
use vstd::string::StringExecFns;

use crate::op_code::{num_operands_spec, op_code_byte, op_name_spec, op_of_byte, OpCode};
use crate::text::{format_i64, format_usize, int_display, pad_left, pad_left_spec};

verus! {

/// One chunk of bytecode.
#[derive(Debug)]
pub struct Chunk {
    pub code: Vec<u8>,
    pub lines: Vec<usize>,
    pub constants: Vec<i64>,
    pub name: Option<&'static str>,
}

impl Chunk {
    /// An empty, unnamed chunk.
    pub fn new() -> (r: Self)
        ensures
            r.code@ == Seq::<u8>::empty(),
            r.lines@ == Seq::<usize>::empty(),
            r.constants@ == Seq::<i64>::empty(),
            r.name is None,
    {
        Chunk { code: Vec::new(), lines: Vec::new(), constants: Vec::new(), name: None }
    }

    /// An empty chunk carrying a name for diagnostics.
    pub fn new_named(name: &'static str) -> (r: Self)
        ensures
            r.code@ == Seq::<u8>::empty(),
            r.lines@ == Seq::<usize>::empty(),
            r.constants@ == Seq::<i64>::empty(),
            r.name == Some(name),
    {
        Chunk { code: Vec::new(), lines: Vec::new(), constants: Vec::new(), name: Some(name) }
    }

    /// Append one instruction byte, recording its source line.
    pub fn write_op_code(&mut self, op: OpCode, line_number: usize)
        ensures
            final(self).code@ == old(self).code@.push((op_code_byte(op)) as u8),
            final(self).lines@ == old(self).lines@.push(line_number),
            final(self).constants == old(self).constants,
            final(self).name == old(self).name,
    {
        self.code.push(op.to_byte());
        self.lines.push(line_number);
    }

    /// Append one operand byte, recording its source line.
    pub fn write_operand(&mut self, operand: u8, line_number: usize)
        ensures
            final(self).code@ == old(self).code@.push(operand),
            final(self).lines@ == old(self).lines@.push(line_number),
            final(self).constants == old(self).constants,
            final(self).name == old(self).name,
    {
        self.code.push(operand);
        self.lines.push(line_number);
    }

    /// Add a constant to the pool and return its index, as the one-byte
    /// operand the `Constant` instruction takes (an index past 255 wraps,
    /// as the byte cast does).
    pub fn add_constant(&mut self, val: i64) -> (idx: u8)
        ensures
            final(self).constants@ == old(self).constants@.push(val),
            idx as int == (old(self).constants@.len() as int) % 256,
            final(self).code == old(self).code,
            final(self).lines == old(self).lines,
            final(self).name == old(self).name,
    {
        let idx = (self.constants.len() % 256) as u8;
        self.constants.push(val);
        idx
    }

    /// Append one whole operation: the instruction byte followed by exactly
    /// the operand bytes it takes.
    pub fn write_operation<const NUM_OPERANDS: usize>(
        &mut self,
        op: OpCode,
        operands: [u8; NUM_OPERANDS],
        line_number: usize,
    )
        requires
            NUM_OPERANDS as int == num_operands_spec(op),
        ensures
            final(self).constants == old(self).constants,
            final(self).name == old(self).name,
            match op {
                OpCode::Constant => final(self).code@ == old(self).code@.push(
                    (op_code_byte(op)) as u8,
                ).push(operands@[0]) && final(self).lines@ == old(self).lines@.push(
                    line_number,
                ).push(line_number),
                _ => final(self).code@ == old(self).code@.push((op_code_byte(op)) as u8) && final(self).lines@ == old(self).lines@.push(line_number),
            },
    {
        self.write_op_code(op, line_number);
        match op {
            OpCode::Constant => {
                let operand = operands[0];
                self.write_operand(operand, line_number);
            },
            _ => {},
        }
    }
}

/// The rendering of the operation at `offset`, and the offset of the next
/// one: the padded offset, the padded source line (or a bar when it repeats
/// the previous operation's line), the mnemonic, and for a `Constant` its
/// operand and the pool entry it names.  Nothing when the bytes at `offset`
/// do not form an operation.
pub open spec fn disasm_op_spec(
    code: Seq<u8>,
    lines: Seq<usize>,
    constants: Seq<i64>,
    offset: int,
) -> Option<(Seq<char>, int)> {
    if !(0 <= offset < code.len() && offset < lines.len()) {
        None
    } else {
        match op_of_byte(code[offset] as int) {
            None => None,
            Some(op) => {
                let head = pad_left_spec(int_display(offset), 4) + (if offset > 0 && lines[offset
                    - 1] == lines[offset] {
                    "     |"@
                } else {
                    " "@ + pad_left_spec(int_display(lines[offset] as int), 5)
                }) + "	"@ + op_name_spec(op);
                if op == OpCode::Constant {
                    if offset + 1 < code.len() && (code[offset + 1] as int) < constants.len() {
                        Some(
                            (
                                head + " "@ + int_display(code[offset + 1] as int) + "	["@
                                    + int_display(code[offset + 1] as int) + "]: "@ + int_display(
                                    constants[code[offset + 1] as int] as int,
                                ) + "; "@,
                                offset + 2,
                            ),
                        )
                    } else {
                        None
                    }
                } else {
                    Some((head + "	"@, offset + 1))
                }
            },
        }
    }
}

/// All operations from `offset` to the end of the chunk, one per line.
pub open spec fn disasm_all_spec(
    code: Seq<u8>,
    lines: Seq<usize>,
    constants: Seq<i64>,
    offset: int,
) -> Option<Seq<char>>
    decreases code.len() - offset,
{
    if !(0 <= offset) {
        None
    } else if offset >= code.len() {
        Some(Seq::empty())
    } else {
        match disasm_op_spec(code, lines, constants, offset) {
            None => None,
            Some((line, next)) => if next > offset {
                match disasm_all_spec(code, lines, constants, next) {
                    None => None,
                    Some(rest) => Some(line + "
"@ + rest),
                }
            } else {
                None
            },
        }
    }
}

/// Render the operation at `offset` and return it with the offset of the
/// next operation; nothing when the bytes there do not form an operation.
pub fn disassemble_operation(chunk: &Chunk, offset: usize) -> (r: Option<(String, usize)>)
    ensures
        match r {
            Some((s, next)) => disasm_op_spec(
                chunk.code@,
                chunk.lines@,
                chunk.constants@,
                offset as int,
            ) == Some((s@, next as int)) && offset < next,
            None => disasm_op_spec(
                chunk.code@,
                chunk.lines@,
                chunk.constants@,
                offset as int,
            ) is None,
        },
{
    if !(offset < chunk.code.len() && offset < chunk.lines.len()) {
        return None;
    }
    let op = match OpCode::from_byte(chunk.code[offset]) {
        Some(op) => op,
        None => {
            return None;
        },
    };
    let head = pad_left(format_usize(offset).as_str(), 4);
    let head = if offset > 0 && chunk.lines[offset - 1] == chunk.lines[offset] {
        head.concat("     |")
    } else {
        let padded_line = pad_left(format_usize(chunk.lines[offset]).as_str(), 5);
        head.concat(" ").concat(padded_line.as_str())
    };
    let head = head.concat("	").concat(op.name());
    match op {
        OpCode::Constant => {
            if offset + 1 < chunk.code.len() && (chunk.code[offset + 1] as usize)
                < chunk.constants.len() {
                let operand = chunk.code[offset + 1];
                let rendered = head.concat(" ").concat(
                    format_usize(operand as usize).as_str(),
                ).concat("	[").concat(format_usize(operand as usize).as_str()).concat(
                    "]: ",
                ).concat(format_i64(chunk.constants[operand as usize]).as_str()).concat("; ");
                Some((rendered, offset + 2))
            } else {
                None
            }
        },
        _ => Some((head.concat("	"), offset + 1)),
    }
}

impl Chunk {
    /// Render the whole chunk, one operation per line; nothing when its
    /// bytes do not form a sequence of operations.
    pub fn disassemble(&self) -> (r: Option<String>)
        ensures
            match r {
                Some(s) => disasm_all_spec(self.code@, self.lines@, self.constants@, 0) == Some(
                    s@,
                ),
                None => disasm_all_spec(self.code@, self.lines@, self.constants@, 0) is None,
            },
    {
        self.disassemble_from(0)
    }

    /// Render every operation from `offset` on.
    fn disassemble_from(&self, offset: usize) -> (r: Option<String>)
        ensures
            match r {
                Some(s) => disasm_all_spec(
                    self.code@,
                    self.lines@,
                    self.constants@,
                    offset as int,
                ) == Some(s@),
                None => disasm_all_spec(
                    self.code@,
                    self.lines@,
                    self.constants@,
                    offset as int,
                ) is None,
            },
        decreases self.code@.len() - offset,
    {
        if offset >= self.code.len() {
            let empty = String::new();
            return Some(empty);
        }
        let (line, next) = match disassemble_operation(self, offset) {
            Some(p) => p,
            None => {
                return None;
            },
        };
        match self.disassemble_from(next) {
            Some(rest) => Some(line.concat("
").concat(rest.as_str())),
            None => None,
        }
    }
}

impl Default for Chunk {
    /// Same as `new`: an empty, unnamed chunk.
    fn default() -> (r: Self)
        ensures
            r.code@ == Seq::<u8>::empty(),
            r.lines@ == Seq::<usize>::empty(),
            r.constants@ == Seq::<i64>::empty(),
            r.name is None,
    {
        Chunk::new()
    }
}

} // verus!
