//! The instruction set of the bytecode virtual machine, and its one-byte
//! encoding.

use vstd::prelude::*;

verus! {

/// One virtual-machine instruction.
#[derive(Debug, Clone, Copy, PartialEq, Eq, Structural)]
pub enum OpCode {
    Return,
    Constant,
    Negate,
    Add,
    Subtract,
    Multiply,
    Divide,
}

/// The byte each instruction is encoded as.
pub open spec fn op_code_byte(op: OpCode) -> int {
    match op {
        OpCode::Return => 0,
        OpCode::Constant => 1,
        OpCode::Negate => 2,
        OpCode::Add => 3,
        OpCode::Subtract => 4,
        OpCode::Multiply => 5,
        OpCode::Divide => 6,
    }
}

/// The instruction a byte decodes to, if any.
pub open spec fn op_of_byte(b: int) -> Option<OpCode> {
    if b == 0 {
        Some(OpCode::Return)
    } else if b == 1 {
        Some(OpCode::Constant)
    } else if b == 2 {
        Some(OpCode::Negate)
    } else if b == 3 {
        Some(OpCode::Add)
    } else if b == 4 {
        Some(OpCode::Subtract)
    } else if b == 5 {
        Some(OpCode::Multiply)
    } else if b == 6 {
        Some(OpCode::Divide)
    } else {
        None
    }
}

/// The mnemonic an instruction is rendered as.
pub open spec fn op_name_spec(op: OpCode) -> Seq<char> {
    match op {
        OpCode::Return => "RETURN"@,
        OpCode::Constant => "CONSTANT"@,
        OpCode::Negate => "NEGATE"@,
        OpCode::Add => "ADD"@,
        OpCode::Subtract => "SUBTRACT"@,
        OpCode::Multiply => "MULTIPLY"@,
        OpCode::Divide => "DIVIDE"@,
    }
}

/// How many operand bytes follow an instruction.
pub open spec fn num_operands_spec(op: OpCode) -> int {
    match op {
        OpCode::Constant => 1,
        _ => 0,
    }
}

impl OpCode {
    /// Encode the instruction as its byte.
    pub fn to_byte(self) -> (b: u8)
        ensures
            b as int == op_code_byte(self),
            op_of_byte(b as int) == Some(self),
    {
        match self {
            OpCode::Return => 0,
            OpCode::Constant => 1,
            OpCode::Negate => 2,
            OpCode::Add => 3,
            OpCode::Subtract => 4,
            OpCode::Multiply => 5,
            OpCode::Divide => 6,
        }
    }

    /// Decode a byte to an instruction, if it is one.
    pub fn from_byte(b: u8) -> (r: Option<OpCode>)
        ensures
            r == op_of_byte(b as int),
    {
        if b == 0 {
            Some(OpCode::Return)
        } else if b == 1 {
            Some(OpCode::Constant)
        } else if b == 2 {
            Some(OpCode::Negate)
        } else if b == 3 {
            Some(OpCode::Add)
        } else if b == 4 {
            Some(OpCode::Subtract)
        } else if b == 5 {
            Some(OpCode::Multiply)
        } else if b == 6 {
            Some(OpCode::Divide)
        } else {
            None
        }
    }

    /// The mnemonic this instruction is rendered as.
    pub fn name(&self) -> (r: &'static str)
        ensures
            r@ == op_name_spec(*self),
    {
        match *self {
            OpCode::Return => "RETURN",
            OpCode::Constant => "CONSTANT",
            OpCode::Negate => "NEGATE",
            OpCode::Add => "ADD",
            OpCode::Subtract => "SUBTRACT",
            OpCode::Multiply => "MULTIPLY",
            OpCode::Divide => "DIVIDE",
        }
    }

    /// How many operand bytes follow this instruction.
    pub fn num_operands(&self) -> (n: usize)
        ensures
            n as int == num_operands_spec(*self),
    {
        match *self {
            OpCode::Constant => 1,
            _ => 0,
        }
    }
}

} // verus!
