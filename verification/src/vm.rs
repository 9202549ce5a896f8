//! The stack virtual machine: a single-pass interpreter for arithmetic
//! bytecode.  `vm_run_spec` is the machine's small-step semantics; `run` is
//! proved to return exactly what it says.  Any fault — an instruction
//! pointer past the end, an undecodable byte, a missing operand or
//! constant, stack overflow or underflow, division by zero — halts the
//! machine with an error.

use vstd::prelude::*;

use crate::chunk::Chunk;
use crate::op_code::{op_of_byte, OpCode};
use crate::semantics::{wrap_add_v, wrap_div_v, wrap_mul_v, wrap_neg_v, wrap_sub_v};

verus! {

/// The machine rejects pushes past this stack depth.
pub const STACK_MAX: usize = 256;

/// What the machine computes from instruction pointer `ip` with the given
/// stack: the value returned by the first `Return` instruction, or a fault.
pub open spec fn vm_run_spec(code: Seq<u8>, constants: Seq<i64>, ip: int, stack: Seq<i64>) -> Result<
    i64,
    (),
>
    decreases code.len() - ip,
{
    if !(0 <= ip < code.len()) {
        Err(())
    } else {
        match op_of_byte(code[ip] as int) {
            None => Err(()),
            Some(op) => match op {
                OpCode::Return => {
                    if stack.len() >= 1 {
                        Ok(stack.last())
                    } else {
                        Err(())
                    }
                },
                OpCode::Constant => {
                    if ip + 1 < code.len() && (code[ip + 1] as int) < constants.len() && stack.len()
                        < STACK_MAX {
                        vm_run_spec(code, constants, ip + 2, stack.push(constants[code[ip + 1] as int]))
                    } else {
                        Err(())
                    }
                },
                OpCode::Negate => {
                    if stack.len() >= 1 {
                        vm_run_spec(
                            code,
                            constants,
                            ip + 1,
                            stack.drop_last().push((wrap_neg_v(stack.last() as int)) as i64),
                        )
                    } else {
                        Err(())
                    }
                },
                OpCode::Add => {
                    if stack.len() >= 2 {
                        vm_run_spec(
                            code,
                            constants,
                            ip + 1,
                            stack.drop_last().drop_last().push(
                                (wrap_add_v(
                                    stack[stack.len() - 2] as int,
                                    stack.last() as int,
                                )) as i64,
                            ),
                        )
                    } else {
                        Err(())
                    }
                },
                OpCode::Subtract => {
                    if stack.len() >= 2 {
                        vm_run_spec(
                            code,
                            constants,
                            ip + 1,
                            stack.drop_last().drop_last().push(
                                (wrap_sub_v(
                                    stack[stack.len() - 2] as int,
                                    stack.last() as int,
                                )) as i64,
                            ),
                        )
                    } else {
                        Err(())
                    }
                },
                OpCode::Multiply => {
                    if stack.len() >= 2 {
                        vm_run_spec(
                            code,
                            constants,
                            ip + 1,
                            stack.drop_last().drop_last().push(
                                (wrap_mul_v(
                                    stack[stack.len() - 2] as int,
                                    stack.last() as int,
                                )) as i64,
                            ),
                        )
                    } else {
                        Err(())
                    }
                },
                OpCode::Divide => {
                    if stack.len() >= 2 && stack.last() != 0 {
                        vm_run_spec(
                            code,
                            constants,
                            ip + 1,
                            stack.drop_last().drop_last().push(
                                (wrap_div_v(
                                    stack[stack.len() - 2] as int,
                                    stack.last() as int,
                                )) as i64,
                            ),
                        )
                    } else {
                        Err(())
                    }
                },
            },
        }
    }
}

/// The virtual machine: a chunk, an instruction pointer, and the value
/// stack.
#[derive(Debug)]
pub struct VM {
    pub chunk: Chunk,
    pub instruction_pointer: usize,
    pub stack: Vec<i64>,
}

impl VM {
    /// A machine ready to run `chunk` from its first instruction, with an
    /// empty stack.
    pub fn new(chunk: Chunk) -> (r: Self)
        ensures
            r.chunk == chunk,
            r.instruction_pointer == 0,
            r.stack@ == Seq::<i64>::empty(),
    {
        VM { chunk, instruction_pointer: 0, stack: Vec::new() }
    }

    /// Push a value, faulting past the stack bound.
    fn push(&mut self, value: i64) -> (r: Result<(), ()>)
        ensures
            final(self).chunk == old(self).chunk,
            final(self).instruction_pointer == old(self).instruction_pointer,
            match r {
                Ok(_) => old(self).stack@.len() < STACK_MAX && final(self).stack@ == old(self).stack@.push(value),
                Err(_) => old(self).stack@.len() >= STACK_MAX && final(self).stack == old(self).stack,
            },
    {
        if self.stack.len() < STACK_MAX {
            self.stack.push(value);
            Ok(())
        } else {
            Err(())
        }
    }

    /// Pop a value, faulting on an empty stack.
    fn pop(&mut self) -> (r: Result<i64, ()>)
        ensures
            final(self).chunk == old(self).chunk,
            final(self).instruction_pointer == old(self).instruction_pointer,
            match r {
                Ok(v) => old(self).stack@.len() >= 1 && v == old(self).stack@.last() && final(self).stack@ == old(self).stack@.drop_last(),
                Err(_) => old(self).stack@.len() == 0 && final(self).stack@ == old(self).stack@,
            },
    {
        match self.stack.pop() {
            Some(v) => Ok(v),
            None => Err(()),
        }
    }

    /// Read and decode the instruction under the pointer, advancing it.
    fn read_op(&mut self) -> (r: Result<OpCode, ()>)
        ensures
            final(self).chunk == old(self).chunk,
            final(self).stack == old(self).stack,
            match r {
                Ok(op) => old(self).instruction_pointer < old(self).chunk.code@.len() && op_of_byte(
                    old(self).chunk.code@[old(self).instruction_pointer as int] as int,
                ) == Some(op) && final(self).instruction_pointer == old(self).instruction_pointer
                    + 1,
                Err(_) => !(old(self).instruction_pointer < old(self).chunk.code@.len())
                    || op_of_byte(
                    old(self).chunk.code@[old(self).instruction_pointer as int] as int,
                ) is None,
            },
    {
        if self.instruction_pointer >= self.chunk.code.len() {
            return Err(());
        }
        let b = self.chunk.code[self.instruction_pointer];
        match OpCode::from_byte(b) {
            Some(op) => {
                self.instruction_pointer = self.instruction_pointer + 1;
                Ok(op)
            },
            None => Err(()),
        }
    }

    /// Read the operand byte under the pointer and fetch the constant it
    /// indexes, advancing the pointer.
    fn read_constant(&mut self) -> (r: Result<i64, ()>)
        ensures
            final(self).chunk == old(self).chunk,
            final(self).stack == old(self).stack,
            match r {
                Ok(v) => old(self).instruction_pointer < old(self).chunk.code@.len() && (old(self).chunk.code@[old(self).instruction_pointer as int] as int) < old(self).chunk.constants@.len() && v == old(self).chunk.constants@[old(self).chunk.code@[old(self).instruction_pointer as int] as int] && final(self).instruction_pointer == old(self).instruction_pointer + 1,
                Err(_) => !(old(self).instruction_pointer < old(self).chunk.code@.len()) || !((old(self).chunk.code@[old(self).instruction_pointer as int] as int) < old(self).chunk.constants@.len()),
            },
    {
        if self.instruction_pointer >= self.chunk.code.len() {
            return Err(());
        }
        let idx = self.chunk.code[self.instruction_pointer];
        if (idx as usize) < self.chunk.constants.len() {
            self.instruction_pointer = self.instruction_pointer + 1;
            Ok(self.chunk.constants[idx as usize])
        } else {
            Err(())
        }
    }

    /// Pop two operands, apply an arithmetic instruction, push the result.
    fn binary_op(&mut self, op: OpCode) -> (r: Result<(), ()>)
        requires
            op == OpCode::Add || op == OpCode::Subtract || op == OpCode::Multiply || op
                == OpCode::Divide,
            old(self).stack@.len() <= STACK_MAX,
        ensures
            final(self).chunk == old(self).chunk,
            final(self).instruction_pointer == old(self).instruction_pointer,
            ({
                let stack = old(self).stack@;
                if stack.len() >= 2 && (op != OpCode::Divide || stack.last() != 0) {
                    r is Ok && final(self).stack@.len() <= STACK_MAX && final(self).stack@
                        == stack.drop_last().drop_last().push(
                        ((match op {
                            OpCode::Add => wrap_add_v(stack[stack.len() - 2] as int, stack.last() as int),
                            OpCode::Subtract => wrap_sub_v(
                                stack[stack.len() - 2] as int,
                                stack.last() as int,
                            ),
                            OpCode::Multiply => wrap_mul_v(
                                stack[stack.len() - 2] as int,
                                stack.last() as int,
                            ),
                            _ => wrap_div_v(stack[stack.len() - 2] as int, stack.last() as int),
                        }) as i64),
                    )
                } else {
                    r is Err
                }
            }),
    {
        let b = self.pop()?;
        let a = self.pop()?;
        let v: i64 = match op {
            OpCode::Add => a.wrapping_add(b),
            OpCode::Subtract => a.wrapping_sub(b),
            OpCode::Multiply => a.wrapping_mul(b),
            _ => {
                if b == 0 {
                    return Err(());
                }
                crate::interpreter::div_i64(a, b)
            },
        };
        match self.push(v) {
            Ok(_) => Ok(()),
            Err(_) => Err(()),
        }
    }

    /// Run the machine to its first `Return` instruction or to a fault; the
    /// result is exactly what the machine's semantics says for the state
    /// the run started in.
    pub fn run(&mut self) -> (r: Result<i64, ()>)
        requires
            old(self).stack@.len() <= STACK_MAX,
        ensures
            r == vm_run_spec(
                old(self).chunk.code@,
                old(self).chunk.constants@,
                old(self).instruction_pointer as int,
                old(self).stack@,
            ),
        decreases old(self).chunk.code@.len() - old(self).instruction_pointer,
    {
        let op = match self.read_op() {
            Ok(op) => op,
            Err(_) => {
                return Err(());
            },
        };
        match op {
            OpCode::Return => {
                match self.pop() {
                    Ok(v) => Ok(v),
                    Err(_) => Err(()),
                }
            },
            OpCode::Constant => {
                let c = match self.read_constant() {
                    Ok(c) => c,
                    Err(_) => {
                        return Err(());
                    },
                };
                match self.push(c) {
                    Ok(_) => {},
                    Err(_) => {
                        return Err(());
                    },
                }
                self.run()
            },
            OpCode::Negate => {
                let v = match self.pop() {
                    Ok(v) => v,
                    Err(_) => {
                        return Err(());
                    },
                };
                let n: i64 = if v == i64::MIN {
                    i64::MIN
                } else {
                    -v
                };
                match self.push(n) {
                    Ok(_) => {},
                    Err(_) => {
                        return Err(());
                    },
                }
                self.run()
            },
            _ => {
                match self.binary_op(op) {
                    Ok(_) => {},
                    Err(_) => {
                        return Err(());
                    },
                }
                self.run()
            },
        }
    }

    /// Load a chunk, reset the instruction pointer, and run it.
    pub fn interpret(&mut self, chunk: Chunk) -> (r: Result<i64, ()>)
        requires
            old(self).stack@.len() <= STACK_MAX,
        ensures
            r == vm_run_spec(chunk.code@, chunk.constants@, 0, old(self).stack@),
    {
        self.chunk = chunk;
        self.instruction_pointer = 0;
        self.run()
    }
}

} // verus!
