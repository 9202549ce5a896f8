//! The bytecode chunk format, its scanner-facing pieces, and the stack
//! virtual machine.

use lof_lang::chunk::Chunk;
use lof_lang::op_code::OpCode;
use lof_lang::precedence::Precedence;
use lof_lang::scanner::Scanner;
use lof_lang::token::TokenKind;
use lof_lang::vm::VM;

#[test]
fn arithmetic() {
    {
        let mut chunk = Chunk::new_named("Negation");
        let const_offset = chunk.add_constant(42);
        chunk.write_operation(OpCode::Constant, [const_offset], 1);
        chunk.write_operation(OpCode::Negate, [], 1);
        chunk.write_operation(OpCode::Return, [], 1);
        let mut vm = VM::new(chunk);
        assert_eq!(vm.run(), Ok(-42));
    }
    {
        let mut chunk = Chunk::new_named("Addition");
        let a_offset = chunk.add_constant(3);
        let b_offset = chunk.add_constant(1);
        chunk.write_operation(OpCode::Constant, [a_offset], 1);
        chunk.write_operation(OpCode::Constant, [b_offset], 1);
        chunk.write_operation(OpCode::Add, [], 1);
        chunk.write_operation(OpCode::Return, [], 1);
        let mut vm = VM::new(chunk);
        assert_eq!(vm.run(), Ok(4));
    }
    {
        // (a + b) * (c - d)
        let (a, b, c, d) = (1i64, 2i64, 3i64, 5i64);
        let mut chunk = Chunk::new_named("(a + b) * (c - d)");
        let a_offset = chunk.add_constant(a);
        let b_offset = chunk.add_constant(b);
        let c_offset = chunk.add_constant(c);
        let d_offset = chunk.add_constant(d);
        chunk.write_operation(OpCode::Constant, [a_offset], 1);
        chunk.write_operation(OpCode::Constant, [b_offset], 1);
        chunk.write_operation(OpCode::Add, [], 1);
        chunk.write_operation(OpCode::Constant, [c_offset], 1);
        chunk.write_operation(OpCode::Constant, [d_offset], 1);
        chunk.write_operation(OpCode::Subtract, [], 1);
        chunk.write_operation(OpCode::Multiply, [], 1);
        chunk.write_operation(OpCode::Return, [], 1);
        let mut vm = VM::new(chunk);
        assert_eq!(vm.run(), Ok((a + b) * (c - d)));
    }
}

#[test]
fn division_and_interpret() {
    let mut chunk = Chunk::new();
    let a = chunk.add_constant(7);
    let b = chunk.add_constant(2);
    chunk.write_operation(OpCode::Constant, [a], 1);
    chunk.write_operation(OpCode::Constant, [b], 1);
    chunk.write_operation(OpCode::Divide, [], 1);
    chunk.write_operation(OpCode::Return, [], 1);
    let mut vm = VM::new(Chunk::new());
    assert_eq!(vm.interpret(chunk), Ok(3));
}

#[test]
fn division_by_zero_faults_the_machine() {
    let mut chunk = Chunk::new();
    let a = chunk.add_constant(7);
    let b = chunk.add_constant(0);
    chunk.write_operation(OpCode::Constant, [a], 1);
    chunk.write_operation(OpCode::Constant, [b], 1);
    chunk.write_operation(OpCode::Divide, [], 1);
    chunk.write_operation(OpCode::Return, [], 1);
    let mut vm = VM::new(chunk);
    assert_eq!(vm.run(), Err(()));
}

#[test]
fn running_off_the_end_faults_the_machine() {
    let mut chunk = Chunk::new();
    let a = chunk.add_constant(7);
    chunk.write_operation(OpCode::Constant, [a], 1);
    let mut vm = VM::new(chunk);
    assert_eq!(vm.run(), Err(()));
}

#[test]
fn popping_an_empty_stack_faults_the_machine() {
    let mut chunk = Chunk::new();
    chunk.write_operation(OpCode::Negate, [], 1);
    let mut vm = VM::new(chunk);
    assert_eq!(vm.run(), Err(()));
}

#[test]
fn chunk_encoding_lays_out_operations_and_lines() {
    let mut chunk = Chunk::new();
    assert_eq!(chunk.add_constant(42), 0);
    assert_eq!(chunk.add_constant(7), 1);
    chunk.write_operation(OpCode::Constant, [0], 3);
    chunk.write_operation(OpCode::Return, [], 4);
    assert_eq!(chunk.code, vec![OpCode::Constant.to_byte(), 0, OpCode::Return.to_byte()]);
    assert_eq!(chunk.lines, vec![3, 3, 4]);
    assert_eq!(chunk.constants, vec![42, 7]);
}

#[test]
fn op_codes_round_trip_through_their_bytes() {
    let ops = [
        OpCode::Return,
        OpCode::Constant,
        OpCode::Negate,
        OpCode::Add,
        OpCode::Subtract,
        OpCode::Multiply,
        OpCode::Divide,
    ];
    for op in ops {
        assert_eq!(OpCode::from_byte(op.to_byte()), Some(op));
    }
    assert_eq!(OpCode::from_byte(200), None);
    assert_eq!(OpCode::Constant.num_operands(), 1);
    assert_eq!(OpCode::Add.num_operands(), 0);
}

#[test]
fn precedence_steps_upward() {
    assert_eq!(Precedence::Lowest.next(), Precedence::Assignment);
    assert_eq!(Precedence::Term.next(), Precedence::Factor);
    assert_eq!(Precedence::Call.next(), Precedence::Primary);
}

#[test]
fn a_few_tokens_scan_in_order() {
    let tokens = Scanner::new("1 + 2 * 3").scan_tokens();
    let kinds: Vec<TokenKind> = tokens.iter().map(|t| t.as_ref().unwrap().kind).collect();
    assert_eq!(
        kinds,
        vec![
            TokenKind::Literal,
            TokenKind::Plus,
            TokenKind::Literal,
            TokenKind::Star,
            TokenKind::Literal,
            TokenKind::Eof,
        ],
    );
    // ids are unique and strictly increasing
    for pair in tokens.windows(2) {
        assert!(pair[0].as_ref().unwrap().id < pair[1].as_ref().unwrap().id);
    }
}

#[test]
fn keywords_scan_as_keywords() {
    let tokens = Scanner::new("var x = while_y").scan_tokens();
    let kinds: Vec<TokenKind> = tokens.iter().map(|t| t.as_ref().unwrap().kind).collect();
    assert_eq!(
        kinds,
        vec![
            TokenKind::Var,
            TokenKind::Identifier,
            TokenKind::Equal,
            TokenKind::Identifier,
            TokenKind::Eof,
        ],
    );
}

#[test]
fn disassembly_renders_offsets_lines_and_mnemonics() {
    let mut chunk = Chunk::new();
    let off = chunk.add_constant(42);
    chunk.write_operation(OpCode::Constant, [off], 7);
    chunk.write_operation(OpCode::Negate, [], 7);
    chunk.write_operation(OpCode::Return, [], 8);
    let text = chunk.disassemble().unwrap();
    assert_eq!(
        text,
        "   0     7\tCONSTANT 0\t[0]: 42; \n   2     |\tNEGATE\t\n   3     8\tRETURN\t\n",
    );
}

#[test]
fn disassembly_rejects_bytes_that_are_no_operation() {
    let mut chunk = Chunk::new();
    chunk.write_operand(200, 1);
    assert!(chunk.disassemble().is_none());
    assert!(lof_lang::chunk::disassemble_operation(&chunk, 0).is_none());
}
