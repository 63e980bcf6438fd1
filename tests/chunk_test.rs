use rs_lox::chunk::{Chunk, OpCode};

#[test]
fn test_chunk() {
    let mut chunk = Chunk::new();
    let constant = chunk.add_constant(1.2);
    chunk.write_chunk(OpCode::OpConstant as usize, 123);
    chunk.write_chunk(constant, 123);
    chunk.write_chunk(OpCode::OpReturn as usize, 123);
    let listing = chunk.disassemble_chunk("test chunk");
    assert!(listing.is_ok());
}

#[test]
fn constants_are_appended_without_sharing() {
    let mut chunk: Chunk<f64> = Chunk::new();
    assert_eq!(chunk.add_constant(2.5), 0);
    assert_eq!(chunk.add_constant(2.5), 1);
    assert_eq!(chunk.add_constant(7.0), 2);
    assert_eq!(chunk.constant_count(), 3);
    assert_eq!(chunk.get_constant(1), 2.5);
    assert_eq!(chunk.get_constant(2), 7.0);
}

#[test]
fn opcode_bytes_round_trip() {
    let ops = [
        OpCode::OpConstant,
        OpCode::OpAdd,
        OpCode::OpSubtract,
        OpCode::OpMultiply,
        OpCode::OpDivide,
        OpCode::OpNegate,
        OpCode::OpReturn,
    ];
    for (i, op) in ops.iter().enumerate() {
        assert_eq!(op.to_byte(), i);
        assert_eq!(OpCode::try_from(i), Ok(*op));
    }
    assert_eq!(OpCode::try_from(7), Err(()));
}

#[test]
fn disassembly_lists_instructions_and_lines() {
    let mut chunk = Chunk::new();
    let c = chunk.add_constant(1.2);
    chunk.write_chunk(OpCode::OpConstant.to_byte(), 123);
    chunk.write_chunk(c, 123);
    chunk.write_chunk(OpCode::OpNegate.to_byte(), 124);
    chunk.write_chunk(OpCode::OpReturn.to_byte(), 124);
    let listing = chunk.disassemble_chunk("lines").unwrap();
    assert_eq!(listing.name, "lines");
    let ins = &listing.instructions;
    assert_eq!(ins.len(), 3);
    assert_eq!(ins[0].offset, 0);
    assert_eq!(ins[0].line, Some(123));
    assert_eq!(ins[0].op, OpCode::OpConstant);
    assert_eq!(ins[0].operand, Some(0));
    assert_eq!(ins[0].constant, Some(1.2));
    assert_eq!(ins[0].next, 2);
    assert_eq!(ins[1].offset, 2);
    assert_eq!(ins[1].line, Some(124));
    assert_eq!(ins[1].op, OpCode::OpNegate);
    assert_eq!(ins[1].next, 3);
    assert_eq!(ins[2].offset, 3);
    assert_eq!(ins[2].line, None);
    assert_eq!(ins[2].op, OpCode::OpReturn);
    assert_eq!(ins[2].next, 4);
}

#[test]
fn disassembly_is_repeatable() {
    let mut chunk = Chunk::new();
    let a = chunk.add_constant(1.2);
    let b = chunk.add_constant(3.4);
    chunk.write_chunk(OpCode::OpConstant.to_byte(), 1);
    chunk.write_chunk(a, 1);
    chunk.write_chunk(OpCode::OpConstant.to_byte(), 1);
    chunk.write_chunk(b, 1);
    chunk.write_chunk(OpCode::OpAdd.to_byte(), 2);
    chunk.write_chunk(OpCode::OpReturn.to_byte(), 2);
    let first = chunk.disassemble_chunk("twice").unwrap();
    let second = chunk.disassemble_chunk("twice").unwrap();
    assert_eq!(first.instructions.len(), second.instructions.len());
    for (x, y) in first.instructions.iter().zip(second.instructions.iter()) {
        assert_eq!(x.offset, y.offset);
        assert_eq!(x.line, y.line);
        assert_eq!(x.op, y.op);
        assert_eq!(x.operand, y.operand);
        assert_eq!(x.constant, y.constant);
        assert_eq!(x.next, y.next);
    }
    assert_eq!(chunk.code_len(), 6);
}

#[test]
fn disassembly_stops_at_unknown_opcode() {
    let mut chunk: Chunk<f64> = Chunk::new();
    chunk.write_chunk(OpCode::OpReturn.to_byte(), 1);
    chunk.write_chunk(42, 1);
    assert!(chunk.disassemble_instruction(1).is_none());
    assert_eq!(chunk.disassemble_chunk("bad").err(), Some(1));
}

#[test]
fn disassembly_rejects_missing_operand() {
    let mut chunk: Chunk<f64> = Chunk::new();
    chunk.write_chunk(OpCode::OpConstant.to_byte(), 1);
    assert!(chunk.disassemble_instruction(0).is_none());
    assert_eq!(chunk.disassemble_chunk("short").err(), Some(0));
}
