use rs_lox::chunk::{Chunk, OpCode};
use rs_lox::vm::{InterpretResult, Step, VM};

fn execute(chunk: &Chunk<f64>) -> Result<f64, InterpretResult> {
    let mut vm = VM::new();
    let mut step = vm.interpret(chunk);
    loop {
        match step {
            Step::Binary(op, a, b) => {
                let v = match op {
                    OpCode::OpAdd => a + b,
                    OpCode::OpSubtract => a - b,
                    OpCode::OpMultiply => a * b,
                    _ => a / b,
                };
                vm.push_stack(v);
            }
            Step::Negate(a) => vm.push_stack(-a),
            Step::Done(v) => return Ok(v),
            Step::Fault(r) => return Err(r),
        }
        step = vm.run();
    }
}

fn push_constant(chunk: &mut Chunk<f64>, value: f64) {
    let i = chunk.add_constant(value);
    chunk.write_chunk(OpCode::OpConstant.to_byte(), 1);
    chunk.write_chunk(i, 1);
}

#[test]
fn constant_round_trip() {
    let mut chunk = Chunk::new();
    chunk.add_constant(9.0);
    let i = chunk.add_constant(42.5);
    chunk.write_chunk(OpCode::OpConstant.to_byte(), 1);
    chunk.write_chunk(i, 1);
    chunk.write_chunk(OpCode::OpReturn.to_byte(), 1);
    let mut vm = VM::new();
    assert_eq!(vm.interpret(&chunk), Step::Done(42.5));
}

#[test]
fn arithmetic_scenario() {
    let mut chunk = Chunk::new();
    push_constant(&mut chunk, 1.2);
    push_constant(&mut chunk, 3.4);
    chunk.write_chunk(OpCode::OpAdd.to_byte(), 1);
    push_constant(&mut chunk, 5.6);
    chunk.write_chunk(OpCode::OpDivide.to_byte(), 1);
    chunk.write_chunk(OpCode::OpNegate.to_byte(), 1);
    chunk.write_chunk(OpCode::OpReturn.to_byte(), 1);
    let v = execute(&chunk).unwrap();
    assert_eq!(v, -((1.2f64 + 3.4) / 5.6));
    assert!((v - -0.8214285714285714).abs() < 1e-12);
}

#[test]
fn binary_operands_keep_source_order() {
    let mut chunk = Chunk::new();
    push_constant(&mut chunk, 5.0);
    push_constant(&mut chunk, 3.0);
    chunk.write_chunk(OpCode::OpSubtract.to_byte(), 1);
    chunk.write_chunk(OpCode::OpReturn.to_byte(), 1);
    let mut vm = VM::new();
    assert_eq!(vm.interpret(&chunk), Step::Binary(OpCode::OpSubtract, 5.0, 3.0));
    assert_eq!(execute(&chunk), Ok(2.0));
}

#[test]
fn multiply_and_divide() {
    let mut chunk = Chunk::new();
    push_constant(&mut chunk, 6.0);
    push_constant(&mut chunk, 4.0);
    chunk.write_chunk(OpCode::OpMultiply.to_byte(), 1);
    push_constant(&mut chunk, 8.0);
    chunk.write_chunk(OpCode::OpDivide.to_byte(), 1);
    chunk.write_chunk(OpCode::OpReturn.to_byte(), 1);
    assert_eq!(execute(&chunk), Ok(3.0));
}

#[test]
fn division_by_zero_is_not_an_error() {
    let mut chunk = Chunk::new();
    push_constant(&mut chunk, 1.0);
    push_constant(&mut chunk, 0.0);
    chunk.write_chunk(OpCode::OpDivide.to_byte(), 1);
    chunk.write_chunk(OpCode::OpReturn.to_byte(), 1);
    assert_eq!(execute(&chunk), Ok(f64::INFINITY));
}

#[test]
fn empty_chunk_faults() {
    let chunk: Chunk<f64> = Chunk::new();
    let mut vm = VM::new();
    assert_eq!(vm.interpret(&chunk), Step::Fault(InterpretResult::InterpretRuntimeError));
}

#[test]
fn add_on_empty_stack_faults() {
    let mut chunk: Chunk<f64> = Chunk::new();
    chunk.write_chunk(OpCode::OpAdd.to_byte(), 1);
    chunk.write_chunk(OpCode::OpReturn.to_byte(), 1);
    let mut vm = VM::new();
    assert_eq!(vm.interpret(&chunk), Step::Fault(InterpretResult::InterpretRuntimeError));
}

#[test]
fn return_on_empty_stack_faults() {
    let mut chunk: Chunk<f64> = Chunk::new();
    chunk.write_chunk(OpCode::OpReturn.to_byte(), 1);
    assert_eq!(execute(&chunk), Err(InterpretResult::InterpretRuntimeError));
}

#[test]
fn unknown_opcode_is_compile_error() {
    let mut chunk: Chunk<f64> = Chunk::new();
    chunk.write_chunk(99, 1);
    assert_eq!(execute(&chunk), Err(InterpretResult::InterpretCompilerError));
}

#[test]
fn missing_constant_faults() {
    let mut chunk: Chunk<f64> = Chunk::new();
    chunk.write_chunk(OpCode::OpConstant.to_byte(), 1);
    chunk.write_chunk(3, 1);
    chunk.write_chunk(OpCode::OpReturn.to_byte(), 1);
    assert_eq!(execute(&chunk), Err(InterpretResult::InterpretRuntimeError));
}

#[test]
fn code_ending_without_return_faults() {
    let mut chunk = Chunk::new();
    push_constant(&mut chunk, 1.0);
    assert_eq!(execute(&chunk), Err(InterpretResult::InterpretRuntimeError));
}

#[test]
fn init_then_run_starts_at_pointer() {
    let mut chunk = Chunk::new();
    push_constant(&mut chunk, 2.0);
    chunk.write_chunk(OpCode::OpReturn.to_byte(), 1);
    let mut vm = VM::new();
    vm.init(&chunk);
    assert_eq!(vm.run(), Step::Done(2.0));
}
