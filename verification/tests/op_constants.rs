use viskum::chunk::Chunk;
use viskum::opcodes::OpCode;
use viskum::value::Value;
use viskum::vm::VM;

fn float(x: f64) -> Value {
    Value::Float64(x.to_bits())
}

#[test]
fn test_op_constant() {
    let mut vm = VM::new();
    let mut chunk = Chunk::new();

    let constant = 123.456;
    chunk.write_constant(float(constant), 1);
    chunk.write_byte(OpCode::OpReturn.into(), 1);

    assert_eq!(chunk.read_constant(0), float(constant));

    vm.free_chunk();
    chunk.free();
}

#[test]
fn test_op_constant_long() {
    let mut vm = VM::new();
    let mut chunk = Chunk::new();

    // Add enough constants to pass the range of a one-byte index.
    for i in 0..257 {
        chunk.write_constant(float(i as f64), 1);
    }

    let constant = 123.456;
    chunk.write_constant(float(constant), 1);
    chunk.write_byte(OpCode::OpReturn.into(), 1);

    assert_eq!(chunk.read_constant(257), float(constant));

    vm.free_vm();
    chunk.free();
}
