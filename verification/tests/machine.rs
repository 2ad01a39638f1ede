use viskum::float::{ArithOp, FloatAnswer, FloatMemo, FloatTask, Number, Order};
use viskum::value::Value;
use viskum::chunk::Chunk;
use viskum::compiler::{compile, CompileFailed};
use viskum::opcodes::OpCode;
use viskum::value::{ValueType, VariableDefinition};
use viskum::vm::{InterpretResult, Output, Progress, VM};

fn to_float(n: Number) -> f64 {
    match n {
        Number::Int(i) => i as f64,
        Number::Float(bits) => f64::from_bits(bits),
    }
}

fn perform(task: &FloatTask) -> FloatAnswer {
    match task {
        FloatTask::Parse(text) => match text.parse::<f64>() {
            Ok(x) => FloatAnswer::Bits(x.to_bits()),
            Err(_) => FloatAnswer::Invalid,
        },
        FloatTask::Negate(bits) => FloatAnswer::Bits((-f64::from_bits(*bits)).to_bits()),
        FloatTask::Arith(op, a, b) => {
            let x = to_float(*a);
            let y = to_float(*b);
            let z = match op {
                ArithOp::Add => x + y,
                ArithOp::Subtract => x - y,
                ArithOp::Multiply => x * y,
                ArithOp::Divide => x / y,
                ArithOp::Power => x.powf(y),
            };
            FloatAnswer::Bits(z.to_bits())
        }
        FloatTask::Compare(a, b) => {
            let order = f64::from_bits(*a).partial_cmp(&f64::from_bits(*b));
            FloatAnswer::Ordered(order.map(|o| match o {
                std::cmp::Ordering::Less => Order::Less,
                std::cmp::Ordering::Equal => Order::Equal,
                std::cmp::Ordering::Greater => Order::Greater,
            }))
        }
        FloatTask::Display(bits) => FloatAnswer::Text(f64::from_bits(*bits).to_string()),
    }
}

fn drive(vm: &mut VM, source: &str, debug: bool) -> InterpretResult {
    let mut memo = FloatMemo::new();
    let mut progress = if debug {
        vm.interpret_debug(source, &memo)
    } else {
        vm.interpret(source, &memo)
    };
    loop {
        match progress {
            Progress::Done(result) => return result,
            Progress::Float(task) => {
                let literal = matches!(task, FloatTask::Parse(_));
                let answer = perform(&task);
                memo.record(task, answer);
                progress = if literal {
                    if debug {
                        vm.interpret_debug(source, &memo)
                    } else {
                        vm.interpret(source, &memo)
                    }
                } else {
                    vm.resume(&memo)
                };
            }
        }
    }
}

fn interpret(vm: &mut VM, source: &str) -> InterpretResult {
    drive(vm, source, true)
}

fn float(x: f64) -> Value {
    Value::Float64(x.to_bits())
}

fn run(vm: &mut VM, source: &str) -> InterpretResult {
    drive(vm, source, false)
}

fn run_chunk(vm: &mut VM, chunk: Chunk, debug: bool) -> InterpretResult {
    let mut memo = FloatMemo::new();
    let mut progress = vm.interpret_chunk(chunk, debug, &memo);
    loop {
        match progress {
            Progress::Done(result) => return result,
            Progress::Float(task) => {
                let answer = perform(&task);
                memo.record(task, answer);
                progress = vm.resume(&memo);
            }
        }
    }
}

fn emit(chunk: &mut Chunk, op: OpCode, line: usize) {
    chunk.write_byte(op.into(), line);
}

#[test]
fn precedence_and_associativity() {
    let mut vm = VM::new();
    assert_eq!(interpret(&mut vm, "8 * (7 + 1) / 2 - 1 * 2"), InterpretResult::Debug(float(30.0)));
    assert_eq!(interpret(&mut vm, "2 ^ 3"), InterpretResult::Debug(float(8.0)));
    assert_eq!(interpret(&mut vm, "10 - 4 - 3"), InterpretResult::Debug(Value::Int32(3)));
    assert_eq!(interpret(&mut vm, "2 + 3 * 4"), InterpretResult::Debug(Value::Int32(14)));
    assert_eq!(interpret(&mut vm, "1 + 2 == 3"), InterpretResult::Debug(Value::Bool(true)));
    assert_eq!(interpret(&mut vm, "1 < 2 == true"), InterpretResult::Debug(Value::Bool(true)));
    assert_eq!(interpret(&mut vm, "-2 * 3"), InterpretResult::Debug(Value::Int32(-6)));
    assert_eq!(interpret(&mut vm, "2 * 3 ^ 2"), InterpretResult::Debug(float(36.0)));
}

#[test]
fn number_literals_have_the_narrowest_type() {
    let mut vm = VM::new();
    assert_eq!(interpret(&mut vm, "5"), InterpretResult::Debug(Value::Int32(5)));
    assert_eq!(interpret(&mut vm, "2147483647"), InterpretResult::Debug(Value::Int32(2147483647)));
    assert_eq!(interpret(&mut vm, "2147483648"), InterpretResult::Debug(Value::Int64(2147483648)));
    assert_eq!(
        interpret(&mut vm, "99999999999"),
        InterpretResult::Debug(Value::Int64(99999999999))
    );
    assert_eq!(
        interpret(&mut vm, "9223372036854775807"),
        InterpretResult::Debug(Value::Int64(9223372036854775807))
    );
    assert_eq!(
        interpret(&mut vm, "9223372036854775808"),
        InterpretResult::Debug(float(9223372036854775808.0))
    );
    assert_eq!(interpret(&mut vm, "1.5"), InterpretResult::Debug(float(1.5)));
    assert_eq!(interpret(&mut vm, "007"), InterpretResult::Debug(Value::Int32(7)));
}

#[test]
fn a_float_literal_is_asked_of_the_host() {
    let memo = FloatMemo::new();
    match compile("1.5", &memo) {
        Err(CompileFailed::Float(FloatTask::Parse(text))) => assert_eq!(text, "1.5"),
        other => panic!("unexpected: {:?}", other),
    }
    let mut vm = VM::new();
    assert_eq!(
        vm.interpret("1.5", &memo),
        Progress::Float(FloatTask::Parse("1.5".to_string()))
    );
    assert!(!vm.is_suspended());
    let mut memo = FloatMemo::new();
    memo.record(FloatTask::Parse("1.5".to_string()), FloatAnswer::Invalid);
    let chunk = compile("1.5", &memo).unwrap();
    assert_eq!(chunk.constant_count(), 0);
}

#[test]
fn a_float_operation_suspends_the_run() {
    let mut vm = VM::new();
    let mut memo = FloatMemo::new();
    let progress = vm.interpret_debug("8 / 2", &memo);
    let task = FloatTask::Arith(ArithOp::Divide, Number::Int(8), Number::Int(2));
    assert_eq!(progress, Progress::Float(task.clone()));
    assert!(vm.is_suspended());
    assert_eq!(vm.get_stack(), &vec![Value::Int32(8), Value::Int32(2)]);
    memo.record(task, FloatAnswer::Bits(4.0f64.to_bits()));
    assert_eq!(vm.resume(&memo), Progress::Done(InterpretResult::Debug(float(4.0))));
    assert!(!vm.is_suspended());
}

#[test]
fn coercion_in_programs() {
    let mut vm = VM::new();
    assert_eq!(interpret(&mut vm, "1 + 2"), InterpretResult::Debug(Value::Int32(3)));
    assert_eq!(interpret(&mut vm, "1 + 2.5"), InterpretResult::Debug(float(3.5)));
    assert_eq!(interpret(&mut vm, "2.5 + 1"), InterpretResult::Debug(float(3.5)));
    assert_eq!(
        interpret(&mut vm, "99999999999 + 1"),
        InterpretResult::Debug(Value::Int64(100000000000))
    );
    assert_eq!(
        interpret(&mut vm, "1 - 99999999999"),
        InterpretResult::Debug(Value::Int64(-99999999998))
    );
    assert_eq!(interpret(&mut vm, "99999999999 / 99999999999"), InterpretResult::Debug(float(1.0)));
    assert_eq!(interpret(&mut vm, "6 / 3"), InterpretResult::Debug(float(2.0)));
    assert_eq!(
        interpret(&mut vm, "\"x\" + 1"),
        InterpretResult::Debug(Value::String("x1".to_string()))
    );
    assert_eq!(
        interpret(&mut vm, "1 + \"x\""),
        InterpretResult::Debug(Value::String("1x".to_string()))
    );
    assert_eq!(
        interpret(&mut vm, "\"x\" + 1.5"),
        InterpretResult::Debug(Value::String("x1.5".to_string()))
    );
    assert_eq!(
        interpret(&mut vm, "\"x\" + null"),
        InterpretResult::Debug(Value::String("xnull".to_string()))
    );
    assert_eq!(
        interpret(&mut vm, "\"x\" + true"),
        InterpretResult::Debug(Value::String("xtrue".to_string()))
    );
    assert_eq!(interpret(&mut vm, "-1.5"), InterpretResult::Debug(float(-1.5)));
    assert_eq!(interpret(&mut vm, "1.5 < 2.5"), InterpretResult::Debug(Value::Bool(true)));
    assert_eq!(interpret(&mut vm, "1.5 == 1.5"), InterpretResult::Debug(Value::Bool(true)));
}

#[test]
fn not_is_true_of_null_and_false_only() {
    let mut vm = VM::new();
    assert_eq!(interpret(&mut vm, "!null"), InterpretResult::Debug(Value::Bool(true)));
    assert_eq!(interpret(&mut vm, "!false"), InterpretResult::Debug(Value::Bool(true)));
    assert_eq!(interpret(&mut vm, "!true"), InterpretResult::Debug(Value::Bool(false)));
    assert_eq!(interpret(&mut vm, "!0"), InterpretResult::Debug(Value::Bool(false)));
    assert_eq!(interpret(&mut vm, "!\"\""), InterpretResult::Debug(Value::Bool(false)));
}

#[test]
fn malformed_input_is_a_compile_error() {
    let mut vm = VM::new();
    assert_eq!(run(&mut vm, "2 * ("), InterpretResult::CompileError);
    assert_eq!(run(&mut vm, "2 (3 + 2)"), InterpretResult::CompileError);
    assert_eq!(interpret(&mut vm, "2 * ("), InterpretResult::CompileError);
    assert_eq!(interpret(&mut vm, "2 (3 + 2)"), InterpretResult::CompileError);
    assert_eq!(run(&mut vm, "@"), InterpretResult::CompileError);
    assert_eq!(run(&mut vm, "1 + 2 = 3"), InterpretResult::CompileError);
    assert!(vm.get_stack().is_empty());
    let output = vm.take_output();
    assert_eq!(output[0], Output::Syntax(Some(1), "Expected expression".to_string()));
    assert_eq!(
        output[1],
        Output::Syntax(Some(1), "Expected ';' after value".to_string())
    );
    assert!(output.contains(&Output::Syntax(Some(1), "Invalid character".to_string())));
    assert!(output.contains(&Output::Syntax(Some(1), "Invalid assignment target".to_string())));
}

#[test]
fn one_report_for_one_fault() {
    let memo = FloatMemo::new();
    match compile("1 + ; 2 +", &memo) {
        Err(CompileFailed::Syntax(errors)) => {
            assert_eq!(errors.len(), 2);
            assert_eq!(errors[0].message, "Expected expression");
            assert_eq!(errors[0].line, Some(1));
            assert_eq!(errors[1].message, "Expected expression");
        }
        other => panic!("unexpected: {:?}", other),
    }
    match compile("1\n+ * * * 2", &memo) {
        Err(CompileFailed::Syntax(errors)) => {
            assert_eq!(errors.len(), 1);
            assert_eq!(errors[0].line, Some(2));
        }
        other => panic!("unexpected: {:?}", other),
    }
}

#[test]
fn too_many_constants_is_a_compile_error() {
    let memo = FloatMemo::new();
    let mut source = String::new();
    for _ in 0..256 {
        source.push_str("1;");
    }
    let chunk = compile(&source, &memo).unwrap();
    assert_eq!(chunk.constant_count(), 256);
    source.push_str("1;");
    match compile(&source, &memo) {
        Err(CompileFailed::Syntax(errors)) => {
            assert_eq!(errors.len(), 1);
            assert_eq!(errors[0].message, "Too many constants in one chunk");
        }
        other => panic!("unexpected: {:?}", other),
    }
}

#[test]
fn compiled_bytes() {
    let memo = FloatMemo::new();
    let chunk = compile("print 1 + 2;", &memo).unwrap();
    let expected: Vec<u8> = vec![
        OpCode::OpConstant.into(),
        0,
        OpCode::OpConstant.into(),
        1,
        OpCode::OpAdd.into(),
        OpCode::OpPrint.into(),
        OpCode::OpReturn.into(),
    ];
    assert_eq!(chunk.get_code(), &expected);
    assert_eq!(chunk.read_constant(0), Value::Int32(1));
    assert_eq!(chunk.read_constant(1), Value::Int32(2));
    let chunk = compile("!true\n!-x", &memo).unwrap();
    let expected: Vec<u8> = vec![
        OpCode::OpTrue.into(),
        OpCode::OpNot.into(),
        OpCode::OpPop.into(),
        OpCode::OpGetGlobal.into(),
        0,
        OpCode::OpNegate.into(),
        OpCode::OpNot.into(),
        OpCode::OpPop.into(),
        OpCode::OpReturn.into(),
    ];
    assert_eq!(chunk.get_code(), &expected);
    assert_eq!(chunk.read_constant(0), Value::VariableLookup("x".to_string()));
    assert_eq!(chunk.get_line(1), 1);
    assert_eq!(chunk.get_line(3), 1);
    assert_eq!(chunk.get_line(4), 2);
    assert_eq!(chunk.get_line(8), 2);
    // an operator at the start of a line goes on with the expression
    let chunk = compile("1\n-2", &memo).unwrap();
    let expected: Vec<u8> = vec![
        OpCode::OpConstant.into(),
        0,
        OpCode::OpConstant.into(),
        1,
        OpCode::OpSubtract.into(),
        OpCode::OpPop.into(),
        OpCode::OpReturn.into(),
    ];
    assert_eq!(chunk.get_code(), &expected);
    let chunk = compile("x = 1", &memo).unwrap();
    let expected: Vec<u8> = vec![
        OpCode::OpConstant.into(),
        1,
        OpCode::OpSetGlobal.into(),
        0,
        OpCode::OpPop.into(),
        OpCode::OpReturn.into(),
    ];
    assert_eq!(chunk.get_code(), &expected);
}

#[test]
fn printing_goes_to_the_output() {
    let mut vm = VM::new();
    assert_eq!(run(&mut vm, "print 1 + 2; print \"a{1.5}b\"; print null;"), InterpretResult::Success);
    assert_eq!(
        vm.take_output(),
        vec![
            Output::Printed("3".to_string()),
            Output::Printed("a1.5b".to_string()),
            Output::Printed("null".to_string())
        ]
    );
    assert!(vm.take_output().is_empty());
    assert!(vm.get_stack().is_empty());
}

#[test]
fn immutable_reassignment_is_a_runtime_error() {
    let mut vm = VM::new();
    assert_eq!(run(&mut vm, "let x = 1; x = 2;"), InterpretResult::RuntimeError);
    assert_eq!(
        vm.take_output(),
        vec![Output::Error(1, "Cannot reassign immutable variable: x".to_string())]
    );
    let variable = vm.get_globals().get(&"x".to_string()).unwrap();
    assert_eq!(variable.get_value(), Value::Int32(1));
    assert!(!variable.is_mutable());
    // an assignment without a declaration finds no variable
    let mut vm = VM::new();
    assert_eq!(run(&mut vm, "y = 2;"), InterpretResult::RuntimeError);
    assert_eq!(
        vm.take_output(),
        vec![Output::Error(1, "Undefined variable 'y'".to_string())]
    );

    let mut chunk = Chunk::new();
    let definition =
        chunk.write_constant(Value::VariableDefinition(VariableDefinition::new(
            "x".to_string(),
            ValueType::Dynamic,
            false,
        )), 1);
    let one = chunk.write_constant(Value::Int32(1), 1);
    let two = chunk.write_constant(Value::Int32(2), 2);
    let name = chunk.write_constant(Value::VariableLookup("x".to_string()), 2);
    emit(&mut chunk, OpCode::OpConstant, 1);
    chunk.write_byte(one as u8, 1);
    emit(&mut chunk, OpCode::OpDefineGlobal, 1);
    chunk.write_byte(definition as u8, 1);
    emit(&mut chunk, OpCode::OpConstant, 2);
    chunk.write_byte(two as u8, 2);
    emit(&mut chunk, OpCode::OpSetGlobal, 2);
    chunk.write_byte(name as u8, 2);
    emit(&mut chunk, OpCode::OpPop, 2);
    emit(&mut chunk, OpCode::OpGetGlobal, 3);
    chunk.write_byte(name as u8, 3);
    emit(&mut chunk, OpCode::OpPop, 3);
    emit(&mut chunk, OpCode::OpReturn, 3);
    let mut vm = VM::new();
    assert_eq!(run_chunk(&mut vm, chunk, false), InterpretResult::RuntimeError);
    assert_eq!(
        vm.take_output(),
        vec![Output::Error(2, "Cannot reassign immutable variable: x".to_string())]
    );
    let variable = vm.get_globals().get(&"x".to_string()).unwrap();
    assert_eq!(variable.get_value(), Value::Int32(1));
    assert_eq!(variable.get_value_type(), ValueType::Int32);
    assert!(!variable.is_mutable());
}

#[test]
fn globals_are_defined_read_and_set() {
    let mut chunk = Chunk::new();
    let definition = chunk.write_constant(
        Value::VariableDefinition(VariableDefinition::new("n".to_string(), ValueType::Dynamic, true)),
        1,
    );
    let name = chunk.write_constant(Value::VariableLookup("n".to_string()), 1);
    let five = chunk.write_constant(Value::Int32(5), 1);
    let text = chunk.write_constant(Value::String("t".to_string()), 1);
    emit(&mut chunk, OpCode::OpConstant, 1);
    chunk.write_byte(five as u8, 1);
    emit(&mut chunk, OpCode::OpDefineGlobal, 1);
    chunk.write_byte(definition as u8, 1);
    emit(&mut chunk, OpCode::OpConstant, 1);
    chunk.write_byte(text as u8, 1);
    emit(&mut chunk, OpCode::OpSetGlobal, 1);
    chunk.write_byte(name as u8, 1);
    emit(&mut chunk, OpCode::OpPop, 1);
    emit(&mut chunk, OpCode::OpGetGlobal, 1);
    chunk.write_byte(name as u8, 1);
    emit(&mut chunk, OpCode::OpPop, 1);
    emit(&mut chunk, OpCode::OpReturn, 1);
    let mut vm = VM::new();
    assert_eq!(
        run_chunk(&mut vm, chunk, true),
        InterpretResult::Debug(Value::String("t".to_string()))
    );
    let variable = vm.get_globals().get(&"n".to_string()).unwrap();
    assert_eq!(variable.get_value(), Value::String("t".to_string()));
    assert_eq!(variable.get_value_type(), ValueType::Int32);
    assert!(variable.is_mutable());
    assert!(vm.take_output().is_empty());

    // the globals outlive the run
    assert_eq!(interpret(&mut vm, "n + 1"), InterpretResult::Debug(Value::String("t1".to_string())));
    assert_eq!(run(&mut vm, "m"), InterpretResult::RuntimeError);
    assert_eq!(vm.take_output(), vec![Output::Error(1, "Undefined variable".to_string())]);
}

#[test]
fn a_declared_type_is_not_reconciled() {
    let mut chunk = Chunk::new();
    let definition = chunk.write_constant(
        Value::VariableDefinition(VariableDefinition::new("n".to_string(), ValueType::Int32, true)),
        1,
    );
    emit(&mut chunk, OpCode::OpNull, 1);
    emit(&mut chunk, OpCode::OpDefineGlobal, 1);
    chunk.write_byte(definition as u8, 1);
    emit(&mut chunk, OpCode::OpReturn, 1);
    let mut vm = VM::new();
    assert_eq!(run_chunk(&mut vm, chunk, false), InterpretResult::RuntimeError);
    assert_eq!(
        vm.take_output(),
        vec![Output::Error(1, "Could not determine the type of the variable".to_string())]
    );
    assert!(vm.get_globals().get(&"n".to_string()).is_none());
}

#[test]
fn runtime_errors_drain_to_the_return() {
    let mut vm = VM::new();
    assert_eq!(run(&mut vm, "1 + true; print 2;"), InterpretResult::RuntimeError);
    assert_eq!(
        vm.take_output(),
        vec![
            Output::Error(1, "Cannot add \"Int32\" and \"Bool\"".to_string()),
            Output::Printed("2".to_string())
        ]
    );
    assert_eq!(run(&mut vm, "-(1 - null)"), InterpretResult::RuntimeError);
    assert_eq!(
        vm.take_output(),
        vec![
            Output::Error(1, "Cannot subtract \"Int32\" and \"Null\"".to_string()),
            Output::Error(1, "Expected an operand, but the stack is empty.".to_string())
        ]
    );
    assert_eq!(run(&mut vm, "-true"), InterpretResult::RuntimeError);
    assert_eq!(
        vm.take_output(),
        vec![Output::Error(1, "Cannot negate \"Bool\"".to_string())]
    );
    assert_eq!(run(&mut vm, "true ^ 2"), InterpretResult::RuntimeError);
    assert_eq!(
        vm.take_output(),
        vec![Output::Error(1, "Cannot raise \"Bool\" to the power of \"Int32\"".to_string())]
    );
    assert_eq!(run(&mut vm, "2147483647 + 1"), InterpretResult::RuntimeError);
    assert_eq!(
        vm.take_output(),
        vec![Output::Error(1, "attempt to add with overflow".to_string())]
    );
    assert_eq!(run(&mut vm, "\n\n2147483647 * 2"), InterpretResult::RuntimeError);
    assert_eq!(
        vm.take_output(),
        vec![Output::Error(3, "attempt to multiply with overflow".to_string())]
    );
    // the machine is usable after an error
    assert_eq!(run(&mut vm, "1 + 1"), InterpretResult::Success);
    assert!(vm.take_output().is_empty());
}

#[test]
fn bad_bytecode_is_a_runtime_error() {
    let mut vm = VM::new();
    let mut chunk = Chunk::new();
    chunk.write_byte(200, 7);
    emit(&mut chunk, OpCode::OpReturn, 7);
    assert_eq!(run_chunk(&mut vm, chunk, false), InterpretResult::RuntimeError);
    assert_eq!(
        vm.take_output(),
        vec![Output::Error(7, "Unknown operation (OPCODE)".to_string())]
    );

    let mut chunk = Chunk::new();
    emit(&mut chunk, OpCode::OpConstant, 1);
    chunk.write_byte(3, 1);
    emit(&mut chunk, OpCode::OpReturn, 1);
    assert_eq!(run_chunk(&mut vm, chunk, false), InterpretResult::RuntimeError);
    assert_eq!(
        vm.take_output(),
        vec![Output::Error(1, "Constant index out of range".to_string())]
    );

    let mut chunk = Chunk::new();
    emit(&mut chunk, OpCode::OpNull, 1);
    assert_eq!(run_chunk(&mut vm, chunk, false), InterpretResult::RuntimeError);
    assert_eq!(
        vm.take_output(),
        vec![Output::Error(1, "Could not get operation (OPCODE)".to_string())]
    );

    let mut chunk = Chunk::new();
    emit(&mut chunk, OpCode::OpConstant, 1);
    assert_eq!(run_chunk(&mut vm, chunk, false), InterpretResult::RuntimeError);
    let output = vm.take_output();
    assert_eq!(output[0], Output::Error(1, "Could not get operand".to_string()));

    let mut chunk = Chunk::new();
    emit(&mut chunk, OpCode::OpAdd, 1);
    emit(&mut chunk, OpCode::OpReturn, 1);
    assert_eq!(run_chunk(&mut vm, chunk, false), InterpretResult::RuntimeError);
    assert_eq!(
        vm.take_output(),
        vec![Output::Error(
            1,
            "Expected two operands for binary operation, but got only one.".to_string()
        )]
    );

    // without a chunk a run is over at once
    let memo = FloatMemo::new();
    let mut idle = VM::new();
    assert_eq!(idle.resume(&memo), Progress::Done(InterpretResult::Success));
    assert!(idle.take_output().is_empty());
}

#[test]
fn long_constants_are_read_low_byte_first() {
    let mut chunk = Chunk::new();
    for i in 0..300 {
        chunk.write_constant(Value::Int32(i), 1);
    }
    emit(&mut chunk, OpCode::OpConstantLong, 1);
    chunk.write_byte(0x2a, 1);
    chunk.write_byte(0x01, 1);
    chunk.write_byte(0x00, 1);
    emit(&mut chunk, OpCode::OpPop, 1);
    emit(&mut chunk, OpCode::OpReturn, 1);
    let mut vm = VM::new();
    assert_eq!(run_chunk(&mut vm, chunk, true), InterpretResult::Debug(Value::Int32(298)));
}

#[test]
fn values_of_different_kinds_are_ordered_by_kind() {
    let mut vm = VM::new();
    assert_eq!(interpret(&mut vm, "1 == 1.0"), InterpretResult::Debug(Value::Bool(false)));
    assert_eq!(interpret(&mut vm, "1 > 99999999999"), InterpretResult::Debug(Value::Bool(true)));
    assert_eq!(interpret(&mut vm, "\"a\" < \"b\""), InterpretResult::Debug(Value::Bool(true)));
    assert_eq!(interpret(&mut vm, "\"b\" < \"ab\""), InterpretResult::Debug(Value::Bool(false)));
    assert_eq!(interpret(&mut vm, "\"a\" == \"a\""), InterpretResult::Debug(Value::Bool(true)));
    assert_eq!(interpret(&mut vm, "null == null"), InterpretResult::Debug(Value::Bool(true)));
    assert_eq!(interpret(&mut vm, "false < true"), InterpretResult::Debug(Value::Bool(true)));
    assert_eq!(interpret(&mut vm, "null != false"), InterpretResult::Debug(Value::Bool(true)));
}

#[test]
fn statements_may_end_with_a_line() {
    let mut vm = VM::new();
    assert_eq!(run(&mut vm, "print 1\nprint 2"), InterpretResult::Success);
    assert_eq!(
        vm.take_output(),
        vec![Output::Printed("1".to_string()), Output::Printed("2".to_string())]
    );
    assert_eq!(run(&mut vm, "print 1 print 2"), InterpretResult::CompileError);
    assert_eq!(run(&mut vm, ""), InterpretResult::Success);
    assert_eq!(run(&mut vm, "// nothing\n/* at /* all */ */"), InterpretResult::Success);
}

#[test]
fn variables_are_declared_in_the_source() {
    let mut vm = VM::new();
    assert_eq!(interpret(&mut vm, "let x = 5; x + 1"), InterpretResult::Debug(Value::Int32(6)));
    assert_eq!(
        interpret(&mut vm, "mut n = 1; n = n + 1; n = n * 10; n"),
        InterpretResult::Debug(Value::Int32(20))
    );
    assert_eq!(
        interpret(&mut vm, "mut let s = \"a\"\ns = s + 1\ns"),
        InterpretResult::Debug(Value::String("a1".to_string()))
    );
    let stored = vm.get_globals().get(&"n".to_string()).unwrap();
    assert_eq!(stored.get_value(), Value::Int32(20));
    assert_eq!(stored.get_value_type(), ValueType::Int32);
    assert!(stored.is_mutable());
    assert!(!vm.get_globals().get(&"x".to_string()).unwrap().is_mutable());
    assert!(vm.take_output().is_empty());
    // a declaration of a name that is held already puts a new variable in its place
    assert_eq!(run(&mut vm, "let x = true; print x;"), InterpretResult::Success);
    assert_eq!(vm.take_output(), vec![Output::Printed("true".to_string())]);

    let memo = FloatMemo::new();
    let chunk = compile("let x = 1; x = 2;", &memo).unwrap();
    let expected: Vec<u8> = vec![
        OpCode::OpConstant.into(),
        1,
        OpCode::OpDefineGlobal.into(),
        0,
        OpCode::OpPop.into(),
        OpCode::OpConstant.into(),
        3,
        OpCode::OpSetGlobal.into(),
        2,
        OpCode::OpPop.into(),
        OpCode::OpReturn.into(),
    ];
    assert_eq!(chunk.get_code(), &expected);
    assert_eq!(
        chunk.read_constant(0),
        Value::VariableDefinition(VariableDefinition::new("x".to_string(), ValueType::Dynamic, false))
    );
    assert_eq!(chunk.read_constant(2), Value::VariableLookup("x".to_string()));
    let chunk = compile("mut x = 1", &memo).unwrap();
    assert_eq!(
        chunk.read_constant(0),
        Value::VariableDefinition(VariableDefinition::new("x".to_string(), ValueType::Dynamic, true))
    );
}
