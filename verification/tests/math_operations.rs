use viskum::float::{ArithOp, FloatAnswer, FloatMemo, FloatTask, Number, Order};
use viskum::value::Value;
use viskum::vm::{InterpretResult, Progress, VM};

fn to_float(n: Number) -> f64 {
    match n {
        Number::Int(i) => i as f64,
        Number::Float(bits) => f64::from_bits(bits),
    }
}

fn perform(task: &FloatTask) -> FloatAnswer {
    match task {
        FloatTask::Parse(text) => match text.parse::<f64>() {
            Ok(x) => FloatAnswer::Bits(x.to_bits()),
            Err(_) => FloatAnswer::Invalid,
        },
        FloatTask::Negate(bits) => FloatAnswer::Bits((-f64::from_bits(*bits)).to_bits()),
        FloatTask::Arith(op, a, b) => {
            let x = to_float(*a);
            let y = to_float(*b);
            let z = match op {
                ArithOp::Add => x + y,
                ArithOp::Subtract => x - y,
                ArithOp::Multiply => x * y,
                ArithOp::Divide => x / y,
                ArithOp::Power => x.powf(y),
            };
            FloatAnswer::Bits(z.to_bits())
        }
        FloatTask::Compare(a, b) => {
            let order = f64::from_bits(*a).partial_cmp(&f64::from_bits(*b));
            FloatAnswer::Ordered(order.map(|o| match o {
                std::cmp::Ordering::Less => Order::Less,
                std::cmp::Ordering::Equal => Order::Equal,
                std::cmp::Ordering::Greater => Order::Greater,
            }))
        }
        FloatTask::Display(bits) => FloatAnswer::Text(f64::from_bits(*bits).to_string()),
    }
}

fn drive(vm: &mut VM, source: &str, debug: bool) -> InterpretResult {
    let mut memo = FloatMemo::new();
    let mut progress = if debug {
        vm.interpret_debug(source, &memo)
    } else {
        vm.interpret(source, &memo)
    };
    loop {
        match progress {
            Progress::Done(result) => return result,
            Progress::Float(task) => {
                let literal = matches!(task, FloatTask::Parse(_));
                let answer = perform(&task);
                memo.record(task, answer);
                progress = if literal {
                    if debug {
                        vm.interpret_debug(source, &memo)
                    } else {
                        vm.interpret(source, &memo)
                    }
                } else {
                    vm.resume(&memo)
                };
            }
        }
    }
}

fn interpret(vm: &mut VM, source: &str) -> InterpretResult {
    drive(vm, source, true)
}

fn float(x: f64) -> Value {
    Value::Float64(x.to_bits())
}

#[test]
fn test_negation() {
    let mut vm = VM::new();

    let result = interpret(&mut vm, "-1");
    assert_eq!(result, InterpretResult::Debug(Value::Int32(-1)));
    vm.free_vm();

    let result = interpret(&mut vm, "-1 * 2");
    assert_eq!(result, InterpretResult::Debug(Value::Int32(-2)));
    vm.free_vm();

    let result = interpret(&mut vm, "-1 * -2");
    assert_eq!(result, InterpretResult::Debug(Value::Int32(2)));
    vm.free_vm();

    let result = interpret(&mut vm, "-1 * -2 * -3");
    assert_eq!(result, InterpretResult::Debug(Value::Int32(-6)));
    vm.free_vm();

    let result = interpret(&mut vm, "-1 * -2 * -3 * -4");
    assert_eq!(result, InterpretResult::Debug(Value::Int32(24)));
    vm.free_vm();
}

#[test]
fn math_operations_test_op_divide() {
    let mut vm = VM::new();

    let result = interpret(&mut vm, "8 / 3");
    assert_eq!(result, InterpretResult::Debug(float(8.0 / 3.0)));
    vm.free_vm();

    let result = interpret(&mut vm, "8 / 2");
    assert_eq!(result, InterpretResult::Debug(float(4.0)));
    vm.free_vm();
}

#[test]
fn math_operations_test_op_add() {
    let mut vm = VM::new();

    let result = interpret(&mut vm, "3 + 3 + 1");
    assert_eq!(result, InterpretResult::Debug(Value::Int32(7)));
    vm.free_vm();

    let result = interpret(&mut vm, "1 + 2 + 3 + 4 + 5 + 6 + 7 + 8 + 9");
    assert_eq!(result, InterpretResult::Debug(Value::Int32(45)));
    vm.free_vm();

    let result = interpret(&mut vm, "\"Hello\" + \" \" + \"World\"");
    assert_eq!(result, InterpretResult::Debug(Value::String("Hello World".to_string())));
    vm.free_vm();

    let result = interpret(&mut vm, "\"Hello\" + \" \" + \"World\" + 1");
    assert_eq!(result, InterpretResult::Debug(Value::String("Hello World1".to_string())));
    vm.free_vm();
}

#[test]
fn math_operations_test_op_subtract() {
    let mut vm = VM::new();

    let result = interpret(&mut vm, "7 - 3 - 1");
    assert_eq!(result, InterpretResult::Debug(Value::Int32(3)));
    vm.free_vm();

    let result = interpret(&mut vm, "1 - 9");
    assert_eq!(result, InterpretResult::Debug(Value::Int32(-8)));
    vm.free_vm();
}

#[test]
fn math_operations_test_op_multiply() {
    let mut vm = VM::new();

    let result = interpret(&mut vm, "8 * 8");
    assert_eq!(result, InterpretResult::Debug(Value::Int32(64)));
    vm.free_vm();

    let result = interpret(&mut vm, "2 * 1 * 2");
    assert_eq!(result, InterpretResult::Debug(Value::Int32(4)));
    vm.free_vm();
}

#[test]
fn math_operations_test_op_power() {
    let mut vm = VM::new();

    let result = interpret(&mut vm, "2 ^ 3");
    assert_eq!(result, InterpretResult::Debug(float(8.0)));
    vm.free_vm();

    let result = interpret(&mut vm, "2 ^ 4");
    assert_eq!(result, InterpretResult::Debug(float(16.0)));
    vm.free_vm();
}

#[test]
fn math_operations_test_parentheses() {
    let mut vm = VM::new();

    let result = interpret(&mut vm, "8 * (7 + 1)");
    assert_eq!(result, InterpretResult::Debug(Value::Int32(64)));
    vm.free_vm();

    let result = interpret(&mut vm, "8 * 7 + 1");
    assert_eq!(result, InterpretResult::Debug(Value::Int32(57)));
    vm.free_vm();

    let result = interpret(&mut vm, "8 - (2 - 4)");
    assert_eq!(result, InterpretResult::Debug(Value::Int32(10)));
    vm.free_vm();

    let result = interpret(&mut vm, "8 * (7 + 1) / 2");
    assert_eq!(result, InterpretResult::Debug(float(32.0)));
    vm.free_vm();

    let result = interpret(&mut vm, "8 * (7 + 1) / 2 - 1");
    assert_eq!(result, InterpretResult::Debug(float(31.0)));
    vm.free_vm();

    let result = interpret(&mut vm, "8 * (7 + 1) / 2 - 1 * 2");
    assert_eq!(result, InterpretResult::Debug(float(30.0)));
    vm.free_vm();

    let result = interpret(&mut vm, "((8 + 2) * 3) / 2");
    assert_eq!(result, InterpretResult::Debug(float(15.0)));
    vm.free_vm();

    let result = interpret(&mut vm, "2 * (3 + 2 - 1)");
    assert_eq!(result, InterpretResult::Debug(Value::Int32(8)));
    vm.free_vm();

    let result = interpret(&mut vm, "2 * (1)");
    assert!(matches!(result, InterpretResult::Debug(Value::Int32(2))));
    vm.free_vm();

    let result = interpret(&mut vm, "2 * (3 + 2");
    assert!(matches!(result, InterpretResult::CompileError));
    vm.free_vm();
}
