use viskum::float::{ArithOp, FloatAnswer, FloatMemo, FloatTask, Number, Order};
use viskum::value::Value;
use viskum::vm::{InterpretResult, Progress, VM};

fn to_float(n: Number) -> f64 {
    match n {
        Number::Int(i) => i as f64,
        Number::Float(bits) => f64::from_bits(bits),
    }
}

fn perform(task: &FloatTask) -> FloatAnswer {
    match task {
        FloatTask::Parse(text) => match text.parse::<f64>() {
            Ok(x) => FloatAnswer::Bits(x.to_bits()),
            Err(_) => FloatAnswer::Invalid,
        },
        FloatTask::Negate(bits) => FloatAnswer::Bits((-f64::from_bits(*bits)).to_bits()),
        FloatTask::Arith(op, a, b) => {
            let x = to_float(*a);
            let y = to_float(*b);
            let z = match op {
                ArithOp::Add => x + y,
                ArithOp::Subtract => x - y,
                ArithOp::Multiply => x * y,
                ArithOp::Divide => x / y,
                ArithOp::Power => x.powf(y),
            };
            FloatAnswer::Bits(z.to_bits())
        }
        FloatTask::Compare(a, b) => {
            let order = f64::from_bits(*a).partial_cmp(&f64::from_bits(*b));
            FloatAnswer::Ordered(order.map(|o| match o {
                std::cmp::Ordering::Less => Order::Less,
                std::cmp::Ordering::Equal => Order::Equal,
                std::cmp::Ordering::Greater => Order::Greater,
            }))
        }
        FloatTask::Display(bits) => FloatAnswer::Text(f64::from_bits(*bits).to_string()),
    }
}

fn drive(vm: &mut VM, source: &str, debug: bool) -> InterpretResult {
    let mut memo = FloatMemo::new();
    let mut progress = if debug {
        vm.interpret_debug(source, &memo)
    } else {
        vm.interpret(source, &memo)
    };
    loop {
        match progress {
            Progress::Done(result) => return result,
            Progress::Float(task) => {
                let literal = matches!(task, FloatTask::Parse(_));
                let answer = perform(&task);
                memo.record(task, answer);
                progress = if literal {
                    if debug {
                        vm.interpret_debug(source, &memo)
                    } else {
                        vm.interpret(source, &memo)
                    }
                } else {
                    vm.resume(&memo)
                };
            }
        }
    }
}

fn interpret(vm: &mut VM, source: &str) -> InterpretResult {
    drive(vm, source, true)
}

fn float(x: f64) -> Value {
    Value::Float64(x.to_bits())
}

#[test]
fn compare_equal_equal() {
    let mut vm = VM::new();
    let result = interpret(&mut vm, "2 * 3 == 6");
    assert_eq!(result, InterpretResult::Debug(Value::Bool(true)));
    vm.free_vm();

    let result = interpret(&mut vm, "2 * 3 == 7");
    assert_eq!(result, InterpretResult::Debug(Value::Bool(false)));
    vm.free_vm();
}

#[test]
fn compare_not_equal() {
    let mut vm = VM::new();
    let result = interpret(&mut vm, "2 * 3 != 6");
    assert_eq!(result, InterpretResult::Debug(Value::Bool(false)));
    vm.free_vm();

    let result = interpret(&mut vm, "2 * 3 != 7");
    assert_eq!(result, InterpretResult::Debug(Value::Bool(true)));
    vm.free_vm();
}

#[test]
fn compare_less_than() {
    let mut vm = VM::new();
    let result = interpret(&mut vm, "2 * 3 < 6");
    assert_eq!(result, InterpretResult::Debug(Value::Bool(false)));
    vm.free_vm();

    let result = interpret(&mut vm, "2 * 3 < 7");
    assert_eq!(result, InterpretResult::Debug(Value::Bool(true)));
    vm.free_vm();
}

#[test]
fn compare_less_than_or_equal() {
    let mut vm = VM::new();
    let result = interpret(&mut vm, "2 * 3 <= 6");
    assert_eq!(result, InterpretResult::Debug(Value::Bool(true)));
    vm.free_vm();

    let result = interpret(&mut vm, "2 * 3 <= 7");
    assert_eq!(result, InterpretResult::Debug(Value::Bool(true)));
    vm.free_vm();
}

#[test]
fn compare_greater_than() {
    let mut vm = VM::new();
    let result = interpret(&mut vm, "2 * 3 > 6");
    assert_eq!(result, InterpretResult::Debug(Value::Bool(false)));
    vm.free_vm();

    let result = interpret(&mut vm, "2 * 3 > 5");
    assert_eq!(result, InterpretResult::Debug(Value::Bool(true)));
    vm.free_vm();
}

#[test]
fn compare_greater_than_or_equal() {
    let mut vm = VM::new();
    let result = interpret(&mut vm, "2 * 3 >= 6");
    assert_eq!(result, InterpretResult::Debug(Value::Bool(true)));
    vm.free_vm();

    let result = interpret(&mut vm, "2 * 3 >= 5");
    assert_eq!(result, InterpretResult::Debug(Value::Bool(true)));
    vm.free_vm();
}
