use viskum::arith::{Comparison, Evaluation, Pow};
use viskum::chunk::{Chunk, Instruction};
use viskum::float::{ArithOp, FloatAnswer, FloatMemo, FloatTask, Number, Order};
use viskum::globals::{Assignment, Globals};
use viskum::number::{read_number, Literal};
use viskum::opcodes::OpCode;
use viskum::parse_rule::{get_rule, ParseFn};
use viskum::precedence::Precedence;
use viskum::text::{int_to_string, order_texts};
use viskum::token::token_type::TokenType;
use viskum::value::{Value, ValueArray, ValueType, Variable, VariableDefinition};

fn float(x: f64) -> Value {
    Value::Float64(x.to_bits())
}

#[test]
fn constants_are_read_back_in_order() {
    let mut chunk = Chunk::new();
    for i in 0..300 {
        assert_eq!(chunk.write_constant(Value::Int32(i * 3), 1), i as usize);
    }
    assert_eq!(chunk.constant_count(), 300);
    for i in 0..300u16 {
        assert_eq!(chunk.read_constant(i), Value::Int32(i as i32 * 3));
    }
    assert!(chunk.get_code().is_empty());
    assert_eq!(chunk.constant_at(299), Some(Value::Int32(897)));
    assert_eq!(chunk.constant_at(300), None);
    let mut pool = ValueArray::new();
    assert_eq!(pool.write(Value::Null), 0);
    assert_eq!(pool.write(Value::Bool(true)), 1);
    assert_eq!(pool.read(1), Value::Bool(true));
    pool.free();
    assert_eq!(pool.len(), 0);
}

#[test]
fn lines_of_one_run() {
    let mut chunk = Chunk::new();
    for k in 0..10u8 {
        chunk.write_byte(k, 42);
    }
    for k in 0..=10 {
        assert_eq!(chunk.get_line(k), 42);
    }
    assert_eq!(chunk.get_line(11), 0);
}

#[test]
fn lines_never_go_back() {
    let mut chunk = Chunk::new();
    assert_eq!(chunk.get_line(0), 0);
    for line in [1, 1, 1, 2, 2, 5] {
        chunk.write_byte(0, line);
    }
    let lines: Vec<usize> = (0..=6).map(|k| chunk.get_line(k)).collect();
    assert_eq!(lines, vec![1, 1, 1, 1, 2, 2, 5]);
    for k in 0..6 {
        assert!(chunk.get_line(k) <= chunk.get_line(k + 1));
    }
    chunk.free();
    assert!(chunk.get_code().is_empty());
    assert_eq!(chunk.constant_count(), 0);
    assert_eq!(chunk.get_line(0), 0);
}

#[test]
fn instructions_are_decoded() {
    let mut chunk = Chunk::new();
    chunk.write_constant(Value::Null, 1);
    chunk.write_byte(OpCode::OpConstant.into(), 1);
    chunk.write_byte(0, 1);
    chunk.write_byte(OpCode::OpConstantLong.into(), 2);
    chunk.write_byte(1, 2);
    chunk.write_byte(2, 2);
    chunk.write_byte(3, 2);
    chunk.write_byte(99, 2);
    chunk.write_byte(OpCode::OpReturn.into(), 3);
    chunk.write_byte(OpCode::OpGetGlobal.into(), 3);
    let listing = chunk.disassemble();
    assert_eq!(
        listing,
        vec![
            Instruction {
                offset: 0,
                line: 1,
                same_line: false,
                op: Some(OpCode::OpConstant),
                operand: Some(0),
                next: 2
            },
            Instruction {
                offset: 2,
                line: 1,
                same_line: true,
                op: Some(OpCode::OpConstantLong),
                operand: Some(1 + 2 * 256 + 3 * 65536),
                next: 6
            },
            Instruction { offset: 6, line: 2, same_line: true, op: None, operand: None, next: 7 },
            Instruction {
                offset: 7,
                line: 2,
                same_line: true,
                op: Some(OpCode::OpReturn),
                operand: None,
                next: 8
            },
            Instruction {
                offset: 8,
                line: 3,
                same_line: false,
                op: Some(OpCode::OpGetGlobal),
                operand: None,
                next: 9
            }
        ]
    );
    assert_eq!(chunk.disassemble_instruction(9), None);
    assert_eq!(OpCode::OpConstantLong.instruction_name(), "OP_CONSTANT_LONG");
    assert_eq!(OpCode::OpSetGlobal.width(), 2);
}

#[test]
fn instructions_and_their_bytes() {
    for byte in 0..=255u8 {
        match OpCode::from_byte(byte) {
            Some(op) => {
                assert!(byte < 25);
                assert_eq!(op.to_byte(), byte);
                let converted: u8 = op.into();
                assert_eq!(converted, byte);
            }
            None => assert!(byte >= 25),
        }
    }
    assert_eq!(OpCode::OpReturn.to_byte(), 0);
    assert_eq!(OpCode::OpConstantLong.to_byte(), 2);
    assert_eq!(OpCode::OpDivide.to_byte(), 7);
}

#[test]
fn levels_of_precedence() {
    assert_eq!(Precedence::PrecNone.get_next(), Precedence::PrecAssignment);
    assert_eq!(Precedence::PrecTerm.get_next(), Precedence::PrecFactor);
    assert_eq!(Precedence::PrecCall.get_next(), Precedence::PrecPrimary);
    assert_eq!(Precedence::PrecPrimary.get_next(), Precedence::PrecPrimary);
    assert_eq!(Precedence::PrecFactor.get_previous(), Precedence::PrecTerm);
    assert_eq!(Precedence::PrecAssignment.get_previous(), Precedence::PrecNone);
    assert_eq!(Precedence::PrecNone.get_previous(), Precedence::PrecNone);
    assert_eq!(Precedence::PrecPrimary.get_previous(), Precedence::PrecPrimary);
    let level: usize = Precedence::PrecUnary.into();
    assert_eq!(level, 8);
    assert_eq!(Precedence::from_level(10), Some(Precedence::PrecPrimary));
    assert_eq!(Precedence::from_level(11), None);
}

#[test]
fn parse_rules() {
    let minus = get_rule(&TokenType::TokenMinus);
    assert_eq!(minus.get_prefix(), Some(ParseFn::Unary));
    assert_eq!(minus.get_infix(), Some(ParseFn::Binary));
    assert_eq!(minus.get_precedence(), &Precedence::PrecTerm);
    let error = get_rule(&TokenType::TokenError("x".to_string()));
    assert_eq!(error.get_prefix(), None);
    assert_eq!(error.get_infix(), None);
    assert_eq!(error.get_precedence(), &Precedence::PrecNone);
    assert_eq!(get_rule(&TokenType::TokenEof).get_prefix(), None);
    assert_eq!(get_rule(&TokenType::TokenStar).get_precedence(), &Precedence::PrecFactor);
    assert_eq!(get_rule(&TokenType::TokenLess).get_precedence(), &Precedence::PrecComparison);
    assert_eq!(get_rule(&TokenType::TokenEqualEqual).get_precedence(), &Precedence::PrecEquality);
}

#[test]
fn the_coercion_table() {
    let memo = FloatMemo::new();
    assert_eq!(
        Value::Int32(2).add(&Value::Int32(3), &memo),
        Evaluation::Done(Value::Int32(5))
    );
    assert_eq!(
        Value::Int64(2).add(&Value::Int64(3), &memo),
        Evaluation::Done(Value::Int64(5))
    );
    assert_eq!(
        Value::Int32(2).add(&Value::Int64(3), &memo),
        Evaluation::Done(Value::Int64(5))
    );
    assert_eq!(
        Value::Int64(2).sub(&Value::Int32(3), &memo),
        Evaluation::Done(Value::Int64(-1))
    );
    assert_eq!(
        Value::Int32(-4).mul(&Value::Int32(3), &memo),
        Evaluation::Done(Value::Int32(-12))
    );
    assert_eq!(
        Value::Int32(i32::MAX).add(&Value::Int32(1), &memo),
        Evaluation::Failed("attempt to add with overflow".to_string())
    );
    assert_eq!(
        Value::Int64(i64::MIN).sub(&Value::Int32(1), &memo),
        Evaluation::Failed("attempt to subtract with overflow".to_string())
    );
    assert_eq!(
        Value::Int32(i32::MIN).neg(&memo),
        Evaluation::Failed("attempt to negate with overflow".to_string())
    );
    assert_eq!(Value::Int64(7).neg(&memo), Evaluation::Done(Value::Int64(-7)));
    // a float among the operands, and every division and power, is the host's
    let two = 2.0f64.to_bits();
    assert_eq!(
        Value::Int32(1).add(&float(2.0), &memo),
        Evaluation::Float(FloatTask::Arith(ArithOp::Add, Number::Int(1), Number::Float(two)))
    );
    assert_eq!(
        Value::Int64(6).div(&Value::Int64(3), &memo),
        Evaluation::Float(FloatTask::Arith(ArithOp::Divide, Number::Int(6), Number::Int(3)))
    );
    assert_eq!(
        Value::Int32(6).pow(&Value::Int32(3), &memo),
        Evaluation::Float(FloatTask::Arith(ArithOp::Power, Number::Int(6), Number::Int(3)))
    );
    assert_eq!(float(2.0).neg(&memo), Evaluation::Float(FloatTask::Negate(two)));
    let mut memo = FloatMemo::new();
    memo.record(
        FloatTask::Arith(ArithOp::Divide, Number::Int(6), Number::Int(3)),
        FloatAnswer::Bits(two),
    );
    memo.record(FloatTask::Display(two), FloatAnswer::Text("2".to_string()));
    memo.record(FloatTask::Compare(two, two), FloatAnswer::Ordered(Some(Order::Equal)));
    assert_eq!(Value::Int64(6).div(&Value::Int64(3), &memo), Evaluation::Done(float(2.0)));
    assert_eq!(Value::Int32(6).div(&Value::Int32(3), &memo), Evaluation::Done(float(2.0)));
    // strings
    assert_eq!(
        Value::String("x".to_string()).add(&Value::Int32(1), &memo),
        Evaluation::Done(Value::String("x1".to_string()))
    );
    assert_eq!(
        Value::Int64(-12).add(&Value::String("x".to_string()), &memo),
        Evaluation::Done(Value::String("-12x".to_string()))
    );
    assert_eq!(
        Value::String("x".to_string()).add(&float(2.0), &memo),
        Evaluation::Done(Value::String("x2".to_string()))
    );
    assert_eq!(
        Value::String("x".to_string()).add(&float(3.0), &memo),
        Evaluation::Float(FloatTask::Display(3.0f64.to_bits()))
    );
    assert_eq!(
        Value::Null.add(&Value::String("x".to_string()), &memo),
        Evaluation::Done(Value::String("nullx".to_string()))
    );
    assert_eq!(
        Value::String("x".to_string()).sub(&Value::String("x".to_string()), &memo),
        Evaluation::Failed("Cannot subtract \"String\" and \"String\"".to_string())
    );
    assert_eq!(
        Value::Bool(true).mul(&Value::Null, &memo),
        Evaluation::Failed("Cannot multiply \"Bool\" and \"Null\"".to_string())
    );
    assert_eq!(
        Value::Null.div(&Value::Int32(1), &memo),
        Evaluation::Failed("Cannot divide \"Null\" and \"Int32\"".to_string())
    );
    assert_eq!(
        Value::VariableLookup("v".to_string()).add(&Value::String("x".to_string()), &memo),
        Evaluation::Failed("Cannot add \"VariableLookup\" and \"String\"".to_string())
    );
    // comparisons
    assert_eq!(
        float(2.0).compare(Comparison::LessEqual, &float(2.0), &memo),
        Evaluation::Done(Value::Bool(true))
    );
    assert_eq!(
        float(2.0).compare(Comparison::Less, &float(3.0), &memo),
        Evaluation::Float(FloatTask::Compare(two, 3.0f64.to_bits()))
    );
    assert_eq!(Value::Int32(1).order(&Value::Int32(2), &memo), Ok(Some(Order::Less)));
    assert_eq!(Value::Int32(1).order(&Value::Int64(0), &memo), Ok(Some(Order::Greater)));
}

#[test]
fn the_memo_keeps_the_first_answer() {
    let mut memo = FloatMemo::new();
    let task = FloatTask::Negate(1);
    assert_eq!(memo.find(&task), None);
    memo.record(task.clone(), FloatAnswer::Bits(2));
    memo.record(task.clone(), FloatAnswer::Bits(3));
    memo.record(FloatTask::Negate(2), FloatAnswer::Bits(4));
    assert_eq!(memo.len(), 3);
    assert_eq!(memo.find(&task), Some(&FloatAnswer::Bits(2)));
    assert_eq!(memo.find(&FloatTask::Negate(2)), Some(&FloatAnswer::Bits(4)));
    assert_eq!(memo.find(&FloatTask::Display(1)), None);
    assert!(task.same(&FloatTask::Negate(1)));
    assert!(!task.same(&FloatTask::Display(1)));
    assert!(FloatTask::Parse("1".to_string()).same(&FloatTask::Parse("1".to_string())));
}

#[test]
fn values() {
    let memo = FloatMemo::new();
    assert!(Value::Null.is_falsey());
    assert!(Value::Bool(false).is_falsey());
    assert!(!Value::Bool(true).is_falsey());
    assert!(!Value::Int32(0).is_falsey());
    assert!(!Value::String(String::new()).is_falsey());
    assert_eq!(Value::Int32(-5).to_string(&memo), Ok("-5".to_string()));
    assert_eq!(Value::Int64(i64::MIN).to_string(&memo), Ok("-9223372036854775808".to_string()));
    assert_eq!(Value::Bool(true).to_string(&memo), Ok("true".to_string()));
    assert_eq!(Value::Null.to_string(&memo), Ok("null".to_string()));
    assert_eq!(Value::String("s".to_string()).to_string(&memo), Ok("s".to_string()));
    assert_eq!(
        Value::VariableLookup("s".to_string()).to_string(&memo),
        Ok("VariableLookup".to_string())
    );
    assert_eq!(float(1.0).to_string(&memo), Err(FloatTask::Display(1.0f64.to_bits())));
    assert_eq!(float(1.0).to_type_string(), "Float64");
    assert_eq!(Value::Int64(1).to_type_string(), "Int64");
    assert_eq!(Value::Int32(1).to_value_type(), ValueType::Int32);
    assert_eq!(Value::VariableLookup("s".to_string()).to_value_type(), ValueType::Dynamic);
    assert_eq!(Value::Int32(1).to_number(), Some(Number::Int(1)));
    assert_eq!(Value::Null.to_number(), None);
    assert_eq!(int_to_string(0), "0");
    assert_eq!(int_to_string(1234567890), "1234567890");
    assert_eq!(order_texts("a", "ab"), Order::Less);
    assert_eq!(order_texts("b", "ab"), Order::Greater);
    assert_eq!(order_texts("\u{e9}", "z"), Order::Greater);
    assert_eq!(order_texts("", ""), Order::Equal);
}

#[test]
fn variables() {
    let definition = VariableDefinition::new("x".to_string(), ValueType::Dynamic, true);
    assert_eq!(definition.get_name(), "x");
    assert_eq!(definition.get_value_type(), ValueType::Dynamic);
    assert!(definition.is_mutable());
    let mut variable = Variable::new("x".to_string(), Value::Int32(1), ValueType::Int32, true);
    assert!(variable.set_value(Value::Int32(2)));
    assert_eq!(variable.get_value(), Value::Int32(2));
    assert_eq!(variable.get_name(), "x");
    let mut fixed = Variable::new("y".to_string(), Value::Int32(1), ValueType::Int32, false);
    assert!(!fixed.set_value(Value::Int32(2)));
    assert_eq!(fixed.get_value(), Value::Int32(1));

    let mut globals = Globals::new();
    assert!(globals.get(&"x".to_string()).is_none());
    globals.insert(variable);
    globals.insert(fixed);
    assert_eq!(globals.assign(&"x".to_string(), Value::Null), Assignment::Stored);
    assert_eq!(globals.assign(&"y".to_string(), Value::Null), Assignment::Immutable);
    assert_eq!(globals.assign(&"z".to_string(), Value::Null), Assignment::Undefined);
    assert_eq!(globals.get(&"x".to_string()).unwrap().get_value(), Value::Null);
    assert_eq!(globals.get(&"y".to_string()).unwrap().get_value(), Value::Int32(1));
    globals.insert(Variable::new("y".to_string(), Value::Bool(true), ValueType::Bool, true));
    assert_eq!(globals.get(&"y".to_string()).unwrap().get_value(), Value::Bool(true));
    assert_eq!(globals.get(&"x".to_string()).unwrap().get_value(), Value::Null);
}

#[test]
fn number_literals() {
    assert_eq!(read_number(b"0"), Literal::Int32(0));
    assert_eq!(read_number(b"2147483647"), Literal::Int32(2147483647));
    assert_eq!(read_number(b"-2147483648"), Literal::Int32(-2147483648));
    assert_eq!(read_number(b"2147483648"), Literal::Int64(2147483648));
    assert_eq!(read_number(b"+5"), Literal::Int32(5));
    assert_eq!(read_number(b"-9223372036854775808"), Literal::Int64(i64::MIN));
    assert_eq!(read_number(b"9223372036854775808"), Literal::Float);
    assert_eq!(read_number(b"99999999999999999999999999"), Literal::Float);
    assert_eq!(read_number(b"1.5"), Literal::Float);
    assert_eq!(read_number(b""), Literal::Float);
    assert_eq!(read_number(b"-"), Literal::Float);
    assert_eq!(read_number(b"1a"), Literal::Float);
}
