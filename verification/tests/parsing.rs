use viskum::chunk::Chunk;
use viskum::compiler::{CompileFailed, Compiler};
use viskum::float::{FloatAnswer, FloatMemo, FloatTask};
use viskum::opcodes::OpCode;
use viskum::parser::{Diagnostic, Parser};
use viskum::token::token_type::TokenType;
use viskum::token::Token;
use viskum::value::Value;

fn asked(result: Result<Chunk, CompileFailed>) -> FloatTask {
    match result {
        Err(CompileFailed::Float(task)) => task,
        Err(CompileFailed::Syntax(errors)) => panic!("errors: {:?}", errors),
        Ok(_) => panic!("a chunk"),
    }
}

fn kind(token: &Option<Token>) -> TokenType {
    token.as_ref().unwrap().get_token_type().clone()
}

#[test]
fn the_parser_shifts_its_tokens() {
    let mut parser = Parser::new("1 + 2");
    assert_eq!(kind(parser.get_current()), TokenType::TokenNumber);
    assert!(parser.get_previous().is_none());
    assert!(parser.get_double_previous_type().is_none());
    assert!(parser.get_can_declare());
    parser.advance();
    assert_eq!(kind(parser.get_previous()), TokenType::TokenNumber);
    assert_eq!(kind(parser.get_current()), TokenType::TokenPlus);
    parser.advance();
    assert_eq!(parser.get_double_previous_type(), &Some(TokenType::TokenNumber));
    assert_eq!(kind(parser.get_previous()), TokenType::TokenPlus);
    parser.advance();
    assert_eq!(kind(parser.get_current()), TokenType::TokenEof);
    parser.advance();
    parser.advance();
    assert_eq!(kind(parser.get_current()), TokenType::TokenEof);
    assert_eq!(kind(parser.get_previous()), TokenType::TokenEof);
    assert_eq!(parser.get_double_previous_type(), &Some(TokenType::TokenEof));
    assert!(!parser.get_had_error());
    assert!(parser.get_diagnostics().is_empty());
    assert_eq!(parser.get_source(), "1 + 2");
}

#[test]
fn the_parser_reports_error_tokens_and_goes_on() {
    let mut parser = Parser::new("@ 1\n# $ 2");
    assert_eq!(kind(parser.get_current()), TokenType::TokenNumber);
    assert!(parser.get_had_error());
    assert!(parser.get_panic_mode());
    assert_eq!(
        parser.get_diagnostics(),
        &vec![Diagnostic { line: Some(1), message: "Invalid character".to_string() }]
    );
    // in panic mode nothing more is reported
    parser.advance();
    assert_eq!(kind(parser.get_current()), TokenType::TokenNumber);
    assert_eq!(parser.get_diagnostics().len(), 1);
    parser.set_panic_mode(false);
    parser.report_error(&"first".to_string());
    parser.report_error(&"second".to_string());
    assert_eq!(
        parser.get_diagnostics()[1],
        Diagnostic { line: Some(2), message: "first".to_string() }
    );
    assert_eq!(parser.get_diagnostics().len(), 2);
    assert_eq!(parser.take_diagnostics().len(), 2);
    assert!(parser.get_diagnostics().is_empty());
}

#[test]
fn consume_takes_the_expected_token_only() {
    let mut parser = Parser::new("( )");
    parser.consume(TokenType::TokenLeftParen, "'('");
    assert!(!parser.get_had_error());
    assert_eq!(kind(parser.get_previous()), TokenType::TokenLeftParen);
    parser.consume(TokenType::TokenSemicolon, "';'");
    assert!(parser.get_had_error());
    assert!(parser.get_panic_mode());
    assert_eq!(kind(parser.get_current()), TokenType::TokenRightParen);
    assert_eq!(
        parser.get_diagnostics(),
        &vec![Diagnostic { line: Some(1), message: "Expected ';' but got ".to_string() }]
    );
    assert!(parser.check(&TokenType::TokenRightParen));
    assert!(!parser.check(&TokenType::TokenLeftParen));
}

#[test]
fn a_report_at_the_saved_token_names_its_kind() {
    let mut parser = Parser::new("let\nx");
    let saved = parser.get_current().clone().unwrap();
    parser.set_saved_token(saved);
    parser.advance();
    parser.set_can_declare(false);
    assert!(!parser.get_can_declare());
    parser.report_error_at_saved_token(&"Unexpected type: ".to_string());
    assert_eq!(
        parser.get_diagnostics(),
        &vec![Diagnostic { line: Some(1), message: "Unexpected type: let".to_string() }]
    );
    parser.set_panic_mode(false);
    parser.clear_saved_token();
    parser.report_error_at_saved_token(&"Nothing saved".to_string());
    assert_eq!(
        parser.get_diagnostics()[1],
        Diagnostic { line: None, message: "Nothing saved".to_string() }
    );
}

#[test]
fn the_compiler_step_by_step() {
    let memo = FloatMemo::new();
    let mut compiler = Compiler::new("1 + 2; true", Chunk::new());
    compiler.declaration(&memo);
    compiler.declaration(&memo);
    compiler.end_compiler();
    let chunk = compiler.finish().unwrap();
    let expected: Vec<u8> = vec![
        OpCode::OpConstant.into(),
        0,
        OpCode::OpConstant.into(),
        1,
        OpCode::OpAdd.into(),
        OpCode::OpPop.into(),
        OpCode::OpTrue.into(),
        OpCode::OpPop.into(),
        OpCode::OpReturn.into(),
    ];
    assert_eq!(chunk.get_code(), &expected);

    let mut compiler = Compiler::new("(1)", Chunk::new());
    assert!(!compiler.compile(&memo));
    assert!(compiler.finish().is_ok());

    let mut compiler = Compiler::new("(1", Chunk::new());
    assert!(compiler.compile(&memo));
    match compiler.finish() {
        Err(CompileFailed::Syntax(errors)) => assert_eq!(
            errors,
            vec![Diagnostic {
                line: Some(1),
                message: "Expected Expected ')' after expression but got ".to_string()
            }]
        ),
        other => panic!("unexpected: {:?}", other),
    }
}

#[test]
fn the_compiler_writes_to_the_chunk_it_is_given() {
    let memo = FloatMemo::new();
    let mut chunk = Chunk::new();
    chunk.write_constant(Value::Null, 1);
    chunk.write_byte(OpCode::OpNull.into(), 9);
    let mut compiler = Compiler::new("7", chunk);
    compiler.compile(&memo);
    let chunk = compiler.finish().unwrap();
    let expected: Vec<u8> = vec![
        OpCode::OpNull.into(),
        OpCode::OpConstant.into(),
        1,
        OpCode::OpPop.into(),
        OpCode::OpReturn.into(),
    ];
    assert_eq!(chunk.get_code(), &expected);
    assert_eq!(chunk.read_constant(1), Value::Int32(7));
    assert_eq!(chunk.get_line(0), 9);
    assert_eq!(chunk.get_line(2), 1);
}

#[test]
fn the_first_missing_float_literal_is_asked_for() {
    let mut memo = FloatMemo::new();
    let mut compiler = Compiler::new("1.5 + 2.5 + 1.5", Chunk::new());
    compiler.compile(&memo);
    assert_eq!(asked(compiler.finish()), FloatTask::Parse("1.5".to_string()));
    memo.record(FloatTask::Parse("1.5".to_string()), FloatAnswer::Bits(1.5f64.to_bits()));
    let mut compiler = Compiler::new("1.5 + 2.5 + 1.5", Chunk::new());
    compiler.compile(&memo);
    assert_eq!(asked(compiler.finish()), FloatTask::Parse("2.5".to_string()));
    memo.record(FloatTask::Parse("2.5".to_string()), FloatAnswer::Bits(2.5f64.to_bits()));
    let mut compiler = Compiler::new("1.5 + 2.5 + 1.5", Chunk::new());
    assert!(!compiler.compile(&memo));
    let chunk = compiler.finish().unwrap();
    assert_eq!(chunk.constant_count(), 3);
    assert_eq!(chunk.read_constant(1), Value::Float64(2.5f64.to_bits()));
    assert_eq!(chunk.read_constant(2), Value::Float64(1.5f64.to_bits()));
}

#[test]
fn strings_compile_to_interpolations() {
    let memo = FloatMemo::new();
    let mut compiler = Compiler::new("\"a{1}b\"", Chunk::new());
    compiler.compile(&memo);
    let chunk = compiler.finish().unwrap();
    let expected: Vec<u8> = vec![
        OpCode::OpConstant.into(),
        0,
        OpCode::OpConstant.into(),
        1,
        OpCode::OpInterpolate.into(),
        OpCode::OpConstant.into(),
        2,
        OpCode::OpInterpolate.into(),
        OpCode::OpPop.into(),
        OpCode::OpReturn.into(),
    ];
    assert_eq!(chunk.get_code(), &expected);
    assert_eq!(chunk.read_constant(0), Value::String("a".to_string()));
    assert_eq!(chunk.read_constant(1), Value::Int32(1));
    assert_eq!(chunk.read_constant(2), Value::String("b".to_string()));

    let mut compiler = Compiler::new("\"\";", Chunk::new());
    compiler.compile(&memo);
    let chunk = compiler.finish().unwrap();
    assert_eq!(chunk.read_constant(0), Value::String(String::new()));
    let expected: Vec<u8> = vec![
        OpCode::OpConstant.into(),
        0,
        OpCode::OpPop.into(),
        OpCode::OpReturn.into(),
    ];
    assert_eq!(chunk.get_code(), &expected);
}
