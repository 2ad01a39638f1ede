//! What holds of every compilation: the compiler never gives tokens back,
//! so that the tests in the definitions of precedence climbing always hold,
//! and a chunk that it gives ends with the instruction that ends a run.
use vstd::prelude::*;
use crate::arith::Answers;
use crate::opcodes::OpCode;
use crate::parse_rule::{ParseFn, lemma_rule_of_eof, rule_of};
use crate::parser::{ParserView, lemma_advance};
use crate::precedence::Precedence;
use crate::token::token_type::TokenTypeView;
use crate::value::{ValueType, ValueView, VariableDefinitionView};
use super::spec::{CompilerView, compile};

verus! {

/// The steps that write to the chunk or report an error leave the tokens at
/// hand as they are.
pub proof fn lemma_writing_is_still(
    s: CompilerView,
    byte: u8,
    other: u8,
    value: ValueView,
    message: Seq<char>,
    operator: TokenTypeView,
    can_declare: bool,
    memo: Answers,
)
    ensures
        s.emit_byte(byte).still(s),
        s.emit_bytes(byte, other).still(s),
        s.make_constant(value).0.still(s),
        s.emit_constant(value).still(s),
        s.report(message).still(s),
        s.with_can_declare(can_declare).still(s),
        s.number(memo).still(s),
        s.literal().still(s),
        s.emit_unary(operator).still(s),
        s.emit_binary(operator).still(s),
        (CompilerView {
            parser: s.parser.report_error_at_saved_token(message),
            ..s
        }).still(s),
{
}

/// A state with the same tokens at hand as a well-formed one is well formed
/// and has as much left to parse.
pub proof fn lemma_still_keeps(after: CompilerView, before: CompilerView)
    requires
        before.parser.wf(),
        after.still(before),
    ensures
        after.keeps(before),
        after.measure() == before.measure(),
        after.parser.at_end() == before.parser.at_end(),
        after.previous_kind() == before.previous_kind(),
{
}

/// The steps that consume tokens leave a well-formed state with no more
/// left to parse.
pub proof fn lemma_consuming_keeps(
    s: CompilerView,
    kind: TokenTypeView,
    what: Seq<char>,
    can_declare: bool,
)
    requires
        s.parser.wf(),
    ensures
        s.advance().keeps(s),
        !s.parser.at_end() ==> s.advance().measure() < s.measure(),
        s.parser.at_end() ==> s.advance().parser.at_end(),
        s.advance().parser.previous == s.parser.current,
        s.consume(kind, what).keeps(s),
        s.is_match(kind).0.keeps(s),
        s.consume_expr_end(what).keeps(s),
        s.check_target(can_declare).keeps(s),
{
    lemma_advance(s.parser);
    let first = s.is_match(TokenTypeView::TokenDeclaration).0;
    lemma_advance(first.parser);
}

/// Passing over the tokens up to the next statement leaves a well-formed
/// state with no more left to parse.
pub proof fn lemma_skip_to_statement(s: CompilerView)
    requires
        s.parser.wf(),
    ensures
        s.skip_to_statement().keeps(s),
    decreases s.measure(),
{
    if s.parser.at_end() || s.previous_kind() == TokenTypeView::TokenSemicolon
        || s.at_statement_start() {
    } else {
        lemma_advance(s.parser);
        lemma_skip_to_statement(s.advance());
    }
}

/// The end of panic mode leaves a well-formed state with no more left to
/// parse.
pub proof fn lemma_synchronize(s: CompilerView)
    requires
        s.parser.wf(),
    ensures
        s.synchronize().keeps(s),
{
    lemma_skip_to_statement(
        CompilerView { parser: ParserView { panic_mode: false, ..s.parser }, ..s },
    );
}

/// An expression leaves a well-formed state and consumes at least one
/// token, unless it begins at the end of the source.
pub proof fn lemma_expression(s: CompilerView, memo: Answers)
    requires
        s.parser.wf(),
    ensures
        s.expression(memo).keeps(s),
        s.parse_next(memo).keeps(s),
        !s.parser.at_end() ==> s.expression(memo).measure() < s.measure(),
    decreases s.measure(), 1nat,
{
    lemma_parse_precedence(s, Precedence::PrecAssignment, memo);
}

/// Precedence climbing leaves a well-formed state and consumes at least one
/// token, unless it begins at the end of the source.
pub proof fn lemma_parse_precedence(s: CompilerView, precedence: Precedence, memo: Answers)
    requires
        s.parser.wf(),
    ensures
        s.parse_precedence(precedence, memo).keeps(s),
        !s.parser.at_end() ==> s.parse_precedence(precedence, memo).measure() < s.measure(),
    decreases s.measure(), 0nat,
{
    lemma_advance(s.parser);
    let advanced = s.advance();
    lemma_rule_of_eof(advanced.previous_kind());
    match rule_of(advanced.previous_kind()).prefix {
        None => {},
        Some(handler) => {
            let can_declare = precedence.level() <= Precedence::PrecAssignment.level();
            let ready = advanced.with_can_declare(can_declare);
            lemma_apply(ready, handler, memo);
            let started = ready.apply(handler, memo);
            assert(started.follows(s));
            lemma_infix_loop(started, precedence, can_declare, memo);
        },
    }
}

/// The loop of precedence climbing leaves a well-formed state with no more
/// left to parse.
pub proof fn lemma_infix_loop(
    s: CompilerView,
    precedence: Precedence,
    can_declare: bool,
    memo: Answers,
)
    requires
        s.parser.wf(),
    ensures
        s.infix_loop(precedence, can_declare, memo).keeps(s),
    decreases s.measure(), 0nat,
{
    if s.parser.at_end() || rule_of(s.current_kind()).precedence.level() < precedence.level() {
    } else {
        lemma_advance(s.parser);
        let advanced = s.advance();
        let continued = match rule_of(advanced.previous_kind()).infix {
            Some(handler) => {
                lemma_apply(advanced, handler, memo);
                advanced.apply(handler, memo)
            },
            None => advanced,
        };
        lemma_consuming_keeps(
            continued,
            TokenTypeView::TokenEof,
            Seq::empty(),
            can_declare,
        );
        let checked = continued.check_target(can_declare);
        assert(checked.follows(s));
        lemma_infix_loop(checked, precedence, can_declare, memo);
    }
}

/// Every handler leaves a well-formed state with no more left to parse.
pub proof fn lemma_apply(s: CompilerView, handler: ParseFn, memo: Answers)
    requires
        s.parser.wf(),
    ensures
        s.apply(handler, memo).keeps(s),
    decreases s.measure(), 6nat,
{
    lemma_writing_is_still(
        s,
        0,
        0,
        ValueView::Null,
        Seq::empty(),
        TokenTypeView::TokenEof,
        false,
        memo,
    );
    match handler {
        ParseFn::Grouping => lemma_grouping(s, memo),
        ParseFn::Unary => lemma_unary(s, memo),
        ParseFn::Binary => lemma_binary(s, memo),
        ParseFn::Number => {},
        ParseFn::String => lemma_string(s, memo),
        ParseFn::Interpolate => lemma_interpolate(s, memo),
        ParseFn::Literal => {},
        ParseFn::Variable => lemma_variable(s, memo),
        ParseFn::TypeKeyword => lemma_type_keyword(s, memo),
        ParseFn::ParseNext => lemma_expression(s, memo),
        ParseFn::Empty => {},
    }
}

proof fn lemma_grouping(s: CompilerView, memo: Answers)
    requires
        s.parser.wf(),
    ensures
        s.grouping(memo).keeps(s),
    decreases s.measure(), 2nat,
{
    lemma_expression(s, memo);
    lemma_consuming_keeps(
        s.expression(memo),
        TokenTypeView::TokenRightParen,
        "Expected ')' after expression"@,
        false,
    );
}

proof fn lemma_unary(s: CompilerView, memo: Answers)
    requires
        s.parser.wf(),
    ensures
        s.unary(memo).keeps(s),
    decreases s.measure(), 2nat,
{
    lemma_parse_precedence(s, Precedence::PrecUnary, memo);
    lemma_writing_is_still(
        s.parse_precedence(Precedence::PrecUnary, memo),
        0,
        0,
        ValueView::Null,
        Seq::empty(),
        s.previous_kind(),
        false,
        memo,
    );
}

proof fn lemma_binary(s: CompilerView, memo: Answers)
    requires
        s.parser.wf(),
    ensures
        s.binary(memo).keeps(s),
    decreases s.measure(), 2nat,
{
    let precedence = rule_of(s.previous_kind()).precedence.next();
    lemma_parse_precedence(s, precedence, memo);
    lemma_writing_is_still(
        s.parse_precedence(precedence, memo),
        0,
        0,
        ValueView::Null,
        Seq::empty(),
        s.previous_kind(),
        false,
        memo,
    );
}

proof fn lemma_variable(s: CompilerView, memo: Answers)
    requires
        s.parser.wf(),
    ensures
        s.variable(memo).keeps(s),
    decreases s.measure(), 4nat,
{
    lemma_named_variable(s, s.previous_lexeme(), ValueType::Dynamic, s.after_mutable(), memo);
}

proof fn lemma_type_keyword(s: CompilerView, memo: Answers)
    requires
        s.parser.wf(),
    ensures
        s.type_keyword(memo).keeps(s),
    decreases s.measure(), 4nat,
{
    let saved = CompilerView {
        parser: ParserView { saved_token: s.parser.previous, ..s.parser },
        ..s
    };
    if saved.current_kind() == TokenTypeView::TokenIdentifier {
        lemma_advance(saved.parser);
        let named = saved.advance();
        lemma_named_variable(
            named,
            named.previous_lexeme(),
            s.previous_kind().declared_type(),
            s.after_mutable(),
            memo,
        );
    }
}

proof fn lemma_named_variable(
    s: CompilerView,
    name: Seq<char>,
    value_type: ValueType,
    mutable: bool,
    memo: Answers,
)
    requires
        s.parser.wf(),
    ensures
        s.named_variable(name, value_type, mutable, memo).keeps(s),
    decreases s.measure(), 3nat,
{
    let lookup = ValueView::VariableLookup(name);
    if s.parser.can_declare && s.current_kind() == TokenTypeView::TokenDeclaration {
        lemma_variable_declaration(s, name, value_type, mutable, memo);
    } else if s.parser.can_declare && s.current_kind() == TokenTypeView::TokenEqual {
        lemma_advance(s.parser);
        let assigned = s.advance();
        if !(value_type == ValueType::Dynamic || value_type == ValueType::Empty) {
            lemma_writing_is_still(
                assigned,
                0,
                0,
                lookup,
                CompilerView::reassigned_message(name),
                TokenTypeView::TokenEof,
                false,
                memo,
            );
        } else {
            let made = assigned.make_constant(lookup);
            lemma_writing_is_still(
                assigned,
                0,
                0,
                lookup,
                Seq::empty(),
                TokenTypeView::TokenEof,
                false,
                memo,
            );
            lemma_expression(made.0, memo);
            lemma_writing_is_still(
                made.0.expression(memo),
                OpCode::OpSetGlobal.byte(),
                made.1,
                lookup,
                Seq::empty(),
                TokenTypeView::TokenEof,
                false,
                memo,
            );
        }
    } else {
        let made = s.make_constant(lookup);
        lemma_writing_is_still(
            s,
            0,
            0,
            lookup,
            Seq::empty(),
            TokenTypeView::TokenEof,
            false,
            memo,
        );
        lemma_writing_is_still(
            made.0,
            OpCode::OpGetGlobal.byte(),
            made.1,
            lookup,
            Seq::empty(),
            TokenTypeView::TokenEof,
            false,
            memo,
        );
    }
}

proof fn lemma_variable_declaration(
    s: CompilerView,
    name: Seq<char>,
    value_type: ValueType,
    mutable: bool,
    memo: Answers,
)
    requires
        s.parser.wf(),
    ensures
        s.variable_declaration(name, value_type, mutable, memo).keeps(s),
    decreases s.measure(), 2nat,
{
    let definition = ValueView::VariableDefinition(
        VariableDefinitionView { name, value_type, mutable },
    );
    let made = s.make_constant(definition);
    lemma_writing_is_still(
        s,
        0,
        0,
        definition,
        Seq::empty(),
        TokenTypeView::TokenEof,
        false,
        memo,
    );
    lemma_consuming_keeps(made.0, TokenTypeView::TokenDeclaration, Seq::empty(), false);
    let operator = made.0.is_match(TokenTypeView::TokenDeclaration);
    let valued = if operator.1 {
        lemma_expression(operator.0, memo);
        operator.0.expression(memo)
    } else {
        lemma_writing_is_still(
            operator.0,
            OpCode::OpNull.byte(),
            0,
            definition,
            Seq::empty(),
            TokenTypeView::TokenEof,
            false,
            memo,
        );
        operator.0.emit_byte(OpCode::OpNull.byte())
    };
    lemma_consuming_keeps(
        valued,
        TokenTypeView::TokenEof,
        "Expected ';' after variable declaration"@,
        false,
    );
    lemma_writing_is_still(
        valued.consume_expr_end("Expected ';' after variable declaration"@),
        OpCode::OpDefineGlobal.byte(),
        made.1,
        definition,
        Seq::empty(),
        TokenTypeView::TokenEof,
        false,
        memo,
    );
}

proof fn lemma_interpolate(s: CompilerView, memo: Answers)
    requires
        s.parser.wf(),
    ensures
        s.interpolate(memo).keeps(s),
    decreases s.measure(), 3nat,
{
    lemma_expression(s, memo);
    let joined = s.expression(memo).emit_byte(OpCode::OpInterpolate.byte());
    lemma_writing_is_still(
        s.expression(memo),
        OpCode::OpInterpolate.byte(),
        0,
        ValueView::Null,
        Seq::empty(),
        TokenTypeView::TokenEof,
        false,
        memo,
    );
    lemma_consuming_keeps(
        joined,
        TokenTypeView::TokenInterpolationEnd,
        "Expected '}' after interpolation"@,
        false,
    );
    let consumed = joined.consume(
        TokenTypeView::TokenInterpolationEnd,
        "Expected '}' after interpolation"@,
    );
    lemma_consuming_keeps(consumed, TokenTypeView::TokenEof, Seq::empty(), false);
    let closed = consumed.advance();
    if closed.previous_kind() == TokenTypeView::TokenStringEnd {
    } else {
        assert(closed.follows(s) || (closed.parser.wf() && closed.measure() == s.measure()
            && closed.string_rank() < 3));
        lemma_string(closed, memo);
        lemma_writing_is_still(
            closed.string(memo),
            OpCode::OpInterpolate.byte(),
            0,
            ValueView::Null,
            Seq::empty(),
            TokenTypeView::TokenEof,
            false,
            memo,
        );
    }
}

proof fn lemma_string(s: CompilerView, memo: Answers)
    requires
        s.parser.wf(),
    ensures
        s.string(memo).keeps(s),
    decreases s.measure(), s.string_rank(),
{
    lemma_advance(s.parser);
    let opened = if s.previous_kind() == TokenTypeView::TokenStringStart {
        s.advance()
    } else {
        s
    };
    lemma_advance(opened.parser);
    let empty = ValueView::String(Seq::empty());
    if opened.previous_kind() == TokenTypeView::TokenStringEnd {
        lemma_writing_is_still(
            opened.advance(),
            0,
            0,
            empty,
            Seq::empty(),
            TokenTypeView::TokenEof,
            false,
            memo,
        );
    } else if opened.previous_kind() == TokenTypeView::TokenInterpolationStart {
        lemma_writing_is_still(
            opened,
            0,
            0,
            empty,
            Seq::empty(),
            TokenTypeView::TokenEof,
            false,
            memo,
        );
        lemma_interpolate(opened.emit_constant(empty), memo);
    } else {
        let piece = ValueView::String(opened.previous_lexeme());
        lemma_writing_is_still(
            opened,
            0,
            0,
            piece,
            Seq::empty(),
            TokenTypeView::TokenEof,
            false,
            memo,
        );
        lemma_expression(opened.emit_constant(piece), memo);
    }
}

/// A statement leaves a well-formed state and consumes at least one token,
/// unless it begins at the end of the source; so does a statement with the
/// way to the next one after an error.
pub proof fn lemma_declaration(s: CompilerView, memo: Answers)
    requires
        s.parser.wf(),
    ensures
        s.statement(memo).keeps(s),
        s.declaration(memo).keeps(s),
        !s.parser.at_end() ==> s.declaration(memo).measure() < s.measure(),
{
    lemma_consuming_keeps(s, TokenTypeView::TokenPrint, Seq::empty(), false);
    let print = s.is_match(TokenTypeView::TokenPrint);
    lemma_expression(print.0, memo);
    let value = print.0.expression(memo);
    lemma_consuming_keeps(value, TokenTypeView::TokenEof, "Expected ';' after value"@, false);
    let ended = value.consume_expr_end("Expected ';' after value"@);
    let byte = if print.1 {
        OpCode::OpPrint.byte()
    } else {
        OpCode::OpPop.byte()
    };
    lemma_writing_is_still(
        ended,
        byte,
        0,
        ValueView::Null,
        Seq::empty(),
        TokenTypeView::TokenEof,
        false,
        memo,
    );
    lemma_synchronize(s.statement(memo));
}

/// The statements of a source leave a well-formed state at the end of the
/// source, with the token of the end consumed.
pub proof fn lemma_declarations(s: CompilerView, memo: Answers)
    requires
        s.parser.wf(),
    ensures
        s.declarations(memo).keeps(s),
        s.declarations(memo).parser.at_end(),
        s.declarations(memo).previous_kind() == TokenTypeView::TokenEof,
        s.declarations(memo).parser.previous is Some,
    decreases s.measure(),
{
    if s.parser.at_end() {
        lemma_advance(s.parser);
        lemma_consuming_keeps(s, TokenTypeView::TokenEof, Seq::empty(), false);
    } else {
        lemma_declaration(s, memo);
        let compiled = s.declaration(memo);
        assert(compiled.follows(s));
        lemma_declarations(compiled, memo);
    }
}

/// Where the spans of the tokens at hand are text of the source, the text
/// of the token consumed last is what its bytes encode: it is not lost.
pub proof fn lemma_lexeme_is_text(s: CompilerView)
    requires
        s.parser.aligned(),
        s.parser.previous is Some,
    ensures
        s.previous_lexeme() == vstd::utf8::decode_utf8(
            s.source().subrange(
                s.parser.previous->0.start as int,
                s.parser.previous->0.start + s.parser.previous->0.length,
            ),
        ),
{
}

/// A chunk that a source compiles to is not empty and ends with `OpReturn`.
pub proof fn lemma_compiled_chunk_returns(source: Seq<u8>, memo: Answers)
    requires
        source.len() < usize::MAX,
        compile(source, memo) is Ok,
    ensures
        compile(source, memo)->Ok_0.code.len() > 0,
        compile(source, memo)->Ok_0.code.last() == OpCode::OpReturn.byte(),
{
    let begun = CompilerView::initial(source);
    crate::parser::lemma_pull(
        ParserView {
            lexer: crate::lexer::spec::LexerView::initial(source),
            current: None,
            previous: None,
            double_previous_type: None,
            saved_token: None,
            had_error: false,
            panic_mode: false,
            can_declare: true,
            diagnostics: Seq::empty(),
        },
    );
    lemma_declarations(begun, memo);
    let compiled = begun.declarations(memo);
    lemma_consuming_keeps(
        compiled,
        TokenTypeView::TokenEof,
        "Expected end of expression"@,
        false,
    );
}

} // verus!
