//! The compiler's handlers: statements, and the parts of an expression.
use vstd::prelude::*;
use vstd::string::*;
use super::Compiler;
use crate::float::{FloatAnswer, FloatMemo, FloatTask};
use crate::number::{Literal, read_number};
use crate::opcodes::OpCode;
use crate::parse_rule::{ParseFn, get_rule, lemma_rule_of_eof};
use crate::parser::lemma_advance;
use crate::precedence::Precedence;
use crate::text::concat;
use crate::token::token_type::{TokenType, TokenTypeView};
use crate::value::{Value, ValueType};

verus! {

impl<'a> Compiler<'a> {
    /// Compiles a statement, and after an error in it passes over the
    /// tokens up to the next statement.
    pub fn declaration(&mut self, memo: &FloatMemo)
        requires
            old(self).wf(),
        ensures
            final(self)@ == old(self)@.declaration(memo@),
            final(self).kept(old(self)),
            !old(self)@.parser.at_end() ==> final(self)@.measure() < old(self)@.measure(),
    {
        self.statement(memo);
        if self.parser.get_panic_mode() {
            self.synchronize()
        }
    }

    fn variable_declaration(
        &mut self,
        lexeme: String,
        value_type: ValueType,
        is_mutable: bool,
        memo: &FloatMemo,
    )
        requires
            old(self).wf(),
        ensures
            final(self)@ == old(self)@.variable_declaration(
                lexeme@,
                value_type,
                is_mutable,
                memo@,
            ),
            final(self).kept(old(self)),
        decreases old(self)@.measure(), 2nat,
    {
        let declaration_index = self.parse_declaration_name(lexeme, value_type, is_mutable);

        if self.is_match(&TokenType::TokenDeclaration) {
            self.expression(memo);
        } else {
            self.emit_byte(OpCode::OpNull.to_byte());
        }
        self.consume_expr_end("Expected ';' after variable declaration");

        self.define_variable(declaration_index)
    }

    fn statement(&mut self, memo: &FloatMemo)
        requires
            old(self).wf(),
        ensures
            final(self)@ == old(self)@.statement(memo@),
            final(self).kept(old(self)),
            !old(self)@.parser.at_end() ==> final(self)@.measure() < old(self)@.measure(),
    {
        if self.is_match(&TokenType::TokenPrint) {
            self.print_statement(memo);
        } else {
            self.expression_statement(memo);
        }
    }

    fn print_statement(&mut self, memo: &FloatMemo)
        requires
            old(self).wf(),
        ensures
            final(self)@ == old(self)@.expression(memo@).consume_expr_end(
                "Expected ';' after value"@,
            ).emit_byte(OpCode::OpPrint.byte()),
            final(self).kept(old(self)),
            !old(self)@.parser.at_end() ==> final(self)@.measure() < old(self)@.measure(),
    {
        self.expression(memo);
        self.consume_expr_end("Expected ';' after value");
        self.emit_byte(OpCode::OpPrint.to_byte());
    }

    fn expression_statement(&mut self, memo: &FloatMemo)
        requires
            old(self).wf(),
        ensures
            final(self)@ == old(self)@.expression(memo@).consume_expr_end(
                "Expected ';' after value"@,
            ).emit_byte(OpCode::OpPop.byte()),
            final(self).kept(old(self)),
            !old(self)@.parser.at_end() ==> final(self)@.measure() < old(self)@.measure(),
    {
        self.expression(memo);
        self.consume_expr_end("Expected ';' after value");
        self.emit_byte(OpCode::OpPop.to_byte());
    }

    fn expression(&mut self, memo: &FloatMemo)
        requires
            old(self).wf(),
        ensures
            final(self)@ == old(self)@.expression(memo@),
            final(self).kept(old(self)),
            !old(self)@.parser.at_end() ==> final(self)@.measure() < old(self)@.measure(),
        decreases old(self)@.measure(), 1nat,
    {
        self.parse_precedence(Precedence::PrecAssignment, memo)
    }

    fn named_variable(
        &mut self,
        lexeme: String,
        value_type: ValueType,
        is_mutable: bool,
        memo: &FloatMemo,
    )
        requires
            old(self).wf(),
        ensures
            final(self)@ == old(self)@.named_variable(lexeme@, value_type, is_mutable, memo@),
            final(self).kept(old(self)),
        decreases old(self)@.measure(), 3nat,
    {
        if self.get_can_declare() && self.check(&TokenType::TokenDeclaration) {
            self.variable_declaration(lexeme, value_type, is_mutable, memo)
        } else if self.get_can_declare() && self.is_match(&TokenType::TokenEqual) {
            if !(value_type == ValueType::Dynamic || value_type == ValueType::Empty) {
                let mut message = concat("Unexpected type before variable ", lexeme.as_str());
                message.append(" is reassigned: ");
                self.parser.report_error_at_saved_token(&message);
            } else {
                let variable_index = self.identifier_lookup_constant(lexeme);
                self.expression(memo);
                self.emit_bytes(OpCode::OpSetGlobal.to_byte(), variable_index)
            }
        } else {
            let variable_index = self.identifier_lookup_constant(lexeme);
            self.emit_bytes(OpCode::OpGetGlobal.to_byte(), variable_index)
        }
    }

    /// The handler for a keyword that stands for a type.
    pub fn type_keyword(&mut self, memo: &FloatMemo)
        requires
            old(self).wf(),
        ensures
            final(self)@ == old(self)@.type_keyword(memo@),
            final(self).kept(old(self)),
        decreases old(self)@.measure(), 4nat,
    {
        let is_mutable = self.after_mutable();
        let parsed_type = self.previous_kind().parse_to_type();
        self.save_previous();

        if self.check(&TokenType::TokenIdentifier) {
            proof {
                lemma_advance(self@.parser);
            }
            self.advance();
            let lexeme = self.previous_lexeme();
            self.named_variable(lexeme, parsed_type, is_mutable, memo)
        } else {
            self.report("Expected identifier after type keyword");
        }
    }

    /// The handler for a name.
    pub fn variable(&mut self, memo: &FloatMemo)
        requires
            old(self).wf(),
        ensures
            final(self)@ == old(self)@.variable(memo@),
            final(self).kept(old(self)),
        decreases old(self)@.measure(), 4nat,
    {
        let is_mutable = self.after_mutable();
        let lexeme = self.previous_lexeme();
        self.named_variable(lexeme, ValueType::Dynamic, is_mutable, memo)
    }

    /// The handler for the `{` of an interpolation.
    pub fn interpolate(&mut self, memo: &FloatMemo)
        requires
            old(self).wf(),
        ensures
            final(self)@ == old(self)@.interpolate(memo@),
            final(self).kept(old(self)),
        decreases old(self)@.measure(), 3nat,
    {
        self.expression(memo);

        self.emit_byte(OpCode::OpInterpolate.to_byte());

        self.consume(TokenType::TokenInterpolationEnd, "Expected '}' after interpolation");
        proof {
            lemma_advance(self@.parser);
        }
        self.advance();

        if !self.previous_kind().same(&TokenType::TokenStringEnd) {
            assert(self@.measure() < old(self)@.measure() || self@.previous_kind()
                == TokenTypeView::TokenEof);
            self.string(memo);
            self.emit_byte(OpCode::OpInterpolate.to_byte());
        }
    }

    /// The handler for a string: for its opening quote and for its pieces.
    pub fn string(&mut self, memo: &FloatMemo)
        requires
            old(self).wf(),
        ensures
            final(self)@ == old(self)@.string(memo@),
            final(self).kept(old(self)),
        decreases old(self)@.measure(), old(self)@.string_rank(),
    {
        proof {
            lemma_advance(self@.parser);
        }
        if self.previous_kind().same(&TokenType::TokenStringStart) {
            self.advance();
        }
        let ghost opened = self@;
        proof {
            lemma_advance(opened.parser);
        }
        let kind = self.previous_kind();
        if kind.same(&TokenType::TokenStringEnd) {
            self.advance();
            let line = self.previous_line();
            self.emit_constant(Value::String(String::new()), line);
            return;
        }
        if kind.same(&TokenType::TokenInterpolationStart) {
            let line = self.previous_line();
            self.emit_constant(Value::String(String::new()), line);
            self.interpolate(memo);
            return;
        }
        let string_lexeme = self.previous_lexeme();
        let line = self.previous_line();
        self.emit_constant(Value::String(string_lexeme), line);
        self.expression(memo);
    }

    /// The handler for a number.
    pub fn number(&mut self, memo: &FloatMemo)
        requires
            old(self).wf(),
        ensures
            final(self)@ == old(self)@.number(memo@),
            final(self).kept(old(self)),
    {
        let line = self.previous_line();
        let lexeme = self.previous_lexeme();
        match read_number(lexeme.as_str().as_bytes()) {
            Literal::Int32(v) => self.emit_constant(Value::Int32(v), line),
            Literal::Int64(v) => self.emit_constant(Value::Int64(v), line),
            Literal::Float => {
                let task = FloatTask::Parse(lexeme);
                let answer = match memo.find(&task) {
                    Some(FloatAnswer::Bits(bits)) => Some(Some(*bits)),
                    Some(FloatAnswer::Invalid) => Some(None),
                    _ => None,
                };
                match answer {
                    Some(Some(bits)) => self.emit_constant(Value::Float64(bits), line),
                    Some(None) => {},
                    None => {
                        if self.pending.is_none() {
                            self.pending = Some(task);
                        }
                    },
                }
            },
        }
    }

    /// The handler for `(`.
    pub fn grouping(&mut self, memo: &FloatMemo)
        requires
            old(self).wf(),
        ensures
            final(self)@ == old(self)@.grouping(memo@),
            final(self).kept(old(self)),
        decreases old(self)@.measure(), 2nat,
    {
        self.expression(memo);
        proof {
            lemma_advance(self@.parser);
        }
        self.consume(TokenType::TokenRightParen, "Expected ')' after expression");
    }

    /// The handler for a unary operator.
    pub fn unary(&mut self, memo: &FloatMemo)
        requires
            old(self).wf(),
        ensures
            final(self)@ == old(self)@.unary(memo@),
            final(self).kept(old(self)),
        decreases old(self)@.measure(), 2nat,
    {
        let operator_type = self.previous_kind();

        self.parse_precedence(Precedence::PrecUnary, memo);

        self.emit_unary(&operator_type);
    }

    /// The handler for a binary operator.
    pub fn binary(&mut self, memo: &FloatMemo)
        requires
            old(self).wf(),
        ensures
            final(self)@ == old(self)@.binary(memo@),
            final(self).kept(old(self)),
        decreases old(self)@.measure(), 2nat,
    {
        let operator_type = self.previous_kind();

        let parse_rule = get_rule(&operator_type);

        self.parse_precedence(parse_rule.get_precedence().get_next(), memo);

        self.emit_binary(&operator_type);
    }

    /// The handler for `true`, `false` and `null`.
    pub fn literal(&mut self)
        requires
            old(self).wf(),
        ensures
            final(self)@ == old(self)@.literal(),
            final(self).kept(old(self)),
    {
        match self.previous_kind() {
            TokenType::TokenFalse => self.emit_byte(OpCode::OpFalse.to_byte()),
            TokenType::TokenTrue => self.emit_byte(OpCode::OpTrue.to_byte()),
            TokenType::TokenNull => self.emit_byte(OpCode::OpNull.to_byte()),
            _ => {},
        }
    }

    fn apply(&mut self, handler: ParseFn, memo: &FloatMemo)
        requires
            old(self).wf(),
        ensures
            final(self)@ == old(self)@.apply(handler, memo@),
            final(self).kept(old(self)),
        decreases old(self)@.measure(), 6nat,
    {
        match handler {
            ParseFn::Grouping => self.grouping(memo),
            ParseFn::Unary => self.unary(memo),
            ParseFn::Binary => self.binary(memo),
            ParseFn::Number => self.number(memo),
            ParseFn::String => self.string(memo),
            ParseFn::Interpolate => self.interpolate(memo),
            ParseFn::Literal => self.literal(),
            ParseFn::Variable => self.variable(memo),
            ParseFn::TypeKeyword => self.type_keyword(memo),
            ParseFn::ParseNext => self.parse_next(memo),
            ParseFn::Empty => self.empty(),
        }
    }

    fn check_target(&mut self, can_declare: bool)
        requires
            old(self).wf(),
        ensures
            final(self)@ == old(self)@.check_target(can_declare),
            final(self).kept(old(self)),
    {
        if can_declare && (self.is_match(&TokenType::TokenDeclaration) || self.is_match(
            &TokenType::TokenEqual,
        )) {
            self.report("Invalid assignment target");
        }
    }

    fn infix_loop(&mut self, precedence: Precedence, can_declare: bool, memo: &FloatMemo)
        requires
            old(self).wf(),
        ensures
            final(self)@ == old(self)@.infix_loop(precedence, can_declare, memo@),
            final(self).kept(old(self)),
        decreases old(self)@.measure(), 0nat,
    {
        proof {
            lemma_advance(self@.parser);
        }
        let bound = match self.parser.get_current() {
            Some(token) => get_rule(token.get_token_type()).get_precedence().to_level(),
            None => 0,
        };
        if self.at_end() || bound < precedence.to_level() {
            return;
        }
        self.advance();

        let infix_rule = get_rule(&self.previous_kind()).get_infix();

        if let Some(infix_rule) = infix_rule {
            self.apply(infix_rule, memo);
        }
        self.check_target(can_declare);
        self.infix_loop(precedence, can_declare, memo);
    }

    fn parse_precedence(&mut self, precedence: Precedence, memo: &FloatMemo)
        requires
            old(self).wf(),
        ensures
            final(self)@ == old(self)@.parse_precedence(precedence, memo@),
            final(self).kept(old(self)),
            !old(self)@.parser.at_end() ==> final(self)@.measure() < old(self)@.measure(),
        decreases old(self)@.measure(), 0nat,
    {
        proof {
            lemma_advance(self@.parser);
        }
        self.advance();

        let parse_rule = get_rule(&self.previous_kind());
        proof {
            lemma_rule_of_eof(self@.previous_kind());
        }

        let prefix_rule = parse_rule.get_prefix();

        if let Some(prefix_rule) = prefix_rule {
            let can_declare = precedence.to_level() <= Precedence::PrecAssignment.to_level();
            self.set_can_declare(can_declare);
            self.apply(prefix_rule, memo);
            self.infix_loop(precedence, can_declare, memo);
        } else {
            self.report("Expected expression");
        }
    }

    /// The handler for the marker of mutability: an expression.
    pub fn parse_next(&mut self, memo: &FloatMemo)
        requires
            old(self).wf(),
        ensures
            final(self)@ == old(self)@.parse_next(memo@),
            final(self).kept(old(self)),
        decreases old(self)@.measure(), 1nat,
    {
        self.parse_precedence(Precedence::PrecAssignment, memo)
    }

    /// The handler that does nothing.
    pub fn empty(&mut self)
        ensures
            final(self)@ == old(self)@,
    {
    }
}

} // verus!
