//! The compiler's small steps: tokens at hand, bytes and constants.
use vstd::prelude::*;
use vstd::string::*;
use super::Compiler;
use super::spec::CompilerView;
use crate::opcodes::OpCode;
use crate::parser::{ParserView, lemma_advance};
use crate::token::token_type::TokenType;
use crate::value::{Value, ValueType, VariableDefinition};

verus! {

impl<'a> Compiler<'a> {
    /// Consumes the current token.
    pub(super) fn advance(&mut self)
        requires
            old(self).wf(),
        ensures
            final(self)@ == old(self)@.advance(),
            final(self).kept(old(self)),
            !old(self)@.parser.at_end() ==> final(self)@.measure() < old(self)@.measure(),
            final(self)@.parser.previous == old(self)@.parser.current,
    {
        self.parser.advance();
    }

    /// Consumes a token of a kind, or reports that there is none.
    pub(super) fn consume(&mut self, token_type: TokenType, msg: &str)
        requires
            old(self).wf(),
        ensures
            final(self)@ == old(self)@.consume(token_type@, msg@),
            final(self).kept(old(self)),
    {
        self.parser.consume(token_type, msg);
    }

    /// Reports an error at the current token.
    pub(super) fn report(&mut self, msg: &str)
        requires
            old(self).wf(),
        ensures
            final(self)@ == old(self)@.report(msg@),
            final(self).kept(old(self)),
    {
        self.parser.report_error(&String::from_str(msg));
    }

    /// Whether the current token is of a kind.
    pub(super) fn check(&self, token_type: &TokenType) -> (r: bool)
        requires
            self.wf(),
        ensures
            r == (self@.current_kind() == token_type@),
            r == (self@.parser.current is Some && self@.parser.current->0.kind == token_type@),
    {
        self.parser.check(token_type)
    }

    /// Whether the current token is the end of the source.
    pub(super) fn at_end(&self) -> (r: bool)
        requires
            self.wf(),
        ensures
            r == self@.parser.at_end(),
    {
        self.parser.check(&TokenType::TokenEof)
    }

    /// Writes the instruction of a unary operator.
    pub(super) fn emit_unary(&mut self, operator: &TokenType)
        requires
            old(self).wf(),
        ensures
            final(self)@ == old(self)@.emit_unary(operator@),
            final(self).kept(old(self)),
    {
        match operator {
            TokenType::TokenMinus => self.emit_byte(OpCode::OpNegate.to_byte()),
            TokenType::TokenBang => self.emit_byte(OpCode::OpNot.to_byte()),
            _ => {},
        }
    }

    /// Writes the instruction of a binary operator.
    pub(super) fn emit_binary(&mut self, operator: &TokenType)
        requires
            old(self).wf(),
        ensures
            final(self)@ == old(self)@.emit_binary(operator@),
            final(self).kept(old(self)),
    {
        match operator {
            TokenType::TokenBangEqual => self.emit_byte(OpCode::OpBangEqual.to_byte()),
            TokenType::TokenEqualEqual => self.emit_byte(OpCode::OpEqualEqual.to_byte()),
            TokenType::TokenGreater => self.emit_byte(OpCode::OpGreater.to_byte()),
            TokenType::TokenGreaterEqual => self.emit_byte(OpCode::OpGreaterEqual.to_byte()),
            TokenType::TokenLess => self.emit_byte(OpCode::OpLess.to_byte()),
            TokenType::TokenLessEqual => self.emit_byte(OpCode::OpLessEqual.to_byte()),
            TokenType::TokenPlus => self.emit_byte(OpCode::OpAdd.to_byte()),
            TokenType::TokenMinus => self.emit_byte(OpCode::OpSubtract.to_byte()),
            TokenType::TokenStar => self.emit_byte(OpCode::OpMultiply.to_byte()),
            TokenType::TokenSlash => self.emit_byte(OpCode::OpDivide.to_byte()),
            TokenType::TokenPower => self.emit_byte(OpCode::OpPower.to_byte()),
            _ => {},
        }
    }

    fn write_chunk(&mut self, byte: u8, line: usize)
        requires
            old(self).wf(),
        ensures
            final(self)@ == (CompilerView {
                chunk: old(self)@.chunk.write_byte(byte, line),
                ..old(self)@
            }),
            final(self).kept(old(self)),
    {
        self.compiling_chunk.write_byte(byte, line);
    }

    pub(super) fn make_constant(&mut self, value: Value, line: usize) -> (index: u8)
        requires
            old(self).wf(),
        ensures
            (final(self)@, index) == old(self)@.make_constant(value@),
            final(self).kept(old(self)),
    {
        let constant = self.compiling_chunk.write_constant(value, line);
        if constant > 255 {
            self.report("Too many constants in one chunk");
            return 0;
        }
        constant as u8
    }

    pub(super) fn identifier_lookup_constant(&mut self, name: String) -> (index: u8)
        requires
            old(self).wf(),
        ensures
            (final(self)@, index) == old(self)@.make_constant(
                crate::value::ValueView::VariableLookup(name@),
            ),
            final(self).kept(old(self)),
    {
        let line = self.previous_line();
        self.make_constant(Value::VariableLookup(name), line)
    }

    pub(super) fn parse_declaration_name(
        &mut self,
        lexeme: String,
        value_type: ValueType,
        is_mutable: bool,
    ) -> (index: u8)
        requires
            old(self).wf(),
        ensures
            (final(self)@, index) == old(self)@.make_constant(
                crate::value::ValueView::VariableDefinition(
                    crate::value::VariableDefinitionView {
                        name: lexeme@,
                        value_type,
                        mutable: is_mutable,
                    },
                ),
            ),
            final(self).kept(old(self)),
    {
        let line = self.previous_line();
        self.make_constant(
            Value::VariableDefinition(VariableDefinition::new(lexeme, value_type, is_mutable)),
            line,
        )
    }

    pub(super) fn define_variable(&mut self, global_variable_index: u8)
        requires
            old(self).wf(),
        ensures
            final(self)@ == old(self)@.emit_bytes(
                OpCode::OpDefineGlobal.byte(),
                global_variable_index,
            ),
            final(self).kept(old(self)),
    {
        self.emit_bytes(OpCode::OpDefineGlobal.to_byte(), global_variable_index);
    }

    pub(super) fn consume_expr_end(&mut self, message: &str)
        requires
            old(self).wf(),
        ensures
            final(self)@ == old(self)@.consume_expr_end(message@),
            final(self).kept(old(self)),
    {
        proof {
            lemma_advance(self@.parser);
        }
        if self.check(&TokenType::TokenSemicolon) {
            self.advance();
        } else if self.check(&TokenType::TokenEof) {
        } else if self.previous_kind().same(&TokenType::TokenSemicolon) {
        } else {
            let prev_line = self.previous_line();
            let current_line = match self.parser.get_current() {
                Some(token) => token.get_line(),
                None => 0,
            };
            if current_line <= prev_line {
                self.report(message);
            }
        }
    }

    fn at_statement_start(&self) -> (r: bool)
        requires
            self.wf(),
        ensures
            r == self@.at_statement_start(),
    {
        match self.parser.get_current() {
            Some(token) => match token.get_token_type() {
                TokenType::TokenClass
                | TokenType::TokenFn
                | TokenType::TokenFor
                | TokenType::TokenIf
                | TokenType::TokenWhile
                | TokenType::TokenPrint
                | TokenType::TokenReturn => true,
                _ => false,
            },
            None => false,
        }
    }

    pub(super) fn synchronize(&mut self)
        requires
            old(self).wf(),
        ensures
            final(self)@ == old(self)@.synchronize(),
            final(self).kept(old(self)),
    {
        self.parser.set_panic_mode(false);
        let ghost begun = self@;
        loop
            invariant
                self.wf(),
                self@.skip_to_statement() == begun.skip_to_statement(),
                self@.source() == begun.source(),
                self@.measure() <= begun.measure(),
                begun.parser.aligned() ==> self@.parser.aligned(),
            ensures
                self.wf(),
                self@ == begun.skip_to_statement(),
                self@.source() == begun.source(),
                self@.measure() <= begun.measure(),
                begun.parser.aligned() ==> self@.parser.aligned(),
            decreases self@.measure(),
        {
            proof {
                lemma_advance(self@.parser);
            }
            if self.at_end() {
                break;
            }
            if self.previous_kind().same(&TokenType::TokenSemicolon) {
                break;
            }
            if self.at_statement_start() {
                break;
            }
            self.advance();
        }
    }

    pub(super) fn is_match(&mut self, token_type: &TokenType) -> (r: bool)
        requires
            old(self).wf(),
        ensures
            (final(self)@, r) == old(self)@.is_match(token_type@),
            final(self).kept(old(self)),
    {
        proof {
            lemma_advance(self@.parser);
        }
        if !self.check(token_type) {
            false
        } else {
            self.advance();
            true
        }
    }

    pub(super) fn emit_byte(&mut self, byte: u8)
        requires
            old(self).wf(),
        ensures
            final(self)@ == old(self)@.emit_byte(byte),
            final(self).kept(old(self)),
    {
        let line = match self.parser.get_previous() {
            Some(token) => Some(token.get_line()),
            None => None,
        };
        match line {
            Some(line) => self.write_chunk(byte, line),
            None => self.report("Failed to emit byte"),
        }
    }

    pub(super) fn emit_bytes(&mut self, byte1: u8, byte2: u8)
        requires
            old(self).wf(),
        ensures
            final(self)@ == old(self)@.emit_bytes(byte1, byte2),
            final(self).kept(old(self)),
    {
        self.emit_byte(byte1);
        self.emit_byte(byte2);
    }

    pub(super) fn emit_constant(&mut self, value: Value, line: usize)
        requires
            old(self).wf(),
        ensures
            final(self)@ == old(self)@.emit_constant(value@),
            final(self).kept(old(self)),
    {
        let constant = self.make_constant(value, line);
        self.emit_bytes(OpCode::OpConstant.to_byte(), constant)
    }

    pub(super) fn emit_return(&mut self)
        requires
            old(self).wf(),
        ensures
            final(self)@ == old(self)@.emit_byte(OpCode::OpReturn.byte()),
            final(self).kept(old(self)),
    {
        self.emit_byte(OpCode::OpReturn.to_byte());
    }

    /// Whether the marker of mutability stands two tokens back.
    pub(super) fn after_mutable(&self) -> (r: bool)
        ensures
            r == self@.after_mutable(),
    {
        match self.parser.get_double_previous_type() {
            Some(kind) => kind.same(&TokenType::TokenMutable),
            None => false,
        }
    }

    /// The kind of the token consumed last; `TokenEof` if none was.
    pub(super) fn previous_kind(&self) -> (kind: TokenType)
        ensures
            kind@ == self@.previous_kind(),
    {
        match self.parser.get_previous() {
            Some(token) => token.get_token_type().clone(),
            None => TokenType::TokenEof,
        }
    }

    /// The line of the token consumed last; 0 if none was.
    pub(super) fn previous_line(&self) -> (line: usize)
        ensures
            line == self@.previous_line(),
    {
        match self.parser.get_previous() {
            Some(token) => token.get_line(),
            None => 0,
        }
    }

    /// The text of the token consumed last; empty if none was.
    pub(super) fn previous_lexeme(&self) -> (text: String)
        ensures
            text@ == self@.previous_lexeme(),
    {
        match self.parser.get_previous() {
            Some(token) => token.get_lexeme(self.parser.get_source()),
            None => String::new(),
        }
    }

    /// Keeps the token consumed last for a later report.
    pub(super) fn save_previous(&mut self)
        requires
            old(self).wf(),
        ensures
            final(self)@ == (CompilerView {
                parser: ParserView {
                    saved_token: old(self)@.parser.previous,
                    ..old(self)@.parser
                },
                ..old(self)@
            }),
            final(self).kept(old(self)),
    {
        let saved = match self.parser.get_previous() {
            Some(token) => Some(token.clone()),
            None => None,
        };
        match saved {
            Some(token) => self.parser.set_saved_token(token),
            None => self.parser.clear_saved_token(),
        }
    }

    pub(super) fn set_can_declare(&mut self, can_declare: bool)
        requires
            old(self).wf(),
        ensures
            final(self)@ == old(self)@.with_can_declare(can_declare),
            final(self).kept(old(self)),
    {
        self.parser.set_can_declare(can_declare);
    }

    pub(super) fn get_can_declare(&self) -> (r: bool)
        ensures
            r == self@.parser.can_declare,
    {
        self.parser.get_can_declare()
    }
}

} // verus!
