//! What the compiler does, as functions of its state. The compiler reads the
//! tokens once and writes bytecode as it goes; an expression is compiled by
//! precedence climbing over the table of parse rules.
use vstd::prelude::*;
use vstd::utf8::encode_utf8;
use crate::arith::Answers;
use crate::chunk::ChunkView;
use crate::float::{FloatAnswerView, FloatTaskView, lookup};
use crate::number::{Literal, classify};
use crate::opcodes::OpCode;
use crate::parse_rule::{ParseFn, rule_of};
use crate::parser::{DiagnosticView, ParserView, lemma_advance};
use crate::precedence::Precedence;
use crate::token::lexeme;
use crate::token::token_type::TokenTypeView;
use crate::value::{ValueType, ValueView, VariableDefinitionView};

verus! {

/// The state of a compiler.
pub struct CompilerView {
    /// The parser, which holds the tokens at hand and the errors.
    pub parser: ParserView,
    /// The chunk that is being written.
    pub chunk: ChunkView,
    /// The first number literal that is to be read as a float and whose
    /// value the memo lacks, if there was one.
    pub pending: Option<FloatTaskView>,
}

/// Why a source gave no chunk.
pub enum CompileFailedView {
    /// The source has errors: these.
    Syntax(Seq<DiagnosticView>),
    /// A number literal is to be read as a float and the memo lacks its
    /// value: the host is to read it and compile again.
    Float(FloatTaskView),
}

impl CompilerView {
    /// The parser and the chunk are well formed.
    pub open spec fn wf(self) -> bool {
        self.parser.wf() && self.chunk.wf()
    }

    /// How much is left to parse.
    pub open spec fn measure(self) -> int {
        self.parser.measure()
    }

    /// Whether this state is well formed and has less left to parse than
    /// another.
    pub open spec fn follows(self, from: CompilerView) -> bool {
        self.parser.wf() && self.measure() < from.measure()
    }

    /// Whether this state is well formed, over the same source as another,
    /// with no more left to parse.
    pub open spec fn keeps(self, before: CompilerView) -> bool {
        &&& self.parser.wf()
        &&& self.source() == before.source()
        &&& self.measure() <= before.measure()
    }

    /// Whether this state has the same tokens at hand as another, and the
    /// scanner at the same place.
    pub open spec fn still(self, before: CompilerView) -> bool {
        &&& self.parser.lexer == before.parser.lexer
        &&& self.parser.current == before.parser.current
        &&& self.parser.previous == before.parser.previous
    }

    /// The bytes of the source.
    pub open spec fn source(self) -> Seq<u8> {
        self.parser.lexer.source
    }

    /// The compiler at the start of a source, with an empty chunk.
    pub open spec fn initial(source: Seq<u8>) -> CompilerView {
        CompilerView {
            parser: ParserView::initial(source),
            chunk: ChunkView::empty(),
            pending: None,
        }
    }

    /// The kind of the current token.
    pub open spec fn current_kind(self) -> TokenTypeView {
        self.parser.current_kind()
    }

    /// The kind of the token consumed last; `TokenEof` if none was.
    pub open spec fn previous_kind(self) -> TokenTypeView {
        match self.parser.previous {
            Some(t) => t.kind,
            None => TokenTypeView::TokenEof,
        }
    }

    /// The line of the token consumed last; 0 if none was.
    pub open spec fn previous_line(self) -> usize {
        match self.parser.previous {
            Some(t) => t.line,
            None => 0,
        }
    }

    /// The text of the token consumed last; empty if none was.
    pub open spec fn previous_lexeme(self) -> Seq<char> {
        match self.parser.previous {
            Some(t) => lexeme(self.source(), t.start as int, t.length as int),
            None => Seq::empty(),
        }
    }

    /// Whether the marker of mutability stands two tokens back.
    pub open spec fn after_mutable(self) -> bool {
        self.parser.double_previous_type == Some(TokenTypeView::TokenMutable)
    }

    /// The compiler after the parser has consumed the current token.
    pub open spec fn advance(self) -> CompilerView {
        CompilerView { parser: self.parser.advance(), ..self }
    }

    /// The compiler after a report at the current token.
    pub open spec fn report(self, message: Seq<char>) -> CompilerView {
        CompilerView { parser: self.parser.report_error(message), ..self }
    }

    /// The compiler after the parser has consumed a token of the given kind,
    /// or reported that there is none.
    pub open spec fn consume(self, kind: TokenTypeView, what: Seq<char>) -> CompilerView {
        CompilerView { parser: self.parser.consume(kind, what), ..self }
    }

    /// The compiler with a new leave to declare.
    pub open spec fn with_can_declare(self, can_declare: bool) -> CompilerView {
        CompilerView { parser: ParserView { can_declare, ..self.parser }, ..self }
    }

    /// Consuming the current token if it is of the given kind: the compiler
    /// after that, and whether the token was of the kind.
    pub open spec fn is_match(self, kind: TokenTypeView) -> (CompilerView, bool) {
        if self.parser.current is Some && self.current_kind() == kind {
            (self.advance(), true)
        } else {
            (self, false)
        }
    }

    /// One byte of code, with the line of the token consumed last. Where no
    /// token was consumed yet this is an error.
    pub open spec fn emit_byte(self, byte: u8) -> CompilerView {
        match self.parser.previous {
            Some(t) => CompilerView { chunk: self.chunk.write_byte(byte, t.line), ..self },
            None => self.report("Failed to emit byte"@),
        }
    }

    /// Two bytes of code.
    pub open spec fn emit_bytes(self, byte1: u8, byte2: u8) -> CompilerView {
        self.emit_byte(byte1).emit_byte(byte2)
    }

    /// A value added to the constant pool, with its index as a byte. An
    /// index has one byte: where the pool holds more than 256 values after
    /// that, this is an error and the byte is 0.
    pub open spec fn make_constant(self, value: ValueView) -> (CompilerView, u8) {
        let index = self.chunk.constants.len();
        let added = CompilerView { chunk: self.chunk.write_constant(value), ..self };
        if index > 255 {
            (added.report("Too many constants in one chunk"@), 0u8)
        } else {
            (added, index as u8)
        }
    }

    /// A value added to the constant pool, and the instruction that pushes it.
    pub open spec fn emit_constant(self, value: ValueView) -> CompilerView {
        let made = self.make_constant(value);
        made.0.emit_bytes(OpCode::OpConstant.byte(), made.1)
    }

    /// The end of a statement: a semicolon, which is consumed, or the end of
    /// the source, or a token on a later line than the one before it. A
    /// statement has also ended where the token consumed last is a
    /// semicolon: a declaration within it has consumed its own. Any other
    /// token is an error.
    pub open spec fn consume_expr_end(self, message: Seq<char>) -> CompilerView {
        if self.current_kind() == TokenTypeView::TokenSemicolon {
            self.advance()
        } else if self.current_kind() == TokenTypeView::TokenEof {
            self
        } else if self.previous_kind() == TokenTypeView::TokenSemicolon {
            self
        } else if self.parser.current->0.line <= self.previous_line() {
            self.report(message)
        } else {
            self
        }
    }

    /// Whether a statement begins with the current token.
    pub open spec fn at_statement_start(self) -> bool {
        let kind = self.current_kind();
        kind == TokenTypeView::TokenClass || kind == TokenTypeView::TokenFn || kind
            == TokenTypeView::TokenFor || kind == TokenTypeView::TokenIf || kind
            == TokenTypeView::TokenWhile || kind == TokenTypeView::TokenPrint || kind
            == TokenTypeView::TokenReturn
    }

    /// Tokens are consumed up to the end of the source, up to after a
    /// semicolon, or up to before a token that begins a statement.
    pub open spec fn skip_to_statement(self) -> CompilerView
        decreases self.measure(),
        when self.parser.wf()
    {
        if self.parser.at_end() || self.previous_kind() == TokenTypeView::TokenSemicolon
            || self.at_statement_start() {
            self
        } else {
            proof {
                lemma_advance(self.parser);
            }
            self.advance().skip_to_statement()
        }
    }

    /// The end of panic mode: reports are made again, and the tokens up to
    /// the next statement are passed over.
    pub open spec fn synchronize(self) -> CompilerView {
        CompilerView {
            parser: ParserView { panic_mode: false, ..self.parser },
            ..self
        }.skip_to_statement()
    }

    /// `true`, `false` and `null`: one instruction.
    pub open spec fn literal(self) -> CompilerView {
        match self.previous_kind() {
            TokenTypeView::TokenFalse => self.emit_byte(OpCode::OpFalse.byte()),
            TokenTypeView::TokenTrue => self.emit_byte(OpCode::OpTrue.byte()),
            TokenTypeView::TokenNull => self.emit_byte(OpCode::OpNull.byte()),
            _ => self,
        }
    }

    /// A number: a constant of 32 bits if the text writes an integer that
    /// fits, else one of 64 bits if it fits, else the float that the host
    /// reads the text as. Where the host finds no number in the text nothing
    /// is written; where the memo lacks the host's answer nothing is written
    /// and the task is kept, unless an earlier one is kept already.
    pub open spec fn number(self, memo: Answers) -> CompilerView {
        let text = self.previous_lexeme();
        match classify(encode_utf8(text)) {
            Literal::Int32(v) => self.emit_constant(ValueView::Int32(v)),
            Literal::Int64(v) => self.emit_constant(ValueView::Int64(v)),
            Literal::Float => match lookup(memo, FloatTaskView::Parse(text)) {
                Some(FloatAnswerView::Bits(bits)) => self.emit_constant(ValueView::Float64(bits)),
                Some(FloatAnswerView::Invalid) => self,
                _ => CompilerView {
                    pending: if self.pending is None {
                        Some(FloatTaskView::Parse(text))
                    } else {
                        self.pending
                    },
                    ..self
                },
            },
        }
    }

    /// The instruction of a unary operator.
    pub open spec fn emit_unary(self, operator: TokenTypeView) -> CompilerView {
        match operator {
            TokenTypeView::TokenMinus => self.emit_byte(OpCode::OpNegate.byte()),
            TokenTypeView::TokenBang => self.emit_byte(OpCode::OpNot.byte()),
            _ => self,
        }
    }

    /// The instruction of a binary operator.
    pub open spec fn emit_binary(self, operator: TokenTypeView) -> CompilerView {
        match operator {
            TokenTypeView::TokenBangEqual => self.emit_byte(OpCode::OpBangEqual.byte()),
            TokenTypeView::TokenEqualEqual => self.emit_byte(OpCode::OpEqualEqual.byte()),
            TokenTypeView::TokenGreater => self.emit_byte(OpCode::OpGreater.byte()),
            TokenTypeView::TokenGreaterEqual => self.emit_byte(OpCode::OpGreaterEqual.byte()),
            TokenTypeView::TokenLess => self.emit_byte(OpCode::OpLess.byte()),
            TokenTypeView::TokenLessEqual => self.emit_byte(OpCode::OpLessEqual.byte()),
            TokenTypeView::TokenPlus => self.emit_byte(OpCode::OpAdd.byte()),
            TokenTypeView::TokenMinus => self.emit_byte(OpCode::OpSubtract.byte()),
            TokenTypeView::TokenStar => self.emit_byte(OpCode::OpMultiply.byte()),
            TokenTypeView::TokenSlash => self.emit_byte(OpCode::OpDivide.byte()),
            TokenTypeView::TokenPower => self.emit_byte(OpCode::OpPower.byte()),
            _ => self,
        }
    }

    /// The message for an assignment to a variable that a type stands before.
    pub open spec fn reassigned_message(name: Seq<char>) -> Seq<char> {
        "Unexpected type before variable "@ + name + " is reassigned: "@
    }

    /// The rank of `string` among the handlers, for the order in which the
    /// definitions below are well founded.
    pub open spec fn string_rank(self) -> nat {
        if self.previous_kind() == TokenTypeView::TokenInterpolationStart {
            4
        } else {
            2
        }
    }

    /// An expression: whatever binds at least as strongly as an assignment.
    pub open spec fn expression(self, memo: Answers) -> CompilerView
        decreases self.measure(), 1nat,
        when self.parser.wf()
    {
        self.parse_precedence(Precedence::PrecAssignment, memo)
    }

    /// The prefix handler of the marker of mutability: an expression.
    pub open spec fn parse_next(self, memo: Answers) -> CompilerView
        decreases self.measure(), 1nat,
        when self.parser.wf()
    {
        self.parse_precedence(Precedence::PrecAssignment, memo)
    }

    /// Precedence climbing. A token is consumed and its prefix handler
    /// compiles the start of the expression; without a prefix handler the
    /// token begins no expression, which is an error. Then, as long as the
    /// current token binds at least as strongly as `precedence`, it is
    /// consumed and its infix handler compiles what follows. Only an
    /// expression at the level of an assignment may declare or assign.
    ///
    /// The test `follows` always holds, since a handler never gives tokens
    /// back (`laws::lemma_apply`); it is there so that the definition is
    /// well founded.
    pub open spec fn parse_precedence(self, precedence: Precedence, memo: Answers) -> CompilerView
        decreases self.measure(), 0nat,
        when self.parser.wf()
    {
        let advanced = self.advance();
        match rule_of(advanced.previous_kind()).prefix {
            None => advanced.report("Expected expression"@),
            Some(handler) => {
                proof {
                    lemma_advance(self.parser);
                }
                let can_declare = precedence.level() <= Precedence::PrecAssignment.level();
                let started = advanced.with_can_declare(can_declare).apply(handler, memo);
                if started.follows(self) {
                    started.infix_loop(precedence, can_declare, memo)
                } else {
                    started
                }
            },
        }
    }

    /// The loop of precedence climbing: see `parse_precedence`. After each
    /// infix handler, in an expression that may declare or assign, a
    /// declaration operator or a `=` is consumed and is an error: what
    /// stands before it is no target of an assignment. The test `follows`
    /// always holds (`laws::lemma_apply`).
    pub open spec fn infix_loop(
        self,
        precedence: Precedence,
        can_declare: bool,
        memo: Answers,
    ) -> CompilerView
        decreases self.measure(), 0nat,
        when self.parser.wf()
    {
        if self.parser.at_end() || rule_of(self.current_kind()).precedence.level()
            < precedence.level() {
            self
        } else {
            proof {
                lemma_advance(self.parser);
            }
            let advanced = self.advance();
            let continued = match rule_of(advanced.previous_kind()).infix {
                Some(handler) => advanced.apply(handler, memo),
                None => advanced,
            };
            let checked = continued.check_target(can_declare);
            if checked.follows(self) {
                checked.infix_loop(precedence, can_declare, memo)
            } else {
                checked
            }
        }
    }

    /// See `infix_loop`: a declaration operator or a `=` after an operand.
    pub open spec fn check_target(self, can_declare: bool) -> CompilerView {
        if !can_declare {
            self
        } else {
            let declaration = self.is_match(TokenTypeView::TokenDeclaration);
            if declaration.1 {
                declaration.0.report("Invalid assignment target"@)
            } else {
                let equal = declaration.0.is_match(TokenTypeView::TokenEqual);
                if equal.1 {
                    equal.0.report("Invalid assignment target"@)
                } else {
                    equal.0
                }
            }
        }
    }

    /// The handler that a parse rule names.
    pub open spec fn apply(self, handler: ParseFn, memo: Answers) -> CompilerView
        decreases self.measure(), 6nat,
        when self.parser.wf()
    {
        match handler {
            ParseFn::Grouping => self.grouping(memo),
            ParseFn::Unary => self.unary(memo),
            ParseFn::Binary => self.binary(memo),
            ParseFn::Number => self.number(memo),
            ParseFn::String => self.string(memo),
            ParseFn::Interpolate => self.interpolate(memo),
            ParseFn::Literal => self.literal(),
            ParseFn::Variable => self.variable(memo),
            ParseFn::TypeKeyword => self.type_keyword(memo),
            ParseFn::ParseNext => self.parse_next(memo),
            ParseFn::Empty => self,
        }
    }

    /// After `(`: an expression and then `)`.
    pub open spec fn grouping(self, memo: Answers) -> CompilerView
        decreases self.measure(), 2nat,
        when self.parser.wf()
    {
        self.expression(memo).consume(
            TokenTypeView::TokenRightParen,
            "Expected ')' after expression"@,
        )
    }

    /// After a unary operator: the operand, which binds as strongly as a
    /// unary operator, and then the operator's instruction.
    pub open spec fn unary(self, memo: Answers) -> CompilerView
        decreases self.measure(), 2nat,
        when self.parser.wf()
    {
        self.parse_precedence(Precedence::PrecUnary, memo).emit_unary(self.previous_kind())
    }

    /// After a binary operator: the right operand, which binds more strongly
    /// than the operator, and then the operator's instruction. Operators of
    /// one level so group to the left.
    pub open spec fn binary(self, memo: Answers) -> CompilerView
        decreases self.measure(), 2nat,
        when self.parser.wf()
    {
        self.parse_precedence(rule_of(self.previous_kind()).precedence.next(), memo).emit_binary(
            self.previous_kind(),
        )
    }

    /// After a name: a declaration, an assignment or a reading of the
    /// variable of that name.
    pub open spec fn variable(self, memo: Answers) -> CompilerView
        decreases self.measure(), 4nat,
        when self.parser.wf()
    {
        self.named_variable(self.previous_lexeme(), ValueType::Dynamic, self.after_mutable(), memo)
    }

    /// After a keyword that stands for a type: the name of a variable and
    /// what follows it. The keyword is kept for a later report.
    pub open spec fn type_keyword(self, memo: Answers) -> CompilerView
        decreases self.measure(), 4nat,
        when self.parser.wf()
    {
        let mutable = self.after_mutable();
        let saved = CompilerView {
            parser: ParserView { saved_token: self.parser.previous, ..self.parser },
            ..self
        };
        let value_type = self.previous_kind().declared_type();
        if saved.current_kind() == TokenTypeView::TokenIdentifier {
            proof {
                lemma_advance(saved.parser);
            }
            let named = saved.advance();
            named.named_variable(named.previous_lexeme(), value_type, mutable, memo)
        } else {
            saved.report("Expected identifier after type keyword"@)
        }
    }

    /// After the name of a variable. Where the expression may declare or
    /// assign: before a declaration operator this is a declaration; before
    /// `=` it is an assignment, which no type may stand before: the value is
    /// compiled and `OpSetGlobal` stores it. Else the variable is read with
    /// `OpGetGlobal`. The name goes to the constant pool.
    pub open spec fn named_variable(
        self,
        name: Seq<char>,
        value_type: ValueType,
        mutable: bool,
        memo: Answers,
    ) -> CompilerView
        decreases self.measure(), 3nat,
        when self.parser.wf()
    {
        if self.parser.can_declare && self.current_kind() == TokenTypeView::TokenDeclaration {
            self.variable_declaration(name, value_type, mutable, memo)
        } else if self.parser.can_declare && self.current_kind() == TokenTypeView::TokenEqual {
            proof {
                lemma_advance(self.parser);
            }
            let assigned = self.advance();
            if !(value_type == ValueType::Dynamic || value_type == ValueType::Empty) {
                CompilerView {
                    parser: assigned.parser.report_error_at_saved_token(
                        Self::reassigned_message(name),
                    ),
                    ..assigned
                }
            } else {
                let made = assigned.make_constant(ValueView::VariableLookup(name));
                made.0.expression(memo).emit_bytes(OpCode::OpSetGlobal.byte(), made.1)
            }
        } else {
            let made = self.make_constant(ValueView::VariableLookup(name));
            made.0.emit_bytes(OpCode::OpGetGlobal.byte(), made.1)
        }
    }

    /// A declaration: the name, the type and the mutability go to the
    /// constant pool; after a declaration operator the initial value is
    /// compiled, and without one it is `Null`; the statement ends; and
    /// `OpDefineGlobal` installs the variable.
    pub open spec fn variable_declaration(
        self,
        name: Seq<char>,
        value_type: ValueType,
        mutable: bool,
        memo: Answers,
    ) -> CompilerView
        decreases self.measure(), 2nat,
        when self.parser.wf()
    {
        let made = self.make_constant(
            ValueView::VariableDefinition(VariableDefinitionView { name, value_type, mutable }),
        );
        let operator = made.0.is_match(TokenTypeView::TokenDeclaration);
        proof {
            lemma_advance(made.0.parser);
        }
        let valued = if operator.1 {
            operator.0.expression(memo)
        } else {
            operator.0.emit_byte(OpCode::OpNull.byte())
        };
        valued.consume_expr_end("Expected ';' after variable declaration"@).emit_bytes(
            OpCode::OpDefineGlobal.byte(),
            made.1,
        )
    }

    /// After `{` in a string: the expression, joined to what stands before
    /// it by `OpInterpolate`; then `}`; and, unless the string ends there,
    /// the rest of the string, joined by `OpInterpolate` as well.
    ///
    /// The test on `closed` always holds (`laws::lemma_expression`); it is
    /// there so that the definition is well founded.
    pub open spec fn interpolate(self, memo: Answers) -> CompilerView
        decreases self.measure(), 3nat,
        when self.parser.wf()
    {
        let closed = self.expression(memo).emit_byte(OpCode::OpInterpolate.byte()).consume(
            TokenTypeView::TokenInterpolationEnd,
            "Expected '}' after interpolation"@,
        ).advance();
        if closed.previous_kind() == TokenTypeView::TokenStringEnd {
            closed
        } else if closed.follows(self) || (closed.parser.wf() && closed.measure()
            == self.measure() && closed.string_rank() < 3) {
            closed.string(memo).emit_byte(OpCode::OpInterpolate.byte())
        } else {
            closed
        }
    }

    /// A string, from its opening quote or from one of its pieces. An empty
    /// string is the constant of the empty text, and the token after its
    /// closing quote is consumed. Before an interpolation stands the
    /// constant of the empty text. A piece of text is a constant, and what
    /// follows it is compiled as an expression: the closing quote, which
    /// begins an expression that is empty, or an interpolation.
    pub open spec fn string(self, memo: Answers) -> CompilerView
        decreases self.measure(), self.string_rank(),
        when self.parser.wf()
    {
        proof {
            lemma_advance(self.parser);
        }
        let opened = if self.previous_kind() == TokenTypeView::TokenStringStart {
            self.advance()
        } else {
            self
        };
        if opened.previous_kind() == TokenTypeView::TokenStringEnd {
            opened.advance().emit_constant(ValueView::String(Seq::empty()))
        } else if opened.previous_kind() == TokenTypeView::TokenInterpolationStart {
            opened.emit_constant(ValueView::String(Seq::empty())).interpolate(memo)
        } else {
            opened.emit_constant(ValueView::String(opened.previous_lexeme())).expression(memo)
        }
    }

    /// `print` and an expression, or an expression alone; then the end of
    /// the statement; then `OpPrint`, or `OpPop`, which discards the value.
    pub open spec fn statement(self, memo: Answers) -> CompilerView {
        let print = self.is_match(TokenTypeView::TokenPrint);
        print.0.expression(memo).consume_expr_end("Expected ';' after value"@).emit_byte(
            if print.1 {
                OpCode::OpPrint.byte()
            } else {
                OpCode::OpPop.byte()
            },
        )
    }

    /// A statement, and after an error in it the way to the next statement.
    pub open spec fn declaration(self, memo: Answers) -> CompilerView {
        let compiled = self.statement(memo);
        if compiled.parser.panic_mode {
            compiled.synchronize()
        } else {
            compiled
        }
    }

    /// Statement after statement, up to the end of the source, which is
    /// consumed.
    ///
    /// The test `follows` always holds (`laws::lemma_declaration`); it is
    /// there so that the definition is well founded.
    pub open spec fn declarations(self, memo: Answers) -> CompilerView
        decreases self.measure(),
        when self.parser.wf()
    {
        if self.parser.at_end() {
            self.advance()
        } else {
            let compiled = self.declaration(memo);
            if compiled.follows(self) {
                compiled.declarations(memo)
            } else {
                compiled
            }
        }
    }

    /// The whole source: its statements, and `OpReturn` at the end.
    pub open spec fn compile(self, memo: Answers) -> CompilerView {
        self.declarations(memo).consume(
            TokenTypeView::TokenEof,
            "Expected end of expression"@,
        ).emit_byte(OpCode::OpReturn.byte())
    }

    /// What the compilation gives: the task of a number literal whose value
    /// the memo lacks, if there is one; else the errors, if there are any;
    /// else the chunk.
    pub open spec fn outcome(self) -> Result<ChunkView, CompileFailedView> {
        match self.pending {
            Some(task) => Err(CompileFailedView::Float(task)),
            None => if self.parser.had_error {
                Err(CompileFailedView::Syntax(self.parser.diagnostics))
            } else {
                Ok(self.chunk)
            },
        }
    }
}

/// The chunk that a source compiles to, or why it compiles to none.
pub open spec fn compile(source: Seq<u8>, memo: Answers) -> Result<ChunkView, CompileFailedView> {
    CompilerView::initial(source).compile(memo).outcome()
}

} // verus!
